//! The messages that serialise every observed change, and the list of
//! predicted echoes that keeps the two observers from feeding each other.

use vstd::prelude::*;
use crate::types::ContentId;
use crate::types::RelativeFilePath;

verus! {

/// One observed change, local or remote, or the request to stop.
#[derive(Debug, PartialEq)]
pub enum OperationalMessage {
    NewLocalFile(RelativeFilePath),
    ModifiedLocalFile(RelativeFilePath),
    DeletedLocalFile(RelativeFilePath),
    /// The path before the rename, then the path after it.
    RenamedLocalFile(RelativeFilePath, RelativeFilePath),
    NewRemoteFile(ContentId),
    ModifiedRemoteFile(ContentId),
    DeletedRemoteFile(ContentId),
    Exit,
}

/// What a message says, with each path as its sequence of characters.
pub enum Message {
    NewLocalFile(Seq<char>),
    ModifiedLocalFile(Seq<char>),
    DeletedLocalFile(Seq<char>),
    RenamedLocalFile(Seq<char>, Seq<char>),
    NewRemoteFile(ContentId),
    ModifiedRemoteFile(ContentId),
    DeletedRemoteFile(ContentId),
    Exit,
}

impl View for OperationalMessage {
    type V = Message;

    open spec fn view(&self) -> Message {
        match *self {
            OperationalMessage::NewLocalFile(p) => Message::NewLocalFile(p@),
            OperationalMessage::ModifiedLocalFile(p) => Message::ModifiedLocalFile(p@),
            OperationalMessage::DeletedLocalFile(p) => Message::DeletedLocalFile(p@),
            OperationalMessage::RenamedLocalFile(a, b) => Message::RenamedLocalFile(a@, b@),
            OperationalMessage::NewRemoteFile(id) => Message::NewRemoteFile(id),
            OperationalMessage::ModifiedRemoteFile(id) => Message::ModifiedRemoteFile(id),
            OperationalMessage::DeletedRemoteFile(id) => Message::DeletedRemoteFile(id),
            OperationalMessage::Exit => Message::Exit,
        }
    }
}

impl Clone for OperationalMessage {
    fn clone(&self) -> (copy: Self)
        ensures
            copy@ == self@,
    {
        match self {
            OperationalMessage::NewLocalFile(p) => OperationalMessage::NewLocalFile(p.clone()),
            OperationalMessage::ModifiedLocalFile(p) => OperationalMessage::ModifiedLocalFile(
                p.clone(),
            ),
            OperationalMessage::DeletedLocalFile(p) => OperationalMessage::DeletedLocalFile(
                p.clone(),
            ),
            OperationalMessage::RenamedLocalFile(a, b) => OperationalMessage::RenamedLocalFile(
                a.clone(),
                b.clone(),
            ),
            OperationalMessage::NewRemoteFile(id) => OperationalMessage::NewRemoteFile(*id),
            OperationalMessage::ModifiedRemoteFile(id) => OperationalMessage::ModifiedRemoteFile(
                *id,
            ),
            OperationalMessage::DeletedRemoteFile(id) => OperationalMessage::DeletedRemoteFile(*id),
            OperationalMessage::Exit => OperationalMessage::Exit,
        }
    }
}

impl OperationalMessage {
    /// Whether two messages say the same thing.
    pub fn same_as(&self, other: &OperationalMessage) -> (b: bool)
        ensures
            b == (self@ == other@),
    {
        match self {
            OperationalMessage::NewLocalFile(p) => match other {
                OperationalMessage::NewLocalFile(q) => *p == *q,
                _ => false,
            },
            OperationalMessage::ModifiedLocalFile(p) => match other {
                OperationalMessage::ModifiedLocalFile(q) => *p == *q,
                _ => false,
            },
            OperationalMessage::DeletedLocalFile(p) => match other {
                OperationalMessage::DeletedLocalFile(q) => *p == *q,
                _ => false,
            },
            OperationalMessage::RenamedLocalFile(a, b) => match other {
                OperationalMessage::RenamedLocalFile(c, d) => *a == *c && *b == *d,
                _ => false,
            },
            OperationalMessage::NewRemoteFile(i) => match other {
                OperationalMessage::NewRemoteFile(j) => *i == *j,
                _ => false,
            },
            OperationalMessage::ModifiedRemoteFile(i) => match other {
                OperationalMessage::ModifiedRemoteFile(j) => *i == *j,
                _ => false,
            },
            OperationalMessage::DeletedRemoteFile(i) => match other {
                OperationalMessage::DeletedRemoteFile(j) => *i == *j,
                _ => false,
            },
            OperationalMessage::Exit => match other {
                OperationalMessage::Exit => true,
                _ => false,
            },
        }
    }
}

/// What a list of messages says, message by message.
pub open spec fn messages_of(list: Seq<OperationalMessage>) -> Seq<Message> {
    list.map_values(|m: OperationalMessage| m@)
}

/// The echoes that the handler expects: a multiset of messages, kept in
/// the order in which they were predicted.
pub struct IgnoreList {
    messages: Vec<OperationalMessage>,
}

impl View for IgnoreList {
    type V = Seq<Message>;

    closed spec fn view(&self) -> Seq<Message> {
        self.messages@.map_values(|m: OperationalMessage| m@)
    }
}

impl IgnoreList {
    /// A list that expects nothing.
    pub fn new() -> (list: IgnoreList)
        ensures
            list@ == Seq::<Message>::empty(),
    {
        let list = IgnoreList { messages: Vec::new() };
        assert(list@ =~= Seq::<Message>::empty());
        list
    }

    /// How many echoes are expected.
    pub fn len(&self) -> (n: usize)
        ensures
            n == self@.len(),
    {
        self.messages.len()
    }

    /// How often `message` is expected.
    pub fn count(&self, message: &OperationalMessage) -> (n: usize)
        ensures
            n == self@.to_multiset().count(message@),
    {
        let mut n: usize = 0;
        let mut i: usize = 0;
        proof {
            assert(self@.subrange(0, 0) =~= Seq::<Message>::empty());
            broadcast use vstd::seq_lib::group_to_multiset_ensures;
        }
        while i < self.messages.len()
            invariant
                i <= self.messages.len(),
                n <= i,
                n == self@.subrange(0, i as int).to_multiset().count(message@),
            decreases self.messages.len() - i,
        {
            proof {
                let before = self@.subrange(0, i as int);
                assert(self@.subrange(0, i + 1) =~= before.push(self@[i as int]));
                vstd::seq_lib::to_multiset_build(before, self@[i as int]);
            }
            if self.messages[i].same_as(message) {
                n += 1;
            }
            i += 1;
        }
        assert(self@.subrange(0, i as int) =~= self@);
        n
    }

    /// The expected echoes, in the order of their prediction.
    pub fn messages(&self) -> (list: Vec<OperationalMessage>)
        ensures
            messages_of(list@) == self@,
    {
        let mut list: Vec<OperationalMessage> = Vec::new();
        let mut i: usize = 0;
        while i < self.messages.len()
            invariant
                i <= self.messages.len(),
                messages_of(list@) == self@.subrange(0, i as int),
            decreases self.messages.len() - i,
        {
            let ghost before = list@;
            list.push(self.messages[i].clone());
            assert(messages_of(list@) =~= messages_of(before).push(self@[i as int]));
            assert(self@.subrange(0, i + 1) =~= self@.subrange(0, i as int).push(self@[i as int]));
            i += 1;
        }
        assert(self@.subrange(0, i as int) =~= self@);
        list
    }

    /// Expects one more echo.
    pub fn push(&mut self, message: OperationalMessage)
        ensures
            final(self)@ == old(self)@.push(message@),
    {
        self.messages.push(message);
        assert(self@ =~= old(self)@.push(message@));
    }

    /// Takes one expectation of `message` off the list, the earliest, and
    /// says whether there was one.
    pub fn consume(&mut self, message: &OperationalMessage) -> (found: bool)
        ensures
            found == old(self)@.contains(message@),
            final(self)@ == old(self)@.remove_value(message@),
    {
        let mut i: usize = 0;
        while i < self.messages.len()
            invariant
                i <= self.messages.len(),
                *self == *old(self),
                forall|j: int| 0 <= j < i ==> self@[j] != message@,
            decreases self.messages.len() - i,
        {
            if self.messages[i].same_as(message) {
                proof {
                    old(self)@.index_of_first_ensures(message@);
                    assert(old(self)@[i as int] == message@);
                }
                self.messages.remove(i);
                assert(self@ =~= old(self)@.remove(i as int));
                return true;
            }
            i += 1;
        }
        proof {
            old(self)@.index_of_first_ensures(message@);
        }
        false
    }
}

/// Consuming a message from a list takes exactly one occurrence of it out
/// of the multiset and leaves every other message as often as before.
pub proof fn lemma_consume_takes_one(list: Seq<Message>, message: Message)
    ensures
        list.remove_value(message).to_multiset() == list.to_multiset().remove(message),
{
    broadcast use vstd::seq_lib::group_to_multiset_ensures;

    list.index_of_first_ensures(message);
    match list.index_of_first(message) {
        Some(i) => {
            vstd::seq_lib::to_multiset_remove(list, i);
        },
        None => {
            assert(list.to_multiset().count(message) == 0);
            assert(list.to_multiset().remove(message) =~= list.to_multiset());
        },
    }
}

/// An echo that was predicted once and then observed leaves the list as it
/// was before the prediction, whatever else it holds.
pub proof fn lemma_push_then_consume(list: Seq<Message>, message: Message)
    ensures
        list.push(message).remove_value(message).to_multiset() == list.to_multiset(),
{
    broadcast use vstd::seq_lib::group_to_multiset_ensures;

    lemma_consume_takes_one(list.push(message), message);
    vstd::seq_lib::to_multiset_build(list, message);
    assert(list.to_multiset().insert(message).remove(message) =~= list.to_multiset());
}

} // verus!
