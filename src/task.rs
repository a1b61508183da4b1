//! Tasks, the snapshot set of them, and the message vocabulary.
use vstd::prelude::*;

verus! {

/// A to-do item: the subject of a message and the store's stable id for it.
#[derive(Debug, Clone, Hash)]
pub struct Task {
    pub title: String,
    pub uid: u64,
}

impl View for Task {
    type V = (Seq<char>, u64);

    open spec fn view(&self) -> (Seq<char>, u64) {
        (self.title@, self.uid)
    }
}

impl PartialEq for Task {
    fn eq(&self, other: &Task) -> (r: bool) {
        self.uid == other.uid && self.title == other.title
    }
}

impl vstd::std_specs::cmp::PartialEqSpecImpl for Task {
    open spec fn obeys_eq_spec() -> bool {
        true
    }

    open spec fn eq_spec(&self, other: &Task) -> bool {
        self@ == other@
    }
}

impl Eq for Task {}

/// A set of tasks, kept as a vector without two equal entries.
#[derive(Debug, Clone)]
pub struct TaskSet {
    items: Vec<Task>,
}

impl View for TaskSet {
    type V = Set<(Seq<char>, u64)>;

    closed spec fn view(&self) -> Set<(Seq<char>, u64)> {
        Set::new(|t: (Seq<char>, u64)| exists|i: int| 0 <= i < self.items@.len() && self.items@[i]@ == t)
    }
}

impl TaskSet {
    /// No task is held twice.
    pub closed spec fn wf(&self) -> bool {
        forall|i: int, j: int|
            #![trigger self.items@[i], self.items@[j]]
            0 <= i < j < self.items@.len() ==> self.items@[i]@ != self.items@[j]@
    }

    /// The number of tasks, as a mathematical integer.
    pub closed spec fn size(&self) -> nat {
        self.items@.len()
    }

    proof fn lemma_size_is_len(&self)
        requires
            self.wf(),
        ensures
            self@.finite(),
            self@.len() == self.size(),
        decreases self.items@.len(),
    {
        let s = self.items@.map_values(|t: Task| t@);
        assert(s.no_duplicates()) by {
            assert forall|i: int, j: int| 0 <= i < s.len() && 0 <= j < s.len() && i != j implies s[i] != s[j] by {
                if i < j {
                    assert(self.items@[i]@ != self.items@[j]@);
                } else {
                    assert(self.items@[j]@ != self.items@[i]@);
                }
            }
        }
        assert(self@ =~= s.to_set()) by {
            assert forall|t| self@.contains(t) implies s.to_set().contains(t) by {
                let i = choose|i: int| 0 <= i < self.items@.len() && self.items@[i]@ == t;
                assert(s[i] == t);
            }
            assert forall|t| s.to_set().contains(t) implies self@.contains(t) by {
                let i = choose|i: int| 0 <= i < s.len() && s[i] == t;
                assert(self.items@[i]@ == t);
            }
        }
        s.unique_seq_to_set();
    }

    /// An empty set.
    pub fn new() -> (r: TaskSet)
        ensures
            r.wf(),
            r@ == Set::<(Seq<char>, u64)>::empty(),
    {
        let r = TaskSet { items: Vec::new() };
        assert(r@ =~= Set::<(Seq<char>, u64)>::empty());
        r
    }

    /// Whether a task with this title and uid is held.
    pub fn contains(&self, task: &Task) -> (r: bool)
        requires
            self.wf(),
        ensures
            r == self@.contains(task@),
    {
        let mut i: usize = 0;
        while i < self.items.len()
            invariant
                i <= self.items@.len(),
                forall|k: int| 0 <= k < i ==> self.items@[k]@ != task@,
            decreases self.items@.len() - i,
        {
            if self.items[i].uid == task.uid && self.items[i].title == task.title {
                return true;
            }
            i = i + 1;
        }
        false
    }

    /// Adds a task; returns whether it was new.
    pub fn insert(&mut self, task: Task) -> (r: bool)
        requires
            old(self).wf(),
        ensures
            final(self).wf(),
            final(self)@ == old(self)@.insert(task@),
            r == !old(self)@.contains(task@),
    {
        if self.contains(&task) {
            proof {
                assert(self@ =~= self@.insert(task@));
            }
            false
        } else {
            let ghost before = self.items@;
            self.items.push(task);
            proof {
                assert(self.items@[before.len() as int]@ == task@);
                assert forall|t| #[trigger] self@.contains(t) == old(self)@.insert(task@).contains(t) by {
                    if self@.contains(t) && t != task@ {
                        let i = choose|i: int| 0 <= i < self.items@.len() && self.items@[i]@ == t;
                        assert(before[i]@ == t);
                    }
                    if old(self)@.contains(t) {
                        let i = choose|i: int| 0 <= i < before.len() && before[i]@ == t;
                        assert(self.items@[i]@ == t);
                    }
                }
                assert(self@ =~= old(self)@.insert(task@));
            }
            true
        }
    }

    /// The number of tasks held.
    pub fn len(&self) -> (r: usize)
        requires
            self.wf(),
        ensures
            self@.finite(),
            r as nat == self@.len(),
    {
        proof {
            self.lemma_size_is_len();
        }
        self.items.len()
    }

    /// Whether some task carries this uid.
    pub fn has_uid(&self, uid: u64) -> (r: bool)
        ensures
            r == exists|t: (Seq<char>, u64)| self@.contains(t) && t.1 == uid,
    {
        let mut i: usize = 0;
        while i < self.items.len()
            invariant
                i <= self.items@.len(),
                forall|k: int| 0 <= k < i ==> self.items@[k].uid != uid,
            decreases self.items@.len() - i,
        {
            if self.items[i].uid == uid {
                assert(self@.contains(self.items@[i as int]@));
                return true;
            }
            i = i + 1;
        }
        assert forall|t: (Seq<char>, u64)| self@.contains(t) implies t.1 != uid by {
            let k = choose|k: int| 0 <= k < self.items@.len() && self.items@[k]@ == t;
        }
        false
    }

    /// The tasks, in no particular order.
    pub fn to_vec(&self) -> (r: Vec<Task>)
        ensures
            forall|t: (Seq<char>, u64)| self@.contains(t) <==> exists|i: int| 0 <= i < r@.len() && r@[i]@ == t,
    {
        let mut r: Vec<Task> = Vec::new();
        let mut i: usize = 0;
        while i < self.items.len()
            invariant
                i <= self.items@.len(),
                r@.len() == i,
                forall|k: int| 0 <= k < i ==> r@[k]@ == self.items@[k]@,
            decreases self.items@.len() - i,
        {
            let t = Task { title: self.items[i].title.clone(), uid: self.items[i].uid };
            r.push(t);
            i = i + 1;
        }
        assert forall|t: (Seq<char>, u64)| self@.contains(t) <==> exists|k: int| 0 <= k < r@.len() && r@[k]@ == t by {
            if self@.contains(t) {
                let k = choose|k: int| 0 <= k < self.items@.len() && self.items@[k]@ == t;
                assert(r@[k]@ == t);
            }
            if exists|k: int| 0 <= k < r@.len() && r@[k]@ == t {
                let k = choose|k: int| 0 <= k < r@.len() && r@[k]@ == t;
                assert(self.items@[k]@ == t);
            }
        }
        r
    }
}

/// The messages exchanged between the engine, its pacers and the
/// presentation layer.
#[derive(Debug)]
pub enum Message {
    Awake,
    Connect,
    Connected,
    Delete(u64),
    NotConnected,
    Sleep,
    Tasks(TaskSet),
    Quit,
}

impl Message {
    /// The messages the engine itself consumes.
    pub open spec fn is_command(&self) -> bool {
        match self {
            Message::Awake | Message::Connect | Message::Sleep | Message::Delete(_) | Message::Quit => true,
            _ => false,
        }
    }

    /// Whether the engine consumes this message; any other reaching it is a
    /// defect upstream.
    pub fn is_engine_command(&self) -> (r: bool)
        ensures
            r == self.is_command(),
    {
        match self {
            Message::Awake | Message::Connect | Message::Sleep | Message::Delete(_) | Message::Quit => true,
            _ => false,
        }
    }
}

/// What a state machine of this crate asks its runner to do, in order.
#[derive(Debug)]
pub enum Effect {
    /// Send a message to the presentation layer.
    Notify(Message),
    /// Put a message on the machine's own inbound channel.
    Wake(Message),
    /// Release any live session, open and authenticate a new one, and
    /// report the outcome back.
    OpenSession,
    /// Read the task snapshot over the live session; report the outcome back.
    FetchTasks,
    /// Flag the message with this uid as deleted and expunge, best effort.
    RemoveMessage(u64),
    /// Wait for one second.
    Pause,
    /// Log the live session out, best effort.
    Logout,
}

} // verus!
