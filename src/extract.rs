//! The task extractor: walks a folder listing message by message and turns
//! what was fetched into the task snapshot.
//!
//! For each sequence position from 1 to the folder's message count the
//! runner fetches the message's uid, then its header block. A uid that
//! cannot be fetched ends the cycle in failure; a header that cannot be
//! fetched or read only leaves that message out.
use crate::engine::{engine_step, poll_step, Engine, Phase};
use crate::subject::{message_title, parts_view, title_of};
use crate::task::{Effect, Message, Task, TaskSet};
use vstd::prelude::*;

verus! {

/// The title a fetched header gives, if any.
pub open spec fn fetched_title(header: Option<Seq<Seq<u8>>>) -> Option<Seq<char>> {
    match header {
        Some(parts) => title_of(parts),
        None => None,
    }
}

/// The tasks that a folder's messages give: one per message with a
/// readable subject, from its title and uid.
pub open spec fn tasks_from(msgs: Seq<(u64, Option<Seq<Seq<u8>>>)>) -> Set<(Seq<char>, u64)> {
    Set::new(
        |t: (Seq<char>, u64)|
            exists|i: int| 0 <= i < msgs.len() && #[trigger] msgs[i].0 == t.1 && fetched_title(msgs[i].1) == Some(t.0),
    )
}

/// The parts of a fetched header block, as byte sequences.
pub open spec fn header_view(parts: Option<Vec<Vec<u8>>>) -> Option<Seq<Seq<u8>>> {
    match parts {
        Some(p) => Some(parts_view(p@)),
        None => None,
    }
}

/// Two poll cycles over the same messages give the same tasks, whatever
/// order the messages were listed in.
pub proof fn lemma_same_messages_same_tasks(
    a: Seq<(u64, Option<Seq<Seq<u8>>>)>,
    b: Seq<(u64, Option<Seq<Seq<u8>>>)>,
)
    requires
        forall|m: (u64, Option<Seq<Seq<u8>>>)| a.contains(m) <==> b.contains(m),
    ensures
        tasks_from(a) == tasks_from(b),
{
    assert forall|x: (Seq<char>, u64)| tasks_from(a).contains(x) implies tasks_from(b).contains(x) by {
        let i = choose|i: int| 0 <= i < a.len() && #[trigger] a[i].0 == x.1 && fetched_title(a[i].1) == Some(x.0);
        assert(a.contains(a[i]));
        let j = choose|j: int| 0 <= j < b.len() && b[j] == a[i];
        assert(b[j].0 == x.1);
    }
    assert forall|x: (Seq<char>, u64)| tasks_from(b).contains(x) implies tasks_from(a).contains(x) by {
        let i = choose|i: int| 0 <= i < b.len() && #[trigger] b[i].0 == x.1 && fetched_title(b[i].1) == Some(x.0);
        assert(b.contains(b[i]));
        let j = choose|j: int| 0 <= j < a.len() && a[j] == b[i];
        assert(a[j].0 == x.1);
    }
    assert(tasks_from(a) =~= tasks_from(b));
}

/// Deleting the task with uid `u` asks the store to remove its message and
/// then to refresh; when the folder read by that refresh holds no message
/// with uid `u`, the snapshot forwarded holds no task with uid `u`.
pub proof fn lemma_deleted_task_absent(
    e: Engine,
    u: u64,
    msgs: Seq<(u64, Option<Seq<Seq<u8>>>)>,
    snapshot: TaskSet,
)
    requires
        e.wf(),
        e.phase == Phase::Ready,
        e.session,
        forall|i: int| 0 <= i < msgs.len() ==> msgs[i].0 != u,
        snapshot@ == tasks_from(msgs),
    ensures
        ({
            let (e1, fx1) = engine_step(e, Message::Delete(u));
            let (e2, fx2) = engine_step(e1, Message::Awake);
            let (e3, fx3) = poll_step(e2, Some(snapshot));
            &&& fx1 == seq![Effect::RemoveMessage(u), Effect::Wake(Message::Awake)]
            &&& fx2 == seq![Effect::FetchTasks]
            &&& fx3[0] == Effect::Notify(Message::Tasks(snapshot))
            &&& forall|t: (Seq<char>, u64)| snapshot@.contains(t) ==> t.1 != u
        }),
{
    assert forall|t: (Seq<char>, u64)| snapshot@.contains(t) implies t.1 != u by {
        let i = choose|i: int| 0 <= i < msgs.len() && #[trigger] msgs[i].0 == t.1 && fetched_title(msgs[i].1) == Some(t.0);
    }
}

/// The next thing to fetch, by sequence position.
#[derive(Debug, Clone, Copy, PartialEq, Eq, Structural)]
pub enum Fetch {
    Uid(u32),
    Header(u32),
    Done,
}

/// A poll cycle in progress over a folder of `count` messages.
pub struct Extraction {
    count: u32,
    handled: u32,
    uid: Option<u64>,
    failed: bool,
    tasks: TaskSet,
    seen: Ghost<Seq<(u64, Option<Seq<Seq<u8>>>)>>,
}

impl Extraction {
    /// The folder's message count.
    pub closed spec fn count(&self) -> nat {
        self.count as nat
    }

    /// The messages handled so far: each uid with its fetched header.
    pub closed spec fn seen(&self) -> Seq<(u64, Option<Seq<Seq<u8>>>)> {
        self.seen@
    }

    /// The uid of the message whose header is awaited.
    pub closed spec fn pending(&self) -> Option<u64> {
        self.uid
    }

    /// Whether a uid could not be fetched.
    pub closed spec fn failed(&self) -> bool {
        self.failed
    }

    pub closed spec fn wf(&self) -> bool {
        &&& self.seen@.len() == self.handled
        &&& self.handled <= self.count
        &&& self.uid is Some ==> self.seen@.len() < self.count
        &&& self.failed ==> self.uid is None
        &&& self.tasks.wf()
        &&& self.tasks@ == tasks_from(self.seen@)
    }

    /// The next fetch: a header when a uid is pending, else the next uid,
    /// until every message is handled or a uid failed.
    pub open spec fn next_spec(&self) -> Fetch {
        if self.failed() {
            Fetch::Done
        } else if self.pending() is Some {
            Fetch::Header((self.seen().len() + 1) as u32)
        } else if self.seen().len() < self.count() {
            Fetch::Uid((self.seen().len() + 1) as u32)
        } else {
            Fetch::Done
        }
    }

    /// Starts a cycle over a folder of `count` messages.
    pub fn new(count: u32) -> (r: Extraction)
        ensures
            r.wf(),
            r.count() == count,
            r.seen() == Seq::<(u64, Option<Seq<Seq<u8>>>)>::empty(),
            r.pending() is None,
            !r.failed(),
    {
        let tasks = TaskSet::new();
        let r = Extraction { count, handled: 0, uid: None, failed: false, tasks, seen: Ghost(Seq::empty()) };
        assert(r.tasks@ =~= tasks_from(r.seen@));
        r
    }

    /// What to fetch next.
    pub fn next_fetch(&self) -> (r: Fetch)
        requires
            self.wf(),
        ensures
            r == self.next_spec(),
    {
        if self.failed {
            Fetch::Done
        } else if self.uid.is_some() {
            Fetch::Header(self.handled + 1)
        } else if self.handled < self.count {
            Fetch::Uid(self.handled + 1)
        } else {
            Fetch::Done
        }
    }

    /// Takes the outcome of fetching the next uid: `None` when it failed,
    /// which fails the whole cycle.
    pub fn uid_fetched(&mut self, uid: Option<u64>)
        requires
            old(self).wf(),
            old(self).next_spec() is Uid,
        ensures
            final(self).wf(),
            final(self).count() == old(self).count(),
            final(self).seen() == old(self).seen(),
            final(self).pending() == uid,
            final(self).failed() == uid is None,
    {
        match uid {
            Some(u) => self.uid = Some(u),
            None => self.failed = true,
        }
    }

    /// Takes the outcome of fetching the pending message's header block:
    /// its parts, or `None` when the fetch failed. The message becomes a
    /// task when a subject can be read from its header.
    pub fn header_fetched(&mut self, parts: Option<Vec<Vec<u8>>>)
        requires
            old(self).wf(),
            old(self).next_spec() is Header,
        ensures
            final(self).wf(),
            final(self).count() == old(self).count(),
            final(self).pending() is None,
            !final(self).failed(),
            final(self).seen() == old(self).seen().push((old(self).pending()->0, header_view(parts))),
    {
        let uid = match self.uid {
            Some(u) => u,
            None => 0,
        };
        let ghost header = header_view(parts);
        let ghost before = self.seen@;
        let ghost after = before.push((uid, header));
        let title = match &parts {
            Some(p) => message_title(p),
            None => None,
        };
        assert(crate::subject::opt_view(title) == fetched_title(header));
        match title {
            Some(t) => {
                let ghost tv = t@;
                assert(fetched_title(header) == Some(tv));
                self.tasks.insert(Task { title: t, uid });
                proof {
                    assert(tasks_from(after) =~= tasks_from(before).insert((tv, uid))) by {
                        assert(after[before.len() as int] == (uid, header));
                        assert(fetched_title(after[before.len() as int].1) == Some(tv));
                        let k = before.len() as int;
                        let x = (tv, uid);
                        assert(0 <= k < after.len() && after[k].0 == x.1 && fetched_title(after[k].1) == Some(x.0));
                        assert(tasks_from(after).contains(x));
                        assert forall|x: (Seq<char>, u64)| tasks_from(before).contains(x) implies tasks_from(after).contains(x) by {
                            let i = choose|i: int| 0 <= i < before.len() && #[trigger] before[i].0 == x.1 && fetched_title(before[i].1) == Some(x.0);
                            assert(after[i] == before[i]);
                        }
                        assert forall|x: (Seq<char>, u64)| tasks_from(after).contains(x) && x != (tv, uid) implies tasks_from(before).contains(x) by {
                            let i = choose|i: int| 0 <= i < after.len() && #[trigger] after[i].0 == x.1 && fetched_title(after[i].1) == Some(x.0);
                            assert(i < before.len());
                            assert(before[i] == after[i]);
                        }
                    }
                }
            },
            None => {
                proof {
                    assert(tasks_from(after) =~= tasks_from(before)) by {
                        assert forall|x: (Seq<char>, u64)| tasks_from(before).contains(x) implies tasks_from(after).contains(x) by {
                            let i = choose|i: int| 0 <= i < before.len() && #[trigger] before[i].0 == x.1 && fetched_title(before[i].1) == Some(x.0);
                            assert(after[i] == before[i]);
                        }
                        assert forall|x: (Seq<char>, u64)| tasks_from(after).contains(x) implies tasks_from(before).contains(x) by {
                            let i = choose|i: int| 0 <= i < after.len() && #[trigger] after[i].0 == x.1 && fetched_title(after[i].1) == Some(x.0);
                            assert(i < before.len());
                            assert(before[i] == after[i]);
                        }
                    }
                }
            },
        }
        self.seen = Ghost(after);
        self.uid = None;
        self.handled = self.handled + 1;
    }

    /// The snapshot, once every message is handled; `None` when a uid could
    /// not be fetched.
    pub fn finish(self) -> (r: Option<TaskSet>)
        requires
            self.wf(),
            self.next_spec() is Done,
        ensures
            self.failed() ==> r is None,
            !self.failed() ==> (r matches Some(t) && t.wf() && t@ == tasks_from(self.seen())
                && self.seen().len() == self.count()),
    {
        if self.failed {
            None
        } else {
            Some(self.tasks)
        }
    }
}

} // verus!
