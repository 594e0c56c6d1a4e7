//! The upload queue's consumer: one worker that deduplicates store paths
//! for the life of the process and starts the per-path upload at most
//! once for each path, dropping work while the backend is throttled.

use vstd::prelude::*;

use crate::byteset::ByteSet;

verus! {

/// A message to the queue's single consumer.
pub enum Request {
    /// Drain and stop: everything enqueued earlier is still handled.
    Shutdown,
    /// Upload one store path.
    Upload(Vec<u8>),
}

/// What the consumer does with one message.
pub enum QueueAction {
    /// Leave the loop.
    Stop,
    /// Drop the message: the path was seen before, or the breaker is
    /// tripped.
    Skip,
    /// Run the per-path upload pipeline for this path.
    Start(Vec<u8>),
}

/// The consumer's state: every path it has ever accepted.
pub struct UploadQueue {
    seen: ByteSet,
}

impl View for UploadQueue {
    type V = Set<Seq<u8>>;

    closed spec fn view(&self) -> Set<Seq<u8>> {
        self.seen@
    }
}

impl UploadQueue {
    pub closed spec fn wf(self) -> bool {
        self.seen.wf()
    }

    pub fn new() -> (r: UploadQueue)
        ensures
            r.wf(),
            r@ == Set::<Seq<u8>>::empty(),
    {
        UploadQueue { seen: ByteSet::new() }
    }

    /// Handles one message: stop on shutdown; drop the path while the
    /// breaker is tripped, or when it was seen before; otherwise mark it
    /// seen and start its upload.
    pub fn worker_step(&mut self, tripped: bool, req: Request) -> (a: QueueAction)
        requires
            old(self).wf(),
        ensures
            final(self).wf(),
            match req {
                Request::Shutdown => a is Stop && final(self)@ == old(self)@,
                Request::Upload(p) => {
                    &&& (a matches QueueAction::Start(q) ==> q@ == p@)
                    &&& (a is Start <==> !tripped && !old(self)@.contains(p@))
                    &&& !(a is Stop)
                    &&& final(self)@ == if tripped {
                        old(self)@
                    } else {
                        old(self)@.insert(p@)
                    }
                },
            },
    {
        match req {
            Request::Shutdown => QueueAction::Stop,
            Request::Upload(p) => {
                if tripped {
                    return QueueAction::Skip;
                }
                if self.seen.contains(p.as_slice()) {
                    proof {
                        assert(self@ =~= old(self)@.insert(p@));
                    }
                    return QueueAction::Skip;
                }
                let q = crate::upload::copy_bytes(&p);
                self.seen.insert(p);
                QueueAction::Start(q)
            },
        }
    }
}

/// One step of the consumer over the seen-set, in the abstract: the set
/// afterwards, and whether the path's upload starts.
pub open spec fn queue_step(seen: Set<Seq<u8>>, tripped: bool, path: Seq<u8>) -> (
    Set<Seq<u8>>,
    bool,
) {
    if tripped {
        (seen, false)
    } else if seen.contains(path) {
        (seen, false)
    } else {
        (seen.insert(path), true)
    }
}

/// The seen-set after a sequence of upload messages; each message is the
/// breaker state at that moment and the path.
pub open spec fn seen_after(seen: Set<Seq<u8>>, jobs: Seq<(bool, Seq<u8>)>) -> Set<Seq<u8>>
    decreases jobs.len(),
{
    if jobs.len() == 0 {
        seen
    } else {
        queue_step(seen_after(seen, jobs.drop_last()), jobs.last().0, jobs.last().1).0
    }
}

/// The paths whose upload starts, in order, over a sequence of upload
/// messages.
pub open spec fn started_paths(seen: Set<Seq<u8>>, jobs: Seq<(bool, Seq<u8>)>) -> Seq<Seq<u8>>
    decreases jobs.len(),
{
    if jobs.len() == 0 {
        Seq::empty()
    } else {
        let prior = started_paths(seen, jobs.drop_last());
        if queue_step(seen_after(seen, jobs.drop_last()), jobs.last().0, jobs.last().1).1 {
            prior.push(jobs.last().1)
        } else {
            prior
        }
    }
}

/// Every started path is in the seen-set afterwards.
proof fn lemma_started_in_seen(seen: Set<Seq<u8>>, jobs: Seq<(bool, Seq<u8>)>, x: Seq<u8>)
    requires
        started_paths(seen, jobs).contains(x),
    ensures
        seen_after(seen, jobs).contains(x),
    decreases jobs.len(),
{
    if jobs.len() > 0 {
        let prior = started_paths(seen, jobs.drop_last());
        let before = seen_after(seen, jobs.drop_last());
        let step = queue_step(before, jobs.last().0, jobs.last().1);
        if step.1 && x == jobs.last().1 {
        } else {
            assert(prior.contains(x)) by {
                if step.1 {
                    let i = choose|i: int|
                        0 <= i < started_paths(seen, jobs).len() && started_paths(seen, jobs)[i]
                            == x;
                    assert(i < prior.len() + 1);
                    assert(prior.push(jobs.last().1)[i] == x);
                    assert(i != prior.len());
                    assert(prior[i] == x);
                }
            }
            lemma_started_in_seen(seen, jobs.drop_last(), x);
        }
    }
}

/// However often a path is enqueued, its upload starts at most once in
/// the process's lifetime: the started paths hold no duplicates.
pub proof fn lemma_path_started_at_most_once(seen: Set<Seq<u8>>, jobs: Seq<(bool, Seq<u8>)>)
    ensures
        started_paths(seen, jobs).no_duplicates(),
    decreases jobs.len(),
{
    if jobs.len() > 0 {
        lemma_path_started_at_most_once(seen, jobs.drop_last());
        let prior = started_paths(seen, jobs.drop_last());
        let before = seen_after(seen, jobs.drop_last());
        let step = queue_step(before, jobs.last().0, jobs.last().1);
        if step.1 {
            let p = jobs.last().1;
            assert(!before.contains(p));
            if prior.contains(p) {
                lemma_started_in_seen(seen, jobs.drop_last(), p);
            }
            assert(!prior.contains(p));
            let now = prior.push(p);
            assert forall|i: int, j: int|
                0 <= i < now.len() && 0 <= j < now.len() && i != j implies now[i] != now[j] by {
                if i < prior.len() && j < prior.len() {
                    assert(prior[i] != prior[j]);
                } else if i < prior.len() && j == prior.len() {
                    assert(prior[i] != p) by {
                        if prior[i] == p {
                            assert(prior.contains(p));
                        }
                    }
                } else if j < prior.len() && i == prior.len() {
                    assert(prior[j] != p) by {
                        if prior[j] == p {
                            assert(prior.contains(p));
                        }
                    }
                }
            }
        }
    }
}

} // verus!
