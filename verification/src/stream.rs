//! Search streams: the results of one search, delivered one by one as the
//! partitions of the space report them.

use std::collections::VecDeque;
use vstd::prelude::*;
use crate::error::Error;
use crate::object::{Attrs, Object};
use crate::space::object_views;

verus! {

/// What a stream hands out when asked for the next result.
#[derive(Debug)]
pub enum Step {
    /// The next object.
    Item(Object),
    /// Nothing has arrived yet, and some partition has not finished.
    Waiting,
    /// The stream failed; this marker closes it.
    Failed(Error),
    /// Every partition has finished and every object was handed out.
    Finished,
}

/// The content of a step.
pub enum StepModel {
    Item(Attrs),
    Waiting,
    Failed(Error),
    Finished,
}

impl View for Step {
    type V = StepModel;

    open spec fn view(&self) -> StepModel {
        match self {
            Step::Item(o) => StepModel::Item(o@),
            Step::Waiting => StepModel::Waiting,
            Step::Failed(e) => StepModel::Failed(*e),
            Step::Finished => StepModel::Finished,
        }
    }
}

/// The state of a stream: the objects that arrived and were not handed out
/// yet, in the order of their arrival; the number of partitions that have
/// not finished; and a fault that was not reported yet.
pub struct StreamModel {
    pub buffered: Seq<Attrs>,
    pub open: nat,
    pub fault: Option<Error>,
}

impl StreamModel {
    /// Whether the stream still takes in what partitions send.
    pub open spec fn is_live(self) -> bool {
        self.open > 0 && self.fault is None
    }

    /// The state after an object arrived. A stream that is not live drops
    /// it.
    pub open spec fn after_item(self, obj: Attrs) -> StreamModel {
        if self.is_live() {
            StreamModel { buffered: self.buffered.push(obj), ..self }
        } else {
            self
        }
    }

    /// The state after one partition finished.
    pub open spec fn after_partition_done(self) -> StreamModel {
        if self.is_live() {
            StreamModel { open: (self.open - 1) as nat, ..self }
        } else {
            self
        }
    }

    /// The state after a fault: no partition is waited for any more, and
    /// the fault waits behind the objects that arrived before it.
    pub open spec fn after_fault(self, e: Error) -> StreamModel {
        if self.is_live() {
            StreamModel { open: 0, fault: Some(e), ..self }
        } else {
            self
        }
    }

    /// What the next request hands out, and the state after it.
    pub open spec fn next(self) -> (StepModel, StreamModel) {
        if self.buffered.len() > 0 {
            (
                StepModel::Item(self.buffered[0]),
                StreamModel { buffered: self.buffered.subrange(1, self.buffered.len() as int), ..self },
            )
        } else if let Some(e) = self.fault {
            (StepModel::Failed(e), StreamModel { fault: None, ..self })
        } else if self.open > 0 {
            (StepModel::Waiting, self)
        } else {
            (StepModel::Finished, self)
        }
    }
}

/// A finite sequence of objects that is handed out once, in no promised
/// order.
#[derive(Debug)]
pub struct SearchStream {
    queue: VecDeque<Object>,
    open: usize,
    fault: Option<Error>,
}

impl View for SearchStream {
    type V = StreamModel;

    closed spec fn view(&self) -> StreamModel {
        StreamModel {
            buffered: object_views(self.queue@),
            open: self.open as nat,
            fault: self.fault,
        }
    }
}

impl SearchStream {
    /// The stream of a search that `partitions` partitions answer.
    pub fn open(partitions: usize) -> (r: SearchStream)
        ensures
            r@ == (StreamModel { buffered: Seq::empty(), open: partitions as nat, fault: None }),
    {
        let r = SearchStream { queue: VecDeque::new(), open: partitions, fault: None };
        assert(object_views(r.queue@) =~= Seq::<Attrs>::empty());
        r
    }

    /// The stream of a search that was answered already: the objects of a
    /// result, or the fault in their place.
    pub fn finished(outcome: Result<Vec<Object>, Error>) -> (r: SearchStream)
        ensures
            r@.open == 0,
            outcome matches Ok(items) ==> r@.buffered == object_views(items@) && r@.fault is None,
            outcome matches Err(e) ==> r@.buffered.len() == 0 && r@.fault == Some(e),
    {
        match outcome {
            Ok(items) => {
                let mut items = items;
                let ghost all = object_views(items@);
                let mut queue: VecDeque<Object> = VecDeque::new();
                assert(object_views(queue@) =~= all.subrange(all.len() as int, all.len() as int));
                while items.len() > 0
                    invariant
                        items.len() <= all.len(),
                        object_views(items@) == all.subrange(0, items.len() as int),
                        object_views(queue@) == all.subrange(items.len() as int, all.len() as int),
                    decreases items.len(),
                {
                    let ghost n = items.len();
                    let ghost before = items@;
                    let ghost queued = queue@;
                    let last = items.pop().unwrap();
                    assert(last@ == all[n - 1]) by {
                        assert(object_views(before)[n - 1] == all.subrange(0, n as int)[n - 1]);
                    }
                    queue.push_front(last);
                    proof {
                        assert(object_views(items@) =~= all.subrange(0, n - 1)) by {
                            assert forall|k: int| 0 <= k < n - 1 implies object_views(items@)[k]
                                == all[k] by {
                                assert(object_views(before)[k] == all.subrange(0, n as int)[k]);
                            }
                        }
                        assert(object_views(queue@) =~= all.subrange(n - 1, all.len() as int)) by {
                            assert(object_views(queued).len() == all.len() - n);
                            assert(queue@ =~= seq![last] + queued);
                            assert forall|k: int| 0 <= k < queue@.len() implies object_views(
                                queue@,
                            )[k] == all[n - 1 + k] by {
                                if k == 0 {
                                    assert(queue@[0] == last);
                                }
                                if k > 0 {
                                    assert(queue@[k] == queued[k - 1]);
                                    assert(object_views(queued)[k - 1] == all.subrange(
                                        n as int,
                                        all.len() as int,
                                    )[k - 1]);
                                }
                            }
                        }
                    }
                }
                assert(object_views(queue@) =~= all);
                SearchStream { queue, open: 0, fault: None }
            },
            Err(e) => {
                let r = SearchStream { queue: VecDeque::new(), open: 0, fault: Some(e) };
                assert(object_views(r.queue@) =~= Seq::<Attrs>::empty());
                r
            },
        }
    }

    /// Takes in an object that a partition sent.
    pub fn on_item(&mut self, obj: Object)
        ensures
            final(self)@ == old(self)@.after_item(obj@),
    {
        if self.open > 0 && self.fault.is_none() {
            let ghost before = object_views(self.queue@);
            self.queue.push_back(obj);
            assert(object_views(self.queue@) =~= before.push(obj@));
        }
    }

    /// Takes in the report that one partition has finished.
    pub fn on_partition_done(&mut self)
        ensures
            final(self)@ == old(self)@.after_partition_done(),
    {
        if self.open > 0 && self.fault.is_none() {
            self.open = self.open - 1;
        }
    }

    /// Takes in a fault. The objects that arrived before it are still
    /// handed out, then the fault.
    pub fn on_fault(&mut self, e: Error)
        ensures
            final(self)@ == old(self)@.after_fault(e),
    {
        if self.open > 0 && self.fault.is_none() {
            self.open = 0;
            self.fault = Some(e);
        }
    }

    /// Hands out the next object, the fault, or the reason why there is
    /// none.
    pub fn next(&mut self) -> (r: Step)
        ensures
            (r@, final(self)@) == old(self)@.next(),
    {
        let ghost before = object_views(self.queue@);
        match self.queue.pop_front() {
            Some(obj) => {
                assert(object_views(self.queue@) =~= before.subrange(1, before.len() as int));
                assert(obj@ == before[0]);
                Step::Item(obj)
            },
            None => {
                assert(object_views(self.queue@) =~= before);
                match self.fault {
                    Some(e) => {
                        self.fault = None;
                        Step::Failed(e)
                    },
                    None => {
                        if self.open > 0 {
                            Step::Waiting
                        } else {
                            Step::Finished
                        }
                    },
                }
            },
        }
    }

    /// Gives the stream up. Returns whether the space still holds a
    /// subscription for it, which the caller then has to release.
    pub fn cancel(self) -> (r: bool)
        ensures
            r == self@.is_live(),
    {
        self.open > 0 && self.fault.is_none()
    }

    /// Hands out at once everything that has arrived: the objects in the
    /// order of their arrival, and the fault if there is one. What
    /// partitions send later is handed out later.
    pub fn drain(&mut self) -> (r: (Vec<Object>, Option<Error>))
        ensures
            object_views(r.0@) == old(self)@.buffered,
            r.1 == old(self)@.fault,
            final(self)@ == (StreamModel {
                buffered: Seq::empty(),
                open: old(self)@.open,
                fault: None,
            }),
    {
        let ghost all = object_views(self.queue@);
        let mut out: Vec<Object> = Vec::new();
        assert(object_views(out@) =~= all.subrange(0, 0));
        assert(object_views(self.queue@) =~= all.subrange(0, all.len() as int));
        while self.queue.len() > 0
            invariant
                out.len() + self.queue.len() == all.len(),
                object_views(out@) == all.subrange(0, out.len() as int),
                object_views(self.queue@) == all.subrange(out.len() as int, all.len() as int),
                self.open == old(self).open,
                self.fault == old(self).fault,
            decreases self.queue.len(),
        {
            let ghost n = out.len();
            let ghost queued = self.queue@;
            let ghost taken = out@;
            let first = self.queue.pop_front().unwrap();
            proof {
                assert(first@ == all[n as int]) by {
                    assert(object_views(queued)[0] == all.subrange(n as int, all.len() as int)[0]);
                }
            }
            out.push(first);
            proof {
                assert(object_views(out@) =~= all.subrange(0, n + 1)) by {
                    assert forall|k: int| 0 <= k < n + 1 implies object_views(out@)[k] == all[k] by {
                        if k < n {
                            assert(object_views(taken)[k] == all.subrange(0, n as int)[k]);
                        }
                    }
                }
                assert(object_views(self.queue@) =~= all.subrange(n + 1, all.len() as int)) by {
                    assert forall|k: int| 0 <= k < self.queue@.len() implies object_views(
                        self.queue@,
                    )[k] == all[n + 1 + k] by {
                        assert(self.queue@[k] == queued[k + 1]);
                        assert(object_views(queued)[k + 1] == all.subrange(
                            n as int,
                            all.len() as int,
                        )[k + 1]);
                    }
                }
            }
        }
        let fault = self.fault;
        self.fault = None;
        proof {
            assert(object_views(out@) =~= all);
            assert(object_views(self.queue@) =~= Seq::<Attrs>::empty());
        }
        (out, fault)
    }
}

} // verus!
