//! The fuzz loop's decisions: which operation to fuzz next, when a pass ends,
//! when to stop, and what to record of each outcome. The caller performs each
//! step (generation, sending) and reports what came of it.
use vstd::prelude::*;
use crate::payload::{declared_methods, once, Method, PathItem};
use crate::validate::check_response;

verus! {

/// One unit of work: the operation for `method` on the path at `path_index`
/// of the description.
#[derive(Clone, Copy, Debug, PartialEq, Eq, Structural)]
pub struct WorkItem {
    pub path_index: usize,
    pub method: Method,
}

/// A response whose status the operation did not declare, with where it
/// came from.
#[derive(Debug)]
pub struct Anomaly {
    pub path: String,
    pub method: Method,
    pub status: u16,
    pub body: String,
}

/// The work items of one pass over `doc`: each path in order, and on each the
/// declared methods in method order.
pub open spec fn work_items(doc: Seq<(String, PathItem)>) -> Seq<WorkItem>
    decreases doc.len(),
{
    if doc.len() == 0 {
        Seq::empty()
    } else {
        work_items(doc.drop_last()) + declared_methods(doc.last().1).map_values(
            |m: Method| WorkItem { path_index: (doc.len() - 1) as usize, method: m },
        )
    }
}

/// Appends `m` to `r` where `item` declares an operation for it.
fn push_declared(r: &mut Vec<Method>, item: &PathItem, m: Method)
    ensures
        final(r)@ == old(r)@ + once(*item, m),
{
    if item.operation(m).is_some() {
        r.push(m);
    }
    assert(r@ =~= old(r)@ + once(*item, m));
}

/// The methods that `item` declares, in method order.
pub fn declared_method_list(item: &PathItem) -> (r: Vec<Method>)
    ensures
        r@ == declared_methods(*item),
{
    let mut r: Vec<Method> = Vec::new();
    assert(r@ =~= Seq::empty());
    push_declared(&mut r, item, Method::Get);
    push_declared(&mut r, item, Method::Put);
    push_declared(&mut r, item, Method::Post);
    push_declared(&mut r, item, Method::Delete);
    push_declared(&mut r, item, Method::Options);
    push_declared(&mut r, item, Method::Head);
    push_declared(&mut r, item, Method::Patch);
    push_declared(&mut r, item, Method::Trace);
    assert(r@ =~= declared_methods(*item));
    r
}

/// The work items of one pass over `doc`.
pub fn plan_pass(doc: &Vec<(String, PathItem)>) -> (r: Vec<WorkItem>)
    ensures
        r@ == work_items(doc@),
{
    let mut r: Vec<WorkItem> = Vec::new();
    let mut i: usize = 0;
    while i < doc.len()
        invariant
            i <= doc@.len(),
            r@ == work_items(doc@.take(i as int)),
        decreases doc@.len() - i,
    {
        let ms = declared_method_list(&doc[i].1);
        let ghost before = r@;
        let ghost added = ms@.map_values(|m: Method| WorkItem { path_index: i, method: m });
        let mut k: usize = 0;
        while k < ms.len()
            invariant
                k <= ms@.len(),
                r@ == before + added.take(k as int),
                added.len() == ms@.len(),
                added == ms@.map_values(|m: Method| WorkItem { path_index: i, method: m }),
            decreases ms@.len() - k,
        {
            r.push(WorkItem { path_index: i, method: ms[k] });
            k = k + 1;
            assert(r@ =~= before + added.take(k as int));
        }
        proof {
            let next = doc@.take(i + 1);
            assert(next.drop_last() =~= doc@.take(i as int));
            assert(next.last() == doc@[i as int]);
            assert(added.take(ms@.len() as int) =~= added);
        }
        i = i + 1;
    }
    assert(doc@.take(doc@.len() as int) =~= doc@);
    r
}

/// The state of a fuzz run: the work of one pass, the position in it, the
/// passes completed and allowed, whether the run has stopped, and what it has
/// recorded.
#[derive(Debug)]
pub struct FuzzLoop {
    pub work: Vec<WorkItem>,
    pub next_index: usize,
    pub passes_done: u64,
    pub max_passes: u64,
    pub stopped: bool,
    pub anomalies: Vec<Anomaly>,
    pub ok_count: u64,
    pub failures: u64,
}

impl FuzzLoop {
    /// The position lies within the pass, and a run that goes on has passes
    /// left.
    pub open spec fn wf(&self) -> bool {
        &&& self.next_index <= self.work@.len()
        &&& !self.stopped ==> self.passes_done < self.max_passes
    }

    /// A run over `doc` that stops after `max_passes` full passes, or at once
    /// when that is zero. Nothing is recorded yet.
    pub fn new(doc: &Vec<(String, PathItem)>, max_passes: u64) -> (r: FuzzLoop)
        ensures
            r.wf(),
            r.work@ == work_items(doc@),
            r.next_index == 0,
            r.passes_done == 0,
            r.max_passes == max_passes,
            r.stopped == (max_passes == 0),
            r.anomalies@.len() == 0,
            r.ok_count == 0,
            r.failures == 0,
    {
        FuzzLoop {
            work: plan_pass(doc),
            next_index: 0,
            passes_done: 0,
            max_passes,
            stopped: max_passes == 0,
            anomalies: Vec::new(),
            ok_count: 0,
            failures: 0,
        }
    }

    /// Decides the next step: `None` once the run stops (on `cancel`, after the
    /// last allowed pass, or on a description with no operation), else the
    /// next work item, starting a new pass after the last item of one.
    pub fn next(&mut self, cancel: bool) -> (r: Option<WorkItem>)
        requires
            old(self).wf(),
        ensures
            final(self).wf(),
            final(self).work == old(self).work,
            final(self).max_passes == old(self).max_passes,
            final(self).anomalies == old(self).anomalies,
            final(self).ok_count == old(self).ok_count,
            final(self).failures == old(self).failures,
            cancel ==> r is None && final(self).stopped,
            old(self).stopped ==> r is None && final(self).stopped,
            r is None ==> final(self).stopped,
            !cancel && !old(self).stopped && old(self).next_index < old(self).work@.len() ==> {
                &&& r == Some(old(self).work@[old(self).next_index as int])
                &&& final(self).next_index == old(self).next_index + 1
                &&& final(self).passes_done == old(self).passes_done
                &&& !final(self).stopped
            },
            !cancel && !old(self).stopped && old(self).next_index == old(self).work@.len() ==> {
                &&& final(self).passes_done == old(self).passes_done + 1
                &&& (final(self).passes_done >= old(self).max_passes || old(self).work@.len() == 0)
                    ==> r is None
                &&& (final(self).passes_done < old(self).max_passes && old(self).work@.len() > 0)
                    ==> r == Some(old(self).work@[0]) && final(self).next_index == 1
            },
    {
        if cancel {
            self.stopped = true;
            return None;
        }
        if self.stopped {
            return None;
        }
        if self.next_index >= self.work.len() {
            self.passes_done = self.passes_done + 1;
            self.next_index = 0;
            if self.passes_done >= self.max_passes || self.work.len() == 0 {
                self.stopped = true;
                return None;
            }
        }
        let w = self.work[self.next_index];
        self.next_index = self.next_index + 1;
        Some(w)
    }

    /// Records a response to the operation for `method` on `path`: an anomaly
    /// exactly when `status` is not among the `declared` codes, else one more
    /// response that matched.
    pub fn record_response(&mut self, path: &String, method: Method, declared: &Vec<u16>, status: u16, body: String)
        ensures
            final(self).work == old(self).work,
            final(self).next_index == old(self).next_index,
            final(self).passes_done == old(self).passes_done,
            final(self).max_passes == old(self).max_passes,
            final(self).stopped == old(self).stopped,
            final(self).failures == old(self).failures,
            declared@.contains(status) ==> {
                &&& final(self).anomalies == old(self).anomalies
                &&& final(self).ok_count == if old(self).ok_count < u64::MAX {
                    (old(self).ok_count + 1) as u64
                } else {
                    old(self).ok_count
                }
            },
            !declared@.contains(status) ==> {
                &&& final(self).ok_count == old(self).ok_count
                &&& final(self).anomalies@.len() == old(self).anomalies@.len() + 1
                &&& final(self).anomalies@.take(old(self).anomalies@.len() as int)
                    == old(self).anomalies@
                &&& final(self).anomalies@.last().path@ == path@
                &&& final(self).anomalies@.last().method == method
                &&& final(self).anomalies@.last().status == status
                &&& final(self).anomalies@.last().body == body
            },
    {
        match check_response(declared, status, body) {
            Some(m) => {
                self.anomalies.push(Anomaly { path: path.clone(), method, status: m.status, body: m.body });
                assert(self.anomalies@.take(old(self).anomalies@.len() as int) =~= old(self).anomalies@);
            },
            None => {
                if self.ok_count < u64::MAX {
                    self.ok_count = self.ok_count + 1;
                }
            },
        }
    }

    /// Records a payload that could not be generated, built or sent.
    pub fn record_failure(&mut self)
        ensures
            final(self).work == old(self).work,
            final(self).next_index == old(self).next_index,
            final(self).passes_done == old(self).passes_done,
            final(self).max_passes == old(self).max_passes,
            final(self).stopped == old(self).stopped,
            final(self).anomalies == old(self).anomalies,
            final(self).ok_count == old(self).ok_count,
            final(self).failures == if old(self).failures < u64::MAX {
                (old(self).failures + 1) as u64
            } else {
                old(self).failures
            },
    {
        if self.failures < u64::MAX {
            self.failures = self.failures + 1;
        }
    }
}

} // verus!
