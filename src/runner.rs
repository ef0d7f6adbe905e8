//! Bookkeeping of the pipeline runner: which pipelines are running, which a
//! new event aborts and which it starts.
use vstd::prelude::*;
use crate::action::ActionPipeline;
use crate::events::{cancels_of, UPSEvent};

verus! {

pub type EventPipelineId = i64;

/// A pipeline that may be aborted by the events that cancel its own
#[derive(Debug, Clone, Copy, PartialEq, Eq, Structural)]
pub struct CancellableEventPipeline {
    pub id: EventPipelineId,
    /// The event this pipeline runs on
    pub event: UPSEvent,
    /// Whether the events that cancel this one abort its run
    pub cancellable: bool,
}

/// An enabled pipeline and the event it runs on
#[derive(Debug, Clone, Copy, PartialEq, Eq, Structural)]
pub struct PipelineEntry {
    pub id: EventPipelineId,
    pub event: UPSEvent,
}

/// A named pipeline of actions bound to an event
#[derive(Debug, Clone)]
pub struct EventPipeline {
    pub id: EventPipelineId,
    pub name: String,
    /// The event it runs on
    pub event: UPSEvent,
    pub enabled: bool,
    /// Whether the events that cancel its own abort its run
    pub cancellable: bool,
    pub pipeline: ActionPipeline,
}

impl EventPipeline {
    /// The pipeline as the runner starts it
    pub fn entry(&self) -> (r: PipelineEntry)
        ensures
            r == (PipelineEntry { id: self.id, event: self.event }),
    {
        PipelineEntry { id: self.id, event: self.event }
    }

    /// The pipeline as the runner aborts it
    pub fn cancellable_entry(&self) -> (r: CancellableEventPipeline)
        ensures
            r == (CancellableEventPipeline { id: self.id, event: self.event, cancellable: self.cancellable }),
    {
        CancellableEventPipeline { id: self.id, event: self.event, cancellable: self.cancellable }
    }
}

/// What the runner does for one event: tasks to abort, then tasks to start
#[derive(Debug)]
pub struct EventPlan {
    pub aborted: Vec<EventPipelineId>,
    pub spawned: Vec<EventPipelineId>,
}

/// `id` belongs to a cancellable pipeline of `found` whose event `event` cancels
pub open spec fn superseded(event: UPSEvent, found: Seq<CancellableEventPipeline>, id: EventPipelineId) -> bool {
    exists|i: int|
        0 <= i < found.len() && (#[trigger] found[i]).id == id && found[i].cancellable
            && cancels_of(event).contains(found[i].event)
}

/// The ids of `s` that `keep` admits, in order
pub open spec fn keep_ids(s: Seq<EventPipelineId>, keep: spec_fn(EventPipelineId) -> bool) -> Seq<EventPipelineId>
    decreases s.len(),
{
    if s.len() == 0 {
        s
    } else {
        let r = keep_ids(s.drop_last(), keep);
        if keep(s.last()) { r.push(s.last()) } else { r }
    }
}

/// Running ids after starting, in order, each entry for `event` that is not running yet
pub open spec fn spawn_all(run: Seq<EventPipelineId>, event: UPSEvent, en: Seq<PipelineEntry>) -> Seq<EventPipelineId>
    decreases en.len(),
{
    if en.len() == 0 {
        run
    } else {
        let r = spawn_all(run, event, en.drop_last());
        let x = en.last();
        if x.event == event && !r.contains(x.id) { r.push(x.id) } else { r }
    }
}

/// Running ids after an event: the superseded ones are dropped, then the
/// event's own pipelines are started
pub open spec fn after_event(
    run: Seq<EventPipelineId>,
    event: UPSEvent,
    found: Seq<CancellableEventPipeline>,
    en: Seq<PipelineEntry>,
) -> Seq<EventPipelineId> {
    spawn_all(keep_ids(run, |id: EventPipelineId| !superseded(event, found, id)), event, en)
}

/// Ids that a pipeline id stands for one pipeline, which runs on one event
pub open spec fn ids_consistent(found: Seq<CancellableEventPipeline>, en: Seq<PipelineEntry>) -> bool {
    forall|i: int, j: int|
        0 <= i < found.len() && 0 <= j < en.len() && (#[trigger] found[i]).id == (#[trigger] en[j]).id
            ==> found[i].event == en[j].event
}

/// The set of running pipeline tasks, by pipeline id
pub struct EventPipelineRunner {
    running: Vec<EventPipelineId>,
}

impl EventPipelineRunner {
    pub closed spec fn view(&self) -> Seq<EventPipelineId> {
        self.running@
    }

    /// At most one task runs per pipeline id
    pub open spec fn wf(&self) -> bool {
        self@.no_duplicates()
    }

    pub fn new() -> (r: EventPipelineRunner)
        ensures
            r.wf(),
            r@ == Seq::<EventPipelineId>::empty(),
    {
        EventPipelineRunner { running: Vec::new() }
    }

    /// Whether a task for pipeline `id` is running
    pub fn is_running_task(&self, id: EventPipelineId) -> (r: bool)
        ensures
            r == self@.contains(id),
    {
        let mut i: usize = 0;
        while i < self.running.len()
            invariant
                i <= self.running.len(),
                forall|j: int| 0 <= j < i ==> self.running@[j] != id,
            decreases self.running.len() - i,
        {
            if self.running[i] == id {
                return true;
            }
            i += 1;
        }
        false
    }

    /// Aborts the running tasks of the pipelines that `event` supersedes,
    /// out of the cancellable pipelines `found` in the store. Returns the ids
    /// that were running and are aborted.
    pub fn cancel_pipelines(&mut self, event: UPSEvent, found: &Vec<CancellableEventPipeline>) -> (r: Vec<EventPipelineId>)
        requires
            old(self).wf(),
        ensures
            final(self).wf(),
            final(self)@ == keep_ids(old(self)@, |id: EventPipelineId| !superseded(event, found@, id)),
            r@ == keep_ids(old(self)@, |id: EventPipelineId| superseded(event, found@, id)),
    {
        let ghost keep = |id: EventPipelineId| !superseded(event, found@, id);
        let ghost drop = |id: EventPipelineId| superseded(event, found@, id);
        let mut kept: Vec<EventPipelineId> = Vec::new();
        let mut aborted: Vec<EventPipelineId> = Vec::new();
        let mut i: usize = 0;
        while i < self.running.len()
            invariant
                i <= self.running.len(),
                kept@ == keep_ids(self.running@.take(i as int), keep),
                aborted@ == keep_ids(self.running@.take(i as int), drop),
                forall|x: EventPipelineId| #[trigger] keep(x) == !superseded(event, found@, x),
                forall|x: EventPipelineId| #[trigger] drop(x) == superseded(event, found@, x),
            decreases self.running.len() - i,
        {
            let id = self.running[i];
            let cut = is_superseded(event, found, id);
            proof {
                assert(self.running@.take(i + 1).drop_last() =~= self.running@.take(i as int));
                assert(self.running@.take(i + 1).last() == id);
            }
            let ghost t = self.running@.take(i + 1);
            assert(keep(id) == !cut);
            assert(drop(id) == cut);
            assert(keep_ids(t, keep) == if keep(id) { kept@.push(id) } else { kept@ });
            assert(keep_ids(t, drop) == if drop(id) { aborted@.push(id) } else { aborted@ });
            if cut {
                aborted.push(id);
            } else {
                kept.push(id);
            }
            i += 1;
        }
        assert(self.running@.take(self.running.len() as int) =~= self.running@);
        proof {
            lemma_keep_ids(self.running@, keep);
        }
        self.running = kept;
        aborted
    }

    /// Registers a task for pipeline `id` unless one is running already.
    /// Returns whether a task is to be spawned.
    pub fn start_pipeline(&mut self, id: EventPipelineId) -> (r: bool)
        requires
            old(self).wf(),
        ensures
            final(self).wf(),
            r == !old(self)@.contains(id),
            final(self)@ == if r { old(self)@.push(id) } else { old(self)@ },
    {
        if self.is_running_task(id) {
            return false;
        }
        self.running.push(id);
        proof {
            assert forall|a: int, b: int| 0 <= a < b < self.running@.len() implies self.running@[a] != self.running@[b] by {
                if b == self.running@.len() - 1 {
                    assert(old(self)@[a] != id);
                }
            }
        }
        true
    }

    /// Forgets the task of pipeline `id` once it has completed
    pub fn finish_pipeline(&mut self, id: EventPipelineId)
        requires
            old(self).wf(),
        ensures
            final(self).wf(),
            final(self)@ == keep_ids(old(self)@, |x: EventPipelineId| x != id),
    {
        let ghost keep = |x: EventPipelineId| x != id;
        let mut kept: Vec<EventPipelineId> = Vec::new();
        let mut i: usize = 0;
        while i < self.running.len()
            invariant
                i <= self.running.len(),
                kept@ == keep_ids(self.running@.take(i as int), keep),
                forall|y: EventPipelineId| #[trigger] keep(y) == (y != id),
            decreases self.running.len() - i,
        {
            let x = self.running[i];
            proof {
                assert(self.running@.take(i + 1).drop_last() =~= self.running@.take(i as int));
                assert(self.running@.take(i + 1).last() == x);
            }
            assert(keep(x) == (x != id));
            assert(keep_ids(self.running@.take(i + 1), keep) == if keep(x) { kept@.push(x) } else { kept@ });
            if x != id {
                kept.push(x);
            }
            i += 1;
        }
        assert(self.running@.take(self.running.len() as int) =~= self.running@);
        proof {
            lemma_keep_ids(self.running@, keep);
        }
        self.running = kept;
    }

    /// Handles one event: aborts the superseded tasks, then starts a task for
    /// each enabled pipeline of the event that is not running yet
    pub fn handle_event(
        &mut self,
        event: UPSEvent,
        found: &Vec<CancellableEventPipeline>,
        enabled: &Vec<PipelineEntry>,
    ) -> (r: EventPlan)
        requires
            old(self).wf(),
        ensures
            final(self).wf(),
            final(self)@ == after_event(old(self)@, event, found@, enabled@),
            r.aborted@ == keep_ids(old(self)@, |id: EventPipelineId| superseded(event, found@, id)),
            final(self)@ == keep_ids(old(self)@, |id: EventPipelineId| !superseded(event, found@, id)) + r.spawned@,
    {
        let aborted = self.cancel_pipelines(event, found);
        let ghost mid = self@;
        let mut spawned: Vec<EventPipelineId> = Vec::new();
        let mut i: usize = 0;
        while i < enabled.len()
            invariant
                i <= enabled.len(),
                self.wf(),
                self@ == spawn_all(mid, event, enabled@.take(i as int)),
                self@ == mid + spawned@,
            decreases enabled.len() - i,
        {
            let entry = enabled[i];
            proof {
                assert(enabled@.take(i + 1).drop_last() =~= enabled@.take(i as int));
                assert(enabled@.take(i + 1).last() == entry);
            }
            if entry.event == event {
                if self.start_pipeline(entry.id) {
                    spawned.push(entry.id);
                    assert(self@ =~= mid + spawned@);
                }
            }
            i += 1;
        }
        assert(enabled@.take(enabled.len() as int) =~= enabled@);
        EventPlan { aborted, spawned }
    }
}

/// What `keep_ids` keeps: the ids of `s` that `keep` admits, each once if `s`
/// holds it once
pub proof fn lemma_keep_ids(s: Seq<EventPipelineId>, keep: spec_fn(EventPipelineId) -> bool)
    ensures
        forall|x: EventPipelineId| #[trigger] keep_ids(s, keep).contains(x) <==> (s.contains(x) && keep(x)),
        s.no_duplicates() ==> keep_ids(s, keep).no_duplicates(),
    decreases s.len(),
{
    if s.len() > 0 {
        let d = s.drop_last();
        lemma_keep_ids(d, keep);
        let r = keep_ids(d, keep);
        assert forall|x: EventPipelineId| s.contains(x) <==> (d.contains(x) || x == s.last()) by {
            if s.contains(x) {
                let k = choose|k: int| 0 <= k < s.len() && s[k] == x;
                if k < s.len() - 1 {
                    assert(d[k] == x);
                }
            }
            if d.contains(x) {
                let k = choose|k: int| 0 <= k < d.len() && d[k] == x;
                assert(s[k] == x);
            }
            if x == s.last() {
                assert(s[s.len() - 1] == x);
            }
        }
        if keep(s.last()) {
            let t = r.push(s.last());
            assert forall|x: EventPipelineId| t.contains(x) <==> (r.contains(x) || x == s.last()) by {
                if t.contains(x) {
                    let k = choose|k: int| 0 <= k < t.len() && t[k] == x;
                    if k < r.len() {
                        assert(r[k] == x);
                    }
                }
                if r.contains(x) {
                    let k = choose|k: int| 0 <= k < r.len() && r[k] == x;
                    assert(t[k] == x);
                }
                if x == s.last() {
                    assert(t[t.len() - 1] == x);
                }
            }
            if s.no_duplicates() {
                assert(d.no_duplicates());
                assert(!d.contains(s.last())) by {
                    if d.contains(s.last()) {
                        let k = choose|k: int| 0 <= k < d.len() && d[k] == s.last();
                        assert(s[k] == s[s.len() - 1]);
                    }
                }
                assert(!r.contains(s.last()));
                assert forall|a: int, b: int| 0 <= a < b < t.len() implies t[a] != t[b] by {
                    if b == t.len() - 1 {
                        assert(r.contains(r[a]));
                    }
                }
            }
        } else {
            if s.no_duplicates() {
                assert(d.no_duplicates());
            }
        }
    }
}

/// Whether `id` belongs to a cancellable pipeline of `found` that `event` supersedes
pub fn is_superseded(event: UPSEvent, found: &Vec<CancellableEventPipeline>, id: EventPipelineId) -> (r: bool)
    ensures
        r == superseded(event, found@, id),
{
    let mut i: usize = 0;
    while i < found.len()
        invariant
            i <= found.len(),
            forall|j: int|
                0 <= j < i ==> !((#[trigger] found@[j]).id == id && found@[j].cancellable
                    && cancels_of(event).contains(found@[j].event)),
        decreases found.len() - i,
    {
        let p = found[i];
        if p.id == id && p.cancellable && event.cancels_event(p.event) {
            return true;
        }
        i += 1;
    }
    false
}

impl UPSEvent {
    /// Whether this event cancels `other`
    pub fn cancels_event(&self, other: UPSEvent) -> (r: bool)
        ensures
            r == cancels_of(*self).contains(other),
    {
        let c = self.cancels();
        if c.len() == 0 {
            false
        } else {
            assert(c@.len() == 1);
            assert(cancels_of(*self).contains(other) <==> c@[0] == other) by {
                if c@[0] == other {
                    assert(c@[0] == other);
                }
            }
            c[0] == other
        }
    }
}

proof fn lemma_contains_push(s: Seq<EventPipelineId>, v: EventPipelineId, x: EventPipelineId)
    ensures
        s.push(v).contains(x) <==> (s.contains(x) || x == v),
{
    let t = s.push(v);
    if t.contains(x) {
        let k = choose|k: int| 0 <= k < t.len() && t[k] == x;
        if k < s.len() {
            assert(s[k] == x);
        }
    }
    if s.contains(x) {
        let k = choose|k: int| 0 <= k < s.len() && s[k] == x;
        assert(t[k] == x);
    }
    if x == v {
        assert(t[t.len() - 1] == x);
    }
}

/// Everything `spawn_all` adds is an entry of `event`; each entry of `event`
/// is running afterwards; and no id runs twice
proof fn lemma_spawn_all(run: Seq<EventPipelineId>, event: UPSEvent, en: Seq<PipelineEntry>)
    ensures
        forall|x: EventPipelineId| #[trigger] spawn_all(run, event, en).contains(x) ==>
            run.contains(x) || exists|j: int| 0 <= j < en.len() && (#[trigger] en[j]).id == x && en[j].event == event,
        forall|j: int| 0 <= j < en.len() && (#[trigger] en[j]).event == event ==> spawn_all(run, event, en).contains(en[j].id),
        run.no_duplicates() ==> spawn_all(run, event, en).no_duplicates(),
    decreases en.len(),
{
    if en.len() > 0 {
        let d = en.drop_last();
        lemma_spawn_all(run, event, d);
        let r = spawn_all(run, event, d);
        let x = en.last();
        assert forall|j: int| 0 <= j < d.len() implies #[trigger] d[j] == en[j] by {}
        if x.event == event && !r.contains(x.id) {
            assert forall|y: EventPipelineId| #[trigger] r.push(x.id).contains(y) <==> (r.contains(y) || y == x.id) by {
                lemma_contains_push(r, x.id, y);
            }
            assert forall|y: EventPipelineId| #[trigger] spawn_all(run, event, en).contains(y) implies
                run.contains(y) || exists|j: int| 0 <= j < en.len() && (#[trigger] en[j]).id == y && en[j].event == event by {
                if y == x.id {
                    assert(en[en.len() - 1] == x);
                } else {
                    assert(r.contains(y));
                    if !run.contains(y) {
                        let j = choose|j: int| 0 <= j < d.len() && (#[trigger] d[j]).id == y && d[j].event == event;
                        assert(en[j] == d[j]);
                    }
                }
            }
            assert forall|j: int| 0 <= j < en.len() && (#[trigger] en[j]).event == event implies
                spawn_all(run, event, en).contains(en[j].id) by {
                if j < en.len() - 1 {
                    assert(en[j] == d[j]);
                    assert(r.contains(d[j].id));
                }
            }
            if run.no_duplicates() {
                let t = r.push(x.id);
                assert forall|a: int, b: int| 0 <= a < b < t.len() implies t[a] != t[b] by {
                    if b == t.len() - 1 {
                        assert(r.contains(r[a]));
                    }
                }
            }
        } else {
            assert forall|y: EventPipelineId| #[trigger] spawn_all(run, event, en).contains(y) implies
                run.contains(y) || exists|j: int| 0 <= j < en.len() && (#[trigger] en[j]).id == y && en[j].event == event by {
                if !run.contains(y) {
                    let j = choose|j: int| 0 <= j < d.len() && (#[trigger] d[j]).id == y && d[j].event == event;
                    assert(en[j] == d[j]);
                }
            }
            assert forall|j: int| 0 <= j < en.len() && (#[trigger] en[j]).event == event implies
                spawn_all(run, event, en).contains(en[j].id) by {
                if j < en.len() - 1 {
                    assert(en[j] == d[j]);
                }
            }
        }
    }
}

proof fn lemma_spawn_all_stable(run: Seq<EventPipelineId>, event: UPSEvent, en: Seq<PipelineEntry>)
    requires
        forall|j: int| 0 <= j < en.len() && (#[trigger] en[j]).event == event ==> run.contains(en[j].id),
    ensures
        spawn_all(run, event, en) == run,
    decreases en.len(),
{
    if en.len() > 0 {
        let d = en.drop_last();
        assert forall|j: int| 0 <= j < d.len() && (#[trigger] d[j]).event == event implies run.contains(d[j].id) by {
            assert(d[j] == en[j]);
        }
        lemma_spawn_all_stable(run, event, d);
        assert(en.last() == en[en.len() - 1]);
    }
}

proof fn lemma_keep_ids_all(s: Seq<EventPipelineId>, keep: spec_fn(EventPipelineId) -> bool)
    requires
        forall|i: int| 0 <= i < s.len() ==> keep(#[trigger] s[i]),
    ensures
        keep_ids(s, keep) == s,
    decreases s.len(),
{
    if s.len() > 0 {
        let d = s.drop_last();
        assert forall|i: int| 0 <= i < d.len() implies keep(#[trigger] d[i]) by {
            assert(d[i] == s[i]);
        }
        lemma_keep_ids_all(d, keep);
        assert(keep(s[s.len() - 1]));
        assert(d.push(s.last()) =~= s);
    }
}

proof fn lemma_keep_ids_none(s: Seq<EventPipelineId>, keep: spec_fn(EventPipelineId) -> bool)
    requires
        forall|i: int| 0 <= i < s.len() ==> !keep(#[trigger] s[i]),
    ensures
        keep_ids(s, keep).len() == 0,
    decreases s.len(),
{
    if s.len() > 0 {
        let d = s.drop_last();
        assert forall|i: int| 0 <= i < d.len() implies !keep(#[trigger] d[i]) by {
            assert(d[i] == s[i]);
        }
        lemma_keep_ids_none(d, keep);
        assert(!keep(s[s.len() - 1]));
    }
}

proof fn lemma_no_self_cancel(e: UPSEvent)
    ensures
        !cancels_of(e).contains(e),
{
    let c = cancels_of(e);
    if c.contains(e) {
        let k = choose|k: int| 0 <= k < c.len() && c[k] == e;
        assert(c[k] == e);
    }
}

/// Number of running tasks of pipeline `p`
pub open spec fn task_count(run: Seq<EventPipelineId>, p: EventPipelineId) -> nat {
    keep_ids(run, same_id(p)).len()
}

pub open spec fn same_id(p: EventPipelineId) -> spec_fn(EventPipelineId) -> bool {
    |x: EventPipelineId| x == p
}

/// A runner never holds two running tasks of one pipeline.
pub proof fn lemma_single_flight(r: &EventPipelineRunner, p: EventPipelineId)
    requires
        r.wf(),
    ensures
        task_count(r@, p) <= 1,
{
    let keep = same_id(p);
    lemma_keep_ids(r@, keep);
    let t = keep_ids(r@, keep);
    if t.len() >= 2 {
        assert(t.contains(t[0]));
        assert(t.contains(t[1]));
        assert(t[0] == p && t[1] == p);
        assert(t.no_duplicates());
        assert(t[0] != t[1]);
    }
    assert(task_count(r@, p) == t.len());
}

/// Once an event is handled, no task of a pipeline that it supersedes is
/// running.
pub proof fn lemma_superseded_not_running(
    run: Seq<EventPipelineId>,
    event: UPSEvent,
    found: Seq<CancellableEventPipeline>,
    en: Seq<PipelineEntry>,
    id: EventPipelineId,
)
    requires
        ids_consistent(found, en),
        superseded(event, found, id),
    ensures
        !after_event(run, event, found, en).contains(id),
{
    let keep = |x: EventPipelineId| !superseded(event, found, x);
    let mid = keep_ids(run, keep);
    lemma_keep_ids(run, keep);
    lemma_spawn_all(mid, event, en);
    if after_event(run, event, found, en).contains(id) {
        assert(!mid.contains(id));
        let j = choose|j: int| 0 <= j < en.len() && (#[trigger] en[j]).id == id && en[j].event == event;
        let i = choose|i: int|
            0 <= i < found.len() && (#[trigger] found[i]).id == id && found[i].cancellable
                && cancels_of(event).contains(found[i].event);
        assert(found[i].event == en[j].event);
        lemma_no_self_cancel(event);
    }
}

/// Handling the same event a second time aborts nothing and starts nothing.
pub proof fn lemma_repeat_event_idempotent(
    run: Seq<EventPipelineId>,
    event: UPSEvent,
    found: Seq<CancellableEventPipeline>,
    en: Seq<PipelineEntry>,
)
    requires
        run.no_duplicates(),
        ids_consistent(found, en),
    ensures
        keep_ids(after_event(run, event, found, en), |id: EventPipelineId| superseded(event, found, id)).len() == 0,
        keep_ids(after_event(run, event, found, en), |id: EventPipelineId| !superseded(event, found, id))
            == after_event(run, event, found, en),
        after_event(after_event(run, event, found, en), event, found, en) == after_event(run, event, found, en),
{
    let s1 = after_event(run, event, found, en);
    let keep = |x: EventPipelineId| !superseded(event, found, x);
    let drop = |x: EventPipelineId| superseded(event, found, x);
    assert forall|i: int| 0 <= i < s1.len() implies !superseded(event, found, #[trigger] s1[i]) by {
        assert(s1.contains(s1[i]));
        if superseded(event, found, s1[i]) {
            lemma_superseded_not_running(run, event, found, en, s1[i]);
        }
    }
    lemma_keep_ids_none(s1, drop);
    lemma_keep_ids_all(s1, keep);
    let mid = keep_ids(run, keep);
    lemma_spawn_all(mid, event, en);
    lemma_spawn_all_stable(s1, event, en);
}

} // verus!
