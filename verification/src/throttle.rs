//! Coalescing of progress events on their way to the user interface.
//!
//! Times are instants of a monotonic clock, counted in nanoseconds from an
//! origin the caller picks; intervals are nanoseconds too.

use vstd::prelude::*;

use std::collections::BTreeMap;

use crate::queue::{is_terminal_state, JobEvent, JobEventKind};
use vstd::std_specs::btree::spec_keys_iter;
use vstd::std_specs::iter::IteratorSpec;

verus! {

broadcast use vstd::std_specs::btree::group_btree_axioms, vstd::laws_cmp::group_laws_cmp;

/// The throttle: its minimum interval, when each job last had progress
/// forwarded, the newest held-back progress event of each job, and the
/// events ready for the interface, oldest first.
pub struct ThrottleModel {
    pub minimum_interval: u64,
    pub last_progress_at: Map<u64, u64>,
    pub pending: Map<u64, JobEvent>,
    pub ready: Seq<JobEvent>,
}

/// Each held-back event is a progress event of the job it is filed under.
pub open spec fn throttle_well_formed(model: ThrottleModel) -> bool {
    forall|id: u64|
        #[trigger] model.pending.contains_key(id) ==> model.pending[id].job_id@ == id
            && model.pending[id].kind is Progress
}

/// Time from `earlier` to `now`, zero when the clock reads earlier.
pub open spec fn elapsed(now: u64, earlier: u64) -> u64 {
    if now >= earlier {
        (now - earlier) as u64
    } else {
        0
    }
}

/// Whether progress of job `id` may be forwarded at `now`: none was
/// forwarded yet, or the minimum interval has passed since.
pub open spec fn may_forward(model: ThrottleModel, id: u64, now: u64) -> bool {
    !model.last_progress_at.contains_key(id) || elapsed(now, model.last_progress_at[id])
        >= model.minimum_interval
}

/// What pushing `event` at `now` does. Progress is forwarded when allowed
/// and otherwise held back, replacing an older held-back sample of the same
/// job. A terminal state first releases the held-back sample of its job.
/// Every other event is forwarded at once.
pub open spec fn push_model(model: ThrottleModel, event: JobEvent, now: u64) -> ThrottleModel {
    let id = event.job_id@;
    match event.kind {
        JobEventKind::Progress(_) => if may_forward(model, id, now) {
            ThrottleModel {
                last_progress_at: model.last_progress_at.insert(id, now),
                ready: model.ready.push(event),
                ..model
            }
        } else {
            ThrottleModel { pending: model.pending.insert(id, event), ..model }
        },
        JobEventKind::StateChanged(state) => if is_terminal_state(state) && model.pending.contains_key(
            id,
        ) {
            ThrottleModel {
                last_progress_at: model.last_progress_at.insert(id, now),
                pending: model.pending.remove(id),
                ready: model.ready.push(model.pending[id]).push(event),
                ..model
            }
        } else {
            ThrottleModel { ready: model.ready.push(event), ..model }
        },
        JobEventKind::CancellationRequested => ThrottleModel { ready: model.ready.push(event), ..model },
    }
}

/// Whether a held-back sample of job `id` is due at `now`.
pub open spec fn is_due(model: ThrottleModel, id: u64, now: u64) -> bool {
    model.pending.contains_key(id) && may_forward(model, id, now)
}

/// The order in which released samples come out: by sequence number, then
/// by job.
pub open spec fn comes_before(a: JobEvent, b: JobEvent) -> bool {
    a.sequence < b.sequence || (a.sequence == b.sequence && a.job_id@ < b.job_id@)
}

/// `released` holds exactly the samples due at `now`, each once, in
/// release order.
pub open spec fn is_release_of(model: ThrottleModel, now: u64, released: Seq<JobEvent>) -> bool {
    &&& forall|i: int|
        0 <= i < released.len() ==> is_due(model, (#[trigger] released[i]).job_id@, now)
            && released[i] == model.pending[released[i].job_id@]
    &&& forall|id: u64|
        #[trigger] is_due(model, id, now) ==> exists|i: int|
            0 <= i < released.len() && (#[trigger] released[i]).job_id@ == id
    &&& forall|i: int, j: int|
        0 <= i < j < released.len() ==> comes_before(#[trigger] released[i], #[trigger] released[j])
}

/// The throttle after releasing at `now` every due sample, in the order
/// `released` gives: their jobs count as forwarded at `now`.
pub open spec fn flush_model(model: ThrottleModel, now: u64, released: Seq<JobEvent>) -> ThrottleModel {
    ThrottleModel {
        last_progress_at: Map::new(
            |id: u64| model.last_progress_at.contains_key(id) || is_due(model, id, now),
            |id: u64|
                if is_due(model, id, now) {
                    now
                } else {
                    model.last_progress_at[id]
                },
        ),
        pending: Map::new(
            |id: u64| model.pending.contains_key(id) && !is_due(model, id, now),
            |id: u64| model.pending[id],
        ),
        ready: model.ready + released,
        ..model
    }
}

fn elapsed_at_least(now: u64, earlier: u64, interval: u64) -> (reached: bool)
    ensures
        reached == (elapsed(now, earlier) >= interval),
{
    now.saturating_sub(earlier) >= interval
}

fn precedes(a: &JobEvent, b: &JobEvent) -> (before: bool)
    ensures
        before == comes_before(*a, *b),
{
    a.sequence < b.sequence || (a.sequence == b.sequence && a.job_id.get() < b.job_id.get())
}

/// The keys of `map`, each once.
fn collect_keys(map: &BTreeMap<u64, JobEvent>) -> (keys: Vec<u64>)
    ensures
        keys@.to_set() == map@.dom(),
        keys@.no_duplicates(),
{
    let ghost all = spec_keys_iter(map).remaining().unref();
    let mut keys: Vec<u64> = Vec::new();
    for k in it: map.keys()
        invariant
            it.seq().unref() == all,
            keys@ == all.take(it.index()),
    {
        keys.push(*k);
        assert(keys@ =~= all.take(it.index() + 1));
    }
    assert(keys@ =~= all);
    keys
}

/// Puts `event` into the sorted `sorted` where release order wants it.
fn insert_in_order(sorted: &mut Vec<JobEvent>, event: JobEvent)
    requires
        forall|i: int, j: int|
            0 <= i < j < old(sorted)@.len() ==> comes_before(
                #[trigger] old(sorted)@[i],
                #[trigger] old(sorted)@[j],
            ),
        forall|i: int| 0 <= i < old(sorted)@.len() ==> (#[trigger] old(sorted)@[i]).job_id@ != event.job_id@,
    ensures
        forall|i: int, j: int|
            0 <= i < j < final(sorted)@.len() ==> comes_before(
                #[trigger] final(sorted)@[i],
                #[trigger] final(sorted)@[j],
            ),
        exists|p: int| 0 <= p <= old(sorted)@.len() && final(sorted)@ == old(sorted)@.insert(p, event),
{
    let mut p: usize = 0;
    while p < sorted.len() && precedes(&sorted[p], &event)
        invariant
            p <= sorted@.len(),
            sorted@ == old(sorted)@,
            forall|i: int| 0 <= i < p ==> comes_before(#[trigger] sorted@[i], event),
        decreases sorted.len() - p,
    {
        p += 1;
    }
    let ghost before = sorted@;
    proof {
        assert forall|i: int| p <= i < before.len() implies comes_before(event, #[trigger] before[i]) by {
            assert(!comes_before(before[p as int], event));
            assert(before[p as int].job_id@ != event.job_id@);
            if i > p {
                assert(comes_before(before[p as int], before[i]));
            }
        }
    }
    sorted.insert(p, event);
    assert forall|i: int, j: int| 0 <= i < j < sorted@.len() implies comes_before(
        #[trigger] sorted@[i],
        #[trigger] sorted@[j],
    ) by {
        if j < p {
            assert(sorted@[i] == before[i] && sorted@[j] == before[j]);
        } else if j == p {
            assert(sorted@[i] == before[i]);
        } else if i < p {
            assert(sorted@[i] == before[i] && sorted@[j] == before[j - 1]);
            assert(comes_before(before[i], event));
            assert(comes_before(event, before[j - 1]));
        } else if i == p {
            assert(sorted@[j] == before[j - 1]);
        } else {
            assert(sorted@[i] == before[i - 1] && sorted@[j] == before[j - 1]);
        }
    }
}


/// After scanning the first `scanned` keys, `released` holds exactly the
/// due samples among them.
spec fn released_so_far(
    model: ThrottleModel,
    now: u64,
    keys: Seq<u64>,
    scanned: int,
    released: Seq<JobEvent>,
) -> bool {
    &&& forall|j: int|
        0 <= j < released.len() ==> is_due(model, (#[trigger] released[j]).job_id@, now)
            && released[j] == model.pending[released[j].job_id@] && exists|k: int|
            0 <= k < scanned && keys[k] == released[j].job_id@
    &&& forall|k: int|
        0 <= k < scanned && is_due(model, #[trigger] keys[k], now) ==> exists|j: int|
            0 <= j < released.len() && (#[trigger] released[j]).job_id@ == keys[k]
}

proof fn lemma_next_key_is_fresh(
    model: ThrottleModel,
    now: u64,
    keys: Seq<u64>,
    scanned: int,
    released: Seq<JobEvent>,
)
    requires
        0 <= scanned < keys.len(),
        keys.no_duplicates(),
        released_so_far(model, now, keys, scanned, released),
    ensures
        forall|j: int| 0 <= j < released.len() ==> (#[trigger] released[j]).job_id@ != keys[scanned],
{
    assert forall|j: int| 0 <= j < released.len() implies (#[trigger] released[j]).job_id@
        != keys[scanned] by {
        let k = choose|k: int| 0 <= k < scanned && keys[k] == released[j].job_id@;
        assert(keys[k] != keys[scanned]);
    }
}

proof fn lemma_skip_key(model: ThrottleModel, now: u64, keys: Seq<u64>, scanned: int, released: Seq<JobEvent>)
    requires
        0 <= scanned < keys.len(),
        !is_due(model, keys[scanned], now),
        released_so_far(model, now, keys, scanned, released),
    ensures
        released_so_far(model, now, keys, scanned + 1, released),
{
    assert forall|j: int| 0 <= j < released.len() implies is_due(model, (#[trigger] released[j]).job_id@, now)
        && released[j] == model.pending[released[j].job_id@] && exists|k: int|
        0 <= k < scanned + 1 && keys[k] == released[j].job_id@ by {
        let k = choose|k: int| 0 <= k < scanned && keys[k] == released[j].job_id@;
    }
}

proof fn lemma_release_key(
    model: ThrottleModel,
    now: u64,
    keys: Seq<u64>,
    scanned: int,
    previous: Seq<JobEvent>,
    released: Seq<JobEvent>,
    p: int,
    event: JobEvent,
)
    requires
        0 <= scanned < keys.len(),
        event.job_id@ == keys[scanned],
        is_due(model, keys[scanned], now),
        event == model.pending[keys[scanned]],
        0 <= p <= previous.len(),
        released == previous.insert(p, event),
        released_so_far(model, now, keys, scanned, previous),
    ensures
        released_so_far(model, now, keys, scanned + 1, released),
{
    assert forall|j: int| 0 <= j < released.len() implies is_due(
        model,
        (#[trigger] released[j]).job_id@,
        now,
    ) && released[j] == model.pending[released[j].job_id@] && exists|k: int|
        0 <= k < scanned + 1 && keys[k] == released[j].job_id@ by {
        if j < p {
            assert(released[j] == previous[j]);
            let k = choose|k: int| 0 <= k < scanned && keys[k] == previous[j].job_id@;
        } else if j > p {
            assert(released[j] == previous[j - 1]);
            let k = choose|k: int| 0 <= k < scanned && keys[k] == previous[j - 1].job_id@;
        } else {
            assert(keys[scanned] == released[j].job_id@);
        }
    }
    assert forall|k: int| 0 <= k < scanned + 1 && is_due(model, #[trigger] keys[k], now) implies exists|j: int|
        0 <= j < released.len() && (#[trigger] released[j]).job_id@ == keys[k] by {
        if k == scanned {
            assert(released[p] == event);
        } else {
            let j = choose|j: int| 0 <= j < previous.len() && (#[trigger] previous[j]).job_id@ == keys[k];
            if j < p {
                assert(released[j] == previous[j]);
            } else {
                assert(released[j + 1] == previous[j]);
            }
        }
    }
}

/// Coalesces frequent progress updates while forwarding state changes at
/// once. A terminal state flushes the newest pending progress first, so the
/// interface never observes a terminal state without the final available
/// progress sample.
pub struct FrontendEventThrottle {
    minimum_interval: u64,
    last_progress_at: BTreeMap<u64, u64>,
    pending_progress: BTreeMap<u64, JobEvent>,
    ready: Vec<JobEvent>,
}

impl View for FrontendEventThrottle {
    type V = ThrottleModel;

    closed spec fn view(&self) -> ThrottleModel {
        ThrottleModel {
            minimum_interval: self.minimum_interval,
            last_progress_at: self.last_progress_at@,
            pending: self.pending_progress@,
            ready: self.ready@,
        }
    }
}

impl FrontendEventThrottle {
    /// A throttle that forwards at most one progress sample per job in each
    /// `minimum_interval` nanoseconds.
    pub fn new(minimum_interval: u64) -> (throttle: Self)
        ensures
            throttle_well_formed(throttle@),
            throttle@ == (ThrottleModel {
                minimum_interval,
                last_progress_at: Map::empty(),
                pending: Map::empty(),
                ready: Seq::empty(),
            }),
    {
        let throttle = FrontendEventThrottle {
            minimum_interval,
            last_progress_at: BTreeMap::new(),
            pending_progress: BTreeMap::new(),
            ready: Vec::new(),
        };
        assert(throttle@.ready =~= Seq::<JobEvent>::empty());
        throttle
    }

    /// Takes `event`, observed at `now`.
    pub fn push(&mut self, event: JobEvent, now: u64)
        requires
            throttle_well_formed(old(self)@),
        ensures
            throttle_well_formed(final(self)@),
            final(self)@ == push_model(old(self)@, event, now),
    {
        let id = event.job_id.get();
        let ghost before = self@;
        match event.kind {
            JobEventKind::Progress(_) => {
                let may_forward = match self.last_progress_at.get(&id) {
                    None => true,
                    Some(last) => elapsed_at_least(now, *last, self.minimum_interval),
                };
                if may_forward {
                    self.last_progress_at.insert(id, now);
                    self.ready.push(event);
                } else {
                    self.pending_progress.insert(id, event);
                }
                assert(may_forward == crate::throttle::may_forward(before, id, now));
                if may_forward {
                    assert(self@.ready =~= before.ready.push(event));
                    assert(self@.last_progress_at =~= before.last_progress_at.insert(id, now));
                    assert(self@.pending =~= before.pending);
                } else {
                    assert(self@.ready =~= before.ready);
                    assert(self@.last_progress_at =~= before.last_progress_at);
                    assert(self@.pending =~= before.pending.insert(id, event));
                }
                assert(self@ == push_model(before, event, now));
            },
            JobEventKind::StateChanged(state) => {
                let mut released = false;
                if state.is_terminal() {
                    if let Some(progress) = self.pending_progress.remove(&id) {
                        self.last_progress_at.insert(id, now);
                        self.ready.push(progress);
                        released = true;
                    }
                }
                self.ready.push(event);
                if released {
                    assert(self@.ready =~= before.ready.push(before.pending[id]).push(event));
                    assert(self@.pending =~= before.pending.remove(id));
                    assert(self@.last_progress_at =~= before.last_progress_at.insert(id, now));
                } else {
                    assert(self@.ready =~= before.ready.push(event));
                    assert(self@.pending =~= before.pending);
                    assert(self@.last_progress_at =~= before.last_progress_at);
                }
                assert(self@ == push_model(before, event, now));
            },
            JobEventKind::CancellationRequested => {
                self.ready.push(event);
                assert(self@.ready =~= before.ready.push(event));
                assert(self@ == push_model(before, event, now));
            },
        }
    }

    /// Makes held-back progress samples ready once their interval has
    /// elapsed, in order of their sequence numbers.
    pub fn flush_due(&mut self, now: u64)
        requires
            throttle_well_formed(old(self)@),
        ensures
            throttle_well_formed(final(self)@),
            final(self)@.ready.len() >= old(self)@.ready.len(),
            is_release_of(old(self)@, now, final(self)@.ready.skip(old(self)@.ready.len() as int)),
            final(self)@ == flush_model(
                old(self)@,
                now,
                final(self)@.ready.skip(old(self)@.ready.len() as int),
            ),
    {
        let ghost start = self@;
        let keys = collect_keys(&self.pending_progress);
        let mut released: Vec<JobEvent> = Vec::new();
        let mut i: usize = 0;
        while i < keys.len()
            invariant
                self@ == start,
                throttle_well_formed(start),
                i <= keys@.len(),
                keys@.to_set() == start.pending.dom(),
                keys@.no_duplicates(),
                forall|j: int, k: int|
                    0 <= j < k < released@.len() ==> comes_before(
                        #[trigger] released@[j],
                        #[trigger] released@[k],
                    ),
                released_so_far(start, now, keys@, i as int, released@),
            decreases keys.len() - i,
        {
            let id = keys[i];
            assert(keys@.to_set().contains(id));
            let due = match self.last_progress_at.get(&id) {
                None => true,
                Some(last) => elapsed_at_least(now, *last, self.minimum_interval),
            };
            if due {
                if let Some(held) = self.pending_progress.get(&id) {
                    let event = *held;
                    let ghost previous = released@;
                    proof {
                        lemma_next_key_is_fresh(start, now, keys@, i as int, previous);
                    }
                    insert_in_order(&mut released, event);
                    proof {
                        let p = choose|p: int|
                            0 <= p <= previous.len() && released@ == previous.insert(p, event);
                        lemma_release_key(start, now, keys@, i as int, previous, released@, p, event);
                    }
                }
            } else {
                proof {
                    lemma_skip_key(start, now, keys@, i as int, released@);
                }
            }
            i += 1;
        }
        let ghost all_released = released@;
        assert forall|id: u64| #[trigger] is_due(start, id, now) implies exists|j: int|
            0 <= j < all_released.len() && (#[trigger] all_released[j]).job_id@ == id by {
            assert(keys@.to_set().contains(id));
            let k = choose|k: int| 0 <= k < keys@.len() && keys@[k] == id;
            assert(is_due(start, keys@[k], now));
        }
        let mut j: usize = 0;
        while j < released.len()
            invariant
                j <= released@.len(),
                released@ == all_released,
                self.minimum_interval == start.minimum_interval,
                self.ready@ == start.ready,
                is_release_of(start, now, all_released),
                throttle_well_formed(start),
                forall|id: u64|
                    #[trigger] self.pending_progress@.contains_key(id) <==> start.pending.contains_key(id)
                        && !(exists|k: int| 0 <= k < j && (#[trigger] all_released[k]).job_id@ == id),
                forall|id: u64|
                    #[trigger] self.pending_progress@.contains_key(id) ==> self.pending_progress@[id]
                        == start.pending[id],
                forall|id: u64|
                    #[trigger] self.last_progress_at@.contains_key(id) <==> start.last_progress_at.contains_key(id)
                        || (exists|k: int| 0 <= k < j && (#[trigger] all_released[k]).job_id@ == id),
                forall|id: u64|
                    #[trigger] self.last_progress_at@.contains_key(id) ==> self.last_progress_at@[id] == if exists|k: int|
                        0 <= k < j && (#[trigger] all_released[k]).job_id@ == id {
                        now
                    } else {
                        start.last_progress_at[id]
                    },
            decreases released.len() - j,
        {
            let id = released[j].job_id.get();
            self.last_progress_at.insert(id, now);
            self.pending_progress.remove(&id);
            proof {
                assert(all_released[j as int].job_id@ == id);
            }
            j += 1;
        }
        let mut released = released;
        self.ready.append(&mut released);
        let ghost finished = self@;
        assert(finished.ready.skip(start.ready.len() as int) =~= all_released);
        let ghost target = flush_model(start, now, all_released);
        assert forall|id: u64| is_due(start, id, now) <==> (exists|k: int|
            0 <= k < all_released.len() && (#[trigger] all_released[k]).job_id@ == id) by {
            if exists|k: int| 0 <= k < all_released.len() && (#[trigger] all_released[k]).job_id@ == id {
                let k = choose|k: int| 0 <= k < all_released.len() && (#[trigger] all_released[k]).job_id@ == id;
                assert(is_due(start, all_released[k].job_id@, now));
            }
        }
        assert(finished.pending =~= target.pending);
        assert(finished.last_progress_at =~= target.last_progress_at);
    }

    /// Hands out the ready events, oldest first, and forgets them.
    pub fn drain_ready(&mut self) -> (events: Vec<JobEvent>)
        requires
            throttle_well_formed(old(self)@),
        ensures
            throttle_well_formed(final(self)@),
            events@ == old(self)@.ready,
            final(self)@ == (ThrottleModel { ready: Seq::empty(), ..old(self)@ }),
    {
        let mut drained = Vec::new();
        std::mem::swap(&mut drained, &mut self.ready);
        assert(self@.ready =~= Seq::<JobEvent>::empty());
        drained
    }
}


/// Events in strictly increasing release order.
spec fn in_release_order(events: Seq<JobEvent>) -> bool {
    forall|i: int, j: int| 0 <= i < j < events.len() ==> comes_before(#[trigger] events[i], #[trigger] events[j])
}

/// Every event of each sequence occurs in the other.
spec fn same_events(a: Seq<JobEvent>, b: Seq<JobEvent>) -> bool {
    &&& forall|i: int| 0 <= i < a.len() ==> #[trigger] b.contains(a[i])
    &&& forall|i: int| 0 <= i < b.len() ==> #[trigger] a.contains(b[i])
}

proof fn lemma_sorted_same_events_equal(a: Seq<JobEvent>, b: Seq<JobEvent>)
    requires
        in_release_order(a),
        in_release_order(b),
        same_events(a, b),
    ensures
        a == b,
    decreases a.len(),
{
    if a.len() == 0 {
        if b.len() > 0 {
            assert(a.contains(b[0]));
        }
        assert(a =~= b);
    } else {
        if b.len() == 0 {
            assert(b.contains(a[0]));
        }
        assert(b.contains(a[0]));
        assert(a.contains(b[0]));
        let j = choose|j: int| 0 <= j < b.len() && b[j] == a[0];
        let k = choose|k: int| 0 <= k < a.len() && a[k] == b[0];
        if j > 0 {
            assert(comes_before(b[0], b[j]));
            if k > 0 {
                assert(comes_before(a[0], a[k]));
            }
        }
        assert(a[0] == b[0]);
        let ra = a.drop_first();
        let rb = b.drop_first();
        assert forall|i: int| 0 <= i < ra.len() implies #[trigger] rb.contains(ra[i]) by {
            assert(a[i + 1] == ra[i]);
            assert(b.contains(a[i + 1]));
            let m = choose|m: int| 0 <= m < b.len() && b[m] == a[i + 1];
            assert(comes_before(a[0], a[i + 1]));
            if m == 0 {
                assert(!comes_before(a[i + 1], a[i + 1]));
            }
            assert(rb[m - 1] == b[m]);
        }
        assert forall|i: int| 0 <= i < rb.len() implies #[trigger] ra.contains(rb[i]) by {
            assert(b[i + 1] == rb[i]);
            assert(a.contains(b[i + 1]));
            let m = choose|m: int| 0 <= m < a.len() && a[m] == b[i + 1];
            assert(comes_before(b[0], b[i + 1]));
            assert(ra[m - 1] == a[m]);
        }
        assert forall|i: int, j: int| 0 <= i < j < ra.len() implies comes_before(
            #[trigger] ra[i],
            #[trigger] ra[j],
        ) by {
            assert(ra[i] == a[i + 1] && ra[j] == a[j + 1]);
        }
        assert forall|i: int, j: int| 0 <= i < j < rb.len() implies comes_before(
            #[trigger] rb[i],
            #[trigger] rb[j],
        ) by {
            assert(rb[i] == b[i + 1] && rb[j] == b[j + 1]);
        }
        lemma_sorted_same_events_equal(ra, rb);
        assert forall|i: int| 0 <= i < a.len() implies a[i] == b[i] by {
            if i > 0 {
                assert(a[i] == ra[i - 1] && b[i] == rb[i - 1]);
            }
        }
        assert(a =~= b);
    }
}

/// Releasing is deterministic: the due samples come out in exactly one
/// order, by sequence number and then by job.
pub proof fn law_release_order_is_unique(
    model: ThrottleModel,
    now: u64,
    first: Seq<JobEvent>,
    second: Seq<JobEvent>,
)
    requires
        throttle_well_formed(model),
        is_release_of(model, now, first),
        is_release_of(model, now, second),
    ensures
        first == second,
{
    assert forall|i: int| 0 <= i < first.len() implies #[trigger] second.contains(first[i]) by {
        let id = first[i].job_id@;
        assert(is_due(model, id, now));
        let j = choose|j: int| 0 <= j < second.len() && (#[trigger] second[j]).job_id@ == id;
        assert(second[j] == first[i]);
    }
    assert forall|i: int| 0 <= i < second.len() implies #[trigger] first.contains(second[i]) by {
        let id = second[i].job_id@;
        assert(is_due(model, id, now));
        let j = choose|j: int| 0 <= j < first.len() && (#[trigger] first[j]).job_id@ == id;
        assert(first[j] == second[i]);
    }
    lemma_sorted_same_events_equal(first, second);
}

/// No event is lost: a pushed event is either ready for the interface or
/// held back as the newest progress sample of its job.
pub proof fn law_pushed_event_is_kept(model: ThrottleModel, event: JobEvent, now: u64)
    requires
        throttle_well_formed(model),
    ensures
        push_model(model, event, now).ready.last() == event || push_model(model, event, now).pending[event.job_id@]
            == event,
{
}

/// A terminal state of a job is forwarded at once, right after the newest
/// held-back progress sample of that job, which it releases.
pub proof fn law_terminal_state_releases_held_progress(model: ThrottleModel, event: JobEvent, now: u64)
    requires
        throttle_well_formed(model),
        event.kind matches JobEventKind::StateChanged(state) && is_terminal_state(state),
    ensures
        push_model(model, event, now).ready == if model.pending.contains_key(event.job_id@) {
            model.ready.push(model.pending[event.job_id@]).push(event)
        } else {
            model.ready.push(event)
        },
        !push_model(model, event, now).pending.contains_key(event.job_id@),
{
}

/// State changes and cancellation requests bypass the throttling: they are
/// forwarded at once, and a non-terminal one changes nothing else.
pub proof fn law_state_changes_bypass_throttling(model: ThrottleModel, event: JobEvent, now: u64)
    requires
        throttle_well_formed(model),
        !(event.kind is Progress),
    ensures
        push_model(model, event, now).ready.last() == event,
        (event.kind matches JobEventKind::StateChanged(state) && is_terminal_state(state)) || push_model(
            model,
            event,
            now,
        ) == (ThrottleModel { ready: model.ready.push(event), ..model }),
{
}

} // verus!
