//! The relay's broadcast model. The registry holds the active outbound
//! sinks, named by plain connection numbers; the relay keeps one registry
//! behind a mutual-exclusion lock and holds the lock only for
//! `snapshot_and_clear` and `merge_back`, never while sending. The fan-out
//! itself is best effort: every sink in the snapshot gets exactly one
//! delivery attempt, and one sink's failure never stops the others.
//!
//! Documented visibility race, kept as the relay behaves: a sink
//! registered between a broadcast's snapshot and its merge-back is
//! invisible to that snapshot and misses that one frame. A failed sink is
//! not evicted, so dead sinks accumulate for the life of the relay.

use vstd::prelude::*;

verus! {

/// The registry of active outbound sinks. Its view is the sequence of
/// registered sink numbers, in registration order.
pub struct SinkRegistry {
    sinks: Vec<u64>,
}

impl View for SinkRegistry {
    type V = Seq<u64>;

    closed spec fn view(&self) -> Seq<u64> {
        self.sinks@
    }
}

impl SinkRegistry {
    /// An empty registry.
    pub fn new() -> (r: Self)
        ensures
            r@ == Seq::<u64>::empty(),
    {
        SinkRegistry { sinks: Vec::new() }
    }

    /// Adds the sink of a newly accepted connection.
    pub fn register(&mut self, sink: u64)
        ensures
            final(self)@ == old(self)@.push(sink),
    {
        self.sinks.push(sink);
    }

    /// First step of a broadcast: takes the entire current contents,
    /// leaving the registry empty, so the caller can drop the lock before
    /// doing any network I/O.
    pub fn snapshot_and_clear(&mut self) -> (taken: Vec<u64>)
        ensures
            taken@ == old(self)@,
            final(self)@ == Seq::<u64>::empty(),
    {
        let mut taken: Vec<u64> = Vec::new();
        core::mem::swap(&mut taken, &mut self.sinks);
        taken
    }

    /// Last step of a broadcast: returns the taken sinks, after whatever
    /// other connections registered while the lock was released.
    pub fn merge_back(&mut self, taken: Vec<u64>)
        ensures
            final(self)@ == old(self)@ + taken@,
    {
        let mut taken = taken;
        self.sinks.append(&mut taken);
    }

    /// How many sinks are registered.
    pub fn len(&self) -> (n: usize)
        ensures
            n == self@.len(),
    {
        self.sinks.len()
    }
}

/// One delivery attempt of a broadcast: which sink, and whether the send
/// went through.
#[derive(Clone, Copy, Debug, PartialEq, Eq, Structural)]
pub struct SendOutcome {
    pub sink: u64,
    pub delivered: bool,
}

/// A correct broadcast report: one attempt per snapshot entry, in order,
/// recording that entry's outcome.
pub open spec fn fan_out_report_ok(
    snapshot: Seq<u64>,
    outcomes: Seq<bool>,
    report: Seq<SendOutcome>,
) -> bool {
    &&& report.len() == snapshot.len()
    &&& forall|i: int|
        0 <= i < snapshot.len() ==> (#[trigger] report[i]).sink == snapshot[i]
            && report[i].delivered == outcomes[i]
}

/// Builds the report of one broadcast: one delivery attempt per sink of
/// the snapshot, whatever each attempt's outcome was. `outcomes[i]` is
/// whether the send to `snapshot[i]` went through; the caller performs the
/// sends themselves and swallows individual failures (best effort, no
/// retry, no eviction).
pub fn fan_out(snapshot: &Vec<u64>, outcomes: &Vec<bool>) -> (report: Vec<SendOutcome>)
    requires
        outcomes@.len() == snapshot@.len(),
    ensures
        fan_out_report_ok(snapshot@, outcomes@, report@),
{
    let mut report: Vec<SendOutcome> = Vec::new();
    let mut i: usize = 0;
    while i < snapshot.len()
        invariant
            0 <= i <= snapshot@.len(),
            outcomes@.len() == snapshot@.len(),
            report@.len() == i,
            forall|j: int|
                0 <= j < i ==> (#[trigger] report@[j]).sink == snapshot@[j]
                    && report@[j].delivered == outcomes@[j],
        decreases snapshot@.len() - i,
    {
        report.push(SendOutcome { sink: snapshot[i], delivered: outcomes[i] });
        i = i + 1;
    }
    report
}

/// Broadcast fan-out law: a frame that arrives while `snapshot` is the
/// registered set is attempted at every sink of the snapshot — the
/// attempted sinks are exactly the snapshot, in order.
pub proof fn lemma_broadcast_fan_out(
    snapshot: Seq<u64>,
    outcomes: Seq<bool>,
    report: Seq<SendOutcome>,
)
    requires
        outcomes.len() == snapshot.len(),
        fan_out_report_ok(snapshot, outcomes, report),
    ensures
        report.map_values(|o: SendOutcome| o.sink) == snapshot,
{
    assert(report.map_values(|o: SendOutcome| o.sink) =~= snapshot);
}

/// Broadcast resilience law: which sinks are attempted does not depend on
/// which sends fail — a failing sink never keeps the frame from the rest.
pub proof fn lemma_broadcast_resilience(
    snapshot: Seq<u64>,
    outcomes_a: Seq<bool>,
    outcomes_b: Seq<bool>,
    report_a: Seq<SendOutcome>,
    report_b: Seq<SendOutcome>,
)
    requires
        outcomes_a.len() == snapshot.len(),
        outcomes_b.len() == snapshot.len(),
        fan_out_report_ok(snapshot, outcomes_a, report_a),
        fan_out_report_ok(snapshot, outcomes_b, report_b),
    ensures
        report_a.map_values(|o: SendOutcome| o.sink) == report_b.map_values(
            |o: SendOutcome| o.sink,
        ),
{
    lemma_broadcast_fan_out(snapshot, outcomes_a, report_a);
    lemma_broadcast_fan_out(snapshot, outcomes_b, report_b);
}

/// Snapshot visibility law: a sink not yet registered when the snapshot
/// was taken appears nowhere in that broadcast's report — it misses that
/// frame.
pub proof fn lemma_late_registration(
    snapshot: Seq<u64>,
    outcomes: Seq<bool>,
    report: Seq<SendOutcome>,
    late: u64,
)
    requires
        outcomes.len() == snapshot.len(),
        fan_out_report_ok(snapshot, outcomes, report),
        !snapshot.contains(late),
    ensures
        forall|i: int| 0 <= i < report.len() ==> (#[trigger] report[i]).sink != late,
{
}

} // verus!
