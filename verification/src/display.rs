use vstd::prelude::*;

verus! {

/// The waveform lookup tables of the e-paper panel: a full refresh, which
/// clears ghosting, or a quick partial one.
#[derive(Debug, Clone, Copy, PartialEq, Eq, Structural)]
pub enum RefreshLut {
    Full,
    Quick,
}

/// The number of renders in one round of the LUT schedule.
pub const LUT_CYCLE_LEN: usize = 4;

/// The LUT schedule: a full refresh, then a quick one, then two renders that
/// keep the LUT already loaded (which is the quick one).
pub open spec fn lut_cycle_entry(i: int) -> Option<RefreshLut> {
    if i == 0 {
        Some(RefreshLut::Full)
    } else if i == 1 {
        Some(RefreshLut::Quick)
    } else {
        None
    }
}

/// What one render does with the panel: the LUT to load before drawing, if
/// any, and the kind of refresh that the render reports.
#[derive(Debug, Clone, Copy, PartialEq, Eq, Structural)]
pub struct RefreshPlan {
    pub load_lut: Option<RefreshLut>,
    pub refresh: RefreshLut,
}

/// The plan of a render at position `i` of the schedule: load the scheduled
/// LUT, and report it, or report a quick refresh where none is scheduled.
pub open spec fn plan_at(i: int) -> RefreshPlan {
    RefreshPlan {
        load_lut: lut_cycle_entry(i),
        refresh: match lut_cycle_entry(i) {
            Some(l) => l,
            None => RefreshLut::Quick,
        },
    }
}

/// Where the display stands in the endlessly repeated LUT schedule.
#[derive(Debug)]
pub struct LutCycle {
    position: usize,
}

impl LutCycle {
    #[verifier::type_invariant]
    spec fn in_range(self) -> bool {
        self.position < 4
    }

    /// The position of the next render in the schedule (0 to 3).
    pub closed spec fn position(self) -> int {
        self.position as int
    }

    /// The schedule at its start: the next render is a full refresh.
    pub fn new() -> (cycle: Self)
        ensures
            cycle.position() == 0,
    {
        LutCycle { position: 0 }
    }

    /// The next entry of the schedule; the schedule moves on by one and wraps
    /// around after its fourth entry.
    pub fn next_lut(&mut self) -> (lut: Option<RefreshLut>)
        ensures
            0 <= old(self).position() < 4,
            lut == lut_cycle_entry(old(self).position()),
            final(self).position() == (old(self).position() + 1) % 4,
    {
        proof {
            use_type_invariant(&*self);
        }
        let lut = if self.position == 0 {
            Some(RefreshLut::Full)
        } else if self.position == 1 {
            Some(RefreshLut::Quick)
        } else {
            None
        };
        self.position = if self.position == 3 {
            0
        } else {
            self.position + 1
        };
        lut
    }

    /// Restarts the schedule: the next render is a full refresh.
    pub fn reset(&mut self)
        ensures
            final(self).position() == 0,
    {
        self.position = 0;
    }

    /// The decisions of a render: which LUT to load and which refresh to
    /// report, from the schedule, which moves on by one.
    pub fn plan_render(&mut self) -> (plan: RefreshPlan)
        ensures
            0 <= old(self).position() < 4,
            plan == plan_at(old(self).position()),
            final(self).position() == (old(self).position() + 1) % 4,
    {
        let lut = self.next_lut();
        let refresh = match lut {
            Some(l) => l,
            None => RefreshLut::Quick,
        };
        RefreshPlan { load_lut: lut, refresh }
    }
}

/// The plans of `n` renders in a row, the first at position `start` of the
/// schedule (each `plan_render` plans at its position and moves on by one).
pub open spec fn run_plans(start: int, n: nat) -> Seq<RefreshPlan>
    decreases n,
{
    if n == 0 {
        Seq::empty()
    } else {
        seq![plan_at(start)] + run_plans((start + 1) % 4, (n - 1) as nat)
    }
}

/// Each render of a run plans at its own position of the schedule.
proof fn lemma_run_plans_index(start: int, n: nat, k: int)
    requires
        0 <= start < 4,
        0 <= k < n,
    ensures
        run_plans(start, n).len() == n,
        run_plans(start, n)[k] == plan_at((start + k) % 4),
    decreases n,
{
    if k > 0 {
        lemma_run_plans_index((start + 1) % 4, (n - 1) as nat, k - 1);
        assert(((start + 1) % 4 + (k - 1)) % 4 == (start + k) % 4);
    } else {
        lemma_run_plans_len((start + 1) % 4, (n - 1) as nat);
    }
    lemma_run_plans_len(start, n);
}

proof fn lemma_run_plans_len(start: int, n: nat)
    ensures
        run_plans(start, n).len() == n,
    decreases n,
{
    if n > 0 {
        lemma_run_plans_len((start + 1) % 4, (n - 1) as nat);
    }
}

/// Law: over a run of renders from a fresh or reset schedule (position 0),
/// render `k` loads and reports the full LUT exactly when `k % 4 == 0`, loads
/// the quick LUT when `k % 4 == 1`, loads nothing when `k % 4` is 2 or 3,
/// and reports a quick refresh whenever it does not report a full one.
pub proof fn lemma_run_schedule(n: nat)
    ensures
        run_plans(0, n).len() == n,
        forall|k: int| 0 <= k < n ==> {
            let p = #[trigger] run_plans(0, n)[k];
            &&& (p.refresh == RefreshLut::Full <==> k % 4 == 0)
            &&& (p.refresh == RefreshLut::Quick <==> k % 4 != 0)
            &&& (p.load_lut == Some(RefreshLut::Full) <==> k % 4 == 0)
            &&& (p.load_lut == Some(RefreshLut::Quick) <==> k % 4 == 1)
            &&& (p.load_lut is None <==> (k % 4 == 2 || k % 4 == 3))
        },
{
    lemma_run_plans_len(0, n);
    assert forall|k: int| 0 <= k < n implies {
        let p = #[trigger] run_plans(0, n)[k];
        &&& (p.refresh == RefreshLut::Full <==> k % 4 == 0)
        &&& (p.refresh == RefreshLut::Quick <==> k % 4 != 0)
        &&& (p.load_lut == Some(RefreshLut::Full) <==> k % 4 == 0)
        &&& (p.load_lut == Some(RefreshLut::Quick) <==> k % 4 == 1)
        &&& (p.load_lut is None <==> (k % 4 == 2 || k % 4 == 3))
    } by {
        lemma_run_plans_index(0, n, k);
    }
}

/// Render `k` of `plans` reports the LUT that the last render up to it that
/// loaded one (render `k` itself or an earlier one) loaded.
#[verifier::opaque]
pub open spec fn reports_last_loaded(plans: Seq<RefreshPlan>, k: int) -> bool {
    exists|j: int| #![trigger plans[j]]
        {
            &&& 0 <= j <= k
            &&& plans[j].load_lut == Some(plans[k].refresh)
            &&& forall|i: int| j < i <= k ==> (#[trigger] plans[i]).load_lut is None
        }
}

proof fn lemma_last_loaded_at(n: nat, k: int)
    requires
        0 <= k < n,
    ensures
        reports_last_loaded(run_plans(0, n), k),
{
    reveal(reports_last_loaded);
    let plans = run_plans(0, n);
    lemma_run_plans_index(0, n, k);
    let r = k % 4;
    let j = if r == 0 { k } else { k - r + 1 };
    assert(0 <= j <= k);
    lemma_run_plans_index(0, n, j);
    assert(j % 4 == (if r == 0 { 0int } else { 1int }));
    assert forall|i: int| j < i <= k implies (#[trigger] plans[i]).load_lut is None by {
        lemma_run_plans_index(0, n, i);
        assert(i % 4 == 2 || i % 4 == 3);
    }
    assert(plans[j].load_lut == Some(plans[k].refresh));
}

/// Law: over a run of renders from a fresh or reset schedule, every render
/// reports the LUT that was loaded most recently (by it or by an earlier
/// render of the run), so the reported refresh is the one the panel used.
pub proof fn lemma_reports_last_loaded(n: nat)
    ensures
        forall|k: int| 0 <= k < n ==> #[trigger] reports_last_loaded(run_plans(0, n), k),
{
    assert forall|k: int| 0 <= k < n implies #[trigger] reports_last_loaded(run_plans(0, n), k) by {
        lemma_last_loaded_at(n, k);
    }
}

/// Law: in any four consecutive renders exactly one is a full refresh, and
/// after four renders the schedule is back where it started.
pub proof fn lemma_one_full_refresh_per_round(start: int)
    requires
        0 <= start < 4,
    ensures
        exists|k: int| 0 <= k < 4 && #[trigger] plan_at((start + k) % 4).refresh == RefreshLut::Full,
        forall|k: int, j: int|
            0 <= k < 4 && 0 <= j < 4 && #[trigger] plan_at((start + k) % 4).refresh == RefreshLut::Full
                && #[trigger] plan_at((start + j) % 4).refresh == RefreshLut::Full ==> k == j,
        (((((start + 1) % 4 + 1) % 4 + 1) % 4 + 1) % 4) == start,
{
    let k0 = (4 - start) % 4;
    assert((start + k0) % 4 == 0);
    assert(plan_at((start + k0) % 4).refresh == RefreshLut::Full);
    assert forall|k: int, j: int|
        0 <= k < 4 && 0 <= j < 4 && #[trigger] plan_at((start + k) % 4).refresh == RefreshLut::Full
            && #[trigger] plan_at((start + j) % 4).refresh == RefreshLut::Full implies k == j by {
        assert((start + k) % 4 == 0);
        assert((start + j) % 4 == 0);
    }
}

} // verus!
