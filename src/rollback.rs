//! Tick snapshots, restore, and re-simulation from a past tick.
use crate::input::GameInput;
use crate::physics::bodies_wf;
use crate::sim::{history_view, lemma_run_concat, run, SimState, Simulation};
use vstd::prelude::*;

verus! {

#[derive(Clone, Copy, Debug, PartialEq, Eq, Structural)]
pub enum RollbackError {
    /// The tick is no longer, or was never, held: a full resync is needed.
    OutOfWindow,
}

/// The state at the start of `tick`, and the inputs that tick was run with.
#[derive(Debug)]
pub struct Snapshot {
    pub tick: u64,
    pub state: Simulation,
    pub inputs: Vec<GameInput>,
}

pub ghost struct SnapView {
    pub tick: u64,
    pub state: SimState,
    pub inputs: Seq<GameInput>,
}

/// The most recent snapshots, at most `max_window` of them, in increasing
/// order of tick.
#[derive(Debug)]
pub struct RollbackStore {
    pub max_window: usize,
    pub snapshots: Vec<Snapshot>,
}

impl Snapshot {
    pub open spec fn view(&self) -> SnapView {
        SnapView { tick: self.tick, state: self.state@, inputs: self.inputs@ }
    }
}

pub open spec fn snaps_view(s: Seq<Snapshot>) -> Seq<SnapView> {
    s.map_values(|x: Snapshot| x.view())
}

pub open spec fn state_wf(st: SimState) -> bool {
    bodies_wf(st.bodies, st.next_handle)
}

pub open spec fn snaps_wf(v: Seq<SnapView>, w: usize) -> bool {
    &&& v.len() <= w
    &&& forall|a: int, b: int| 0 <= a < b < v.len() ==> v[a].tick < v[b].tick
    &&& forall|k: int| 0 <= k < v.len() ==> v[k].state.tick == v[k].tick && state_wf(v[k].state)
}

/// `v` without the snapshots of tick `t` and later.
pub open spec fn truncated(v: Seq<SnapView>, t: u64) -> Seq<SnapView>
    decreases v.len(),
{
    if v.len() > 0 && v.last().tick >= t {
        truncated(v.drop_last(), t)
    } else {
        v
    }
}

/// Snapshots after `s` is saved into `v`: later ones are dropped, and the
/// oldest is evicted when more than `w` would be held.
pub open spec fn saved(v: Seq<SnapView>, w: usize, s: SnapView) -> Seq<SnapView> {
    let p = truncated(v, s.tick).push(s);
    if p.len() > w {
        p.drop_first()
    } else {
        p
    }
}

/// Snapshots after each of `snaps` is saved in order.
pub open spec fn saves(v: Seq<SnapView>, w: usize, snaps: Seq<SnapView>) -> Seq<SnapView>
    decreases snaps.len(),
{
    if snaps.len() == 0 {
        v
    } else {
        saved(saves(v, w, snaps.drop_last()), w, snaps.last())
    }
}

pub open spec fn has_tick(v: Seq<SnapView>, t: u64) -> bool {
    exists|k: int| 0 <= k < v.len() && v[k].tick == t
}

pub open spec fn snapshot_at(v: Seq<SnapView>, t: u64) -> SnapView {
    v[choose|k: int| 0 <= k < v.len() && v[k].tick == t]
}

/// Inputs for tick `from + i`: the correction, if one is given, else the
/// inputs recorded with that tick's snapshot.
pub open spec fn planned_input(
    v: Seq<SnapView>,
    corrected: Seq<Option<Seq<GameInput>>>,
    from: u64,
    i: int,
) -> Option<Seq<GameInput>> {
    if i < corrected.len() && corrected[i] is Some {
        corrected[i]
    } else if has_tick(v, (from + i) as u64) {
        Some(snapshot_at(v, (from + i) as u64).inputs)
    } else {
        None
    }
}

/// Every tick from `from` to `to` can be re-run.
pub open spec fn plan_ok(
    v: Seq<SnapView>,
    corrected: Seq<Option<Seq<GameInput>>>,
    from: u64,
    to: u64,
) -> bool {
    &&& has_tick(v, from)
    &&& forall|i: int| 0 <= i < to - from ==> planned_input(v, corrected, from, i) is Some
}

pub open spec fn plan(
    v: Seq<SnapView>,
    corrected: Seq<Option<Seq<GameInput>>>,
    from: u64,
    to: u64,
) -> Seq<Seq<GameInput>> {
    Seq::new((to - from) as nat, |i: int| planned_input(v, corrected, from, i)->0)
}

/// Snapshots after the first `k` ticks of a replay of `p` from `st0`.
pub open spec fn replay_snaps(
    v: Seq<SnapView>,
    w: usize,
    st0: SimState,
    p: Seq<Seq<GameInput>>,
    k: int,
) -> Seq<SnapView>
    decreases k,
{
    if k <= 0 {
        v
    } else {
        let st = run(st0, p.take(k - 1));
        saved(replay_snaps(v, w, st0, p, k - 1), w, SnapView { tick: st.tick, state: st, inputs: p[k - 1] })
    }
}

pub open spec fn corrected_view(c: Seq<Option<Vec<GameInput>>>) -> Seq<Option<Seq<GameInput>>> {
    c.map_values(
        |o: Option<Vec<GameInput>>|
            match o {
                Some(v) => Some(v@),
                None => None,
            },
    )
}

proof fn lemma_truncated_prefix(v: Seq<SnapView>, t: u64)
    ensures
        truncated(v, t).len() <= v.len(),
        forall|k: int| 0 <= k < truncated(v, t).len() ==> truncated(v, t)[k] == v[k],
        truncated(v, t).len() > 0 ==> truncated(v, t).last().tick < t,
    decreases v.len(),
{
    if v.len() > 0 && v.last().tick >= t {
        lemma_truncated_prefix(v.drop_last(), t);
        assert forall|k: int| 0 <= k < truncated(v, t).len() implies truncated(v, t)[k] == v[k] by {
            assert(v.drop_last()[k] == v[k]);
        }
    }
}

proof fn lemma_saved_wf(v: Seq<SnapView>, w: usize, s: SnapView)
    requires
        snaps_wf(v, w),
        s.state.tick == s.tick,
        state_wf(s.state),
    ensures
        snaps_wf(saved(v, w, s), w),
{
    lemma_truncated_prefix(v, s.tick);
    let t = truncated(v, s.tick);
    let p = t.push(s);
    assert forall|a: int, b: int| 0 <= a < b < p.len() implies p[a].tick < p[b].tick by {
        if b == p.len() - 1 {
            if a < t.len() - 1 {
                assert(v[a].tick < v[t.len() - 1].tick);
            }
        } else {
            assert(p[a] == v[a] && p[b] == v[b]);
        }
    }
    assert forall|k: int| 0 <= k < p.len() implies p[k].state.tick == p[k].tick && state_wf(
        p[k].state,
    ) by {
        if k < t.len() {
            assert(p[k] == v[k]);
        }
    }
    if p.len() > w {
        let r = p.drop_first();
        assert forall|a: int, b: int| 0 <= a < b < r.len() implies r[a].tick < r[b].tick by {
            assert(r[a] == p[a + 1] && r[b] == p[b + 1]);
        }
        assert forall|k: int| 0 <= k < r.len() implies r[k].state.tick == r[k].tick && state_wf(
            r[k].state,
        ) by {
            assert(r[k] == p[k + 1]);
        }
    }
}

/// Rollback equivalence: re-running a history's ticks `a..b` from the state
/// that the history reached at `a` ends in the state that running the whole
/// history up to `b` from the start reaches.
pub proof fn lemma_rollback_equivalence(
    s0: SimState,
    history: Seq<Seq<GameInput>>,
    a: int,
    b: int,
)
    requires
        0 <= a <= b <= history.len(),
    ensures
        run(run(s0, history.take(a)), history.subrange(a, b)) == run(s0, history.take(b)),
{
    lemma_run_concat(s0, history.take(a), history.subrange(a, b));
    assert(history.take(a) + history.subrange(a, b) =~= history.take(b));
}

proof fn lemma_window_shape(w: usize, snaps: Seq<SnapView>, n: int)
    requires
        0 <= n <= snaps.len(),
        forall|i: int| 0 <= i < snaps.len() ==> snaps[i].tick == i,
    ensures
        saves(Seq::empty(), w, snaps.take(n)).len() == (if n < w { n } else { w as int }),
        forall|j: int|
            0 <= j < saves(Seq::empty(), w, snaps.take(n)).len() ==> saves(
                Seq::empty(),
                w,
                snaps.take(n),
            )[j].tick == n - saves(Seq::empty(), w, snaps.take(n)).len() + j,
    decreases n,
{
    if n > 0 {
        lemma_window_shape(w, snaps, n - 1);
        assert(snaps.take(n).drop_last() =~= snaps.take(n - 1));
        let prev = saves(Seq::empty(), w, snaps.take(n - 1));
        let s = snaps[n - 1];
        assert(snaps.take(n).last() == s);
        if prev.len() > 0 {
            assert(prev.last().tick == n - 2);
        }
        assert(truncated(prev, s.tick) == prev);
        let p = prev.push(s);
        if p.len() > w {
            let r = p.drop_first();
            assert forall|j: int| 0 <= j < r.len() implies r[j].tick == n - r.len() + j by {
                assert(r[j] == p[j + 1]);
            }
        }
    }
}

/// Window eviction: once snapshots of ticks `0..K` have been saved in order
/// into an empty store that holds `w`, with `K > w`, tick 0 is no longer held.
pub proof fn lemma_window_eviction(w: usize, snaps: Seq<SnapView>)
    requires
        forall|i: int| 0 <= i < snaps.len() ==> snaps[i].tick == i,
        snaps.len() > w,
    ensures
        !has_tick(saves(Seq::empty(), w, snaps), 0),
{
    lemma_window_shape(w, snaps, snaps.len() as int);
    assert(snaps.take(snaps.len() as int) =~= snaps);
}

impl RollbackStore {
    pub open spec fn view(&self) -> Seq<SnapView> {
        snaps_view(self.snapshots@)
    }

    pub open spec fn wf(&self) -> bool {
        snaps_wf(self@, self.max_window)
    }

    /// An empty store that holds at most `max_window` snapshots.
    pub fn new(max_window: usize) -> (r: RollbackStore)
        ensures
            r.wf(),
            r.max_window == max_window,
            r@.len() == 0,
    {
        let r = RollbackStore { max_window, snapshots: Vec::new() };
        assert(r@ =~= Seq::<SnapView>::empty());
        r
    }

    /// Index of the snapshot of tick `t`, if one is held.
    fn find(&self, t: u64) -> (r: Option<usize>)
        requires
            self.wf(),
        ensures
            r is None <==> !has_tick(self@, t),
            r matches Some(k) ==> k < self@.len() && self@[k as int] == snapshot_at(self@, t),
    {
        let mut k: usize = 0;
        while k < self.snapshots.len()
            invariant
                self.wf(),
                k <= self@.len(),
                self@.len() == self.snapshots@.len(),
                forall|j: int| 0 <= j < k ==> self@[j].tick != t,
            decreases self@.len() - k,
        {
            if self.snapshots[k].tick == t {
                proof {
                    assert(self@[k as int].tick == t);
                    let c = choose|j: int| 0 <= j < self@.len() && self@[j].tick == t;
                    if c < k {
                        assert(self@[c].tick < self@[k as int].tick);
                    } else if c > k {
                        assert(self@[k as int].tick < self@[c].tick);
                    }
                }
                return Some(k);
            }
            k = k + 1;
        }
        None
    }

    /// Records the state at the start of `sim.tick` and the inputs that tick
    /// is about to run with.
    pub fn save(&mut self, sim: &Simulation, inputs: &Vec<GameInput>)
        requires
            old(self).wf(),
            sim.wf(),
        ensures
            final(self).wf(),
            final(self).max_window == old(self).max_window,
            final(self)@ == saved(
                old(self)@,
                old(self).max_window,
                (SnapView { tick: sim.tick, state: sim@, inputs: inputs@ }),
            ),
    {
        let t = sim.tick;
        while self.snapshots.len() > 0 && self.snapshots[self.snapshots.len() - 1].tick >= t
            invariant
                self.max_window == old(self).max_window,
                truncated(self@, t) == truncated(old(self)@, t),
                snaps_wf(self@, self.max_window),
                self@.len() == self.snapshots@.len(),
            decreases self.snapshots@.len(),
        {
            let ghost before = self@;
            self.snapshots.pop();
            proof {
                assert(self@ =~= before.drop_last());
                assert(snaps_wf(self@, self.max_window));
            }
        }
        let ghost kept = self@;
        let recorded = inputs.clone();
        assert(recorded@ =~= inputs@);
        self.snapshots.push(Snapshot { tick: t, state: sim.copy(), inputs: recorded });
        assert(self@ =~= kept.push(SnapView { tick: t, state: sim@, inputs: inputs@ }));
        if self.snapshots.len() > self.max_window {
            let ghost before = self@;
            self.snapshots.remove(0);
            assert(self@ =~= before.drop_first());
        }
        proof {
            lemma_saved_wf(old(self)@, old(self).max_window, SnapView { tick: t, state: sim@, inputs: inputs@ });
        }
    }
    /// A copy of the state at the start of `tick`; fails when that tick is
    /// not held.
    pub fn restore(&self, tick: u64) -> (r: Result<Simulation, RollbackError>)
        requires
            self.wf(),
        ensures
            !has_tick(self@, tick) ==> (r matches Err(e) && e == RollbackError::OutOfWindow),
            has_tick(self@, tick) ==> (r matches Ok(s) && s@ == snapshot_at(self@, tick).state
                && s.wf()),
    {
        match self.find(tick) {
            Some(k) => {
                let s = self.snapshots[k].state.copy();
                assert(self@[k as int] == snaps_view(self.snapshots@)[k as int]);
                Ok(s)
            },
            None => Err(RollbackError::OutOfWindow),
        }
    }

    /// Restores the snapshot of tick `from` into `sim` and runs the ticks
    /// from `from` up to `to` again, each with its corrected inputs where
    /// `corrected[tick - from]` holds some, else with the inputs recorded for
    /// it; each re-run tick is saved anew. Fails, changing nothing, when a
    /// tick it needs is not held.
    pub fn resimulate(
        &mut self,
        sim: &mut Simulation,
        from: u64,
        to: u64,
        corrected: &Vec<Option<Vec<GameInput>>>,
    ) -> (r: Result<(), RollbackError>)
        requires
            old(self).wf(),
            old(sim).wf(),
            from <= to,
        ensures
            final(self).wf(),
            final(sim).wf(),
            final(self).max_window == old(self).max_window,
            !plan_ok(old(self)@, corrected_view(corrected@), from, to) ==> r == Err::<
                (),
                RollbackError,
            >(RollbackError::OutOfWindow) && final(self)@ == old(self)@ && final(sim)@ == old(
                sim,
            )@,
            plan_ok(old(self)@, corrected_view(corrected@), from, to) ==> r == Ok::<
                (),
                RollbackError,
            >(()) && final(sim)@ == run(
                snapshot_at(old(self)@, from).state,
                plan(old(self)@, corrected_view(corrected@), from, to),
            ) && final(self)@ == replay_snaps(
                old(self)@,
                old(self).max_window,
                snapshot_at(old(self)@, from).state,
                plan(old(self)@, corrected_view(corrected@), from, to),
                to - from,
            ),
    {
        let ghost v = self@;
        let ghost cv = corrected_view(corrected@);
        let start = match self.find(from) {
            Some(k) => k,
            None => {
                return Err(RollbackError::OutOfWindow);
            },
        };
        let n: u64 = to - from;
        let mut p: Vec<Vec<GameInput>> = Vec::new();
        let mut i: u64 = 0;
        while i < n
            invariant
                self@ == v,
                self.wf(),
                self.max_window == old(self).max_window,
                sim.wf(),
                sim@ == old(sim)@,
                cv == corrected_view(corrected@),
                n == to - from,
                i <= n,
                p@.len() == i,
                forall|j: int| 0 <= j < i ==> planned_input(v, cv, from, j) is Some,
                forall|j: int|
                    0 <= j < i ==> (#[trigger] p@[j])@ == planned_input(v, cv, from, j)->0,
            decreases n - i,
        {
            let mut done = false;
            if i < corrected.len() as u64 {
                match &corrected[i as usize] {
                    Some(c) => {
                        let c2 = c.clone();
                        assert(c2@ =~= c@);
                        assert(cv[i as int] == Some(c@));
                        p.push(c2);
                        done = true;
                    },
                    None => {},
                }
            }
            if !done {
                assert(!(i < cv.len() && cv[i as int] is Some));
                match self.find(from + i) {
                    Some(k) => {
                        let c2 = self.snapshots[k].inputs.clone();
                        assert(c2@ =~= self.snapshots[k as int].inputs@);
                        assert(self@[k as int] == snaps_view(self.snapshots@)[k as int]);
                        p.push(c2);
                    },
                    None => {
                        assert(planned_input(v, cv, from, i as int) is None);
                        return Err(RollbackError::OutOfWindow);
                    },
                }
            }
            i = i + 1;
        }
        let ghost pv = plan(v, cv, from, to);
        assert(history_view(p@) =~= pv);
        assert(plan_ok(v, cv, from, to));
        let ghost st0 = snapshot_at(v, from).state;
        assert(self@[start as int] == snaps_view(self.snapshots@)[start as int]);
        *sim = self.snapshots[start].state.copy();
        let mut k: usize = 0;
        while k < p.len()
            invariant
                k <= p@.len(),
                p@.len() == to - from,
                history_view(p@) == pv,
                sim.wf(),
                self.wf(),
                self.max_window == old(self).max_window,
                sim.tick == from + k,
                st0.tick == from,
                sim@ == run(st0, pv.take(k as int)),
                self@ == replay_snaps(v, old(self).max_window, st0, pv, k as int),
            decreases p@.len() - k,
        {
            self.save(sim, &p[k]);
            sim.advance(&p[k]);
            proof {
                assert(pv.take(k + 1).drop_last() =~= pv.take(k as int));
                assert(pv[k as int] == p@[k as int]@);
            }
            k = k + 1;
        }
        assert(pv.take(k as int) =~= pv);
        Ok(())
    }
}

} // verus!
