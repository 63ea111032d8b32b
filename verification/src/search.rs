//! A*-style search over physics states.
//!
//! The planner pops the cheapest open node (cost = tick count plus a
//! weighted Euclidean distance to the target), expands every allowed
//! move/sprint combination through the physics stepper, deduplicates
//! states by a settings-controlled equivalence key, discards dominated
//! neighbors, and reconstructs the winning move list.  The whole search is
//! mirrored by a fueled specification (`spec_run`): the bounded entry
//! point returns exactly what the specification computes, which pins the
//! search to a deterministic function of its inputs; the timed entry point
//! additionally stops at a wall-clock timeout, which can only turn the
//! outcome into "no path".

use vstd::prelude::*;

use crate::moves::Move;
use crate::moves::Direction;
use crate::moves::allowed_moves;
use crate::physics::PhysState;
use crate::physics::PlayerState;
use crate::physics::am_idx_ok;
use crate::physics::close_spec;
use crate::physics::spec_first_env;
use crate::physics::spec_tick;
use crate::physics::wf_player;
use crate::geometry::Pointf;
use crate::geometry::isqrt_spec;
use crate::round_cache::RoundCache;
use crate::round_cache::cache_wf;
use crate::settings::GameMode;
use crate::settings::PhysicsSettings;
use crate::settings::SearchSettings;
use crate::settings::settings_wf;
use crate::static_state::StaticState;
use crate::static_state::static_wf;

verus! {

/// How close (per axis, in subunits) a state must be to the target to
/// count as a solution (16 units).
pub const TARGET_PRECISION: i64 = 1_600_000;

/// Hard cap on search iterations; in practice the wall-clock timeout
/// fires long before it.
pub const ITER_CAP: u64 = 4_000_000_000;

/// Round `v` to the nearest multiple of `unit`, ties away from zero.
pub open spec fn round_half_away(v: int, unit: int) -> int {
    if v >= 0 {
        ((v + unit / 2) / unit) * unit
    } else {
        -(((-v + unit / 2) / unit) * unit)
    }
}

/// Exact rounding to a multiple of `unit`.
fn round_half_away_exec(v: i64, unit: i64) -> (r: i64)
    requires
        1 <= unit <= 1_000_000,
        -1_000_000_000_000 <= v <= 1_000_000_000_000,
    ensures
        r == round_half_away(v as int, unit as int),
{
    let m: u64 = if v >= 0 { v as u64 } else { (-v) as u64 };
    let h: u64 = (unit as u64) / 2;
    let q: u64 = (m + h) / (unit as u64);
    proof {
        assert((m + h) / (unit as int) * (unit as int) <= m + h
            && (m + h) / (unit as int) <= m + h) by (nonlinear_arith)
            requires unit as int >= 1;
    }
    let mag: u64 = q * (unit as u64);
    if v >= 0 {
        mag as i64
    } else {
        -(mag as i64)
    }
}

/// The state-equivalence key.  Position always takes part; push-related
/// fields only when push mechanics are enabled; vertical velocity only in
/// platformer mode; coarse decimal rounding under `simple_geometry`.
/// The cached modifier index is derived state and never takes part.
#[derive(PartialEq, Eq, Structural, Debug, Copy, Clone, Hash)]
pub struct StateKey {
    pub x: i64,
    pub y: i64,
    pub vpush: i64,
    pub control: bool,
    pub dir: Direction,
    pub vy: i64,
}

/// The equivalence key of a player state under the given settings.
pub open spec fn spec_state_key(ps: PhysicsSettings, p: PlayerState) -> StateKey {
    StateKey {
        x: if ps.simple_geometry { round_half_away(p.x as int, 10_000) as i64 } else { p.x },
        y: if ps.simple_geometry { round_half_away(p.y as int, 10_000) as i64 } else { p.y },
        vpush: if ps.enable_vpush { p.vpush } else { 0 },
        control: if ps.enable_vpush { p.can_control_movement } else { true },
        dir: if ps.enable_vpush { p.direction } else { Direction::N },
        vy: if ps.mode == GameMode::Platformer {
            if ps.simple_geometry { round_half_away(p.vy as int, 100_000) as i64 } else { p.vy }
        } else {
            0
        },
    }
}

/// Compute the equivalence key.
pub fn state_key(ps: &PhysicsSettings, p: &PlayerState) -> (r: StateKey)
    requires
        wf_player(*p),
    ensures
        r == spec_state_key(*ps, *p),
{
    let x: i64 = if ps.simple_geometry { round_half_away_exec(p.x, 10_000) } else { p.x };
    let y: i64 = if ps.simple_geometry { round_half_away_exec(p.y, 10_000) } else { p.y };
    let vpush: i64 = if ps.enable_vpush { p.vpush } else { 0 };
    let control: bool = if ps.enable_vpush { p.can_control_movement } else { true };
    let dir: Direction = if ps.enable_vpush { p.direction } else { Direction::N };
    let vy: i64 = if ps.mode == GameMode::Platformer {
        if ps.simple_geometry { round_half_away_exec(p.vy, 100_000) } else { p.vy }
    } else {
        0
    };
    StateKey { x, y, vpush, control, dir, vy }
}

/// First index whose key equals `k`, or the length.
pub open spec fn assoc_find<V>(pairs: Seq<(StateKey, V)>, k: StateKey) -> int
    decreases pairs.len(),
{
    if pairs.len() == 0 {
        0
    } else if pairs[0].0 == k {
        0
    } else {
        1 + assoc_find(pairs.skip(1), k)
    }
}

/// The value stored under `k`, if any.
pub open spec fn assoc_get<V>(pairs: Seq<(StateKey, V)>, k: StateKey) -> Option<V> {
    let i = assoc_find(pairs, k);
    if i < pairs.len() { Some(pairs[i].1) } else { None }
}

/// The pairs after storing `v` under `k` (replacing the first match, else
/// appending).
pub open spec fn assoc_set<V>(pairs: Seq<(StateKey, V)>, k: StateKey, v: V) -> Seq<(StateKey, V)> {
    let i = assoc_find(pairs, k);
    if i < pairs.len() { pairs.update(i, (k, v)) } else { pairs.push((k, v)) }
}

/// `assoc_find` is the first matching index.
proof fn lemma_assoc_find_char<V>(pairs: Seq<(StateKey, V)>, k: StateKey)
    ensures
        0 <= assoc_find(pairs, k) <= pairs.len(),
        assoc_find(pairs, k) < pairs.len() ==> pairs[assoc_find(pairs, k)].0 == k,
        forall|j: int| 0 <= j < assoc_find(pairs, k) ==> (#[trigger] pairs[j]).0 != k,
    decreases pairs.len(),
{
    if pairs.len() == 0 {
    } else if pairs[0].0 == k {
    } else {
        lemma_assoc_find_char(pairs.skip(1), k);
        let f = assoc_find(pairs.skip(1), k);
        assert forall|j: int| 0 <= j < 1 + f implies (#[trigger] pairs[j]).0 != k by {
            if j > 0 {
                assert(pairs.skip(1)[j - 1] == pairs[j]);
            }
        }
    }
}

/// A linear map from equivalence keys to values.
pub struct KeyMap<V> {
    pub pairs: Vec<(StateKey, V)>,
}

impl<V: Copy> KeyMap<V> {
    /// An empty map.
    pub fn new() -> (r: Self)
        ensures
            r.pairs@ =~= Seq::<(StateKey, V)>::empty(),
    {
        KeyMap { pairs: Vec::new() }
    }

    /// First index holding `k`, or the length.
    fn find(&self, k: StateKey) -> (r: usize)
        ensures
            r == assoc_find(self.pairs@, k),
    {
        let n: usize = self.pairs.len();
        let mut i: usize = 0;
        while i < n
            invariant
                n == self.pairs@.len(),
                0 <= i <= n,
                forall|j: int| 0 <= j < i ==> (#[trigger] self.pairs@[j]).0 != k,
            decreases n - i,
        {
            let (ki, _) = self.pairs[i];
            if ki == k {
                proof {
                    lemma_assoc_find_char(self.pairs@, k);
                    let f = assoc_find(self.pairs@, k);
                    assert(f <= i) by {
                        if f > i {
                            assert(self.pairs@[i as int].0 != k);
                        }
                    }
                    assert(f >= i) by {
                        if f < i {
                            assert(self.pairs@[f].0 != k);
                        }
                    }
                }
                return i;
            }
            i = i + 1;
        }
        proof {
            lemma_assoc_find_char(self.pairs@, k);
            let f = assoc_find(self.pairs@, k);
            assert(f >= n) by {
                if f < n {
                    assert(self.pairs@[f].0 != k);
                }
            }
        }
        n
    }

    /// The value stored under `k`, if any.
    pub fn get(&self, k: StateKey) -> (r: Option<V>)
        ensures
            r == assoc_get(self.pairs@, k),
    {
        let i = self.find(k);
        proof {
            lemma_assoc_find_char(self.pairs@, k);
        }
        if i < self.pairs.len() {
            let (_, v) = self.pairs[i];
            Some(v)
        } else {
            None
        }
    }

    /// Store `v` under `k`.
    pub fn set(&mut self, k: StateKey, v: V)
        ensures
            final(self).pairs@ == assoc_set(old(self).pairs@, k, v),
    {
        let i = self.find(k);
        proof {
            lemma_assoc_find_char(self.pairs@, k);
        }
        if i < self.pairs.len() {
            self.pairs.set(i, (k, v));
        } else {
            self.pairs.push((k, v));
        }
    }
}

/// An entry of the predecessor map: the full predecessor state and the
/// input that led here.
#[derive(Debug, Copy, Clone)]
pub struct CameEntry {
    pub prev: PhysState,
    pub mv: Move,
    pub shift: bool,
}

/// An open node: priority, tick count from the start, and the state.
#[derive(Debug, Copy, Clone)]
pub struct SearchNode {
    pub cost: u64,
    pub ticks: u64,
    pub state: PhysState,
}

/// Index of the cheapest node among the first `i + 1`; ties keep the
/// earliest (the queue discipline of this planner).
pub open spec fn min_cost_idx(nodes: Seq<SearchNode>, i: int) -> int
    decreases i,
{
    if i <= 0 {
        0
    } else {
        let p = min_cost_idx(nodes, i - 1);
        if nodes[i].cost < nodes[p].cost { i } else { p }
    }
}

/// Priority of a node: its tick count (scaled to subunits) plus the
/// weighted distance from its player to the target player.
pub open spec fn cost_of(ticks: int, w: int, target: PlayerState, cur: PlayerState) -> int {
    ticks * 100_000
        + w * isqrt_spec(
            (target.x - cur.x) * (target.x - cur.x) + (target.y - cur.y) * (target.y - cur.y),
        )
}

/// Exact node priority.
fn node_cost(ticks: u64, w: i64, target: &PlayerState, cur: &PlayerState) -> (r: u64)
    requires
        0 <= w <= 1000,
        ticks <= ITER_CAP + 1,
        wf_player(*target),
        wf_player(*cur),
    ensures
        r == cost_of(ticks as int, w as int, *target, *cur),
{
    let dx: i64 = target.x - cur.x;
    let dy: i64 = target.y - cur.y;
    let d: i64 = Pointf::new(dx, dy).len();
    proof {
        assert(0 <= w * d <= 6_000_000_000_000 && ticks * 100_000 <= 400_000_000_100_000 * 4)
            by (nonlinear_arith)
            requires
                0 <= w <= 1000,
                0 <= d <= 6_000_000_000,
                0 <= ticks <= 4_000_000_001,
        ;
    }
    ticks * 100_000 + (w as u64) * (d as u64)
}

/// The sprint variants the search tries.
pub open spec fn shift_variants(ss: SearchSettings) -> Seq<bool> {
    if ss.always_shift { seq![true] } else { seq![false, true] }
}

/// The (move, sprint) combinations for one move, from variant `j` on:
/// sprint on a purely vertical move is skipped unless sprint is forced.
pub open spec fn pairs_for_move(
    m: Move,
    vars: Seq<bool>,
    ss: SearchSettings,
    j: int,
) -> Seq<(Move, bool)>
    decreases vars.len() - j,
{
    if j < 0 || j >= vars.len() {
        Seq::empty()
    } else {
        let rest = pairs_for_move(m, vars, ss, j + 1);
        if !ss.always_shift && vars[j] && (m == Move::S || m == Move::W) {
            rest
        } else {
            seq![(m, vars[j])] + rest
        }
    }
}

/// All (move, sprint) combinations the search tries, in expansion order.
pub open spec fn pairs_all(
    moves: Seq<Move>,
    vars: Seq<bool>,
    ss: SearchSettings,
    i: int,
) -> Seq<(Move, bool)>
    decreases moves.len() - i,
{
    if i < 0 || i >= moves.len() {
        Seq::empty()
    } else {
        pairs_for_move(moves[i], vars, ss, 0) + pairs_all(moves, vars, ss, i + 1)
    }
}

/// The expansion list of the given settings.
pub open spec fn pairs_of(ss: SearchSettings) -> Seq<(Move, bool)> {
    pairs_all(allowed_moves(ss), shift_variants(ss), ss, 0)
}

/// Build the expansion list.
fn build_pairs(settings: &SearchSettings) -> (r: Vec<(Move, bool)>)
    ensures
        r@ == pairs_of(*settings),
{
    let moves = Move::all(settings);
    let shifts: Vec<bool> = if settings.always_shift {
        vec![true]
    } else {
        vec![false, true]
    };
    proof {
        assert(shifts@ =~= shift_variants(*settings));
    }
    let mut r: Vec<(Move, bool)> = Vec::new();
    let nm: usize = moves.len();
    let mut i: usize = 0;
    while i < nm
        invariant
            nm == moves@.len(),
            0 <= i <= nm,
            moves@ == allowed_moves(*settings),
            shifts@ == shift_variants(*settings),
            r@ + pairs_all(moves@, shifts@, *settings, i as int)
                == pairs_all(moves@, shifts@, *settings, 0),
        decreases nm - i,
    {
        let m: Move = moves[i];
        let ns: usize = shifts.len();
        let mut j: usize = 0;
        while j < ns
            invariant
                nm == moves@.len(),
                0 <= i < nm,
                m == moves@[i as int],
                ns == shifts@.len(),
                0 <= j <= ns,
                moves@ == allowed_moves(*settings),
                shifts@ == shift_variants(*settings),
                r@ + pairs_for_move(m, shifts@, *settings, j as int)
                    + pairs_all(moves@, shifts@, *settings, (i + 1) as int)
                    == pairs_all(moves@, shifts@, *settings, 0),
            decreases ns - j,
        {
            let sh: bool = shifts[j];
            let skip: bool = !settings.always_shift && sh && m.is_only_vertical();
            if !skip {
                r.push((m, sh));
                proof {
                    assert(r@ + pairs_for_move(m, shifts@, *settings, (j + 1) as int)
                        =~= r@.drop_last() + pairs_for_move(m, shifts@, *settings, j as int));
                    assert(r@ + pairs_for_move(m, shifts@, *settings, (j + 1) as int)
                        + pairs_all(moves@, shifts@, *settings, (i + 1) as int)
                        =~= (r@.drop_last() + pairs_for_move(m, shifts@, *settings, j as int))
                        + pairs_all(moves@, shifts@, *settings, (i + 1) as int));
                    assert((r@.drop_last() + pairs_for_move(m, shifts@, *settings, j as int))
                        + pairs_all(moves@, shifts@, *settings, (i + 1) as int)
                        =~= r@.drop_last() + pairs_for_move(m, shifts@, *settings, j as int)
                        + pairs_all(moves@, shifts@, *settings, (i + 1) as int));
                }
            } else {
                proof {
                    assert(pairs_for_move(m, shifts@, *settings, j as int)
                        == pairs_for_move(m, shifts@, *settings, (j + 1) as int));
                }
            }
            j = j + 1;
        }
        proof {
            assert(pairs_for_move(m, shifts@, *settings, ns as int)
                =~= Seq::<(Move, bool)>::empty());
            assert(r@ + pairs_for_move(m, shifts@, *settings, ns as int)
                =~= r@);
            assert(pairs_all(moves@, shifts@, *settings, i as int)
                == pairs_for_move(m, shifts@, *settings, 0)
                + pairs_all(moves@, shifts@, *settings, (i + 1) as int));
            assert(r@ + (pairs_for_move(m, shifts@, *settings, 0)
                + pairs_all(moves@, shifts@, *settings, (i + 1) as int))
                =~= r@ + pairs_for_move(m, shifts@, *settings, 0)
                + pairs_all(moves@, shifts@, *settings, (i + 1) as int));
        }
        i = i + 1;
    }
    proof {
        assert(pairs_all(moves@, shifts@, *settings, nm as int)
            =~= Seq::<(Move, bool)>::empty());
        assert(r@ + pairs_all(moves@, shifts@, *settings, nm as int) =~= r@);
    }
    r
}

/// The abstract search state: the open list and the two key maps.
pub struct SearchAbs {
    pub open: Seq<SearchNode>,
    pub g: Seq<(StateKey, u64)>,
    pub came: Seq<(StateKey, CameEntry)>,
}

/// Outcome of one abstract step.
pub enum SpecStep {
    Found(Seq<(Move, bool, PlayerState)>),
    NoPath,
    Cont(SearchAbs),
}

/// Outcome of an abstract run.
pub enum SpecOutcome {
    Found(Seq<(Move, bool, PlayerState)>),
    NoPath,
    Exhausted,
}

/// The path to `cur`, walked backwards through the predecessor map for at
/// most `fuel` links, oldest move first.
pub open spec fn spec_reconstruct(
    came: Seq<(StateKey, CameEntry)>,
    cur: PhysState,
    fuel: nat,
) -> Seq<(Move, bool, PlayerState)>
    decreases fuel,
{
    if fuel == 0 {
        Seq::empty()
    } else {
        match assoc_get(came, spec_state_key(cur.settings, cur.player)) {
            Some(e) => spec_reconstruct(came, e.prev, (fuel - 1) as nat)
                + seq![(e.mv, e.shift, cur.player)],
            None => Seq::empty(),
        }
    }
}

/// Expansion of one popped node over the combinations from `j` on.
pub open spec fn spec_expand(
    ss: SearchSettings,
    stat: StaticState,
    target: PlayerState,
    state: PhysState,
    ticks: u64,
    pairs: Seq<(Move, bool)>,
    j: int,
    s: SearchAbs,
) -> SpecStep
    decreases pairs.len() - j,
{
    if j < 0 || j >= pairs.len() {
        SpecStep::Cont(s)
    } else {
        let mv = pairs[j].0;
        let sh = pairs[j].1;
        let ns = spec_tick(state, mv, sh, stat, ss);
        if ns.player.dead {
            spec_expand(ss, stat, target, state, ticks, pairs, j + 1, s)
        } else if close_spec(ns.player, target, TARGET_PRECISION as int) {
            SpecStep::Found(
                spec_reconstruct(s.came, state, ticks as nat) + seq![(mv, sh, ns.player)],
            )
        } else {
            let nk = spec_state_key(ns.settings, ns.player);
            let dominated = match assoc_get(s.g, nk) {
                Some(t0) => ticks + 1 >= t0,
                None => false,
            };
            if dominated {
                spec_expand(ss, stat, target, state, ticks, pairs, j + 1, s)
            } else {
                let node = SearchNode {
                    cost: cost_of(ticks + 1, ss.heuristic_weight as int, target, ns.player) as u64,
                    ticks: (ticks + 1) as u64,
                    state: ns,
                };
                let s2 = SearchAbs {
                    open: s.open.push(node),
                    g: assoc_set(s.g, nk, (ticks + 1) as u64),
                    came: assoc_set(s.came, nk, CameEntry { prev: state, mv, shift: sh }),
                };
                spec_expand(ss, stat, target, state, ticks, pairs, j + 1, s2)
            }
        }
    }
}

/// One abstract step: pop the cheapest node, skip it when stale, else
/// expand it.
pub open spec fn spec_step(
    ss: SearchSettings,
    stat: StaticState,
    target: PlayerState,
    s: SearchAbs,
) -> SpecStep {
    if s.open.len() == 0 {
        SpecStep::NoPath
    } else {
        let i = min_cost_idx(s.open, s.open.len() - 1);
        let node = s.open[i];
        let s1 = SearchAbs { open: s.open.remove(i), ..s };
        let stale = match assoc_get(s.g, spec_state_key(node.state.settings, node.state.player)) {
            Some(t0) => t0 < node.ticks,
            None => false,
        };
        if stale {
            SpecStep::Cont(s1)
        } else {
            spec_expand(ss, stat, target, node.state, node.ticks, pairs_of(ss), 0, s1)
        }
    }
}

/// An abstract run of at most `fuel` steps.
pub open spec fn spec_run(
    ss: SearchSettings,
    stat: StaticState,
    target: PlayerState,
    s: SearchAbs,
    fuel: nat,
) -> SpecOutcome
    decreases fuel,
{
    if fuel == 0 {
        SpecOutcome::Exhausted
    } else {
        match spec_step(ss, stat, target, s) {
            SpecStep::Found(p) => SpecOutcome::Found(p),
            SpecStep::NoPath => SpecOutcome::NoPath,
            SpecStep::Cont(s2) => spec_run(ss, stat, target, s2, (fuel - 1) as nat),
        }
    }
}

/// The search's starting abstract state: the initial node (with its
/// modifier cache refreshed) in the open list, at zero ticks.
pub open spec fn spec_init_abs(
    ss: SearchSettings,
    stat: StaticState,
    init: PhysState,
    target: PlayerState,
) -> SearchAbs {
    let ia = PhysState {
        active_modifier: spec_first_env(stat.environments@, init.player, 0),
        ..init
    };
    SearchAbs {
        open: seq![
            SearchNode {
                cost: cost_of(0, ss.heuristic_weight as int, target, ia.player) as u64,
                ticks: 0,
                state: ia,
            }
        ],
        g: seq![(spec_state_key(ia.settings, ia.player), 0u64)],
        came: Seq::empty(),
    }
}

/// The returned value agrees with the abstract outcome: a found path is
/// returned as is; exhaustion (a timeout) and an emptied open list are
/// both "no path".
pub open spec fn run_matches(
    out: SpecOutcome,
    r: Option<Vec<(Move, bool, PlayerState)>>,
) -> bool {
    match out {
        SpecOutcome::Found(p) => r matches Some(v) && v@ == p,
        SpecOutcome::NoPath => r is None,
        SpecOutcome::Exhausted => r is None,
    }
}

/// The returned value is the abstract run's value at fuel `n`, and fuel
/// can run out only where the search actually stops early: at a
/// wall-clock check (every 10000 iterations) or at the iteration cap.
pub open spec fn run_matches_within(
    ss: SearchSettings,
    stat: StaticState,
    target: PlayerState,
    s0: SearchAbs,
    n: nat,
    cap: nat,
    r: Option<Vec<(Move, bool, PlayerState)>>,
) -> bool {
    let out = spec_run(ss, stat, target, s0, n);
    &&& (out is Exhausted ==> n % 10000 == 0 || n == cap)
    &&& run_matches(out, r)
}

#[verifier::external_type_specification]
#[verifier::external_body]
pub struct ExInstant(std::time::Instant);

/// Relies on std's `Instant::now`: a reading of the monotonic clock.
/// Nothing can be promised of it.
#[verifier::external_body]
fn clock_now() -> std::time::Instant {
    std::time::Instant::now()
}

/// Relies on std's `Instant::elapsed`: the time since the reading was
/// taken.  Nothing can be promised of it.
#[verifier::external_body]
fn clock_elapsed(t: &std::time::Instant) -> std::time::Duration {
    t.elapsed()
}

/// Relies on std's `Duration::as_secs`: the whole seconds of the
/// duration.  Nothing is promised of it; it only drives the timeout.
#[verifier::external_body]
fn duration_secs(d: &std::time::Duration) -> u64 {
    d.as_secs()
}

/// Walk the predecessor map back from `current` for at most `fuel` links.
fn reconstruct_path(
    came: &KeyMap<CameEntry>,
    current: PhysState,
    fuel: u64,
) -> (r: Vec<(Move, bool, PlayerState)>)
    requires
        wf_player(current.player),
        forall|j: int| 0 <= j < came.pairs@.len()
            ==> wf_player((#[trigger] came.pairs@[j]).1.prev.player),
    ensures
        r@ == spec_reconstruct(came.pairs@, current, fuel as nat),
    decreases fuel,
{
    if fuel == 0 {
        Vec::new()
    } else {
        let k = state_key(&current.settings, &current.player);
        match came.get(k) {
            Some(e) => {
                proof {
                    lemma_assoc_find_char(came.pairs@, k);
                }
                let mut p = reconstruct_path(came, e.prev, fuel - 1);
                p.push((e.mv, e.shift, current.player));
                p
            }
            None => Vec::new(),
        }
    }
}

/// The search loop shared by the timed and the bounded entry points.
#[verifier::rlimit(100)]
fn search_core(
    settings: &SearchSettings,
    initial_state: PhysState,
    target_state: &PhysState,
    static_state: &StaticState,
    max_iters: u64,
    use_clock: bool,
) -> (r: Option<Vec<(Move, bool, PlayerState)>>)
    requires
        wf_player(initial_state.player),
        wf_player(target_state.player),
        static_wf(*static_state),
        settings_wf(*settings),
        1 <= max_iters <= ITER_CAP,
    ensures
        close_spec(initial_state.player, target_state.player, TARGET_PRECISION as int)
            ==> (r matches Some(v) && v@.len() == 0),
        !close_spec(initial_state.player, target_state.player, TARGET_PRECISION as int)
            && !use_clock
            ==> run_matches(
                spec_run(
                    *settings,
                    *static_state,
                    target_state.player,
                    spec_init_abs(*settings, *static_state, initial_state, target_state.player),
                    max_iters as nat,
                ),
                r,
            ),
        !close_spec(initial_state.player, target_state.player, TARGET_PRECISION as int)
            ==> exists|n: nat| 0 < n <= max_iters && run_matches_within(
                *settings,
                *static_state,
                target_state.player,
                spec_init_abs(*settings, *static_state, initial_state, target_state.player),
                n,
                max_iters as nat,
                r,
            ),
{
    let ghost tp = target_state.player;
    let mut initial = initial_state;
    initial.detect_env_mod(static_state);
    if initial.close_enough(target_state, TARGET_PRECISION) {
        return Some(Vec::new());
    }
    let ghost abs0 = spec_init_abs(*settings, *static_state, initial_state, tp);
    let w: i64 = settings.heuristic_weight;
    let pairs = build_pairs(settings);
    let mut cache = RoundCache::new();
    let mut open: Vec<SearchNode> = Vec::new();
    let mut gmap: KeyMap<u64> = KeyMap::new();
    let mut cmap: KeyMap<CameEntry> = KeyMap::new();
    let c0: u64 = node_cost(0, w, &target_state.player, &initial.player);
    open.push(SearchNode { cost: c0, ticks: 0, state: initial });
    let k0 = state_key(&initial.settings, &initial.player);
    gmap.set(k0, 0);
    proof {
        assert(open@ =~= abs0.open);
        assert(gmap.pairs@ =~= abs0.g);
        assert(cmap.pairs@ =~= abs0.came);
        assert(SearchAbs { open: open@, g: gmap.pairs@, came: cmap.pairs@ } == abs0);
    }
    let start = clock_now();
    let mut fuel: u64 = max_iters;
    let mut iters: u64 = 0;
    let ghost mut consumed: nat = 0nat;
    while fuel > 0
        invariant
            wf_player(tp),
            tp == target_state.player,
            static_wf(*static_state),
            settings_wf(*settings),
            w == settings.heuristic_weight,
            pairs@ == pairs_of(*settings),
            cache_wf(cache),
            consumed + fuel == max_iters,
            1 <= max_iters <= ITER_CAP,
            iters == consumed,
            abs0 == spec_init_abs(*settings, *static_state, initial_state, tp),
            !close_spec(initial_state.player, tp, TARGET_PRECISION as int),
            forall|j: int| 0 <= j < open@.len()
                ==> wf_player((#[trigger] open@[j]).state.player)
                    && am_idx_ok(open@[j].state.active_modifier, *static_state)
                    && open@[j].ticks <= consumed,
            forall|j: int| 0 <= j < cmap.pairs@.len()
                ==> wf_player((#[trigger] cmap.pairs@[j]).1.prev.player),
            forall|f: nat| spec_run(*settings, *static_state, tp, abs0, (consumed + f) as nat)
                == #[trigger] spec_run(
                    *settings, *static_state, tp,
                    SearchAbs { open: open@, g: gmap.pairs@, came: cmap.pairs@ },
                    f,
                ),
        decreases fuel,
    {
        let ghost cur = SearchAbs { open: open@, g: gmap.pairs@, came: cmap.pairs@ };
        if open.len() == 0 {
            proof {
                assert(spec_step(*settings, *static_state, tp, cur) == SpecStep::NoPath);
                assert(spec_run(*settings, *static_state, tp, cur, fuel as nat)
                    == SpecOutcome::NoPath);
                assert(spec_run(*settings, *static_state, tp, abs0, max_iters as nat)
                    == SpecOutcome::NoPath);
                assert(spec_run(*settings, *static_state, tp, abs0, (consumed + 1) as nat)
                    == SpecOutcome::NoPath) by {
                    assert(spec_run(*settings, *static_state, tp, cur, 1nat)
                        == SpecOutcome::NoPath);
                }
                assert(run_matches_within(
                    *settings, *static_state, tp, abs0, (consumed + 1) as nat, max_iters as nat,
                    None::<Vec<(Move, bool, PlayerState)>>,
                ));
                assert(exists|n: nat| 0 < n <= max_iters && run_matches_within(
                    *settings, *static_state, tp, abs0, n, max_iters as nat,
                    None::<Vec<(Move, bool, PlayerState)>>,
                ));
            }
            return None;
        }
        if use_clock && iters > 0 && iters % 10000 == 0 {
            let el: u64 = duration_secs(&clock_elapsed(&start));
            if el > settings.timeout {
                proof {
                    assert(spec_run(*settings, *static_state, tp, abs0, consumed)
                        == SpecOutcome::Exhausted) by {
                        assert(spec_run(*settings, *static_state, tp, cur, 0nat)
                            == SpecOutcome::Exhausted);
                    }
                    assert(consumed % 10000 == 0 && consumed > 0);
                    assert(run_matches_within(
                    *settings, *static_state, tp, abs0, consumed, max_iters as nat,
                    None::<Vec<(Move, bool, PlayerState)>>,
                ));
                assert(exists|n: nat| 0 < n <= max_iters && run_matches_within(
                    *settings, *static_state, tp, abs0, n, max_iters as nat,
                    None::<Vec<(Move, bool, PlayerState)>>,
                ));
                }
                return None;
            }
        }
        // Pop the cheapest node (earliest among ties).
        let n_open: usize = open.len();
        let mut best: usize = 0;
        let mut k: usize = 1;
        while k < n_open
            invariant
                n_open == open@.len(),
                1 <= k <= n_open,
                0 <= best < k,
                best == min_cost_idx(open@, k - 1),
            decreases n_open - k,
        {
            if open[k].cost < open[best].cost {
                best = k;
            }
            k = k + 1;
        }
        let node = open.remove(best);
        let ghost s1 = SearchAbs { open: open@, g: gmap.pairs@, came: cmap.pairs@ };
        proof {
            assert(node == cur.open[min_cost_idx(cur.open, cur.open.len() - 1)]);
            assert(s1.open == cur.open.remove(min_cost_idx(cur.open, cur.open.len() - 1)));
        }
        let nk0 = state_key(&node.state.settings, &node.state.player);
        let stale: bool = match gmap.get(nk0) {
            Some(t0) => t0 < node.ticks,
            None => false,
        };
        if stale {
            proof {
                assert(spec_step(*settings, *static_state, tp, cur) == SpecStep::Cont(s1));
                assert forall|f: nat|
                    spec_run(*settings, *static_state, tp, abs0, (consumed + 1 + f) as nat)
                        == #[trigger] spec_run(*settings, *static_state, tp, s1, f) by {
                    assert(spec_run(*settings, *static_state, tp, cur, (f + 1) as nat)
                        == spec_run(*settings, *static_state, tp, s1, f));
                    assert(spec_run(*settings, *static_state, tp, abs0, (consumed + (f + 1)) as nat)
                        == spec_run(*settings, *static_state, tp, cur, (f + 1) as nat));
                }
                consumed = consumed + 1;
            }
            iters = iters + 1;
            fuel = fuel - 1;
            continue;
        }
        proof {
            assert(spec_step(*settings, *static_state, tp, cur)
                == spec_expand(*settings, *static_state, tp, node.state, node.ticks,
                    pairs@, 0, s1));
        }
        let np: usize = pairs.len();
        let mut j: usize = 0;
        while j < np
            invariant
                wf_player(tp),
                tp == target_state.player,
                static_wf(*static_state),
                settings_wf(*settings),
                w == settings.heuristic_weight,
                pairs@ == pairs_of(*settings),
                cache_wf(cache),
                np == pairs@.len(),
                0 <= j <= np,
                consumed + fuel == max_iters,
                1 <= max_iters <= ITER_CAP,
                fuel >= 1,
                iters == consumed,
                abs0 == spec_init_abs(*settings, *static_state, initial_state, tp),
                !close_spec(initial_state.player, tp, TARGET_PRECISION as int),
                wf_player(node.state.player),
                am_idx_ok(node.state.active_modifier, *static_state),
                node.ticks <= consumed,
                forall|i: int| 0 <= i < open@.len()
                    ==> wf_player((#[trigger] open@[i]).state.player)
                        && am_idx_ok(open@[i].state.active_modifier, *static_state)
                        && open@[i].ticks <= consumed + 1,
                forall|i: int| 0 <= i < cmap.pairs@.len()
                    ==> wf_player((#[trigger] cmap.pairs@[i]).1.prev.player),
                forall|f: nat| spec_run(*settings, *static_state, tp, abs0, (consumed + f) as nat)
                    == #[trigger] spec_run(*settings, *static_state, tp, cur, f),
                spec_step(*settings, *static_state, tp, cur)
                    == spec_expand(*settings, *static_state, tp, node.state, node.ticks,
                        pairs@, 0, s1),
                spec_expand(*settings, *static_state, tp, node.state, node.ticks, pairs@,
                    j as int,
                    SearchAbs { open: open@, g: gmap.pairs@, came: cmap.pairs@ })
                    == spec_expand(*settings, *static_state, tp, node.state, node.ticks,
                        pairs@, 0, s1),
            decreases np - j,
        {
            let (mv, sh) = pairs[j];
            let mut ns = node.state;
            ns.tick(mv, sh, static_state, settings, &mut cache);
            proof {
                assert(ns == spec_tick(node.state, mv, sh, *static_state, *settings));
            }
            if ns.player.dead {
                j = j + 1;
                continue;
            }
            if ns.close_enough(target_state, TARGET_PRECISION) {
                let mut moves = reconstruct_path(&cmap, node.state, node.ticks);
                moves.push((mv, sh, ns.player));
                proof {
                    assert(moves@ =~= spec_reconstruct(cmap.pairs@, node.state,
                        node.ticks as nat) + seq![(mv, sh, ns.player)]);
                    assert(spec_expand(*settings, *static_state, tp, node.state, node.ticks,
                        pairs@, j as int,
                        SearchAbs { open: open@, g: gmap.pairs@, came: cmap.pairs@ })
                        == SpecStep::Found(moves@));
                    assert(spec_step(*settings, *static_state, tp, cur)
                        == SpecStep::Found(moves@));
                    assert(spec_run(*settings, *static_state, tp, cur, fuel as nat)
                        == SpecOutcome::Found(moves@));
                    assert(spec_run(*settings, *static_state, tp, abs0, max_iters as nat)
                        == SpecOutcome::Found(moves@));
                    assert(spec_run(*settings, *static_state, tp, abs0, (consumed + 1) as nat)
                        == SpecOutcome::Found(moves@)) by {
                        assert(spec_run(*settings, *static_state, tp, cur, 1nat)
                            == SpecOutcome::Found(moves@));
                    }
                    assert(run_matches_within(
                        *settings, *static_state, tp, abs0, (consumed + 1) as nat,
                        max_iters as nat, Some(moves),
                    ));
                    assert(exists|n: nat| 0 < n <= max_iters && run_matches_within(
                        *settings, *static_state, tp, abs0, n, max_iters as nat,
                        Some(moves),
                    ));
                }
                return Some(moves);
            }
            let nk = state_key(&ns.settings, &ns.player);
            let dominated: bool = match gmap.get(nk) {
                Some(t0) => node.ticks + 1 >= t0,
                None => false,
            };
            if !dominated {
                let cost: u64 = node_cost(node.ticks + 1, w, &target_state.player, &ns.player);
                let ghost cold = cmap.pairs@;
                cmap.set(nk, CameEntry { prev: node.state, mv, shift: sh });
                gmap.set(nk, node.ticks + 1);
                open.push(SearchNode { cost, ticks: node.ticks + 1, state: ns });
                proof {
                    lemma_assoc_find_char(cold, nk);
                    let f = assoc_find(cold, nk);
                    assert forall|i: int| 0 <= i < cmap.pairs@.len()
                        implies wf_player((#[trigger] cmap.pairs@[i]).1.prev.player) by {
                        if f < cold.len() {
                            if i != f {
                                assert(cmap.pairs@[i] == cold[i]);
                            }
                        } else {
                            if i < cold.len() {
                                assert(cmap.pairs@[i] == cold[i]);
                            }
                        }
                    }
                }
            }
            j = j + 1;
        }
        proof {
            let fin = SearchAbs { open: open@, g: gmap.pairs@, came: cmap.pairs@ };
            assert(spec_expand(*settings, *static_state, tp, node.state, node.ticks, pairs@,
                np as int, fin) == SpecStep::Cont(fin));
            assert(spec_step(*settings, *static_state, tp, cur) == SpecStep::Cont(fin));
            assert forall|f: nat|
                spec_run(*settings, *static_state, tp, abs0, (consumed + 1 + f) as nat)
                    == #[trigger] spec_run(*settings, *static_state, tp, fin, f) by {
                assert(spec_run(*settings, *static_state, tp, cur, (f + 1) as nat)
                    == spec_run(*settings, *static_state, tp, fin, f));
                assert(spec_run(*settings, *static_state, tp, abs0, (consumed + (f + 1)) as nat)
                    == spec_run(*settings, *static_state, tp, cur, (f + 1) as nat));
            }
            consumed = consumed + 1;
        }
        iters = iters + 1;
        fuel = fuel - 1;
    }
    proof {
        assert(spec_run(*settings, *static_state, tp, abs0, max_iters as nat)
            == SpecOutcome::Exhausted) by {
            assert(consumed == max_iters);
            assert(spec_run(*settings, *static_state, tp,
                SearchAbs { open: open@, g: gmap.pairs@, came: cmap.pairs@ }, 0nat)
                == SpecOutcome::Exhausted);
        }
        assert(run_matches_within(
            *settings, *static_state, tp, abs0, max_iters as nat, max_iters as nat,
            None::<Vec<(Move, bool, PlayerState)>>,
        ));
        assert(exists|n: nat| 0 < n <= max_iters && run_matches_within(
            *settings, *static_state, tp, abs0, n, max_iters as nat,
            None::<Vec<(Move, bool, PlayerState)>>,
        ));
    }
    None
}

/// Plan a move sequence from `initial_state` to within `TARGET_PRECISION`
/// of `target_state`, stopping at the settings' wall-clock timeout.  A
/// start already within tolerance yields an empty move list; `None` means
/// no path was found before the open set emptied, the timeout elapsed or
/// the iteration cap was reached.
pub fn astar_search(
    settings: SearchSettings,
    initial_state: PhysState,
    target_state: PhysState,
    static_state: StaticState,
) -> (r: Option<Vec<(Move, bool, PlayerState)>>)
    requires
        wf_player(initial_state.player),
        wf_player(target_state.player),
        static_wf(static_state),
        settings_wf(settings),
    ensures
        close_spec(initial_state.player, target_state.player, TARGET_PRECISION as int)
            ==> (r matches Some(v) && v@.len() == 0),
        !close_spec(initial_state.player, target_state.player, TARGET_PRECISION as int)
            ==> exists|n: nat| 0 < n <= ITER_CAP && run_matches_within(
                settings,
                static_state,
                target_state.player,
                spec_init_abs(settings, static_state, initial_state, target_state.player),
                n,
                ITER_CAP as nat,
                r,
            ),
{
    search_core(&settings, initial_state, &target_state, &static_state, ITER_CAP, true)
}

/// The same search with an explicit iteration budget and no clock: the
/// result is exactly the value of the abstract run, so two calls on equal
/// inputs return identical move sequences.
pub fn astar_search_bounded(
    settings: SearchSettings,
    initial_state: PhysState,
    target_state: PhysState,
    static_state: StaticState,
    max_iters: u64,
) -> (r: Option<Vec<(Move, bool, PlayerState)>>)
    requires
        wf_player(initial_state.player),
        wf_player(target_state.player),
        static_wf(static_state),
        settings_wf(settings),
        1 <= max_iters <= ITER_CAP,
    ensures
        close_spec(initial_state.player, target_state.player, TARGET_PRECISION as int)
            ==> (r matches Some(v) && v@.len() == 0),
        !close_spec(initial_state.player, target_state.player, TARGET_PRECISION as int)
            ==> run_matches(
                spec_run(
                    settings,
                    static_state,
                    target_state.player,
                    spec_init_abs(settings, static_state, initial_state, target_state.player),
                    max_iters as nat,
                ),
                r,
            ),
{
    search_core(&settings, initial_state, &target_state, &static_state, max_iters, false)
}

} // verus!
