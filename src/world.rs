//! The world: agents on a grid, and the tick that moves it on.
//!
//! A tick has two phases. First every living agent senses the world as it
//! stood before the tick (`network::sense`). Then, in population order, every
//! agent that is still alive evaluates its actuators and acts; an agent's acts
//! change the grid at once, so where two agents aim at one tile the earlier in
//! the order gets it.

use vstd::prelude::*;
use crate::cell::{Cell, Compass, Oscilator};
use crate::fixed::{quot, ONE};
use crate::grid::{offset, offset_spec, Grid, Position, Tile};
use crate::network::{actuator_level, actuator_output, is_driven, slot_count, wires_ok, Wire};

verus! {

/// Pheromone that a fully driven emitter adds to its tile per tick.
pub const EMIT_AMOUNT: i64 = 50;

/// Actuator slots, numbered as `OutputNeurons`.
pub const SET_OSCILATOR: u8 = 0;
pub const EMIT_PHEROMONE: u8 = 1;
pub const SET_RESPONSIVENESS: u8 = 2;
pub const MOVE: u8 = 3;
pub const MOVE_X: u8 = 4;
pub const MOVE_Y: u8 = 5;
pub const MOVE_RANDOM: u8 = 6;
pub const KILL_FORWARD: u8 = 7;

/// What one agent does in a tick, as its actuators decide it.
#[derive(Debug, Clone, Copy, PartialEq, Eq, Structural)]
pub struct Decision {
    /// New oscillator frequency, if the oscillator actuator is driven.
    pub frequency: Option<u32>,
    /// Pheromone added to the agent's tile.
    pub emit: u16,
    /// Intended step, each coordinate -1, 0 or 1.
    pub dx: i8,
    pub dy: i8,
    /// Whether the agent kills what stands ahead of it.
    pub kill: bool,
}

/// -1, 0 or 1 as `v` is negative, zero or positive.
pub open spec fn sign(v: int) -> int {
    if v > 0 {
        1
    } else if v < 0 {
        -1
    } else {
        0
    }
}

/// `v` held to [-1, 1].
pub open spec fn unit(v: int) -> int {
    if v > 1 {
        1
    } else if v < -1 {
        -1
    } else {
        v
    }
}

/// Responsiveness: the responsiveness actuator's level held to [0, 1], or 1
/// where nothing drives it.
pub open spec fn responsiveness(ws: Seq<Wire>) -> int {
    if slot_count(ws, SET_RESPONSIVENESS as int, ws.len()) > 0 {
        let l = actuator_level(ws, SET_RESPONSIVENESS as int);
        if l < 0 {
            0
        } else {
            l
        }
    } else {
        ONE as int
    }
}

/// Level of actuator `a` scaled by responsiveness.
pub open spec fn effect(ws: Seq<Wire>, a: int) -> int {
    quot(actuator_level(ws, a) * responsiveness(ws), ONE as int)
}

/// What an agent facing `rotation` does with wires `ws`; `heading` is the
/// draw that picks the direction of a random move. With each actuator's
/// effect (its level scaled by responsiveness):
/// - a driven oscillator actuator sets the frequency to the effect's
///   magnitude over 8;
/// - a positive emit effect adds up to `EMIT_AMOUNT` pheromone in proportion;
/// - Move steps along the heading, MoveX and MoveY along an axis, each by the
///   sign of its effect, and a nonzero random-move effect steps toward the
///   drawn heading; the steps add up and each coordinate is held to [-1, 1];
/// - a positive kill effect kills.
pub open spec fn decide_spec(ws: Seq<Wire>, rotation: Compass, heading: int) -> Decision {
    let fwd = rotation.dir_spec();
    let rnd = Compass::from_draw_spec(heading).dir_spec();
    let mv = sign(effect(ws, MOVE as int));
    let mr = if effect(ws, MOVE_RANDOM as int) != 0 { 1int } else { 0int };
    let e = effect(ws, EMIT_PHEROMONE as int);
    let o = effect(ws, SET_OSCILATOR as int);
    Decision {
        frequency: if slot_count(ws, SET_OSCILATOR as int, ws.len()) > 0 {
            Some(((if o < 0 { -o } else { o }) / 8) as u32)
        } else {
            None
        },
        emit: (if e > 0 { e * EMIT_AMOUNT / (ONE as int) } else { 0 }) as u16,
        dx: unit(mv * fwd.0 + sign(effect(ws, MOVE_X as int)) + mr * rnd.0) as i8,
        dy: unit(mv * fwd.1 + sign(effect(ws, MOVE_Y as int)) + mr * rnd.1) as i8,
        kill: effect(ws, KILL_FORWARD as int) > 0,
    }
}

pub open spec fn decision_ok(d: Decision) -> bool {
    -1 <= d.dx <= 1 && -1 <= d.dy <= 1
}

/// The oscillator after a tick.
pub open spec fn osc_after(o: Oscilator, f: Option<u32>) -> Oscilator {
    match f {
        Some(v) => Oscilator { frequency: v, ..o }.updated(),
        None => o.updated(),
    }
}

/// Agents and tiles of a world.
pub type State = (Seq<Cell>, Seq<Tile>);

/// The agent's oscillator steps, and its tile receives the emitted pheromone.
pub open spec fn stage_emit(s: State, g: Grid, i: int, d: Decision) -> State {
    let (c, t) = s;
    let tp = g.resolve_spec(c[i].position);
    let lv = t[tp].pheromone_level + d.emit;
    (
        c.update(i, Cell { oscilator: osc_after(c[i].oscilator, d.frequency), ..c[i] }),
        t.update(tp, Tile { pheromone_level: (if lv > 0xffff { 0xffff } else { lv }) as u16, ..t[tp] }),
    )
}

/// Index of the tile ahead of agent `i`.
pub open spec fn ahead_of(c: Seq<Cell>, g: Grid, i: int) -> int {
    let d = c[i].rotation.dir_spec();
    g.resolve_spec(offset_spec(c[i].position, d.0, d.1))
}

/// Where kills are on and the agent decided to, the other agent standing
/// ahead of it dies and leaves the grid.
pub open spec fn stage_kill(s: State, g: Grid, kills: bool, i: int, d: Decision) -> State {
    let (c, t) = s;
    let a = ahead_of(c, g, i);
    if d.kill && kills && t[a].cell.is_some() && t[a].cell.unwrap() != i {
        let v = t[a].cell.unwrap() as int;
        let c1 = c.update(v, Cell { alive: false, ..c[v] });
        let k = c1[i].kill_count;
        (
            c1.update(i, Cell { kill_count: if k == u32::MAX { k } else { (k + 1) as u32 }, ..c1[i] }),
            t.update(a, Tile { cell: None, ..t[a] }),
        )
    } else {
        (c, t)
    }
}

/// The agent steps to the tile it aims at (held to the grid) if that is
/// another tile and free; its last move records the step taken.
pub open spec fn stage_move(s: State, g: Grid, i: int, d: Decision) -> State {
    let (c, t) = s;
    let p = c[i].position;
    let q = g.clamped(offset_spec(p, d.dx as int, d.dy as int));
    let tp = g.resolve_spec(p);
    let tq = g.resolve_spec(q);
    if tq != tp && t[tq].cell.is_none() {
        (
            c.update(i, Cell {
                position: q,
                last_move: Position { x: (q.x - p.x) as i8, y: (q.y - p.y) as i8 },
                ..c[i]
            }),
            t.update(tp, Tile { cell: None, ..t[tp] }).update(tq, Tile { cell: Some(i as usize), ..t[tq] }),
        )
    } else {
        (c.update(i, Cell { last_move: Position { x: 0, y: 0 }, ..c[i] }), t)
    }
}

/// Agent `i` carries out decision `d`.
pub open spec fn apply_spec(s: State, g: Grid, kills: bool, i: int, d: Decision) -> State {
    stage_move(stage_kill(stage_emit(s, g, i, d), g, kills, i, d), g, i, d)
}

/// Width and height that a grid accepts: neither is 0, and the tile count
/// fits `usize` and `i64`. A `Vec` holds at most `isize::MAX` bytes, so no
/// larger grid could be allocated.
pub open spec fn grid_ok(x: int, y: int) -> bool {
    1 <= x && 1 <= y && x * y <= usize::MAX && x * y <= i64::MAX
}

/// An agent as `new_world` makes it, wherever it stands and whichever way it
/// faces.
pub open spec fn newborn(c: Cell, gene_count: usize) -> bool {
    &&& c.genes@ == Seq::new(gene_count as nat, |i: int| 0i32)
    &&& c.last_move == (Position::<i8> { x: 0, y: 0 })
    &&& c.food_level == crate::cell::BIRTH_FOOD
    &&& c.kill_count == 0
    &&& c.alive
    &&& c.oscilator == (Oscilator { counter: 0, frequency: crate::cell::BIRTH_FREQUENCY, state: false })
}

/// Whether `p` lies on an `x` by `y` grid.
pub open spec fn on_grid(p: Position<usize>, x: int, y: int) -> bool {
    p.x < x && p.y < y
}

/// Agents that `from_cells` accepts: every genome holds a gene, every living
/// agent stands on the grid, and no two living agents share a position.
pub open spec fn placeable(c: Seq<Cell>, x: int, y: int) -> bool {
    &&& forall|i: int|
        0 <= i < c.len() ==> (#[trigger] c[i]).genes@.len() > 0 && (c[i].alive ==> on_grid(c[i].position, x, y))
    &&& forall|i: int, j: int|
        0 <= i < j < c.len() && (#[trigger] c[i]).alive && (#[trigger] c[j]).alive ==> c[i].position != c[j].position
}

/// Agents stand on the grid, one to a tile, and tiles name the agents on them.
pub open spec fn consistent(s: State, g: Grid) -> bool {
    let (c, t) = s;
    &&& g.wf()
    &&& c.len() <= usize::MAX
    &&& t.len() == g.tiles().len()
    &&& forall|i: int|
        0 <= i < c.len() && (#[trigger] c[i]).alive ==> {
            &&& g.contains(c[i].position)
            &&& t[g.resolve_spec(c[i].position)].cell == Some(i as usize)
        }
    &&& forall|k: int|
        0 <= k < t.len() && (#[trigger] t[k]).cell.is_some() ==> {
            let i = t[k].cell.unwrap() as int;
            &&& 0 <= i < c.len()
            &&& c[i].alive
            &&& g.resolve_spec(c[i].position) == k
        }
}

proof fn lemma_emit_consistent(s: State, g: Grid, i: int, d: Decision)
    requires
        consistent(s, g),
        0 <= i < s.0.len(),
        s.0[i].alive,
    ensures
        consistent(stage_emit(s, g, i, d), g),
{
    crate::grid::lemma_resolve_bounded(&g);
    let (c, t) = s;
    let (c1, t1) = stage_emit(s, g, i, d);
    assert forall|j: int| 0 <= j < c1.len() && (#[trigger] c1[j]).alive implies {
        &&& g.contains(c1[j].position)
        &&& t1[g.resolve_spec(c1[j].position)].cell == Some(j as usize)
    } by {
        assert(c[j].alive);
    }
    assert forall|k: int| 0 <= k < t1.len() && (#[trigger] t1[k]).cell.is_some() implies {
        let j = t1[k].cell.unwrap() as int;
        &&& 0 <= j < c1.len()
        &&& c1[j].alive
        &&& g.resolve_spec(c1[j].position) == k
    } by {
        assert(t[k].cell.is_some());
    }
}

proof fn lemma_kill_consistent(s: State, g: Grid, kills: bool, i: int, d: Decision)
    requires
        consistent(s, g),
        0 <= i < s.0.len(),
        s.0[i].alive,
    ensures
        consistent(stage_kill(s, g, kills, i, d), g),
        stage_kill(s, g, kills, i, d).0.len() == s.0.len(),
        stage_kill(s, g, kills, i, d).0[i].alive,
        stage_kill(s, g, kills, i, d).0[i].position == s.0[i].position,
{
    crate::grid::lemma_resolve_bounded(&g);
    let (c, t) = s;
    let (c2, t2) = stage_kill(s, g, kills, i, d);
    let a = ahead_of(c, g, i);
    if d.kill && kills && t[a].cell.is_some() && t[a].cell.unwrap() != i {
        let v = t[a].cell.unwrap() as int;
        assert forall|j: int| 0 <= j < c2.len() && (#[trigger] c2[j]).alive implies {
            &&& g.contains(c2[j].position)
            &&& t2[g.resolve_spec(c2[j].position)].cell == Some(j as usize)
        } by {
            assert(c[j].alive);
            assert(j != v);
        }
        assert forall|k: int| 0 <= k < t2.len() && (#[trigger] t2[k]).cell.is_some() implies {
            let j = t2[k].cell.unwrap() as int;
            &&& 0 <= j < c2.len()
            &&& c2[j].alive
            &&& g.resolve_spec(c2[j].position) == k
        } by {
            assert(t[k].cell.is_some());
            assert(k != a);
            let j = t[k].cell.unwrap() as int;
            if j == v {
                assert(g.resolve_spec(c[v].position) == a);
            }
        }
    }
}

proof fn lemma_move_consistent(s: State, g: Grid, i: int, d: Decision)
    requires
        consistent(s, g),
        0 <= i < s.0.len(),
        s.0[i].alive,
        decision_ok(d),
    ensures
        consistent(stage_move(s, g, i, d), g),
        stage_move(s, g, i, d).0.len() == s.0.len(),
{
    crate::grid::lemma_resolve_bounded(&g);
    let (c, t) = s;
    let (c3, t3) = stage_move(s, g, i, d);
    let p = c[i].position;
    let q = g.clamped(offset_spec(p, d.dx as int, d.dy as int));
    let tp = g.resolve_spec(p);
    let tq = g.resolve_spec(q);
    crate::grid::lemma_resolve_clamps(&g, offset_spec(p, d.dx as int, d.dy as int));
    crate::grid::lemma_resolve_clamps(&g, q);
    crate::grid::lemma_index_in_bounds(q.x as int, q.y as int, g.width() as int, g.height() as int);
    if tq != tp && t[tq].cell.is_none() {
        assert forall|j: int| 0 <= j < c3.len() && (#[trigger] c3[j]).alive implies {
            &&& g.contains(c3[j].position)
            &&& t3[g.resolve_spec(c3[j].position)].cell == Some(j as usize)
        } by {
            if j != i {
                assert(c[j].alive);
                let tj = g.resolve_spec(c[j].position);
                assert(t[tj].cell == Some(j as usize));
                assert(tj != tp);
                assert(tj != tq);
            }
        }
        assert forall|k: int| 0 <= k < t3.len() && (#[trigger] t3[k]).cell.is_some() implies {
            let j = t3[k].cell.unwrap() as int;
            &&& 0 <= j < c3.len()
            &&& c3[j].alive
            &&& g.resolve_spec(c3[j].position) == k
        } by {
            if k != tp && k != tq {
                assert(t[k].cell.is_some());
                let j = t[k].cell.unwrap() as int;
                if j == i {
                    assert(g.resolve_spec(c[i].position) == k);
                }
            }
        }
    } else {
        assert forall|j: int| 0 <= j < c3.len() && (#[trigger] c3[j]).alive implies {
            &&& g.contains(c3[j].position)
            &&& t3[g.resolve_spec(c3[j].position)].cell == Some(j as usize)
        } by {
            assert(c[j].alive);
        }
        assert forall|k: int| 0 <= k < t3.len() && (#[trigger] t3[k]).cell.is_some() implies {
            let j = t3[k].cell.unwrap() as int;
            &&& 0 <= j < c3.len()
            &&& c3[j].alive
            &&& g.resolve_spec(c3[j].position) == k
        } by {
            assert(t[k].cell.is_some());
        }
    }
}

/// Carrying out a decision keeps agents and tiles consistent.
pub proof fn lemma_apply_consistent(s: State, g: Grid, kills: bool, i: int, d: Decision)
    requires
        consistent(s, g),
        0 <= i < s.0.len(),
        s.0[i].alive,
        decision_ok(d),
    ensures
        consistent(apply_spec(s, g, kills, i, d), g),
        apply_spec(s, g, kills, i, d).0.len() == s.0.len(),
{
    let s1 = stage_emit(s, g, i, d);
    lemma_emit_consistent(s, g, i, d);
    lemma_kill_consistent(s1, g, kills, i, d);
    lemma_move_consistent(stage_kill(s1, g, kills, i, d), g, i, d);
}

/// Actuators' acts, agent after agent, for the first `n` agents.
pub open spec fn act_all(s: State, g: Grid, kills: bool, ws: Seq<Seq<Wire>>, headings: Seq<i64>, n: nat) -> State
    decreases n,
{
    if n == 0 {
        s
    } else {
        let prev = act_all(s, g, kills, ws, headings, (n - 1) as nat);
        act_one(prev, g, kills, n - 1, ws[n - 1], headings[n - 1] as int)
    }
}

/// Agent `i` acts if it is alive.
pub open spec fn act_one(s: State, g: Grid, kills: bool, i: int, ws: Seq<Wire>, heading: int) -> State {
    if s.0[i].alive {
        apply_spec(s, g, kills, i, decide_spec(ws, s.0[i].rotation, heading))
    } else {
        s
    }
}

/// The wires of every agent against the grid `g` before the tick; dead
/// agents have none.
pub open spec fn sensed(c: Seq<Cell>, g: Grid, noise: Seq<Seq<i64>>) -> Seq<Seq<Wire>> {
    Seq::new(
        c.len(),
        |i: int|
            if c[i].alive {
                crate::network::wiring(c[i], g, noise[i])
            } else {
                Seq::empty()
            },
    )
}

/// One tick from state `s` on grid `g`: all agents sense, then all act.
/// `noise[i][n]` is what the random sensor reads for gene `n` of agent `i`,
/// `headings[i]` picks the direction of agent `i`'s random move.
pub open spec fn tick(s: State, g: Grid, kills: bool, noise: Seq<Seq<i64>>, headings: Seq<i64>) -> State {
    act_all(s, g, kills, sensed(s.0, g, noise), headings, s.0.len())
}

/// A tick depends on nothing but the world and the draws: two worlds with
/// equal agents, tiles and settings, given equal draws, end the tick equal,
/// whatever order of work produced them.
pub proof fn lemma_tick_deterministic(
    a: State,
    b: State,
    ga: Grid,
    gb: Grid,
    kills: bool,
    noise: Seq<Seq<i64>>,
    headings: Seq<i64>,
)
    requires
        a == b,
        ga == gb,
    ensures
        tick(a, ga, kills, noise, headings) == tick(b, gb, kills, noise, headings),
{
}

/// Draws for a tick that `step_with` accepts.
pub open spec fn draws_ok(c: Seq<Cell>, noise: Seq<Seq<i64>>, headings: Seq<i64>) -> bool {
    &&& noise.len() == c.len()
    &&& headings.len() == c.len()
    &&& forall|i: int| 0 <= i < c.len() ==> (#[trigger] noise[i]).len() == c[i].genes@.len()
    &&& forall|i: int| 0 <= i < c.len() ==> 0 <= #[trigger] headings[i] <= 3
    &&& forall|i: int, n: int|
        0 <= i < c.len() && 0 <= n < noise[i].len() ==> -ONE <= #[trigger] noise[i][n] <= ONE
}

fn sign_of(v: i64) -> (r: i64)
    ensures
        r == sign(v as int),
        -1 <= r <= 1,
{
    if v > 0 {
        1
    } else if v < 0 {
        -1
    } else {
        0
    }
}

fn unit_of(v: i64) -> (r: i8)
    requires
        -10 <= v <= 10,
    ensures
        r == unit(v as int),
{
    if v > 1 {
        1
    } else if v < -1 {
        -1
    } else {
        v as i8
    }
}

fn effect_exec(ws: &Vec<Wire>, a: u8, resp: i64) -> (r: i64)
    requires
        wires_ok(ws@),
        resp == responsiveness(ws@),
        0 <= resp <= ONE,
    ensures
        r == effect(ws@, a as int),
        -ONE <= r <= ONE,
{
    let l = actuator_output(ws, a);
    assert(-ONE * ONE <= l * resp <= ONE * ONE) by (nonlinear_arith)
        requires
            -ONE <= l <= ONE,
            0 <= resp <= ONE,
    ;
    let p = l * resp;
    if p >= 0 {
        proof {
            crate::fixed::lemma_div_bounds(p as int, ONE as int, ONE as int);
        }
        p / ONE
    } else {
        proof {
            crate::fixed::lemma_div_bounds(-p, ONE as int, ONE as int);
        }
        -((-p) / ONE)
    }
}

/// What an agent facing `rotation` decides with wires `ws`.
pub fn decide(ws: &Vec<Wire>, rotation: Compass, heading: i64) -> (r: Decision)
    requires
        wires_ok(ws@),
        0 <= heading,
    ensures
        r == decide_spec(ws@, rotation, heading as int),
        decision_ok(r),
{
    let resp = if is_driven(ws, SET_RESPONSIVENESS) {
        let l = actuator_output(ws, SET_RESPONSIVENESS);
        if l < 0 {
            0
        } else {
            l
        }
    } else {
        ONE
    };
    let fwd = rotation.dir();
    let rnd = Compass::from_draw(heading).dir();
    let mv = sign_of(effect_exec(ws, MOVE, resp));
    let mr: i64 = if effect_exec(ws, MOVE_RANDOM, resp) != 0 {
        1
    } else {
        0
    };
    let e = effect_exec(ws, EMIT_PHEROMONE, resp);
    let o = effect_exec(ws, SET_OSCILATOR, resp);
    let frequency = if is_driven(ws, SET_OSCILATOR) {
        Some(((if o < 0 { -o } else { o }) / 8) as u32)
    } else {
        None
    };
    let emit: u16 = if e > 0 {
        proof {
            crate::fixed::lemma_div_bounds(e * EMIT_AMOUNT, ONE as int, EMIT_AMOUNT as int);
        }
        (e * EMIT_AMOUNT / ONE) as u16
    } else {
        0
    };
    let mx = sign_of(effect_exec(ws, MOVE_X, resp));
    let my = sign_of(effect_exec(ws, MOVE_Y, resp));
    assert(-1 <= mv * fwd.0 <= 1 && -1 <= mv * fwd.1 <= 1) by (nonlinear_arith)
        requires
            -1 <= mv <= 1,
            -1 <= fwd.0 <= 1,
            -1 <= fwd.1 <= 1,
    ;
    assert(-1 <= mr * rnd.0 <= 1 && -1 <= mr * rnd.1 <= 1) by (nonlinear_arith)
        requires
            0 <= mr <= 1,
            -1 <= rnd.0 <= 1,
            -1 <= rnd.1 <= 1,
    ;
    let dx = unit_of(mv * fwd.0 as i64 + mx + mr * rnd.0 as i64);
    let dy = unit_of(mv * fwd.1 as i64 + my + mr * rnd.1 as i64);
    let kill = effect_exec(ws, KILL_FORWARD, resp) > 0;
    Decision { frequency, emit, dx, dy, kill }
}

/// Why a world could not be built.
#[derive(Debug, Clone, Copy, PartialEq, Eq, Structural)]
pub enum WorldError {
    /// Genomes must hold at least one gene.
    EmptyGenome,
    /// Width or height is 0, or there are more tiles than memory can hold.
    BadGrid,
    /// More agents than tiles.
    Overcrowded,
    /// A living agent stands off the grid.
    OffGrid,
    /// Two living agents stand on one tile.
    Collision,
}

/// Agents on a grid.
#[derive(Debug, PartialEq, Eq)]
pub struct World {
    cell_list: Vec<Cell>,
    grid: Grid,
    kills: bool,
    rng: rand::rngs::StdRng,
}

impl World {
    pub closed spec fn cells(&self) -> Seq<Cell> {
        self.cell_list@
    }

    pub closed spec fn grid_view(&self) -> Grid {
        self.grid
    }

    pub closed spec fn kills_enabled(&self) -> bool {
        self.kills
    }

    pub open spec fn state(&self) -> State {
        (self.cells(), self.grid_view().tiles())
    }

    pub open spec fn wf(&self) -> bool {
        consistent(self.state(), self.grid_view())
    }

    /// Same geometry and settings, whatever the agents and tiles hold.
    pub open spec fn same_frame(&self, other: &World) -> bool {
        &&& self.grid_view().width() == other.grid_view().width()
        &&& self.grid_view().height() == other.grid_view().height()
        &&& self.kills_enabled() == other.kills_enabled()
    }

    /// Agent `i` carries out decision `d`.
    fn apply(&mut self, i: usize, d: Decision)
        requires
            old(self).wf(),
            i < old(self).cells().len(),
            old(self).cells()[i as int].alive,
            decision_ok(d),
        ensures
            final(self).state() == apply_spec(
                old(self).state(),
                old(self).grid_view(),
                old(self).kills_enabled(),
                i as int,
                d,
            ),
            final(self).same_frame(old(self)),
            final(self).wf(),
            final(self).cells().len() == old(self).cells().len(),
    {
        proof {
            lemma_apply_consistent(self.state(), self.grid, self.kills, i as int, d);
            lemma_emit_consistent(self.state(), self.grid, i as int, d);
            lemma_kill_consistent(stage_emit(self.state(), self.grid, i as int, d), self.grid, self.kills, i as int, d);
        }
        self.apply_emit(i, d);
        self.apply_kill(i, d);
        self.apply_move(i, d);
    }

    fn apply_emit(&mut self, i: usize, d: Decision)
        requires
            old(self).grid_view().wf(),
            i < old(self).cells().len(),
        ensures
            final(self).state() == stage_emit(old(self).state(), old(self).grid_view(), i as int, d),
            final(self).same_frame(old(self)),
            final(self).grid_view().wf(),
    {
        proof {
            crate::grid::lemma_resolve_bounded(&self.grid);
        }
        let mut osc = self.cell_list[i].oscilator;
        match d.frequency {
            Some(f) => {
                osc.frequency = f;
            },
            None => {},
        }
        osc.update();
        self.cell_list[i].oscilator = osc;
        let p = self.cell_list[i].position;
        let tp = self.grid.resolve(p);
        let mut t = *self.grid.tile(tp);
        let lv = t.pheromone_level as u32 + d.emit as u32;
        t.pheromone_level = if lv > 0xffff {
            0xffff
        } else {
            lv as u16
        };
        self.grid.set_tile(tp, t);
    }

    fn apply_kill(&mut self, i: usize, d: Decision)
        requires
            consistent(old(self).state(), old(self).grid_view()),
            i < old(self).cells().len(),
            old(self).cells()[i as int].alive,
        ensures
            final(self).state() == stage_kill(
                old(self).state(),
                old(self).grid_view(),
                old(self).kills_enabled(),
                i as int,
                d,
            ),
            final(self).same_frame(old(self)),
            final(self).grid_view().wf(),
    {
        proof {
            crate::grid::lemma_resolve_bounded(&self.grid);
        }
        if d.kill && self.kills {
            let p = self.cell_list[i].position;
            let (fx, fy) = self.cell_list[i].rotation.dir();
            let ahead = self.grid.resolve(offset(p, fx, fy));
            let ta = *self.grid.tile(ahead);
            match ta.cell {
                Some(v) => {
                    if v != i {
                        self.cell_list[v].alive = false;
                        self.grid.set_tile(ahead, Tile { cell: None, ..ta });
                        let k = self.cell_list[i].kill_count;
                        self.cell_list[i].kill_count = if k == u32::MAX {
                            k
                        } else {
                            k + 1
                        };
                    }
                },
                None => {},
            }
        }
    }

    fn apply_move(&mut self, i: usize, d: Decision)
        requires
            consistent(old(self).state(), old(self).grid_view()),
            i < old(self).cells().len(),
            old(self).cells()[i as int].alive,
            decision_ok(d),
        ensures
            final(self).state() == stage_move(old(self).state(), old(self).grid_view(), i as int, d),
            final(self).same_frame(old(self)),
            final(self).grid_view().wf(),
    {
        proof {
            crate::grid::lemma_resolve_bounded(&self.grid);
        }
        let p = self.cell_list[i].position;
        let tp = self.grid.resolve(p);
        let target = offset(p, d.dx, d.dy);
        let tq = self.grid.resolve(target);
        let q = Position {
            x: if target.x >= self.grid.get_x() {
                self.grid.get_x() - 1
            } else {
                target.x
            },
            y: if target.y >= self.grid.get_y() {
                self.grid.get_y() - 1
            } else {
                target.y
            },
        };
        if tq != tp && self.grid.tile(tq).cell.is_none() {
            let tpv = *self.grid.tile(tp);
            self.grid.set_tile(tp, Tile { cell: None, ..tpv });
            let tqv = *self.grid.tile(tq);
            self.grid.set_tile(tq, Tile { cell: Some(i), ..tqv });
            self.cell_list[i].position = q;
            self.cell_list[i].last_move = Position {
                x: if q.x > p.x {
                    1
                } else if q.x < p.x {
                    -1
                } else {
                    0
                },
                y: if q.y > p.y {
                    1
                } else if q.y < p.y {
                    -1
                } else {
                    0
                },
            };
        } else {
            self.cell_list[i].last_move = Position { x: 0, y: 0 };
        }
    }

    /// One tick with the given draws: every living agent senses the world as
    /// it stood before the tick, then, in population order, every agent still
    /// alive acts.
    pub fn step_with(&mut self, noise: &Vec<Vec<i64>>, headings: &Vec<i64>)
        requires
            old(self).wf(),
            draws_ok(old(self).cells(), noise@.map_values(|v: Vec<i64>| v@), headings@),
        ensures
            final(self).state() == tick(
                old(self).state(),
                old(self).grid_view(),
                old(self).kills_enabled(),
                noise@.map_values(|v: Vec<i64>| v@),
                headings@,
            ),
            final(self).same_frame(old(self)),
            final(self).wf(),
    {
        let ghost nz = noise@.map_values(|v: Vec<i64>| v@);
        let ghost s0 = self.state();
        let ghost g0 = self.grid;
        let n = self.cell_list.len();
        let mut all: Vec<Vec<Wire>> = Vec::with_capacity(n);
        let mut i: usize = 0;
        while i < n
            invariant
                0 <= i <= n,
                n == self.cells().len(),
                self.wf(),
                draws_ok(self.cells(), nz, headings@),
                nz == noise@.map_values(|v: Vec<i64>| v@),
                all@.len() == i,
                forall|j: int|
                    0 <= j < i ==> (#[trigger] all@[j])@ == sensed(self.cells(), self.grid, nz)[j]
                        && wires_ok(all@[j]@),
            decreases n - i,
        {
            if self.cell_list[i].alive {
                proof {
                    assert(nz[i as int] == noise@[i as int]@);
                    assert forall|m: int| 0 <= m < noise@[i as int]@.len() implies -ONE
                        <= #[trigger] noise@[i as int]@[m] <= ONE by {
                        assert(nz[i as int][m] == noise@[i as int]@[m]);
                    }
                }
                let ws = crate::network::sense(&self.cell_list[i], &self.grid, &noise[i]);
                all.push(ws);
            } else {
                let ws: Vec<Wire> = Vec::new();
                proof {
                    assert(ws@ =~= sensed(self.cells(), self.grid, nz)[i as int]);
                }
                all.push(ws);
            }
            i = i + 1;
        }
        let ghost ws = sensed(s0.0, g0, nz);
        assert(s0 == self.state());
        let mut i: usize = 0;
        while i < n
            invariant
                0 <= i <= n,
                n == self.cells().len(),
                n == s0.0.len(),
                self.wf(),
                self.same_frame(old(self)),
                g0.width() == self.grid_view().width(),
                g0.height() == self.grid_view().height(),
                self.kills_enabled() == old(self).kills_enabled(),
                draws_ok(s0.0, nz, headings@),
                all@.len() == n,
                forall|j: int| 0 <= j < n ==> (#[trigger] all@[j])@ == ws[j] && wires_ok(all@[j]@),
                self.state() == act_all(s0, g0, self.kills, ws, headings@, i as nat),
            decreases n - i,
        {
            if self.cell_list[i].alive {
                let d = decide(&all[i], self.cell_list[i].rotation, headings[i]);
                self.apply(i, d);
            }
            i = i + 1;
        }
    }

    /// One tick: draws what the random sensor reads for every gene and the
    /// direction of every random move from the world's generator, then runs
    /// `step_with` on those draws.
    pub fn step(&mut self)
        requires
            old(self).wf(),
        ensures
            final(self).wf(),
            final(self).same_frame(old(self)),
            exists|noise: Seq<Seq<i64>>, headings: Seq<i64>|
                draws_ok(old(self).cells(), noise, headings) && final(self).state() == tick(
                    old(self).state(),
                    old(self).grid_view(),
                    old(self).kills_enabled(),
                    noise,
                    headings,
                ),
    {
        let n = self.cell_list.len();
        let mut noise: Vec<Vec<i64>> = Vec::with_capacity(n);
        let mut headings: Vec<i64> = Vec::with_capacity(n);
        let mut i: usize = 0;
        while i < n
            invariant
                0 <= i <= n,
                n == self.cells().len(),
                noise@.len() == i,
                headings@.len() == i,
                self.cells() == old(self).cells(),
                self.grid_view() == old(self).grid_view(),
                self.kills_enabled() == old(self).kills_enabled(),
                old(self).wf(),
                forall|j: int| 0 <= j < i ==> (#[trigger] noise@[j])@.len() == self.cells()[j].genes@.len(),
                forall|j: int| 0 <= j < i ==> 0 <= #[trigger] headings@[j] <= 3,
                forall|j: int, m: int|
                    0 <= j < i && 0 <= m < noise@[j]@.len() ==> -ONE <= #[trigger] noise@[j]@[m] <= ONE,
            decreases n - i,
        {
            let len = self.cell_list[i].genes.len();
            let mut row: Vec<i64> = Vec::with_capacity(len);
            let mut m: usize = 0;
            while m < len
                invariant
                    0 <= m <= len,
                    row@.len() == m,
                    self.cells() == old(self).cells(),
                    self.grid_view() == old(self).grid_view(),
                    self.kills_enabled() == old(self).kills_enabled(),
                    forall|k: int| 0 <= k < m ==> -ONE <= #[trigger] row@[k] <= ONE,
                decreases len - m,
            {
                row.push(crate::rng::draw(&mut self.rng, -ONE, ONE));
                m = m + 1;
            }
            noise.push(row);
            headings.push(crate::rng::draw(&mut self.rng, 0, 3));
            i = i + 1;
        }
        let ghost nz = noise@.map_values(|v: Vec<i64>| v@);
        assert(draws_ok(self.cells(), nz, headings@)) by {
            assert forall|j: int, m: int| 0 <= j < n && 0 <= m < nz[j].len() implies -ONE
                <= #[trigger] nz[j][m] <= ONE by {
                assert(nz[j] == noise@[j]@);
            }
            assert forall|j: int| 0 <= j < n implies (#[trigger] nz[j]).len()
                == self.cells()[j].genes@.len() by {
                assert(nz[j] == noise@[j]@);
            }
        }
        let ghost before = *self;
        self.step_with(&noise, &headings);
        assert(draws_ok(before.cells(), nz, headings@) && self.state() == tick(
            before.state(),
            before.grid_view(),
            before.kills_enabled(),
            nz,
            headings@,
        ));
    }


    /// A world of `population` newborn agents with `gene_count` zero genes
    /// each, on an `x` by `y` grid of empty tiles, at distinct random tiles and
    /// with random headings drawn from a generator seeded with `seed`. Kills
    /// are off.
    pub fn new_world(population: usize, gene_count: usize, x: usize, y: usize, seed: u64) -> (r: Result<
        World,
        WorldError,
    >)
        ensures
            gene_count == 0 ==> r == Err::<World, WorldError>(WorldError::EmptyGenome),
            gene_count > 0 && !grid_ok(x as int, y as int) ==> r == Err::<World, WorldError>(
                WorldError::BadGrid,
            ),
            gene_count > 0 && grid_ok(x as int, y as int) && population > x * y ==> r == Err::<
                World,
                WorldError,
            >(WorldError::Overcrowded),
            gene_count > 0 && grid_ok(x as int, y as int) && population <= x * y ==> r is Ok,
            r matches Ok(w) ==> {
                &&& w.wf()
                &&& w.grid_view().width() == x
                &&& w.grid_view().height() == y
                &&& !w.kills_enabled()
                &&& w.cells().len() == population
                &&& forall|i: int| 0 <= i < population ==> newborn(#[trigger] w.cells()[i], gene_count)
                &&& forall|k: int|
                    0 <= k < w.grid_view().tiles().len() ==> !(#[trigger] w.grid_view().tiles()[k]).has_food
                        && w.grid_view().tiles()[k].pheromone_level == 0
            },
    {
        if gene_count == 0 {
            return Err(WorldError::EmptyGenome);
        }
        if x == 0 || y == 0 {
            return Err(WorldError::BadGrid);
        }
        let n = match x.checked_mul(y) {
            Some(n) => n,
            None => {
                return Err(WorldError::BadGrid);
            },
        };
        if n as u64 > i64::MAX as u64 {
            return Err(WorldError::BadGrid);
        }
        if population > n {
            return Err(WorldError::Overcrowded);
        }
        let mut grid = Grid::init(x, y);
        let mut rng = crate::rng::seeded(seed);
        let mut free: Vec<usize> = Vec::with_capacity(n);
        let mut k: usize = 0;
        while k < n
            invariant
                0 <= k <= n,
                free@ == Seq::new(k as nat, |j: int| j as usize),
            decreases n - k,
        {
            free.push(k);
            k = k + 1;
            proof {
                assert(free@ =~= Seq::new(k as nat, |j: int| j as usize));
            }
        }
        let mut cells: Vec<Cell> = Vec::with_capacity(population);
        let mut i: usize = 0;
        while i < population
            invariant
                0 <= i <= population <= n,
                n == x * y,
                n <= i64::MAX,
                grid.wf(),
                grid.width() == x,
                grid.height() == y,
                grid.tiles().len() == n,
                free@.len() + i == n,
                forall|j: int| 0 <= j < free@.len() ==> (#[trigger] free@[j]) < n && grid.tiles()[free@[j] as int].cell.is_none(),
                forall|j1: int, j2: int| 0 <= j1 < j2 < free@.len() ==> free@[j1] != free@[j2],
                cells@.len() == i,
                consistent((cells@, grid.tiles()), grid),
                forall|j: int| 0 <= j < i ==> newborn(#[trigger] cells@[j], gene_count),
                forall|k: int|
                    0 <= k < grid.tiles().len() ==> !(#[trigger] grid.tiles()[k]).has_food
                        && grid.tiles()[k].pheromone_level == 0,
            decreases population - i,
        {
            let r = crate::rng::draw(&mut rng, 0, (free.len() - 1) as i64) as usize;
            let ghost f0 = free@;
            let ghost t0 = grid.tiles();
            let k = free.swap_remove(r);
            let mut c = Cell::create_cell(gene_count, &mut rng);
            let pos = Position { x: k % x, y: k / x };
            proof {
                vstd::arithmetic::div_mod::lemma_fundamental_div_mod(k as int, x as int);
                assert(k / x < y) by (nonlinear_arith)
                    requires
                        k < x * y,
                        k == x * (k / x) + k % x,
                        0 <= k % x < x,
                ;
                assert(grid.index_of(pos.x as int, pos.y as int) == k) by (nonlinear_arith)
                    requires
                        k == x * (k / x) + k % x,
                        pos.x == k % x,
                        pos.y == k / x,
                        grid.width() == x,
                ;
            }
            c.position = pos;
            let t = *grid.tile(k);
            grid.set_tile(k, Tile { cell: Some(i), ..t });
            cells.push(c);
            proof {
                crate::grid::lemma_resolve_bounded(&grid);
                let cs = cells@;
                let ts = grid.tiles();
                assert forall|j: int| 0 <= j < free@.len() implies (#[trigger] free@[j]) < n
                    && ts[free@[j] as int].cell.is_none() by {
                    if j == r {
                        assert(free@[j] == f0[f0.len() - 1]);
                        assert(f0.len() - 1 != r);
                    } else {
                        assert(free@[j] == f0[j]);
                    }
                }
                assert forall|j1: int, j2: int| 0 <= j1 < j2 < free@.len() implies free@[j1] != free@[j2] by {
                    let a1 = if j1 == r { f0.len() - 1 } else { j1 };
                    let a2 = if j2 == r { f0.len() - 1 } else { j2 };
                    assert(free@[j1] == f0[a1]);
                    assert(free@[j2] == f0[a2]);
                }
                assert forall|j: int| 0 <= j < cs.len() && (#[trigger] cs[j]).alive implies {
                    &&& grid.contains(cs[j].position)
                    &&& ts[grid.resolve_spec(cs[j].position)].cell == Some(j as usize)
                } by {
                    if j < i {
                        assert(t0[grid.resolve_spec(cs[j].position)].cell == Some(j as usize));
                        assert(grid.resolve_spec(cs[j].position) != k);
                    }
                }
                assert forall|q: int| 0 <= q < ts.len() && (#[trigger] ts[q]).cell.is_some() implies {
                    let j = ts[q].cell.unwrap() as int;
                    &&& 0 <= j < cs.len()
                    &&& cs[j].alive
                    &&& grid.resolve_spec(cs[j].position) == q
                } by {
                    if q != k {
                        assert(t0[q].cell.is_some());
                    }
                }
            }
            i = i + 1;
        }
        Ok(World { cell_list: cells, grid, kills: false, rng })
    }


    /// A world of the given agents on an `x` by `y` grid of empty tiles, each
    /// living agent on the tile at its position, with a generator seeded with
    /// `seed`. Kills are off.
    pub fn from_cells(cells: Vec<Cell>, x: usize, y: usize, seed: u64) -> (r: Result<World, WorldError>)
        ensures
            !grid_ok(x as int, y as int) ==> r == Err::<World, WorldError>(WorldError::BadGrid),
            grid_ok(x as int, y as int) ==> (r is Ok <==> placeable(cells@, x as int, y as int)),
            r == Err::<World, WorldError>(WorldError::EmptyGenome) ==> exists|i: int|
                0 <= i < cells@.len() && (#[trigger] cells@[i]).genes@.len() == 0,
            r == Err::<World, WorldError>(WorldError::OffGrid) ==> exists|i: int|
                0 <= i < cells@.len() && (#[trigger] cells@[i]).alive && !on_grid(cells@[i].position, x as int, y as int),
            r == Err::<World, WorldError>(WorldError::Collision) ==> exists|i: int, j: int|
                0 <= i < j < cells@.len() && (#[trigger] cells@[i]).alive && (#[trigger] cells@[j]).alive
                    && cells@[i].position == cells@[j].position,
            r != Err::<World, WorldError>(WorldError::Overcrowded),
            r matches Ok(w) ==> {
                &&& w.wf()
                &&& w.cells() == cells@
                &&& w.grid_view().width() == x
                &&& w.grid_view().height() == y
                &&& !w.kills_enabled()
                &&& forall|k: int|
                    0 <= k < w.grid_view().tiles().len() ==> !(#[trigger] w.grid_view().tiles()[k]).has_food
                        && w.grid_view().tiles()[k].pheromone_level == 0
            },
    {
        if x == 0 || y == 0 {
            return Err(WorldError::BadGrid);
        }
        match x.checked_mul(y) {
            Some(n) => {
                if n as u64 > i64::MAX as u64 {
                    return Err(WorldError::BadGrid);
                }
            },
            None => {
                return Err(WorldError::BadGrid);
            },
        }
        let mut grid = Grid::init(x, y);
        let mut i: usize = 0;
        while i < cells.len()
            invariant
                0 <= i <= cells@.len(),
                grid_ok(x as int, y as int),
                grid.wf(),
                grid.width() == x,
                grid.height() == y,
                consistent((cells@.subrange(0, i as int), grid.tiles()), grid),
                placeable(cells@.subrange(0, i as int), x as int, y as int),
                forall|k: int|
                    0 <= k < grid.tiles().len() ==> !(#[trigger] grid.tiles()[k]).has_food
                        && grid.tiles()[k].pheromone_level == 0,
            decreases cells@.len() - i,
        {
            proof {
                crate::grid::lemma_resolve_bounded(&grid);
            }
            let ghost pre = cells@.subrange(0, i as int);
            let ghost next = cells@.subrange(0, i as int + 1);
            assert(next == pre.push(cells@[i as int]));
            if cells[i].genes.len() == 0 {
                return Err(WorldError::EmptyGenome);
            }
            if cells[i].alive {
                let p = cells[i].position;
                if p.x >= x || p.y >= y {
                    return Err(WorldError::OffGrid);
                }
                let k = grid.resolve(p);
                let t = *grid.tile(k);
                match t.cell {
                    Some(j) => {
                        proof {
                            let jj = j as int;
                            assert(pre[jj] == cells@[jj]);
                            crate::grid::lemma_index_injective(
                                p.x as int,
                                p.y as int,
                                cells@[jj].position.x as int,
                                cells@[jj].position.y as int,
                                x as int,
                            );
                            assert(cells@[jj].position == p);
                            assert(!placeable(cells@, x as int, y as int));
                        }
                        return Err(WorldError::Collision);
                    },
                    None => {},
                }
                let ghost t0 = grid.tiles();
                grid.set_tile(k, Tile { cell: Some(i), ..t });
                proof {
                    let ts = grid.tiles();
                    assert forall|j: int| 0 <= j < next.len() && (#[trigger] next[j]).alive implies {
                        &&& grid.contains(next[j].position)
                        &&& ts[grid.resolve_spec(next[j].position)].cell == Some(j as usize)
                    } by {
                        if j < i {
                            assert(next[j] == pre[j]);
                            assert(t0[grid.resolve_spec(pre[j].position)].cell == Some(j as usize));
                        }
                    }
                    assert forall|q: int| 0 <= q < ts.len() && (#[trigger] ts[q]).cell.is_some() implies {
                        let j = ts[q].cell.unwrap() as int;
                        &&& 0 <= j < next.len()
                        &&& next[j].alive
                        &&& grid.resolve_spec(next[j].position) == q
                    } by {
                        if q != k {
                            assert(t0[q].cell.is_some());
                            assert(next[t0[q].cell.unwrap() as int] == pre[t0[q].cell.unwrap() as int]);
                        }
                    }
                    assert forall|a: int, b: int|
                        0 <= a < b < next.len() && (#[trigger] next[a]).alive && (#[trigger] next[b]).alive
                            implies next[a].position != next[b].position by {
                        if b == i {
                            assert(next[a] == pre[a]);
                            assert(t0[grid.resolve_spec(pre[a].position)].cell == Some(a as usize));
                        } else {
                            assert(next[a] == pre[a] && next[b] == pre[b]);
                        }
                    }
                    assert forall|a: int| 0 <= a < next.len() implies (#[trigger] next[a]).genes@.len() > 0
                        && (next[a].alive ==> on_grid(next[a].position, x as int, y as int)) by {
                        if a < i {
                            assert(next[a] == pre[a]);
                        }
                    }
                }
            } else {
                proof {
                    let ts = grid.tiles();
                    assert forall|j: int| 0 <= j < next.len() && (#[trigger] next[j]).alive implies {
                        &&& grid.contains(next[j].position)
                        &&& ts[grid.resolve_spec(next[j].position)].cell == Some(j as usize)
                    } by {
                        assert(next[j] == pre[j]);
                    }
                    assert forall|q: int| 0 <= q < ts.len() && (#[trigger] ts[q]).cell.is_some() implies {
                        let j = ts[q].cell.unwrap() as int;
                        &&& 0 <= j < next.len()
                        &&& next[j].alive
                        &&& grid.resolve_spec(next[j].position) == q
                    } by {
                        assert(next[ts[q].cell.unwrap() as int] == pre[ts[q].cell.unwrap() as int]);
                    }
                    assert forall|a: int, b: int|
                        0 <= a < b < next.len() && (#[trigger] next[a]).alive && (#[trigger] next[b]).alive
                            implies next[a].position != next[b].position by {
                        assert(next[a] == pre[a] && next[b] == pre[b]);
                    }
                    assert forall|a: int| 0 <= a < next.len() implies (#[trigger] next[a]).genes@.len() > 0
                        && (next[a].alive ==> on_grid(next[a].position, x as int, y as int)) by {
                        if a < i {
                            assert(next[a] == pre[a]);
                        }
                    }
                }
            }
            i = i + 1;
        }
        assert(cells@.subrange(0, cells@.len() as int) == cells@);
        Ok(World { cell_list: cells, grid, kills: false, rng: crate::rng::seeded(seed) })
    }

    /// Number of agents, living or dead.
    pub fn population(&self) -> (r: usize)
        ensures
            r == self.cells().len(),
    {
        self.cell_list.len()
    }

    /// Agent `i`.
    pub fn cell(&self, i: usize) -> (r: &Cell)
        requires
            i < self.cells().len(),
        ensures
            *r == self.cells()[i as int],
    {
        &self.cell_list[i]
    }

    /// The grid.
    pub fn grid(&self) -> (r: &Grid)
        ensures
            *r == self.grid_view(),
    {
        &self.grid
    }

    /// Whether agents can kill.
    pub fn kills(&self) -> (r: bool)
        ensures
            r == self.kills_enabled(),
    {
        self.kills
    }

    /// Turns kills on or off.
    pub fn set_kills(&mut self, on: bool)
        requires
            old(self).wf(),
        ensures
            final(self).state() == old(self).state(),
            final(self).grid_view() == old(self).grid_view(),
            final(self).kills_enabled() == on,
            final(self).wf(),
    {
        self.kills = on;
    }

    /// Puts food on, or takes it off, the tile that `p` resolves to.
    pub fn set_food(&mut self, p: Position<usize>, has_food: bool)
        requires
            old(self).wf(),
        ensures
            final(self).cells() == old(self).cells(),
            final(self).grid_view().tiles() == old(self).grid_view().tiles().update(
                old(self).grid_view().resolve_spec(p),
                Tile { has_food, ..old(self).grid_view().tile_at(p) },
            ),
            final(self).same_frame(old(self)),
            final(self).wf(),
    {
        proof {
            crate::grid::lemma_resolve_bounded(&self.grid);
        }
        let k = self.grid.resolve(p);
        let t = *self.grid.tile(k);
        self.grid.set_tile(k, Tile { has_food, ..t });
        proof {
            let (c, ts) = self.state();
            let t0 = old(self).grid_view().tiles();
            assert forall|q: int| 0 <= q < ts.len() && (#[trigger] ts[q]).cell.is_some() implies {
                let j = ts[q].cell.unwrap() as int;
                &&& 0 <= j < c.len()
                &&& c[j].alive
                &&& self.grid.resolve_spec(c[j].position) == q
            } by {
                assert(t0[q].cell.is_some());
            }
        }
    }

}

} // verus!
