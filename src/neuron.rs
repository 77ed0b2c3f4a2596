//! The neuron catalog: sensors, internal neurons and actuators, their
//! numbering, and how sensors read the world and internal neurons activate.

use vstd::prelude::*;
use crate::cell::{Cell, Compass};
use crate::fixed::{
    cosh, cosh_fx, in_range, isqrt, quot, root, sinh, sinh_fx, tanh, tanh_fx, LIMIT, ONE,
};
use crate::grid::{offset, offset_spec, Grid, Position, Tile};

verus! {

/// Remainder rounded toward zero, as Rust's `%` on signed integers.
pub open spec fn trunc_rem(n: int, m: int) -> int {
    if n >= 0 {
        n % m
    } else {
        -((-n) % m)
    }
}

#[derive(Debug, Clone, Copy, PartialEq, Eq, Structural)]
pub enum InputNeurons {
    FoodLeftRight,
    FoodUpDown,
    FoodForward,
    FoodDensity,
    PheromoneLeftRight,
    PheromoneUpDown,
    PheromoneForward,
    PheromoneDensity,
    BlockageLeftRight,
    BlockageUpDown,
    BlockageForward,
    PopLeftRight,
    PopUpDown,
    PopForward,
    PopDensity,
    LocationX,
    LocationY,
    Age,
    KillCount,
    LastMoveX,
    LastMoveY,
    GeneticSimilarity,
    Random,
    Oscilator,
}

#[derive(Debug, Clone, Copy, PartialEq, Eq, Structural)]
pub enum InternalNeurons {
    Tanh,
    Cosh,
    Sinh,
    /// tanh of the magnitude.
    Abs,
    /// tanh of the negation.
    Neg,
    Avg,
    Sqrt,
    InverseSqrt,
}

#[derive(Debug, Clone, Copy, PartialEq, Eq, Structural)]
pub enum OutputNeurons {
    SetOscilator,
    EmitPheromone,
    SetResponsiveness,
    Move,
    MoveX,
    MoveY,
    MoveRandom,
    KillFoward,
}

impl OutputNeurons {
    /// Position in declaration order.
    pub open spec fn index_spec(self) -> int {
        match self {
            OutputNeurons::SetOscilator => 0,
            OutputNeurons::EmitPheromone => 1,
            OutputNeurons::SetResponsiveness => 2,
            OutputNeurons::Move => 3,
            OutputNeurons::MoveX => 4,
            OutputNeurons::MoveY => 5,
            OutputNeurons::MoveRandom => 6,
            OutputNeurons::KillFoward => 7,
        }
    }

    /// The actuator numbered `integer % 8`; a negative remainder gives
    /// `KillFoward`.
    pub open spec fn from_int_spec(integer: int) -> OutputNeurons {
        let r = trunc_rem(integer, 8);
        if r == 0 {
            OutputNeurons::SetOscilator
        } else if r == 1 {
            OutputNeurons::EmitPheromone
        } else if r == 2 {
            OutputNeurons::SetResponsiveness
        } else if r == 3 {
            OutputNeurons::Move
        } else if r == 4 {
            OutputNeurons::MoveX
        } else if r == 5 {
            OutputNeurons::MoveY
        } else if r == 6 {
            OutputNeurons::MoveRandom
        } else {
            OutputNeurons::KillFoward
        }
    }

    pub fn from_int(integer: i32) -> (r: Self)
        ensures
            r == OutputNeurons::from_int_spec(integer as int),
    {
        match integer % 8 {
            0 => Self::SetOscilator,
            1 => Self::EmitPheromone,
            2 => Self::SetResponsiveness,
            3 => Self::Move,
            4 => Self::MoveX,
            5 => Self::MoveY,
            6 => Self::MoveRandom,
            _ => Self::KillFoward,
        }
    }
}

impl InternalNeurons {
    /// Position in declaration order.
    pub open spec fn index_spec(self) -> int {
        match self {
            InternalNeurons::Tanh => 0,
            InternalNeurons::Cosh => 1,
            InternalNeurons::Sinh => 2,
            InternalNeurons::Abs => 3,
            InternalNeurons::Neg => 4,
            InternalNeurons::Avg => 5,
            InternalNeurons::Sqrt => 6,
            InternalNeurons::InverseSqrt => 7,
        }
    }

    /// The kind numbered `integer % 8`; a negative remainder gives `Tanh`.
    pub open spec fn from_int_spec(integer: int) -> InternalNeurons {
        let r = trunc_rem(integer, 8);
        if r == 1 {
            InternalNeurons::Cosh
        } else if r == 2 {
            InternalNeurons::Sinh
        } else if r == 3 {
            InternalNeurons::Abs
        } else if r == 4 {
            InternalNeurons::Neg
        } else if r == 5 {
            InternalNeurons::Avg
        } else if r == 6 {
            InternalNeurons::Sqrt
        } else if r == 7 {
            InternalNeurons::InverseSqrt
        } else {
            InternalNeurons::Tanh
        }
    }

    pub fn from_int(integer: i32) -> (r: Self)
        ensures
            r == InternalNeurons::from_int_spec(integer as int),
    {
        match integer % 8 {
            0 => Self::Tanh,
            1 => Self::Cosh,
            2 => Self::Sinh,
            3 => Self::Abs,
            4 => Self::Neg,
            5 => Self::Avg,
            6 => Self::Sqrt,
            7 => Self::InverseSqrt,
            _ => Self::Tanh,
        }
    }

    pub fn index(&self) -> (r: u8)
        ensures
            r == self.index_spec(),
    {
        match self {
            InternalNeurons::Tanh => 0,
            InternalNeurons::Cosh => 1,
            InternalNeurons::Sinh => 2,
            InternalNeurons::Abs => 3,
            InternalNeurons::Neg => 4,
            InternalNeurons::Avg => 5,
            InternalNeurons::Sqrt => 6,
            InternalNeurons::InverseSqrt => 7,
        }
    }

    /// The activation of this kind on the sum of `count` inputs. Results that
    /// are not finite (a root of a negative sum, a division by zero, a value
    /// out of range) are 0.
    pub open spec fn activation(self, sum: int, count: int) -> int {
        match self {
            InternalNeurons::Tanh => tanh_fx(sum),
            InternalNeurons::Cosh => cosh_fx(sum),
            InternalNeurons::Sinh => sinh_fx(sum),
            InternalNeurons::Abs => tanh_fx(if sum < 0 { -sum } else { sum }),
            InternalNeurons::Neg => tanh_fx(-sum),
            InternalNeurons::Avg => if count == 0 { 0 } else { quot(sum, count) },
            InternalNeurons::Sqrt => if sum < 0 { 0 } else { root(sum * ONE) },
            InternalNeurons::InverseSqrt => if sum <= 0 { 0 } else { ONE * ONE / root(sum * ONE) },
        }
    }

    /// Applies the activation of this kind.
    pub fn activate(&self, sum: i64, count: usize) -> (r: i64)
        requires
            in_range(sum as int),
        ensures
            r == self.activation(sum as int, count as int),
            in_range(r as int),
    {
        proof {
            crate::fixed::lemma_tanh_bounds(sum as int);
            crate::fixed::lemma_tanh_bounds(-sum);
        }
        match self {
            InternalNeurons::Tanh => tanh(sum),
            InternalNeurons::Cosh => cosh(sum),
            InternalNeurons::Sinh => sinh(sum),
            InternalNeurons::Abs => tanh(if sum < 0 { -sum } else { sum }),
            InternalNeurons::Neg => tanh(-sum),
            InternalNeurons::Avg => {
                if count == 0 {
                    0
                } else {
                    if count as u64 > LIMIT as u64 {
                        proof {
                            let a: int = if sum < 0 { -sum } else { sum as int };
                            vstd::arithmetic::div_mod::lemma_basic_div(a, count as int);
                        }
                        0
                    } else {
                        let c = count as i64;
                        proof {
                            let a: int = if sum < 0 { -sum } else { sum as int };
                            assert(a <= a * c) by (nonlinear_arith)
                                requires
                                    a >= 0,
                                    c >= 1,
                            ;
                            crate::fixed::lemma_div_bounds(a, c as int, a);
                        }
                        if sum >= 0 {
                            sum / c
                        } else {
                            -((-sum) / c)
                        }
                    }
                }
            },
            InternalNeurons::Sqrt => {
                if sum < 0 {
                    0
                } else {
                    let s = isqrt(sum * ONE);
                    proof {
                        if s > LIMIT {
                            assert(s * s > (sum * ONE)) by (nonlinear_arith)
                                requires
                                    s > LIMIT,
                                    sum <= LIMIT,
                                    sum >= 0,
                            ;
                        }
                    }
                    s
                }
            },
            InternalNeurons::InverseSqrt => {
                if sum <= 0 {
                    0
                } else {
                    let s = isqrt(sum * ONE);
                    proof {
                        assert(sum * ONE >= 1) by (nonlinear_arith)
                            requires
                                sum >= 1,
                        ;
                        if s == 0 {
                            assert((s + 1) * (s + 1) == 1) by (nonlinear_arith)
                                requires
                                    s == 0,
                            ;
                        }
                        let k: int = ONE * ONE;
                        assert(k <= k * s) by (nonlinear_arith)
                            requires
                                k >= 0,
                                s >= 1,
                        ;
                        crate::fixed::lemma_div_bounds(k, s as int, k);
                    }
                    ONE * ONE / s
                }
            },
        }
    }
}

/// What a spatial sensor reads from a tile.
#[derive(Debug, Clone, Copy, PartialEq, Eq, Structural)]
pub enum Probe {
    Food,
    Pheromone,
    Occupant,
}

/// The amount of what is probed on a tile: 1 or 0 for food and occupants, the
/// level for pheromone.
pub open spec fn signal(t: Tile, what: Probe) -> int {
    match what {
        Probe::Food => if t.has_food { 1 } else { 0 },
        Probe::Pheromone => t.pheromone_level as int,
        Probe::Occupant => if t.cell.is_some() { 1 } else { 0 },
    }
}

/// Pheromone levels read in fiftieths; food and occupants as whole units.
pub open spec fn signal_scale(what: Probe) -> int {
    match what {
        Probe::Pheromone => 50,
        _ => 1,
    }
}

/// A presence sensor along direction `d`: the reading one step ahead if it is
/// not zero, else the negated reading one step behind, else 0.
pub open spec fn directional(g: Grid, p: Position<usize>, d: (int, int), what: Probe) -> int {
    let a = signal(g.tile_at(offset_spec(p, d.0, d.1)), what);
    let b = signal(g.tile_at(offset_spec(p, -d.0, -d.1)), what);
    if a != 0 {
        a * ONE / signal_scale(what)
    } else if b != 0 {
        -(b * ONE / signal_scale(what))
    } else {
        0
    }
}

/// Sum of the signal over the 3 x 3 block centred on `p`.
pub open spec fn block_total(g: Grid, p: Position<usize>, what: Probe) -> int {
    signal(g.tile_at(offset_spec(p, -1, -1)), what) + signal(g.tile_at(offset_spec(p, 0, -1)), what)
        + signal(g.tile_at(offset_spec(p, 1, -1)), what) + signal(g.tile_at(offset_spec(p, -1, 0)), what)
        + signal(g.tile_at(offset_spec(p, 0, 0)), what) + signal(g.tile_at(offset_spec(p, 1, 0)), what)
        + signal(g.tile_at(offset_spec(p, -1, 1)), what) + signal(g.tile_at(offset_spec(p, 0, 1)), what)
        + signal(g.tile_at(offset_spec(p, 1, 1)), what)
}

/// The mean signal over the 3 x 3 block.
pub open spec fn density(g: Grid, p: Position<usize>, what: Probe) -> int {
    block_total(g, p, what) * ONE / (9 * signal_scale(what))
}

/// A coordinate mapped linearly onto [-1, 1]; 0 on a grid one tile wide.
pub open spec fn location(v: int, extent: int) -> int {
    if extent <= 1 {
        0
    } else {
        v * 2 * ONE / (extent - 1) - ONE
    }
}

fn probe_signal(t: &Tile, what: Probe) -> (r: i64)
    ensures
        r == signal(*t, what),
        0 <= r <= 0xffff,
{
    match what {
        Probe::Food => if t.has_food { 1 } else { 0 },
        Probe::Pheromone => t.pheromone_level as i64,
        Probe::Occupant => if t.cell.is_some() { 1 } else { 0 },
    }
}

fn scale_of(what: Probe) -> (r: i64)
    ensures
        r == signal_scale(what),
{
    match what {
        Probe::Pheromone => 50,
        _ => 1,
    }
}

fn probe_at(g: &Grid, p: Position<usize>, dx: i8, dy: i8, what: Probe) -> (r: i64)
    requires
        g.wf(),
        g.contains(p),
        -1 <= dx <= 1,
        -1 <= dy <= 1,
    ensures
        r == signal(g.tile_at(offset_spec(p, dx as int, dy as int)), what),
        0 <= r <= 0xffff,
{
    let q = offset(p, dx, dy);
    probe_signal(g.index(q), what)
}

fn directional_value(g: &Grid, p: Position<usize>, d: (i8, i8), what: Probe) -> (r: i64)
    requires
        g.wf(),
        g.contains(p),
        -1 <= d.0 <= 1,
        -1 <= d.1 <= 1,
    ensures
        r == directional(*g, p, (d.0 as int, d.1 as int), what),
        -0xffff * ONE <= r <= 0xffff * ONE,
{
    let a = probe_at(g, p, d.0, d.1, what);
    let b = probe_at(g, p, -d.0, -d.1, what);
    let k = scale_of(what);
    if a != 0 {
        proof {
            crate::fixed::lemma_div_bounds(a * ONE, k as int, 0xffff * ONE);
        }
        a * ONE / k
    } else if b != 0 {
        proof {
            crate::fixed::lemma_div_bounds(b * ONE, k as int, 0xffff * ONE);
        }
        -(b * ONE / k)
    } else {
        0
    }
}

fn density_value(g: &Grid, p: Position<usize>, what: Probe) -> (r: i64)
    requires
        g.wf(),
        g.contains(p),
    ensures
        r == density(*g, p, what),
        0 <= r <= 0xffff * ONE,
{
    let t = probe_at(g, p, -1, -1, what) + probe_at(g, p, 0, -1, what) + probe_at(g, p, 1, -1, what)
        + probe_at(g, p, -1, 0, what) + probe_at(g, p, 0, 0, what) + probe_at(g, p, 1, 0, what)
        + probe_at(g, p, -1, 1, what) + probe_at(g, p, 0, 1, what) + probe_at(g, p, 1, 1, what);
    let k = 9 * scale_of(what);
    proof {
        crate::fixed::lemma_div_bounds(t * ONE, k as int, 0xffff * ONE);
    }
    t * ONE / k
}

fn location_value(v: usize, extent: usize) -> (r: i64)
    requires
        v < extent,
    ensures
        r == location(v as int, extent as int),
        -ONE <= r <= ONE,
{
    if extent <= 1 {
        0
    } else {
        let n = v as i128 * 2 * ONE as i128;
        let d = (extent - 1) as i128;
        proof {
            crate::fixed::lemma_div_bounds(n as int, d as int, 2 * ONE);
        }
        (n / d - ONE as i128) as i64
    }
}

impl InputNeurons {
    /// The sensor numbered `integer % 24`; a negative remainder gives `Random`.
    pub open spec fn from_int_spec(integer: int) -> InputNeurons {
        let r = trunc_rem(integer, 24);
        if r == 0 {
            InputNeurons::FoodLeftRight
        } else if r == 1 {
            InputNeurons::FoodUpDown
        } else if r == 2 {
            InputNeurons::FoodForward
        } else if r == 3 {
            InputNeurons::FoodDensity
        } else if r == 4 {
            InputNeurons::PheromoneLeftRight
        } else if r == 5 {
            InputNeurons::PheromoneUpDown
        } else if r == 6 {
            InputNeurons::PheromoneForward
        } else if r == 7 {
            InputNeurons::PheromoneDensity
        } else if r == 8 {
            InputNeurons::BlockageLeftRight
        } else if r == 9 {
            InputNeurons::BlockageUpDown
        } else if r == 10 {
            InputNeurons::BlockageForward
        } else if r == 11 {
            InputNeurons::PopLeftRight
        } else if r == 12 {
            InputNeurons::PopUpDown
        } else if r == 13 {
            InputNeurons::PopForward
        } else if r == 14 {
            InputNeurons::PopDensity
        } else if r == 15 {
            InputNeurons::LocationX
        } else if r == 16 {
            InputNeurons::LocationY
        } else if r == 17 {
            InputNeurons::Age
        } else if r == 18 {
            InputNeurons::KillCount
        } else if r == 19 {
            InputNeurons::LastMoveX
        } else if r == 20 {
            InputNeurons::LastMoveY
        } else if r == 21 {
            InputNeurons::GeneticSimilarity
        } else if r == 23 {
            InputNeurons::Oscilator
        } else {
            InputNeurons::Random
        }
    }

    pub fn from_int(integer: i32) -> (r: Self)
        ensures
            r == InputNeurons::from_int_spec(integer as int),
    {
        match integer % 24 {
            0 => Self::FoodLeftRight,
            1 => Self::FoodUpDown,
            2 => Self::FoodForward,
            3 => Self::FoodDensity,
            4 => Self::PheromoneLeftRight,
            5 => Self::PheromoneUpDown,
            6 => Self::PheromoneForward,
            7 => Self::PheromoneDensity,
            8 => Self::BlockageLeftRight,
            9 => Self::BlockageUpDown,
            10 => Self::BlockageForward,
            11 => Self::PopLeftRight,
            12 => Self::PopUpDown,
            13 => Self::PopForward,
            14 => Self::PopDensity,
            15 => Self::LocationX,
            16 => Self::LocationY,
            17 => Self::Age,
            18 => Self::KillCount,
            19 => Self::LastMoveX,
            20 => Self::LastMoveY,
            21 => Self::GeneticSimilarity,
            23 => Self::Oscilator,
            _ => Self::Random,
        }
    }

    /// What this sensor reads for `cell` on `g`; `random` is the value the
    /// random sensor reads. Age, kill count and genetic similarity read 0.
    pub open spec fn reading(self, cell: Cell, g: Grid, random: int) -> int {
        let p = cell.position;
        let east = (1int, 0int);
        let north = (0int, 1int);
        let ahead = cell.rotation.dir_spec();
        match self {
            InputNeurons::FoodLeftRight => directional(g, p, east, Probe::Food),
            InputNeurons::FoodUpDown => directional(g, p, north, Probe::Food),
            InputNeurons::FoodForward => directional(g, p, ahead, Probe::Food),
            InputNeurons::FoodDensity => density(g, p, Probe::Food),
            InputNeurons::PheromoneLeftRight => directional(g, p, east, Probe::Pheromone),
            InputNeurons::PheromoneUpDown => directional(g, p, north, Probe::Pheromone),
            InputNeurons::PheromoneForward => directional(g, p, ahead, Probe::Pheromone),
            InputNeurons::PheromoneDensity => density(g, p, Probe::Pheromone),
            InputNeurons::BlockageLeftRight => directional(g, p, east, Probe::Occupant),
            InputNeurons::BlockageUpDown => directional(g, p, north, Probe::Occupant),
            InputNeurons::BlockageForward => directional(g, p, ahead, Probe::Occupant),
            InputNeurons::PopLeftRight => directional(g, p, east, Probe::Occupant),
            InputNeurons::PopUpDown => directional(g, p, north, Probe::Occupant),
            InputNeurons::PopForward => directional(g, p, ahead, Probe::Occupant),
            InputNeurons::PopDensity => density(g, p, Probe::Occupant),
            InputNeurons::LocationX => location(p.x as int, g.width() as int),
            InputNeurons::LocationY => location(p.y as int, g.height() as int),
            InputNeurons::Age => 0,
            InputNeurons::KillCount => 0,
            InputNeurons::LastMoveX => cell.last_move.x * ONE,
            InputNeurons::LastMoveY => cell.last_move.y * ONE,
            InputNeurons::GeneticSimilarity => 0,
            InputNeurons::Random => random,
            InputNeurons::Oscilator => cell.oscilator.state_value(),
        }
    }

    /// Reads this sensor for `cell` on `grid`; `random`, drawn in [-1, 1] by
    /// the caller, is what the random sensor reads.
    pub fn handle(&self, cell: &Cell, grid: &Grid, random: i64) -> (r: i64)
        requires
            grid.wf(),
            grid.contains(cell.position),
            -ONE <= random <= ONE,
        ensures
            r == self.reading(*cell, *grid, random as int),
            in_range(r as int),
    {
        let p = cell.position;
        let east: (i8, i8) = (1, 0);
        let north: (i8, i8) = (0, 1);
        let ahead = cell.rotation.dir();
        match self {
            InputNeurons::FoodLeftRight => directional_value(grid, p, east, Probe::Food),
            InputNeurons::FoodUpDown => directional_value(grid, p, north, Probe::Food),
            InputNeurons::FoodForward => directional_value(grid, p, ahead, Probe::Food),
            InputNeurons::FoodDensity => density_value(grid, p, Probe::Food),
            InputNeurons::PheromoneLeftRight => directional_value(grid, p, east, Probe::Pheromone),
            InputNeurons::PheromoneUpDown => directional_value(grid, p, north, Probe::Pheromone),
            InputNeurons::PheromoneForward => directional_value(grid, p, ahead, Probe::Pheromone),
            InputNeurons::PheromoneDensity => density_value(grid, p, Probe::Pheromone),
            InputNeurons::BlockageLeftRight => directional_value(grid, p, east, Probe::Occupant),
            InputNeurons::BlockageUpDown => directional_value(grid, p, north, Probe::Occupant),
            InputNeurons::BlockageForward => directional_value(grid, p, ahead, Probe::Occupant),
            InputNeurons::PopLeftRight => directional_value(grid, p, east, Probe::Occupant),
            InputNeurons::PopUpDown => directional_value(grid, p, north, Probe::Occupant),
            InputNeurons::PopForward => directional_value(grid, p, ahead, Probe::Occupant),
            InputNeurons::PopDensity => density_value(grid, p, Probe::Occupant),
            InputNeurons::LocationX => location_value(p.x, grid.get_x()),
            InputNeurons::LocationY => location_value(p.y, grid.get_y()),
            InputNeurons::Age => 0,
            InputNeurons::KillCount => 0,
            InputNeurons::LastMoveX => cell.last_move.x as i64 * ONE,
            InputNeurons::LastMoveY => cell.last_move.y as i64 * ONE,
            InputNeurons::GeneticSimilarity => 0,
            InputNeurons::Random => random,
            InputNeurons::Oscilator => cell.oscilator.get_state(),
        }
    }
}

} // verus!
