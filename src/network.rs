//! An agent's wiring for one tick, and its evaluation.
//!
//! Sensing turns each gene into a `Wire`: the slot it feeds (actuators
//! `0..8`, internal neurons `8..16`) and what it carries. Evaluating a slot
//! sums what its wires carry; a wire from an internal neuron evaluates that
//! neuron first, unless the neuron is already being evaluated further up, in
//! which case it carries 0. That breaks every cycle of the wiring.

use vstd::prelude::*;
use crate::cell::Cell;
use crate::fixed::{clamp, in_range, sat_add, tanh, tanh_fx, weigh, weighted, ONE};
use crate::gene::{decode_gene, fields_of, Gene};
use crate::grid::Grid;
use crate::neuron::{InputNeurons, InternalNeurons};

verus! {

/// Levels of nesting of internal neurons: one per kind.
pub const MAX_DEPTH: u8 = 8;

/// What a gene feeds into its destination this tick.
#[derive(Debug, Clone, Copy, PartialEq, Eq, Structural)]
pub enum GeneInput {
    /// A sensor reading, already scaled by the gene's weight.
    Input(i64),
    /// An internal neuron of the same agent, and the gene's weight.
    Internal(InternalNeurons, u16),
}

/// A gene resolved for one tick.
#[derive(Debug, Clone, Copy, PartialEq, Eq, Structural)]
pub struct Wire {
    /// Destination: actuator `slot` below 8, internal neuron `slot - 8` above.
    pub slot: u8,
    pub input: GeneInput,
}

/// The slot that a gene's output fields name.
pub open spec fn slot_of(output: int, output_is_internal: bool) -> int {
    if output_is_internal {
        8 + output % 8
    } else {
        output % 8
    }
}

/// The wire of `gene` for `cell` on `g`, where the random sensor reads `random`.
pub open spec fn wire_of(cell: Cell, g: Grid, gene: Gene, random: int) -> Wire {
    let f = fields_of(gene);
    Wire {
        slot: slot_of(f.1 as int, f.4) as u8,
        input: if f.3 {
            GeneInput::Internal(InternalNeurons::from_int_spec(f.0 as int), f.2)
        } else {
            GeneInput::Input(weighted(InputNeurons::from_int_spec(f.0 as int).reading(cell, g, random), f.2) as i64)
        },
    }
}

/// The wires of a whole genome; `noise[n]` is what the random sensor reads
/// for gene `n`.
pub open spec fn wiring(cell: Cell, g: Grid, noise: Seq<i64>) -> Seq<Wire> {
    Seq::new(cell.genes@.len(), |n: int| wire_of(cell, g, cell.genes@[n], noise[n] as int))
}

/// Wires that evaluation accepts: slots below 16 and readings in range.
pub open spec fn wires_ok(ws: Seq<Wire>) -> bool {
    forall|n: int|
        0 <= n < ws.len() ==> {
            &&& (#[trigger] ws[n]).slot < 16
            &&& (ws[n].input matches GeneInput::Input(v) ==> in_range(v as int))
        }
}

/// Whether kind number `k` is marked in `mask`.
pub open spec fn marked(mask: u8, k: int) -> bool {
    (mask >> (k as u8)) & 1u8 == 1u8
}

/// `mask` with kind number `k` marked.
pub open spec fn mark(mask: u8, k: int) -> u8 {
    mask | (1u8 << (k as u8))
}

/// Value of internal neuron `k` when the kinds in `mask` are being evaluated
/// further up, with `depth` levels of nesting left.
pub open spec fn neuron_value(ws: Seq<Wire>, k: InternalNeurons, mask: u8, depth: nat) -> int
    decreases depth, 0nat,
{
    if depth == 0 {
        0
    } else {
        let s = 8 + k.index_spec();
        k.activation(
            slot_total(ws, s, mark(mask, k.index_spec()), (depth - 1) as nat, ws.len()),
            slot_count(ws, s, ws.len()) as int,
        )
    }
}

/// Saturating sum of what the first `n` wires carry into slot `s`.
pub open spec fn slot_total(ws: Seq<Wire>, s: int, mask: u8, depth: nat, n: nat) -> int
    decreases depth, n,
{
    if n == 0 {
        0
    } else {
        let prev = slot_total(ws, s, mask, depth, (n - 1) as nat);
        let w = ws[n - 1];
        if w.slot != s {
            prev
        } else {
            match w.input {
                GeneInput::Input(v) => clamp(prev + v),
                GeneInput::Internal(j, weight) => if marked(mask, j.index_spec()) {
                    clamp(prev)
                } else {
                    clamp(prev + weighted(neuron_value(ws, j, mask, depth), weight))
                },
            }
        }
    }
}

/// Number of the first `n` wires that feed slot `s`.
pub open spec fn slot_count(ws: Seq<Wire>, s: int, n: nat) -> nat
    decreases n,
{
    if n == 0 {
        0
    } else {
        slot_count(ws, s, (n - 1) as nat) + if ws[n - 1].slot == s { 1nat } else { 0nat }
    }
}

/// Value of internal neuron `k` evaluated on its own.
pub open spec fn internal_value(ws: Seq<Wire>, k: InternalNeurons) -> int {
    neuron_value(ws, k, 0, MAX_DEPTH as nat)
}

/// Level of actuator slot `a`: tanh of the sum of what feeds it.
pub open spec fn actuator_level(ws: Seq<Wire>, a: int) -> int {
    tanh_fx(slot_total(ws, a, 0, MAX_DEPTH as nat, ws.len()))
}

/// The wire of one gene.
pub fn wire(cell: &Cell, grid: &Grid, gene: Gene, random: i64) -> (r: Wire)
    requires
        grid.wf(),
        grid.contains(cell.position),
        -ONE <= random <= ONE,
    ensures
        r == wire_of(*cell, *grid, gene, random as int),
        r.slot < 16,
        r.input matches GeneInput::Input(v) ==> in_range(v as int),
{
    let (input, output, weight, input_is_internal, output_is_internal) = decode_gene(gene);
    let slot: u8 = if output_is_internal {
        8 + (output % 8) as u8
    } else {
        (output % 8) as u8
    };
    let carried = if input_is_internal {
        GeneInput::Internal(InternalNeurons::from_int(input), weight)
    } else {
        let v = InputNeurons::from_int(input).handle(cell, grid, random);
        GeneInput::Input(weigh(v, weight))
    };
    Wire { slot, input: carried }
}

/// The wires of `cell`'s genome, read against `grid`; `noise[n]` is what the
/// random sensor reads for gene `n`.
pub fn sense(cell: &Cell, grid: &Grid, noise: &Vec<i64>) -> (r: Vec<Wire>)
    requires
        grid.wf(),
        grid.contains(cell.position),
        noise@.len() == cell.genes@.len(),
        forall|n: int| 0 <= n < noise@.len() ==> -ONE <= #[trigger] noise@[n] <= ONE,
    ensures
        r@ == wiring(*cell, *grid, noise@),
        wires_ok(r@),
{
    let mut r: Vec<Wire> = Vec::with_capacity(cell.genes.len());
    let mut n: usize = 0;
    while n < cell.genes.len()
        invariant
            0 <= n <= cell.genes@.len(),
            noise@.len() == cell.genes@.len(),
            grid.wf(),
            grid.contains(cell.position),
            forall|i: int| 0 <= i < noise@.len() ==> -ONE <= #[trigger] noise@[i] <= ONE,
            r@ == wiring(*cell, *grid, noise@).subrange(0, n as int),
            wires_ok(r@),
        decreases cell.genes@.len() - n,
    {
        let w = wire(cell, grid, cell.genes[n], noise[n]);
        r.push(w);
        n = n + 1;
        proof {
            assert(r@ =~= wiring(*cell, *grid, noise@).subrange(0, n as int));
        }
    }
    proof {
        assert(r@ =~= wiring(*cell, *grid, noise@));
    }
    r
}

fn count_slot(ws: &Vec<Wire>, s: u8) -> (r: usize)
    ensures
        r == slot_count(ws@, s as int, ws@.len()),
{
    let mut c: usize = 0;
    let mut i: usize = 0;
    while i < ws.len()
        invariant
            0 <= i <= ws@.len(),
            c == slot_count(ws@, s as int, i as nat),
            c <= i,
        decreases ws@.len() - i,
    {
        if ws[i].slot == s {
            c = c + 1;
        }
        i = i + 1;
    }
    c
}

fn neuron_value_exec(ws: &Vec<Wire>, k: InternalNeurons, mask: u8, depth: u8) -> (r: i64)
    requires
        wires_ok(ws@),
    ensures
        r == neuron_value(ws@, k, mask, depth as nat),
        in_range(r as int),
    decreases depth, 0nat,
{
    if depth == 0 {
        return 0;
    }
    let ki = k.index();
    let m = mask | (1u8 << ki);
    let s = slot_sum(ws, 8 + ki, m, depth - 1);
    let c = count_slot(ws, 8 + ki);
    k.activate(s, c)
}

fn slot_sum(ws: &Vec<Wire>, s: u8, mask: u8, depth: u8) -> (r: i64)
    requires
        wires_ok(ws@),
    ensures
        r == slot_total(ws@, s as int, mask, depth as nat, ws@.len()),
        in_range(r as int),
    decreases depth, 1nat,
{
    let mut acc: i64 = 0;
    let mut i: usize = 0;
    while i < ws.len()
        invariant
            0 <= i <= ws@.len(),
            wires_ok(ws@),
            acc == slot_total(ws@, s as int, mask, depth as nat, i as nat),
            in_range(acc as int),
        decreases ws@.len() - i,
    {
        let w = ws[i];
        if w.slot == s {
            match w.input {
                GeneInput::Input(v) => {
                    acc = sat_add(acc, v);
                },
                GeneInput::Internal(j, weight) => {
                    let ji = j.index();
                    if (mask >> ji) & 1u8 == 1u8 {
                        acc = sat_add(acc, 0);
                    } else {
                        let v = neuron_value_exec(ws, j, mask, depth);
                        acc = sat_add(acc, weigh(v, weight));
                    }
                },
            }
        }
        i = i + 1;
    }
    acc
}

impl InternalNeurons {
    /// Evaluates this internal neuron on the wires `ws` of one agent.
    pub fn handle(&self, ws: &Vec<Wire>) -> (r: i64)
        requires
            wires_ok(ws@),
        ensures
            r == internal_value(ws@, *self),
            in_range(r as int),
    {
        neuron_value_exec(ws, *self, 0, MAX_DEPTH)
    }
}

/// The level of actuator slot `a`, in [-ONE, ONE].
pub fn actuator_output(ws: &Vec<Wire>, a: u8) -> (r: i64)
    requires
        wires_ok(ws@),
    ensures
        r == actuator_level(ws@, a as int),
        -ONE <= r <= ONE,
{
    let s = slot_sum(ws, a, 0, MAX_DEPTH);
    tanh(s)
}

/// Whether any wire feeds slot `a`.
pub fn is_driven(ws: &Vec<Wire>, a: u8) -> (r: bool)
    ensures
        r == (slot_count(ws@, a as int, ws@.len()) > 0),
{
    count_slot(ws, a) > 0
}

/// Whether wire `w` carries internal neuron `k`.
pub open spec fn carries(w: Wire, k: InternalNeurons) -> bool {
    match w.input {
        GeneInput::Internal(j, _) => j == k,
        GeneInput::Input(_) => false,
    }
}

proof fn lemma_marked_slot_is_zero(ws: Seq<Wire>, k: InternalNeurons, mask: u8, depth: nat, n: nat)
    requires
        n <= ws.len(),
        marked(mask, k.index_spec()),
        forall|i: int|
            0 <= i < ws.len() && (#[trigger] ws[i]).slot == 8 + k.index_spec() ==> carries(ws[i], k),
    ensures
        slot_total(ws, 8 + k.index_spec(), mask, depth, n) == 0,
    decreases n,
{
    if n > 0 {
        lemma_marked_slot_is_zero(ws, k, mask, depth, (n - 1) as nat);
    }
}

/// An internal neuron whose only wired inputs are itself evaluates to its
/// activation of 0: a wire back into the neuron under evaluation carries 0,
/// and evaluation does not recurse on it.
pub proof fn lemma_self_reference(ws: Seq<Wire>, k: InternalNeurons)
    requires
        forall|i: int|
            0 <= i < ws.len() && (#[trigger] ws[i]).slot == 8 + k.index_spec() ==> carries(ws[i], k),
    ensures
        internal_value(ws, k) == k.activation(0, slot_count(ws, 8 + k.index_spec(), ws.len()) as int),
{
    let ki = k.index_spec() as u8;
    assert(((0u8 | (1u8 << ki)) >> ki) & 1u8 == 1u8) by (bit_vector)
        requires
            ki < 8,
    ;
    lemma_marked_slot_is_zero(ws, k, mark(0, k.index_spec()), (MAX_DEPTH - 1) as nat, ws.len());
}

} // verus!
