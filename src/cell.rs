//! An agent: its genome, place, heading and inner state.

use vstd::prelude::*;
use crate::fixed::ONE;
use crate::gene::Gene;
use crate::grid::Position;
use crate::rng::draw;

verus! {

/// Drawn 16-bit value that marks an offspring for mutation (one in 65536).
pub const MAGIC_GENE_DECISION_WORD: u16 = 0x4C65;

/// Food an agent is born with.
pub const BIRTH_FOOD: u32 = 10;

/// Oscillator step an agent is born with (0.1).
pub const BIRTH_FREQUENCY: u32 = 6554;

/// A facing direction.
#[derive(Debug, Clone, Copy, PartialEq, Eq, Structural)]
pub enum Compass {
    North,
    South,
    East,
    West,
}

impl Compass {
    /// The unit step toward this heading; North is +y.
    pub open spec fn dir_spec(self) -> (int, int) {
        match self {
            Compass::North => (0, 1),
            Compass::South => (0, -1),
            Compass::East => (1, 0),
            Compass::West => (-1, 0),
        }
    }

    /// The heading numbered `n % 4`, in declaration order.
    pub open spec fn from_draw_spec(n: int) -> Compass {
        if n % 4 == 0 {
            Compass::North
        } else if n % 4 == 1 {
            Compass::South
        } else if n % 4 == 2 {
            Compass::East
        } else {
            Compass::West
        }
    }

    pub fn dir(&self) -> (r: (i8, i8))
        ensures
            r.0 == self.dir_spec().0,
            r.1 == self.dir_spec().1,
            -1 <= r.0 <= 1,
            -1 <= r.1 <= 1,
    {
        match self {
            Compass::North => (0, 1),
            Compass::South => (0, -1),
            Compass::East => (1, 0),
            Compass::West => (-1, 0),
        }
    }

    pub fn from_draw(n: i64) -> (r: Compass)
        requires
            n >= 0,
        ensures
            r == Compass::from_draw_spec(n as int),
    {
        let m = n % 4;
        if m == 0 {
            Compass::North
        } else if m == 1 {
            Compass::South
        } else if m == 2 {
            Compass::East
        } else {
            Compass::West
        }
    }
}

/// A periodic phase: the counter advances by the frequency each tick and the
/// phase flips each time it passes `ONE`.
#[derive(Debug, Clone, Copy, PartialEq, Eq, Structural)]
pub struct Oscilator {
    pub counter: u32,
    pub frequency: u32,
    pub state: bool,
}

impl Oscilator {
    pub open spec fn state_value(self) -> int {
        if self.state {
            ONE as int
        } else {
            -ONE
        }
    }

    pub open spec fn updated(self) -> Oscilator {
        if self.counter + self.frequency > ONE {
            Oscilator { counter: 0, frequency: self.frequency, state: !self.state }
        } else {
            Oscilator { counter: (self.counter + self.frequency) as u32, ..self }
        }
    }

    /// The phase as a neuron value: 1 or -1.
    pub fn get_state(&self) -> (r: i64)
        ensures
            r == self.state_value(),
    {
        if self.state {
            ONE
        } else {
            -ONE
        }
    }

    /// Advances one tick.
    pub fn update(&mut self)
        ensures
            *final(self) == old(self).updated(),
    {
        let c = self.counter as u64 + self.frequency as u64;
        if c > ONE as u64 {
            self.counter = 0;
            self.state = !self.state;
        } else {
            self.counter = c as u32;
        }
    }
}

/// An agent.
#[derive(Debug, PartialEq, Eq)]
pub struct Cell {
    pub genes: Vec<Gene>,
    pub position: Position<usize>,
    /// Displacement of the last tick, each coordinate -1, 0 or 1.
    pub last_move: Position<i8>,
    pub food_level: u32,
    pub kill_count: u32,
    /// False once another agent has killed it.
    pub alive: bool,
    pub rotation: Compass,
    pub oscilator: Oscilator,
}

/// The genome after an offspring draw: when `roll` is the marker word, bit
/// `bit_pick & 31` of gene `gene_pick % len` is flipped.
pub open spec fn mutated(genes: Seq<Gene>, roll: u16, gene_pick: usize, bit_pick: u8) -> Seq<Gene> {
    if roll == MAGIC_GENE_DECISION_WORD {
        let k = gene_pick as int % genes.len() as int;
        genes.update(k, genes[k] ^ (1i32 << (bit_pick & 0x1f)))
    } else {
        genes
    }
}

/// A copy of `genes`.
fn copy_genes(genes: &Vec<Gene>) -> (r: Vec<Gene>)
    ensures
        r@ == genes@,
{
    let mut r: Vec<Gene> = Vec::with_capacity(genes.len());
    let mut i: usize = 0;
    while i < genes.len()
        invariant
            0 <= i <= genes@.len(),
            r@ == genes@.subrange(0, i as int),
        decreases genes@.len() - i,
    {
        r.push(genes[i]);
        i = i + 1;
        proof {
            assert(r@ =~= genes@.subrange(0, i as int));
        }
    }
    proof {
        assert(r@ =~= genes@);
    }
    r
}

impl Cell {
    /// Gene `index` of the genome.
    pub fn index(&self, index: usize) -> (r: &Gene)
        requires
            index < self.genes@.len(),
        ensures
            *r == self.genes@[index as int],
    {
        &self.genes[index]
    }

    /// A newborn agent with `gene_count` zero genes at (0, 0), facing a
    /// random heading.
    pub fn create_cell(gene_count: usize, rng: &mut rand::rngs::StdRng) -> (r: Cell)
        ensures
            r.genes@ == Seq::new(gene_count as nat, |i: int| 0i32),
            r.position == (Position::<usize> { x: 0, y: 0 }),
            r.last_move == (Position::<i8> { x: 0, y: 0 }),
            r.food_level == BIRTH_FOOD,
            r.kill_count == 0,
            r.alive,
            r.oscilator == (Oscilator { counter: 0, frequency: BIRTH_FREQUENCY, state: false }),
    {
        let mut genes: Vec<Gene> = Vec::with_capacity(gene_count);
        let mut i: usize = 0;
        while i < gene_count
            invariant
                0 <= i <= gene_count,
                genes@ == Seq::new(i as nat, |j: int| 0i32),
            decreases gene_count - i,
        {
            genes.push(0);
            i = i + 1;
            proof {
                assert(genes@ =~= Seq::new(i as nat, |j: int| 0i32));
            }
        }
        let heading = draw(rng, 0, 3);
        Cell {
            genes,
            position: Position { x: 0, y: 0 },
            last_move: Position { x: 0, y: 0 },
            food_level: BIRTH_FOOD,
            kill_count: 0,
            alive: true,
            rotation: Compass::from_draw(heading),
            oscilator: Oscilator { counter: 0, frequency: BIRTH_FREQUENCY, state: false },
        }
    }

    /// The offspring for given draws: a copy whose genome is `mutated` by
    /// them, with position, last move and food back at birth values.
    pub fn offspring_with(&self, roll: u16, gene_pick: usize, bit_pick: u8) -> (r: Cell)
        requires
            self.genes@.len() > 0,
        ensures
            r.genes@ == mutated(self.genes@, roll, gene_pick, bit_pick),
            r.position == (Position::<usize> { x: 0, y: 0 }),
            r.last_move == (Position::<i8> { x: 0, y: 0 }),
            r.food_level == BIRTH_FOOD,
            r.kill_count == self.kill_count,
            r.alive == self.alive,
            r.rotation == self.rotation,
            r.oscilator == self.oscilator,
    {
        let mut genes = copy_genes(&self.genes);
        if roll == MAGIC_GENE_DECISION_WORD {
            let k = gene_pick % genes.len();
            let b = bit_pick & 0x1f;
            let g = genes[k];
            assert(b < 32) by (bit_vector)
                requires
                    b == bit_pick & 0x1f,
            ;
            genes.set(k, g ^ (1i32 << b));
        }
        Cell {
            genes,
            position: Position { x: 0, y: 0 },
            last_move: Position { x: 0, y: 0 },
            food_level: BIRTH_FOOD,
            kill_count: self.kill_count,
            alive: self.alive,
            rotation: self.rotation,
            oscilator: self.oscilator,
        }
    }

    /// An offspring: one draw of 16 bits decides, with odds 1 in 65536,
    /// whether one random bit of one random gene flips.
    pub fn generate_offspring(&self, rng: &mut rand::rngs::StdRng) -> (r: Cell)
        requires
            self.genes@.len() > 0,
        ensures
            r.genes@.len() == self.genes@.len(),
            r.genes@ == self.genes@ || exists|k: int, b: int|
                0 <= k < self.genes@.len() && 0 <= b < 32 && r.genes@ == self.genes@.update(
                    k,
                    self.genes@[k] ^ (1i32 << b),
                ),
            r.position == (Position::<usize> { x: 0, y: 0 }),
            r.last_move == (Position::<i8> { x: 0, y: 0 }),
            r.food_level == BIRTH_FOOD,
            r.kill_count == self.kill_count,
            r.alive == self.alive,
            r.rotation == self.rotation,
            r.oscilator == self.oscilator,
    {
        let roll = draw(rng, 0, 0xffff) as u16;
        let mut gene_pick: usize = 0;
        let mut bit_pick: u8 = 0;
        if roll == MAGIC_GENE_DECISION_WORD {
            let last = self.genes.len() - 1;
            let hi: i64 = if last > i64::MAX as usize {
                i64::MAX
            } else {
                last as i64
            };
            gene_pick = draw(rng, 0, hi) as usize;
            bit_pick = draw(rng, 0, 31) as u8;
        }
        let r = self.offspring_with(roll, gene_pick, bit_pick);
        proof {
            if roll == MAGIC_GENE_DECISION_WORD {
                let k = gene_pick as int % self.genes@.len() as int;
                let b = bit_pick & 0x1f;
                assert(b < 32) by (bit_vector)
                    requires
                        b == bit_pick & 0x1f,
                ;
                assert(r.genes@ == self.genes@.update(k, self.genes@[k] ^ (1i32 << b)));
            }
        }
        r
    }
}

} // verus!
