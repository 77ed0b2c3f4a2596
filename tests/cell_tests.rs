use cellsim::cell::{Cell, Compass, Oscilator, MAGIC_GENE_DECISION_WORD};
use cellsim::fixed::ONE;
use cellsim::grid::Position;
use rand::rngs::StdRng;
use rand::SeedableRng;

fn parent(genes: Vec<i32>) -> Cell {
    Cell {
        genes,
        position: Position::new(4, 7),
        last_move: Position::new(1, -1),
        food_level: 3,
        kill_count: 2,
        alive: true,
        rotation: Compass::South,
        oscilator: Oscilator { counter: 5, frequency: 6554, state: true },
    }
}

#[test]
fn create_cell_is_a_newborn() {
    let mut rng = StdRng::seed_from_u64(3);
    let c = Cell::create_cell(5, &mut rng);
    assert_eq!(c.genes, vec![0; 5]);
    assert_eq!(c.position, Position::new(0, 0));
    assert_eq!(c.food_level, 10);
    assert!(c.alive);
    assert_eq!(c.oscilator, Oscilator { counter: 0, frequency: 6554, state: false });
}

#[test]
fn offspring_with_marker_flips_one_bit() {
    let p = parent(vec![0, 0, 0]);
    let c = p.offspring_with(MAGIC_GENE_DECISION_WORD, 4, 33);
    // Gene 4 % 3 = 1, bit 33 & 31 = 1.
    assert_eq!(c.genes, vec![0, 2, 0]);
    let c = p.offspring_with(MAGIC_GENE_DECISION_WORD, 2, 31);
    assert_eq!(c.genes, vec![0, 0, i32::MIN]);
}

#[test]
fn offspring_without_marker_copies_genome_and_resets() {
    let p = parent(vec![7, -9, 11]);
    let c = p.offspring_with(MAGIC_GENE_DECISION_WORD ^ 1, 0, 0);
    assert_eq!(c.genes, vec![7, -9, 11]);
    assert_eq!(c.position, Position::new(0, 0));
    assert_eq!(c.last_move, Position::new(0, 0));
    assert_eq!(c.food_level, 10);
    assert_eq!(c.kill_count, 2);
    assert_eq!(c.rotation, Compass::South);
    assert_eq!(*c.index(1), -9);
}

#[test]
fn mutation_rate_is_one_in_65536() {
    let p = parent(vec![0x1234_5678; 50]);
    let mut rng = StdRng::seed_from_u64(2024);
    let mut mutated = 0;
    for _ in 0..1_000_000 {
        let c = p.generate_offspring(&mut rng);
        assert_eq!(c.genes.len(), 50);
        let diff: Vec<i32> = c.genes.iter().zip(p.genes.iter()).map(|(a, b)| a ^ b).filter(|d| *d != 0).collect();
        if !diff.is_empty() {
            assert_eq!(diff.len(), 1);
            assert_eq!(diff[0].count_ones(), 1);
            mutated += 1;
        }
    }
    // Expected 1e6 / 65536 = 15.26; a 99.9% binomial interval is about [4, 30].
    assert!(mutated >= 4 && mutated <= 30, "mutated {}", mutated);
}

#[test]
fn oscillator_flips_after_passing_one() {
    let mut o = Oscilator { counter: 0, frequency: 6554, state: false };
    for _ in 0..9 {
        o.update();
    }
    assert_eq!(o.counter, 58986);
    assert!(!o.state);
    assert_eq!(o.get_state(), -ONE);
    o.update();
    assert_eq!(o.counter, 0);
    assert!(o.state);
    assert_eq!(o.get_state(), ONE);
}

#[test]
fn compass_steps() {
    assert_eq!(Compass::North.dir(), (0, 1));
    assert_eq!(Compass::South.dir(), (0, -1));
    assert_eq!(Compass::East.dir(), (1, 0));
    assert_eq!(Compass::West.dir(), (-1, 0));
    assert_eq!(Compass::from_draw(6), Compass::East);
}
