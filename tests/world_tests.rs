use cellsim::cell::{Cell, Compass, Oscilator};
use cellsim::gene::encode_gene;
use cellsim::grid::Position;
use cellsim::world::{World, WorldError};
use rand::rngs::StdRng;
use rand::{Rng, SeedableRng};

const RANDOM: i32 = 22;
const OSCILATOR: i32 = 23;
const EMIT: i32 = 1;
const RESPONSIVENESS: i32 = 2;
const MOVE: i32 = 3;
const MOVE_X: i32 = 4;
const KILL: i32 = 7;

fn agent(x: usize, y: usize, rotation: Compass, genes: Vec<i32>) -> Cell {
    Cell {
        genes,
        position: Position::new(x, y),
        last_move: Position::new(0, 0),
        food_level: 10,
        kill_count: 0,
        alive: true,
        rotation,
        oscilator: Oscilator { counter: 0, frequency: 6554, state: false },
    }
}

/// The oscillator reads -1 at birth; weight 0x8000 is -4, so this gene drives
/// its actuator fully positive.
fn full_on(actuator: i32) -> i32 {
    encode_gene(OSCILATOR, actuator, 0x8000, false, false)
}

#[test]
fn random_sensor_to_move_steps_one_tile_forward_or_back() {
    for seed in 0..20u64 {
        let gene = encode_gene(RANDOM, MOVE, 0x7fff, false, false);
        let mut w = World::from_cells(vec![agent(5, 5, Compass::East, vec![gene])], 10, 10, seed).unwrap();
        w.step();
        let c = w.cell(0);
        assert_eq!(c.position.y, 5);
        assert!(c.position.x == 4 || c.position.x == 6);
        assert_eq!(c.last_move, Position::new(c.position.x as i8 - 5, 0));
        assert_eq!(w.grid().index(c.position).cell, Some(0));
        assert_eq!(w.grid().index(Position::new(5, 5)).cell, None);
    }
}

#[test]
fn first_mover_wins_a_contested_tile() {
    let a = agent(1, 1, Compass::East, vec![full_on(MOVE)]);
    let b = agent(3, 1, Compass::West, vec![full_on(MOVE)]);
    let mut w = World::from_cells(vec![a, b], 6, 6, 1).unwrap();
    w.step();
    assert_eq!(w.cell(0).position, Position::new(2, 1));
    assert_eq!(w.cell(0).last_move, Position::new(1, 0));
    assert_eq!(w.cell(1).position, Position::new(3, 1));
    assert_eq!(w.cell(1).last_move, Position::new(0, 0));
    assert_eq!(w.grid().index(Position::new(2, 1)).cell, Some(0));
    assert_eq!(w.grid().index(Position::new(1, 1)).cell, None);
}

#[test]
fn moving_into_the_edge_stays_put() {
    let mut w = World::from_cells(vec![agent(0, 0, Compass::South, vec![full_on(MOVE)])], 4, 4, 1).unwrap();
    w.step();
    assert_eq!(w.cell(0).position, Position::new(0, 0));
    assert_eq!(w.cell(0).last_move, Position::new(0, 0));
}

#[test]
fn move_x_steps_along_the_axis() {
    let mut w = World::from_cells(vec![agent(0, 0, Compass::North, vec![full_on(MOVE_X)])], 4, 4, 1).unwrap();
    w.step();
    assert_eq!(w.cell(0).position, Position::new(1, 0));
    w.step();
    assert_eq!(w.cell(0).position, Position::new(2, 0));
}

#[test]
fn zero_responsiveness_stops_movement() {
    let genes = vec![full_on(MOVE), encode_gene(OSCILATOR, RESPONSIVENESS, 0x7fff, false, false)];
    let mut w = World::from_cells(vec![agent(2, 2, Compass::East, genes)], 5, 5, 1).unwrap();
    w.step();
    assert_eq!(w.cell(0).position, Position::new(2, 2));
}

#[test]
fn internal_neuron_routes_to_actuator() {
    // Oscillator (-1) into Neg: tanh(1) > 0; Neg into Move drives it forward.
    let genes = vec![
        encode_gene(OSCILATOR, 4, 8192, false, true),
        encode_gene(4, MOVE, 8192, true, false),
    ];
    let mut w = World::from_cells(vec![agent(2, 2, Compass::North, genes)], 5, 5, 1).unwrap();
    w.step();
    assert_eq!(w.cell(0).position, Position::new(2, 3));
}

#[test]
fn emitting_raises_pheromone() {
    let mut w = World::from_cells(vec![agent(1, 1, Compass::North, vec![full_on(EMIT)])], 3, 3, 1).unwrap();
    w.step();
    assert_eq!(w.grid().index(Position::new(1, 1)).pheromone_level, 50);
    w.step();
    assert_eq!(w.grid().index(Position::new(1, 1)).pheromone_level, 100);
}

#[test]
fn kill_forward_needs_kills_enabled() {
    let a = agent(2, 2, Compass::East, vec![full_on(KILL)]);
    let b = agent(3, 2, Compass::North, vec![0]);
    let mut w = World::from_cells(vec![a, b], 6, 6, 1).unwrap();
    w.step();
    assert!(w.cell(1).alive);
    w.set_kills(true);
    assert!(w.kills());
    w.step();
    assert!(!w.cell(1).alive);
    assert_eq!(w.cell(0).kill_count, 1);
    assert_eq!(w.grid().index(Position::new(3, 2)).cell, None);
    assert_eq!(w.grid().index(Position::new(2, 2)).cell, Some(0));
}

#[test]
fn new_world_errors() {
    assert_eq!(World::new_world(5, 0, 10, 10, 1).unwrap_err(), WorldError::EmptyGenome);
    assert_eq!(World::new_world(5, 4, 0, 10, 1).unwrap_err(), WorldError::BadGrid);
    assert_eq!(World::new_world(1, 1, usize::MAX, 2, 1).unwrap_err(), WorldError::BadGrid);
    assert_eq!(World::new_world(1, 1, usize::MAX, 1, 1).unwrap_err(), WorldError::BadGrid);
    assert_eq!(World::new_world(101, 4, 10, 10, 1).unwrap_err(), WorldError::Overcrowded);
}

#[test]
fn new_world_places_agents_apart() {
    let w = World::new_world(100, 4, 10, 10, 9).unwrap();
    assert_eq!(w.population(), 100);
    let mut seen = vec![false; 100];
    let mut headings = Vec::new();
    for i in 0..100 {
        let c = w.cell(i);
        assert_eq!(c.genes, vec![0; 4]);
        assert!(c.position.x < 10 && c.position.y < 10);
        let k = c.position.y * 10 + c.position.x;
        assert!(!seen[k]);
        seen[k] = true;
        assert_eq!(w.grid().index(c.position).cell, Some(i));
        headings.push(c.rotation);
    }
    assert!(headings.iter().any(|h| *h != Compass::North));
    assert!(!w.kills());
}

#[test]
fn new_world_accepts_long_thin_grids() {
    for &(x, y) in [(1usize << 21, 1usize), (1, 1 << 21)].iter() {
        let w = World::new_world(3, 2, x, y, 8).unwrap();
        assert_eq!(w.population(), 3);
        assert_eq!(w.grid().get_x(), x);
        assert_eq!(w.grid().get_y(), y);
        for i in 0..3 {
            let c = w.cell(i);
            assert_eq!(c.genes, vec![0; 2]);
            assert_eq!(c.food_level, 10);
            assert!(c.position.x < x && c.position.y < y);
            assert_eq!(w.grid().index(c.position).cell, Some(i));
        }
        assert_ne!(w.cell(0).position, w.cell(1).position);
        assert_ne!(w.cell(1).position, w.cell(2).position);
        assert_ne!(w.cell(0).position, w.cell(2).position);
    }
}

#[test]
fn agents_sense_and_move_on_a_wide_grid() {
    let x = (1usize << 21) + 5;
    let genes = vec![full_on(MOVE), encode_gene(15, 0, 8192, false, false)];
    let mut w = World::from_cells(vec![agent(x - 2, 0, Compass::East, genes)], x, 1, 1).unwrap();
    w.step();
    assert_eq!(w.cell(0).position, Position::new(x - 1, 0));
    assert_eq!(w.cell(0).last_move, Position::new(1, 0));
    w.step();
    assert_eq!(w.cell(0).position, Position::new(x - 1, 0));
    assert_eq!(w.cell(0).last_move, Position::new(0, 0));
}

#[test]
fn new_world_spreads_a_small_population() {
    let w = World::new_world(20, 1, 50, 50, 4).unwrap();
    let xs: Vec<usize> = (0..20).map(|i| w.cell(i).position.x).collect();
    assert!(xs.iter().any(|x| *x != xs[0]));
}

#[test]
fn from_cells_errors() {
    let off = agent(10, 0, Compass::North, vec![1]);
    assert_eq!(World::from_cells(vec![off], 10, 10, 1).unwrap_err(), WorldError::OffGrid);
    let a = agent(1, 1, Compass::North, vec![1]);
    let b = agent(1, 1, Compass::North, vec![1]);
    assert_eq!(World::from_cells(vec![a, b], 10, 10, 1).unwrap_err(), WorldError::Collision);
    let empty = agent(1, 1, Compass::North, vec![]);
    assert_eq!(World::from_cells(vec![empty], 10, 10, 1).unwrap_err(), WorldError::EmptyGenome);
    let c = agent(1, 1, Compass::North, vec![1]);
    assert_eq!(World::from_cells(vec![c], 0, 10, 1).unwrap_err(), WorldError::BadGrid);
    let mut dead = agent(1, 1, Compass::North, vec![1]);
    dead.alive = false;
    let d = agent(1, 1, Compass::North, vec![1]);
    assert!(World::from_cells(vec![dead, d], 10, 10, 1).is_ok());
}

fn mixed_population(seed: u64) -> Vec<Cell> {
    let mut rng = StdRng::seed_from_u64(seed);
    let mut cells = Vec::new();
    for i in 0..40usize {
        let genes: Vec<i32> = (0..12).map(|_| rng.gen::<i32>()).collect();
        let rotation = match i % 4 {
            0 => Compass::North,
            1 => Compass::South,
            2 => Compass::East,
            _ => Compass::West,
        };
        cells.push(agent((i % 8) * 2, (i / 8) * 3, rotation, genes));
    }
    cells
}

#[test]
fn same_seed_same_world() {
    let mut a = World::from_cells(mixed_population(77), 16, 16, 5).unwrap();
    let mut b = World::from_cells(mixed_population(77), 16, 16, 5).unwrap();
    a.set_kills(true);
    b.set_kills(true);
    for _ in 0..25 {
        a.step();
        b.step();
    }
    assert_eq!(a, b);
}

#[test]
fn step_with_given_draws() {
    let gene = encode_gene(RANDOM, MOVE, 0x7fff, false, false);
    let mut w = World::from_cells(vec![agent(5, 5, Compass::North, vec![gene])], 10, 10, 1).unwrap();
    w.step_with(&vec![vec![-100]], &vec![0]);
    assert_eq!(w.cell(0).position, Position::new(5, 4));
    w.step_with(&vec![vec![0]], &vec![0]);
    assert_eq!(w.cell(0).position, Position::new(5, 4));
    w.step_with(&vec![vec![7]], &vec![0]);
    assert_eq!(w.cell(0).position, Position::new(5, 5));
}
