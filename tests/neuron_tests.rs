use cellsim::cell::{Cell, Compass, Oscilator};
use cellsim::fixed::{cosh, isqrt, sinh, tanh, weigh, ONE};
use cellsim::grid::Position;
use cellsim::neuron::{InputNeurons, InternalNeurons, OutputNeurons};
use cellsim::world::World;

fn agent(x: usize, y: usize, rotation: Compass) -> Cell {
    Cell {
        genes: vec![0],
        position: Position::new(x, y),
        last_move: Position::new(0, 0),
        food_level: 10,
        kill_count: 0,
        alive: true,
        rotation,
        oscilator: Oscilator { counter: 0, frequency: 6554, state: false },
    }
}

#[test]
fn from_int_reduces_modulo_the_kind_count() {
    assert_eq!(InputNeurons::from_int(22), InputNeurons::Random);
    assert_eq!(InputNeurons::from_int(27), InputNeurons::FoodDensity);
    assert_eq!(InputNeurons::from_int(23), InputNeurons::Oscilator);
    assert_eq!(InputNeurons::from_int(-3), InputNeurons::Random);
    assert_eq!(InputNeurons::from_int(-24), InputNeurons::FoodLeftRight);
    assert_eq!(InternalNeurons::from_int(13), InternalNeurons::Avg);
    assert_eq!(InternalNeurons::from_int(-1), InternalNeurons::Tanh);
    assert_eq!(OutputNeurons::from_int(3), OutputNeurons::Move);
    assert_eq!(OutputNeurons::from_int(127), OutputNeurons::KillFoward);
    assert_eq!(OutputNeurons::from_int(-1), OutputNeurons::KillFoward);
    assert_eq!(OutputNeurons::from_int(-8), OutputNeurons::SetOscilator);
}

#[test]
fn fixed_point_tanh() {
    assert_eq!(tanh(0), 0);
    assert_eq!(tanh(ONE), 50972);
    assert_eq!(tanh(-ONE), -50972);
    assert_eq!(tanh(ONE / 2), 30527);
    assert_eq!(tanh(3 * ONE), ONE);
    assert_eq!(tanh(-10 * ONE), -ONE);
}

#[test]
fn fixed_point_hyperbolics() {
    assert_eq!(cosh(0), ONE);
    assert_eq!(sinh(0), 0);
    assert_eq!(cosh(ONE), 100950);
    assert_eq!(sinh(ONE), 76786);
    assert_eq!(sinh(-2 * ONE), -237573);
    assert_eq!(cosh(40 * ONE), 0);
    assert_eq!(sinh(-40 * ONE), 0);
}

#[test]
fn integer_square_root() {
    assert_eq!(isqrt(0), 0);
    assert_eq!(isqrt(15), 3);
    assert_eq!(isqrt(16), 4);
    assert_eq!(isqrt(4 * ONE * ONE), 2 * ONE);
}

#[test]
fn weights_scale_by_an_eighth_of_a_thousand() {
    assert_eq!(weigh(ONE, 8192), ONE);
    assert_eq!(weigh(ONE, 0x7fff), 262136);
    assert_eq!(weigh(ONE, 0x8000), -4 * ONE);
    assert_eq!(weigh(-ONE, 4096), -ONE / 2);
    assert_eq!(weigh(ONE, 0), 0);
}

#[test]
fn activations() {
    assert_eq!(InternalNeurons::Tanh.activate(ONE, 1), 50972);
    assert_eq!(InternalNeurons::Abs.activate(-ONE, 1), 50972);
    assert_eq!(InternalNeurons::Neg.activate(ONE, 1), -50972);
    assert_eq!(InternalNeurons::Cosh.activate(0, 1), ONE);
    assert_eq!(InternalNeurons::Sinh.activate(ONE, 1), 76786);
    assert_eq!(InternalNeurons::Avg.activate(10, 3), 3);
    assert_eq!(InternalNeurons::Avg.activate(-10, 3), -3);
    assert_eq!(InternalNeurons::Avg.activate(10, 0), 0);
    assert_eq!(InternalNeurons::Sqrt.activate(4 * ONE, 2), 2 * ONE);
    assert_eq!(InternalNeurons::Sqrt.activate(-ONE, 1), 0);
    assert_eq!(InternalNeurons::InverseSqrt.activate(4 * ONE, 1), ONE / 2);
    assert_eq!(InternalNeurons::InverseSqrt.activate(0, 1), 0);
    assert_eq!(InternalNeurons::InverseSqrt.activate(-4, 1), 0);
}

#[test]
fn spatial_sensors() {
    let mut w = World::from_cells(vec![agent(5, 5, Compass::North)], 10, 10, 1).unwrap();
    w.set_food(Position::new(6, 5), true);
    w.set_food(Position::new(5, 4), true);
    let c = w.cell(0);
    let g = w.grid();
    assert_eq!(InputNeurons::FoodLeftRight.handle(c, g, 0), ONE);
    assert_eq!(InputNeurons::FoodUpDown.handle(c, g, 0), -ONE);
    assert_eq!(InputNeurons::FoodForward.handle(c, g, 0), -ONE);
    assert_eq!(InputNeurons::FoodDensity.handle(c, g, 0), 14563);
    assert_eq!(InputNeurons::PopDensity.handle(c, g, 0), 7281);
    assert_eq!(InputNeurons::PopLeftRight.handle(c, g, 0), 0);
    assert_eq!(InputNeurons::PheromoneDensity.handle(c, g, 0), 0);
}

#[test]
fn positional_and_inner_sensors() {
    let w = World::from_cells(vec![agent(5, 0, Compass::East)], 10, 10, 1).unwrap();
    let c = w.cell(0);
    let g = w.grid();
    assert_eq!(InputNeurons::LocationX.handle(c, g, 0), 7281);
    assert_eq!(InputNeurons::LocationY.handle(c, g, 0), -ONE);
    assert_eq!(InputNeurons::Oscilator.handle(c, g, 0), -ONE);
    assert_eq!(InputNeurons::Random.handle(c, g, -1234), -1234);
    assert_eq!(InputNeurons::LastMoveX.handle(c, g, 0), 0);
    assert_eq!(InputNeurons::Age.handle(c, g, 0), 0);
    assert_eq!(InputNeurons::KillCount.handle(c, g, 0), 0);
    assert_eq!(InputNeurons::GeneticSimilarity.handle(c, g, 0), 0);
}

#[test]
fn location_on_a_wide_grid() {
    let x = (1usize << 22) + 1;
    let w = World::from_cells(vec![agent(x - 1, 0, Compass::East)], x, 1, 1).unwrap();
    assert_eq!(InputNeurons::LocationX.handle(w.cell(0), w.grid(), 0), ONE);
    assert_eq!(InputNeurons::LocationY.handle(w.cell(0), w.grid(), 0), 0);
    let w = World::from_cells(vec![agent(x / 2, 0, Compass::East)], x, 1, 1).unwrap();
    assert_eq!(InputNeurons::LocationX.handle(w.cell(0), w.grid(), 0), 0);
}

#[test]
fn boundary_repeats_the_edge_tile() {
    let mut w = World::from_cells(vec![agent(0, 0, Compass::West)], 4, 4, 1).unwrap();
    w.set_food(Position::new(0, 0), true);
    let c = w.cell(0);
    let g = w.grid();
    // The probe one step west of column 0 reads column 0 itself.
    assert_eq!(InputNeurons::FoodLeftRight.handle(c, g, 0), -ONE);
    assert_eq!(InputNeurons::FoodForward.handle(c, g, 0), ONE);
    assert_eq!(InputNeurons::BlockageForward.handle(c, g, 0), ONE);
}
