use cellsim::fixed::ONE;
use cellsim::network::{actuator_output, is_driven, GeneInput, Wire};
use cellsim::neuron::InternalNeurons;

#[test]
fn self_reference_evaluates_to_activation_of_zero() {
    let ws = vec![Wire { slot: 9, input: GeneInput::Internal(InternalNeurons::Cosh, 8192) }];
    assert_eq!(InternalNeurons::Cosh.handle(&ws), ONE);
    let ws = vec![Wire { slot: 8, input: GeneInput::Internal(InternalNeurons::Tanh, 0x7fff) }];
    assert_eq!(InternalNeurons::Tanh.handle(&ws), 0);
    let ws = vec![Wire { slot: 13, input: GeneInput::Internal(InternalNeurons::Avg, 0x7fff) }];
    assert_eq!(InternalNeurons::Avg.handle(&ws), 0);
}

#[test]
fn two_neuron_cycle_is_cut() {
    // Tanh reads Cosh, Cosh reads Tanh: inside Cosh the wire back to Tanh
    // carries 0, so Cosh gives cosh(0) = 1 and Tanh gives tanh(1).
    let ws = vec![
        Wire { slot: 8, input: GeneInput::Internal(InternalNeurons::Cosh, 8192) },
        Wire { slot: 9, input: GeneInput::Internal(InternalNeurons::Tanh, 8192) },
    ];
    assert_eq!(InternalNeurons::Tanh.handle(&ws), 50972);
}

#[test]
fn inputs_to_one_slot_accumulate() {
    let ws = vec![
        Wire { slot: 3, input: GeneInput::Input(ONE / 2) },
        Wire { slot: 3, input: GeneInput::Input(ONE / 2) },
        Wire { slot: 4, input: GeneInput::Input(-ONE) },
    ];
    assert_eq!(actuator_output(&ws, 3), 50972);
    assert_eq!(actuator_output(&ws, 4), -50972);
    assert_eq!(actuator_output(&ws, 5), 0);
    assert!(is_driven(&ws, 3));
    assert!(!is_driven(&ws, 5));
}

#[test]
fn internal_output_feeds_actuator_with_weight() {
    // Sqrt of 4 is 2; the weight 4096 halves it to 1; the actuator reads tanh(1).
    let ws = vec![
        Wire { slot: 14, input: GeneInput::Input(4 * ONE) },
        Wire { slot: 0, input: GeneInput::Internal(InternalNeurons::Sqrt, 4096) },
    ];
    assert_eq!(InternalNeurons::Sqrt.handle(&ws), 2 * ONE);
    assert_eq!(actuator_output(&ws, 0), 50972);
}
