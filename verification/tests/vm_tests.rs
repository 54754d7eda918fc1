use intcode::machine::IoPorts;
use intcode::machine::Machine;
use intcode::semantics::Control;
use intcode::semantics::Fault;
use intcode::semantics::RunResult;

const FUEL: u64 = 1_000_000;

fn run(program: Vec<i64>, inputs: Vec<i64>) -> (Machine, IoPorts, RunResult) {
    let mut m = Machine::new(program);
    let mut io = IoPorts::new(inputs);
    let r = m.execute(&mut io, FUEL);
    (m, io, r)
}

#[test]
fn self_add_halts() {
    let (m, _io, r) = run(vec![1, 0, 0, 0, 99], vec![]);
    assert_eq!(r, RunResult::Halted);
    assert_eq!(m.memory[0], 2);
    assert_eq!(m.memory, vec![2, 0, 0, 0, 99]);
}

#[test]
fn immediate_mode_negative_literal() {
    let (m, _io, r) = run(vec![1101, 100, -1, 4, 0], vec![]);
    assert_eq!(r, RunResult::Halted);
    assert_eq!(m.memory[4], 99);
}

#[test]
fn echo_input_to_output() {
    let (m, io, r) = run(vec![3, 0, 4, 0, 99], vec![42]);
    assert_eq!(r, RunResult::Halted);
    assert_eq!(io.outputs, vec![42]);
    assert_eq!(m.memory[0], 42);
}

#[test]
fn large_literal_passes_unchanged() {
    let (_m, io, r) = run(vec![104, 1125899906842624, 99], vec![]);
    assert_eq!(r, RunResult::Halted);
    assert_eq!(io.outputs, vec![1125899906842624]);
}

#[test]
fn unrecognized_opcode_faults() {
    let (_m, _io, r) = run(vec![5555], vec![]);
    assert_eq!(r, RunResult::Faulted(Fault::UnrecognizedOpcode(5555, 0)));
}

#[test]
fn mode_digits_decode() {
    let m = Machine::new(vec![99]);
    assert_eq!(m.parameter_modes(1002), vec![0, 1, 0]);
    assert_eq!(1002 % 100, 2);
}

#[test]
fn mode_digits_drive_execution() {
    let (m, _io, r) = run(vec![1002, 4, 3, 4, 33], vec![]);
    assert_eq!(r, RunResult::Halted);
    assert_eq!(m.memory[4], 99);
}

#[test]
fn memory_growth_zero_fills_and_preserves() {
    let mut m = Machine::new(vec![1, 2, 3]);
    assert_eq!(m.update_mem(6, 9), Ok(()));
    assert_eq!(m.memory, vec![1, 2, 3, 0, 0, 0, 9]);
}

#[test]
fn memory_growth_through_a_program() {
    let (m, _io, r) = run(vec![1101, 5, 6, 7, 99], vec![]);
    assert_eq!(r, RunResult::Halted);
    assert_eq!(m.memory, vec![1101, 5, 6, 7, 99, 0, 0, 11]);
}

#[test]
fn read_beyond_length_is_zero() {
    let m = Machine::new(vec![1]);
    assert_eq!(m.read_mem(100), 0);
}

#[test]
fn jump_if_false_not_taken_advances_three() {
    let (_m, io, r) = run(vec![1106, 1, 0, 104, 9, 99], vec![]);
    assert_eq!(r, RunResult::Halted);
    assert_eq!(io.outputs, vec![9]);
}

#[test]
fn jump_if_false_handler_consumes_two_parameters() {
    let mut m = Machine::new(vec![1106, 1, 0, 99]);
    let r = m.jump_arg_zero(vec![1, 0, 0]);
    assert_eq!(r, Ok(Control::Advance(2)));
    assert_eq!(m.instruction_ptr, 0);
}

#[test]
fn jump_if_false_taken() {
    let (_m, _io, r) = run(vec![1106, 0, 4, -1, 99], vec![]);
    assert_eq!(r, RunResult::Halted);
}

#[test]
fn jump_if_true_taken_and_not_taken() {
    let (_m, _io, r) = run(vec![1105, 1, 4, -1, 99], vec![]);
    assert_eq!(r, RunResult::Halted);
    let (_m2, io2, r2) = run(vec![1105, 0, 4, 104, 7, 99], vec![]);
    assert_eq!(r2, RunResult::Halted);
    assert_eq!(io2.outputs, vec![7]);
}

#[test]
fn relative_base_offsets_addresses() {
    let (_m, io, r) = run(vec![109, 5, 204, 3, 99, 0, 0, 0, 42], vec![]);
    assert_eq!(r, RunResult::Halted);
    assert_eq!(io.outputs, vec![42]);
}

#[test]
fn relative_parameter_resolves_through_base() {
    let mut m = Machine::new(vec![204, 3]);
    m.rel_base_ptr = 5;
    let r = m.ptr_to_value(1, &vec![2, 0, 0]);
    assert_eq!(r, Ok(8));
}

#[test]
fn less_than_operand_order() {
    let (m, _io, r) = run(vec![1107, 2, 3, 5, 99, -1], vec![]);
    assert_eq!(r, RunResult::Halted);
    assert_eq!(m.memory[5], 1);
    let (m2, _io2, r2) = run(vec![1107, 3, 2, 5, 99, -1], vec![]);
    assert_eq!(r2, RunResult::Halted);
    assert_eq!(m2.memory[5], 0);
}

#[test]
fn equals_stores_zero_or_one() {
    let (m, _io, _r) = run(vec![1108, 3, 3, 5, 99, -1], vec![]);
    assert_eq!(m.memory[5], 1);
    let (m2, _io2, _r2) = run(vec![1108, 3, 4, 5, 99, -1], vec![]);
    assert_eq!(m2.memory[5], 0);
}

#[test]
fn multiply_stores_product() {
    let (m, _io, r) = run(vec![2, 3, 0, 3, 99], vec![]);
    assert_eq!(r, RunResult::Halted);
    assert_eq!(m.memory[3], 6);
}

#[test]
fn empty_input_queue_parks_then_resumes() {
    let mut m = Machine::new(vec![3, 0, 4, 0, 99]);
    let mut io = IoPorts::new(vec![]);
    let r = m.execute(&mut io, FUEL);
    assert_eq!(r, RunResult::AwaitingInput);
    io.push_input(7);
    let r2 = m.execute(&mut io, FUEL);
    assert_eq!(r2, RunResult::Halted);
    assert_eq!(io.outputs, vec![7]);
}

#[test]
fn negative_address_faults() {
    let (_m, _io, r) = run(vec![4, -1, 99], vec![]);
    assert_eq!(r, RunResult::Faulted(Fault::NegativeAddress));
}

#[test]
fn negative_jump_target_faults() {
    let (_m, _io, r) = run(vec![1105, 1, -3, 99], vec![]);
    assert_eq!(r, RunResult::Faulted(Fault::NegativeAddress));
}

#[test]
fn unknown_mode_digit_faults() {
    let (_m, _io, r) = run(vec![304, 0, 99], vec![]);
    assert_eq!(r, RunResult::Faulted(Fault::UnrecognizedParameterMode(0)));
}

#[test]
fn write_past_addressable_range_faults() {
    let (_m, _io, r) = run(vec![109, 9223372036854775807, 21101, 0, 0, 1, 99], vec![]);
    assert_eq!(r, RunResult::Faulted(Fault::OutOfMemory));
}

#[test]
fn update_mem_refuses_unaddressable_cell() {
    let mut m = Machine::new(vec![99]);
    let r = m.update_mem(0x8000_0000_0000_0000, 1);
    assert_eq!(r, Err(Fault::OutOfMemory));
    assert_eq!(m.memory, vec![99]);
}

#[test]
fn fuel_runs_out_on_a_spinning_program() {
    let (_m, _io, r) = run(vec![1106, 0, 0], vec![]);
    assert_eq!(r, RunResult::Running);
}

#[test]
fn halted_machine_stays_halted() {
    let mut m = Machine::new(vec![99]);
    let mut io = IoPorts::new(vec![]);
    assert_eq!(m.execute(&mut io, FUEL), RunResult::Halted);
    assert_eq!(m.execute(&mut io, FUEL), RunResult::Halted);
}

#[test]
fn wrapping_add_at_the_64_bit_edge() {
    let (m, _io, r) = run(
        vec![1101, i64::MAX, 1, 5, 99, -1],
        vec![],
    );
    assert_eq!(r, RunResult::Halted);
    assert_eq!(m.memory[5], i64::MIN);
}
