use autochthon::engine::{ExecutionEffect, Interpreter, ScriptedIo, IO};
use autochthon::machine::{ExecutionError, MachineState};

fn interpreter(code: Vec<u8>, data: Vec<u8>, stack_base: usize, call_max: usize) -> Interpreter {
    Interpreter::new(MachineState::new(code, data, stack_base, call_max))
}

fn quiet() -> ScriptedIo {
    ScriptedIo::new(Vec::new())
}

#[test]
fn fill_then_add_doubles() {
    // Fill(42, 3); Add(5, 3, 3); Exit.
    let code = vec![10, 0, 0, 0, 42, 3, 12, 5, 3, 3, 5];
    let mut vm = interpreter(code, Vec::new(), 0, 0);
    let mut io = quiet();
    assert_eq!(vm.step(&mut io), ExecutionEffect::StateChange);
    assert_eq!(vm.step(&mut io), ExecutionEffect::StateChange);
    assert_eq!(vm.state.read_register(5), 84);
    assert_eq!(vm.step(&mut io), ExecutionEffect::Exit);
}

#[test]
fn each_plain_instruction_advances_ip_by_its_size() {
    // Nop; Debug; Fill(1, 0); WriteByte(0); Exit.
    let code = vec![11, 4, 10, 0, 0, 0, 1, 0, 2, 0, 5];
    let mut vm = interpreter(code, Vec::new(), 0, 0);
    let mut io = quiet();
    assert_eq!(vm.step(&mut io), ExecutionEffect::StateChange);
    assert_eq!(vm.state.ip(), 1);
    assert_eq!(vm.step(&mut io), ExecutionEffect::StateChange);
    assert_eq!(vm.state.ip(), 2);
    assert_eq!(vm.step(&mut io), ExecutionEffect::StateChange);
    assert_eq!(vm.state.ip(), 8);
    assert_eq!(vm.step(&mut io), ExecutionEffect::StateChange);
    assert_eq!(vm.state.ip(), 10);
    assert_eq!(vm.step(&mut io), ExecutionEffect::Exit);
    assert_eq!(vm.state.ip(), 11);
}

#[test]
fn ip_at_code_end_is_unable_to_fetch() {
    let code = vec![11];
    let mut vm = interpreter(code, Vec::new(), 0, 0);
    let mut io = quiet();
    assert_eq!(vm.step(&mut io), ExecutionEffect::StateChange);
    assert_eq!(vm.state.ip(), 1);
    assert_eq!(
        vm.step(&mut io),
        ExecutionEffect::Error(ExecutionError::UnableToFetch)
    );
}

#[test]
fn unknown_opcode_is_an_invalid_instruction() {
    let mut vm = interpreter(vec![16], Vec::new(), 0, 0);
    let mut io = quiet();
    assert_eq!(
        vm.step(&mut io),
        ExecutionEffect::Error(ExecutionError::InvalidInstruction)
    );
}

#[test]
fn call_then_ret_resumes_after_the_call() {
    // 0: Call(6); 5: Exit; 6: Ret.
    let code = vec![0, 0, 0, 0, 6, 5, 1];
    let mut vm = interpreter(code, Vec::new(), 0, 8);
    let mut io = quiet();
    assert_eq!(vm.step(&mut io), ExecutionEffect::StateChange);
    assert_eq!(vm.state.ip(), 6);
    assert_eq!(vm.state.call_depth(), 1);
    assert_eq!(vm.step(&mut io), ExecutionEffect::StateChange);
    assert_eq!(vm.state.ip(), 5);
    assert_eq!(vm.state.call_depth(), 0);
    assert_eq!(vm.step(&mut io), ExecutionEffect::Exit);
}

#[test]
fn call_at_the_bound_overflows() {
    let code = vec![0, 0, 0, 0, 0];
    let mut vm = interpreter(code, Vec::new(), 0, 0);
    let mut io = quiet();
    assert_eq!(
        vm.step(&mut io),
        ExecutionEffect::Error(ExecutionError::StackOverflow)
    );
    assert_eq!(vm.state.ip(), 0);
    assert_eq!(vm.state.call_depth(), 0);
}

#[test]
fn ret_on_an_empty_call_stack_underflows() {
    let mut vm = interpreter(vec![1], Vec::new(), 0, 8);
    let mut io = quiet();
    assert_eq!(
        vm.step(&mut io),
        ExecutionEffect::Error(ExecutionError::StackUnderflow)
    );
}

#[test]
fn push_then_pop_restores_register_and_sp() {
    // Fill(7, 2); Push(2); Pop(2); Exit.
    let code = vec![10, 0, 0, 0, 7, 2, 8, 2, 9, 2, 5];
    let mut vm = interpreter(code, vec![0; 8], 4, 0);
    let mut io = quiet();
    assert_eq!(vm.step(&mut io), ExecutionEffect::StateChange);
    assert_eq!(vm.step(&mut io), ExecutionEffect::StateChange);
    assert_eq!(vm.state.sp(), 0);
    assert_eq!(vm.step(&mut io), ExecutionEffect::StateChange);
    assert_eq!(vm.state.sp(), 4);
    assert_eq!(vm.state.read_register(2), 7);
}

#[test]
fn pop_sees_the_pushed_value_after_a_clobber() {
    // Fill(7, 2); Push(2); Fill(0, 2); Pop(2); Exit.
    let code = vec![10, 0, 0, 0, 7, 2, 8, 2, 10, 0, 0, 0, 0, 2, 9, 2, 5];
    let mut vm = interpreter(code, vec![0; 8], 4, 0);
    let mut io = quiet();
    for _ in 0..4 {
        assert_eq!(vm.step(&mut io), ExecutionEffect::StateChange);
    }
    assert_eq!(vm.state.read_register(2), 7);
    assert_eq!(vm.state.sp(), 4);
}

#[test]
fn push_below_the_data_region_overflows() {
    let mut vm = interpreter(vec![8, 0], vec![0; 8], 0, 0);
    let mut io = quiet();
    assert_eq!(
        vm.step(&mut io),
        ExecutionEffect::Error(ExecutionError::StackOverflow)
    );
    assert_eq!(vm.state.sp(), 0);
}

#[test]
fn pop_at_the_stack_base_underflows() {
    let mut vm = interpreter(vec![9, 0], vec![0; 8], 4, 0);
    let mut io = quiet();
    assert_eq!(
        vm.step(&mut io),
        ExecutionEffect::Error(ExecutionError::StackUnderflow)
    );
    assert_eq!(vm.state.sp(), 4);
}

#[test]
fn store_then_load_round_trips_through_memory() {
    // Fill(1234, 1); Store(1, 0); Load(0, 9); Exit.
    let code = vec![10, 0, 0, 0x04, 0xD2, 1, 7, 1, 0, 0, 0, 0, 6, 0, 0, 0, 0, 9, 5];
    let mut vm = interpreter(code, vec![0; 8], 0, 0);
    let mut io = quiet();
    assert_eq!(vm.step(&mut io), ExecutionEffect::StateChange);
    assert_eq!(vm.step(&mut io), ExecutionEffect::StateChange);
    assert_eq!(vm.state.read_word(0), Ok(1234));
    assert_eq!(vm.step(&mut io), ExecutionEffect::StateChange);
    assert_eq!(vm.state.read_register(9), 1234);
}

#[test]
fn word_access_outside_data_is_out_of_bounds() {
    // Load(5, 0) with an 8-byte data segment.
    let mut vm = interpreter(vec![6, 0, 0, 0, 5, 0], vec![0; 8], 0, 0);
    let mut io = quiet();
    assert_eq!(
        vm.step(&mut io),
        ExecutionEffect::Error(ExecutionError::OutOfBounds)
    );
    // Store at a negative address.
    let mut vm = interpreter(vec![7, 0, 0xFF, 0xFF, 0xFF, 0xFF], vec![0; 8], 0, 0);
    assert_eq!(
        vm.step(&mut io),
        ExecutionEffect::Error(ExecutionError::OutOfBounds)
    );
    assert_eq!(vm.state.read_word(-1), Err(ExecutionError::OutOfBounds));
    assert_eq!(vm.state.read_word(8), Err(ExecutionError::OutOfBounds));
}

#[test]
fn division_truncates_toward_zero() {
    // Fill(a, 1); Fill(b, 2); Divide(3, 1, 2); Exit.
    let cases: [(i32, i32, i32); 6] =
        [(7, 2, 3), (-7, 2, -3), (7, -2, -3), (-7, -2, 3), (0, 5, 0), (i32::MIN, -1, i32::MIN)];
    for (a, b, q) in cases {
        let ab = a.to_be_bytes();
        let bb = b.to_be_bytes();
        let mut code = vec![10, ab[0], ab[1], ab[2], ab[3], 1];
        code.extend_from_slice(&[10, bb[0], bb[1], bb[2], bb[3], 2]);
        code.extend_from_slice(&[15, 3, 1, 2, 5]);
        let mut vm = interpreter(code, Vec::new(), 0, 0);
        let mut io = quiet();
        for _ in 0..3 {
            assert_eq!(vm.step(&mut io), ExecutionEffect::StateChange);
        }
        assert_eq!(vm.state.read_register(3), q, "{} / {}", a, b);
    }
}

#[test]
fn divide_by_zero_faults_without_touching_dest() {
    // Fill(5, 1); Fill(9, 3); Divide(3, 1, 0); register 0 holds zero.
    let code = vec![10, 0, 0, 0, 5, 1, 10, 0, 0, 0, 9, 3, 15, 3, 1, 0, 5];
    let mut vm = interpreter(code, Vec::new(), 0, 0);
    let mut io = quiet();
    assert_eq!(vm.step(&mut io), ExecutionEffect::StateChange);
    assert_eq!(vm.step(&mut io), ExecutionEffect::StateChange);
    assert_eq!(
        vm.step(&mut io),
        ExecutionEffect::Error(ExecutionError::DivideByZero)
    );
    assert_eq!(vm.state.read_register(3), 9);
    assert_eq!(vm.state.ip(), 12);
}

#[test]
fn arithmetic_wraps_two_complement() {
    // Fill(MAX, 1); Fill(1, 2); Add(3, 1, 2).
    let mx = i32::MAX.to_be_bytes();
    let code = vec![
        10, mx[0], mx[1], mx[2], mx[3], 1, 10, 0, 0, 0, 1, 2, 12, 3, 1, 2, 5,
    ];
    let mut vm = interpreter(code, Vec::new(), 0, 0);
    let mut io = quiet();
    for _ in 0..3 {
        assert_eq!(vm.step(&mut io), ExecutionEffect::StateChange);
    }
    assert_eq!(vm.state.read_register(3), i32::MIN);

    // Fill(MIN, 1); Fill(1, 2); Subtract(3, 1, 2).
    let mn = i32::MIN.to_be_bytes();
    let code = vec![
        10, mn[0], mn[1], mn[2], mn[3], 1, 10, 0, 0, 0, 1, 2, 13, 3, 1, 2, 5,
    ];
    let mut vm = interpreter(code, Vec::new(), 0, 0);
    for _ in 0..3 {
        assert_eq!(vm.step(&mut io), ExecutionEffect::StateChange);
    }
    assert_eq!(vm.state.read_register(3), i32::MAX);

    // Fill(65536, 1); Multiply(3, 1, 1) wraps to zero.
    let code = vec![10, 0, 1, 0, 0, 1, 14, 3, 1, 1, 5];
    let mut vm = interpreter(code, Vec::new(), 0, 0);
    for _ in 0..2 {
        assert_eq!(vm.step(&mut io), ExecutionEffect::StateChange);
    }
    assert_eq!(vm.state.read_register(3), 0);
}

#[test]
fn write_byte_emits_the_low_byte() {
    // Fill(321, 1); WriteByte(1); Exit. 321 = 0x141, low byte 0x41.
    let code = vec![10, 0, 0, 0x01, 0x41, 1, 2, 1, 5];
    let mut vm = interpreter(code, Vec::new(), 0, 0);
    let mut io = quiet();
    assert_eq!(vm.step(&mut io), ExecutionEffect::StateChange);
    assert_eq!(vm.step(&mut io), ExecutionEffect::StateChange);
    assert_eq!(vm.step(&mut io), ExecutionEffect::Exit);
    assert_eq!(io.output_bytes(), &vec![0x41]);
}

#[test]
fn read_byte_stores_zero_extended_input() {
    // ReadByte(4); ReadByte(6); Exit.
    let code = vec![3, 4, 3, 6, 5];
    let mut vm = interpreter(code, Vec::new(), 0, 0);
    let mut io = ScriptedIo::new(vec![0xFF]);
    assert_eq!(vm.step(&mut io), ExecutionEffect::StateChange);
    assert_eq!(vm.state.read_register(4), 255);
    assert_eq!(io.bytes_read(), 1);
    // The script is exhausted: further reads yield zero.
    assert_eq!(vm.step(&mut io), ExecutionEffect::StateChange);
    assert_eq!(vm.state.read_register(6), 0);
    assert_eq!(vm.step(&mut io), ExecutionEffect::Exit);
}

#[test]
fn scripted_io_reads_in_order() {
    let mut io = ScriptedIo::new(vec![10, 20]);
    assert_eq!(io.read_byte(), 10);
    assert_eq!(io.read_byte(), 20);
    assert_eq!(io.read_byte(), 0);
    io.write_byte(9);
    io.write_byte(8);
    assert_eq!(io.output_bytes(), &vec![9, 8]);
}

#[test]
fn fresh_machine_starts_zeroed() {
    let state = MachineState::new(vec![5], vec![0; 16], 12, 4);
    assert_eq!(state.ip(), 0);
    assert_eq!(state.sp(), 12);
    assert_eq!(state.bp(), 12);
    assert_eq!(state.call_depth(), 0);
    assert_eq!(state.code_len(), 1);
    assert_eq!(state.data_len(), 16);
    assert_eq!(state.read_register(0), 0);
    assert_eq!(state.read_register(255), 0);
}

#[test]
fn a_loaded_image_runs_to_exit() {
    // Image: empty symbol table, data [0;4], code Fill(3, 0); Exit.
    let mut image = vec![0, 0, 0, 12, 0, 0, 0, 12, 0, 0, 0, 16];
    image.extend_from_slice(&[0, 0, 0, 0]);
    image.extend_from_slice(&[10, 0, 0, 0, 3, 0, 5]);
    let p = autochthon::loader::LoadedProgram::from_binary_bytes(image).expect("load");
    let stack_base = p.data.len();
    let mut vm = Interpreter::new(MachineState::new(p.code, p.data, stack_base, 64));
    let mut io = quiet();
    assert_eq!(vm.step(&mut io), ExecutionEffect::StateChange);
    assert_eq!(vm.step(&mut io), ExecutionEffect::Exit);
    assert_eq!(vm.state.read_register(0), 3);
}
