use classvm::env::VMEnv;
use classvm::interpret::{Interpreter, InterpreterError, Opcode};
use classvm::vm::{VMValue, VM};

#[test]
fn test_basic_math() {
    let vm = VM::new(64);
    let mut env = VMEnv::of(vm, Interpreter::new());
    env.iconst(8);
    env.iconst(2);
    env.iadd().unwrap();
    env.iconst(8);
    env.iadd().unwrap();
    assert_eq!(env.pop(), Ok(VMValue::Int(18)));
}

#[test]
fn add_trace_leaves_sums_on_top() {
    let mut env = VMEnv::of(VM::new(4), Interpreter::new());
    env.iconst(8);
    env.iconst(2);
    env.iadd().unwrap();
    assert_eq!(env.pop(), Ok(VMValue::Int(10)));
    env.iconst(10);
    env.iconst(8);
    env.iadd().unwrap();
    assert_eq!(env.pop(), Ok(VMValue::Int(18)));
    assert_eq!(env.pop(), Err(InterpreterError::StackUnderflow));
}

#[test]
fn decode_small_constants_from_the_opcode() {
    let i = Interpreter::new();
    assert_eq!(i.decode(0x02), Ok(Opcode::IConst(-1)));
    assert_eq!(i.decode(0x03), Ok(Opcode::IConst(0)));
    assert_eq!(i.decode(0x08), Ok(Opcode::IConst(5)));
    assert_eq!(i.decode(0x01), Ok(Opcode::AConstNull));
    assert_eq!(i.decode(0x60), Ok(Opcode::IAdd));
    assert_eq!(i.decode(0x7e), Ok(Opcode::IAnd));
    assert_eq!(i.decode(0x85), Ok(Opcode::I2L));
}

#[test]
fn decode_unassigned_byte_fails() {
    let i = Interpreter::new();
    assert_eq!(i.decode(0xFF), Err(InterpreterError::UnimplementedOpcode(0xFF)));
}

#[test]
fn execute_unassigned_byte_leaves_stack() {
    let mut env = VMEnv::of(VM::new(4), Interpreter::new());
    // iconst_5, iconst_2, then an unassigned byte, then iadd that never runs
    let code: Vec<u8> = vec![0x08, 0x05, 0xFF, 0x60];
    assert_eq!(env.execute(&code), Err(InterpreterError::UnimplementedOpcode(0xFF)));
    assert_eq!(env.pop(), Ok(VMValue::Int(2)));
    assert_eq!(env.pop(), Ok(VMValue::Int(5)));
    assert_eq!(env.pop(), Err(InterpreterError::StackUnderflow));
}

#[test]
fn execute_runs_to_the_end() {
    let mut env = VMEnv::of(VM::new(0), Interpreter::new());
    // iconst_5 iconst_3 iadd iconst_m1 iand i2l
    let code: Vec<u8> = vec![0x08, 0x06, 0x60, 0x02, 0x7e, 0x85];
    assert_eq!(env.execute(&code), Ok(()));
    assert_eq!(env.pop(), Ok(VMValue::Long(8)));
}

#[test]
fn iadd_wraps_on_overflow() {
    let mut env = VMEnv::of(VM::new(2), Interpreter::new());
    env.iconst(i32::MAX);
    env.iconst(1);
    env.iadd().unwrap();
    assert_eq!(env.pop(), Ok(VMValue::Int(i32::MIN)));
}

#[test]
fn narrowing_conversions() {
    let mut env = VMEnv::of(VM::new(2), Interpreter::new());
    env.iconst(0x1_80);
    assert_eq!(env.execute(&vec![0x91]), Ok(()));
    assert_eq!(env.pop(), Ok(VMValue::Int(-128)));
    env.iconst(-1);
    assert_eq!(env.execute(&vec![0x92]), Ok(()));
    assert_eq!(env.pop(), Ok(VMValue::Int(0xFFFF)));
    env.iconst(0x1_8000);
    assert_eq!(env.execute(&vec![0x93]), Ok(()));
    assert_eq!(env.pop(), Ok(VMValue::Int(-32768)));
}

#[test]
fn float_conversion_is_reported() {
    let mut env = VMEnv::of(VM::new(2), Interpreter::new());
    env.iconst(3);
    assert_eq!(env.execute(&vec![0x86]), Err(InterpreterError::UnimplementedOpcode(0x86)));
    assert_eq!(env.pop(), Ok(VMValue::Int(3)));
}

#[test]
fn iadd_on_null_is_a_type_mismatch() {
    let mut env = VMEnv::of(VM::new(2), Interpreter::new());
    env.iconst(1);
    env.aconst_null();
    assert_eq!(env.iadd(), Err(InterpreterError::OperandTypeMismatch));
    assert_eq!(env.pop(), Ok(VMValue::Null));
    assert_eq!(env.pop(), Ok(VMValue::Int(1)));
}

#[test]
fn iadd_on_one_value_underflows() {
    let mut env = VMEnv::of(VM::new(2), Interpreter::new());
    env.iconst(1);
    assert_eq!(env.execute(&vec![0x60]), Err(InterpreterError::StackUnderflow));
    assert_eq!(env.pop(), Ok(VMValue::Int(1)));
}

#[test]
fn pop_empty_stack_underflows() {
    let mut vm = VM::new(8);
    assert_eq!(vm.pop(), Err(InterpreterError::StackUnderflow));
    vm.push(VMValue::Byte(7));
    assert_eq!(vm.pop(), Ok(VMValue::Byte(7)));
    assert_eq!(vm.pop(), Err(InterpreterError::StackUnderflow));
}

#[test]
fn push_after_pop_overwrites_in_place() {
    let mut vm = VM::new(1);
    vm.push(VMValue::Int(1));
    vm.push(VMValue::Int(2));
    assert_eq!(vm.pop(), Ok(VMValue::Int(2)));
    vm.push(VMValue::Int(3));
    assert_eq!(vm.len(), 2);
    assert_eq!(vm.peek(0), Some(VMValue::Int(3)));
    assert_eq!(vm.peek(1), Some(VMValue::Int(1)));
    assert_eq!(vm.peek(2), None);
    assert_eq!(VMValue::Int(-4).as_int(), -4);
}
