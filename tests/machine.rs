use bytecode_vm::{
    dissamble_chunk, Arithmetic, Chunk, InstructionKind, InterpretError, InterpretResult, OpCode,
    Outcome, Value, ValueArray, VM,
};

fn num(x: f64) -> Value {
    Value::from_bits(x.to_bits())
}

fn as_f64(v: Value) -> f64 {
    f64::from_bits(v.to_bits())
}

fn compute(a: Arithmetic) -> Value {
    match a {
        Arithmetic::Negate(x) => num(-as_f64(x)),
        Arithmetic::Add(x, y) => num(as_f64(x) + as_f64(y)),
        Arithmetic::Subtract(x, y) => num(as_f64(x) - as_f64(y)),
        Arithmetic::Multiply(x, y) => num(as_f64(x) * as_f64(y)),
        Arithmetic::Divide(x, y) => num(as_f64(x) / as_f64(y)),
    }
}

fn finish(vm: &mut VM, first: Outcome) -> InterpretResult {
    let mut outcome = first;
    loop {
        match outcome {
            Outcome::Finished(r) => return r,
            Outcome::Compute(a) => outcome = vm.resume(compute(a)),
        }
    }
}

fn execute(vm: &mut VM) -> InterpretResult {
    let first = vm.interpret();
    finish(vm, first)
}

fn op(c: &mut Chunk, o: OpCode) {
    c.write(o.into(), 1);
}

#[test]
fn negate_constant_runs_to_ok() {
    let mut chunk = Chunk::default();
    let constant = chunk.add_constant(num(1.2));
    chunk.write(OpCode::Constant.into(), 123);
    chunk.write(constant as u8, 123);
    chunk.write(OpCode::Negate.into(), 123);
    chunk.write(OpCode::Return.into(), 123);
    let mut vm = VM::new(&chunk, b"");
    assert_eq!(execute(&mut vm), Ok(()));
    assert_eq!(as_f64(vm.stack_top().unwrap()), -1.2);
    assert_eq!(vm.stack_len(), 1);
}

#[test]
fn add_two_constants() {
    let mut chunk = Chunk::new();
    assert_eq!(chunk.add_constant(num(2.0)), 0);
    assert_eq!(chunk.add_constant(num(3.0)), 1);
    op(&mut chunk, OpCode::Constant);
    chunk.write(0, 1);
    op(&mut chunk, OpCode::Constant);
    chunk.write(1, 1);
    op(&mut chunk, OpCode::Add);
    op(&mut chunk, OpCode::Return);
    let mut vm = VM::new(&chunk, b"");
    assert_eq!(execute(&mut vm), Ok(()));
    assert_eq!(as_f64(vm.stack_top().unwrap()), 5.0);
}

#[test]
fn operands_are_handed_over_left_then_right() {
    let mut chunk = Chunk::new();
    let a = chunk.add_constant(num(5.0));
    let b = chunk.add_constant(num(3.0));
    op(&mut chunk, OpCode::Constant);
    chunk.write(a as u8, 1);
    op(&mut chunk, OpCode::Constant);
    chunk.write(b as u8, 1);
    op(&mut chunk, OpCode::Subtract);
    op(&mut chunk, OpCode::Return);
    let mut vm = VM::new(&chunk, b"");
    let first = vm.run();
    assert_eq!(first, Outcome::Compute(Arithmetic::Subtract(num(5.0), num(3.0))));
    assert_eq!(vm.stack_len(), 0);
    assert_eq!(finish(&mut vm, first), Ok(()));
    assert_eq!(as_f64(vm.stack_top().unwrap()), 2.0);
}

#[test]
fn multiply_and_divide() {
    let mut chunk = Chunk::new();
    let a = chunk.add_constant(num(6.0));
    let b = chunk.add_constant(num(4.0));
    let z = chunk.add_constant(num(0.0));
    for (i, o) in [(a, None), (b, Some(OpCode::Multiply)), (z, Some(OpCode::Divide))] {
        op(&mut chunk, OpCode::Constant);
        chunk.write(i as u8, 1);
        if let Some(o) = o {
            op(&mut chunk, o);
        }
    }
    op(&mut chunk, OpCode::Return);
    let mut vm = VM::new(&chunk, b"");
    assert_eq!(execute(&mut vm), Ok(()));
    assert_eq!(as_f64(vm.stack_top().unwrap()), f64::INFINITY);
}

#[test]
fn add_on_empty_stack_is_runtime_error() {
    let mut chunk = Chunk::new();
    op(&mut chunk, OpCode::Add);
    op(&mut chunk, OpCode::Return);
    let mut vm = VM::new(&chunk, b"");
    assert_eq!(execute(&mut vm), Err(InterpretError::RuntimeError));
    assert_eq!(vm.stack_len(), 0);
}

#[test]
fn negate_on_empty_stack_is_runtime_error() {
    let mut chunk = Chunk::new();
    op(&mut chunk, OpCode::Negate);
    op(&mut chunk, OpCode::Return);
    let mut vm = VM::new(&chunk, b"");
    assert_eq!(execute(&mut vm), Err(InterpretError::RuntimeError));
}

#[test]
fn binary_with_one_operand_is_runtime_error() {
    let mut chunk = Chunk::new();
    let a = chunk.add_constant(num(1.0));
    op(&mut chunk, OpCode::Constant);
    chunk.write(a as u8, 1);
    op(&mut chunk, OpCode::Divide);
    op(&mut chunk, OpCode::Return);
    let mut vm = VM::new(&chunk, b"");
    assert_eq!(execute(&mut vm), Err(InterpretError::RuntimeError));
    assert_eq!(vm.stack_len(), 1);
}

#[test]
fn malformed_code_is_runtime_error() {
    let empty = Chunk::new();
    assert_eq!(execute(&mut VM::new(&empty, b"")), Err(InterpretError::RuntimeError));

    let mut unknown = Chunk::new();
    unknown.write(200, 1);
    assert_eq!(execute(&mut VM::new(&unknown, b"")), Err(InterpretError::RuntimeError));

    let mut no_operand = Chunk::new();
    op(&mut no_operand, OpCode::Constant);
    assert_eq!(execute(&mut VM::new(&no_operand, b"")), Err(InterpretError::RuntimeError));

    let mut bad_index = Chunk::new();
    op(&mut bad_index, OpCode::Constant);
    bad_index.write(3, 1);
    op(&mut bad_index, OpCode::Return);
    assert_eq!(execute(&mut VM::new(&bad_index, b"")), Err(InterpretError::RuntimeError));

    let mut no_return = Chunk::new();
    let a = no_return.add_constant(num(1.0));
    op(&mut no_return, OpCode::Constant);
    no_return.write(a as u8, 1);
    assert_eq!(execute(&mut VM::new(&no_return, b"")), Err(InterpretError::RuntimeError));
}

#[test]
fn rejected_source_is_compile_error() {
    let mut chunk = Chunk::new();
    op(&mut chunk, OpCode::Return);
    let mut vm = VM::new(&chunk, b"let x = @");
    assert_eq!(vm.interpret(), Outcome::Finished(Err(InterpretError::CompileError)));
    let mut ok = VM::new(&chunk, b"let x = 1 + 2");
    assert_eq!(ok.interpret(), Outcome::Finished(Ok(())));
}

#[test]
fn constant_round_trip_is_bit_identical() {
    let samples = [
        0.0,
        -0.0,
        1.2,
        -7.25,
        f64::MAX,
        f64::MIN_POSITIVE,
        f64::INFINITY,
        f64::NEG_INFINITY,
        f64::NAN,
    ];
    for v in samples {
        let mut chunk = Chunk::new();
        chunk.add_constant(num(42.0));
        let idx = chunk.add_constant(num(v));
        op(&mut chunk, OpCode::Constant);
        chunk.write(idx as u8, 7);
        op(&mut chunk, OpCode::Return);
        let mut vm = VM::new(&chunk, b"");
        assert_eq!(execute(&mut vm), Ok(()));
        assert_eq!(vm.stack_top().unwrap().to_bits(), v.to_bits());
    }
}

#[test]
fn disassembly_covers_every_offset_once() {
    let mut chunk = Chunk::new();
    let a = chunk.add_constant(num(1.5));
    op(&mut chunk, OpCode::Constant);
    chunk.write(a as u8, 1);
    op(&mut chunk, OpCode::Negate);
    chunk.write(99, 2);
    op(&mut chunk, OpCode::Constant);
    chunk.write(9, 2);
    op(&mut chunk, OpCode::Return);
    op(&mut chunk, OpCode::Constant);
    let steps = dissamble_chunk(&chunk);
    let offsets: Vec<usize> = steps.iter().map(|s| s.offset).collect();
    assert_eq!(offsets, vec![0, 2, 3, 4, 6, 7]);
    let total: usize = steps.iter().map(|s| s.width).sum();
    assert_eq!(total, chunk.len());
    assert_eq!(steps[0].kind, InstructionKind::Constant(0, Some(num(1.5))));
    assert_eq!(steps[1].kind, InstructionKind::Simple(OpCode::Negate));
    assert_eq!(steps[2].kind, InstructionKind::Unknown(99));
    assert_eq!(steps[3].kind, InstructionKind::Constant(9, None));
    assert_eq!(steps[4].kind, InstructionKind::Simple(OpCode::Return));
    assert_eq!(steps[5].kind, InstructionKind::MissingOperand);
    assert!(dissamble_chunk(&Chunk::new()).is_empty());
}

#[test]
fn opcode_bytes_round_trip() {
    let all = [
        OpCode::Constant,
        OpCode::Negate,
        OpCode::Add,
        OpCode::Subtract,
        OpCode::Multiply,
        OpCode::Divide,
        OpCode::Return,
    ];
    for (i, o) in all.iter().enumerate() {
        assert_eq!(o.to_byte(), i as u8);
        assert_eq!(u8::from(*o), i as u8);
        assert_eq!(OpCode::from_byte(i as u8), Some(*o));
    }
    assert_eq!(OpCode::from_byte(7), None);
    assert_eq!(OpCode::from_byte(255), None);
    assert_eq!(OpCode::Constant.width(), 2);
    assert_eq!(OpCode::Add.width(), 1);
}

#[test]
fn chunk_records_code_lines_and_constants() {
    let mut chunk = Chunk::new();
    chunk.write(6, 10);
    chunk.write(1, 11);
    assert_eq!(chunk.len(), 2);
    assert_eq!(chunk.index_code(1), 1);
    assert_eq!(chunk.index_lines(0), 10);
    assert_eq!(chunk.iter().copied().collect::<Vec<u8>>(), vec![6, 1]);
    let i = chunk.add_constant(num(9.5));
    assert_eq!(as_f64(chunk.index_constants(i)), 9.5);
    assert_eq!(chunk.constant_count(), 1);
}

#[test]
fn constant_pool_holds_at_most_256() {
    let mut chunk = Chunk::new();
    for k in 0..256 {
        assert!(chunk.has_room_for_constant());
        assert_eq!(chunk.add_constant(num(k as f64)), k);
    }
    assert!(!chunk.has_room_for_constant());
    assert_eq!(chunk.constant_count(), 256);
}

#[test]
fn value_array_appends() {
    let mut values = ValueArray::new();
    assert_eq!(values.len(), 0);
    values.write(num(1.0));
    values.write(num(2.0));
    assert_eq!(values.len(), 2);
    assert_eq!(as_f64(values.get(1)), 2.0);
}
