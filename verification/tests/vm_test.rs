use dayum::compiler::chunk::{Chunk, CompiledFunction, Instruction, OpCode, Value, Variable};
use dayum::compiler::Compiler;
use dayum::lexer::scan::Scanner;
use dayum::lexer::Token;
use dayum::parser::Parser;
use dayum::type_checker::TypeChecker;
use dayum::vm::rules::{ArithOp, VmError};
use dayum::vm::{Step, VM};

fn scan(src: &str) -> Vec<Token<'_>> {
    let mut scanner = Scanner::new(src);
    let mut tokens = Vec::new();
    while let Some(t) = scanner.next() {
        if t.token_type == dayum::lexer::TokenType::EndOfFile {
            break;
        }
        tokens.push(t);
    }
    tokens
}

fn instr(opcode: OpCode, operand: u16) -> Instruction {
    Instruction { opcode, operand }
}

fn chunk(instructions: Vec<Instruction>, constants: Vec<Value>, names: &[&str]) -> Chunk {
    Chunk {
        instructions,
        constants,
        names: names.iter().map(|n| Variable { name: n.to_string(), depth: 0 }).collect(),
        overflow: false,
    }
}

fn run(vm: &mut VM) -> Result<usize, VmError> {
    let mut steps = 0;
    loop {
        steps += 1;
        match vm.step()? {
            Step::Continue => {}
            Step::Stopped => return Ok(steps),
            Step::Float { .. } => panic!("no float expected"),
        }
    }
}

#[test]
fn vm_runs_a_compiled_program() {
    let src = "int g = 5;\nvoid main() { }\n";
    let stmts = Parser::new(scan(src)).parse().unwrap();
    let mut checker = TypeChecker::new();
    assert_eq!(checker.check(&stmts), Ok(()));
    let mut compiler = Compiler::new(checker.type_map, checker.var_map);
    compiler.compile(stmts).unwrap();
    let mut vm = VM::new(compiler.chunk);
    let steps = run(&mut vm).unwrap();
    assert_eq!(steps, 10);
    assert!(matches!(vm.globals().get("g"), Some(Value::Int(5))));
    assert!(matches!(vm.globals().get("main"), Some(Value::Ptr(0))));
    assert_eq!(vm.stack().len(), 1);
    assert!(matches!(vm.stack()[0], Value::Null));
}

#[test]
fn vm_integer_arithmetic() {
    let c = chunk(
        vec![instr(OpCode::LoadInt, 0), instr(OpCode::LoadInt, 1), instr(OpCode::SubInt, 0), instr(OpCode::Stop, 0)],
        vec![Value::Int(7), Value::Int(10)],
        &[],
    );
    let mut vm = VM::new(c);
    run(&mut vm).unwrap();
    assert!(matches!(vm.stack()[..], [Value::Int(-3)]));
}

#[test]
fn vm_division_by_zero_is_an_error() {
    let c = chunk(
        vec![instr(OpCode::LoadInt, 0), instr(OpCode::LoadInt, 1), instr(OpCode::DivInt, 0), instr(OpCode::Stop, 0)],
        vec![Value::Int(7), Value::Int(0)],
        &[],
    );
    let mut vm = VM::new(c);
    assert_eq!(run(&mut vm), Err(VmError::DivisionByZero));
}

#[test]
fn vm_overflow_is_an_error() {
    let c = chunk(
        vec![instr(OpCode::LoadInt, 0), instr(OpCode::LoadInt, 0), instr(OpCode::AddInt, 0)],
        vec![Value::Int(i32::MAX)],
        &[],
    );
    let mut vm = VM::new(c);
    assert_eq!(run(&mut vm), Err(VmError::IntegerOverflow));
}

#[test]
fn vm_float_arithmetic_is_handed_back() {
    let c = chunk(
        vec![instr(OpCode::LoadFloat, 0), instr(OpCode::LoadFloat, 1), instr(OpCode::AddFloat, 0), instr(OpCode::Stop, 0)],
        vec![Value::Float("1.5".to_string()), Value::Float("2.25".to_string())],
        &[],
    );
    let mut vm = VM::new(c);
    assert!(matches!(vm.step(), Ok(Step::Continue)));
    assert!(matches!(vm.step(), Ok(Step::Continue)));
    match vm.step() {
        Ok(Step::Float { op, lhs, rhs }) => {
            assert_eq!(op, ArithOp::Add);
            assert_eq!(lhs, "1.5");
            assert_eq!(rhs, "2.25");
        }
        other => panic!("unexpected {:?}", other),
    }
    assert_eq!(vm.stack().len(), 0);
    vm.push_value(Value::Float("3.75".to_string()));
    assert!(matches!(vm.step(), Ok(Step::Stopped)));
    assert!(matches!(&vm.stack()[..], [Value::Float(s)] if s == "3.75"));
}

#[test]
fn vm_globals_store_and_load() {
    let c = chunk(
        vec![
            instr(OpCode::DefineGlobal, 0),
            instr(OpCode::LoadString, 0),
            instr(OpCode::StoreGlobal, 0),
            instr(OpCode::LoadGlobal, 0),
            instr(OpCode::LoadGlobal, 0),
            instr(OpCode::AddString, 0),
            instr(OpCode::Stop, 0),
        ],
        vec![Value::Str("ab".to_string())],
        &["s"],
    );
    let mut vm = VM::new(c);
    run(&mut vm).unwrap();
    assert!(matches!(&vm.stack()[..], [Value::Str(s)] if s == "abab"));
}

#[test]
fn vm_undefined_global_is_an_error() {
    let c = chunk(vec![instr(OpCode::LoadGlobal, 0)], vec![], &["x"]);
    let mut vm = VM::new(c);
    assert_eq!(run(&mut vm), Err(VmError::UndefinedGlobal));
}

#[test]
fn vm_call_and_return_with_argument() {
    let callee = Chunk {
        instructions: vec![instr(OpCode::LoadName, 0), instr(OpCode::LoadName, 0), instr(OpCode::MulInt, 0), instr(OpCode::Return, 0)],
        constants: vec![],
        names: vec![],
        overflow: false,
    };
    let f = CompiledFunction { name: "sq".to_string(), arity: 1, chunk: callee };
    let c = chunk(
        vec![
            instr(OpCode::LoadInt, 0),
            instr(OpCode::AllocPtr, 1),
            instr(OpCode::Call, 1),
            instr(OpCode::Stop, 0),
        ],
        vec![Value::Int(6), Value::Func(f)],
        &[],
    );
    let mut vm = VM::new(c);
    run(&mut vm).unwrap();
    assert!(matches!(vm.stack()[..], [Value::Int(36)]));
}

#[test]
fn vm_errors_on_empty_stack_and_missing_frame() {
    let c = chunk(vec![instr(OpCode::NotBool, 0)], vec![], &[]);
    let mut vm = VM::new(c);
    assert_eq!(run(&mut vm), Err(VmError::StackUnderflow));

    let c = chunk(vec![instr(OpCode::Return, 0)], vec![], &[]);
    let mut vm = VM::new(c);
    assert!(matches!(vm.step(), Ok(Step::Continue)));
    assert!(matches!(vm.stack()[..], [Value::Null]));
    assert_eq!(vm.current_instruction(), None);
    assert!(matches!(vm.step(), Err(VmError::NoFrame)));

    let c = chunk(vec![], vec![], &[]);
    let mut vm = VM::new(c);
    assert!(matches!(vm.step(), Err(VmError::IpOutOfRange)));
}

#[test]
fn vm_store_and_load_local() {
    let c = chunk(
        vec![
            instr(OpCode::LoadInt, 0),
            instr(OpCode::LoadInt, 1),
            instr(OpCode::StoreName, 0),
            instr(OpCode::LoadName, 0),
            instr(OpCode::Stop, 0),
        ],
        vec![Value::Int(1), Value::Int(9)],
        &[],
    );
    let mut vm = VM::new(c);
    run(&mut vm).unwrap();
    assert!(matches!(vm.stack()[..], [Value::Int(9), Value::Int(9)]));
}

#[test]
fn vm_reports_the_next_instruction() {
    let c = chunk(vec![instr(OpCode::LoadNull, 0), instr(OpCode::Stop, 0)], vec![], &[]);
    let mut vm = VM::new(c);
    assert_eq!(vm.current_instruction(), Some((0, instr(OpCode::LoadNull, 0), 2)));
    vm.step().unwrap();
    assert_eq!(vm.current_instruction(), Some((1, instr(OpCode::Stop, 0), 2)));
}

#[test]
fn vm_operand_kind_errors() {
    let c = chunk(vec![instr(OpCode::LoadInt, 0), instr(OpCode::LoadBool, 1), instr(OpCode::AddInt, 0)], vec![Value::Int(1), Value::Bool(true)], &[]);
    assert_eq!(run(&mut VM::new(c)), Err(VmError::NonNumeric));
    let c = chunk(vec![instr(OpCode::LoadInt, 0), instr(OpCode::LoadInt, 0), instr(OpCode::AndBool, 0)], vec![Value::Int(1)], &[]);
    assert_eq!(run(&mut VM::new(c)), Err(VmError::NonBoolean));
    let c = chunk(vec![instr(OpCode::LoadInt, 0), instr(OpCode::LoadInt, 0), instr(OpCode::AddString, 0)], vec![Value::Int(1)], &[]);
    assert_eq!(run(&mut VM::new(c)), Err(VmError::NonString));
}

#[test]
fn vm_reference_errors() {
    let c = chunk(vec![instr(OpCode::LoadInt, 0), instr(OpCode::Call, 0)], vec![Value::Int(1)], &[]);
    assert_eq!(run(&mut VM::new(c)), Err(VmError::NotAPointer));
    let c = chunk(vec![instr(OpCode::LoadPtr, 0), instr(OpCode::Call, 0)], vec![Value::Ptr(3)], &[]);
    assert_eq!(run(&mut VM::new(c)), Err(VmError::BadPointer));
    let c = chunk(vec![instr(OpCode::AllocPtr, 0)], vec![Value::Int(1)], &[]);
    assert_eq!(run(&mut VM::new(c)), Err(VmError::NotAFunction));
    let f = CompiledFunction { name: "f".to_string(), arity: 2, chunk: chunk(vec![], vec![], &[]) };
    let c = chunk(vec![instr(OpCode::AllocPtr, 0), instr(OpCode::Call, 2)], vec![Value::Func(f)], &[]);
    assert_eq!(run(&mut VM::new(c)), Err(VmError::ArityTooLarge));
}

#[test]
fn vm_index_errors() {
    let c = chunk(vec![instr(OpCode::LoadInt, 4)], vec![], &[]);
    assert_eq!(run(&mut VM::new(c)), Err(VmError::ConstantOutOfRange(4)));
    let c = chunk(vec![instr(OpCode::DefineGlobal, 2)], vec![], &[]);
    assert_eq!(run(&mut VM::new(c)), Err(VmError::NameOutOfRange(2)));
    let c = chunk(vec![instr(OpCode::LoadName, 0)], vec![], &[]);
    assert_eq!(run(&mut VM::new(c)), Err(VmError::LocalOutOfRange));
}
