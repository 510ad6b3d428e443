use zkvm_protocol::env::ExecutorEnvBuilder;
use zkvm_protocol::fibonacci::fibonacci;
use zkvm_protocol::receipt::{prove, Guest, ImageId, Program, VerificationError};
use zkvm_protocol::violation::ContractViolation;

fn fib_program() -> Program {
    Program {
        guest: Guest::Fibonacci,
        image_id: ImageId::new([1, 2, 3, 4, 5, 6, 7, 8]),
    }
}

fn prove_fib(iter: u64) -> u64 {
    let mut builder = ExecutorEnvBuilder::new();
    builder.write_u64(iter);
    let receipt = prove(&fib_program(), builder.build()).unwrap();
    assert_eq!(receipt.verify(&fib_program().image_id), Ok(()));
    receipt.journal().decode_u64().unwrap()
}

#[test]
fn fibonacci_values() {
    assert_eq!(fibonacci(0), 0);
    assert_eq!(fibonacci(1), 1);
    assert_eq!(fibonacci(2), 2);
    assert_eq!(fibonacci(9), 55);
    // F(101) mod 2^64.
    assert_eq!(fibonacci(100), 1298777728820984005);
}

#[test]
fn end_to_end_nine_iterations() {
    assert_eq!(prove_fib(9), 55);
}

#[test]
fn end_to_end_hundred_iterations() {
    let v = prove_fib(100);
    assert_eq!(v, 1298777728820984005);
    assert_ne!(v, 55);
}

#[test]
fn proving_twice_gives_the_same_journal() {
    let mut b1 = ExecutorEnvBuilder::new();
    b1.write_u64(30);
    let mut b2 = ExecutorEnvBuilder::new();
    b2.write_u64(30);
    let r1 = prove(&fib_program(), b1.build()).unwrap();
    let r2 = prove(&fib_program(), b2.build()).unwrap();
    assert_eq!(r1.journal().bytes(), r2.journal().bytes());
    assert_eq!(r1.image_id().words(), r2.image_id().words());
}

#[test]
fn other_identity_is_rejected() {
    let mut builder = ExecutorEnvBuilder::new();
    builder.write_u64(9);
    let receipt = prove(&fib_program(), builder.build()).unwrap();
    let other = ImageId::new([1, 2, 3, 4, 5, 6, 7, 9]);
    assert_eq!(receipt.verify(&other), Err(VerificationError::ImageIdMismatch));
    assert!(!receipt.image_id().matches(&other));
}

#[test]
fn missing_input_yields_no_receipt() {
    let r = prove(&fib_program(), ExecutorEnvBuilder::new().build());
    assert_eq!(r.err(), Some(ContractViolation::InputExhausted));
}

#[test]
fn wrong_input_type_yields_no_receipt() {
    let mut builder = ExecutorEnvBuilder::new();
    builder.write_u32(9);
    let r = prove(&fib_program(), builder.build());
    assert_eq!(r.err(), Some(ContractViolation::DecodeMismatch));
}
