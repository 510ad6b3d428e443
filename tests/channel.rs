use zkvm_protocol::env::{ExecutorEnvBuilder, GuestEnv};
use zkvm_protocol::violation::ContractViolation;

#[test]
fn reads_come_in_write_order() {
    let mut builder = ExecutorEnvBuilder::new();
    builder.write_u64(11);
    builder.write_u64(22);
    builder.write_u64(33);
    let mut guest = GuestEnv::new(builder.build());
    assert_eq!(guest.read_u64(), Ok(11));
    assert_eq!(guest.read_u64(), Ok(22));
    assert_eq!(guest.read_u64(), Ok(33));
    assert_eq!(guest.read_u64(), Err(ContractViolation::InputExhausted));
}

#[test]
fn mixed_types_are_read_in_order() {
    let mut builder = ExecutorEnvBuilder::new();
    builder.write_bytes(&vec![1, 2, 3]).unwrap();
    builder.write_u32(10);
    let mut guest = GuestEnv::new(builder.build());
    assert_eq!(guest.read_bytes(), Ok(vec![1, 2, 3]));
    assert_eq!(guest.read_u32(), Ok(10));
    assert_eq!(guest.read_u32(), Err(ContractViolation::InputExhausted));
}

#[test]
fn reading_the_wrong_type_is_a_mismatch() {
    let mut builder = ExecutorEnvBuilder::new();
    builder.write_u32(7);
    let mut guest = GuestEnv::new(builder.build());
    assert_eq!(guest.read_u64(), Err(ContractViolation::DecodeMismatch));
}

#[test]
fn committed_values_decode_from_the_journal() {
    let mut guest = GuestEnv::new(ExecutorEnvBuilder::new().build());
    guest.commit_u32(5);
    guest.commit_u64(0x1122_3344_5566_7788);
    guest.commit_bytes(&vec![9]).unwrap();
    let journal = guest.into_journal();
    assert_eq!(
        journal.bytes(),
        &vec![5, 0, 0, 0, 0x88, 0x77, 0x66, 0x55, 0x44, 0x33, 0x22, 0x11, 1, 0, 0, 0, 9]
    );
    assert_eq!(journal.decode_u32_at(0), Ok(5));
    assert_eq!(journal.decode_u32_at(12), Ok(1));
    assert_eq!(journal.decode_u32_at(14), Err(ContractViolation::DecodeMismatch));
    assert_eq!(journal.decode_u64_at(4), Ok(0x1122_3344_5566_7788));
    assert_eq!(journal.decode_u64_at(10), Err(ContractViolation::DecodeMismatch));
    assert_eq!(journal.decode_u64(), Err(ContractViolation::DecodeMismatch));
}
