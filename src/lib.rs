//! A model of a proof-carrying execution protocol: the channel codec between
//! host and guest, the environment the host assembles, the runtime surface the
//! guest sees, the journal of public output, receipts bound to a program
//! identity, and the range check that keeps a delegated modular
//! exponentiation honest.
pub mod bigint;
pub mod codec;
pub mod env;
pub mod fibonacci;
pub mod receipt;
pub mod violation;
