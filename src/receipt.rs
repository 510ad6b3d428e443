//! Program identities, the prover that runs a guest program on an
//! environment, and receipts: the journal of a run bound to the identity of
//! the program that produced it.
use vstd::prelude::*;

use crate::codec::u64_encoding;
use crate::env::{u64_read_at, ExecutorEnv, GuestEnv, Journal};
use crate::fibonacci::{fib_value, fibonacci_guest};
use crate::violation::ContractViolation;

verus! {

/// The identity of a compiled guest program.
#[derive(Clone, Copy, Debug)]
pub struct ImageId {
    words: [u32; 8],
}

impl View for ImageId {
    type V = Seq<u32>;

    closed spec fn view(&self) -> Seq<u32> {
        self.words@
    }
}

impl ImageId {
    /// The identity with the given digest words.
    pub fn new(words: [u32; 8]) -> (r: ImageId)
        ensures
            r@ == words@,
    {
        ImageId { words }
    }

    /// The digest words.
    pub fn words(&self) -> (r: [u32; 8])
        ensures
            r@ == self@,
    {
        self.words
    }

    /// Whether two identities are the same.
    pub fn matches(&self, other: &ImageId) -> (r: bool)
        ensures
            r == (self@ == other@),
    {
        let mut i: usize = 0;
        while i < 8
            invariant
                i <= 8,
                self.words@.len() == 8,
                other.words@.len() == 8,
                self.words@.subrange(0, i as int) == other.words@.subrange(0, i as int),
            decreases 8 - i,
        {
            if self.words[i] != other.words[i] {
                return false;
            }
            assert(self.words@.subrange(0, i + 1) =~= other.words@.subrange(0, i + 1)) by {
                assert(self.words@.subrange(0, i + 1) =~= self.words@.subrange(0, i as int).push(
                    self.words@[i as int],
                ));
                assert(other.words@.subrange(0, i + 1) =~= other.words@.subrange(0, i as int).push(
                    other.words@[i as int],
                ));
            }
            i = i + 1;
        }
        assert(self.words@ =~= self.words@.subrange(0, 8));
        assert(other.words@ =~= other.words@.subrange(0, 8));
        true
    }
}

/// The guest programs that the prover can run.
#[derive(Clone, Copy, Debug, PartialEq, Eq, Structural)]
pub enum Guest {
    /// Reads an iteration count and commits the Fibonacci value it reaches.
    Fibonacci,
}

/// What running `guest` on fresh `inputs` commits, or the violation that
/// aborts it.
pub open spec fn run_outcome(guest: Guest, inputs: Seq<Seq<u8>>) -> Result<
    Seq<u8>,
    ContractViolation,
> {
    match guest {
        Guest::Fibonacci => match u64_read_at(inputs, 0) {
            Ok(n) => Ok(u64_encoding(fib_value(n as nat))),
            Err(e) => Err(e),
        },
    }
}

/// A guest program together with its identity.
#[derive(Clone, Copy, Debug)]
pub struct Program {
    pub guest: Guest,
    pub image_id: ImageId,
}

/// Why a receipt was rejected.
#[derive(Debug, Clone, Copy, PartialEq, Eq, Structural)]
pub enum VerificationError {
    /// The receipt was produced for another program.
    ImageIdMismatch,
}

/// The journal of a completed run, bound to the program that produced it.
///
/// Only the prover makes receipts, so every receipt records a run of its guest
/// on some inputs that committed exactly its journal.
pub struct Receipt {
    image_id: ImageId,
    guest: Guest,
    journal: Journal,
    inputs: Ghost<Seq<Seq<u8>>>,
}

impl Receipt {
    #[verifier::type_invariant]
    spec fn attests_run(&self) -> bool {
        run_outcome(self.guest, self.inputs@) == Ok::<Seq<u8>, ContractViolation>(self.journal@)
    }

    /// The identity that the receipt is bound to.
    pub closed spec fn image_id_view(&self) -> Seq<u32> {
        self.image_id@
    }

    /// The guest program whose run the receipt records.
    pub closed spec fn guest_view(&self) -> Guest {
        self.guest
    }

    /// The committed bytes.
    pub closed spec fn journal_view(&self) -> Seq<u8> {
        self.journal@
    }

    /// The journal of the run.
    pub fn journal(&self) -> (r: &Journal)
        ensures
            r@ == self.journal_view(),
    {
        &self.journal
    }

    /// The identity that the receipt is bound to.
    pub fn image_id(&self) -> (r: ImageId)
        ensures
            r@ == self.image_id_view(),
    {
        self.image_id
    }

    /// Checks the receipt against the identity of the program that the caller
    /// expects; accepted receipts record a run of that program that committed
    /// exactly this journal.
    pub fn verify(&self, expected: &ImageId) -> (r: Result<(), VerificationError>)
        ensures
            r == verify_outcome(self.image_id_view(), expected@),
            r is Ok ==> exists|inputs: Seq<Seq<u8>>|
                run_outcome(self.guest_view(), inputs) == Ok::<Seq<u8>, ContractViolation>(
                    self.journal_view(),
                ),
    {
        proof {
            use_type_invariant(self);
        }
        if self.image_id.matches(expected) {
            Ok(())
        } else {
            Err(VerificationError::ImageIdMismatch)
        }
    }
}

/// What checking a receipt bound to `claimed` against `expected` yields.
pub open spec fn verify_outcome(claimed: Seq<u32>, expected: Seq<u32>) -> Result<
    (),
    VerificationError,
> {
    if claimed == expected {
        Ok(())
    } else {
        Err(VerificationError::ImageIdMismatch)
    }
}

/// What `prove` promises of its result for `program` on the segments `inputs`.
pub open spec fn prove_result(program: Program, inputs: Seq<Seq<u8>>, r: Result<
    Receipt,
    ContractViolation,
>) -> bool {
    match run_outcome(program.guest, inputs) {
        Ok(journal) => r is Ok && r->Ok_0.image_id_view() == program.image_id@
            && r->Ok_0.guest_view() == program.guest && r->Ok_0.journal_view() == journal,
        Err(e) => r is Err && r->Err_0 == e,
    }
}

/// Runs the program's guest on the environment's segments and binds the
/// journal it committed to the program's identity. A run that hits a contract
/// violation yields no receipt.
pub fn prove(program: &Program, env: ExecutorEnv) -> (r: Result<Receipt, ContractViolation>)
    ensures
        prove_result(*program, env@, r),
{
    let ghost inputs = env@;
    let mut guest_env = GuestEnv::new(env);
    match program.guest {
        Guest::Fibonacci => {
            fibonacci_guest(&mut guest_env)?;
        },
    }
    let journal = guest_env.into_journal();
    assert(journal@ =~= u64_encoding(fib_value(u64_read_at(inputs, 0)->Ok_0 as nat)));
    Ok(Receipt { image_id: program.image_id, guest: program.guest, journal, inputs: Ghost(inputs) })
}

/// Proving the same program on the same segments twice gives the same
/// outcome: the same journal bound to the same identity, or the same
/// violation.
pub proof fn proving_is_deterministic(
    program: Program,
    inputs: Seq<Seq<u8>>,
    r1: Result<Receipt, ContractViolation>,
    r2: Result<Receipt, ContractViolation>,
)
    requires
        prove_result(program, inputs, r1),
        prove_result(program, inputs, r2),
    ensures
        r1 is Ok <==> r2 is Ok,
        r1 is Ok ==> r1->Ok_0.journal_view() == r2->Ok_0.journal_view()
            && r1->Ok_0.image_id_view() == r2->Ok_0.image_id_view(),
        r1 is Ok ==> verify_outcome(r1->Ok_0.image_id_view(), program.image_id@) is Ok
            && verify_outcome(r2->Ok_0.image_id_view(), program.image_id@) is Ok,
        r1 is Err ==> r1->Err_0 == r2->Err_0,
{
}

/// A receipt bound to one identity is rejected against any other.
pub proof fn verification_rejects_other_identity(receipt: Receipt, other: ImageId)
    requires
        receipt.image_id_view() != other@,
    ensures
        verify_outcome(receipt.image_id_view(), other@) == Err::<(), VerificationError>(
            VerificationError::ImageIdMismatch,
        ),
{
}

} // verus!
