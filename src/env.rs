//! The host's side of the input channel (an ordered list of encoded input
//! segments) and the guest's runtime surface: reading those segments in order
//! and committing values to the public journal.
use vstd::prelude::*;

use crate::codec::{
    bytes_decoding, bytes_encodable, bytes_encoding, decode_bytes, decode_u32, decode_u64,
    encode_bytes, encode_u32, encode_u64, get_le, le_value, u32_decoding, u32_encoding,
    u64_decoding, u64_encoding, u64_round_trip, u32_round_trip, lemma_le_value_bound,
    lemma_byte_weights,
};
use crate::violation::ContractViolation;

verus! {

/// What reading the segment at `pos` as a `u64` yields.
pub open spec fn u64_read_at(inputs: Seq<Seq<u8>>, pos: nat) -> Result<u64, ContractViolation> {
    if pos < inputs.len() {
        u64_decoding(inputs[pos as int])
    } else {
        Err(ContractViolation::InputExhausted)
    }
}

/// What reading the segment at `pos` as a `u32` yields.
pub open spec fn u32_read_at(inputs: Seq<Seq<u8>>, pos: nat) -> Result<u32, ContractViolation> {
    if pos < inputs.len() {
        u32_decoding(inputs[pos as int])
    } else {
        Err(ContractViolation::InputExhausted)
    }
}

/// What reading the segment at `pos` as a byte string yields.
pub open spec fn bytes_read_at(inputs: Seq<Seq<u8>>, pos: nat) -> Result<
    Seq<u8>,
    ContractViolation,
> {
    if pos < inputs.len() {
        bytes_decoding(inputs[pos as int])
    } else {
        Err(ContractViolation::InputExhausted)
    }
}

/// What decoding the eight journal bytes at `pos` as a `u64` yields.
pub open spec fn journal_u64_at(journal: Seq<u8>, pos: nat) -> Result<u64, ContractViolation> {
    if pos + 8 <= journal.len() {
        Ok(le_value(journal.subrange(pos as int, (pos + 8) as int)) as u64)
    } else {
        Err(ContractViolation::DecodeMismatch)
    }
}

/// The segments that writing `values` one after another produces.
pub open spec fn u64_segments(values: Seq<u64>) -> Seq<Seq<u8>> {
    values.map_values(|v: u64| u64_encoding(v))
}

/// What decoding the four journal bytes at `pos` as a `u32` yields.
pub open spec fn journal_u32_at(journal: Seq<u8>, pos: nat) -> Result<u32, ContractViolation> {
    if pos + 4 <= journal.len() {
        Ok(le_value(journal.subrange(pos as int, (pos + 4) as int)) as u32)
    } else {
        Err(ContractViolation::DecodeMismatch)
    }
}

/// Collects the views of a list of segments.
pub open spec fn segments_view(segments: Seq<Vec<u8>>) -> Seq<Seq<u8>> {
    segments.map_values(|s: Vec<u8>| s@)
}

/// The input segments that the host has written so far, in order.
pub struct ExecutorEnvBuilder {
    segments: Vec<Vec<u8>>,
}

/// The frozen input segments of one run.
pub struct ExecutorEnv {
    segments: Vec<Vec<u8>>,
}

impl View for ExecutorEnvBuilder {
    type V = Seq<Seq<u8>>;

    closed spec fn view(&self) -> Seq<Seq<u8>> {
        segments_view(self.segments@)
    }
}

impl View for ExecutorEnv {
    type V = Seq<Seq<u8>>;

    closed spec fn view(&self) -> Seq<Seq<u8>> {
        segments_view(self.segments@)
    }
}

impl ExecutorEnvBuilder {
    /// A builder with no segments.
    pub fn new() -> (r: ExecutorEnvBuilder)
        ensures
            r@ == Seq::<Seq<u8>>::empty(),
    {
        let r = ExecutorEnvBuilder { segments: Vec::new() };
        assert(r@ =~= Seq::<Seq<u8>>::empty());
        r
    }

    fn push_segment(&mut self, seg: Vec<u8>)
        ensures
            final(self)@ == old(self)@.push(seg@),
    {
        self.segments.push(seg);
        assert(self@ =~= old(self)@.push(seg@));
    }

    /// Appends a `u32` as a new segment.
    pub fn write_u32(&mut self, v: u32)
        ensures
            final(self)@ == old(self)@.push(u32_encoding(v)),
    {
        let seg = encode_u32(v);
        self.push_segment(seg);
    }

    /// Appends a `u64` as a new segment.
    pub fn write_u64(&mut self, v: u64)
        ensures
            final(self)@ == old(self)@.push(u64_encoding(v)),
    {
        let seg = encode_u64(v);
        self.push_segment(seg);
    }

    /// Appends a byte string as a new segment; one that cannot be encoded is
    /// refused before anything is appended.
    pub fn write_bytes(&mut self, b: &Vec<u8>) -> (r: Result<(), ContractViolation>)
        ensures
            bytes_encodable(b@) ==> r is Ok && final(self)@ == old(self)@.push(bytes_encoding(b@)),
            !bytes_encodable(b@) ==> r == Err::<(), ContractViolation>(
                ContractViolation::NotEncodable,
            ) && final(self)@ == old(self)@,
    {
        match encode_bytes(b) {
            Ok(seg) => {
                self.push_segment(seg);
                Ok(())
            },
            Err(e) => Err(e),
        }
    }

    /// Freezes the segments written so far.
    pub fn build(self) -> (r: ExecutorEnv)
        ensures
            r@ == self@,
    {
        ExecutorEnv { segments: self.segments }
    }
}

/// The public output of a run: the bytes that the guest committed, in order.
pub struct Journal {
    bytes: Vec<u8>,
}

impl View for Journal {
    type V = Seq<u8>;

    closed spec fn view(&self) -> Seq<u8> {
        self.bytes@
    }
}

impl Journal {
    /// The committed bytes.
    pub fn bytes(&self) -> (r: &Vec<u8>)
        ensures
            r@ == self@,
    {
        &self.bytes
    }

    /// Decodes the eight bytes at `pos` as a `u64`.
    pub fn decode_u64_at(&self, pos: usize) -> (r: Result<u64, ContractViolation>)
        ensures
            r == journal_u64_at(self@, pos as nat),
    {
        let len = self.bytes.len();
        if pos > len || len - pos < 8 {
            return Err(ContractViolation::DecodeMismatch);
        }
        Ok(get_le(&self.bytes, pos, 8))
    }

    /// Decodes the four bytes at `pos` as a `u32`.
    pub fn decode_u32_at(&self, pos: usize) -> (r: Result<u32, ContractViolation>)
        ensures
            r == journal_u32_at(self@, pos as nat),
    {
        let len = self.bytes.len();
        if pos > len || len - pos < 4 {
            return Err(ContractViolation::DecodeMismatch);
        }
        let v = get_le(&self.bytes, pos, 4);
        proof {
            lemma_le_value_bound(self.bytes@.subrange(pos as int, pos + 4));
            lemma_byte_weights();
        }
        Ok(v as u32)
    }

    /// Decodes the whole journal as one `u64`.
    pub fn decode_u64(&self) -> (r: Result<u64, ContractViolation>)
        ensures
            r == u64_decoding(self@),
    {
        decode_u64(&self.bytes)
    }
}

/// The guest's view of one run: the input segments, how many of them it has
/// read, and the journal so far.
pub struct GuestEnv {
    inputs: Vec<Vec<u8>>,
    position: usize,
    journal: Vec<u8>,
}

impl GuestEnv {
    /// The input segments of the run.
    pub closed spec fn inputs(&self) -> Seq<Seq<u8>> {
        segments_view(self.inputs@)
    }

    /// How many segments the guest has read.
    pub closed spec fn position(&self) -> nat {
        self.position as nat
    }

    /// The bytes committed so far.
    pub closed spec fn journal(&self) -> Seq<u8> {
        self.journal@
    }

    /// The read position never passes the last segment.
    pub closed spec fn wf(&self) -> bool {
        self.position <= self.inputs@.len()
    }

    /// Starts a run on the segments of `env`, with nothing read or committed.
    pub fn new(env: ExecutorEnv) -> (r: GuestEnv)
        ensures
            r.wf(),
            r.inputs() == env@,
            r.position() == 0,
            r.journal() == Seq::<u8>::empty(),
    {
        GuestEnv { inputs: env.segments, position: 0, journal: Vec::new() }
    }

    /// Reads the next segment as a `u64`.
    pub fn read_u64(&mut self) -> (r: Result<u64, ContractViolation>)
        requires
            old(self).wf(),
        ensures
            final(self).wf(),
            r == u64_read_at(old(self).inputs(), old(self).position()),
            final(self).inputs() == old(self).inputs(),
            final(self).journal() == old(self).journal(),
            final(self).position() == if r is Ok {
                old(self).position() + 1
            } else {
                old(self).position()
            },
    {
        if self.position >= self.inputs.len() {
            return Err(ContractViolation::InputExhausted);
        }
        let r = decode_u64(&self.inputs[self.position]);
        if r.is_ok() {
            self.position = self.position + 1;
        }
        r
    }

    /// Reads the next segment as a `u32`.
    pub fn read_u32(&mut self) -> (r: Result<u32, ContractViolation>)
        requires
            old(self).wf(),
        ensures
            final(self).wf(),
            r == u32_read_at(old(self).inputs(), old(self).position()),
            final(self).inputs() == old(self).inputs(),
            final(self).journal() == old(self).journal(),
            final(self).position() == if r is Ok {
                old(self).position() + 1
            } else {
                old(self).position()
            },
    {
        if self.position >= self.inputs.len() {
            return Err(ContractViolation::InputExhausted);
        }
        let r = decode_u32(&self.inputs[self.position]);
        if r.is_ok() {
            self.position = self.position + 1;
        }
        r
    }

    /// Reads the next segment as a byte string.
    pub fn read_bytes(&mut self) -> (r: Result<Vec<u8>, ContractViolation>)
        requires
            old(self).wf(),
        ensures
            final(self).wf(),
            r is Ok <==> bytes_read_at(old(self).inputs(), old(self).position()) is Ok,
            r is Ok ==> r->Ok_0@ == bytes_read_at(old(self).inputs(), old(self).position())->Ok_0,
            r is Err ==> r->Err_0 == bytes_read_at(old(self).inputs(), old(self).position())->Err_0,
            final(self).inputs() == old(self).inputs(),
            final(self).journal() == old(self).journal(),
            final(self).position() == if r is Ok {
                old(self).position() + 1
            } else {
                old(self).position()
            },
    {
        if self.position >= self.inputs.len() {
            return Err(ContractViolation::InputExhausted);
        }
        let r = decode_bytes(&self.inputs[self.position]);
        if r.is_ok() {
            self.position = self.position + 1;
        }
        r
    }

    fn append(&mut self, bytes: &Vec<u8>)
        ensures
            final(self).journal() == old(self).journal() + bytes@,
            final(self).inputs() == old(self).inputs(),
            final(self).position() == old(self).position(),
            final(self).wf() == old(self).wf(),
    {
        let mut i: usize = 0;
        while i < bytes.len()
            invariant
                i <= bytes@.len(),
                self.journal@ == old(self).journal@ + bytes@.subrange(0, i as int),
                self.inputs == old(self).inputs,
                self.position == old(self).position,
            decreases bytes@.len() - i,
        {
            self.journal.push(bytes[i]);
            assert(bytes@.subrange(0, i + 1) =~= bytes@.subrange(0, i as int).push(bytes@[i as int]));
            i = i + 1;
        }
        assert(bytes@.subrange(0, bytes@.len() as int) =~= bytes@);
    }

    /// Appends a `u64` to the journal.
    pub fn commit_u64(&mut self, v: u64)
        ensures
            final(self).journal() == old(self).journal() + u64_encoding(v),
            final(self).inputs() == old(self).inputs(),
            final(self).position() == old(self).position(),
            final(self).wf() == old(self).wf(),
    {
        let enc = encode_u64(v);
        self.append(&enc);
    }

    /// Appends a `u32` to the journal.
    pub fn commit_u32(&mut self, v: u32)
        ensures
            final(self).journal() == old(self).journal() + u32_encoding(v),
            final(self).inputs() == old(self).inputs(),
            final(self).position() == old(self).position(),
            final(self).wf() == old(self).wf(),
    {
        let enc = encode_u32(v);
        self.append(&enc);
    }

    /// Appends a byte string to the journal; one that cannot be encoded is
    /// refused and nothing is appended.
    pub fn commit_bytes(&mut self, b: &Vec<u8>) -> (r: Result<(), ContractViolation>)
        ensures
            bytes_encodable(b@) ==> r is Ok && final(self).journal() == old(self).journal()
                + bytes_encoding(b@),
            !bytes_encodable(b@) ==> r == Err::<(), ContractViolation>(
                ContractViolation::NotEncodable,
            ) && final(self).journal() == old(self).journal(),
            final(self).inputs() == old(self).inputs(),
            final(self).position() == old(self).position(),
            final(self).wf() == old(self).wf(),
    {
        match encode_bytes(b) {
            Ok(enc) => {
                self.append(&enc);
                Ok(())
            },
            Err(e) => Err(e),
        }
    }

    /// Ends the run and hands out its journal.
    pub fn into_journal(self) -> (r: Journal)
        ensures
            r@ == self.journal(),
    {
        Journal { bytes: self.journal }
    }
}

/// Segments are read in the order in which they were written: the guest's
/// `i`-th read of a `u64` yields the host's `i`-th written value, and a read
/// past the last one fails.
pub proof fn reads_follow_writes(values: Seq<u64>)
    ensures
        forall|i: nat|
            i < values.len() ==> #[trigger] u64_read_at(u64_segments(values), i)
                == Ok::<u64, ContractViolation>(values[i as int]),
        u64_read_at(u64_segments(values), values.len()) == Err::<
            u64,
            ContractViolation,
        >(ContractViolation::InputExhausted),
{
    assert forall|i: nat| i < values.len() implies #[trigger] u64_read_at(
        u64_segments(values),
        i,
    ) == Ok::<u64, ContractViolation>(values[i as int]) by {
        u64_round_trip(values[i as int]);
    }
}

/// A committed `u64` is read back from the journal at the offset where it was
/// appended, whatever was committed before it.
pub proof fn journal_u64_round_trip(before: Seq<u8>, v: u64)
    ensures
        journal_u64_at(before + u64_encoding(v), before.len()) == Ok::<u64, ContractViolation>(v),
{
    u64_round_trip(v);
    let j = before + u64_encoding(v);
    assert(j.subrange(before.len() as int, (before.len() + 8) as int) =~= u64_encoding(v));
}

/// A committed `u32` is read back from the journal at the offset where it was
/// appended, whatever was committed before it.
pub proof fn journal_u32_round_trip(before: Seq<u8>, v: u32)
    ensures
        journal_u32_at(before + u32_encoding(v), before.len()) == Ok::<u32, ContractViolation>(v),
{
    u32_round_trip(v);
    let j = before + u32_encoding(v);
    assert(j.subrange(before.len() as int, (before.len() + 4) as int) =~= u32_encoding(v));
}

} // verus!
