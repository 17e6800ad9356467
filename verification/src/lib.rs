//! Block-buffering adapter layer for block-oriented hash, XOF and MAC cores.
//!
//! A low-level algorithm *core* consumes whole blocks of input and knows how
//! to finalize itself; this crate supplies the byte-stream plumbing around
//! such cores: a [`buffer::BlockBuffer`] that accumulates partial blocks, and
//! wrapper types that compose a core with a buffer into the familiar
//! `update`/`finalize` interfaces (fixed output, runtime-variable output,
//! extendable output, and keyed MAC verification).
//!
//! The traits in this root module describe the byte-granularity interfaces
//! exposed to applications; the traits in [`core_api`] describe the
//! block-granularity interfaces an algorithm core must provide.

use vstd::prelude::*;

pub mod buffer;
pub mod core_api;
pub mod dev;
pub mod mac;
pub mod rt_variable;
pub mod wrapper;
pub mod xof_reader;

verus! {

/// Error returned when a variable-output hasher is constructed with an
/// output size of zero or above the algorithm's maximum.
#[derive(Clone, Copy, Debug, Default, PartialEq, Eq, Structural)]
pub struct InvalidOutputSize;

/// Error returned when a buffer cursor or raw buffer state is restored
/// from data of the wrong length.
#[derive(Clone, Copy, Debug, Default, PartialEq, Eq, Structural)]
pub struct InvalidBufferLength;

/// Error returned when a MAC key has a length outside the range the
/// algorithm accepts.
#[derive(Clone, Copy, Debug, Default, PartialEq, Eq, Structural)]
pub struct InvalidLength;

/// Error returned when MAC tag verification fails. It deliberately carries
/// no detail about where or whether bytes differed.
#[derive(Clone, Copy, Debug, Default, PartialEq, Eq, Structural)]
pub struct MacError;

/// Types which consume data with byte granularity.
///
/// The model of an updatable hasher has three parts: a well-formedness
/// invariant, the sequence of bytes absorbed since construction or the last
/// reset, and a session identifier that captures the initial state (empty
/// for plain hashes, key material for MACs) and never changes during a
/// session.
pub trait Update: Sized {
    /// Internal invariant of the hasher state.
    spec fn wf(&self) -> bool;

    /// All bytes absorbed since construction or the last reset.
    spec fn absorbed(&self) -> Seq<u8>;

    /// Identifier of the freshly-initialized state this session started
    /// from; preserved by `update` and `reset`.
    spec fn session_id(&self) -> Seq<u8>;

    /// Absorb `data` into the hasher state.
    fn update(&mut self, data: &[u8])
        requires
            old(self).wf(),
        ensures
            final(self).wf(),
            final(self).session_id() == old(self).session_id(),
            final(self).absorbed() == old(self).absorbed() + data@,
    ;

    /// Restore the hasher to its freshly-initialized state.
    fn reset(&mut self)
        requires
            old(self).wf(),
        ensures
            final(self).wf(),
            final(self).session_id() == old(self).session_id(),
            final(self).absorbed() == Seq::<u8>::empty(),
    ;
}

/// Types which return a fixed-size result after finalization.
pub trait FixedOutput: Update {
    /// Output size in bytes; positive.
    spec fn spec_output_size() -> usize;

    /// The digest as a pure function of the session identifier and of the
    /// absorbed bytes; always exactly `spec_output_size()` bytes.
    spec fn spec_digest(session: Seq<u8>, input: Seq<u8>) -> Seq<u8>;

    /// Output size of this hasher.
    fn output_size() -> (n: usize)
        ensures
            n == Self::spec_output_size(),
            0 < n,
    ;

    /// Consume the hasher and write the result into `out`.
    fn finalize_into(self, out: &mut Vec<u8>)
        requires
            self.wf(),
        ensures
            final(out)@ == Self::spec_digest(self.session_id(), self.absorbed()),
            final(out)@.len() == Self::spec_output_size(),
    ;

    /// Retrieve the result, consuming the hasher.
    fn finalize_fixed(self) -> (out: Vec<u8>)
        requires
            self.wf(),
        ensures
            out@ == Self::spec_digest(self.session_id(), self.absorbed()),
            out@.len() == Self::spec_output_size(),
    ;
}

/// Types which return a fixed-size result after finalization and reset
/// themselves to their initial state, ready for a fresh input stream
/// under the same session.
pub trait FixedOutputReset: FixedOutput {
    /// Write the result into `out` and reset the hasher.
    fn finalize_into_reset(&mut self, out: &mut Vec<u8>)
        requires
            old(self).wf(),
        ensures
            final(out)@ == Self::spec_digest(old(self).session_id(), old(self).absorbed()),
            final(out)@.len() == Self::spec_output_size(),
            final(self).wf(),
            final(self).session_id() == old(self).session_id(),
            final(self).absorbed() == Seq::<u8>::empty(),
    ;

    /// Retrieve the result and reset the hasher.
    fn finalize_fixed_reset(&mut self) -> (out: Vec<u8>)
        requires
            old(self).wf(),
        ensures
            out@ == Self::spec_digest(old(self).session_id(), old(self).absorbed()),
            out@.len() == Self::spec_output_size(),
            final(self).wf(),
            final(self).session_id() == old(self).session_id(),
            final(self).absorbed() == Seq::<u8>::empty(),
    ;
}

/// Readers which extract extendable output from an XOF result.
///
/// A reader stands on a conceptually infinite byte stream, fixed when the
/// reader was produced: `byte_at` gives the stream, `emitted` the number
/// of bytes handed out so far. Reads never signal an end of stream.
pub trait XofReader: Sized {
    /// Internal invariant of the reader state.
    spec fn wf(&self) -> bool;

    /// Number of stream bytes handed out so far.
    spec fn emitted(&self) -> int;

    /// Byte `i` of the output stream; fixed for the reader's lifetime.
    spec fn byte_at(&self, i: int) -> u8;

    /// Fill `out` (at its current length) with the next `out.len()` bytes
    /// of the stream. Any granularity works, zero-length reads included.
    fn read(&mut self, out: &mut Vec<u8>)
        requires
            old(self).wf(),
        ensures
            final(self).wf(),
            old(self).emitted() >= 0,
            final(out)@.len() == old(out)@.len(),
            final(self).emitted() == old(self).emitted() + old(out)@.len(),
            forall|i: int|
                0 <= i < final(out)@.len() ==> final(out)@[i] == old(self).byte_at(
                    old(self).emitted() + i,
                ),
            forall|i: int| final(self).byte_at(i) == old(self).byte_at(i),
    ;

    /// Read the next `n` stream bytes into a fresh vector.
    fn read_vec(&mut self, n: usize) -> (out: Vec<u8>)
        requires
            old(self).wf(),
        ensures
            final(self).wf(),
            old(self).emitted() >= 0,
            out@.len() == n,
            final(self).emitted() == old(self).emitted() + n,
            forall|i: int|
                0 <= i < n ==> out@[i] == old(self).byte_at(old(self).emitted() + i),
            forall|i: int| final(self).byte_at(i) == old(self).byte_at(i),
    ;
}

/// Extendable-output functions (XOF): hashers whose finalization yields
/// an unbounded output stream instead of a fixed-size digest.
pub trait ExtendableOutput: Update {
    /// Reader over the output stream.
    type Reader: XofReader;

    /// Byte `i` of the output stream for a given session and input.
    spec fn spec_xof_byte(session: Seq<u8>, input: Seq<u8>, i: int) -> u8;

    /// Consume the hasher and hand out a reader positioned at the start
    /// of the output stream for the absorbed input.
    fn finalize_xof(self) -> (r: Self::Reader)
        requires
            self.wf(),
        ensures
            r.wf(),
            r.emitted() == 0,
            forall|i: int|
                r.byte_at(i) == Self::spec_xof_byte(self.session_id(), self.absorbed(), i),
    ;

    /// Hand out a reader over the output stream and reset the hasher.
    fn finalize_xof_reset(&mut self) -> (r: Self::Reader)
        requires
            old(self).wf(),
        ensures
            r.wf(),
            r.emitted() == 0,
            forall|i: int|
                r.byte_at(i) == Self::spec_xof_byte(
                    old(self).session_id(),
                    old(self).absorbed(),
                    i,
                ),
            final(self).wf(),
            final(self).session_id() == old(self).session_id(),
            final(self).absorbed() == Seq::<u8>::empty(),
    ;
}

/// Variable output size hash functions: the output length is chosen at
/// construction, validated against the algorithm's maximum, folded into
/// the session for domain separation, and preserved across resets.
pub trait VariableOutput: Update {
    /// Maximum supported output size in bytes; positive.
    spec fn spec_max_output_size() -> usize;

    /// The output size encoded in a session identifier.
    spec fn spec_out_size_of(session: Seq<u8>) -> usize;

    /// The session chosen for a given output size.
    spec fn spec_session_of(output_size: usize) -> Seq<u8>;

    /// The digest as a pure function of the session identifier and of
    /// the absorbed bytes; always exactly `spec_out_size_of(session)`
    /// bytes.
    spec fn spec_var_digest(session: Seq<u8>, input: Seq<u8>) -> Seq<u8>;

    /// Maximum supported output size of this hasher.
    fn max_output_size() -> (n: usize)
        ensures
            n == Self::spec_max_output_size(),
            0 < n,
    ;

    /// Create a hasher producing `output_size` bytes; fails with
    /// [`InvalidOutputSize`] iff `output_size` is zero or above the
    /// maximum.
    fn new(output_size: usize) -> (r: Result<Self, InvalidOutputSize>)
        ensures
            (r is Ok) <==> (1 <= output_size <= Self::spec_max_output_size()),
            r matches Ok(m) ==> m.wf() && m.absorbed() == Seq::<u8>::empty() && m.session_id()
                == Self::spec_session_of(output_size) && Self::spec_out_size_of(m.session_id())
                == output_size,
    ;

    /// The output size chosen at construction.
    fn output_size(&self) -> (n: usize)
        requires
            self.wf(),
        ensures
            n == Self::spec_out_size_of(self.session_id()),
    ;

    /// Consume the hasher and write the digest — exactly the output size
    /// chosen at construction — into `out`, replacing its contents; the
    /// caller decides where those bytes land.
    fn finalize_variable(self, out: &mut Vec<u8>)
        requires
            self.wf(),
        ensures
            final(out)@ == Self::spec_var_digest(self.session_id(), self.absorbed()),
            final(out)@.len() == Self::spec_out_size_of(self.session_id()),
    ;

    /// Write the digest into `out` and reset the hasher; the output size
    /// is a construction-time parameter and survives the reset.
    fn finalize_variable_reset(&mut self, out: &mut Vec<u8>)
        requires
            old(self).wf(),
        ensures
            final(out)@ == Self::spec_var_digest(old(self).session_id(), old(self).absorbed()),
            final(out)@.len() == Self::spec_out_size_of(old(self).session_id()),
            final(self).wf(),
            final(self).session_id() == old(self).session_id(),
            final(self).absorbed() == Seq::<u8>::empty(),
    ;
}

} // verus!
