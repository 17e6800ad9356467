//! Block-level traits an algorithm core must provide.
//!
//! A core consumes data one block at a time and never buffers partial
//! input itself; the wrappers in this crate pair a core with a
//! [`BlockBuffer`] and expose byte-granularity interfaces on top.
//!
//! Each core is modelled by three spec-level components: a well-formedness
//! invariant, an `init_id` identifying the freshly-initialized state (empty
//! for plain hashes, key or domain-separation material otherwise), and the
//! sequence of bytes `consumed` through whole-block updates since the state
//! was (re)initialized. Finalization results are specified as pure
//! functions of `init_id` and of all input bytes, which is what makes the
//! byte-stream wrappers' streaming guarantees provable.

use vstd::prelude::*;

use crate::buffer::BlockBuffer;
use crate::InvalidOutputSize;

verus! {

/// Algorithm identification for introspection by higher layers.
pub trait AlgorithmName {
    /// Human-readable name of the algorithm.
    fn algorithm_name() -> &'static str;
}

/// Types which consume data in whole blocks.
pub trait UpdateCore: Sized {
    /// Block size in bytes; positive.
    spec fn spec_block_size() -> usize;

    /// Internal invariant of the core state.
    spec fn wf(&self) -> bool;

    /// Identifier of the freshly-initialized state; never changed by
    /// updates or resets.
    spec fn init_id(&self) -> Seq<u8>;

    /// Bytes absorbed through `update_blocks` since (re)initialization.
    spec fn consumed(&self) -> Seq<u8>;

    /// Block size of this core.
    fn block_size() -> (bs: usize)
        ensures
            bs == Self::spec_block_size(),
            0 < bs,
    ;

    /// Update the state with `blocks`, a concatenation of whole blocks.
    fn update_blocks(&mut self, blocks: &[u8])
        requires
            old(self).wf(),
            (blocks@.len() as int) % (Self::spec_block_size() as int) == 0,
        ensures
            final(self).wf(),
            final(self).init_id() == old(self).init_id(),
            final(self).consumed() == old(self).consumed() + blocks@,
    ;

    /// Restore the state to its freshly-initialized form.
    fn reset(&mut self)
        requires
            old(self).wf(),
        ensures
            final(self).wf(),
            final(self).init_id() == old(self).init_id(),
            final(self).consumed() == Seq::<u8>::empty(),
    ;
}

/// Core trait for hash functions with fixed output size.
pub trait FixedOutputCore: UpdateCore {
    /// Output size in bytes; positive.
    spec fn spec_output_size() -> usize;

    /// The digest as a pure function of the initial state and of all
    /// input bytes (buffered tail included); always exactly
    /// `spec_output_size()` bytes.
    spec fn spec_finalize(init: Seq<u8>, input: Seq<u8>) -> Seq<u8>;

    /// Output size of this core.
    fn output_size() -> (n: usize)
        ensures
            n == Self::spec_output_size(),
            0 < n,
    ;

    /// Finalize using the remaining data in `buffer` (applying the
    /// algorithm's padding) and return the digest. The core is left
    /// dirty but well formed; only `reset` gives it a defined state.
    fn finalize_fixed_core(&mut self, buffer: &mut BlockBuffer) -> (out: Vec<u8>)
        requires
            old(self).wf(),
            old(buffer).wf(),
            old(buffer).spec_block_size() == Self::spec_block_size(),
        ensures
            out@ == Self::spec_finalize(
                old(self).init_id(),
                old(self).consumed() + old(buffer).pending(),
            ),
            out@.len() == Self::spec_output_size(),
            final(self).wf(),
            final(self).init_id() == old(self).init_id(),
            final(buffer).wf(),
            final(buffer).spec_block_size() == old(buffer).spec_block_size(),
    ;
}

/// Core reader trait for extendable-output function (XOF) results.
///
/// A reader produces an unbounded sequence of blocks, determined entirely
/// by its `seed`; `produced` counts the blocks read so far.
pub trait XofReaderCore: Sized {
    /// Block size in bytes; positive.
    spec fn spec_block_size() -> usize;

    /// Internal invariant of the reader state.
    spec fn wf(&self) -> bool;

    /// Seed determining the whole output stream; never changes.
    spec fn seed(&self) -> Seq<u8>;

    /// Number of blocks read so far.
    spec fn produced(&self) -> nat;

    /// Block `i` of the stream for a given seed; always exactly
    /// `spec_block_size()` bytes.
    spec fn spec_block(seed: Seq<u8>, i: nat) -> Seq<u8>;

    /// Block size of this reader.
    fn block_size() -> (bs: usize)
        ensures
            bs == Self::spec_block_size(),
            0 < bs,
    ;

    /// Every stream block has exactly the block size.
    proof fn block_len(seed: Seq<u8>, i: nat)
        ensures
            Self::spec_block(seed, i).len() == Self::spec_block_size(),
    ;

    /// Read the next block of the stream.
    fn read_block(&mut self) -> (b: Vec<u8>)
        requires
            old(self).wf(),
        ensures
            final(self).wf(),
            final(self).seed() == old(self).seed(),
            final(self).produced() == old(self).produced() + 1,
            b@ == Self::spec_block(old(self).seed(), old(self).produced()),
    ;
}

/// Core trait for hash functions with extendable (XOF) output.
pub trait ExtendableOutputCore: UpdateCore {
    /// XOF reader core state.
    type ReaderCore: XofReaderCore;

    /// Seed of the output stream as a pure function of the initial state
    /// and of all input bytes.
    spec fn spec_xof_seed(init: Seq<u8>, input: Seq<u8>) -> Seq<u8>;

    /// Finalize using the remaining data in `buffer` and return a fresh
    /// reader core positioned at the start of the stream. The hasher core
    /// is left dirty but well formed.
    fn finalize_xof_core(&mut self, buffer: &mut BlockBuffer) -> (r: Self::ReaderCore)
        requires
            old(self).wf(),
            old(buffer).wf(),
            old(buffer).spec_block_size() == Self::spec_block_size(),
        ensures
            r.wf(),
            r.produced() == 0,
            r.seed() == Self::spec_xof_seed(
                old(self).init_id(),
                old(self).consumed() + old(buffer).pending(),
            ),
            final(self).wf(),
            final(self).init_id() == old(self).init_id(),
            final(buffer).wf(),
            final(buffer).spec_block_size() == old(buffer).spec_block_size(),
    ;
}

/// Core trait for hash functions with runtime-variable output size.
///
/// The output size is chosen at initialization, folded into the initial
/// state (`init_id`) for domain separation, and therefore survives resets.
pub trait VariableOutputCore: UpdateCore {
    /// Maximum supported output size in bytes; positive.
    spec fn spec_max_output_size() -> usize;

    /// The output size encoded in an initial state.
    spec fn spec_out_size_of(init: Seq<u8>) -> usize;

    /// The initial state chosen for a given output size.
    spec fn spec_init_of(output_size: usize) -> Seq<u8>;

    /// The digest as a pure function of the initial state and of all
    /// input bytes; always exactly `spec_out_size_of(init)` bytes.
    spec fn spec_var_finalize(init: Seq<u8>, input: Seq<u8>) -> Seq<u8>;

    /// Maximum supported output size of this core.
    fn max_output_size() -> (n: usize)
        ensures
            n == Self::spec_max_output_size(),
            0 < n,
    ;

    /// Initialize the state for the given output size; fails with
    /// [`InvalidOutputSize`] iff `output_size` is zero or above the
    /// maximum.
    fn new(output_size: usize) -> (r: Result<Self, InvalidOutputSize>)
        ensures
            (r is Ok) <==> (1 <= output_size <= Self::spec_max_output_size()),
            r matches Ok(c) ==> c.wf() && c.consumed() == Seq::<u8>::empty() && c.init_id()
                == Self::spec_init_of(output_size) && Self::spec_out_size_of(c.init_id())
                == output_size,
    ;

    /// Finalize using the remaining data in `buffer` and return the
    /// digest of the size chosen at initialization. The core is left
    /// dirty but well formed.
    fn finalize_variable_core(&mut self, buffer: &mut BlockBuffer) -> (out: Vec<u8>)
        requires
            old(self).wf(),
            old(buffer).wf(),
            old(buffer).spec_block_size() == Self::spec_block_size(),
        ensures
            out@ == Self::spec_var_finalize(
                old(self).init_id(),
                old(self).consumed() + old(buffer).pending(),
            ),
            out@.len() == Self::spec_out_size_of(old(self).init_id()),
            final(self).wf(),
            final(self).init_id() == old(self).init_id(),
            final(buffer).wf(),
            final(buffer).spec_block_size() == old(buffer).spec_block_size(),
    ;
}

} // verus!
