//! Fixed-output adapter composing a block buffer with an algorithm core.

use vstd::prelude::*;

use crate::buffer::BlockBuffer;
use crate::core_api::{
    AlgorithmName, ExtendableOutputCore, FixedOutputCore, UpdateCore, XofReaderCore,
};
use crate::xof_reader::{xof_stream_byte, XofReaderCoreWrapper};
use crate::{ExtendableOutput, FixedOutput, FixedOutputReset, Update, XofReader};

verus! {

/// Byte-stream hasher built from a block-level core and a [`BlockBuffer`].
///
/// `update` routes bytes through the buffer, dispatching whole blocks to
/// the core; finalization hands the pending tail to the core's own
/// finalize-and-pad step.
pub struct CoreWrapper<C: UpdateCore> {
    core: C,
    buffer: BlockBuffer,
}

impl<C: UpdateCore> CoreWrapper<C> {
    /// Wrap a freshly-initialized core together with an empty buffer.
    pub fn from_core(core: C) -> (w: Self)
        requires
            core.wf(),
            core.consumed() == Seq::<u8>::empty(),
        ensures
            w.wf(),
            w.absorbed() == Seq::<u8>::empty(),
            w.session_id() == core.init_id(),
    {
        let bs = C::block_size();
        let w = CoreWrapper { core, buffer: BlockBuffer::new(bs) };
        proof {
            assert(w.absorbed() =~= Seq::<u8>::empty());
        }
        w
    }
}

impl<C: UpdateCore + AlgorithmName> AlgorithmName for CoreWrapper<C> {
    fn algorithm_name() -> &'static str {
        C::algorithm_name()
    }
}

impl<C: UpdateCore> Update for CoreWrapper<C> {
    closed spec fn wf(&self) -> bool {
        &&& self.core.wf()
        &&& self.buffer.wf()
        &&& self.buffer.spec_block_size() == C::spec_block_size()
    }

    closed spec fn absorbed(&self) -> Seq<u8> {
        self.core.consumed() + self.buffer.pending()
    }

    closed spec fn session_id(&self) -> Seq<u8> {
        self.core.init_id()
    }

    fn update(&mut self, data: &[u8]) {
        self.buffer.ingest(data, &mut self.core);
    }

    fn reset(&mut self) {
        self.core.reset();
        self.buffer.reset();
        proof {
            assert(self.absorbed() =~= Seq::<u8>::empty());
        }
    }
}

impl<C: FixedOutputCore> FixedOutput for CoreWrapper<C> {
    open spec fn spec_output_size() -> usize {
        C::spec_output_size()
    }

    open spec fn spec_digest(session: Seq<u8>, input: Seq<u8>) -> Seq<u8> {
        C::spec_finalize(session, input)
    }

    fn output_size() -> (n: usize) {
        C::output_size()
    }

    fn finalize_into(self, out: &mut Vec<u8>) {
        let CoreWrapper { mut core, mut buffer } = self;
        let v = core.finalize_fixed_core(&mut buffer);
        *out = v;
    }

    fn finalize_fixed(self) -> (out: Vec<u8>) {
        let CoreWrapper { mut core, mut buffer } = self;
        core.finalize_fixed_core(&mut buffer)
    }
}

impl<C: FixedOutputCore> FixedOutputReset for CoreWrapper<C> {
    fn finalize_into_reset(&mut self, out: &mut Vec<u8>) {
        let v = self.core.finalize_fixed_core(&mut self.buffer);
        self.core.reset();
        self.buffer.reset();
        *out = v;
        proof {
            assert(self.absorbed() =~= Seq::<u8>::empty());
        }
    }

    fn finalize_fixed_reset(&mut self) -> (out: Vec<u8>) {
        let v = self.core.finalize_fixed_core(&mut self.buffer);
        self.core.reset();
        self.buffer.reset();
        proof {
            assert(self.absorbed() =~= Seq::<u8>::empty());
        }
        v
    }
}

impl<C: FixedOutputCore> CoreWrapper<C> {
    /// One-shot digest: wrap `core`, absorb `data`, finalize.
    pub fn digest(core: C, data: &[u8]) -> (out: Vec<u8>)
        requires
            core.wf(),
            core.consumed() == Seq::<u8>::empty(),
        ensures
            out@ == C::spec_finalize(core.init_id(), data@),
            out@.len() == C::spec_output_size(),
    {
        let mut w = Self::from_core(core);
        w.update(data);
        proof {
            assert(w.absorbed() =~= data@);
        }
        w.finalize_fixed()
    }
}

impl<C: ExtendableOutputCore> ExtendableOutput for CoreWrapper<C> {
    type Reader = XofReaderCoreWrapper<C::ReaderCore>;

    open spec fn spec_xof_byte(session: Seq<u8>, input: Seq<u8>, i: int) -> u8 {
        xof_stream_byte::<C::ReaderCore>(C::spec_xof_seed(session, input), i)
    }

    fn finalize_xof(self) -> (r: Self::Reader) {
        let CoreWrapper { mut core, mut buffer } = self;
        let rc = core.finalize_xof_core(&mut buffer);
        XofReaderCoreWrapper::from_core(rc)
    }

    fn finalize_xof_reset(&mut self) -> (r: Self::Reader) {
        let rc = self.core.finalize_xof_core(&mut self.buffer);
        self.core.reset();
        self.buffer.reset();
        proof {
            assert(self.absorbed() =~= Seq::<u8>::empty());
        }
        XofReaderCoreWrapper::from_core(rc)
    }
}

impl<C: ExtendableOutputCore> CoreWrapper<C> {
    /// One-shot XOF digest: wrap `core`, absorb `input`, finalize, and
    /// fill `out` (at its current length) with the start of the output
    /// stream.
    pub fn digest_xof(core: C, input: &[u8], out: &mut Vec<u8>)
        requires
            core.wf(),
            core.consumed() == Seq::<u8>::empty(),
        ensures
            final(out)@.len() == old(out)@.len(),
            forall|i: int|
                0 <= i < final(out)@.len() ==> final(out)@[i] == xof_stream_byte::<
                    C::ReaderCore,
                >(C::spec_xof_seed(core.init_id(), input@), i),
    {
        let mut w = Self::from_core(core);
        w.update(input);
        proof {
            assert(w.absorbed() =~= input@);
        }
        let mut r = w.finalize_xof();
        r.read(out);
    }
}

/// How the bytes absorbed by a hasher accumulate across a sequence of
/// `update` calls: each chunk is appended, as `Update::update` ensures.
pub open spec fn absorb_chunks(a0: Seq<u8>, chunks: Seq<Seq<u8>>) -> Seq<u8>
    decreases chunks.len(),
{
    if chunks.len() == 0 {
        a0
    } else {
        absorb_chunks(a0, chunks.drop_last()) + chunks.last()
    }
}

/// Streaming invariant: absorbing any sequence of update chunks yields
/// exactly the concatenation of the chunks, so a digest — a pure function
/// of the absorbed bytes — does not depend on how the input was split
/// across `update` calls.
pub proof fn lemma_absorb_chunks_is_concat(a0: Seq<u8>, chunks: Seq<Seq<u8>>)
    ensures
        absorb_chunks(a0, chunks) == a0 + chunks.flatten(),
    decreases chunks.len(),
{
    chunks.lemma_flatten_and_flatten_alt_are_equivalent();
    if chunks.len() == 0 {
        assert(chunks.flatten_alt() =~= Seq::<u8>::empty());
        assert(a0 + chunks.flatten_alt() =~= a0);
    } else {
        lemma_absorb_chunks_is_concat(a0, chunks.drop_last());
        chunks.drop_last().lemma_flatten_and_flatten_alt_are_equivalent();
        assert(chunks.flatten_alt() == chunks.drop_last().flatten_alt() + chunks.last());
        assert(a0 + (chunks.drop_last().flatten_alt() + chunks.last()) =~= (a0
            + chunks.drop_last().flatten_alt()) + chunks.last());
    }
}

/// Splitting the input across any sequence of `update` calls whose
/// concatenation is the same yields an identical finalize result.
pub proof fn lemma_streaming_split<C: FixedOutputCore>(
    init: Seq<u8>,
    chunks1: Seq<Seq<u8>>,
    chunks2: Seq<Seq<u8>>,
)
    requires
        chunks1.flatten() == chunks2.flatten(),
    ensures
        C::spec_finalize(init, absorb_chunks(Seq::<u8>::empty(), chunks1)) == C::spec_finalize(
            init,
            absorb_chunks(Seq::<u8>::empty(), chunks2),
        ),
{
    lemma_absorb_chunks_is_concat(Seq::<u8>::empty(), chunks1);
    lemma_absorb_chunks_is_concat(Seq::<u8>::empty(), chunks2);
}

/// A hasher that starts with nothing absorbed — freshly constructed, or
/// just reset by a `*_reset` finalize — digests an input stream exactly as
/// the one-shot [`CoreWrapper::digest`] does: absorbing `input` on top of
/// an empty history digests `input` itself.
pub proof fn lemma_digest_from_fresh<C: FixedOutputCore>(init: Seq<u8>, input: Seq<u8>)
    ensures
        C::spec_finalize(init, Seq::<u8>::empty() + input) == C::spec_finalize(init, input),
{
    assert(Seq::<u8>::empty() + input =~= input);
}

} // verus!
