//! Runtime-sized variable-output adapter: the output length is chosen at
//! construction, validated there, and survives resets.
//!
//! This one runtime-checked wrapper also serves where a statically-known
//! output length is wanted from a variable-output core (truncated-digest
//! families with per-length initialization): the length is validated once
//! at construction, folded into the core's initial state for domain
//! separation, and fixed for the hasher's whole lifetime. Keeping a single
//! wrapper instead of a separate compile-time-sized twin is a deliberate
//! simplification, at the cost of one runtime check per construction.

use vstd::prelude::*;

use crate::buffer::BlockBuffer;
use crate::core_api::{UpdateCore, VariableOutputCore};
use crate::{InvalidOutputSize, Update, VariableOutput};

verus! {

/// Byte-stream hasher with a runtime-chosen output size, built from a
/// variable-output block-level core and a [`BlockBuffer`].
pub struct RtVariableCoreWrapper<C: VariableOutputCore> {
    core: C,
    buffer: BlockBuffer,
    output_size: usize,
}

impl<C: VariableOutputCore> Update for RtVariableCoreWrapper<C> {
    closed spec fn wf(&self) -> bool {
        &&& self.core.wf()
        &&& self.buffer.wf()
        &&& self.buffer.spec_block_size() == C::spec_block_size()
        &&& self.output_size == C::spec_out_size_of(self.core.init_id())
        &&& 1 <= self.output_size <= C::spec_max_output_size()
    }

    closed spec fn absorbed(&self) -> Seq<u8> {
        self.core.consumed() + self.buffer.pending()
    }

    closed spec fn session_id(&self) -> Seq<u8> {
        self.core.init_id()
    }

    fn update(&mut self, data: &[u8]) {
        self.buffer.ingest(data, &mut self.core);
    }

    fn reset(&mut self) {
        self.core.reset();
        self.buffer.reset();
        proof {
            assert(self.absorbed() =~= Seq::<u8>::empty());
        }
    }
}

impl<C: VariableOutputCore> VariableOutput for RtVariableCoreWrapper<C> {
    open spec fn spec_max_output_size() -> usize {
        C::spec_max_output_size()
    }

    open spec fn spec_out_size_of(session: Seq<u8>) -> usize {
        C::spec_out_size_of(session)
    }

    open spec fn spec_session_of(output_size: usize) -> Seq<u8> {
        C::spec_init_of(output_size)
    }

    open spec fn spec_var_digest(session: Seq<u8>, input: Seq<u8>) -> Seq<u8> {
        C::spec_var_finalize(session, input)
    }

    fn max_output_size() -> (n: usize) {
        C::max_output_size()
    }

    fn new(output_size: usize) -> (r: Result<Self, InvalidOutputSize>) {
        match C::new(output_size) {
            Ok(core) => {
                let bs = C::block_size();
                let w = RtVariableCoreWrapper { core, buffer: BlockBuffer::new(bs), output_size };
                proof {
                    assert(w.absorbed() =~= Seq::<u8>::empty());
                }
                Ok(w)
            },
            Err(e) => Err(e),
        }
    }

    fn output_size(&self) -> (n: usize) {
        self.output_size
    }

    fn finalize_variable(self, out: &mut Vec<u8>) {
        let RtVariableCoreWrapper { mut core, mut buffer, output_size } = self;
        let v = core.finalize_variable_core(&mut buffer);
        *out = v;
    }

    fn finalize_variable_reset(&mut self, out: &mut Vec<u8>) {
        let v = self.core.finalize_variable_core(&mut self.buffer);
        self.core.reset();
        self.buffer.reset();
        *out = v;
        proof {
            assert(self.absorbed() =~= Seq::<u8>::empty());
        }
    }
}

/// One-shot variable-output digest: create a hasher for `output_size`,
/// absorb `input`, and write the digest into `out`, replacing its
/// contents; fails with [`InvalidOutputSize`] — leaving `out` untouched —
/// iff `output_size` is zero or above the maximum.
pub fn digest_variable<V: VariableOutput>(
    input: &[u8],
    output_size: usize,
    out: &mut Vec<u8>,
) -> (r: Result<(), InvalidOutputSize>)
    ensures
        (r is Ok) <==> (1 <= output_size <= V::spec_max_output_size()),
        r is Ok ==> final(out)@ == V::spec_var_digest(V::spec_session_of(output_size), input@)
            && final(out)@.len() == output_size,
        r is Err ==> final(out)@ == old(out)@,
{
    match V::new(output_size) {
        Ok(h) => {
            let mut h = h;
            h.update(input);
            proof {
                assert(h.absorbed() =~= input@);
            }
            h.finalize_variable(out);
            Ok(())
        },
        Err(e) => Err(e),
    }
}

} // verus!
