//! Arbitrary-granularity, unbounded byte reader over a block-producing
//! XOF reader core.

use vstd::prelude::*;

use vstd::arithmetic::div_mod::{
    lemma_fundamental_div_mod_converse_div, lemma_fundamental_div_mod_converse_mod,
};

use crate::core_api::XofReaderCore;
use crate::XofReader;

verus! {

/// Byte `i` of the stream that a reader core with seed `seed` produces:
/// the stream is the concatenation of the core's blocks.
pub open spec fn xof_stream_byte<R: XofReaderCore>(seed: Seq<u8>, i: int) -> u8 {
    R::spec_block(seed, (i / (R::spec_block_size() as int)) as nat)[i % (
    R::spec_block_size() as int)]
}

/// Turns a block-producing XOF reader core into a byte reader serving
/// requests of any size.
///
/// State: the current block, a cursor into it, and a flag telling whether
/// a block has been pulled yet; a fresh block is pulled from the core
/// exactly when the current one is exhausted.
pub struct XofReaderCoreWrapper<R: XofReaderCore> {
    core: R,
    block: Vec<u8>,
    pos: usize,
    loaded: bool,
}

impl<R: XofReaderCore> XofReaderCoreWrapper<R> {
    /// Wrap a reader core positioned at the start of its stream.
    pub fn from_core(core: R) -> (r: Self)
        requires
            core.wf(),
            core.produced() == 0,
        ensures
            r.wf(),
            r.emitted() == 0,
            forall|i: int| r.byte_at(i) == xof_stream_byte::<R>(core.seed(), i),
    {
        XofReaderCoreWrapper { core, block: Vec::new(), pos: 0, loaded: false }
    }
}

impl<R: XofReaderCore> XofReader for XofReaderCoreWrapper<R> {
    closed spec fn wf(&self) -> bool {
        &&& self.core.wf()
        &&& if self.loaded {
            &&& self.core.produced() >= 1
            &&& self.block@ == R::spec_block(
                self.core.seed(),
                (self.core.produced() - 1) as nat,
            )
            &&& self.block@.len() == R::spec_block_size()
            &&& self.pos <= R::spec_block_size()
        } else {
            &&& self.core.produced() == 0
            &&& self.pos == 0
        }
    }

    closed spec fn emitted(&self) -> int {
        if self.loaded {
            (self.core.produced() - 1) * (R::spec_block_size() as int) + self.pos
        } else {
            0
        }
    }

    closed spec fn byte_at(&self, i: int) -> u8 {
        xof_stream_byte::<R>(self.core.seed(), i)
    }

    fn read(&mut self, out: &mut Vec<u8>) {
        let n = out.len();
        let bs = R::block_size();
        proof {
            if self.loaded {
                let p0: int = self.core.produced() as int;
                let w: int = R::spec_block_size() as int;
                assert((p0 - 1) * w >= 0) by (nonlinear_arith)
                    requires
                        p0 >= 1,
                        w > 0,
                ;
            }
        }
        let ghost seed = self.core.seed();
        let ghost e0 = self.emitted();
        let mut t: usize = 0;
        while t < n
            invariant
                t <= n,
                n == out@.len(),
                bs == R::spec_block_size(),
                0 < bs,
                self.wf(),
                self.core.seed() == seed,
                self.emitted() == e0 + t,
                e0 >= 0,
                forall|u: int| 0 <= u < t ==> out@[u] == xof_stream_byte::<R>(seed, e0 + u),
            decreases n - t,
        {
            if !self.loaded || self.pos == bs {
                let ghost p0 = self.core.produced();
                let ghost was_loaded = self.loaded;
                let nb = self.core.read_block();
                proof {
                    R::block_len(seed, p0);
                }
                self.block = nb;
                self.pos = 0;
                self.loaded = true;
                proof {
                    if was_loaded {
                        assert((p0 + 1 - 1) * (bs as int) == (p0 - 1) * (bs as int)
                            + bs as int) by (nonlinear_arith);
                    } else {
                        assert((p0 + 1 - 1) * (bs as int) == 0) by (nonlinear_arith)
                            requires
                                p0 == 0,
                        ;
                    }
                    assert(self.emitted() == e0 + t);
                }
            }
            let b = self.block[self.pos];
            proof {
                let p: int = self.core.produced() as int;
                let e: int = e0 + t;
                assert(e == (p - 1) * (bs as int) + self.pos);
                lemma_fundamental_div_mod_converse_div(e, bs as int, p - 1, self.pos as int);
                lemma_fundamental_div_mod_converse_mod(e, bs as int, p - 1, self.pos as int);
                assert(b == xof_stream_byte::<R>(seed, e));
            }
            out[t] = b;
            self.pos = self.pos + 1;
            t += 1;
        }
    }

    fn read_vec(&mut self, n: usize) -> (out: Vec<u8>) {
        let mut out: Vec<u8> = vec![0u8; n];
        self.read(&mut out);
        out
    }
}

/// Reading a stretch of the stream in chunks yields exactly the bytes of
/// one read covering the whole stretch: the chunks concatenate to the
/// same stream range, whatever the chunk sizes (single bytes and empty
/// chunks included).
pub proof fn lemma_read_chunking<X: XofReader>(r: X, e: int, n1: nat, n2: nat)
    ensures
        Seq::new(n1 + n2, |i: int| r.byte_at(e + i)) == Seq::new(n1, |i: int| r.byte_at(e + i))
            + Seq::new(n2, |i: int| r.byte_at(e + n1 + i)),
{
    assert(Seq::new(n1 + n2, |i: int| r.byte_at(e + i)) =~= Seq::new(
        n1,
        |i: int| r.byte_at(e + i),
    ) + Seq::new(n2, |i: int| r.byte_at(e + n1 + i)));
}

} // verus!
