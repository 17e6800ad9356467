//! Fixed-capacity buffer that accumulates bytes into whole blocks.

use vstd::prelude::*;

use vstd::arithmetic::div_mod::{
    lemma_fundamental_div_mod, lemma_mod_multiples_basic, lemma_mod_multiples_vanish,
    lemma_mod_bound, lemma_mod_self_0, lemma_small_mod,
};
use vstd::arithmetic::mul::lemma_mul_is_commutative;
use vstd::slice::slice_subrange;

use crate::core_api::UpdateCore;
use crate::InvalidBufferLength;

verus! {

/// `n` zero bytes.
pub open spec fn zero_bytes(n: int) -> Seq<u8> {
    Seq::new(n as nat, |i: int| 0u8)
}

/// Accumulates bytes into blocks of a fixed size chosen at construction.
///
/// The buffer owns one block's worth of storage and a cursor `pos`; the
/// bytes below the cursor are the pending partial block. Between calls the
/// cursor is strictly below the block size: a just-completed block is
/// dispatched to the core immediately, never left pending.
pub struct BlockBuffer {
    buf: Vec<u8>,
    pos: usize,
}

impl BlockBuffer {
    /// Block size in bytes.
    pub closed spec fn spec_block_size(&self) -> usize {
        self.buf.len()
    }

    /// Cursor position: number of pending bytes.
    pub closed spec fn spec_pos(&self) -> usize {
        self.pos
    }

    /// The raw block storage, pending bytes first; the tail above the
    /// cursor is unspecified scratch space.
    pub closed spec fn raw(&self) -> Seq<u8> {
        self.buf@
    }

    /// The pending partial block.
    pub closed spec fn pending(&self) -> Seq<u8> {
        self.buf@.take(self.pos as int)
    }

    /// Internal invariant: positive block size, cursor strictly below it.
    pub closed spec fn wf(&self) -> bool {
        0 < self.buf.len() && self.pos < self.buf.len()
    }

    /// The pending partial block is always strictly shorter than a
    /// block, and exactly as long as the cursor stands high.
    pub proof fn lemma_pending_short(&self)
        requires
            self.wf(),
        ensures
            self.pending().len() == self.spec_pos(),
            self.pending().len() < self.spec_block_size(),
            0 < self.spec_block_size(),
    {
    }

    /// Create an empty buffer for the given block size.
    pub fn new(block_size: usize) -> (r: BlockBuffer)
        requires
            0 < block_size,
        ensures
            r.wf(),
            r.spec_block_size() == block_size,
            r.pending() == Seq::<u8>::empty(),
    {
        let buf: Vec<u8> = vec![0u8; block_size];
        BlockBuffer { buf, pos: 0 }
    }

    /// Block size of this buffer.
    pub fn block_size(&self) -> (bs: usize)
        ensures
            bs == self.spec_block_size(),
    {
        self.buf.len()
    }

    /// Current cursor position.
    pub fn get_pos(&self) -> (p: usize)
        requires
            self.wf(),
        ensures
            p == self.spec_pos(),
            p as int == self.pending().len(),
    {
        self.pos
    }

    /// Move the cursor to `p`, keeping the stored bytes; fails iff `p`
    /// does not lie strictly below the block size, leaving the buffer
    /// untouched in that case.
    pub fn set_pos(&mut self, p: usize) -> (r: Result<(), InvalidBufferLength>)
        requires
            old(self).wf(),
        ensures
            final(self).wf(),
            (r is Ok) <==> p < old(self).spec_block_size(),
            r is Ok ==> final(self).raw() == old(self).raw() && final(self).spec_pos() == p,
            r is Err ==> *final(self) == *old(self),
    {
        if p < self.buf.len() {
            self.pos = p;
            Ok(())
        } else {
            Err(InvalidBufferLength)
        }
    }

    /// A copy of the raw block storage, for persisting a session
    /// together with [`Self::get_pos`].
    pub fn raw_block(&self) -> (r: Vec<u8>)
        ensures
            r@ == self.raw(),
    {
        self.buf.clone()
    }

    /// Restore a persisted `(raw bytes, cursor)` state; fails iff `raw`
    /// does not have exactly the block size or the cursor does not lie
    /// strictly below it, leaving the current state untouched then.
    pub fn restore(&mut self, raw: &[u8], p: usize) -> (r: Result<(), InvalidBufferLength>)
        requires
            old(self).wf(),
        ensures
            final(self).wf(),
            final(self).spec_block_size() == old(self).spec_block_size(),
            (r is Ok) <==> raw@.len() == old(self).spec_block_size() && p < old(
                self,
            ).spec_block_size(),
            r is Ok ==> final(self).raw() == raw@ && final(self).spec_pos() == p,
            r is Err ==> *final(self) == *old(self),
    {
        if raw.len() == self.buf.len() && p < self.buf.len() {
            let mut nb: Vec<u8> = Vec::new();
            let n = raw.len();
            let mut j: usize = 0;
            while j < n
                invariant
                    j <= n,
                    n == raw@.len(),
                    nb@ == raw@.take(j as int),
                decreases n - j,
            {
                nb.push(raw[j]);
                j += 1;
            }
            assert(nb@ =~= raw@);
            self.buf = nb;
            self.pos = p;
            Ok(())
        } else {
            Err(InvalidBufferLength)
        }
    }

    /// Empty the pending partial block, keeping the storage.
    pub fn reset(&mut self)
        requires
            old(self).wf(),
        ensures
            final(self).wf(),
            final(self).spec_block_size() == old(self).spec_block_size(),
            final(self).pending() == Seq::<u8>::empty(),
    {
        self.pos = 0;
    }

    /// Zero-pad the pending partial block to a whole block and hand it
    /// out, emptying the buffer: the padding step of finalization for
    /// cores that use zero padding. When nothing is pending this yields
    /// a whole block of zeros.
    pub fn pad_zero_block(&mut self) -> (b: Vec<u8>)
        requires
            old(self).wf(),
        ensures
            final(self).wf(),
            final(self).spec_block_size() == old(self).spec_block_size(),
            final(self).pending() == Seq::<u8>::empty(),
            b@ == old(self).pending() + zero_bytes(
                old(self).spec_block_size() - old(self).pending().len(),
            ),
            b@.len() == old(self).spec_block_size(),
    {
        let bs = self.buf.len();
        let mut b: Vec<u8> = Vec::new();
        let mut j: usize = 0;
        while j < self.pos
            invariant
                j <= self.pos,
                self.pos < bs,
                bs == self.buf@.len(),
                b@ == self.buf@.take(j as int),
            decreases self.pos - j,
        {
            let x = self.buf[j];
            b.push(x);
            j += 1;
        }
        while b.len() < bs
            invariant
                self.pos < bs,
                bs == self.buf@.len(),
                self.pos <= b@.len() <= bs,
                b@ == self.buf@.take(self.pos as int) + zero_bytes(b@.len() - self.pos),
            decreases bs - b@.len(),
        {
            b.push(0u8);
            proof {
                assert(b@ =~= self.buf@.take(self.pos as int) + zero_bytes(
                    b@.len() - self.pos,
                ));
            }
        }
        self.pos = 0;
        b
    }

    /// Absorb `data`, dispatching every completed block to `core`.
    ///
    /// Any pending partial block is topped off first and dispatched as
    /// soon as it completes; remaining whole blocks of `data` are
    /// dispatched directly from `data` without copying; a leftover tail
    /// shorter than a block is stored as the new pending partial block.
    #[verifier::rlimit(60)]
    pub fn ingest<C: UpdateCore>(&mut self, data: &[u8], core: &mut C)
        requires
            old(self).wf(),
            old(core).wf(),
            old(self).spec_block_size() == C::spec_block_size(),
        ensures
            final(self).wf(),
            final(core).wf(),
            final(self).spec_block_size() == old(self).spec_block_size(),
            final(core).init_id() == old(core).init_id(),
            final(core).consumed() + final(self).pending() == old(core).consumed() + old(
                self,
            ).pending() + data@,
            ({
                let total = old(self).pending() + data@;
                let bs: int = old(self).spec_block_size() as int;
                let tl: int = total.len() as int;
                let cut: int = tl - tl % bs;
                &&& final(core).consumed() == old(core).consumed() + total.take(cut)
                &&& final(self).pending() == total.skip(cut)
            }),
    {
        let bs = self.buf.len();
        let n = data.len();
        let ghost pend0 = self.pending();
        let ghost cons0 = core.consumed();
        let ghost total = pend0 + data@;
        let mut i: usize = 0;

        if self.pos != 0 {
            let rem = bs - self.pos;
            if n < rem {
                // data cannot complete the pending block: stash it all
                let pos0 = self.pos;
                let mut j: usize = 0;
                while j < n
                    invariant
                        j <= n,
                        n == data@.len(),
                        self.pos == pos0,
                        pos0 + n < bs,
                        bs == self.buf@.len(),
                        self.buf@.take(pos0 + j as int) == pend0 + data@.take(j as int),
                    decreases n - j,
                {
                    let x = data[j];
                    self.buf[pos0 + j] = x;
                    proof {
                        assert(self.buf@.take(pos0 + j as int + 1) =~= self.buf@.take(
                            pos0 + j as int,
                        ).push(x));
                        assert(pend0 + data@.take(j as int + 1) =~= (pend0 + data@.take(
                            j as int,
                        )).push(x));
                    }
                    j += 1;
                }
                self.pos = pos0 + n;
                proof {
                    assert(final(self).pending() =~= pend0 + data@);
                    lemma_small_mod(total.len(), bs as nat);
                    assert(total.take(0) =~= Seq::<u8>::empty());
                    assert(total.skip(0) =~= total);
                    assert(cons0 + total.take(0) =~= cons0);
                }
                return;
            } else {
                // complete the pending block and dispatch it
                let pos0 = self.pos;
                let mut j: usize = 0;
                while j < rem
                    invariant
                        j <= rem,
                        rem == bs - pos0,
                        rem <= n,
                        n == data@.len(),
                        self.pos == pos0,
                        0 < pos0 < bs,
                        bs == self.buf@.len(),
                        self.buf@.take(pos0 + j as int) == pend0 + data@.take(j as int),
                    decreases rem - j,
                {
                    let x = data[j];
                    self.buf[pos0 + j] = x;
                    proof {
                        assert(self.buf@.take(pos0 + j as int + 1) =~= self.buf@.take(
                            pos0 + j as int,
                        ).push(x));
                        assert(pend0 + data@.take(j as int + 1) =~= (pend0 + data@.take(
                            j as int,
                        )).push(x));
                    }
                    j += 1;
                }
                proof {
                    assert(self.buf@ =~= self.buf@.take(bs as int));
                    lemma_mod_self_0(bs as int);
                }
                core.update_blocks(self.buf.as_slice());
                self.pos = 0;
                i = rem;
                proof {
                    assert(core.consumed() =~= cons0 + pend0 + data@.take(i as int));
                }
            }
        }
        assert(core.consumed() == cons0 + pend0 + data@.take(i as int)) by {
            if i == 0 {
                assert(pend0 =~= Seq::<u8>::empty());
                assert(data@.take(0) =~= Seq::<u8>::empty());
                assert(cons0 + pend0 + data@.take(0) =~= cons0);
            }
        }
        assert((pend0.len() as int + i as int) % (bs as int) == 0) by {
            lemma_mod_self_0(bs as int);
            lemma_small_mod(0nat, bs as nat);
            assert(pend0.len() + i as int == 0 || pend0.len() + i as int == bs as int);
        }
        // dispatch whole blocks directly from data
        let ghost i0: int = i as int;
        let nrem = n - i;
        let nfull = nrem / bs;
        proof {
            lemma_fundamental_div_mod(nrem as int, bs as int);
            lemma_mod_bound(nrem as int, bs as int);
            lemma_mul_is_commutative(nfull as int, bs as int);
            assert(nfull as int * bs as int <= nrem as int);
            lemma_mod_multiples_basic(nfull as int, bs as int);
        }
        let full = nfull * bs;
        if full > 0 {
            let blocks = slice_subrange(data, i, i + full);
            core.update_blocks(blocks);
            i += full;
            proof {
                assert(data@.take(i0) + data@.subrange(i0, i as int) =~= data@.take(i as int));
                assert(cons0 + pend0 + data@.take(i0) + data@.subrange(i0, i as int) =~= cons0
                    + pend0 + data@.take(i as int));
            }
        }
        // stash the tail as the new pending partial block
        let tail = n - i;
        proof {
            assert(tail as int == (nrem as int) % (bs as int));
            assert(self.buf@.take(0) =~= data@.subrange(i as int, i as int));
        }
        let mut j: usize = 0;
        while j < tail
            invariant
                j <= tail,
                tail < bs,
                i + tail == n,
                n == data@.len(),
                bs == self.buf@.len(),
                self.pos == 0 || self.pos < bs,
                self.buf@.take(j as int) == data@.subrange(i as int, i as int + j as int),
            decreases tail - j,
        {
            let x = data[i + j];
            self.buf[j] = x;
            proof {
                assert(self.buf@.take(j as int + 1) =~= self.buf@.take(j as int).push(x));
                assert(data@.subrange(i as int, i as int + j as int + 1) =~= data@.subrange(
                    i as int,
                    i as int + j as int,
                ).push(x));
            }
            j += 1;
        }
        self.pos = tail;
        proof {
            let tl: int = total.len() as int;
            let cut: int = tl - tl % (bs as int);
            lemma_mod_multiples_vanish(
                ((pend0.len() + i0) / (bs as int)),
                nrem as int,
                bs as int,
            );
            assert((pend0.len() + i0) == (bs as int) * ((pend0.len() + i0) / (bs as int))) by {
                lemma_fundamental_div_mod(pend0.len() + i0, bs as int);
            }
            assert(tl % (bs as int) == (nrem as int) % (bs as int));
            assert(tail as int == tl % (bs as int));
            assert(cut == pend0.len() + i as int);
            assert(final(self).pending() =~= data@.subrange(i as int, n as int));
            assert(total.take(cut) =~= pend0 + data@.take(i as int));
            assert(total.skip(cut) =~= data@.subrange(i as int, n as int));
            assert(cons0 + (pend0 + data@.take(i as int)) =~= cons0 + pend0 + data@.take(
                i as int,
            ));
            assert(final(core).consumed() + final(self).pending() =~= cons0 + pend0 + data@);
        }
    }
}

} // verus!
