//! Example algorithm cores for exercising and testing the wrappers.
//!
//! These cores run a simple 32-bit multiply-accumulate fold over the
//! input — a structural stand-in for a real compression function, with no
//! cryptographic strength whatsoever. They implement every block-level
//! capability this crate composes: fixed output, keyed (MAC) input,
//! runtime-variable output, and extendable (XOF) output, all with zero
//! padding of the final partial block.

use vstd::prelude::*;

use vstd::arithmetic::div_mod::{
    lemma_add_mod_noop, lemma_fundamental_div_mod, lemma_mod_multiples_vanish, lemma_small_mod,
};

use crate::buffer::{zero_bytes, BlockBuffer};
use crate::core_api::{
    AlgorithmName, ExtendableOutputCore, FixedOutputCore, UpdateCore, VariableOutputCore,
    XofReaderCore,
};
use crate::mac::KeyInitCore;
use crate::InvalidLength;
use crate::InvalidOutputSize;

verus! {

/// One step of the fold: multiply the 32-bit state by 31, add the byte,
/// reduce.
pub open spec fn fold_step(a: int, b: u8) -> int {
    (a * 31 + b) % 0x1_0000_0000
}

/// Fold a byte sequence into the state, left to right, starting at `a`.
pub open spec fn fold_from(a: int, s: Seq<u8>) -> int
    decreases s.len(),
{
    if s.len() == 0 {
        a
    } else {
        fold_step(fold_from(a, s.drop_last()), s.last())
    }
}

/// Folding a concatenation folds the parts in order.
pub proof fn lemma_fold_from_concat(a: int, x: Seq<u8>, y: Seq<u8>)
    ensures
        fold_from(a, x + y) == fold_from(fold_from(a, x), y),
    decreases y.len(),
{
    if y.len() == 0 {
        assert(x + y =~= x);
    } else {
        lemma_fold_from_concat(a, x, y.drop_last());
        assert((x + y).drop_last() =~= x + y.drop_last());
    }
}

/// The fold state stays within 32 bits.
pub proof fn lemma_fold_from_bounds(a: int, s: Seq<u8>)
    requires
        0 <= a < 0x1_0000_0000,
    ensures
        0 <= fold_from(a, s) < 0x1_0000_0000,
    decreases s.len(),
{
    if s.len() > 0 {
        lemma_fold_from_bounds(a, s.drop_last());
    }
}

/// The input extended by the zero padding of its final partial block:
/// enough zero bytes to reach the next block boundary, a whole zero
/// block when the input is block-aligned.
pub open spec fn zero_padded(input: Seq<u8>, bs: int) -> Seq<u8> {
    input + zero_bytes(bs - (input.len() as int) % bs)
}

/// Splitting the padded input at a block boundary: absorbing `consumed`
/// whole blocks and then the zero-padded pending tail is absorbing the
/// zero-padded whole input.
pub proof fn lemma_zero_padded_split(consumed: Seq<u8>, pending: Seq<u8>, bs: int)
    requires
        0 < bs,
        (consumed.len() as int) % bs == 0,
        pending.len() < bs,
    ensures
        consumed + (pending + zero_bytes(bs - pending.len())) == zero_padded(
            consumed + pending,
            bs,
        ),
{
    let cl: int = consumed.len() as int;
    let pl: int = pending.len() as int;
    lemma_fundamental_div_mod(cl, bs);
    lemma_mod_multiples_vanish(cl / bs, pl, bs);
    lemma_small_mod(pending.len(), bs as nat);
    assert((cl + pl) % bs == pl);
    assert(consumed + (pending + zero_bytes(bs - pl)) =~= (consumed + pending) + zero_bytes(
        bs - pl,
    ));
}

/// The four bytes of the 32-bit fold state, least significant first.
pub open spec fn out4_bytes(a: int) -> Seq<u8> {
    seq![
        (a % 256) as u8,
        ((a / 256) % 256) as u8,
        ((a / 65536) % 256) as u8,
        ((a / 16777216) % 256) as u8,
    ]
}

/// The fixed-output digest of the fold family: fold the initial material,
/// then the zero-padded input, and emit the four state bytes.
pub open spec fn spec_fold_digest(init: Seq<u8>, input: Seq<u8>) -> Seq<u8> {
    out4_bytes(fold_from(fold_from(0, init), zero_padded(input, 64)))
}

/// `n` output bytes derived from the fold state `a`.
pub open spec fn var_out_bytes(a: int, n: int) -> Seq<u8> {
    Seq::new(n as nat, |i: int| ((a + 7 * i) % 256) as u8)
}

/// Fold `data` into the state `acc`.
fn fold_bytes(acc: u64, data: &[u8]) -> (r: u64)
    requires
        acc < 0x1_0000_0000,
    ensures
        r as int == fold_from(acc as int, data@),
        r < 0x1_0000_0000,
{
    let n = data.len();
    let mut r = acc;
    let mut k: usize = 0;
    proof {
        assert(data@.take(0) =~= Seq::<u8>::empty());
    }
    while k < n
        invariant
            k <= n,
            n == data@.len(),
            r < 0x1_0000_0000,
            r as int == fold_from(acc as int, data@.take(k as int)),
        decreases n - k,
    {
        let b = data[k];
        r = (r * 31 + b as u64) % 0x1_0000_0000;
        proof {
            assert(data@.take(k as int + 1).drop_last() =~= data@.take(k as int));
        }
        k += 1;
    }
    proof {
        assert(data@.take(n as int) =~= data@);
    }
    r
}

/// Emit the four state bytes, least significant first.
fn out4(acc: u64) -> (v: Vec<u8>)
    requires
        acc < 0x1_0000_0000,
    ensures
        v@ == out4_bytes(acc as int),
        v@.len() == 4,
{
    let mut v: Vec<u8> = Vec::new();
    v.push((acc % 256) as u8);
    v.push(((acc / 256) % 256) as u8);
    v.push(((acc / 65536) % 256) as u8);
    v.push(((acc / 16777216) % 256) as u8);
    proof {
        assert(v@ =~= out4_bytes(acc as int));
    }
    v
}

/// Emit `n` output bytes derived from the state.
fn var_out(acc: u64, n: usize) -> (v: Vec<u8>)
    requires
        acc < 0x1_0000_0000,
        n <= 64,
    ensures
        v@ == var_out_bytes(acc as int, n as int),
        v@.len() == n,
{
    let mut v: Vec<u8> = Vec::new();
    let mut i: usize = 0;
    while i < n
        invariant
            i <= n,
            n <= 64,
            acc < 0x1_0000_0000,
            v@.len() == i,
            forall|t: int| 0 <= t < i ==> v@[t] == ((acc as int + 7 * t) % 256) as u8,
        decreases n - i,
    {
        v.push(((acc + 7 * (i as u64)) % 256) as u8);
        i += 1;
    }
    proof {
        assert(v@ =~= var_out_bytes(acc as int, n as int));
    }
    v
}

/// Unkeyed fixed-output example core: block size 64, output size 4.
pub struct FoldHashCore {
    acc: u64,
    hist: Ghost<Seq<u8>>,
}

impl FoldHashCore {
    /// A freshly-initialized core.
    pub fn new() -> (c: Self)
        ensures
            c.wf(),
            c.consumed() == Seq::<u8>::empty(),
            c.init_id() == Seq::<u8>::empty(),
    {
        FoldHashCore { acc: 0, hist: Ghost(Seq::empty()) }
    }
}

impl AlgorithmName for FoldHashCore {
    fn algorithm_name() -> &'static str {
        "FoldHash"
    }
}

impl UpdateCore for FoldHashCore {
    open spec fn spec_block_size() -> usize {
        64
    }

    closed spec fn wf(&self) -> bool {
        &&& self.acc < 0x1_0000_0000
        &&& self.acc as int == fold_from(0, self.hist@)
        &&& (self.hist@.len() as int) % 64 == 0
    }

    open spec fn init_id(&self) -> Seq<u8> {
        Seq::empty()
    }

    closed spec fn consumed(&self) -> Seq<u8> {
        self.hist@
    }

    fn block_size() -> (bs: usize) {
        64
    }

    fn update_blocks(&mut self, blocks: &[u8]) {
        proof {
            lemma_fold_from_concat(0, self.hist@, blocks@);
            lemma_add_mod_noop(self.hist@.len() as int, blocks@.len() as int, 64);
        }
        self.acc = fold_bytes(self.acc, blocks);
        self.hist = Ghost(self.hist@ + blocks@);
    }

    fn reset(&mut self) {
        self.acc = 0;
        self.hist = Ghost(Seq::empty());
    }
}

impl FixedOutputCore for FoldHashCore {
    open spec fn spec_output_size() -> usize {
        4
    }

    open spec fn spec_finalize(init: Seq<u8>, input: Seq<u8>) -> Seq<u8> {
        spec_fold_digest(init, input)
    }

    fn output_size() -> (n: usize) {
        4
    }

    fn finalize_fixed_core(&mut self, buffer: &mut BlockBuffer) -> (out: Vec<u8>) {
        let ghost cons0 = self.hist@;
        let ghost pend = buffer.pending();
        proof {
            buffer.lemma_pending_short();
        }
        let block = buffer.pad_zero_block();
        self.update_blocks(block.as_slice());
        proof {
            lemma_zero_padded_split(cons0, pend, 64);
        }
        out4(self.acc)
    }
}

/// Keyed example core for MAC composition: the key (1 to 64 bytes) is
/// folded into the initial state.
pub struct FoldMacCore {
    acc: u64,
    key_acc: u64,
    keyid: Ghost<Seq<u8>>,
    hist: Ghost<Seq<u8>>,
}

impl AlgorithmName for FoldMacCore {
    fn algorithm_name() -> &'static str {
        "FoldMac"
    }
}

impl UpdateCore for FoldMacCore {
    open spec fn spec_block_size() -> usize {
        64
    }

    closed spec fn wf(&self) -> bool {
        &&& self.key_acc < 0x1_0000_0000
        &&& self.key_acc as int == fold_from(0, self.keyid@)
        &&& self.acc < 0x1_0000_0000
        &&& self.acc as int == fold_from(self.key_acc as int, self.hist@)
        &&& (self.hist@.len() as int) % 64 == 0
    }

    closed spec fn init_id(&self) -> Seq<u8> {
        self.keyid@
    }

    closed spec fn consumed(&self) -> Seq<u8> {
        self.hist@
    }

    fn block_size() -> (bs: usize) {
        64
    }

    fn update_blocks(&mut self, blocks: &[u8]) {
        proof {
            lemma_fold_from_concat(self.key_acc as int, self.hist@, blocks@);
            lemma_add_mod_noop(self.hist@.len() as int, blocks@.len() as int, 64);
        }
        self.acc = fold_bytes(self.acc, blocks);
        self.hist = Ghost(self.hist@ + blocks@);
    }

    fn reset(&mut self) {
        self.acc = self.key_acc;
        self.hist = Ghost(Seq::empty());
    }
}

impl KeyInitCore for FoldMacCore {
    open spec fn spec_key_ok(len: usize) -> bool {
        1 <= len <= 64
    }

    open spec fn spec_keyed_init(key: Seq<u8>) -> Seq<u8> {
        key
    }

    fn new_from_slice(key: &[u8]) -> (r: Result<Self, InvalidLength>) {
        if key.len() == 0 || key.len() > 64 {
            Err(InvalidLength)
        } else {
            let ka = fold_bytes(0, key);
            Ok(FoldMacCore { acc: ka, key_acc: ka, keyid: Ghost(key@), hist: Ghost(Seq::empty()) })
        }
    }
}

impl FixedOutputCore for FoldMacCore {
    open spec fn spec_output_size() -> usize {
        4
    }

    open spec fn spec_finalize(init: Seq<u8>, input: Seq<u8>) -> Seq<u8> {
        spec_fold_digest(init, input)
    }

    fn output_size() -> (n: usize) {
        4
    }

    fn finalize_fixed_core(&mut self, buffer: &mut BlockBuffer) -> (out: Vec<u8>) {
        let ghost cons0 = self.hist@;
        let ghost pend = buffer.pending();
        proof {
            buffer.lemma_pending_short();
        }
        let block = buffer.pad_zero_block();
        self.update_blocks(block.as_slice());
        proof {
            lemma_zero_padded_split(cons0, pend, 64);
        }
        out4(self.acc)
    }
}

/// Runtime-variable-output example core: block size 64, output size
/// chosen between 1 and 32 bytes at initialization and folded into the
/// initial state for domain separation.
pub struct FoldVarCore {
    acc: u64,
    acc0: u64,
    out_len: u8,
    hist: Ghost<Seq<u8>>,
}

impl AlgorithmName for FoldVarCore {
    fn algorithm_name() -> &'static str {
        "FoldVar"
    }
}

impl UpdateCore for FoldVarCore {
    open spec fn spec_block_size() -> usize {
        64
    }

    closed spec fn wf(&self) -> bool {
        &&& 1 <= self.out_len <= 32
        &&& self.acc0 < 0x1_0000_0000
        &&& self.acc0 as int == fold_from(0, seq![self.out_len])
        &&& self.acc < 0x1_0000_0000
        &&& self.acc as int == fold_from(self.acc0 as int, self.hist@)
        &&& (self.hist@.len() as int) % 64 == 0
    }

    closed spec fn init_id(&self) -> Seq<u8> {
        seq![self.out_len]
    }

    closed spec fn consumed(&self) -> Seq<u8> {
        self.hist@
    }

    fn block_size() -> (bs: usize) {
        64
    }

    fn update_blocks(&mut self, blocks: &[u8]) {
        proof {
            lemma_fold_from_concat(self.acc0 as int, self.hist@, blocks@);
            lemma_add_mod_noop(self.hist@.len() as int, blocks@.len() as int, 64);
        }
        self.acc = fold_bytes(self.acc, blocks);
        self.hist = Ghost(self.hist@ + blocks@);
    }

    fn reset(&mut self) {
        self.acc = self.acc0;
        self.hist = Ghost(Seq::empty());
    }
}

impl VariableOutputCore for FoldVarCore {
    open spec fn spec_max_output_size() -> usize {
        32
    }

    open spec fn spec_out_size_of(init: Seq<u8>) -> usize {
        if init.len() == 1 {
            init[0] as usize
        } else {
            0
        }
    }

    open spec fn spec_init_of(output_size: usize) -> Seq<u8> {
        seq![output_size as u8]
    }

    open spec fn spec_var_finalize(init: Seq<u8>, input: Seq<u8>) -> Seq<u8> {
        var_out_bytes(
            fold_from(fold_from(0, init), zero_padded(input, 64)),
            Self::spec_out_size_of(init) as int,
        )
    }

    fn max_output_size() -> (n: usize) {
        32
    }

    fn new(output_size: usize) -> (r: Result<Self, InvalidOutputSize>) {
        if output_size == 0 || output_size > 32 {
            Err(InvalidOutputSize)
        } else {
            let b = output_size as u8;
            let a0 = b as u64;
            proof {
                let s = seq![b];
                assert(s.len() == 1);
                assert(s.drop_last() =~= Seq::<u8>::empty());
                assert(fold_from(0, s.drop_last()) == 0);
                assert(s.last() == b);
                assert(fold_from(0, s) == fold_step(0, b));
                lemma_small_mod(b as nat, 0x1_0000_0000);
            }
            Ok(FoldVarCore { acc: a0, acc0: a0, out_len: b, hist: Ghost(Seq::empty()) })
        }
    }

    fn finalize_variable_core(&mut self, buffer: &mut BlockBuffer) -> (out: Vec<u8>) {
        let ghost cons0 = self.hist@;
        let ghost pend = buffer.pending();
        proof {
            buffer.lemma_pending_short();
        }
        let block = buffer.pad_zero_block();
        self.update_blocks(block.as_slice());
        proof {
            lemma_zero_padded_split(cons0, pend, 64);
        }
        var_out(self.acc, self.out_len as usize)
    }
}

/// Byte `g` of the example XOF stream for a given seed.
pub open spec fn xof_byte(seed: Seq<u8>, g: int) -> u8 {
    ((fold_from(0, seed) + g) % 256) as u8
}

/// Reader core of the example XOF: produces 136-byte blocks of a stream
/// determined by a four-byte seed.
pub struct FoldXofReaderCore {
    cur: u64,
    produced: Ghost<nat>,
    seedg: Ghost<Seq<u8>>,
}

impl XofReaderCore for FoldXofReaderCore {
    open spec fn spec_block_size() -> usize {
        136
    }

    closed spec fn wf(&self) -> bool {
        &&& self.cur < 256
        &&& self.cur as int == (fold_from(0, self.seedg@) + 136 * (self.produced@ as int)) % 256
    }

    closed spec fn seed(&self) -> Seq<u8> {
        self.seedg@
    }

    closed spec fn produced(&self) -> nat {
        self.produced@
    }

    open spec fn spec_block(seed: Seq<u8>, i: nat) -> Seq<u8> {
        Seq::new(136, |j: int| xof_byte(seed, 136 * (i as int) + j))
    }

    fn block_size() -> (bs: usize) {
        136
    }

    proof fn block_len(seed: Seq<u8>, i: nat) {
    }

    fn read_block(&mut self) -> (b: Vec<u8>) {
        let cur = self.cur;
        let mut b: Vec<u8> = Vec::new();
        let mut j: usize = 0;
        while j < 136
            invariant
                j <= 136,
                cur < 256,
                b@.len() == j,
                forall|t: int| 0 <= t < j ==> b@[t] == ((cur as int + t) % 256) as u8,
            decreases 136 - j,
        {
            b.push(((cur + j as u64) % 256) as u8);
            j += 1;
        }
        let ghost p0 = self.produced@;
        self.cur = (self.cur + 136) % 256;
        self.produced = Ghost(p0 + 1);
        proof {
            let f = fold_from(0, self.seedg@);
            lemma_fold_from_bounds(0, self.seedg@);
            assert forall|t: int| 0 <= t < 136 implies b@[t] == xof_byte(
                self.seedg@,
                136 * (p0 as int) + t,
            ) by {
                lemma_add_mod_noop(f + 136 * (p0 as int), t, 256);
                lemma_small_mod(t as nat, 256);
            }
            assert(b@ =~= Self::spec_block(self.seedg@, p0));
            lemma_add_mod_noop(f + 136 * (p0 as int), 136, 256);
            lemma_small_mod(136, 256);
        }
        b
    }
}

/// Extendable-output example core: block size 136; the output stream is
/// seeded by the four digest bytes of the zero-padded input.
pub struct FoldXofCore {
    acc: u64,
    hist: Ghost<Seq<u8>>,
}

impl FoldXofCore {
    /// A freshly-initialized core.
    pub fn new() -> (c: Self)
        ensures
            c.wf(),
            c.consumed() == Seq::<u8>::empty(),
            c.init_id() == Seq::<u8>::empty(),
    {
        FoldXofCore { acc: 0, hist: Ghost(Seq::empty()) }
    }
}

impl AlgorithmName for FoldXofCore {
    fn algorithm_name() -> &'static str {
        "FoldXof"
    }
}

impl UpdateCore for FoldXofCore {
    open spec fn spec_block_size() -> usize {
        136
    }

    closed spec fn wf(&self) -> bool {
        &&& self.acc < 0x1_0000_0000
        &&& self.acc as int == fold_from(0, self.hist@)
        &&& (self.hist@.len() as int) % 136 == 0
    }

    open spec fn init_id(&self) -> Seq<u8> {
        Seq::empty()
    }

    closed spec fn consumed(&self) -> Seq<u8> {
        self.hist@
    }

    fn block_size() -> (bs: usize) {
        136
    }

    fn update_blocks(&mut self, blocks: &[u8]) {
        proof {
            lemma_fold_from_concat(0, self.hist@, blocks@);
            lemma_add_mod_noop(self.hist@.len() as int, blocks@.len() as int, 136);
        }
        self.acc = fold_bytes(self.acc, blocks);
        self.hist = Ghost(self.hist@ + blocks@);
    }

    fn reset(&mut self) {
        self.acc = 0;
        self.hist = Ghost(Seq::empty());
    }
}

impl ExtendableOutputCore for FoldXofCore {
    type ReaderCore = FoldXofReaderCore;

    open spec fn spec_xof_seed(init: Seq<u8>, input: Seq<u8>) -> Seq<u8> {
        out4_bytes(fold_from(fold_from(0, init), zero_padded(input, 136)))
    }

    fn finalize_xof_core(&mut self, buffer: &mut BlockBuffer) -> (r: Self::ReaderCore) {
        let ghost cons0 = self.hist@;
        let ghost pend = buffer.pending();
        proof {
            buffer.lemma_pending_short();
        }
        let block = buffer.pad_zero_block();
        self.update_blocks(block.as_slice());
        proof {
            lemma_zero_padded_split(cons0, pend, 136);
        }
        let seed = out4(self.acc);
        let cur0 = fold_bytes(0, seed.as_slice());
        let r = FoldXofReaderCore {
            cur: cur0 % 256,
            produced: Ghost(0),
            seedg: Ghost(seed@),
        };
        proof {
            lemma_small_mod(0, 256);
        }
        r
    }
}

} // verus!
