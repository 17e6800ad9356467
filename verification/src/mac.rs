//! Keyed MAC composition: keyed construction, constant-time tag output
//! and tag verification on top of the fixed-output pipeline.

use vstd::prelude::*;

use subtle::ConstantTimeEq;

use crate::core_api::UpdateCore;
use crate::wrapper::CoreWrapper;
use crate::{FixedOutput, InvalidLength, MacError, Update};

verus! {

/// Block-level cores which derive their initial state from a key.
pub trait KeyInitCore: UpdateCore {
    /// Whether a key of this length is accepted.
    spec fn spec_key_ok(len: usize) -> bool;

    /// The initial state derived from a key.
    spec fn spec_keyed_init(key: Seq<u8>) -> Seq<u8>;

    /// Derive a keyed core from `key`; fails with [`InvalidLength`] iff
    /// the key length lies outside the accepted range.
    fn new_from_slice(key: &[u8]) -> (r: Result<Self, InvalidLength>)
        ensures
            (r is Ok) <==> Self::spec_key_ok(key@.len() as usize),
            r matches Ok(c) ==> c.wf() && c.consumed() == Seq::<u8>::empty() && c.init_id()
                == Self::spec_keyed_init(key@),
    ;
}

/// Byte-stream hashers which are constructed from a key.
pub trait KeyInit: Update {
    /// Whether a key of this length is accepted.
    spec fn spec_key_ok(len: usize) -> bool;

    /// The session identifier derived from a key.
    spec fn spec_keyed_session(key: Seq<u8>) -> Seq<u8>;

    /// Derive a keyed hasher from `key`; fails with [`InvalidLength`]
    /// iff the key length lies outside the accepted range.
    fn new_from_slice(key: &[u8]) -> (r: Result<Self, InvalidLength>)
        ensures
            (r is Ok) <==> Self::spec_key_ok(key@.len() as usize),
            r matches Ok(m) ==> m.wf() && m.absorbed() == Seq::<u8>::empty() && m.session_id()
                == Self::spec_keyed_session(key@),
    ;
}

impl<C: UpdateCore + KeyInitCore> KeyInit for CoreWrapper<C> {
    open spec fn spec_key_ok(len: usize) -> bool {
        C::spec_key_ok(len)
    }

    open spec fn spec_keyed_session(key: Seq<u8>) -> Seq<u8> {
        C::spec_keyed_init(key)
    }

    fn new_from_slice(key: &[u8]) -> (r: Result<Self, InvalidLength>) {
        match C::new_from_slice(key) {
            Ok(core) => Ok(Self::from_core(core)),
            Err(e) => Err(e),
        }
    }
}

/// Relies on subtle's `ConstantTimeEq` for byte slices: `ct_eq` returns
/// whether the slices are equal (it is false on a length mismatch and
/// otherwise compares all bytes), taking time independent of where the
/// contents differ.
#[verifier::external_body]
fn ct_eq_bytes(a: &[u8], b: &[u8]) -> (r: bool)
    ensures
        r == (a@ == b@),
{
    bool::from(a.ct_eq(b))
}

/// A MAC tag exposing only constant-time equality — no ordering and no
/// direct byte access — so that comparing tags cannot become a timing
/// oracle.
pub struct CtOutput {
    bytes: Vec<u8>,
}

impl View for CtOutput {
    type V = Seq<u8>;

    closed spec fn view(&self) -> Seq<u8> {
        self.bytes@
    }
}

impl CtOutput {
    /// Wrap tag bytes.
    pub fn new(bytes: Vec<u8>) -> (t: CtOutput)
        ensures
            t@ == bytes@,
    {
        CtOutput { bytes }
    }

    /// Constant-time equality of two tags.
    pub fn ct_eq(&self, other: &CtOutput) -> (r: bool)
        ensures
            r == (self@ == other@),
    {
        ct_eq_bytes(self.bytes.as_slice(), other.bytes.as_slice())
    }
}

/// Finalize a keyed hasher into a constant-time tag.
pub fn finalize_ct<T: FixedOutput>(m: T) -> (t: CtOutput)
    requires
        m.wf(),
    ensures
        t@ == T::spec_digest(m.session_id(), m.absorbed()),
        t@.len() == T::spec_output_size(),
{
    CtOutput::new(m.finalize_fixed())
}

/// Recompute the tag of `m` and compare it against `tag` in constant
/// time: succeeds iff `tag` is exactly the MAC of the absorbed message
/// under the hasher's key, and fails with a detail-free [`MacError`]
/// otherwise.
pub fn verify_mac<T: FixedOutput>(m: T, tag: &[u8]) -> (r: Result<(), MacError>)
    requires
        m.wf(),
    ensures
        (r is Ok) <==> tag@ == T::spec_digest(m.session_id(), m.absorbed()),
{
    let out = m.finalize_fixed();
    if ct_eq_bytes(tag, out.as_slice()) {
        Ok(())
    } else {
        Err(MacError)
    }
}

/// One-shot MAC: derive a keyed hasher, absorb `msg`, hand out the tag;
/// fails with [`InvalidLength`] iff the key length is not accepted.
pub fn compute_mac<T: FixedOutput + KeyInit>(key: &[u8], msg: &[u8]) -> (r: Result<
    CtOutput,
    InvalidLength,
>)
    ensures
        (r is Ok) <==> T::spec_key_ok(key@.len() as usize),
        r matches Ok(t) ==> t@ == T::spec_digest(T::spec_keyed_session(key@), msg@),
{
    match T::new_from_slice(key) {
        Ok(m) => {
            let mut m = m;
            m.update(msg);
            proof {
                assert(m.absorbed() =~= msg@);
            }
            Ok(finalize_ct(m))
        },
        Err(e) => Err(e),
    }
}

} // verus!
