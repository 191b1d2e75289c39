//! A pre-key bundle as bytes: the form in which it is published and
//! fetched.
//!
//! The numbers stand as four bytes, least significant first. The keys and
//! the signature stand each after their length, which is written as a
//! number.
use vstd::prelude::*;
use vstd::bytes::{
    lemma_auto_spec_u32_to_from_le_bytes, spec_u32_from_le_bytes, spec_u32_to_le_bytes,
    u32_from_le_bytes, u32_to_le_bytes,
};
use vstd::slice::slice_subrange;

verus! {

/// The public material of one pre-key bundle. Keys and signature are held
/// as the ratchet serializes them.
#[derive(Debug, PartialEq, Eq)]
pub struct Bundle {
    pub registration_id: u32,
    pub pre_key_id: u32,
    pub pre_key: Vec<u8>,
    pub signed_pre_key_id: u32,
    pub signed_pre_key: Vec<u8>,
    pub signature: Vec<u8>,
    pub identity_key: Vec<u8>,
}

/// A bundle, as mathematics sees it.
pub ghost struct BundleView {
    pub registration_id: u32,
    pub pre_key_id: u32,
    pub pre_key: Seq<u8>,
    pub signed_pre_key_id: u32,
    pub signed_pre_key: Seq<u8>,
    pub signature: Seq<u8>,
    pub identity_key: Seq<u8>,
}

impl View for Bundle {
    type V = BundleView;

    open spec fn view(&self) -> BundleView {
        BundleView {
            registration_id: self.registration_id,
            pre_key_id: self.pre_key_id,
            pre_key: self.pre_key@,
            signed_pre_key_id: self.signed_pre_key_id,
            signed_pre_key: self.signed_pre_key@,
            signature: self.signature@,
            identity_key: self.identity_key@,
        }
    }
}

/// A field after its length.
pub open spec fn field_bytes(field: Seq<u8>) -> Seq<u8> {
    spec_u32_to_le_bytes(field.len() as u32) + field
}

/// The length of every key and of the signature can be written as a
/// number.
pub open spec fn fits(bundle: BundleView) -> bool {
    &&& bundle.pre_key.len() <= u32::MAX
    &&& bundle.signed_pre_key.len() <= u32::MAX
    &&& bundle.signature.len() <= u32::MAX
    &&& bundle.identity_key.len() <= u32::MAX
}

/// The bytes of a bundle.
pub open spec fn bundle_bytes(bundle: BundleView) -> Seq<u8> {
    spec_u32_to_le_bytes(bundle.registration_id) + spec_u32_to_le_bytes(bundle.pre_key_id)
        + field_bytes(bundle.pre_key) + spec_u32_to_le_bytes(bundle.signed_pre_key_id)
        + field_bytes(bundle.signed_pre_key) + field_bytes(bundle.signature) + field_bytes(
        bundle.identity_key,
    )
}

/// Reads a number at the start of `s`: the number, and what follows it.
pub open spec fn read_number(s: Seq<u8>) -> Option<(u32, Seq<u8>)> {
    if s.len() >= 4 {
        Some((spec_u32_from_le_bytes(s.subrange(0, 4)), s.skip(4)))
    } else {
        None
    }
}

/// Reads a field at the start of `s`: the field, and what follows it.
pub open spec fn read_field(s: Seq<u8>) -> Option<(Seq<u8>, Seq<u8>)> {
    match read_number(s) {
        Some((len, rest)) => if rest.len() >= len {
            Some((rest.subrange(0, len as int), rest.skip(len as int)))
        } else {
            None
        },
        None => None,
    }
}

/// Reads a bundle: the seven parts in order, and nothing after them.
pub open spec fn read_bundle(s: Seq<u8>) -> Option<BundleView> {
    match read_number(s) {
        Some((registration_id, a)) => match read_number(a) {
            Some((pre_key_id, b)) => match read_field(b) {
                Some((pre_key, c)) => match read_number(c) {
                    Some((signed_pre_key_id, d)) => match read_field(d) {
                        Some((signed_pre_key, e)) => match read_field(e) {
                            Some((signature, f)) => match read_field(f) {
                                Some((identity_key, rest)) => if rest.len() == 0 {
                                    Some(
                                        BundleView {
                                            registration_id,
                                            pre_key_id,
                                            pre_key,
                                            signed_pre_key_id,
                                            signed_pre_key,
                                            signature,
                                            identity_key,
                                        },
                                    )
                                } else {
                                    None
                                },
                                None => None,
                            },
                            None => None,
                        },
                        None => None,
                    },
                    None => None,
                },
                None => None,
            },
            None => None,
        },
        None => None,
    }
}

/// A number reads back, whatever follows.
pub proof fn lemma_number_reads_back(n: u32, rest: Seq<u8>)
    ensures
        read_number(spec_u32_to_le_bytes(n) + rest) == Some((n, rest)),
{
    lemma_auto_spec_u32_to_from_le_bytes();
    let s = spec_u32_to_le_bytes(n) + rest;
    assert(s.subrange(0, 4) =~= spec_u32_to_le_bytes(n));
    assert(s.skip(4) =~= rest);
}

/// A field reads back, whatever follows.
pub proof fn lemma_field_reads_back(field: Seq<u8>, rest: Seq<u8>)
    requires
        field.len() <= u32::MAX,
    ensures
        read_field(field_bytes(field) + rest) == Some((field, rest)),
{
    let after = field + rest;
    lemma_number_reads_back(field.len() as u32, after);
    assert(field_bytes(field) + rest =~= spec_u32_to_le_bytes(field.len() as u32) + after);
    assert(after.subrange(0, field.len() as int) =~= field);
    assert(after.skip(field.len() as int) =~= rest);
}

/// The bytes of a bundle read back to the bundle.
pub proof fn lemma_bundle_reads_back(bundle: BundleView)
    requires
        fits(bundle),
    ensures
        read_bundle(bundle_bytes(bundle)) == Some(bundle),
{
    let g = field_bytes(bundle.identity_key);
    let f = field_bytes(bundle.signature) + g;
    let e = field_bytes(bundle.signed_pre_key) + f;
    let d = spec_u32_to_le_bytes(bundle.signed_pre_key_id) + e;
    let c = field_bytes(bundle.pre_key) + d;
    let b = spec_u32_to_le_bytes(bundle.pre_key_id) + c;
    let a = spec_u32_to_le_bytes(bundle.registration_id) + b;
    assert(bundle_bytes(bundle) =~= a);
    lemma_number_reads_back(bundle.registration_id, b);
    lemma_number_reads_back(bundle.pre_key_id, c);
    lemma_field_reads_back(bundle.pre_key, d);
    lemma_number_reads_back(bundle.signed_pre_key_id, e);
    lemma_field_reads_back(bundle.signed_pre_key, f);
    lemma_field_reads_back(bundle.signature, g);
    lemma_field_reads_back(bundle.identity_key, Seq::empty());
    assert(g =~= g + Seq::<u8>::empty());
}

fn put_bytes(out: &mut Vec<u8>, bytes: &[u8])
    ensures
        final(out)@ == old(out)@ + bytes@,
{
    let mut i: usize = 0;
    while i < bytes.len()
        invariant
            i <= bytes.len(),
            out@ == old(out)@ + bytes@.take(i as int),
        decreases bytes.len() - i,
    {
        out.push(bytes[i]);
        assert(out@ =~= old(out)@ + bytes@.take(i + 1));
        i = i + 1;
    }
    assert(bytes@.take(bytes.len() as int) =~= bytes@);
}

fn put_number(out: &mut Vec<u8>, n: u32)
    ensures
        final(out)@ == old(out)@ + spec_u32_to_le_bytes(n),
{
    let bytes = u32_to_le_bytes(n);
    put_bytes(out, bytes.as_slice());
}

fn put_field(out: &mut Vec<u8>, field: &[u8])
    requires
        field@.len() <= u32::MAX,
    ensures
        final(out)@ == old(out)@ + field_bytes(field@),
{
    put_number(out, field.len() as u32);
    put_bytes(out, field);
    assert(out@ =~= old(out)@ + field_bytes(field@));
}

fn take_number(bytes: &[u8], at: usize) -> (r: Option<(u32, usize)>)
    requires
        at <= bytes@.len(),
    ensures
        match read_number(bytes@.skip(at as int)) {
            Some((n, rest)) => r matches Some((m, next)) && m == n && at <= next <= bytes@.len()
                && bytes@.skip(next as int) == rest,
            None => r is None,
        },
{
    if bytes.len() - at < 4 {
        return None;
    }
    let n = u32_from_le_bytes(slice_subrange(bytes, at, at + 4));
    proof {
        assert(bytes@.skip(at as int).subrange(0, 4) =~= bytes@.subrange(at as int, at + 4));
        assert(bytes@.skip(at as int).skip(4) =~= bytes@.skip(at + 4));
    }
    Some((n, at + 4))
}

fn take_field(bytes: &[u8], at: usize) -> (r: Option<(Vec<u8>, usize)>)
    requires
        at <= bytes@.len(),
    ensures
        match read_field(bytes@.skip(at as int)) {
            Some((field, rest)) => r matches Some((found, next)) && found@ == field && at <= next
                <= bytes@.len() && bytes@.skip(next as int) == rest,
            None => r is None,
        },
{
    let (len, start) = match take_number(bytes, at) {
        None => {
            return None;
        },
        Some(found) => found,
    };
    let len = len as usize;
    if bytes.len() - start < len {
        return None;
    }
    let mut field: Vec<u8> = Vec::new();
    put_bytes(&mut field, slice_subrange(bytes, start, start + len));
    proof {
        let rest = bytes@.skip(start as int);
        assert(rest.subrange(0, len as int) =~= bytes@.subrange(start as int, start + len));
        assert(rest.skip(len as int) =~= bytes@.skip(start + len));
        assert(field@ =~= bytes@.subrange(start as int, start + len));
    }
    Some((field, start + len))
}

impl Bundle {
    /// Writes the bundle as bytes. There is no such form where a key or
    /// the signature is too long for its length to be written.
    pub fn serialize(&self) -> (r: Option<Vec<u8>>)
        ensures
            match r {
                Some(bytes) => fits(self@) && bytes@ == bundle_bytes(self@) && read_bundle(bytes@)
                    == Some(self@),
                None => !fits(self@),
            },
    {
        let limit: usize = u32::MAX as usize;
        if self.pre_key.len() > limit || self.signed_pre_key.len() > limit || self.signature.len()
            > limit || self.identity_key.len() > limit {
            return None;
        }
        let mut out: Vec<u8> = Vec::new();
        put_number(&mut out, self.registration_id);
        put_number(&mut out, self.pre_key_id);
        put_field(&mut out, self.pre_key.as_slice());
        put_number(&mut out, self.signed_pre_key_id);
        put_field(&mut out, self.signed_pre_key.as_slice());
        put_field(&mut out, self.signature.as_slice());
        put_field(&mut out, self.identity_key.as_slice());
        proof {
            assert(out@ =~= bundle_bytes(self@));
            lemma_bundle_reads_back(self@);
        }
        Some(out)
    }

    /// Reads a bundle from bytes: the bundle that they are the bytes of,
    /// or nothing where they are not the bytes of any.
    pub fn deserialize(bytes: &[u8]) -> (r: Option<Bundle>)
        ensures
            match read_bundle(bytes@) {
                Some(bundle) => r matches Some(found) && found@ == bundle,
                None => r is None,
            },
    {
        assert(bytes@.skip(0) =~= bytes@);
        let (registration_id, a) = match take_number(bytes, 0) {
            None => {
                return None;
            },
            Some(found) => found,
        };
        let (pre_key_id, b) = match take_number(bytes, a) {
            None => {
                return None;
            },
            Some(found) => found,
        };
        let (pre_key, c) = match take_field(bytes, b) {
            None => {
                return None;
            },
            Some(found) => found,
        };
        let (signed_pre_key_id, d) = match take_number(bytes, c) {
            None => {
                return None;
            },
            Some(found) => found,
        };
        let (signed_pre_key, e) = match take_field(bytes, d) {
            None => {
                return None;
            },
            Some(found) => found,
        };
        let (signature, f) = match take_field(bytes, e) {
            None => {
                return None;
            },
            Some(found) => found,
        };
        let (identity_key, end) = match take_field(bytes, f) {
            None => {
                return None;
            },
            Some(found) => found,
        };
        if end != bytes.len() {
            return None;
        }
        Some(
            Bundle {
                registration_id,
                pre_key_id,
                pre_key,
                signed_pre_key_id,
                signed_pre_key,
                signature,
                identity_key,
            },
        )
    }
}

} // verus!
