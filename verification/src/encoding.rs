use vstd::prelude::*;

use vstd::bytes::{
    lemma_auto_spec_u32_to_from_le_bytes, lemma_auto_spec_u64_to_from_le_bytes,
    spec_u128_from_le_bytes, spec_u128_to_le_bytes, spec_u32_from_le_bytes, spec_u32_to_le_bytes,
    spec_u64_from_le_bytes, spec_u64_to_le_bytes, u128_from_le_bytes, u128_to_le_bytes,
    u32_from_le_bytes, u32_to_le_bytes, u64_from_le_bytes, u64_to_le_bytes,
};
use vstd::slice::{slice_subrange, slice_to_vec};

use crate::error::Error;

verus! {

// The wire format is deterministic: fixed-width integers are
// little-endian; a byte string is a u64 length followed by its bytes; an
// optional field is a one-byte tag, 0 for absent and 1 for present. This
// is the same layout that bincode's default configuration produces for
// these shapes.
/// A byte-string field: u64 length prefix, then the bytes.
pub open spec fn enc_bytes(b: Seq<u8>) -> Seq<u8> {
    spec_u64_to_le_bytes(b.len() as u64) + b
}

/// An optional byte-string field: tag 0 for absent, tag 1 then the field.
pub open spec fn enc_opt_bytes(o: Option<Seq<u8>>) -> Seq<u8> {
    match o {
        None => seq![0u8],
        Some(b) => seq![1u8] + enc_bytes(b),
    }
}

// Each spec parser takes the remaining input and yields the parsed value
// and the number of bytes consumed, or nothing when the input does not
// start with a well-formed field.
pub open spec fn dec_u8(s: Seq<u8>) -> Option<(u8, int)> {
    if s.len() >= 1 {
        Some((s[0], 1))
    } else {
        None
    }
}

pub open spec fn dec_u32(s: Seq<u8>) -> Option<(u32, int)> {
    if s.len() >= 4 {
        Some((spec_u32_from_le_bytes(s.take(4)), 4))
    } else {
        None
    }
}

pub open spec fn dec_u64(s: Seq<u8>) -> Option<(u64, int)> {
    if s.len() >= 8 {
        Some((spec_u64_from_le_bytes(s.take(8)), 8))
    } else {
        None
    }
}

pub open spec fn dec_u128(s: Seq<u8>) -> Option<(u128, int)> {
    if s.len() >= 16 {
        Some((spec_u128_from_le_bytes(s.take(16)), 16))
    } else {
        None
    }
}

pub open spec fn dec_bytes(s: Seq<u8>) -> Option<(Seq<u8>, int)> {
    match dec_u64(s) {
        None => None,
        Some((n, _)) => if n <= usize::MAX as u64 && n as int <= s.len() - 8 {
            Some((s.subrange(8, 8 + n as int), 8 + n as int))
        } else {
            None
        },
    }
}

pub open spec fn dec_opt_bytes(s: Seq<u8>) -> Option<(Option<Seq<u8>>, int)> {
    if s.len() < 1 {
        None
    } else if s[0] == 0 {
        Some((None, 1))
    } else if s[0] == 1 {
        match dec_bytes(s.skip(1)) {
            None => None,
            Some((b, n)) => Some((Some(b), 1 + n)),
        }
    } else {
        None
    }
}

/// Parsing inverts encoding for byte-string fields, whatever follows.
pub proof fn lemma_dec_enc_bytes(b: Seq<u8>, rest: Seq<u8>)
    requires
        b.len() <= usize::MAX,
    ensures
        dec_bytes(enc_bytes(b) + rest) == Some((b, enc_bytes(b).len() as int)),
{
    lemma_auto_spec_u64_to_from_le_bytes();
    let s = enc_bytes(b) + rest;
    assert(s.take(8) =~= spec_u64_to_le_bytes(b.len() as u64));
    assert(s.subrange(8, 8 + b.len() as int) =~= b);
}

/// Parsing inverts encoding for optional byte-string fields.
pub proof fn lemma_dec_enc_opt_bytes(o: Option<Seq<u8>>, rest: Seq<u8>)
    requires
        o matches Some(b) ==> b.len() <= usize::MAX,
    ensures
        dec_opt_bytes(enc_opt_bytes(o) + rest) == Some((o, enc_opt_bytes(o).len() as int)),
{
    let s = enc_opt_bytes(o) + rest;
    match o {
        None => {
            assert(s[0] == 0);
        },
        Some(b) => {
            assert(s[0] == 1);
            assert(s.skip(1) =~= enc_bytes(b) + rest);
            lemma_dec_enc_bytes(b, rest);
        },
    }
}

/// Parsing inverts encoding for little-endian u32 fields.
pub proof fn lemma_dec_enc_u32(x: u32, rest: Seq<u8>)
    ensures
        dec_u32(spec_u32_to_le_bytes(x) + rest) == Some((x, 4int)),
{
    lemma_auto_spec_u32_to_from_le_bytes();
    let s = spec_u32_to_le_bytes(x) + rest;
    assert(s.take(4) =~= spec_u32_to_le_bytes(x));
}

/// Parsing inverts encoding for little-endian u64 fields.
pub proof fn lemma_dec_enc_u64(x: u64, rest: Seq<u8>)
    ensures
        dec_u64(spec_u64_to_le_bytes(x) + rest) == Some((x, 8int)),
{
    lemma_auto_spec_u64_to_from_le_bytes();
    let s = spec_u64_to_le_bytes(x) + rest;
    assert(s.take(8) =~= spec_u64_to_le_bytes(x));
}

/// Writes the deterministic binary wire format into a growing buffer.
pub struct BincodeEncoder {
    buf: Vec<u8>,
}

impl View for BincodeEncoder {
    type V = Seq<u8>;

    closed spec fn view(&self) -> Seq<u8> {
        self.buf@
    }
}

impl BincodeEncoder {
    /// An encoder with an empty output buffer.
    pub fn new() -> (e: BincodeEncoder)
        ensures
            e@ == Seq::<u8>::empty(),
    {
        let e = BincodeEncoder { buf: Vec::new() };
        assert(e@ =~= Seq::<u8>::empty());
        e
    }

    /// Hand the encoded bytes out.
    pub fn into_bytes(self) -> (r: Vec<u8>)
        ensures
            r@ == self@,
    {
        self.buf
    }

    pub fn write_u8(&mut self, x: u8)
        ensures
            final(self)@ == old(self)@ + seq![x],
    {
        self.buf.push(x);
        assert(self.buf@ =~= old(self)@ + seq![x]);
    }

    pub fn write_u32(&mut self, x: u32)
        ensures
            final(self)@ == old(self)@ + spec_u32_to_le_bytes(x),
    {
        let mut bs = u32_to_le_bytes(x);
        self.buf.append(&mut bs);
    }

    pub fn write_u64(&mut self, x: u64)
        ensures
            final(self)@ == old(self)@ + spec_u64_to_le_bytes(x),
    {
        let mut bs = u64_to_le_bytes(x);
        self.buf.append(&mut bs);
    }

    pub fn write_u128(&mut self, x: u128)
        ensures
            final(self)@ == old(self)@ + spec_u128_to_le_bytes(x),
    {
        let mut bs = u128_to_le_bytes(x);
        self.buf.append(&mut bs);
    }

    /// Append raw bytes with no prefix; used for fixed-width fields.
    pub fn write_raw(&mut self, b: &Vec<u8>)
        ensures
            final(self)@ == old(self)@ + b@,
    {
        let mut copy = crate::util::copy_bytes(b);
        self.buf.append(&mut copy);
    }

    /// Append a length-prefixed byte-string field.
    pub fn write_bytes_field(&mut self, b: &Vec<u8>)
        ensures
            final(self)@ == old(self)@ + enc_bytes(b@),
    {
        self.write_u64(b.len() as u64);
        self.write_raw(b);
        assert(self@ =~= old(self)@ + enc_bytes(b@));
    }
}

/// Reads the deterministic binary wire format from a byte string,
/// tracking the current position.
pub struct BincodeDecoder {
    data: Vec<u8>,
    pos: usize,
}

impl BincodeDecoder {
    #[verifier::type_invariant]
    spec fn type_inv(self) -> bool {
        self.pos <= self.data@.len()
    }

    /// The input bytes not yet consumed.
    pub closed spec fn remaining(&self) -> Seq<u8> {
        self.data@.skip(self.pos as int)
    }

    /// A decoder positioned at the start of the input.
    pub fn new(data: Vec<u8>) -> (d: BincodeDecoder)
        ensures
            d.remaining() == data@,
    {
        let d = BincodeDecoder { data, pos: 0 };
        assert(d.remaining() =~= d.data@);
        d
    }

    /// How many bytes are left.
    pub fn remaining_len(&self) -> (n: usize)
        ensures
            n == self.remaining().len(),
    {
        proof {
            use_type_invariant(&*self);
        }
        self.data.len() - self.pos
    }

    pub fn read_u8(&mut self) -> (r: Result<u8, Error>)
        ensures
            match dec_u8(old(self).remaining()) {
                Some(vn) => r matches Ok(x)
                    && x == vn.0
                    && final(self).remaining() == old(self).remaining().skip(vn.1),
                None => r matches Err(e)
                    && e == Error::Codec
                    && final(self).remaining() == old(self).remaining(),
            },
    {
        proof {
            use_type_invariant(&*self);
        }
        if self.pos < self.data.len() {
            let b = self.data[self.pos];
            self.pos = self.pos + 1;
            assert(self.remaining() =~= old(self).remaining().skip(1));
            Ok(b)
        } else {
            Err(Error::Codec)
        }
    }

    pub fn read_u32(&mut self) -> (r: Result<u32, Error>)
        ensures
            match dec_u32(old(self).remaining()) {
                Some(vn) => r matches Ok(x)
                    && x == vn.0
                    && final(self).remaining() == old(self).remaining().skip(vn.1),
                None => r matches Err(e)
                    && e == Error::Codec
                    && final(self).remaining() == old(self).remaining(),
            },
    {
        proof {
            use_type_invariant(&*self);
        }
        if self.data.len() - self.pos >= 4 {
            let s = slice_subrange(self.data.as_slice(), self.pos, self.pos + 4);
            let x = u32_from_le_bytes(s);
            assert(s@ =~= old(self).remaining().take(4));
            self.pos = self.pos + 4;
            assert(self.remaining() =~= old(self).remaining().skip(4));
            Ok(x)
        } else {
            Err(Error::Codec)
        }
    }

    pub fn read_u64(&mut self) -> (r: Result<u64, Error>)
        ensures
            match dec_u64(old(self).remaining()) {
                Some(vn) => r matches Ok(x)
                    && x == vn.0
                    && final(self).remaining() == old(self).remaining().skip(vn.1),
                None => r matches Err(e)
                    && e == Error::Codec
                    && final(self).remaining() == old(self).remaining(),
            },
    {
        proof {
            use_type_invariant(&*self);
        }
        if self.data.len() - self.pos >= 8 {
            let s = slice_subrange(self.data.as_slice(), self.pos, self.pos + 8);
            let x = u64_from_le_bytes(s);
            assert(s@ =~= old(self).remaining().take(8));
            self.pos = self.pos + 8;
            assert(self.remaining() =~= old(self).remaining().skip(8));
            Ok(x)
        } else {
            Err(Error::Codec)
        }
    }

    pub fn read_u128(&mut self) -> (r: Result<u128, Error>)
        ensures
            match dec_u128(old(self).remaining()) {
                Some(vn) => r matches Ok(x)
                    && x == vn.0
                    && final(self).remaining() == old(self).remaining().skip(vn.1),
                None => r matches Err(e)
                    && e == Error::Codec
                    && final(self).remaining() == old(self).remaining(),
            },
    {
        proof {
            use_type_invariant(&*self);
        }
        if self.data.len() - self.pos >= 16 {
            let s = slice_subrange(self.data.as_slice(), self.pos, self.pos + 16);
            let x = u128_from_le_bytes(s);
            assert(s@ =~= old(self).remaining().take(16));
            self.pos = self.pos + 16;
            assert(self.remaining() =~= old(self).remaining().skip(16));
            Ok(x)
        } else {
            Err(Error::Codec)
        }
    }

    /// Read exactly `n` raw bytes; used for fixed-width fields.
    pub fn read_raw(&mut self, n: usize) -> (r: Result<Vec<u8>, Error>)
        ensures
            n <= old(self).remaining().len() ==> (r matches Ok(v)
                && v@ == old(self).remaining().take(n as int)
                && final(self).remaining() == old(self).remaining().skip(n as int)),
            n > old(self).remaining().len() ==> (r matches Err(e)
                && e == Error::Codec
                && final(self).remaining() == old(self).remaining()),
    {
        proof {
            use_type_invariant(&*self);
        }
        if self.data.len() - self.pos >= n {
            let s = slice_subrange(self.data.as_slice(), self.pos, self.pos + n);
            let v = slice_to_vec(s);
            assert(v@ =~= old(self).remaining().take(n as int));
            self.pos = self.pos + n;
            assert(self.remaining() =~= old(self).remaining().skip(n as int));
            Ok(v)
        } else {
            Err(Error::Codec)
        }
    }

    /// Read a length-prefixed byte-string field.
    pub fn read_bytes_field(&mut self) -> (r: Result<Vec<u8>, Error>)
        ensures
            match dec_bytes(old(self).remaining()) {
                Some(vn) => r matches Ok(v)
                    && v@ == vn.0
                    && final(self).remaining() == old(self).remaining().skip(vn.1),
                None => r matches Err(e) && e == Error::Codec,
            },
    {
        let ghost rem0 = self.remaining();
        let n = self.read_u64()?;
        if n > usize::MAX as u64 {
            return Err(Error::Codec);
        }
        let v = self.read_raw(n as usize)?;
        proof {
            assert(self.remaining() =~= rem0.skip(8 + n as int));
            assert(v@ =~= rem0.subrange(8, 8 + n as int));
        }
        Ok(v)
    }

    /// Read an optional length-prefixed byte-string field.
    pub fn read_opt_bytes_field(&mut self) -> (r: Result<Option<Vec<u8>>, Error>)
        ensures
            match dec_opt_bytes(old(self).remaining()) {
                Some(vn) => r matches Ok(o) && (match (o, vn.0) {
                    (Some(v), Some(bv)) => v@ == bv,
                    (None, None) => true,
                    _ => false,
                }) && final(self).remaining() == old(self).remaining().skip(vn.1),
                None => r matches Err(e) && e == Error::Codec,
            },
    {
        let ghost rem0 = self.remaining();
        let tag = self.read_u8()?;
        if tag == 0 {
            Ok(None)
        } else if tag == 1 {
            let ghost rem1 = self.remaining();
            proof {
                assert(rem1 =~= rem0.skip(1));
            }
            let v = self.read_bytes_field()?;
            proof {
                let vn = dec_bytes(rem1).unwrap();
                assert(self.remaining() =~= rem0.skip(1 + vn.1));
            }
            Ok(Some(v))
        } else {
            Err(Error::Codec)
        }
    }
}

} // verus!
