//! The binary protocol spoken with the privileged sandbox runner: little-endian
//! fixed-width integers and length-prefixed byte strings.
use vstd::bytes::*;
use vstd::prelude::*;
use vstd::slice::*;
use vstd::string::*;
use vstd::utf8::*;

verus! {

broadcast use {encode_utf8_valid_utf8, encode_utf8_decode_utf8};

/// Why a byte stream could not be decoded.
#[derive(Clone, Copy, Debug, PartialEq, Eq, Structural)]
pub enum CodecError {
    /// The stream ended before a field was complete.
    UnexpectedEnd,
    /// A length or a count field was negative.
    NegativeLength,
}

/// Little-endian bytes of an `i32`.
pub open spec fn i32_le(v: i32) -> Seq<u8> {
    spec_u32_to_le_bytes(v as u32)
}

/// Little-endian bytes of an `i64`.
pub open spec fn i64_le(v: i64) -> Seq<u8> {
    spec_u64_to_le_bytes(v as u64)
}

/// A byte string preceded by its length.
pub open spec fn blob_le(b: Seq<u8>) -> Seq<u8> {
    i32_le(b.len() as i32) + b
}

/// A text preceded by the length of its UTF-8 encoding.
pub open spec fn text_le(s: Seq<char>) -> Seq<u8> {
    blob_le(encode_utf8(s))
}

/// Texts one after another, each with its length.
pub open spec fn texts_le(ss: Seq<Seq<char>>) -> Seq<u8>
    decreases ss.len(),
{
    if ss.len() == 0 {
        Seq::empty()
    } else {
        texts_le(ss.drop_last()) + text_le(ss.last())
    }
}

/// A length or count that the protocol can carry in an `i32` field.
pub open spec fn fits_i32(n: int) -> bool {
    0 <= n <= i32::MAX
}

/// Every text of `ss` has an encoding whose length fits an `i32` field.
pub open spec fn texts_fit(ss: Seq<Seq<char>>) -> bool {
    forall|i: int| 0 <= i < ss.len() ==> fits_i32(#[trigger] encode_utf8(ss[i]).len() as int)
}

/// What `String::from_utf8_lossy` makes of bytes that are not well-formed UTF-8.
pub uninterp spec fn lossy_utf8(b: Seq<u8>) -> Seq<char>;

/// The text that the decoder reads from a byte string.
pub open spec fn text_of(b: Seq<u8>) -> Seq<char> {
    if valid_utf8(b) {
        decode_utf8(b)
    } else {
        lossy_utf8(b)
    }
}

/// Relies on `String::from_utf8_lossy`: well-formed UTF-8 is decoded as it
/// stands, and what it makes of other bytes depends on those bytes alone.
#[verifier::external_body]
fn lossy_text(b: &[u8]) -> (r: String)
    ensures
        valid_utf8(b@) ==> r@ == decode_utf8(b@),
        !valid_utf8(b@) ==> r@ == lossy_utf8(b@),
{
    String::from_utf8_lossy(b).into_owned()
}

/// Appends `v` in little-endian order.
pub fn write_i32(w: &mut Vec<u8>, v: i32)
    ensures
        final(w)@ == old(w)@ + i32_le(v),
{
    let bytes = u32_to_le_bytes(v as u32);
    w.extend_from_slice(bytes.as_slice());
}

/// Appends `v` in little-endian order.
pub fn write_i64(w: &mut Vec<u8>, v: i64)
    ensures
        final(w)@ == old(w)@ + i64_le(v),
{
    let bytes = u64_to_le_bytes(v as u64);
    w.extend_from_slice(bytes.as_slice());
}

/// Appends a byte string preceded by its length.
pub fn write_bytes(w: &mut Vec<u8>, b: &[u8])
    requires
        fits_i32(b@.len() as int),
    ensures
        final(w)@ == old(w)@ + blob_le(b@),
{
    write_i32(w, b.len() as i32);
    w.extend_from_slice(b);
    assert(final(w)@ =~= old(w)@ + blob_le(b@));
}

/// Appends the UTF-8 encoding of `s` preceded by its length.
pub fn write_str(w: &mut Vec<u8>, s: &str)
    requires
        fits_i32(encode_utf8(s@).len() as int),
    ensures
        final(w)@ == old(w)@ + text_le(s@),
{
    write_bytes(w, s.as_bytes());
}

/// A read position in a byte buffer.
pub struct ByteReader {
    pub buf: Vec<u8>,
    pub pos: usize,
}

impl ByteReader {
    pub open spec fn wf(&self) -> bool {
        self.pos <= self.buf@.len()
    }

    /// A reader at the start of `buf`.
    pub fn new(buf: Vec<u8>) -> (r: ByteReader)
        ensures
            r.wf(),
            r.buf@ == buf@,
            r.pos == 0,
    {
        ByteReader { buf, pos: 0 }
    }
}

/// The `i32` at `pos`, and the position after it.
pub open spec fn take_i32(b: Seq<u8>, pos: int) -> Option<(i32, int)> {
    if 0 <= pos && pos + 4 <= b.len() {
        Some((spec_u32_from_le_bytes(b.subrange(pos, pos + 4)) as i32, pos + 4))
    } else {
        None
    }
}

/// The `i64` at `pos`, and the position after it.
pub open spec fn take_i64(b: Seq<u8>, pos: int) -> Option<(i64, int)> {
    if 0 <= pos && pos + 8 <= b.len() {
        Some((spec_u64_from_le_bytes(b.subrange(pos, pos + 8)) as i64, pos + 8))
    } else {
        None
    }
}

/// The length-prefixed byte string at `pos`, and the position after it.
pub open spec fn take_blob(b: Seq<u8>, pos: int) -> Option<(Seq<u8>, int)> {
    match take_i32(b, pos) {
        Some((n, p)) => if 0 <= n && p + n <= b.len() {
            Some((b.subrange(p, p + n), p + n))
        } else {
            None
        },
        None => None,
    }
}

/// The length-prefixed text at `pos`, and the position after it.
pub open spec fn take_text(b: Seq<u8>, pos: int) -> Option<(Seq<char>, int)> {
    match take_blob(b, pos) {
        Some((bl, p)) => Some((text_of(bl), p)),
        None => None,
    }
}

/// A count field at `pos`: an `i32` that is not negative.
pub open spec fn take_count(b: Seq<u8>, pos: int) -> Option<(nat, int)> {
    match take_i32(b, pos) {
        Some((n, p)) => if n >= 0 {
            Some((n as nat, p))
        } else {
            None
        },
        None => None,
    }
}

/// `n` texts one after another from `pos`.
pub open spec fn take_texts(b: Seq<u8>, pos: int, n: nat) -> Option<(Seq<Seq<char>>, int)>
    decreases n,
{
    if n == 0 {
        Some((Seq::empty(), pos))
    } else {
        match take_texts(b, pos, (n - 1) as nat) {
            Some((xs, p)) => match take_text(b, p) {
                Some((x, q)) => Some((xs.push(x), q)),
                None => None,
            },
            None => None,
        }
    }
}

/// Reads the little-endian `i32` at the reader's position.
pub fn read_i32(r: &mut ByteReader) -> (res: Result<i32, CodecError>)
    requires
        old(r).wf(),
    ensures
        final(r).wf(),
        final(r).buf@ == old(r).buf@,
        match take_i32(old(r).buf@, old(r).pos as int) {
            Some((v, p)) => res == Ok::<i32, CodecError>(v) && final(r).pos == p,
            None => res == Err::<i32, CodecError>(CodecError::UnexpectedEnd),
        },
{
    if r.buf.len() - r.pos < 4 {
        return Err(CodecError::UnexpectedEnd);
    }
    let s = slice_subrange(r.buf.as_slice(), r.pos, r.pos + 4);
    let x = u32_from_le_bytes(s);
    r.pos = r.pos + 4;
    Ok(x as i32)
}

/// Reads the little-endian `i64` at the reader's position.
pub fn read_i64(r: &mut ByteReader) -> (res: Result<i64, CodecError>)
    requires
        old(r).wf(),
    ensures
        final(r).wf(),
        final(r).buf@ == old(r).buf@,
        match take_i64(old(r).buf@, old(r).pos as int) {
            Some((v, p)) => res == Ok::<i64, CodecError>(v) && final(r).pos == p,
            None => res == Err::<i64, CodecError>(CodecError::UnexpectedEnd),
        },
{
    if r.buf.len() - r.pos < 8 {
        return Err(CodecError::UnexpectedEnd);
    }
    let s = slice_subrange(r.buf.as_slice(), r.pos, r.pos + 8);
    let x = u64_from_le_bytes(s);
    r.pos = r.pos + 8;
    Ok(x as i64)
}

/// Reads a length-prefixed byte string.
pub fn read_bytes(r: &mut ByteReader) -> (res: Result<Vec<u8>, CodecError>)
    requires
        old(r).wf(),
    ensures
        final(r).wf(),
        final(r).buf@ == old(r).buf@,
        match take_blob(old(r).buf@, old(r).pos as int) {
            Some((v, p)) => res is Ok && res.unwrap()@ == v && final(r).pos == p,
            None => res is Err,
        },
{
    let n = read_i32(r)?;
    if n < 0 {
        return Err(CodecError::NegativeLength);
    }
    let n = n as usize;
    if r.buf.len() - r.pos < n {
        return Err(CodecError::UnexpectedEnd);
    }
    let s = slice_subrange(r.buf.as_slice(), r.pos, r.pos + n);
    let v = slice_to_vec(s);
    r.pos = r.pos + n;
    Ok(v)
}

/// Reads a length-prefixed text; bytes that are not UTF-8 are replaced, never refused.
pub fn read_string(r: &mut ByteReader) -> (res: Result<String, CodecError>)
    requires
        old(r).wf(),
    ensures
        final(r).wf(),
        final(r).buf@ == old(r).buf@,
        match take_text(old(r).buf@, old(r).pos as int) {
            Some((v, p)) => res is Ok && res.unwrap()@ == v && final(r).pos == p,
            None => res is Err,
        },
{
    let b = read_bytes(r)?;
    Ok(lossy_text(b.as_slice()))
}

/// Reads a count field: an `i32` that must not be negative.
pub fn read_count(r: &mut ByteReader) -> (res: Result<usize, CodecError>)
    requires
        old(r).wf(),
    ensures
        final(r).wf(),
        final(r).buf@ == old(r).buf@,
        match take_count(old(r).buf@, old(r).pos as int) {
            Some((n, p)) => res == Ok::<usize, CodecError>(n as usize) && final(r).pos == p,
            None => res is Err,
        },
{
    let n = read_i32(r)?;
    if n < 0 {
        return Err(CodecError::NegativeLength);
    }
    Ok(n as usize)
}

/// Reads `n` length-prefixed texts.
pub fn read_strings(r: &mut ByteReader, n: usize) -> (res: Result<Vec<String>, CodecError>)
    requires
        old(r).wf(),
    ensures
        final(r).wf(),
        final(r).buf@ == old(r).buf@,
        match take_texts(old(r).buf@, old(r).pos as int, n as nat) {
            Some((v, p)) => res is Ok && res.unwrap()@.map_values(|s: String| s@) == v
                && final(r).pos == p,
            None => res is Err,
        },
{
    let ghost start = r.pos as int;
    let mut out: Vec<String> = Vec::new();
    let mut i: usize = 0;
    while i < n
        invariant
            r.wf(),
            r.buf@ == old(r).buf@,
            start == old(r).pos as int,
            i <= n,
            out@.len() == i,
            take_texts(r.buf@, start, i as nat) == Some(
                (out@.map_values(|s: String| s@), r.pos as int),
            ),
        decreases n - i,
    {
        let ghost before = out@.map_values(|s: String| s@);
        let ghost p = r.pos as int;
        match read_string(r) {
            Ok(s) => {
                out.push(s);
                i = i + 1;
                assert(out@.map_values(|s: String| s@) =~= before.push(out@.last()@));
            },
            Err(e) => {
                proof {
                    lemma_take_texts_stops(r.buf@, start, i as nat, n as nat);
                }
                return Err(e);
            },
        }
    }
    Ok(out)
}

/// Once the `i`-th text cannot be read, no longer list can be read either.
proof fn lemma_take_texts_stops(b: Seq<u8>, pos: int, i: nat, n: nat)
    requires
        i < n,
        take_texts(b, pos, i) is Some,
        take_text(b, take_texts(b, pos, i).unwrap().1) is None,
    ensures
        take_texts(b, pos, n) is None,
    decreases n - i,
{
    if n == i + 1 {
    } else {
        lemma_take_texts_stops(b, pos, i, (n - 1) as nat);
    }
}

} // verus!
