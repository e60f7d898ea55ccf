//! The primitives of the OPC UA binary encoding: little-endian integers and
//! length-prefixed byte strings, each with the sequence of bytes it stands for.

use crate::status_code::StatusCode;
use vstd::bytes::*;
use vstd::prelude::*;
use vstd::slice::*;

verus! {

/// The bytes `enc` stand in `s` from position `pos` on.
pub open spec fn has_at(s: Seq<u8>, pos: int, enc: Seq<u8>) -> bool {
    &&& 0 <= pos
    &&& pos + enc.len() <= s.len()
    &&& s.subrange(pos, pos + enc.len()) == enc
}

/// A concatenation stands at `pos` exactly when its parts stand one behind the other.
pub proof fn lemma_has_at_concat(s: Seq<u8>, pos: int, a: Seq<u8>, b: Seq<u8>)
    ensures
        has_at(s, pos, a + b) <==> (has_at(s, pos, a) && has_at(s, pos + a.len(), b)),
{
    if has_at(s, pos, a + b) {
        let whole = s.subrange(pos, pos + (a + b).len());
        assert(whole == a + b);
        assert forall|i: int| 0 <= i < a.len() implies s.subrange(pos, pos + a.len())[i]
            == a[i] by {
            assert(whole[i] == (a + b)[i]);
        }
        assert(s.subrange(pos, pos + a.len()) =~= a);
        assert forall|i: int| 0 <= i < b.len() implies s.subrange(
            pos + a.len(),
            pos + a.len() + b.len(),
        )[i] == b[i] by {
            assert(whole[a.len() + i] == (a + b)[a.len() + i]);
        }
        assert(s.subrange(pos + a.len(), pos + a.len() + b.len()) =~= b);
    }
    if has_at(s, pos, a) && has_at(s, pos + a.len(), b) {
        let first = s.subrange(pos, pos + a.len());
        let second = s.subrange(pos + a.len(), pos + a.len() + b.len());
        assert forall|i: int| 0 <= i < (a + b).len() implies s.subrange(
            pos,
            pos + (a + b).len(),
        )[i] == (a + b)[i] by {
            if i < a.len() {
                assert(first[i] == a[i]);
            } else {
                assert(second[i - a.len()] == b[i - a.len()]);
            }
        }
        assert(s.subrange(pos, pos + (a + b).len()) =~= a + b);
    }
}

/// The four bytes of a `u32`, least significant first.
pub open spec fn spec_u32_bytes(x: u32) -> Seq<u8> {
    spec_u32_to_le_bytes(x)
}

/// The four bytes of an `i32`, least significant first.
pub open spec fn spec_i32_bytes(x: i32) -> Seq<u8> {
    spec_u32_to_le_bytes(x as u32)
}

/// The eight bytes of an `i64`, least significant first.
pub open spec fn spec_i64_bytes(x: i64) -> Seq<u8> {
    spec_u64_to_le_bytes(x as u64)
}

/// The byte at `pos`, if there is one.
pub open spec fn spec_read_u8(s: Seq<u8>, pos: int) -> Option<u8> {
    if 0 <= pos < s.len() {
        Some(s[pos])
    } else {
        None
    }
}

/// The two bytes of a `u16`, least significant first.
pub open spec fn spec_u16_bytes(x: u16) -> Seq<u8> {
    spec_u16_to_le_bytes(x)
}

/// The `u16` that the two bytes at `pos` stand for, if they are there.
pub open spec fn spec_read_u16(s: Seq<u8>, pos: int) -> Option<u16> {
    if 0 <= pos && pos + 2 <= s.len() {
        Some(spec_u16_from_le_bytes(s.subrange(pos, pos + 2)))
    } else {
        None
    }
}

/// A `u16` takes two bytes.
pub proof fn lemma_u16_bytes_len(x: u16)
    ensures
        spec_u16_bytes(x).len() == 2,
{
    lemma_auto_spec_u16_to_from_le_bytes();
}

/// Reading where a `u16` was written gives it back.
pub proof fn lemma_read_u16_written(s: Seq<u8>, pos: int, x: u16)
    requires
        has_at(s, pos, spec_u16_bytes(x)),
    ensures
        spec_u16_bytes(x).len() == 2,
        spec_read_u16(s, pos) == Some(x),
{
    lemma_auto_spec_u16_to_from_le_bytes();
}

/// Reading where a byte was written gives it back.
pub proof fn lemma_read_u8_written(s: Seq<u8>, pos: int, x: u8)
    requires
        has_at(s, pos, seq![x]),
    ensures
        spec_read_u8(s, pos) == Some(x),
{
    assert(s.subrange(pos, pos + 1)[0] == x);
}

/// Reads the `u16` at `pos`; `None` if the input ends before it does.
pub fn read_u16(bytes: &[u8], pos: usize) -> (r: Option<u16>)
    ensures
        r == spec_read_u16(bytes@, pos as int),
{
    if pos > bytes.len() || bytes.len() - pos < 2 {
        return None;
    }
    Some(u16_from_le_bytes(slice_subrange(bytes, pos, pos + 2)))
}

/// Appends a `u16`.
pub fn write_u16(out: &mut Vec<u8>, x: u16)
    ensures
        final(out)@ == old(out)@ + spec_u16_bytes(x),
{
    let b = u16_to_le_bytes(x);
    append_bytes(out, b.as_slice());
}

/// The `u32` that the four bytes at `pos` stand for, if they are there.
pub open spec fn spec_read_u32(s: Seq<u8>, pos: int) -> Option<u32> {
    if 0 <= pos && pos + 4 <= s.len() {
        Some(spec_u32_from_le_bytes(s.subrange(pos, pos + 4)))
    } else {
        None
    }
}

/// The `i32` that the four bytes at `pos` stand for, if they are there.
pub open spec fn spec_read_i32(s: Seq<u8>, pos: int) -> Option<i32> {
    match spec_read_u32(s, pos) {
        Some(x) => Some(x as i32),
        None => None,
    }
}

/// The `i64` that the eight bytes at `pos` stand for, if they are there.
pub open spec fn spec_read_i64(s: Seq<u8>, pos: int) -> Option<i64> {
    if 0 <= pos && pos + 8 <= s.len() {
        Some(spec_u64_from_le_bytes(s.subrange(pos, pos + 8)) as i64)
    } else {
        None
    }
}

/// A `u32` takes four bytes.
pub proof fn lemma_u32_bytes_len(x: u32)
    ensures
        spec_u32_bytes(x).len() == 4,
{
    lemma_auto_spec_u32_to_from_le_bytes();
}

/// An `i32` takes four bytes.
pub proof fn lemma_i32_bytes_len(x: i32)
    ensures
        spec_i32_bytes(x).len() == 4,
{
    lemma_auto_spec_u32_to_from_le_bytes();
}

/// An `i64` takes eight bytes.
pub proof fn lemma_i64_bytes_len(x: i64)
    ensures
        spec_i64_bytes(x).len() == 8,
{
    lemma_auto_spec_u64_to_from_le_bytes();
}

/// Reading where a `u32` was written gives it back.
pub proof fn lemma_read_u32_written(s: Seq<u8>, pos: int, x: u32)
    requires
        has_at(s, pos, spec_u32_bytes(x)),
    ensures
        spec_u32_bytes(x).len() == 4,
        spec_read_u32(s, pos) == Some(x),
{
    lemma_auto_spec_u32_to_from_le_bytes();
}

/// Reading where an `i32` was written gives it back.
pub proof fn lemma_read_i32_written(s: Seq<u8>, pos: int, x: i32)
    requires
        has_at(s, pos, spec_i32_bytes(x)),
    ensures
        spec_i32_bytes(x).len() == 4,
        spec_read_i32(s, pos) == Some(x),
{
    lemma_auto_spec_u32_to_from_le_bytes();
    assert((x as u32) as i32 == x) by (bit_vector);
}

/// Reading where an `i64` was written gives it back.
pub proof fn lemma_read_i64_written(s: Seq<u8>, pos: int, x: i64)
    requires
        has_at(s, pos, spec_i64_bytes(x)),
    ensures
        spec_i64_bytes(x).len() == 8,
        spec_read_i64(s, pos) == Some(x),
{
    lemma_auto_spec_u64_to_from_le_bytes();
    assert((x as u64) as i64 == x) by (bit_vector);
}

/// Reads the byte at `pos`; `None` behind the end of the input.
pub fn read_u8(bytes: &[u8], pos: usize) -> (r: Option<u8>)
    ensures
        r == spec_read_u8(bytes@, pos as int),
{
    if pos < bytes.len() {
        Some(bytes[pos])
    } else {
        None
    }
}

/// Reads the `u32` at `pos`; `None` if the input ends before it does.
pub fn read_u32(bytes: &[u8], pos: usize) -> (r: Option<u32>)
    ensures
        r == spec_read_u32(bytes@, pos as int),
{
    if pos > bytes.len() || bytes.len() - pos < 4 {
        return None;
    }
    Some(u32_from_le_bytes(slice_subrange(bytes, pos, pos + 4)))
}

/// Reads the `i32` at `pos`; `None` if the input ends before it does.
pub fn read_i32(bytes: &[u8], pos: usize) -> (r: Option<i32>)
    ensures
        r == spec_read_i32(bytes@, pos as int),
{
    match read_u32(bytes, pos) {
        Some(x) => Some(x as i32),
        None => None,
    }
}

/// Reads the `i64` at `pos`; `None` if the input ends before it does.
pub fn read_i64(bytes: &[u8], pos: usize) -> (r: Option<i64>)
    ensures
        r == spec_read_i64(bytes@, pos as int),
{
    if pos > bytes.len() || bytes.len() - pos < 8 {
        return None;
    }
    Some(u64_from_le_bytes(slice_subrange(bytes, pos, pos + 8)) as i64)
}

/// Appends `src[from..to]` to `out`.
pub fn append_range(out: &mut Vec<u8>, src: &[u8], from: usize, to: usize)
    requires
        from <= to <= src@.len(),
    ensures
        final(out)@ == old(out)@ + src@.subrange(from as int, to as int),
{
    let mut i: usize = from;
    while i < to
        invariant
            from <= i <= to <= src@.len(),
            out@ == old(out)@ + src@.subrange(from as int, i as int),
        decreases to - i,
    {
        out.push(src[i]);
        i = i + 1;
        assert(out@ =~= old(out)@ + src@.subrange(from as int, i as int));
    }
}

/// Appends all of `src` to `out`.
pub fn append_bytes(out: &mut Vec<u8>, src: &[u8])
    ensures
        final(out)@ == old(out)@ + src@,
{
    append_range(out, src, 0, src.len());
    assert(src@.subrange(0, src@.len() as int) =~= src@);
}

/// A fresh vector holding `src[from..to]`.
pub fn copy_range(src: &[u8], from: usize, to: usize) -> (out: Vec<u8>)
    requires
        from <= to <= src@.len(),
    ensures
        out@ == src@.subrange(from as int, to as int),
{
    let mut out: Vec<u8> = Vec::new();
    append_range(&mut out, src, from, to);
    assert(out@ =~= src@.subrange(from as int, to as int));
    out
}

/// Appends a byte.
pub fn write_u8(out: &mut Vec<u8>, x: u8)
    ensures
        final(out)@ == old(out)@ + seq![x],
{
    out.push(x);
    assert(out@ =~= old(out)@ + seq![x]);
}

/// Appends a `u32`.
pub fn write_u32(out: &mut Vec<u8>, x: u32)
    ensures
        final(out)@ == old(out)@ + spec_u32_bytes(x),
{
    let b = u32_to_le_bytes(x);
    append_bytes(out, b.as_slice());
}

/// Appends an `i32`.
pub fn write_i32(out: &mut Vec<u8>, x: i32)
    ensures
        final(out)@ == old(out)@ + spec_i32_bytes(x),
{
    write_u32(out, x as u32);
}

/// Appends an `i64`.
pub fn write_i64(out: &mut Vec<u8>, x: i64)
    ensures
        final(out)@ == old(out)@ + spec_i64_bytes(x),
{
    let b = u64_to_le_bytes(x as u64);
    append_bytes(out, b.as_slice());
}

/// True when the two slices hold the same bytes.
pub fn bytes_equal(a: &[u8], b: &[u8]) -> (r: bool)
    ensures
        r == (a@ == b@),
{
    if a.len() != b.len() {
        return false;
    }
    let mut i: usize = 0;
    while i < a.len()
        invariant
            i <= a.len(),
            a.len() == b.len(),
            forall|j: int| 0 <= j < i ==> a@[j] == b@[j],
        decreases a.len() - i,
    {
        if a[i] != b[i] {
            return false;
        }
        i = i + 1;
    }
    assert(a@ =~= b@);
    true
}

/// A string or byte string of the protocol: absent (null), or a run of bytes.
/// Text is carried as its UTF-8 bytes.
#[derive(Debug, Clone, PartialEq, Eq)]
pub struct UAString {
    pub value: Option<Vec<u8>>,
}

pub type ByteString = UAString;

impl View for UAString {
    type V = Option<Seq<u8>>;

    open spec fn view(&self) -> Option<Seq<u8>> {
        match self.value {
            Some(v) => Some(v@),
            None => None,
        }
    }
}

/// The number of bytes a string takes on the wire.
pub open spec fn spec_string_len(v: Option<Seq<u8>>) -> nat {
    match v {
        Some(b) => 4 + b.len(),
        None => 4,
    }
}

/// A string can be written when its length fits the signed 32-bit prefix.
pub open spec fn spec_string_encodable(v: Option<Seq<u8>>) -> bool {
    v matches Some(b) ==> b.len() <= i32::MAX
}

/// The wire image of a string: the length as `i32` (-1 for null), then the bytes.
pub open spec fn spec_string_bytes(v: Option<Seq<u8>>) -> Seq<u8> {
    match v {
        Some(b) => spec_i32_bytes(b.len() as i32) + b,
        None => spec_i32_bytes(-1i32),
    }
}

/// The string that stands at `pos`, with the position behind it. A length below -1
/// or beyond the end of the input makes the input malformed.
pub open spec fn spec_read_string(s: Seq<u8>, pos: int) -> Option<(Option<Seq<u8>>, int)> {
    match spec_read_i32(s, pos) {
        None => None,
        Some(len) => if len == -1 {
            Some((None, pos + 4))
        } else if len < 0 || pos + 4 + len > s.len() {
            None
        } else {
            Some((Some(s.subrange(pos + 4, pos + 4 + len)), pos + 4 + len))
        },
    }
}

/// A string takes its length prefix and its bytes.
pub proof fn lemma_string_bytes_len(v: Option<Seq<u8>>)
    ensures
        spec_string_bytes(v).len() == spec_string_len(v),
{
    lemma_auto_spec_u32_to_from_le_bytes();
}

/// Reading where an encodable string was written gives it back.
pub proof fn lemma_read_string_written(s: Seq<u8>, pos: int, v: Option<Seq<u8>>)
    requires
        spec_string_encodable(v),
        has_at(s, pos, spec_string_bytes(v)),
    ensures
        spec_read_string(s, pos) == Some((v, pos + spec_string_len(v))),
{
    lemma_string_bytes_len(v);
    match v {
        Some(b) => {
            let len = b.len() as i32;
            lemma_has_at_concat(s, pos, spec_i32_bytes(len), b);
            lemma_read_i32_written(s, pos, len);
        },
        None => {
            lemma_read_i32_written(s, pos, -1i32);
        },
    }
}

impl UAString {
    /// The null string.
    pub fn null() -> (r: UAString)
        ensures
            r@ == None::<Seq<u8>>,
    {
        UAString { value: None }
    }

    /// The string that holds `bytes`.
    pub fn from_bytes(bytes: Vec<u8>) -> (r: UAString)
        ensures
            r@ == Some(bytes@),
    {
        UAString { value: Some(bytes) }
    }

    /// True for the null string, which is not the empty one.
    pub fn is_null(&self) -> (r: bool)
        ensures
            r == (self@ is None),
    {
        self.value.is_none()
    }

    /// True when both strings are null or both hold the same bytes.
    pub fn same(&self, other: &UAString) -> (r: bool)
        ensures
            r == (self@ == other@),
    {
        match (&self.value, &other.value) {
            (Some(a), Some(b)) => bytes_equal(a.as_slice(), b.as_slice()),
            (None, None) => true,
            _ => false,
        }
    }

    /// The number of bytes the string takes on the wire.
    pub fn byte_len(&self) -> (r: usize)
        requires
            spec_string_len(self@) <= usize::MAX,
        ensures
            r == spec_string_len(self@),
    {
        match &self.value {
            Some(v) => 4 + v.len(),
            None => 4,
        }
    }

    /// Appends the wire image to `stream` and returns its length; a string too long
    /// for the length prefix is refused and nothing is written.
    pub fn encode(&self, stream: &mut Vec<u8>) -> (r: Result<usize, StatusCode>)
        ensures
            spec_string_encodable(self@) ==> r == Ok::<usize, StatusCode>(
                spec_string_len(self@) as usize,
            ) && final(stream)@ == old(stream)@ + spec_string_bytes(self@),
            !spec_string_encodable(self@) ==> r == Err::<usize, StatusCode>(
                StatusCode::BadEncodingError,
            ) && final(stream)@ == old(stream)@,
    {
        match &self.value {
            Some(v) => {
                if v.len() > 0x7fff_ffff {
                    return Err(StatusCode::BadEncodingError);
                }
                write_i32(stream, v.len() as i32);
                append_bytes(stream, v.as_slice());
                assert(stream@ =~= old(stream)@ + spec_string_bytes(self@));
                Ok(4 + v.len())
            },
            None => {
                write_i32(stream, -1);
                Ok(4)
            },
        }
    }

    /// Reads the string that starts at `pos` and returns it with the position behind it.
    pub fn decode(stream: &[u8], pos: usize) -> (r: Result<(UAString, usize), StatusCode>)
        ensures
            match spec_read_string(stream@, pos as int) {
                Some((v, next)) => r matches Ok((x, n)) && x@ == v && n == next,
                None => r == Err::<(UAString, usize), StatusCode>(StatusCode::BadDecodingError),
            },
    {
        match read_i32(stream, pos) {
            None => Err(StatusCode::BadDecodingError),
            Some(len) => {
                assert(spec_read_u32(stream@, pos as int) is Some);
                let total = stream.len();
                if len == -1 {
                    Ok((UAString { value: None }, pos + 4))
                } else if len < 0 {
                    Err(StatusCode::BadDecodingError)
                } else {
                    let start = pos + 4;
                    if total - start < len as usize {
                        Err(StatusCode::BadDecodingError)
                    } else {
                        let end = start + len as usize;
                        Ok((UAString { value: Some(copy_range(stream, start, end)) }, end))
                    }
                }
            },
        }
    }
}

} // verus!
