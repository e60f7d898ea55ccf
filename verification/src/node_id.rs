//! Node ids as far as the transport meets them: the numeric id that names the
//! service of a message, and the node ids and extension objects that a header
//! carries and the transport passes over.

use crate::encoding::{
    has_at, lemma_has_at_concat, lemma_read_u16_written, lemma_read_u32_written,
    lemma_read_u8_written, lemma_u16_bytes_len, lemma_u32_bytes_len, read_i32, read_u16,
    read_u32, read_u8, spec_read_string, spec_read_u16, spec_read_u32, spec_read_u8,
    spec_u16_bytes, spec_u32_bytes, write_u16, write_u32, write_u8,
};
use crate::status_code::StatusCode;
use vstd::prelude::*;

verus! {

/// The position behind the string that stands at `pos`.
pub open spec fn spec_skip_string(s: Seq<u8>, pos: int) -> Option<int> {
    match spec_read_string(s, pos) {
        Some((_, next)) => Some(next),
        None => None,
    }
}

/// The position behind the node id that stands at `pos`. The first byte names the
/// form: two bytes, four bytes, numeric, string, GUID or opaque.
pub open spec fn spec_skip_node_id(s: Seq<u8>, pos: int) -> Option<int> {
    match spec_read_u8(s, pos) {
        None => None,
        Some(form) => if form == 0 {
            if pos + 2 <= s.len() {
                Some(pos + 2)
            } else {
                None
            }
        } else if form == 1 {
            if pos + 4 <= s.len() {
                Some(pos + 4)
            } else {
                None
            }
        } else if form == 2 {
            if pos + 7 <= s.len() {
                Some(pos + 7)
            } else {
                None
            }
        } else if form == 3 || form == 5 {
            spec_skip_string(s, pos + 3)
        } else if form == 4 {
            if pos + 19 <= s.len() {
                Some(pos + 19)
            } else {
                None
            }
        } else {
            None
        },
    }
}

/// The position behind the extension object that stands at `pos`: a node id, a
/// byte that says whether a body follows, and the body as a byte string.
pub open spec fn spec_skip_extension_object(s: Seq<u8>, pos: int) -> Option<int> {
    match spec_skip_node_id(s, pos) {
        None => None,
        Some(p) => match spec_read_u8(s, p) {
            None => None,
            Some(encoding) => if encoding == 0 {
                Some(p + 1)
            } else if encoding == 1 || encoding == 2 {
                spec_skip_string(s, p + 1)
            } else {
                None
            },
        },
    }
}

/// The null node id in its two-byte form.
pub open spec fn spec_null_node_id_bytes() -> Seq<u8> {
    seq![0u8, 0u8]
}

/// The extension object without a body: the null node id and a zero byte.
pub open spec fn spec_null_extension_object_bytes() -> Seq<u8> {
    seq![0u8, 0u8, 0u8]
}

/// Passing over a null node id passes over its two bytes.
pub proof fn lemma_skip_null_node_id(s: Seq<u8>, pos: int)
    requires
        has_at(s, pos, spec_null_node_id_bytes()),
    ensures
        spec_skip_node_id(s, pos) == Some(pos + 2),
{
    assert(s.subrange(pos, pos + 2)[0] == 0u8);
}

/// Passing over an extension object without a body passes over its three bytes.
pub proof fn lemma_skip_null_extension_object(s: Seq<u8>, pos: int)
    requires
        has_at(s, pos, spec_null_extension_object_bytes()),
    ensures
        spec_skip_extension_object(s, pos) == Some(pos + 3),
{
    assert(s.subrange(pos, pos + 3)[0] == 0u8);
    assert(s.subrange(pos, pos + 3)[2] == 0u8);
}

/// The bytes of the node id that names service `id`: the shortest numeric form
/// in namespace 0 that holds it.
pub open spec fn spec_type_id_bytes(id: u32) -> Seq<u8> {
    if id < 256 {
        seq![0u8, id as u8]
    } else if id < 65536 {
        seq![1u8, 0u8] + spec_u16_bytes(id as u16)
    } else {
        seq![2u8] + spec_u16_bytes(0) + spec_u32_bytes(id)
    }
}

/// The service id that the node id at `pos` names, with the position behind it.
/// A node id that is cut short or of no known form is malformed; one that is
/// well formed but not numeric in namespace 0 names no service.
pub open spec fn spec_read_type_id(s: Seq<u8>, pos: int) -> Result<(u32, int), StatusCode> {
    match spec_skip_node_id(s, pos) {
        None => Err(StatusCode::BadDecodingError),
        Some(next) => {
            let form = s[pos];
            if form == 0 {
                Ok((s[pos + 1] as u32, next))
            } else if form == 1 {
                if s[pos + 1] == 0 {
                    Ok((spec_read_u16(s, pos + 2)->Some_0 as u32, next))
                } else {
                    Err(StatusCode::BadServiceUnsupported)
                }
            } else if form == 2 {
                if spec_read_u16(s, pos + 1)->Some_0 == 0 {
                    Ok((spec_read_u32(s, pos + 3)->Some_0, next))
                } else {
                    Err(StatusCode::BadServiceUnsupported)
                }
            } else {
                Err(StatusCode::BadServiceUnsupported)
            }
        },
    }
}

/// A service id takes two, four or seven bytes, as its size asks.
pub proof fn lemma_type_id_bytes_len(id: u32)
    ensures
        spec_type_id_bytes(id).len() == if id < 256 {
            2nat
        } else if id < 65536 {
            4nat
        } else {
            7nat
        },
{
    lemma_u16_bytes_len(id as u16);
    lemma_u16_bytes_len(0);
    lemma_u32_bytes_len(id);
}

/// A service id reads back from where it was written.
pub proof fn lemma_read_type_id_written(s: Seq<u8>, pos: int, id: u32)
    requires
        has_at(s, pos, spec_type_id_bytes(id)),
    ensures
        spec_read_type_id(s, pos) == Ok::<(u32, int), StatusCode>(
            (id, pos + spec_type_id_bytes(id).len()),
        ),
{
    lemma_type_id_bytes_len(id);
    let enc = spec_type_id_bytes(id);
    let sub = s.subrange(pos, pos + enc.len());
    if id < 256 {
        assert(sub[0] == 0u8 && sub[1] == id as u8);
    } else if id < 65536 {
        lemma_u16_bytes_len(id as u16);
        lemma_has_at_concat(s, pos, seq![1u8, 0u8], spec_u16_bytes(id as u16));
        lemma_read_u16_written(s, pos + 2, id as u16);
        assert(s.subrange(pos, pos + 2)[0] == 1u8);
        assert(s.subrange(pos, pos + 2)[1] == 0u8);
    } else {
        lemma_u16_bytes_len(0);
        lemma_u32_bytes_len(id);
        lemma_has_at_concat(s, pos, seq![2u8] + spec_u16_bytes(0), spec_u32_bytes(id));
        lemma_has_at_concat(s, pos, seq![2u8], spec_u16_bytes(0));
        lemma_read_u16_written(s, pos + 1, 0);
        lemma_read_u32_written(s, pos + 3, id);
        lemma_read_u8_written(s, pos, 2u8);
    }
}

/// Passes over the string that starts at `pos`.
pub fn skip_string(stream: &[u8], pos: usize) -> (r: Option<usize>)
    ensures
        match spec_skip_string(stream@, pos as int) {
            Some(next) => r == Some(next as usize) && next <= stream@.len(),
            None => r is None,
        },
{
    match read_i32(stream, pos) {
        None => None,
        Some(len) => {
            assert(spec_read_u32(stream@, pos as int) is Some);
            let total = stream.len();
            if len == -1 {
                Some(pos + 4)
            } else if len < 0 {
                None
            } else if total - (pos + 4) < len as usize {
                None
            } else {
                Some(pos + 4 + len as usize)
            }
        },
    }
}

/// Passes over the node id that starts at `pos`.
pub fn skip_node_id(stream: &[u8], pos: usize) -> (r: Option<usize>)
    ensures
        match spec_skip_node_id(stream@, pos as int) {
            Some(next) => r == Some(next as usize) && pos < next <= stream@.len(),
            None => r is None,
        },
{
    let total = stream.len();
    match read_u8(stream, pos) {
        None => None,
        Some(form) => {
            let left = total - pos;
            if form == 0 {
                if left >= 2 {
                    Some(pos + 2)
                } else {
                    None
                }
            } else if form == 1 {
                if left >= 4 {
                    Some(pos + 4)
                } else {
                    None
                }
            } else if form == 2 {
                if left >= 7 {
                    Some(pos + 7)
                } else {
                    None
                }
            } else if form == 3 || form == 5 {
                if left < 3 {
                    None
                } else {
                    skip_string(stream, pos + 3)
                }
            } else if form == 4 {
                if left >= 19 {
                    Some(pos + 19)
                } else {
                    None
                }
            } else {
                None
            }
        },
    }
}

/// Passes over the extension object that starts at `pos`.
pub fn skip_extension_object(stream: &[u8], pos: usize) -> (r: Option<usize>)
    ensures
        match spec_skip_extension_object(stream@, pos as int) {
            Some(next) => r == Some(next as usize) && pos < next <= stream@.len(),
            None => r is None,
        },
{
    let total = stream.len();
    match skip_node_id(stream, pos) {
        None => None,
        Some(p) => match read_u8(stream, p) {
            None => None,
            Some(encoding) => {
                if encoding == 0 {
                    Some(p + 1)
                } else if encoding == 1 || encoding == 2 {
                    skip_string(stream, p + 1)
                } else {
                    None
                }
            },
        },
    }
}

/// Appends the node id that names service `id`.
pub fn write_type_id(stream: &mut Vec<u8>, id: u32)
    ensures
        final(stream)@ == old(stream)@ + spec_type_id_bytes(id),
{
    if id < 256 {
        write_u8(stream, 0);
        write_u8(stream, id as u8);
    } else if id < 65536 {
        write_u8(stream, 1);
        write_u8(stream, 0);
        write_u16(stream, id as u16);
    } else {
        write_u8(stream, 2);
        write_u16(stream, 0);
        write_u32(stream, id);
    }
    assert(stream@ =~= old(stream)@ + spec_type_id_bytes(id));
}

/// Reads the service id that the node id at `pos` names.
pub fn read_type_id(stream: &[u8], pos: usize) -> (r: Result<(u32, usize), StatusCode>)
    ensures
        match spec_read_type_id(stream@, pos as int) {
            Ok((id, next)) => r == Ok::<(u32, usize), StatusCode>((id, next as usize)) && pos
                < next <= stream@.len(),
            Err(e) => r == Err::<(u32, usize), StatusCode>(e),
        },
{
    match skip_node_id(stream, pos) {
        None => Err(StatusCode::BadDecodingError),
        Some(next) => {
            let form = stream[pos];
            if form == 0 {
                Ok((stream[pos + 1] as u32, next))
            } else if form == 1 {
                if stream[pos + 1] == 0 {
                    Ok((read_u16(stream, pos + 2).unwrap() as u32, next))
                } else {
                    Err(StatusCode::BadServiceUnsupported)
                }
            } else if form == 2 {
                if read_u16(stream, pos + 1).unwrap() == 0 {
                    Ok((read_u32(stream, pos + 3).unwrap(), next))
                } else {
                    Err(StatusCode::BadServiceUnsupported)
                }
            } else {
                Err(StatusCode::BadServiceUnsupported)
            }
        },
    }
}

} // verus!
