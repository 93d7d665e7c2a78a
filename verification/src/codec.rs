//! The canonical codec: a self-describing, field-named binary form for wire
//! values, with a verified round trip.
//!
//! Every well-formed value has exactly one encoding: integers, lengths and
//! headers always use the shortest frame that fits, a non-negative integer
//! is always framed as unsigned, and the decoder accepts only those
//! shortest frames. [`enc`] is the mathematical encoding, [`dec`] the
//! mathematical decoder; [`encode_value`] and [`decode_value`] are the
//! executable functions, each pinned to its mathematical counterpart.

use vstd::prelude::*;
use vstd::arithmetic::div_mod::lemma_fundamental_div_mod;
use vstd::utf8::{encode_utf8, decode_utf8, valid_utf8};
use crate::value::{Val, ValModel, wf, fits_len, view_list, view_entries};
use crate::error::{DecodeError, EncodeError};

verus! {

broadcast use vstd::std_specs::vec::group_vec_axioms, vstd::seq::group_seq_axioms;

// ---------------------------------------------------------------------------
// Big-endian length and integer frames
// ---------------------------------------------------------------------------

/// Two big-endian bytes of `v`.
pub open spec fn be16(v: int) -> Seq<u8>
    recommends
        0 <= v < 0x10000,
{
    seq![(v / 0x100) as u8, (v % 0x100) as u8]
}

/// Four big-endian bytes of `v`.
pub open spec fn be32(v: int) -> Seq<u8>
    recommends
        0 <= v < 0x1_0000_0000,
{
    be16(v / 0x10000) + be16(v % 0x10000)
}

/// Eight big-endian bytes of `v`.
pub open spec fn be64(v: int) -> Seq<u8>
    recommends
        0 <= v < 0x1_0000_0000_0000_0000,
{
    be32(v / 0x1_0000_0000) + be32(v % 0x1_0000_0000)
}

/// The value of two big-endian bytes at `pos`.
pub open spec fn rd16(b: Seq<u8>, pos: int) -> int
    recommends
        0 <= pos,
        pos + 2 <= b.len(),
{
    b[pos] * 0x100 + b[pos + 1]
}

/// The value of four big-endian bytes at `pos`.
pub open spec fn rd32(b: Seq<u8>, pos: int) -> int
    recommends
        0 <= pos,
        pos + 4 <= b.len(),
{
    rd16(b, pos) * 0x10000 + rd16(b, pos + 2)
}

/// The value of eight big-endian bytes at `pos`.
pub open spec fn rd64(b: Seq<u8>, pos: int) -> int
    recommends
        0 <= pos,
        pos + 8 <= b.len(),
{
    rd32(b, pos) * 0x1_0000_0000 + rd32(b, pos + 4)
}

/// Reading back the two big-endian bytes of `v` yields `v`.
pub proof fn lemma_be16(v: int, b: Seq<u8>, pos: int)
    requires
        0 <= v < 0x10000,
        0 <= pos,
        pos + 2 <= b.len(),
        b.subrange(pos, pos + 2) == be16(v),
    ensures
        rd16(b, pos) == v,
{
    assert(b[pos] == be16(v)[0]) by {
        assert(b.subrange(pos, pos + 2)[0] == b[pos]);
    }
    assert(b[pos + 1] == be16(v)[1]) by {
        assert(b.subrange(pos, pos + 2)[1] == b[pos + 1]);
    }
    lemma_fundamental_div_mod(v, 0x100);
}

/// Reading back the four big-endian bytes of `v` yields `v`.
pub proof fn lemma_be32(v: int, b: Seq<u8>, pos: int)
    requires
        0 <= v < 0x1_0000_0000,
        0 <= pos,
        pos + 4 <= b.len(),
        b.subrange(pos, pos + 4) == be32(v),
    ensures
        rd32(b, pos) == v,
{
    assert(b.subrange(pos, pos + 2) =~= be16(v / 0x10000));
    assert(b.subrange(pos + 2, pos + 4) =~= be16(v % 0x10000)) by {
        assert forall|i: int| 0 <= i < 2 implies #[trigger] b.subrange(pos + 2, pos + 4)[i]
            == be16(v % 0x10000)[i] by {
            assert(b.subrange(pos + 2, pos + 4)[i] == b.subrange(pos, pos + 4)[2 + i]);
            assert(be32(v)[2 + i] == be16(v % 0x10000)[i]);
        }
    }
    lemma_be16(v / 0x10000, b, pos);
    lemma_be16(v % 0x10000, b, pos + 2);
    lemma_fundamental_div_mod(v, 0x10000);
}

/// Reading back the eight big-endian bytes of `v` yields `v`.
pub proof fn lemma_be64(v: int, b: Seq<u8>, pos: int)
    requires
        0 <= v < 0x1_0000_0000_0000_0000,
        0 <= pos,
        pos + 8 <= b.len(),
        b.subrange(pos, pos + 8) == be64(v),
    ensures
        rd64(b, pos) == v,
{
    assert(b.subrange(pos, pos + 4) =~= be32(v / 0x1_0000_0000));
    assert(b.subrange(pos + 4, pos + 8) =~= be32(v % 0x1_0000_0000)) by {
        assert(be32(v / 0x1_0000_0000).len() == 4);
        assert forall|i: int| 0 <= i < 4 implies #[trigger] b.subrange(pos + 4, pos + 8)[i]
            == be32(v % 0x1_0000_0000)[i] by {
            assert(b.subrange(pos + 4, pos + 8)[i] == b.subrange(pos, pos + 8)[4 + i]);
            assert(be64(v)[4 + i] == be32(v % 0x1_0000_0000)[i]);
        }
    }
    lemma_be32(v / 0x1_0000_0000, b, pos);
    lemma_be32(v % 0x1_0000_0000, b, pos + 4);
    lemma_fundamental_div_mod(v, 0x1_0000_0000);
}

// ---------------------------------------------------------------------------
// Canonical headers
// ---------------------------------------------------------------------------

/// The shortest unsigned-integer frame for `u`.
pub open spec fn enc_uint(u: u64) -> Seq<u8> {
    if u <= 0x7f {
        seq![u as u8]
    } else if u <= 0xff {
        seq![0xccu8, u as u8]
    } else if u <= 0xffff {
        seq![0xcdu8] + be16(u as int)
    } else if u <= 0xffff_ffff {
        seq![0xceu8] + be32(u as int)
    } else {
        seq![0xcfu8] + be64(u as int)
    }
}

/// The shortest signed-integer frame for a strictly negative `i`.
pub open spec fn enc_int(i: i64) -> Seq<u8>
    recommends
        i < 0,
{
    if i >= -32 {
        seq![(i + 0x100) as u8]
    } else if i >= -0x80 {
        seq![0xd0u8, (i + 0x100) as u8]
    } else if i >= -0x8000 {
        seq![0xd1u8] + be16(i + 0x10000)
    } else if i >= -0x8000_0000 {
        seq![0xd2u8] + be32(i + 0x1_0000_0000)
    } else {
        seq![0xd3u8] + be64(i + 0x1_0000_0000_0000_0000)
    }
}

/// The shortest string header for a text of `n` bytes.
pub open spec fn str_header(n: int) -> Seq<u8>
    recommends
        0 <= n < 0x1_0000_0000,
{
    if n <= 31 {
        seq![(0xa0 + n) as u8]
    } else if n <= 0xff {
        seq![0xd9u8, n as u8]
    } else if n <= 0xffff {
        seq![0xdau8] + be16(n)
    } else {
        seq![0xdbu8] + be32(n)
    }
}

/// The shortest binary header for `n` payload bytes.
pub open spec fn bin_header(n: int) -> Seq<u8>
    recommends
        0 <= n < 0x1_0000_0000,
{
    if n <= 0xff {
        seq![0xc4u8, n as u8]
    } else if n <= 0xffff {
        seq![0xc5u8] + be16(n)
    } else {
        seq![0xc6u8] + be32(n)
    }
}

/// The shortest sequence header for `n` elements.
pub open spec fn arr_header(n: int) -> Seq<u8>
    recommends
        0 <= n < 0x1_0000_0000,
{
    if n <= 15 {
        seq![(0x90 + n) as u8]
    } else if n <= 0xffff {
        seq![0xdcu8] + be16(n)
    } else {
        seq![0xddu8] + be32(n)
    }
}

/// The shortest map header for `n` fields.
pub open spec fn map_header(n: int) -> Seq<u8>
    recommends
        0 <= n < 0x1_0000_0000,
{
    if n <= 15 {
        seq![(0x80 + n) as u8]
    } else if n <= 0xffff {
        seq![0xdeu8] + be16(n)
    } else {
        seq![0xdfu8] + be32(n)
    }
}

/// The canonical frame of a text: header, then UTF-8 bytes.
pub open spec fn enc_str(s: Seq<char>) -> Seq<u8> {
    str_header(encode_utf8(s).len() as int) + encode_utf8(s)
}

// ---------------------------------------------------------------------------
// The canonical encoding
// ---------------------------------------------------------------------------

/// The canonical encoding of a wire value.
pub open spec fn enc(v: ValModel) -> Seq<u8>
    decreases v,
{
    match v {
        ValModel::Nil => seq![0xc0u8],
        ValModel::Bool(x) => if x {
            seq![0xc3u8]
        } else {
            seq![0xc2u8]
        },
        ValModel::Uint(u) => enc_uint(u),
        ValModel::Int(i) => enc_int(i),
        ValModel::Str(s) => enc_str(s),
        ValModel::Bin(p) => bin_header(p.len() as int) + p,
        ValModel::Arr(a) => arr_header(a.len() as int) + enc_list(a),
        ValModel::Dict(m) => map_header(m.len() as int) + enc_entries(m),
    }
}

/// The concatenated encodings of a sequence of values.
pub open spec fn enc_list(a: Seq<ValModel>) -> Seq<u8>
    decreases a,
{
    if a.len() == 0 {
        Seq::empty()
    } else {
        enc(a[0]) + enc_list(a.drop_first())
    }
}

/// The concatenated encodings of named fields: key text, then value.
pub open spec fn enc_entries(m: Seq<(Seq<char>, ValModel)>) -> Seq<u8>
    decreases m,
{
    if m.len() == 0 {
        Seq::empty()
    } else {
        enc_str(m[0].0) + enc(m[0].1) + enc_entries(m.drop_first())
    }
}

// ---------------------------------------------------------------------------
// The canonical decoder
// ---------------------------------------------------------------------------

/// Text payload at `pos`: `n` bytes that must be valid UTF-8.
pub open spec fn str_body(b: Seq<u8>, pos: int, n: int) -> Option<(Seq<char>, int)> {
    if 0 <= pos && 0 <= n && pos + n <= b.len() && valid_utf8(b.subrange(pos, pos + n)) {
        Some((decode_utf8(b.subrange(pos, pos + n)), pos + n))
    } else {
        None
    }
}

/// Decodes a text frame at `pos`: one of the four string headers, in its
/// canonical (shortest) form, followed by the UTF-8 payload.
pub open spec fn dec_str(b: Seq<u8>, pos: int) -> Option<(Seq<char>, int)> {
    if pos < 0 || pos >= b.len() {
        None
    } else {
        let t = b[pos];
        if 0xa0 <= t && t <= 0xbf {
            str_body(b, pos + 1, (t - 0xa0) as int)
        } else if t == 0xd9 {
            if pos + 2 <= b.len() && b[pos + 1] > 31 {
                str_body(b, pos + 2, b[pos + 1] as int)
            } else {
                None
            }
        } else if t == 0xda {
            if pos + 3 <= b.len() && rd16(b, pos + 1) > 0xff {
                str_body(b, pos + 3, rd16(b, pos + 1))
            } else {
                None
            }
        } else if t == 0xdb {
            if pos + 5 <= b.len() && rd32(b, pos + 1) > 0xffff {
                str_body(b, pos + 5, rd32(b, pos + 1))
            } else {
                None
            }
        } else {
            None
        }
    }
}

/// Binary payload at `pos`: `n` raw bytes.
pub open spec fn bin_body(b: Seq<u8>, pos: int, n: int) -> Option<(ValModel, int)> {
    if 0 <= pos && 0 <= n && pos + n <= b.len() {
        Some((ValModel::Bin(b.subrange(pos, pos + n)), pos + n))
    } else {
        None
    }
}

/// Decodes one wire value at `pos`. Returns the value and the position one
/// past its last byte, or `None` when the bytes are not a canonical frame.
pub open spec fn dec(b: Seq<u8>, pos: int) -> Option<(ValModel, int)>
    decreases b.len() - pos, 0nat, 0nat,
{
    if pos < 0 || pos >= b.len() {
        None
    } else {
        let t = b[pos];
        if t <= 0x7f {
            Some((ValModel::Uint(t as u64), pos + 1))
        } else if 0x80 <= t && t <= 0x8f {
            match dec_entries(b, pos + 1, (t - 0x80) as int) {
                Some((m, end)) => Some((ValModel::Dict(m), end)),
                None => None,
            }
        } else if 0x90 <= t && t <= 0x9f {
            match dec_list(b, pos + 1, (t - 0x90) as int) {
                Some((a, end)) => Some((ValModel::Arr(a), end)),
                None => None,
            }
        } else if (0xa0 <= t && t <= 0xbf) || t == 0xd9 || t == 0xda || t == 0xdb {
            match dec_str(b, pos) {
                Some((s, end)) => Some((ValModel::Str(s), end)),
                None => None,
            }
        } else if t == 0xc0 {
            Some((ValModel::Nil, pos + 1))
        } else if t == 0xc2 {
            Some((ValModel::Bool(false), pos + 1))
        } else if t == 0xc3 {
            Some((ValModel::Bool(true), pos + 1))
        } else if t == 0xc4 {
            if pos + 2 <= b.len() {
                bin_body(b, pos + 2, b[pos + 1] as int)
            } else {
                None
            }
        } else if t == 0xc5 {
            if pos + 3 <= b.len() && rd16(b, pos + 1) > 0xff {
                bin_body(b, pos + 3, rd16(b, pos + 1))
            } else {
                None
            }
        } else if t == 0xc6 {
            if pos + 5 <= b.len() && rd32(b, pos + 1) > 0xffff {
                bin_body(b, pos + 5, rd32(b, pos + 1))
            } else {
                None
            }
        } else if t == 0xcc {
            if pos + 2 <= b.len() && b[pos + 1] > 0x7f {
                Some((ValModel::Uint(b[pos + 1] as u64), pos + 2))
            } else {
                None
            }
        } else if t == 0xcd {
            if pos + 3 <= b.len() && rd16(b, pos + 1) > 0xff {
                Some((ValModel::Uint(rd16(b, pos + 1) as u64), pos + 3))
            } else {
                None
            }
        } else if t == 0xce {
            if pos + 5 <= b.len() && rd32(b, pos + 1) > 0xffff {
                Some((ValModel::Uint(rd32(b, pos + 1) as u64), pos + 5))
            } else {
                None
            }
        } else if t == 0xcf {
            if pos + 9 <= b.len() && rd64(b, pos + 1) > 0xffff_ffff {
                Some((ValModel::Uint(rd64(b, pos + 1) as u64), pos + 9))
            } else {
                None
            }
        } else if t == 0xd0 {
            if pos + 2 <= b.len() && 0x80 <= b[pos + 1] && b[pos + 1] <= 0xdf {
                Some((ValModel::Int((b[pos + 1] - 0x100) as i64), pos + 2))
            } else {
                None
            }
        } else if t == 0xd1 {
            if pos + 3 <= b.len() && 0x8000 <= rd16(b, pos + 1) && rd16(b, pos + 1) <= 0xff7f {
                Some((ValModel::Int((rd16(b, pos + 1) - 0x10000) as i64), pos + 3))
            } else {
                None
            }
        } else if t == 0xd2 {
            if pos + 5 <= b.len() && 0x8000_0000 <= rd32(b, pos + 1) && rd32(b, pos + 1)
                <= 0xffff_7fff {
                Some((ValModel::Int((rd32(b, pos + 1) - 0x1_0000_0000) as i64), pos + 5))
            } else {
                None
            }
        } else if t == 0xd3 {
            if pos + 9 <= b.len() && 0x8000_0000_0000_0000 <= rd64(b, pos + 1) && rd64(b, pos + 1)
                <= 0xffff_ffff_7fff_ffff {
                Some((ValModel::Int((rd64(b, pos + 1) - 0x1_0000_0000_0000_0000) as i64), pos + 9))
            } else {
                None
            }
        } else if t == 0xdc {
            if pos + 3 <= b.len() && rd16(b, pos + 1) > 15 {
                match dec_list(b, pos + 3, rd16(b, pos + 1)) {
                    Some((a, end)) => Some((ValModel::Arr(a), end)),
                    None => None,
                }
            } else {
                None
            }
        } else if t == 0xdd {
            if pos + 5 <= b.len() && rd32(b, pos + 1) > 0xffff {
                match dec_list(b, pos + 5, rd32(b, pos + 1)) {
                    Some((a, end)) => Some((ValModel::Arr(a), end)),
                    None => None,
                }
            } else {
                None
            }
        } else if t == 0xde {
            if pos + 3 <= b.len() && rd16(b, pos + 1) > 15 {
                match dec_entries(b, pos + 3, rd16(b, pos + 1)) {
                    Some((m, end)) => Some((ValModel::Dict(m), end)),
                    None => None,
                }
            } else {
                None
            }
        } else if t == 0xdf {
            if pos + 5 <= b.len() && rd32(b, pos + 1) > 0xffff {
                match dec_entries(b, pos + 5, rd32(b, pos + 1)) {
                    Some((m, end)) => Some((ValModel::Dict(m), end)),
                    None => None,
                }
            } else {
                None
            }
        } else if t >= 0xe0 {
            Some((ValModel::Int((t - 0x100) as i64), pos + 1))
        } else {
            None
        }
    }
}

/// Decodes `n` consecutive wire values starting at `pos`.
pub open spec fn dec_list(b: Seq<u8>, pos: int, n: int) -> Option<(Seq<ValModel>, int)>
    decreases b.len() - pos, 1nat, n,
{
    if pos < 0 || pos > b.len() || n < 0 {
        None
    } else if n == 0 {
        Some((Seq::empty(), pos))
    } else {
        match dec(b, pos) {
            Some((v, e1)) => if pos < e1 && e1 <= b.len() {
                match dec_list(b, e1, n - 1) {
                    Some((a, end)) => Some((seq![v] + a, end)),
                    None => None,
                }
            } else {
                None
            },
            None => None,
        }
    }
}

/// Decodes `n` consecutive named fields (key text, then value) at `pos`.
pub open spec fn dec_entries(b: Seq<u8>, pos: int, n: int) -> Option<
    (Seq<(Seq<char>, ValModel)>, int),
>
    decreases b.len() - pos, 1nat, n,
{
    if pos < 0 || pos > b.len() || n < 0 {
        None
    } else if n == 0 {
        Some((Seq::empty(), pos))
    } else {
        match dec_str(b, pos) {
            Some((k, e1)) => if pos < e1 && e1 <= b.len() {
                match dec(b, e1) {
                    Some((v, e2)) => if e1 < e2 && e2 <= b.len() {
                        match dec_entries(b, e2, n - 1) {
                            Some((m, end)) => Some((seq![(k, v)] + m, end)),
                            None => None,
                        }
                    } else {
                        None
                    },
                    None => None,
                }
            } else {
                None
            },
            None => None,
        }
    }
}

/// Decodes a whole buffer: exactly one wire value with nothing trailing.
pub open spec fn dec_full(b: Seq<u8>) -> Option<ValModel> {
    match dec(b, 0) {
        Some((v, end)) => if end == b.len() {
            Some(v)
        } else {
            None
        },
        None => None,
    }
}

// ---------------------------------------------------------------------------
// The round trip: decoding a canonical encoding yields the value back
// ---------------------------------------------------------------------------

/// A window of a buffer that holds a known byte string also holds each of
/// its sub-windows.
proof fn lemma_sub_of_prefix(b: Seq<u8>, pos: int, e: Seq<u8>, i: int, j: int)
    requires
        0 <= pos,
        pos + e.len() <= b.len(),
        b.subrange(pos, pos + e.len() as int) == e,
        0 <= i <= j <= e.len(),
    ensures
        b.subrange(pos + i, pos + j) == e.subrange(i, j),
{
    assert forall|k: int| 0 <= k < j - i implies #[trigger] b.subrange(pos + i, pos + j)[k]
        == e.subrange(i, j)[k] by {
        assert(b.subrange(pos, pos + e.len() as int)[i + k] == b[pos + i + k]);
    }
    assert(b.subrange(pos + i, pos + j) =~= e.subrange(i, j));
}

/// Every canonical frame occupies at least one byte.
proof fn lemma_enc_nonempty(v: ValModel)
    ensures
        enc(v).len() >= 1,
{
}

/// Decoding a buffer that carries the canonical frame of text `s` at `pos`
/// yields `s` and stops right after the frame.
proof fn lemma_dec_str_complete(b: Seq<u8>, pos: int, s: Seq<char>)
    requires
        fits_len(encode_utf8(s).len()),
        0 <= pos,
        pos + enc_str(s).len() <= b.len(),
        b.subrange(pos, pos + enc_str(s).len() as int) == enc_str(s),
    ensures
        dec_str(b, pos) == Some((s, pos + enc_str(s).len() as int)),
{
    let u = encode_utf8(s);
    let n = u.len() as int;
    let e = enc_str(s);
    let h = str_header(n).len() as int;
    assert(e.len() == h + n);
    assert(b[pos] == e[0]) by {
        assert(b.subrange(pos, pos + e.len() as int)[0] == b[pos]);
    }
    assert(e[0] == str_header(n)[0]);
    lemma_sub_of_prefix(b, pos, e, h, h + n);
    assert(e.subrange(h, h + n) =~= u);
    vstd::utf8::encode_utf8_valid_utf8(s);
    vstd::utf8::encode_utf8_decode_utf8(s);
    if n <= 31 {
        assert(str_body(b, pos + 1, n) == Some((s, pos + 1 + n)));
    } else if n <= 0xff {
        assert(b[pos + 1] == e[1]) by {
            assert(b.subrange(pos, pos + e.len() as int)[1] == b[pos + 1]);
        }
        assert(str_body(b, pos + 2, n) == Some((s, pos + 2 + n)));
    } else if n <= 0xffff {
        lemma_sub_of_prefix(b, pos, e, 1, 3);
        assert(e.subrange(1, 3) =~= be16(n));
        lemma_be16(n, b, pos + 1);
        assert(str_body(b, pos + 3, n) == Some((s, pos + 3 + n)));
    } else {
        lemma_sub_of_prefix(b, pos, e, 1, 5);
        assert(e.subrange(1, 5) =~= be32(n));
        lemma_be32(n, b, pos + 1);
        assert(str_body(b, pos + 5, n) == Some((s, pos + 5 + n)));
    }
}

/// Decoding a buffer that carries the canonical frame of a well-formed
/// value `v` at `pos` yields `v` and stops right after the frame.
#[verifier::rlimit(80)]
#[verifier::spinoff_prover]
pub proof fn lemma_dec_complete(b: Seq<u8>, pos: int, v: ValModel)
    requires
        wf(v),
        0 <= pos,
        pos + enc(v).len() <= b.len(),
        b.subrange(pos, pos + enc(v).len() as int) == enc(v),
    ensures
        dec(b, pos) == Some((v, pos + enc(v).len() as int)),
    decreases v,
{
    let e = enc(v);
    let endpos = pos + e.len() as int;
    lemma_enc_nonempty(v);
    assert(b[pos] == e[0]) by {
        assert(b.subrange(pos, pos + e.len() as int)[0] == b[pos]);
    }
    match v {
        ValModel::Nil => {},
        ValModel::Bool(_) => {},
        ValModel::Uint(u) => {
            if u <= 0x7f {
            } else if u <= 0xff {
                assert(b[pos + 1] == e[1]) by {
                    assert(b.subrange(pos, pos + e.len() as int)[1] == b[pos + 1]);
                }
            } else if u <= 0xffff {
                lemma_sub_of_prefix(b, pos, e, 1, 3);
                assert(e.subrange(1, 3) =~= be16(u as int));
                lemma_be16(u as int, b, pos + 1);
            } else if u <= 0xffff_ffff {
                lemma_sub_of_prefix(b, pos, e, 1, 5);
                assert(e.subrange(1, 5) =~= be32(u as int));
                lemma_be32(u as int, b, pos + 1);
            } else {
                lemma_sub_of_prefix(b, pos, e, 1, 9);
                assert(e.subrange(1, 9) =~= be64(u as int));
                lemma_be64(u as int, b, pos + 1);
            }
        },
        ValModel::Int(i) => {
            if i >= -32 {
            } else if i >= -0x80 {
                assert(b[pos + 1] == e[1]) by {
                    assert(b.subrange(pos, pos + e.len() as int)[1] == b[pos + 1]);
                }
            } else if i >= -0x8000 {
                lemma_sub_of_prefix(b, pos, e, 1, 3);
                assert(e.subrange(1, 3) =~= be16(i + 0x10000));
                lemma_be16(i + 0x10000, b, pos + 1);
            } else if i >= -0x8000_0000 {
                lemma_sub_of_prefix(b, pos, e, 1, 5);
                assert(e.subrange(1, 5) =~= be32(i + 0x1_0000_0000));
                lemma_be32(i + 0x1_0000_0000, b, pos + 1);
            } else {
                lemma_sub_of_prefix(b, pos, e, 1, 9);
                assert(e.subrange(1, 9) =~= be64(i + 0x1_0000_0000_0000_0000));
                lemma_be64(i + 0x1_0000_0000_0000_0000, b, pos + 1);
            }
        },
        ValModel::Str(s) => {
            lemma_dec_str_complete(b, pos, s);
        },
        ValModel::Bin(p) => {
            let n = p.len() as int;
            let h = bin_header(n).len() as int;
            lemma_sub_of_prefix(b, pos, e, h, h + n);
            assert(e.subrange(h, h + n) =~= p);
            if n <= 0xff {
                assert(b[pos + 1] == e[1]) by {
                    assert(b.subrange(pos, pos + e.len() as int)[1] == b[pos + 1]);
                }
                assert(bin_body(b, pos + 2, n) == Some((ValModel::Bin(p), pos + 2 + n)));
            } else if n <= 0xffff {
                lemma_sub_of_prefix(b, pos, e, 1, 3);
                assert(e.subrange(1, 3) =~= be16(n));
                lemma_be16(n, b, pos + 1);
                assert(bin_body(b, pos + 3, n) == Some((ValModel::Bin(p), pos + 3 + n)));
            } else {
                lemma_sub_of_prefix(b, pos, e, 1, 5);
                assert(e.subrange(1, 5) =~= be32(n));
                lemma_be32(n, b, pos + 1);
                assert(bin_body(b, pos + 5, n) == Some((ValModel::Bin(p), pos + 5 + n)));
            }
        },
        ValModel::Arr(a) => {
            let n = a.len() as int;
            let h = arr_header(n).len() as int;
            lemma_sub_of_prefix(b, pos, e, h, e.len() as int);
            assert(e.subrange(h, e.len() as int) =~= enc_list(a));
            if n <= 15 {
            } else if n <= 0xffff {
                lemma_sub_of_prefix(b, pos, e, 1, 3);
                assert(e.subrange(1, 3) =~= be16(n));
                lemma_be16(n, b, pos + 1);
            } else {
                lemma_sub_of_prefix(b, pos, e, 1, 5);
                assert(e.subrange(1, 5) =~= be32(n));
                lemma_be32(n, b, pos + 1);
            }
            lemma_dec_list_complete(b, pos + h, a);
        },
        ValModel::Dict(m) => {
            let n = m.len() as int;
            let h = map_header(n).len() as int;
            lemma_sub_of_prefix(b, pos, e, h, e.len() as int);
            assert(e.subrange(h, e.len() as int) =~= enc_entries(m));
            if n <= 15 {
            } else if n <= 0xffff {
                lemma_sub_of_prefix(b, pos, e, 1, 3);
                assert(e.subrange(1, 3) =~= be16(n));
                lemma_be16(n, b, pos + 1);
            } else {
                lemma_sub_of_prefix(b, pos, e, 1, 5);
                assert(e.subrange(1, 5) =~= be32(n));
                lemma_be32(n, b, pos + 1);
            }
            lemma_dec_entries_complete(b, pos + h, m);
        },
    }
}

/// Decoding a buffer that carries the concatenated canonical frames of the
/// well-formed values `a` at `pos` yields `a`.
proof fn lemma_dec_list_complete(b: Seq<u8>, pos: int, a: Seq<ValModel>)
    requires
        forall|i: int| 0 <= i < a.len() ==> wf(#[trigger] a[i]),
        0 <= pos,
        pos + enc_list(a).len() <= b.len(),
        b.subrange(pos, pos + enc_list(a).len() as int) == enc_list(a),
    ensures
        dec_list(b, pos, a.len() as int) == Some((a, pos + enc_list(a).len() as int)),
    decreases a,
{
    if a.len() == 0 {
        assert(a =~= Seq::<ValModel>::empty());
    } else {
        let e = enc_list(a);
        let first = enc(a[0]);
        let rest = a.drop_first();
        lemma_enc_nonempty(a[0]);
        lemma_sub_of_prefix(b, pos, e, 0, first.len() as int);
        assert(e.subrange(0, first.len() as int) =~= first);
        assert(b.subrange(pos, pos + first.len() as int) == first) by {
            assert(b.subrange(pos + 0, pos + first.len() as int) == b.subrange(
                pos,
                pos + first.len() as int,
            ));
        }
        lemma_dec_complete(b, pos, a[0]);
        let e1 = pos + first.len() as int;
        lemma_sub_of_prefix(b, pos, e, first.len() as int, e.len() as int);
        assert(e.subrange(first.len() as int, e.len() as int) =~= enc_list(rest));
        lemma_dec_list_complete(b, e1, rest);
        assert(seq![a[0]] + rest =~= a);
    }
}

/// Decoding a buffer that carries the concatenated canonical frames of the
/// fields `m` at `pos` yields `m`.
proof fn lemma_dec_entries_complete(b: Seq<u8>, pos: int, m: Seq<(Seq<char>, ValModel)>)
    requires
        forall|i: int|
            0 <= i < m.len() ==> fits_len(encode_utf8((#[trigger] m[i]).0).len()) && wf(m[i].1),
        0 <= pos,
        pos + enc_entries(m).len() <= b.len(),
        b.subrange(pos, pos + enc_entries(m).len() as int) == enc_entries(m),
    ensures
        dec_entries(b, pos, m.len() as int) == Some((m, pos + enc_entries(m).len() as int)),
    decreases m,
{
    if m.len() == 0 {
        assert(m =~= Seq::<(Seq<char>, ValModel)>::empty());
    } else {
        let e = enc_entries(m);
        let kf = enc_str(m[0].0);
        let vf = enc(m[0].1);
        let rest = m.drop_first();
        lemma_enc_nonempty(m[0].1);
        assert(kf.len() >= 1);
        lemma_sub_of_prefix(b, pos, e, 0, kf.len() as int);
        assert(e.subrange(0, kf.len() as int) =~= kf);
        assert(b.subrange(pos + 0, pos + kf.len() as int) == b.subrange(
            pos,
            pos + kf.len() as int,
        ));
        lemma_dec_str_complete(b, pos, m[0].0);
        let e1 = pos + kf.len() as int;
        lemma_sub_of_prefix(b, pos, e, kf.len() as int, (kf.len() + vf.len()) as int);
        assert(e.subrange(kf.len() as int, (kf.len() + vf.len()) as int) =~= vf);
        lemma_dec_complete(b, e1, m[0].1);
        let e2 = e1 + vf.len() as int;
        lemma_sub_of_prefix(b, pos, e, (kf.len() + vf.len()) as int, e.len() as int);
        assert(e.subrange((kf.len() + vf.len()) as int, e.len() as int) =~= enc_entries(rest));
        lemma_dec_entries_complete(b, e2, rest);
        assert(seq![(m[0].0, m[0].1)] + rest =~= m);
        assert((m[0].0, m[0].1) == m[0]);
    }
}

/// The round-trip law of the canonical codec: decoding the encoding of any
/// well-formed wire value yields exactly that value.
pub proof fn lemma_round_trip(v: ValModel)
    requires
        wf(v),
    ensures
        dec_full(enc(v)) == Some(v),
{
    let b = enc(v);
    assert(b.subrange(0, b.len() as int) =~= b);
    lemma_dec_complete(b, 0, v);
}

/// Appending one more value extends the canonical frame sequence.
proof fn lemma_enc_list_snoc(s: Seq<ValModel>, x: ValModel)
    ensures
        enc_list(s.push(x)) == enc_list(s) + enc(x),
    decreases s.len(),
{
    if s.len() == 0 {
        assert(s.push(x)[0] == x);
        assert(s.push(x).drop_first() =~= s);
        assert(enc_list(s.push(x)) =~= enc_list(s) + enc(x));
    } else {
        lemma_enc_list_snoc(s.drop_first(), x);
        assert(s.push(x)[0] == s[0]);
        assert(s.push(x).drop_first() =~= s.drop_first().push(x));
        assert(enc_list(s.push(x)) == enc(s[0]) + enc_list(s.drop_first().push(x)));
        assert(enc_list(s) == enc(s[0]) + enc_list(s.drop_first()));
        assert(enc(s[0]) + (enc_list(s.drop_first()) + enc(x)) =~= (enc(s[0]) + enc_list(
            s.drop_first(),
        )) + enc(x));
    }
}

/// Appending one more field extends the canonical field-frame sequence.
proof fn lemma_enc_entries_snoc(s: Seq<(Seq<char>, ValModel)>, k: Seq<char>, x: ValModel)
    ensures
        enc_entries(s.push((k, x))) == enc_entries(s) + enc_str(k) + enc(x),
    decreases s.len(),
{
    if s.len() == 0 {
        assert(s.push((k, x))[0] == (k, x));
        assert(s.push((k, x)).drop_first() =~= s);
        assert(enc_entries(s.push((k, x))) =~= enc_entries(s) + enc_str(k) + enc(x));
    } else {
        lemma_enc_entries_snoc(s.drop_first(), k, x);
        assert(s.push((k, x))[0] == s[0]);
        assert(s.push((k, x)).drop_first() =~= s.drop_first().push((k, x)));
        assert(enc_entries(s.push((k, x))) == enc_str(s[0].0) + enc(s[0].1) + enc_entries(
            s.drop_first().push((k, x)),
        ));
        assert(enc_entries(s) == enc_str(s[0].0) + enc(s[0].1) + enc_entries(s.drop_first()));
        assert(enc_str(s[0].0) + enc(s[0].1) + (enc_entries(s.drop_first()) + enc_str(k) + enc(x))
            =~= (enc_str(s[0].0) + enc(s[0].1) + enc_entries(s.drop_first())) + enc_str(k) + enc(
            x,
        ));
    }
}

// ---------------------------------------------------------------------------
// The executable encoder
// ---------------------------------------------------------------------------

/// Appends the bytes of `src` to `out`.
fn push_bytes(out: &mut Vec<u8>, src: &Vec<u8>)
    ensures
        final(out)@ == old(out)@ + src@,
{
    let mut i: usize = 0;
    while i < src.len()
        invariant
            i <= src@.len(),
            out@ == old(out)@ + src@.subrange(0, i as int),
        decreases src@.len() - i,
    {
        out.push(src[i]);
        proof {
            assert(src@.subrange(0, i + 1) =~= src@.subrange(0, i as int).push(src@[i as int]));
        }
        i = i + 1;
    }
    proof {
        assert(src@.subrange(0, src@.len() as int) =~= src@);
    }
}

/// Appends the two big-endian bytes of `v`.
fn push_be16(out: &mut Vec<u8>, v: u64)
    requires
        v < 0x10000,
    ensures
        final(out)@ == old(out)@ + be16(v as int),
{
    out.push((v / 0x100) as u8);
    out.push((v % 0x100) as u8);
    assert(out@ =~= old(out)@ + be16(v as int));
}

/// Appends the four big-endian bytes of `v`.
fn push_be32(out: &mut Vec<u8>, v: u64)
    requires
        v < 0x1_0000_0000,
    ensures
        final(out)@ == old(out)@ + be32(v as int),
{
    push_be16(out, v / 0x10000);
    push_be16(out, v % 0x10000);
    assert(out@ =~= old(out)@ + be32(v as int));
}

/// Appends the eight big-endian bytes of `v`.
fn push_be64(out: &mut Vec<u8>, v: u64)
    ensures
        final(out)@ == old(out)@ + be64(v as int),
{
    push_be32(out, v / 0x1_0000_0000);
    push_be32(out, v % 0x1_0000_0000);
    assert(out@ =~= old(out)@ + be64(v as int));
}

/// Appends the shortest unsigned-integer frame for `u`.
fn write_uint(out: &mut Vec<u8>, u: u64)
    ensures
        final(out)@ == old(out)@ + enc_uint(u),
{
    if u <= 0x7f {
        out.push(u as u8);
        assert(out@ =~= old(out)@ + enc_uint(u));
    } else if u <= 0xff {
        out.push(0xcc);
        out.push(u as u8);
        assert(out@ =~= old(out)@ + enc_uint(u));
    } else if u <= 0xffff {
        out.push(0xcd);
        push_be16(out, u);
        assert(out@ =~= old(out)@ + enc_uint(u));
    } else if u <= 0xffff_ffff {
        out.push(0xce);
        push_be32(out, u);
        assert(out@ =~= old(out)@ + enc_uint(u));
    } else {
        out.push(0xcf);
        push_be64(out, u);
        assert(out@ =~= old(out)@ + enc_uint(u));
    }
}

/// Appends the shortest signed-integer frame for a strictly negative `i`.
fn write_int(out: &mut Vec<u8>, i: i64)
    requires
        i < 0,
    ensures
        final(out)@ == old(out)@ + enc_int(i),
{
    if i >= -32 {
        out.push((i + 0x100) as u8);
        assert(out@ =~= old(out)@ + enc_int(i));
    } else if i >= -0x80 {
        out.push(0xd0);
        out.push((i + 0x100) as u8);
        assert(out@ =~= old(out)@ + enc_int(i));
    } else if i >= -0x8000 {
        out.push(0xd1);
        push_be16(out, (i + 0x10000) as u64);
        assert(out@ =~= old(out)@ + enc_int(i));
    } else if i >= -0x8000_0000 {
        out.push(0xd2);
        push_be32(out, (i + 0x1_0000_0000) as u64);
        assert(out@ =~= old(out)@ + enc_int(i));
    } else {
        out.push(0xd3);
        let w: u64 = #[verifier::truncate] (i as u64);
        assert(w as int == i + 0x1_0000_0000_0000_0000) by (bit_vector)
            requires
                w == i as u64 && i < -0x8000_0000,
        ;
        push_be64(out, w);
        assert(out@ =~= old(out)@ + enc_int(i));
    }
}

/// Appends the shortest string header for `n` text bytes.
fn write_str_header(out: &mut Vec<u8>, n: u64)
    requires
        n < 0x1_0000_0000,
    ensures
        final(out)@ == old(out)@ + str_header(n as int),
{
    if n <= 31 {
        out.push(0xa0 + n as u8);
        assert(out@ =~= old(out)@ + str_header(n as int));
    } else if n <= 0xff {
        out.push(0xd9);
        out.push(n as u8);
        assert(out@ =~= old(out)@ + str_header(n as int));
    } else if n <= 0xffff {
        out.push(0xda);
        push_be16(out, n);
        assert(out@ =~= old(out)@ + str_header(n as int));
    } else {
        out.push(0xdb);
        push_be32(out, n);
        assert(out@ =~= old(out)@ + str_header(n as int));
    }
}

/// Appends the shortest binary header for `n` payload bytes.
fn write_bin_header(out: &mut Vec<u8>, n: u64)
    requires
        n < 0x1_0000_0000,
    ensures
        final(out)@ == old(out)@ + bin_header(n as int),
{
    if n <= 0xff {
        out.push(0xc4);
        out.push(n as u8);
        assert(out@ =~= old(out)@ + bin_header(n as int));
    } else if n <= 0xffff {
        out.push(0xc5);
        push_be16(out, n);
        assert(out@ =~= old(out)@ + bin_header(n as int));
    } else {
        out.push(0xc6);
        push_be32(out, n);
        assert(out@ =~= old(out)@ + bin_header(n as int));
    }
}

/// Appends the shortest sequence header for `n` elements.
fn write_arr_header(out: &mut Vec<u8>, n: u64)
    requires
        n < 0x1_0000_0000,
    ensures
        final(out)@ == old(out)@ + arr_header(n as int),
{
    if n <= 15 {
        out.push(0x90 + n as u8);
        assert(out@ =~= old(out)@ + arr_header(n as int));
    } else if n <= 0xffff {
        out.push(0xdc);
        push_be16(out, n);
        assert(out@ =~= old(out)@ + arr_header(n as int));
    } else {
        out.push(0xdd);
        push_be32(out, n);
        assert(out@ =~= old(out)@ + arr_header(n as int));
    }
}

/// Appends the shortest map header for `n` fields.
fn write_map_header(out: &mut Vec<u8>, n: u64)
    requires
        n < 0x1_0000_0000,
    ensures
        final(out)@ == old(out)@ + map_header(n as int),
{
    if n <= 15 {
        out.push(0x80 + n as u8);
        assert(out@ =~= old(out)@ + map_header(n as int));
    } else if n <= 0xffff {
        out.push(0xde);
        push_be16(out, n);
        assert(out@ =~= old(out)@ + map_header(n as int));
    } else {
        out.push(0xdf);
        push_be32(out, n);
        assert(out@ =~= old(out)@ + map_header(n as int));
    }
}

/// Appends the canonical text frame of `s`, or reports that its UTF-8 form
/// is too long for the wire.
fn write_str(out: &mut Vec<u8>, s: &str) -> (r: Result<(), EncodeError>)
    ensures
        match r {
            Ok(()) => fits_len(encode_utf8(s@).len()) && final(out)@ == old(out)@ + enc_str(s@),
            Err(e) => !fits_len(encode_utf8(s@).len()) && e == EncodeError::Unencodable
                && final(out)@ == old(out)@,
        },
{
    let mut bs = vstd::string::StrSliceExecFns::as_bytes_vec(s);
    let n = bs.len();
    if n as u64 > 0xffff_ffff {
        return Err(EncodeError::Unencodable);
    }
    write_str_header(out, n as u64);
    out.append(&mut bs);
    assert(out@ =~= old(out)@ + enc_str(s@));
    Ok(())
}

/// Appends the canonical frame of `v` to `out`, or reports an over-long
/// string, byte sequence or collection, or a non-negative `Int`, leaving
/// `out` as it was.
#[verifier::loop_isolation(false)]
#[verifier::rlimit(100)]
#[verifier::spinoff_prover]
fn encode_into(v: &Val, out: &mut Vec<u8>) -> (r: Result<(), EncodeError>)
    ensures
        match r {
            Ok(()) => wf(v@) && final(out)@ == old(out)@ + enc(v@),
            Err(e) => !wf(v@) && e == EncodeError::Unencodable && old(out)@.is_prefix_of(
                final(out)@,
            ),
        },
    decreases v,
{
    match v {
        Val::Nil => {
            out.push(0xc0);
            assert(out@ =~= old(out)@ + enc(v@));
            Ok(())
        },
        Val::Bool(x) => {
            if *x {
                out.push(0xc3);
            } else {
                out.push(0xc2);
            }
            assert(out@ =~= old(out)@ + enc(v@));
            Ok(())
        },
        Val::Uint(u) => {
            write_uint(out, *u);
            Ok(())
        },
        Val::Int(i) => {
            if *i >= 0 {
                return Err(EncodeError::Unencodable);
            }
            write_int(out, *i);
            Ok(())
        },
        Val::Str(s) => {
            write_str(out, s.as_str())
        },
        Val::Bin(p) => {
            let n = p.len();
            if n as u64 > 0xffff_ffff {
                return Err(EncodeError::Unencodable);
            }
            write_bin_header(out, n as u64);
            push_bytes(out, p);
            assert(out@ =~= old(out)@ + enc(v@));
            Ok(())
        },
        Val::Arr(a) => {
            let n = a.len();
            if n as u64 > 0xffff_ffff {
                proof {
                    crate::value::lemma_view_list(a@);
                }
                return Err(EncodeError::Unencodable);
            }
            write_arr_header(out, n as u64);
            let ghost base = out@;
            let mut i: usize = 0;
            while i < a.len()
                invariant
                    i <= a@.len(),
                    a@.len() == n,
                    n as u64 <= 0xffff_ffff,
                    out@ == base + enc_list(view_list(a@).subrange(0, i as int)),
                    base == old(out)@ + arr_header(a@.len() as int),
                    forall|j: int| 0 <= j < i ==> wf(#[trigger] view_list(a@)[j]),
                decreases a@.len() - i,
            {
                proof {
                    crate::value::lemma_view_list(a@);
                    assert(decreases_to!(a => a@));
                    assert(decreases_to!(a@ => a@[i as int]));
                }
                match encode_into(&a[i], out) {
                    Ok(()) => {},
                    Err(e) => {
                        proof {
                            crate::value::lemma_view_list(a@);
                            assert(v@ == ValModel::Arr(view_list(a@)));
                            assert(!wf(view_list(a@)[i as int]));
                            assert(!wf(v@));
                        }
                        return Err(e);
                    },
                }
                proof {
                    crate::value::lemma_view_list(a@);
                    lemma_enc_list_snoc(view_list(a@).subrange(0, i as int), a@[i as int]@);
                    assert(view_list(a@).subrange(0, i + 1) =~= view_list(a@).subrange(
                        0,
                        i as int,
                    ).push(view_list(a@)[i as int]));
                }
                i = i + 1;
            }
            proof {
                crate::value::lemma_view_list(a@);
                assert(view_list(a@).subrange(0, a@.len() as int) =~= view_list(a@));
                assert(wf(v@));
                assert(out@ =~= old(out)@ + enc(v@));
            }
            Ok(())
        },
        Val::Dict(m) => {
            let n = m.len();
            if n as u64 > 0xffff_ffff {
                proof {
                    crate::value::lemma_view_entries(m@);
                }
                return Err(EncodeError::Unencodable);
            }
            write_map_header(out, n as u64);
            let ghost base = out@;
            let mut i: usize = 0;
            while i < m.len()
                invariant
                    i <= m@.len(),
                    m@.len() == n,
                    n as u64 <= 0xffff_ffff,
                    out@ == base + enc_entries(view_entries(m@).subrange(0, i as int)),
                    base == old(out)@ + map_header(m@.len() as int),
                    forall|j: int|
                        0 <= j < i ==> fits_len(
                            encode_utf8((#[trigger] view_entries(m@)[j]).0).len(),
                        ) && wf(view_entries(m@)[j].1),
                decreases m@.len() - i,
            {
                proof {
                    crate::value::lemma_view_entries(m@);
                }
                match write_str(out, m[i].0.as_str()) {
                    Ok(()) => {},
                    Err(e) => {
                        proof {
                            crate::value::lemma_view_entries(m@);
                            assert(v@ == ValModel::Dict(view_entries(m@)));
                            assert(!fits_len(encode_utf8(view_entries(m@)[i as int].0).len()));
                            assert(!wf(v@));
                        }
                        return Err(e);
                    },
                }
                proof {
                    assert(decreases_to!(m => m@));
                    assert(decreases_to!(m@ => m@[i as int]));
                    assert(decreases_to!(m@[i as int] => m@[i as int].1));
                }
                match encode_into(&m[i].1, out) {
                    Ok(()) => {},
                    Err(e) => {
                        proof {
                            crate::value::lemma_view_entries(m@);
                            assert(v@ == ValModel::Dict(view_entries(m@)));
                            assert(!wf(view_entries(m@)[i as int].1));
                            assert(!wf(v@));
                        }
                        return Err(e);
                    },
                }
                proof {
                    crate::value::lemma_view_entries(m@);
                    lemma_enc_entries_snoc(
                        view_entries(m@).subrange(0, i as int),
                        m@[i as int].0@,
                        m@[i as int].1@,
                    );
                    assert(view_entries(m@).subrange(0, i + 1) =~= view_entries(m@).subrange(
                        0,
                        i as int,
                    ).push((m@[i as int].0@, m@[i as int].1@)));
                }
                i = i + 1;
            }
            proof {
                crate::value::lemma_view_entries(m@);
                assert(view_entries(m@).subrange(0, m@.len() as int) =~= view_entries(m@));
                assert(wf(v@));
                assert(out@ =~= old(out)@ + enc(v@));
            }
            Ok(())
        },
    }
}

/// Encodes a wire value into its canonical byte frame.
///
/// Succeeds exactly on well-formed values: every length within the frame
/// limit and every `Int` strictly negative.
pub fn encode_value(v: &Val) -> (r: Result<Vec<u8>, EncodeError>)
    ensures
        match r {
            Ok(out) => wf(v@) && out@ == enc(v@),
            Err(e) => !wf(v@) && e == EncodeError::Unencodable,
        },
{
    let mut out: Vec<u8> = Vec::new();
    match encode_into(v, &mut out) {
        Ok(()) => Ok(out),
        Err(e) => Err(e),
    }
}


// ---------------------------------------------------------------------------
// The executable decoder
// ---------------------------------------------------------------------------

/// Relies on `String::from_utf8`: it succeeds exactly on valid UTF-8 input
/// and returns the string whose UTF-8 encoding is that input.
#[verifier::external_body]
fn string_from_utf8(bytes: Vec<u8>) -> (r: Option<String>)
    ensures
        match r {
            Some(s) => valid_utf8(bytes@) && s@ == decode_utf8(bytes@),
            None => !valid_utf8(bytes@),
        },
{
    match String::from_utf8(bytes) {
        Ok(s) => Some(s),
        Err(_) => None,
    }
}

/// Reads two big-endian bytes at `pos`.
fn read_u16(b: &[u8], pos: usize) -> (r: u64)
    requires
        pos + 2 <= b@.len(),
    ensures
        r as int == rd16(b@, pos as int),
        r <= 0xffff,
{
    (b[pos] as u64) * 0x100 + (b[pos + 1] as u64)
}

/// Reads four big-endian bytes at `pos`.
fn read_u32(b: &[u8], pos: usize) -> (r: u64)
    requires
        pos + 4 <= b@.len(),
    ensures
        r as int == rd32(b@, pos as int),
        r <= 0xffff_ffff,
{
    let l = b.len();
    assert(pos + 2 <= l);
    read_u16(b, pos) * 0x10000 + read_u16(b, pos + 2)
}

/// Reads eight big-endian bytes at `pos`.
fn read_u64(b: &[u8], pos: usize) -> (r: u64)
    requires
        pos + 8 <= b@.len(),
    ensures
        r as int == rd64(b@, pos as int),
{
    let l = b.len();
    assert(pos + 4 <= l);
    read_u32(b, pos) * 0x1_0000_0000 + read_u32(b, pos + 4)
}

/// Reads an `n`-byte UTF-8 payload at `pos`.
fn read_str_body(b: &[u8], pos: usize, n: u64) -> (r: Result<(String, usize), DecodeError>)
    requires
        pos <= b@.len(),
    ensures
        match r {
            Ok((s, end)) => str_body(b@, pos as int, n as int) == Some((s@, end as int)) && pos
                <= end <= b@.len(),
            Err(e) => str_body(b@, pos as int, n as int) is None && e == DecodeError::Malformed,
        },
{
    if n > (b.len() - pos) as u64 {
        return Err(DecodeError::Malformed);
    }
    let nn = n as usize;
    let payload = vstd::slice::slice_to_vec(vstd::slice::slice_subrange(b, pos, pos + nn));
    match string_from_utf8(payload) {
        Some(s) => Ok((s, pos + nn)),
        None => Err(DecodeError::Malformed),
    }
}

/// Reads an `n`-byte binary payload at `pos`.
fn read_bin_body(b: &[u8], pos: usize, n: u64) -> (r: Result<(Vec<u8>, usize), DecodeError>)
    requires
        pos <= b@.len(),
    ensures
        match r {
            Ok((p, end)) => bin_body(b@, pos as int, n as int) == Some(
                (ValModel::Bin(p@), end as int),
            ) && pos <= end <= b@.len(),
            Err(e) => bin_body(b@, pos as int, n as int) is None && e == DecodeError::Malformed,
        },
{
    if n > (b.len() - pos) as u64 {
        return Err(DecodeError::Malformed);
    }
    let nn = n as usize;
    let payload = vstd::slice::slice_to_vec(vstd::slice::slice_subrange(b, pos, pos + nn));
    Ok((payload, pos + nn))
}

/// Parses one canonical text frame at `pos`.
fn parse_str(b: &[u8], pos: usize) -> (r: Result<(String, usize), DecodeError>)
    requires
        pos <= b@.len(),
    ensures
        match r {
            Ok((s, end)) => dec_str(b@, pos as int) == Some((s@, end as int)) && pos < end
                <= b@.len(),
            Err(e) => dec_str(b@, pos as int) is None && e == DecodeError::Malformed,
        },
{
    if pos >= b.len() {
        return Err(DecodeError::Malformed);
    }
    let t = b[pos];
    if 0xa0 <= t && t <= 0xbf {
        match read_str_body(b, pos + 1, (t - 0xa0) as u64) {
            Ok((s, end)) => Ok((s, end)),
            Err(e) => Err(e),
        }
    } else if t == 0xd9 {
        if b.len() - pos >= 2 && b[pos + 1] > 31 {
            match read_str_body(b, pos + 2, b[pos + 1] as u64) {
                Ok((s, end)) => Ok((s, end)),
                Err(e) => Err(e),
            }
        } else {
            Err(DecodeError::Malformed)
        }
    } else if t == 0xda {
        if b.len() - pos >= 3 {
            let n = read_u16(b, pos + 1);
            if n > 0xff {
                match read_str_body(b, pos + 3, n) {
                    Ok((s, end)) => Ok((s, end)),
                    Err(e) => Err(e),
                }
            } else {
                Err(DecodeError::Malformed)
            }
        } else {
            Err(DecodeError::Malformed)
        }
    } else if t == 0xdb {
        if b.len() - pos >= 5 {
            let n = read_u32(b, pos + 1);
            if n > 0xffff {
                match read_str_body(b, pos + 5, n) {
                    Ok((s, end)) => Ok((s, end)),
                    Err(e) => Err(e),
                }
            } else {
                Err(DecodeError::Malformed)
            }
        } else {
            Err(DecodeError::Malformed)
        }
    } else {
        Err(DecodeError::Malformed)
    }
}

/// Parses one wire value at `pos`: the executable mirror of [`dec`].
#[verifier::rlimit(100)]
#[verifier::spinoff_prover]
fn parse_at(b: &[u8], pos: usize) -> (r: Result<(Val, usize), DecodeError>)
    requires
        pos <= b@.len(),
    ensures
        match r {
            Ok((v, end)) => dec(b@, pos as int) == Some((v@, end as int)) && pos < end <= b@.len(),
            Err(e) => dec(b@, pos as int) is None && e == DecodeError::Malformed,
        },
    decreases b@.len() - pos, 0nat, 0nat,
{
    if pos >= b.len() {
        return Err(DecodeError::Malformed);
    }
    let t = b[pos];
    if t <= 0x7f {
        Ok((Val::Uint(t as u64), pos + 1))
    } else if 0x80 <= t && t <= 0x8f {
        match parse_entries(b, pos + 1, (t - 0x80) as u64) {
            Ok((m, end)) => Ok((Val::Dict(m), end)),
            Err(e) => Err(e),
        }
    } else if 0x90 <= t && t <= 0x9f {
        match parse_list(b, pos + 1, (t - 0x90) as u64) {
            Ok((a, end)) => Ok((Val::Arr(a), end)),
            Err(e) => Err(e),
        }
    } else if (0xa0 <= t && t <= 0xbf) || t == 0xd9 || t == 0xda || t == 0xdb {
        match parse_str(b, pos) {
            Ok((s, end)) => Ok((Val::Str(s), end)),
            Err(e) => Err(e),
        }
    } else if t == 0xc0 {
        Ok((Val::Nil, pos + 1))
    } else if t == 0xc2 {
        Ok((Val::Bool(false), pos + 1))
    } else if t == 0xc3 {
        Ok((Val::Bool(true), pos + 1))
    } else if t == 0xc4 {
        if b.len() - pos >= 2 {
            match read_bin_body(b, pos + 2, b[pos + 1] as u64) {
                Ok((p, end)) => Ok((Val::Bin(p), end)),
                Err(e) => Err(e),
            }
        } else {
            Err(DecodeError::Malformed)
        }
    } else if t == 0xc5 {
        if b.len() - pos >= 3 {
            let n = read_u16(b, pos + 1);
            if n > 0xff {
                match read_bin_body(b, pos + 3, n) {
                    Ok((p, end)) => Ok((Val::Bin(p), end)),
                    Err(e) => Err(e),
                }
            } else {
                Err(DecodeError::Malformed)
            }
        } else {
            Err(DecodeError::Malformed)
        }
    } else if t == 0xc6 {
        if b.len() - pos >= 5 {
            let n = read_u32(b, pos + 1);
            if n > 0xffff {
                match read_bin_body(b, pos + 5, n) {
                    Ok((p, end)) => Ok((Val::Bin(p), end)),
                    Err(e) => Err(e),
                }
            } else {
                Err(DecodeError::Malformed)
            }
        } else {
            Err(DecodeError::Malformed)
        }
    } else if t == 0xcc {
        if b.len() - pos >= 2 && b[pos + 1] > 0x7f {
            Ok((Val::Uint(b[pos + 1] as u64), pos + 2))
        } else {
            Err(DecodeError::Malformed)
        }
    } else if t == 0xcd {
        if b.len() - pos >= 3 {
            let n = read_u16(b, pos + 1);
            if n > 0xff {
                Ok((Val::Uint(n), pos + 3))
            } else {
                Err(DecodeError::Malformed)
            }
        } else {
            Err(DecodeError::Malformed)
        }
    } else if t == 0xce {
        if b.len() - pos >= 5 {
            let n = read_u32(b, pos + 1);
            if n > 0xffff {
                Ok((Val::Uint(n), pos + 5))
            } else {
                Err(DecodeError::Malformed)
            }
        } else {
            Err(DecodeError::Malformed)
        }
    } else if t == 0xcf {
        if b.len() - pos >= 9 {
            let n = read_u64(b, pos + 1);
            if n > 0xffff_ffff {
                Ok((Val::Uint(n), pos + 9))
            } else {
                Err(DecodeError::Malformed)
            }
        } else {
            Err(DecodeError::Malformed)
        }
    } else if t == 0xd0 {
        if b.len() - pos >= 2 && 0x80 <= b[pos + 1] && b[pos + 1] <= 0xdf {
            Ok((Val::Int((b[pos + 1] as i64) - 0x100), pos + 2))
        } else {
            Err(DecodeError::Malformed)
        }
    } else if t == 0xd1 {
        if b.len() - pos >= 3 {
            let n = read_u16(b, pos + 1);
            if 0x8000 <= n && n <= 0xff7f {
                Ok((Val::Int((n as i64) - 0x10000), pos + 3))
            } else {
                Err(DecodeError::Malformed)
            }
        } else {
            Err(DecodeError::Malformed)
        }
    } else if t == 0xd2 {
        if b.len() - pos >= 5 {
            let n = read_u32(b, pos + 1);
            if 0x8000_0000 <= n && n <= 0xffff_7fff {
                Ok((Val::Int((n as i64) - 0x1_0000_0000), pos + 5))
            } else {
                Err(DecodeError::Malformed)
            }
        } else {
            Err(DecodeError::Malformed)
        }
    } else if t == 0xd3 {
        if b.len() - pos >= 9 {
            let n = read_u64(b, pos + 1);
            if 0x8000_0000_0000_0000 <= n && n <= 0xffff_ffff_7fff_ffff {
                let iv: i64 = #[verifier::truncate] (n as i64);
                proof {
                    assert(iv as int == n as int - 0x1_0000_0000_0000_0000) by (bit_vector)
                        requires
                            iv == n as i64 && n >= 0x8000_0000_0000_0000,
                    ;
                }
                Ok((Val::Int(iv), pos + 9))
            } else {
                Err(DecodeError::Malformed)
            }
        } else {
            Err(DecodeError::Malformed)
        }
    } else if t == 0xdc {
        if b.len() - pos >= 3 {
            let n = read_u16(b, pos + 1);
            if n > 15 {
                match parse_list(b, pos + 3, n) {
                    Ok((a, end)) => Ok((Val::Arr(a), end)),
                    Err(e) => Err(e),
                }
            } else {
                Err(DecodeError::Malformed)
            }
        } else {
            Err(DecodeError::Malformed)
        }
    } else if t == 0xdd {
        if b.len() - pos >= 5 {
            let n = read_u32(b, pos + 1);
            if n > 0xffff {
                match parse_list(b, pos + 5, n) {
                    Ok((a, end)) => Ok((Val::Arr(a), end)),
                    Err(e) => Err(e),
                }
            } else {
                Err(DecodeError::Malformed)
            }
        } else {
            Err(DecodeError::Malformed)
        }
    } else if t == 0xde {
        if b.len() - pos >= 3 {
            let n = read_u16(b, pos + 1);
            if n > 15 {
                match parse_entries(b, pos + 3, n) {
                    Ok((m, end)) => Ok((Val::Dict(m), end)),
                    Err(e) => Err(e),
                }
            } else {
                Err(DecodeError::Malformed)
            }
        } else {
            Err(DecodeError::Malformed)
        }
    } else if t == 0xdf {
        if b.len() - pos >= 5 {
            let n = read_u32(b, pos + 1);
            if n > 0xffff {
                match parse_entries(b, pos + 5, n) {
                    Ok((m, end)) => Ok((Val::Dict(m), end)),
                    Err(e) => Err(e),
                }
            } else {
                Err(DecodeError::Malformed)
            }
        } else {
            Err(DecodeError::Malformed)
        }
    } else if t >= 0xe0 {
        Ok((Val::Int((t as i64) - 0x100), pos + 1))
    } else {
        Err(DecodeError::Malformed)
    }
}

/// Parses `n` consecutive wire values at `pos`.
fn parse_list(b: &[u8], pos: usize, n: u64) -> (r: Result<(Vec<Val>, usize), DecodeError>)
    requires
        pos <= b@.len(),
    ensures
        match r {
            Ok((vs, end)) => dec_list(b@, pos as int, n as int) == Some(
                (view_list(vs@), end as int),
            ) && pos <= end <= b@.len(),
            Err(e) => dec_list(b@, pos as int, n as int) is None && e == DecodeError::Malformed,
        },
    decreases b@.len() - pos, 1nat, n,
{
    if n == 0 {
        let vs: Vec<Val> = Vec::new();
        assert(view_list(vs@) =~= Seq::<ValModel>::empty());
        return Ok((vs, pos));
    }
    let (v, e1) = match parse_at(b, pos) {
        Ok(x) => x,
        Err(e) => {
            return Err(e);
        },
    };
    let (mut vs, end) = match parse_list(b, e1, n - 1) {
        Ok(x) => x,
        Err(e) => {
            return Err(e);
        },
    };
    let ghost tail = vs@;
    vs.insert(0, v);
    proof {
        assert(vs@.drop_first() =~= tail);
        assert(vs@[0] == v);
        assert(view_list(vs@) == seq![v@] + view_list(tail));
    }
    Ok((vs, end))
}

/// Parses `n` consecutive named fields at `pos`.
fn parse_entries(b: &[u8], pos: usize, n: u64) -> (r: Result<
    (Vec<(String, Val)>, usize),
    DecodeError,
>)
    requires
        pos <= b@.len(),
    ensures
        match r {
            Ok((m, end)) => dec_entries(b@, pos as int, n as int) == Some(
                (view_entries(m@), end as int),
            ) && pos <= end <= b@.len(),
            Err(e) => dec_entries(b@, pos as int, n as int) is None && e
                == DecodeError::Malformed,
        },
    decreases b@.len() - pos, 1nat, n,
{
    if n == 0 {
        let m: Vec<(String, Val)> = Vec::new();
        assert(view_entries(m@) =~= Seq::<(Seq<char>, ValModel)>::empty());
        return Ok((m, pos));
    }
    let (k, e1) = match parse_str(b, pos) {
        Ok(x) => x,
        Err(e) => {
            return Err(e);
        },
    };
    let (v, e2) = match parse_at(b, e1) {
        Ok(x) => x,
        Err(e) => {
            return Err(e);
        },
    };
    let (mut m, end) = match parse_entries(b, e2, n - 1) {
        Ok(x) => x,
        Err(e) => {
            return Err(e);
        },
    };
    let ghost tail = m@;
    let ghost kv = k@;
    let ghost vv = v@;
    m.insert(0, (k, v));
    proof {
        assert(m@.drop_first() =~= tail);
        assert(m@[0].0@ == kv && m@[0].1@ == vv);
        assert(view_entries(m@) == seq![(kv, vv)] + view_entries(tail));
    }
    Ok((m, end))
}

/// Decodes a whole buffer into one wire value.
///
/// Succeeds exactly when the buffer is one canonical frame with nothing
/// trailing; anything else is structurally malformed.
pub fn decode_value(bytes: &[u8]) -> (r: Result<Val, DecodeError>)
    ensures
        match r {
            Ok(v) => dec_full(bytes@) == Some(v@),
            Err(e) => dec_full(bytes@) is None && e == DecodeError::Malformed,
        },
{
    match parse_at(bytes, 0) {
        Ok((v, end)) => {
            if end == bytes.len() {
                Ok(v)
            } else {
                Err(DecodeError::Malformed)
            }
        },
        Err(e) => Err(e),
    }
}

// ---------------------------------------------------------------------------
// Soundness: whatever decodes was exactly a canonical frame
// ---------------------------------------------------------------------------

/// The bytes read back by [`rd16`] re-frame to themselves.
proof fn lemma_be_of_rd16(b: Seq<u8>, pos: int)
    requires
        0 <= pos,
        pos + 2 <= b.len(),
    ensures
        0 <= rd16(b, pos) < 0x10000,
        be16(rd16(b, pos)) =~= b.subrange(pos, pos + 2),
{
    let x = b[pos] as int;
    let y = b[pos + 1] as int;
    assert((x * 0x100 + y) / 0x100 == x && (x * 0x100 + y) % 0x100 == y) by (nonlinear_arith)
        requires
            0 <= x < 0x100,
            0 <= y < 0x100,
    ;
}

/// The bytes read back by [`rd32`] re-frame to themselves.
proof fn lemma_be_of_rd32(b: Seq<u8>, pos: int)
    requires
        0 <= pos,
        pos + 4 <= b.len(),
    ensures
        0 <= rd32(b, pos) < 0x1_0000_0000,
        be32(rd32(b, pos)) =~= b.subrange(pos, pos + 4),
{
    lemma_be_of_rd16(b, pos);
    lemma_be_of_rd16(b, pos + 2);
    let x = rd16(b, pos);
    let y = rd16(b, pos + 2);
    assert((x * 0x10000 + y) / 0x10000 == x && (x * 0x10000 + y) % 0x10000 == y)
        by (nonlinear_arith)
        requires
            0 <= x < 0x10000,
            0 <= y < 0x10000,
    ;
    assert(be32(rd32(b, pos)) =~= be16(x) + be16(y));
    assert(be16(x) + be16(y) =~= b.subrange(pos, pos + 4));
}

/// The bytes read back by [`rd64`] re-frame to themselves.
proof fn lemma_be_of_rd64(b: Seq<u8>, pos: int)
    requires
        0 <= pos,
        pos + 8 <= b.len(),
    ensures
        0 <= rd64(b, pos) < 0x1_0000_0000_0000_0000,
        be64(rd64(b, pos)) =~= b.subrange(pos, pos + 8),
{
    lemma_be_of_rd32(b, pos);
    lemma_be_of_rd32(b, pos + 4);
    let x = rd32(b, pos);
    let y = rd32(b, pos + 4);
    assert((x * 0x1_0000_0000 + y) / 0x1_0000_0000 == x && (x * 0x1_0000_0000 + y)
        % 0x1_0000_0000 == y) by (nonlinear_arith)
        requires
            0 <= x < 0x1_0000_0000,
            0 <= y < 0x1_0000_0000,
    ;
    assert(be64(rd64(b, pos)) =~= be32(x) + be32(y));
    assert(be32(x) + be32(y) =~= b.subrange(pos, pos + 8));
}

/// A decoded text frame occupied exactly the canonical frame of its text.
proof fn lemma_dec_str_sound(b: Seq<u8>, pos: int)
    requires
        dec_str(b, pos) is Some,
    ensures
        ({
            let (s, end) = dec_str(b, pos)->Some_0;
            &&& pos < end <= b.len()
            &&& fits_len(encode_utf8(s).len())
            &&& b.subrange(pos, end) == enc_str(s)
        }),
{
    let (s, end) = dec_str(b, pos)->Some_0;
    let t = b[pos];
    if 0xa0 <= t && t <= 0xbf {
        let n = (t - 0xa0) as int;
        let body = b.subrange(pos + 1, pos + 1 + n);
        vstd::utf8::decode_utf8_encode_utf8(body);
        assert(encode_utf8(s) == body);
        assert(str_header(n) =~= seq![t]);
        assert(b.subrange(pos, end) =~= str_header(n) + body);
    } else if t == 0xd9 {
        let n = b[pos + 1] as int;
        let body = b.subrange(pos + 2, pos + 2 + n);
        vstd::utf8::decode_utf8_encode_utf8(body);
        assert(encode_utf8(s) == body);
        assert(str_header(n) =~= seq![0xd9u8, b[pos + 1]]);
        assert(b.subrange(pos, end) =~= str_header(n) + body);
    } else if t == 0xda {
        let n = rd16(b, pos + 1);
        let body = b.subrange(pos + 3, pos + 3 + n);
        vstd::utf8::decode_utf8_encode_utf8(body);
        assert(encode_utf8(s) == body);
        lemma_be_of_rd16(b, pos + 1);
        assert(str_header(n) =~= seq![0xdau8] + b.subrange(pos + 1, pos + 3));
        assert(b.subrange(pos, end) =~= str_header(n) + body);
    } else {
        let n = rd32(b, pos + 1);
        let body = b.subrange(pos + 5, pos + 5 + n);
        vstd::utf8::decode_utf8_encode_utf8(body);
        assert(encode_utf8(s) == body);
        lemma_be_of_rd32(b, pos + 1);
        assert(str_header(n) =~= seq![0xdbu8] + b.subrange(pos + 1, pos + 5));
        assert(b.subrange(pos, end) =~= str_header(n) + body);
    }
}

/// A decoded value is well formed and occupied exactly its canonical
/// frame: the decoder accepts nothing but [`enc`] images.
#[verifier::rlimit(100)]
#[verifier::spinoff_prover]
pub proof fn lemma_dec_sound(b: Seq<u8>, pos: int)
    requires
        dec(b, pos) is Some,
    ensures
        ({
            let (v, end) = dec(b, pos)->Some_0;
            &&& pos < end <= b.len()
            &&& wf(v)
            &&& b.subrange(pos, end) == enc(v)
        }),
    decreases b.len() - pos, 0nat, 0nat,
{
    let (v, end) = dec(b, pos)->Some_0;
    let t = b[pos];
    if t <= 0x7f {
        assert(b.subrange(pos, end) =~= enc(v));
    } else if 0x80 <= t && t <= 0x8f {
        lemma_dec_entries_sound(b, pos + 1, (t - 0x80) as int);
        let (m, e2) = dec_entries(b, pos + 1, (t - 0x80) as int)->Some_0;
        assert(map_header(m.len() as int) =~= seq![t]);
        assert(b.subrange(pos, end) =~= seq![t] + b.subrange(pos + 1, end));
    } else if 0x90 <= t && t <= 0x9f {
        lemma_dec_list_sound(b, pos + 1, (t - 0x90) as int);
        let (a, e2) = dec_list(b, pos + 1, (t - 0x90) as int)->Some_0;
        assert(arr_header(a.len() as int) =~= seq![t]);
        assert(b.subrange(pos, end) =~= seq![t] + b.subrange(pos + 1, end));
    } else if (0xa0 <= t && t <= 0xbf) || t == 0xd9 || t == 0xda || t == 0xdb {
        lemma_dec_str_sound(b, pos);
    } else if t == 0xc0 || t == 0xc2 || t == 0xc3 {
        assert(b.subrange(pos, end) =~= enc(v));
    } else if t == 0xc4 {
        let n = b[pos + 1] as int;
        assert(bin_header(n) =~= seq![0xc4u8, b[pos + 1]]);
        assert(b.subrange(pos, end) =~= bin_header(n) + b.subrange(pos + 2, pos + 2 + n));
    } else if t == 0xc5 {
        let n = rd16(b, pos + 1);
        lemma_be_of_rd16(b, pos + 1);
        assert(bin_header(n) =~= seq![0xc5u8] + b.subrange(pos + 1, pos + 3));
        assert(b.subrange(pos, end) =~= bin_header(n) + b.subrange(pos + 3, pos + 3 + n));
    } else if t == 0xc6 {
        let n = rd32(b, pos + 1);
        lemma_be_of_rd32(b, pos + 1);
        assert(bin_header(n) =~= seq![0xc6u8] + b.subrange(pos + 1, pos + 5));
        assert(b.subrange(pos, end) =~= bin_header(n) + b.subrange(pos + 5, pos + 5 + n));
    } else if t == 0xcc {
        assert(b.subrange(pos, end) =~= enc(v));
    } else if t == 0xcd {
        lemma_be_of_rd16(b, pos + 1);
        assert(b.subrange(pos, end) =~= seq![0xcdu8] + b.subrange(pos + 1, pos + 3));
    } else if t == 0xce {
        lemma_be_of_rd32(b, pos + 1);
        assert(b.subrange(pos, end) =~= seq![0xceu8] + b.subrange(pos + 1, pos + 5));
    } else if t == 0xcf {
        lemma_be_of_rd64(b, pos + 1);
        assert(b.subrange(pos, end) =~= seq![0xcfu8] + b.subrange(pos + 1, pos + 9));
    } else if t == 0xd0 {
        assert(b.subrange(pos, end) =~= enc(v));
    } else if t == 0xd1 {
        let raw = rd16(b, pos + 1);
        lemma_be_of_rd16(b, pos + 1);
        assert(enc_int((raw - 0x10000) as i64) =~= seq![0xd1u8] + be16(raw));
        assert(b.subrange(pos, end) =~= seq![0xd1u8] + b.subrange(pos + 1, pos + 3));
    } else if t == 0xd2 {
        let raw = rd32(b, pos + 1);
        lemma_be_of_rd32(b, pos + 1);
        assert(enc_int((raw - 0x1_0000_0000) as i64) =~= seq![0xd2u8] + be32(raw));
        assert(b.subrange(pos, end) =~= seq![0xd2u8] + b.subrange(pos + 1, pos + 5));
    } else if t == 0xd3 {
        let raw = rd64(b, pos + 1);
        lemma_be_of_rd64(b, pos + 1);
        assert(enc_int((raw - 0x1_0000_0000_0000_0000) as i64) =~= seq![0xd3u8] + be64(raw));
        assert(b.subrange(pos, end) =~= seq![0xd3u8] + b.subrange(pos + 1, pos + 9));
    } else if t == 0xdc {
        let n = rd16(b, pos + 1);
        lemma_be_of_rd16(b, pos + 1);
        lemma_dec_list_sound(b, pos + 3, n);
        let (a, e2) = dec_list(b, pos + 3, n)->Some_0;
        assert(arr_header(n) =~= seq![0xdcu8] + b.subrange(pos + 1, pos + 3));
        assert(b.subrange(pos, end) =~= arr_header(n) + b.subrange(pos + 3, end));
    } else if t == 0xdd {
        let n = rd32(b, pos + 1);
        lemma_be_of_rd32(b, pos + 1);
        lemma_dec_list_sound(b, pos + 5, n);
        let (a, e2) = dec_list(b, pos + 5, n)->Some_0;
        assert(arr_header(n) =~= seq![0xddu8] + b.subrange(pos + 1, pos + 5));
        assert(b.subrange(pos, end) =~= arr_header(n) + b.subrange(pos + 5, end));
    } else if t == 0xde {
        let n = rd16(b, pos + 1);
        lemma_be_of_rd16(b, pos + 1);
        lemma_dec_entries_sound(b, pos + 3, n);
        let (m, e2) = dec_entries(b, pos + 3, n)->Some_0;
        assert(map_header(n) =~= seq![0xdeu8] + b.subrange(pos + 1, pos + 3));
        assert(b.subrange(pos, end) =~= map_header(n) + b.subrange(pos + 3, end));
    } else if t == 0xdf {
        let n = rd32(b, pos + 1);
        lemma_be_of_rd32(b, pos + 1);
        lemma_dec_entries_sound(b, pos + 5, n);
        let (m, e2) = dec_entries(b, pos + 5, n)->Some_0;
        assert(map_header(n) =~= seq![0xdfu8] + b.subrange(pos + 1, pos + 5));
        assert(b.subrange(pos, end) =~= map_header(n) + b.subrange(pos + 5, end));
    } else {
        assert(b.subrange(pos, end) =~= enc(v));
    }
}

/// A decoded value sequence is well formed and occupied exactly the
/// concatenation of its canonical frames.
proof fn lemma_dec_list_sound(b: Seq<u8>, pos: int, n: int)
    requires
        dec_list(b, pos, n) is Some,
    ensures
        ({
            let (a, end) = dec_list(b, pos, n)->Some_0;
            &&& pos <= end <= b.len()
            &&& a.len() == n
            &&& forall|i: int| 0 <= i < a.len() ==> wf(#[trigger] a[i])
            &&& b.subrange(pos, end) == enc_list(a)
        }),
    decreases b.len() - pos, 1nat, n,
{
    let (a, end) = dec_list(b, pos, n)->Some_0;
    if n == 0 {
        assert(b.subrange(pos, end) =~= enc_list(a));
    } else {
        let (v, e1) = dec(b, pos)->Some_0;
        lemma_dec_sound(b, pos);
        lemma_dec_list_sound(b, e1, n - 1);
        let (rest, e2) = dec_list(b, e1, n - 1)->Some_0;
        assert(a[0] == v);
        assert(a.drop_first() =~= rest);
        assert(b.subrange(pos, end) =~= b.subrange(pos, e1) + b.subrange(e1, end));
        assert(b.subrange(pos, end) =~= enc_list(a));
    }
}

/// A decoded field sequence is well formed and occupied exactly the
/// concatenation of its canonical field frames.
#[verifier::rlimit(100)]
#[verifier::spinoff_prover]
proof fn lemma_dec_entries_sound(b: Seq<u8>, pos: int, n: int)
    requires
        dec_entries(b, pos, n) is Some,
    ensures
        ({
            let (m, end) = dec_entries(b, pos, n)->Some_0;
            &&& pos <= end <= b.len()
            &&& m.len() == n
            &&& forall|i: int|
                0 <= i < m.len() ==> fits_len(encode_utf8((#[trigger] m[i]).0).len()) && wf(
                    m[i].1,
                )
            &&& b.subrange(pos, end) == enc_entries(m)
        }),
    decreases b.len() - pos, 1nat, n,
{
    let (m, end) = dec_entries(b, pos, n)->Some_0;
    if n == 0 {
        assert(b.subrange(pos, end) =~= enc_entries(m));
    } else {
        let (k, e1) = dec_str(b, pos)->Some_0;
        lemma_dec_str_sound(b, pos);
        let (v, e2) = dec(b, e1)->Some_0;
        lemma_dec_sound(b, e1);
        lemma_dec_entries_sound(b, e2, n - 1);
        let (rest, e3) = dec_entries(b, e2, n - 1)->Some_0;
        assert(m[0] == (k, v));
        assert(m.drop_first() =~= rest);
        assert(b.subrange(pos, end) =~= b.subrange(pos, e1) + b.subrange(e1, e2) + b.subrange(
            e2,
            end,
        ));
        assert(b.subrange(pos, end) =~= enc_entries(m));
    }
}

/// Truncation is always detected: no strict prefix of a canonical frame
/// decodes as a whole buffer, so cut-off bytes raise an error rather than
/// a made-up value.
pub proof fn lemma_truncation_fails(v: ValModel, j: int)
    requires
        wf(v),
        0 <= j < enc(v).len(),
    ensures
        dec_full(enc(v).subrange(0, j)) is None,
{
    let b = enc(v);
    let p = b.subrange(0, j);
    match dec(p, 0) {
        Some((w, end)) => {
            lemma_dec_sound(p, 0);
            assert(p.subrange(0, end) == enc(w));
            assert(b.subrange(0, end) =~= p.subrange(0, end));
            lemma_dec_complete(b, 0, w);
            assert(b.subrange(0, b.len() as int) =~= b);
            lemma_dec_complete(b, 0, v);
            assert(false);
        },
        None => {},
    }
}

} // verus!