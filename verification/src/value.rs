//! The self-describing wire value: the typed tree that every record is
//! lowered to before encoding and lifted from after decoding.
//!
//! A record is a named map of fields; a field is a string, an unsigned or
//! signed integer, a boolean, an opaque byte sequence, a sequence of values,
//! an optional value (`Nil` when absent), or a nested map. The mathematical
//! model of a tree is [`ValModel`]; the executable tree is [`Val`].

use vstd::prelude::*;
use vstd::utf8::encode_utf8;
use crate::error::DecodeError;

verus! {

broadcast use vstd::std_specs::vec::group_vec_axioms, vstd::seq::group_seq_axioms;

/// The mathematical model of a wire value.
///
/// Unsigned and signed integers are kept canonical: a non-negative integer
/// is always a `Uint`, so `Int` carries strictly negative values only (see
/// [`wf`]). This keeps the encoding of every well-formed tree unique.
#[verifier::ext_equal]
pub enum ValModel {
    Nil,
    Bool(bool),
    Uint(u64),
    Int(i64),
    Str(Seq<char>),
    Bin(Seq<u8>),
    Arr(Seq<ValModel>),
    Dict(Seq<(Seq<char>, ValModel)>),
}

/// The executable wire value.
#[derive(Debug, PartialEq)]
pub enum Val {
    Nil,
    Bool(bool),
    Uint(u64),
    Int(i64),
    Str(String),
    Bin(Vec<u8>),
    Arr(Vec<Val>),
    Dict(Vec<(String, Val)>),
}

impl View for Val {
    type V = ValModel;

    open spec fn view(&self) -> ValModel
        decreases self,
    {
        match self {
            Val::Nil => ValModel::Nil,
            Val::Bool(b) => ValModel::Bool(*b),
            Val::Uint(u) => ValModel::Uint(*u),
            Val::Int(i) => ValModel::Int(*i),
            Val::Str(s) => ValModel::Str(s@),
            Val::Bin(b) => ValModel::Bin(b@),
            Val::Arr(a) => ValModel::Arr(view_list(a@)),
            Val::Dict(m) => ValModel::Dict(view_entries(m@)),
        }
    }
}

/// The models of a sequence of executable values, elementwise.
pub open spec fn view_list(a: Seq<Val>) -> Seq<ValModel>
    decreases a,
{
    if a.len() == 0 {
        Seq::empty()
    } else {
        seq![a[0]@] + view_list(a.drop_first())
    }
}

/// The models of an executable field list, elementwise.
pub open spec fn view_entries(m: Seq<(String, Val)>) -> Seq<(Seq<char>, ValModel)>
    decreases m,
{
    if m.len() == 0 {
        Seq::empty()
    } else {
        seq![(m[0].0@, m[0].1@)] + view_entries(m.drop_first())
    }
}

/// The largest length the wire format can carry for a string, byte
/// sequence, sequence or map: lengths are framed in at most 32 bits.
pub open spec fn fits_len(n: nat) -> bool {
    n < 0x1_0000_0000
}

/// Well-formedness of a wire value: integer canonicity and every length
/// within the frame limit, recursively.
pub open spec fn wf(v: ValModel) -> bool
    decreases v,
{
    match v {
        ValModel::Nil => true,
        ValModel::Bool(_) => true,
        ValModel::Uint(_) => true,
        ValModel::Int(i) => i < 0,
        ValModel::Str(s) => fits_len(encode_utf8(s).len()),
        ValModel::Bin(b) => fits_len(b.len()),
        ValModel::Arr(a) => fits_len(a.len()) && forall|i: int| 0 <= i < a.len() ==> wf(#[trigger] a[i]),
        ValModel::Dict(m) => fits_len(m.len()) && forall|i: int|
            0 <= i < m.len() ==> fits_len(encode_utf8((#[trigger] m[i]).0).len()) && wf(m[i].1),
    }
}

/// The value bound to `key` in a field list, scanning from the front;
/// `None` when the key is absent. Should a field list carry the same key
/// twice, the first binding wins, on the mathematical and the executable
/// side alike.
pub open spec fn entries_get(es: Seq<(Seq<char>, ValModel)>, key: Seq<char>) -> Option<ValModel>
    decreases es.len(),
{
    if es.len() == 0 {
        None
    } else if es[0].0 == key {
        Some(es[0].1)
    } else {
        entries_get(es.drop_first(), key)
    }
}

/// The elementwise shape of [`view_list`].
pub broadcast proof fn lemma_view_list(a: Seq<Val>)
    ensures
        (#[trigger] view_list(a)).len() == a.len(),
        forall|i: int| 0 <= i < a.len() ==> view_list(a)[i] == #[trigger] a[i]@,
    decreases a.len(),
{
    if a.len() > 0 {
        lemma_view_list(a.drop_first());
        assert(view_list(a) == seq![a[0]@] + view_list(a.drop_first()));
        assert forall|i: int| 0 <= i < a.len() implies view_list(a)[i] == #[trigger] a[i]@ by {
            if i > 0 {
                assert(a.drop_first()[i - 1] == a[i]);
            }
        }
    }
}

/// The elementwise shape of [`view_entries`].
pub broadcast proof fn lemma_view_entries(m: Seq<(String, Val)>)
    ensures
        (#[trigger] view_entries(m)).len() == m.len(),
        forall|i: int|
            0 <= i < m.len() ==> view_entries(m)[i] == ((#[trigger] m[i]).0@, m[i].1@),
    decreases m.len(),
{
    if m.len() > 0 {
        lemma_view_entries(m.drop_first());
        assert(view_entries(m) == seq![(m[0].0@, m[0].1@)] + view_entries(m.drop_first()));
        assert forall|i: int|
            0 <= i < m.len() implies view_entries(m)[i] == ((#[trigger] m[i]).0@, m[i].1@) by {
            if i > 0 {
                assert(m.drop_first()[i - 1] == m[i]);
            }
        }
    }
}

/// Whether a wire value carries a `u32`-sized unsigned integer.
pub open spec fn is_u32(v: ValModel) -> bool {
    v matches ValModel::Uint(u) && u <= 0xffff_ffff
}

/// Whether a wire value carries an `i64`-sized integer: unsigned within
/// the positive range, or any negative frame.
pub open spec fn is_i64(v: ValModel) -> bool {
    ||| (v matches ValModel::Uint(u) && u <= 0x7fff_ffff_ffff_ffff)
    ||| v matches ValModel::Int(_)
}

/// Whether a wire value carries an `i32`-sized integer.
pub open spec fn is_i32(v: ValModel) -> bool {
    ||| (v matches ValModel::Uint(u) && u <= 0x7fff_ffff)
    ||| (v matches ValModel::Int(i) && -0x8000_0000 <= i <= 0x7fff_ffff)
}

/// The integer carried by an integer-framed wire value.
pub open spec fn int_of(v: ValModel) -> int {
    match v {
        ValModel::Uint(u) => u as int,
        ValModel::Int(i) => i as int,
        _ => 0,
    }
}

/// Whether the fields `m` are a mapping of strings to strings matching the
/// pair list `p`, in order.
pub open spec fn str_entries(m: Seq<(Seq<char>, ValModel)>, p: Seq<(String, String)>) -> bool {
    &&& m.len() == p.len()
    &&& forall|i: int|
        0 <= i < m.len() ==> (#[trigger] m[i]).0 == p[i].0@ && m[i].1 == ValModel::Str(p[i].1@)
}

/// Whether the elements `a` are strings matching the list `p`, in order.
pub open spec fn str_items(a: Seq<ValModel>, p: Seq<String>) -> bool {
    &&& a.len() == p.len()
    &&& forall|i: int| 0 <= i < a.len() ==> #[trigger] a[i] == ValModel::Str(p[i]@)
}

/// Whether every value of the fields `m` is a text frame.
pub open spec fn all_str_values(m: Seq<(Seq<char>, ValModel)>) -> bool {
    forall|i: int| 0 <= i < m.len() ==> (#[trigger] m[i]).1 is Str
}

/// Whether every element of `a` is a text frame.
pub open spec fn all_str_items(a: Seq<ValModel>) -> bool {
    forall|i: int| 0 <= i < a.len() ==> (#[trigger] a[i]) is Str
}

/// Compares two strings by their UTF-8 bytes.
pub fn str_eq(a: &str, b: &str) -> (r: bool)
    ensures
        r == (a@ == b@),
{
    let ab = a.as_bytes();
    let bb = b.as_bytes();
    if ab.len() != bb.len() {
        return false;
    }
    let n = ab.len();
    let mut i: usize = 0;
    while i < n
        invariant
            n == ab@.len() == bb@.len(),
            ab@ == encode_utf8(a@),
            bb@ == encode_utf8(b@),
            i <= n,
            forall|j: int| 0 <= j < i ==> ab@[j] == bb@[j],
        decreases n - i,
    {
        if ab[i] != bb[i] {
            proof {
                assert(encode_utf8(a@)[i as int] != encode_utf8(b@)[i as int]);
            }
            return false;
        }
        i = i + 1;
    }
    proof {
        assert(encode_utf8(a@) =~= encode_utf8(b@));
        vstd::utf8::encode_utf8_decode_utf8(a@);
        vstd::utf8::encode_utf8_decode_utf8(b@);
    }
    true
}

/// Looks up `key` in a field list, scanning from position `i`.
fn map_get_from<'a>(es: &'a Vec<(String, Val)>, i: usize, key: &str) -> (r: Option<&'a Val>)
    requires
        i <= es@.len(),
    ensures
        match r {
            Some(v) => entries_get(view_entries(es@).skip(i as int), key@) == Some(v@),
            None => entries_get(view_entries(es@).skip(i as int), key@) is None,
        },
    decreases es@.len() - i,
{
    proof {
        lemma_view_entries(es@);
    }
    if i == es.len() {
        proof {
            assert(view_entries(es@).skip(i as int) =~= Seq::<(Seq<char>, ValModel)>::empty());
        }
        None
    } else {
        proof {
            assert(view_entries(es@).skip(i as int)[0] == view_entries(es@)[i as int]);
        }
        if str_eq(es[i].0.as_str(), key) {
            Some(&es[i].1)
        } else {
            proof {
                assert(view_entries(es@).skip(i as int).drop_first() =~= view_entries(
                    es@,
                ).skip(i as int + 1));
            }
            map_get_from(es, i + 1, key)
        }
    }
}

/// Looks up `key` in a field list: the first binding wins, as in
/// [`entries_get`].
pub fn map_get<'a>(es: &'a Vec<(String, Val)>, key: &str) -> (r: Option<&'a Val>)
    ensures
        match r {
            Some(v) => entries_get(view_entries(es@), key@) == Some(v@),
            None => entries_get(view_entries(es@), key@) is None,
        },
{
    proof {
        assert(view_entries(es@).skip(0) =~= view_entries(es@));
    }
    map_get_from(es, 0, key)
}

/// A required unsigned-integer field.
pub fn get_uint(es: &Vec<(String, Val)>, key: &str) -> (r: Result<u64, DecodeError>)
    ensures
        match r {
            Ok(u) => entries_get(view_entries(es@), key@) == Some(ValModel::Uint(u)),
            Err(e) => (e == DecodeError::MissingField && entries_get(view_entries(es@), key@)
                is None) || (e == DecodeError::TypeMismatch && (entries_get(
                view_entries(es@),
                key@,
            ) matches Some(v) && !(v is Uint))),
        },
{
    match map_get(es, key) {
        None => Err(DecodeError::MissingField),
        Some(Val::Uint(u)) => Ok(*u),
        Some(_) => Err(DecodeError::TypeMismatch),
    }
}

/// A required unsigned 32-bit field.
pub fn get_u32(es: &Vec<(String, Val)>, key: &str) -> (r: Result<u32, DecodeError>)
    ensures
        match r {
            Ok(u) => entries_get(view_entries(es@), key@) == Some(ValModel::Uint(u as u64)),
            Err(e) => (e == DecodeError::MissingField && entries_get(view_entries(es@), key@)
                is None) || (e == DecodeError::TypeMismatch && (entries_get(
                view_entries(es@),
                key@,
            ) matches Some(v) && !is_u32(v))),
        },
{
    match map_get(es, key) {
        None => Err(DecodeError::MissingField),
        Some(Val::Uint(u)) => {
            if *u <= 0xffff_ffff {
                Ok(*u as u32)
            } else {
                Err(DecodeError::TypeMismatch)
            }
        },
        Some(_) => Err(DecodeError::TypeMismatch),
    }
}

/// A required signed 64-bit field; a non-negative value arrives in an
/// unsigned frame.
pub fn get_i64(es: &Vec<(String, Val)>, key: &str) -> (r: Result<i64, DecodeError>)
    ensures
        match r {
            Ok(x) => entries_get(view_entries(es@), key@) matches Some(v) && is_i64(v) && int_of(
                v,
            ) == x as int,
            Err(e) => (e == DecodeError::MissingField && entries_get(view_entries(es@), key@)
                is None) || (e == DecodeError::TypeMismatch && (entries_get(
                view_entries(es@),
                key@,
            ) matches Some(v) && !is_i64(v))),
        },
{
    match map_get(es, key) {
        None => Err(DecodeError::MissingField),
        Some(Val::Uint(u)) => {
            if *u <= 0x7fff_ffff_ffff_ffff {
                Ok(*u as i64)
            } else {
                Err(DecodeError::TypeMismatch)
            }
        },
        Some(Val::Int(i)) => Ok(*i),
        Some(_) => Err(DecodeError::TypeMismatch),
    }
}

/// A required signed 32-bit field; a non-negative value arrives in an
/// unsigned frame.
pub fn get_i32(es: &Vec<(String, Val)>, key: &str) -> (r: Result<i32, DecodeError>)
    ensures
        match r {
            Ok(x) => entries_get(view_entries(es@), key@) matches Some(v) && is_i32(v) && int_of(
                v,
            ) == x as int,
            Err(e) => (e == DecodeError::MissingField && entries_get(view_entries(es@), key@)
                is None) || (e == DecodeError::TypeMismatch && (entries_get(
                view_entries(es@),
                key@,
            ) matches Some(v) && !is_i32(v))),
        },
{
    match map_get(es, key) {
        None => Err(DecodeError::MissingField),
        Some(Val::Uint(u)) => {
            if *u <= 0x7fff_ffff {
                Ok(*u as i32)
            } else {
                Err(DecodeError::TypeMismatch)
            }
        },
        Some(Val::Int(i)) => {
            if -0x8000_0000 <= *i && *i <= 0x7fff_ffff {
                Ok(*i as i32)
            } else {
                Err(DecodeError::TypeMismatch)
            }
        },
        Some(_) => Err(DecodeError::TypeMismatch),
    }
}

/// A required boolean field.
pub fn get_bool(es: &Vec<(String, Val)>, key: &str) -> (r: Result<bool, DecodeError>)
    ensures
        match r {
            Ok(x) => entries_get(view_entries(es@), key@) == Some(ValModel::Bool(x)),
            Err(e) => (e == DecodeError::MissingField && entries_get(view_entries(es@), key@)
                is None) || (e == DecodeError::TypeMismatch && (entries_get(
                view_entries(es@),
                key@,
            ) matches Some(v) && !(v is Bool))),
        },
{
    match map_get(es, key) {
        None => Err(DecodeError::MissingField),
        Some(Val::Bool(x)) => Ok(*x),
        Some(_) => Err(DecodeError::TypeMismatch),
    }
}

/// A required text field.
pub fn get_str(es: &Vec<(String, Val)>, key: &str) -> (r: Result<String, DecodeError>)
    ensures
        match r {
            Ok(s) => entries_get(view_entries(es@), key@) == Some(ValModel::Str(s@)),
            Err(e) => (e == DecodeError::MissingField && entries_get(view_entries(es@), key@)
                is None) || (e == DecodeError::TypeMismatch && (entries_get(
                view_entries(es@),
                key@,
            ) matches Some(v) && !(v is Str))),
        },
{
    match map_get(es, key) {
        None => Err(DecodeError::MissingField),
        Some(Val::Str(s)) => Ok(s.clone()),
        Some(_) => Err(DecodeError::TypeMismatch),
    }
}

/// An optional text field: absent, or framed as nil, it reads as `None`.
pub fn get_opt_str(es: &Vec<(String, Val)>, key: &str) -> (r: Result<
    Option<String>,
    DecodeError,
>)
    ensures
        match r {
            Ok(o) => match entries_get(view_entries(es@), key@) {
                Some(v) => (v matches ValModel::Str(sv) && o matches Some(s) && s@ == sv) || (v
                    is Nil && o is None),
                None => o is None,
            },
            Err(e) => e == DecodeError::TypeMismatch && (entries_get(
                view_entries(es@),
                key@,
            ) matches Some(v) && !(v is Str) && !(v is Nil)),
        },
{
    match map_get(es, key) {
        None => Ok(None),
        Some(Val::Nil) => Ok(None),
        Some(Val::Str(s)) => Ok(Some(s.clone())),
        Some(_) => Err(DecodeError::TypeMismatch),
    }
}

/// An optional byte-sequence field with an empty default. The payload is
/// opaque: it is returned byte for byte.
pub fn get_bin_or_empty(es: &Vec<(String, Val)>, key: &str) -> (r: Result<Vec<u8>, DecodeError>)
    ensures
        match r {
            Ok(p) => match entries_get(view_entries(es@), key@) {
                Some(v) => v == ValModel::Bin(p@),
                None => p@ == Seq::<u8>::empty(),
            },
            Err(e) => e == DecodeError::TypeMismatch && (entries_get(
                view_entries(es@),
                key@,
            ) matches Some(v) && !(v is Bin)),
        },
{
    match map_get(es, key) {
        None => {
            let p: Vec<u8> = Vec::new();
            assert(p@ =~= Seq::<u8>::empty());
            Ok(p)
        },
        Some(Val::Bin(p)) => Ok(p.clone()),
        Some(_) => Err(DecodeError::TypeMismatch),
    }
}

/// Reads a field list as a string-to-string mapping.
#[verifier::loop_isolation(false)]
fn dict_to_pairs(m: &Vec<(String, Val)>) -> (r: Result<Vec<(String, String)>, DecodeError>)
    ensures
        match r {
            Ok(p) => str_entries(view_entries(m@), p@),
            Err(e) => e == DecodeError::TypeMismatch && !all_str_values(view_entries(m@)),
        },
{
    proof {
        lemma_view_entries(m@);
    }
    let mut p: Vec<(String, String)> = Vec::new();
    let mut i: usize = 0;
    while i < m.len()
        invariant
            i <= m@.len(),
            p@.len() == i,
            forall|j: int|
                0 <= j < i ==> (#[trigger] view_entries(m@)[j]).0 == p@[j].0@
                    && view_entries(m@)[j].1 == ValModel::Str(p@[j].1@),
        decreases m@.len() - i,
    {
        proof {
            lemma_view_entries(m@);
        }
        match &m[i].1 {
            Val::Str(sv) => {
                p.push((m[i].0.clone(), sv.clone()));
                proof {
                    assert(view_entries(m@)[i as int] == (m@[i as int].0@, m@[i as int].1@));
                    assert(m@[i as int].1@ == ValModel::Str(p@[i as int].1@));
                }
            },
            _ => {
                proof {
                    assert(view_entries(m@)[i as int] == (m@[i as int].0@, m@[i as int].1@));
                    assert(!((view_entries(m@)[i as int]).1 is Str));
                }
                return Err(DecodeError::TypeMismatch);
            },
        }
        i = i + 1;
    }
    proof {
        lemma_view_entries(m@);
    }
    Ok(p)
}

/// An optional string-to-string mapping field with an empty default.
pub fn get_str_dict_or_empty(es: &Vec<(String, Val)>, key: &str) -> (r: Result<
    Vec<(String, String)>,
    DecodeError,
>)
    ensures
        match r {
            Ok(p) => match entries_get(view_entries(es@), key@) {
                Some(v) => v matches ValModel::Dict(m) && str_entries(m, p@),
                None => p@.len() == 0,
            },
            Err(e) => e == DecodeError::TypeMismatch && (entries_get(
                view_entries(es@),
                key@,
            ) matches Some(v) && (!(v is Dict) || (v matches ValModel::Dict(m)
                && !all_str_values(m)))),
        },
{
    match map_get(es, key) {
        None => {
            let p: Vec<(String, String)> = Vec::new();
            Ok(p)
        },
        Some(Val::Dict(m)) => dict_to_pairs(m),
        Some(_) => Err(DecodeError::TypeMismatch),
    }
}

/// A required string-to-string mapping field.
pub fn get_str_dict(es: &Vec<(String, Val)>, key: &str) -> (r: Result<
    Vec<(String, String)>,
    DecodeError,
>)
    ensures
        match r {
            Ok(p) => entries_get(view_entries(es@), key@) matches Some(v) && (v
                matches ValModel::Dict(m) && str_entries(m, p@)),
            Err(e) => (e == DecodeError::MissingField && entries_get(view_entries(es@), key@)
                is None) || (e == DecodeError::TypeMismatch && (entries_get(
                view_entries(es@),
                key@,
            ) matches Some(v) && (!(v is Dict) || (v matches ValModel::Dict(m)
                && !all_str_values(m))))),
        },
{
    match map_get(es, key) {
        None => Err(DecodeError::MissingField),
        Some(Val::Dict(m)) => dict_to_pairs(m),
        Some(_) => Err(DecodeError::TypeMismatch),
    }
}

/// Reads a sequence of wire values as a list of strings.
#[verifier::loop_isolation(false)]
fn arr_to_strings(a: &Vec<Val>) -> (r: Result<Vec<String>, DecodeError>)
    ensures
        match r {
            Ok(p) => str_items(view_list(a@), p@),
            Err(e) => e == DecodeError::TypeMismatch && !all_str_items(view_list(a@)),
        },
{
    proof {
        lemma_view_list(a@);
    }
    let mut p: Vec<String> = Vec::new();
    let mut i: usize = 0;
    while i < a.len()
        invariant
            i <= a@.len(),
            p@.len() == i,
            forall|j: int| 0 <= j < i ==> #[trigger] view_list(a@)[j] == ValModel::Str(p@[j]@),
        decreases a@.len() - i,
    {
        proof {
            lemma_view_list(a@);
        }
        match &a[i] {
            Val::Str(sv) => {
                p.push(sv.clone());
                proof {
                    assert(view_list(a@)[i as int] == a@[i as int]@);
                    assert(a@[i as int]@ == ValModel::Str(p@[i as int]@));
                }
            },
            _ => {
                proof {
                    assert(view_list(a@)[i as int] == a@[i as int]@);
                    assert(!(view_list(a@)[i as int] is Str));
                }
                return Err(DecodeError::TypeMismatch);
            },
        }
        i = i + 1;
    }
    proof {
        lemma_view_list(a@);
    }
    Ok(p)
}

/// A required list-of-strings field.
pub fn get_str_list(es: &Vec<(String, Val)>, key: &str) -> (r: Result<Vec<String>, DecodeError>)
    ensures
        match r {
            Ok(p) => entries_get(view_entries(es@), key@) matches Some(v) && (v
                matches ValModel::Arr(a) && str_items(a, p@)),
            Err(e) => (e == DecodeError::MissingField && entries_get(view_entries(es@), key@)
                is None) || (e == DecodeError::TypeMismatch && (entries_get(
                view_entries(es@),
                key@,
            ) matches Some(v) && (!(v is Arr) || (v matches ValModel::Arr(a)
                && !all_str_items(a))))),
        },
{
    match map_get(es, key) {
        None => Err(DecodeError::MissingField),
        Some(Val::Arr(a)) => arr_to_strings(a),
        Some(_) => Err(DecodeError::TypeMismatch),
    }
}

/// Lowers a string-to-string mapping into a field list.
#[verifier::loop_isolation(false)]
pub fn pairs_to_val(p: &Vec<(String, String)>) -> (v: Val)
    ensures
        v@ == ValModel::Dict(pairs_entries(p@)),
        v@ matches ValModel::Dict(m) && str_entries(m, p@),
{
    let mut m: Vec<(String, Val)> = Vec::new();
    let mut i: usize = 0;
    while i < p.len()
        invariant
            i <= p@.len(),
            m@.len() == i,
            forall|j: int|
                0 <= j < i ==> (#[trigger] view_entries(m@)[j]).0 == p@[j].0@
                    && view_entries(m@)[j].1 == ValModel::Str(p@[j].1@),
        decreases p@.len() - i,
    {
        proof {
            lemma_view_entries(m@);
        }
        let ghost before = m@;
        m.push((p[i].0.clone(), Val::Str(p[i].1.clone())));
        proof {
            lemma_view_entries(m@);
            assert forall|j: int|
                0 <= j < i + 1 implies (#[trigger] view_entries(m@)[j]).0 == p@[j].0@
                    && view_entries(m@)[j].1 == ValModel::Str(p@[j].1@) by {
                assert(view_entries(m@)[j] == (m@[j].0@, m@[j].1@));
                if j < i {
                    assert(m@[j] == before[j]);
                    assert(view_entries(before)[j] == (before[j].0@, before[j].1@)) by {
                        lemma_view_entries(before);
                    }
                } else {
                    assert(m@[j].0@ == p@[j].0@);
                    assert(m@[j].1@ == ValModel::Str(p@[j].1@));
                }
            }
        }
        i = i + 1;
    }
    proof {
        lemma_view_entries(m@);
        assert(view_entries(m@) =~= pairs_entries(p@));
    }
    Val::Dict(m)
}

/// Lowers a list of strings into a sequence of wire values.
#[verifier::loop_isolation(false)]
pub fn strings_to_val(p: &Vec<String>) -> (v: Val)
    ensures
        v@ == ValModel::Arr(strs_items(p@)),
        v@ matches ValModel::Arr(a) && str_items(a, p@),
{
    let mut a: Vec<Val> = Vec::new();
    let mut i: usize = 0;
    while i < p.len()
        invariant
            i <= p@.len(),
            a@.len() == i,
            forall|j: int| 0 <= j < i ==> #[trigger] view_list(a@)[j] == ValModel::Str(p@[j]@),
        decreases p@.len() - i,
    {
        proof {
            lemma_view_list(a@);
        }
        let ghost before = a@;
        a.push(Val::Str(p[i].clone()));
        proof {
            lemma_view_list(a@);
            assert forall|j: int|
                0 <= j < i + 1 implies #[trigger] view_list(a@)[j] == ValModel::Str(p@[j]@) by {
                assert(view_list(a@)[j] == a@[j]@);
                if j < i {
                    assert(a@[j] == before[j]);
                    assert(view_list(before)[j] == before[j]@) by {
                        lemma_view_list(before);
                    }
                } else {
                    assert(a@[j]@ == ValModel::Str(p@[j]@));
                }
            }
        }
        i = i + 1;
    }
    proof {
        lemma_view_list(a@);
        assert(view_list(a@) =~= strs_items(p@));
    }
    Val::Arr(a)
}

/// Looking up the key of field `i` finds field `i`, provided no earlier
/// field shadows that key.
pub proof fn lemma_entries_get_at(es: Seq<(Seq<char>, ValModel)>, i: int)
    requires
        0 <= i < es.len(),
        forall|j: int| 0 <= j < i ==> (#[trigger] es[j]).0 != es[i].0,
    ensures
        entries_get(es, es[i].0) == Some(es[i].1),
    decreases i,
{
    if i > 0 {
        assert(es[0].0 != es[i].0);
        lemma_entries_get_at(es.drop_first(), i - 1);
        assert(es.drop_first()[i - 1] == es[i]);
        assert forall|j: int| 0 <= j < i - 1 implies (#[trigger] es.drop_first()[j]).0
            != es.drop_first()[i - 1].0 by {
            assert(es.drop_first()[j] == es[j + 1]);
        }
    }
}

/// Copies a byte sequence.
pub fn clone_bytes(src: &Vec<u8>) -> (r: Vec<u8>)
    ensures
        r@ == src@,
{
    let mut r: Vec<u8> = Vec::new();
    let mut i: usize = 0;
    while i < src.len()
        invariant
            i <= src@.len(),
            r@ == src@.subrange(0, i as int),
        decreases src@.len() - i,
    {
        r.push(src[i]);
        proof {
            assert(src@.subrange(0, i + 1) =~= src@.subrange(0, i as int).push(src@[i as int]));
        }
        i = i + 1;
    }
    proof {
        assert(src@.subrange(0, src@.len() as int) =~= src@);
    }
    r
}

/// The canonical integer frame choice: non-negative integers travel
/// unsigned, negative ones signed.
pub open spec fn int_wire(n: int) -> ValModel {
    if n >= 0 {
        ValModel::Uint(n as u64)
    } else {
        ValModel::Int(n as i64)
    }
}

/// Lowers a signed integer into its canonical wire value.
pub fn int_to_val(n: i64) -> (v: Val)
    ensures
        v@ == int_wire(n as int),
{
    if n >= 0 {
        Val::Uint(n as u64)
    } else {
        Val::Int(n)
    }
}

/// The wire fields of a string-to-string mapping, pair for pair and in
/// order. The pair list stands in for a hash mapping, so its keys are
/// meant to be unique; the codec itself does not police that, and a list
/// that repeats a key encodes to a wire map repeating it, where lookup by
/// [`entries_get`] sees the first binding.
pub open spec fn pairs_entries(p: Seq<(String, String)>) -> Seq<(Seq<char>, ValModel)> {
    Seq::new(p.len(), |i: int| (p[i].0@, ValModel::Str(p[i].1@)))
}

/// The wire elements of a list of strings.
pub open spec fn strs_items(p: Seq<String>) -> Seq<ValModel> {
    Seq::new(p.len(), |i: int| ValModel::Str(p[i]@))
}

/// The wire value of an optional text field: nil when absent.
pub open spec fn opt_str_wire(o: Option<String>) -> ValModel {
    match o {
        Some(s) => ValModel::Str(s@),
        None => ValModel::Nil,
    }
}

/// Lowers an optional text field into its wire value.
pub fn opt_str_to_val(o: &Option<String>) -> (v: Val)
    ensures
        v@ == opt_str_wire(*o),
{
    match o {
        Some(s) => Val::Str(s.clone()),
        None => Val::Nil,
    }
}

/// Equality of string-to-string mappings, by content.
pub open spec fn pairs_eq(a: Seq<(String, String)>, b: Seq<(String, String)>) -> bool {
    &&& a.len() == b.len()
    &&& forall|i: int|
        0 <= i < a.len() ==> (#[trigger] a[i]).0@ == b[i].0@ && a[i].1@ == b[i].1@
}

/// Equality of string lists, by content.
pub open spec fn strs_eq(a: Seq<String>, b: Seq<String>) -> bool {
    &&& a.len() == b.len()
    &&& forall|i: int| 0 <= i < a.len() ==> (#[trigger] a[i])@ == b[i]@
}

/// Equality of optional texts, by content.
pub open spec fn opt_str_eq(a: Option<String>, b: Option<String>) -> bool {
    match (a, b) {
        (Some(x), Some(y)) => x@ == y@,
        (None, None) => true,
        _ => false,
    }
}

/// Appending a field under a different key never disturbs a lookup: the
/// ground of unknown-field tolerance.
pub proof fn lemma_entries_get_push_other(
    es: Seq<(Seq<char>, ValModel)>,
    key: Seq<char>,
    k2: Seq<char>,
    v2: ValModel,
)
    requires
        k2 != key,
    ensures
        entries_get(es.push((k2, v2)), key) == entries_get(es, key),
    decreases es.len(),
{
    if es.len() == 0 {
        assert(es.push((k2, v2))[0] == (k2, v2));
    } else {
        assert(es.push((k2, v2))[0] == es[0]);
        assert(es.push((k2, v2)).drop_first() =~= es.drop_first().push((k2, v2)));
        lemma_entries_get_push_other(es.drop_first(), key, k2, v2);
    }
}

} // verus!
