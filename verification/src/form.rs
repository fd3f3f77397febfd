//! The form-encoded request body: its grammar, a verified parser, and the
//! split of the parsed fields into the `access_token` credential and the
//! caller's payload fields.
//!
//! A body is a sequence of `&`-separated segments; empty segments are
//! skipped.  Each segment is split at its first `=` into a name and a value
//! (a segment without `=` has an empty value), and both halves are decoded:
//! `+` stands for a space, and `%` followed by two hex digits stands for the
//! character with that code.  A `%` not followed by two hex digits is kept
//! literally.  Parsing never fails: the placement and schema checks that can
//! fail happen in `user_authorization`.

use vstd::prelude::*;
use vstd::slice::*;
use vstd::string::*;

use crate::text::{find_char, find_in, lemma_find_char, push_char};

verus! {

/// The fields of a parsed form, as (name, value) views.
pub open spec fn pairs_view(v: Seq<(String, String)>) -> Seq<(Seq<char>, Seq<char>)> {
    v.map_values(|p: (String, String)| (p.0@, p.1@))
}

pub open spec fn is_hex_digit(c: char) -> bool {
    ('0' <= c && c <= '9') || ('a' <= c && c <= 'f') || ('A' <= c && c <= 'F')
}

/// Numeric value of a hex digit.
pub open spec fn hex_value(c: char) -> int {
    if '0' <= c && c <= '9' {
        c as int - '0' as int
    } else if 'a' <= c && c <= 'f' {
        c as int - 'a' as int + 10
    } else {
        c as int - 'A' as int + 10
    }
}

/// Percent- and plus-decoding of one form component.
pub open spec fn decoded(s: Seq<char>) -> Seq<char>
    decreases s.len(),
{
    if s.len() == 0 {
        Seq::empty()
    } else if s[0] == '+' {
        seq![' '] + decoded(s.skip(1))
    } else if s[0] == '%' && s.len() >= 3 && is_hex_digit(s[1]) && is_hex_digit(s[2]) {
        seq![(((hex_value(s[1]) * 16 + hex_value(s[2])) as u8) as char)] + decoded(s.skip(3))
    } else {
        seq![s[0]] + decoded(s.skip(1))
    }
}

/// The (name, value) pair denoted by one nonempty segment.
pub open spec fn pair_of(seg: Seq<char>) -> (Seq<char>, Seq<char>) {
    match find_char(seg, '=') {
        Option::None => (decoded(seg), Seq::<char>::empty()),
        Option::Some(i) => (decoded(seg.take(i)), decoded(seg.skip(i + 1))),
    }
}

/// All (name, value) pairs of a form body, in order.
pub open spec fn form_pairs(s: Seq<char>) -> Seq<(Seq<char>, Seq<char>)>
    decreases s.len(),
    when true
    via form_pairs_decreases
{
    match find_char(s, '&') {
        Option::None => if s.len() == 0 {
            Seq::empty()
        } else {
            seq![pair_of(s)]
        },
        Option::Some(i) => {
            if i == 0 {
                form_pairs(s.skip(1))
            } else {
                seq![pair_of(s.take(i))] + form_pairs(s.skip(i + 1))
            }
        },
    }
}

#[via_fn]
proof fn form_pairs_decreases(s: Seq<char>) {
    lemma_find_char(s, '&');
}

/// Value of the first field named `key`, if any.
pub open spec fn first_value(pairs: Seq<(Seq<char>, Seq<char>)>, key: Seq<char>) -> Option<
    Seq<char>,
>
    decreases pairs.len(),
{
    if pairs.len() == 0 {
        Option::None
    } else if pairs[0].0 == key {
        Option::Some(pairs[0].1)
    } else {
        first_value(pairs.skip(1), key)
    }
}

/// The pairs whose name is not `key`, in order.
pub open spec fn without_key(pairs: Seq<(Seq<char>, Seq<char>)>, key: Seq<char>) -> Seq<
    (Seq<char>, Seq<char>),
>
    decreases pairs.len(),
{
    if pairs.len() == 0 {
        Seq::empty()
    } else if pairs[0].0 == key {
        without_key(pairs.skip(1), key)
    } else {
        seq![pairs[0]] + without_key(pairs.skip(1), key)
    }
}

/// The token carried by a form body: the first `access_token` field.
pub open spec fn spec_form_token(body: Seq<char>) -> Option<Seq<char>> {
    first_value(form_pairs(body), "access_token"@)
}

/// The payload fields of a form body: everything but `access_token`.
pub open spec fn spec_payload_fields(body: Seq<char>) -> Seq<(Seq<char>, Seq<char>)> {
    without_key(form_pairs(body), "access_token"@)
}

/// Value of one hex digit character, if it is one.
pub fn hex_digit(c: char) -> (r: Option<u8>)
    ensures
        match r {
            Option::Some(v) => is_hex_digit(c) && v == hex_value(c),
            Option::None => !is_hex_digit(c),
        },
{
    let u = c as u32;
    if '0' as u32 <= u && u <= '9' as u32 {
        Some((u - '0' as u32) as u8)
    } else if 'a' as u32 <= u && u <= 'f' as u32 {
        Some((u - 'a' as u32 + 10) as u8)
    } else if 'A' as u32 <= u && u <= 'F' as u32 {
        Some((u - 'A' as u32 + 10) as u8)
    } else {
        None
    }
}

/// Percent- and plus-decodes one component.
pub fn decode_component(v: &[char]) -> (r: String)
    ensures
        r@ == decoded(v@),
    decreases v@.len(),
{
    if v.len() == 0 {
        let r = String::new();
        proof {
            assert(r@ =~= decoded(v@));
        }
        return r;
    }
    let c0 = *slice_index_get(v, 0);
    let mut c: char = c0;
    let mut used: usize = 1;
    if c0 == '+' {
        c = ' ';
    } else if c0 == '%' && v.len() >= 3 {
        let h1 = hex_digit(*slice_index_get(v, 1));
        let h2 = hex_digit(*slice_index_get(v, 2));
        match (h1, h2) {
            (Some(a), Some(b)) => {
                c = (a * 16 + b) as char;
                used = 3;
            },
            _ => {},
        }
    }
    let rest = decode_component(slice_subrange(v, used, v.len()));
    let mut r = String::new();
    push_char(&mut r, c);
    r.append(rest.as_str());
    proof {
        assert(v@.subrange(used as int, v@.len() as int) =~= v@.skip(used as int));
        assert(r@ =~= decoded(v@));
    }
    r
}

/// Parses one nonempty segment into its (name, value) pair.
fn parse_pair(seg: &[char]) -> (r: (String, String))
    ensures
        (r.0@, r.1@) == pair_of(seg@),
{
    match find_in(seg, '=') {
        None => {
            let name = decode_component(seg);
            (name, String::new())
        },
        Some(i) => {
            let n = seg.len();
            proof {
                lemma_find_char(seg@, '=');
                assert((i as int) < seg@.len());
            }
            let name = decode_component(slice_subrange(seg, 0, i));
            let value = decode_component(slice_subrange(seg, i + 1, n));
            proof {
                assert(seg@.subrange(0, i as int) =~= seg@.take(i as int));
                assert(seg@.subrange(i as int + 1, seg@.len() as int) =~= seg@.skip(i as int + 1));
            }
            (name, value)
        },
    }
}

/// Parses a whole form body into its fields.
pub fn parse_form(v: &[char]) -> (r: Vec<(String, String)>)
    ensures
        pairs_view(r@) == form_pairs(v@),
    decreases v@.len(),
{
    match find_in(v, '&') {
        None => {
            let mut r: Vec<(String, String)> = Vec::new();
            if v.len() > 0 {
                let p = parse_pair(v);
                r.push(p);
            }
            proof {
                assert(pairs_view(r@) =~= form_pairs(v@));
            }
            r
        },
        Some(i) => {
            let n = v.len();
            proof {
                lemma_find_char(v@, '&');
                assert((i as int) < v@.len());
            }
            let mut rest = parse_form(slice_subrange(v, i + 1, n));
            proof {
                assert(v@.subrange(i as int + 1, v@.len() as int) =~= v@.skip(i as int + 1));
            }
            if i == 0 {
                proof {
                    assert(pairs_view(rest@) =~= form_pairs(v@));
                }
                rest
            } else {
                let head = parse_pair(slice_subrange(v, 0, i));
                let mut r: Vec<(String, String)> = Vec::new();
                r.push(head);
                r.append(&mut rest);
                proof {
                    assert(v@.subrange(0, i as int) =~= v@.take(i as int));
                    assert(pairs_view(r@) =~= form_pairs(v@));
                }
                r
            }
        },
    }
}

/// The first `access_token` field at or after index `i`.
fn token_field_from(pairs: &Vec<(String, String)>, i: usize) -> (r: Option<String>)
    requires
        i <= pairs@.len(),
    ensures
        match r {
            Option::Some(t) => first_value(pairs_view(pairs@).skip(i as int), "access_token"@)
                == Option::Some(t@),
            Option::None => first_value(pairs_view(pairs@).skip(i as int), "access_token"@)
                is None,
        },
    decreases pairs@.len() - i,
{
    let ghost s = pairs_view(pairs@).skip(i as int);
    if i == pairs.len() {
        proof {
            assert(s.len() == 0);
        }
        return None;
    }
    proof {
        assert(s[0] == (pairs@[i as int].0@, pairs@[i as int].1@));
        assert(s.skip(1) =~= pairs_view(pairs@).skip(i as int + 1));
    }
    let key = String::from_str("access_token");
    if pairs[i].0 == key {
        Some(pairs[i].1.clone())
    } else {
        token_field_from(pairs, i + 1)
    }
}

/// The first `access_token` field of the parsed form, if any.
pub fn token_field(pairs: &Vec<(String, String)>) -> (r: Option<String>)
    ensures
        match r {
            Option::Some(t) => first_value(pairs_view(pairs@), "access_token"@) == Option::Some(
                t@,
            ),
            Option::None => first_value(pairs_view(pairs@), "access_token"@) is None,
        },
{
    proof {
        assert(pairs_view(pairs@).skip(0) =~= pairs_view(pairs@));
    }
    token_field_from(pairs, 0)
}

/// The non-`access_token` fields at or after index `i`, in order.
fn payload_fields_from(pairs: &Vec<(String, String)>, i: usize) -> (r: Vec<(String, String)>)
    requires
        i <= pairs@.len(),
    ensures
        pairs_view(r@) == without_key(pairs_view(pairs@).skip(i as int), "access_token"@),
    decreases pairs@.len() - i,
{
    let ghost s = pairs_view(pairs@).skip(i as int);
    if i == pairs.len() {
        let r: Vec<(String, String)> = Vec::new();
        proof {
            assert(s.len() == 0);
            assert(pairs_view(r@) =~= without_key(s, "access_token"@));
        }
        return r;
    }
    proof {
        assert(s[0] == (pairs@[i as int].0@, pairs@[i as int].1@));
        assert(s.skip(1) =~= pairs_view(pairs@).skip(i as int + 1));
    }
    let mut rest = payload_fields_from(pairs, i + 1);
    let key = String::from_str("access_token");
    if pairs[i].0 == key {
        proof {
            assert(pairs_view(rest@) =~= without_key(s, "access_token"@));
        }
        rest
    } else {
        let head = (pairs[i].0.clone(), pairs[i].1.clone());
        let mut r: Vec<(String, String)> = Vec::new();
        r.push(head);
        r.append(&mut rest);
        proof {
            assert(pairs_view(r@) =~= without_key(s, "access_token"@));
        }
        r
    }
}

/// The payload fields of the parsed form: everything but `access_token`.
pub fn payload_fields(pairs: &Vec<(String, String)>) -> (r: Vec<(String, String)>)
    ensures
        pairs_view(r@) == without_key(pairs_view(pairs@), "access_token"@),
{
    proof {
        assert(pairs_view(pairs@).skip(0) =~= pairs_view(pairs@));
    }
    payload_fields_from(pairs, 0)
}

} // verus!
