//! The wire codec: JSON documents as the daemon's protocol uses them,
//! with a verified serializer and parser.
//!
//! The daemon frames every request and response as one compact JSON object
//! per line. This module owns that grammar: `JsonValue` is the document
//! type (numbers are 64-bit integers), `write_value` serializes, and
//! `parse_value` parses the compact form back. The two are proved inverse
//! in `lemma_parse_of_ser`.

use vstd::prelude::*;
use vstd::string::*;
use vstd::assert_seqs_equal;

verus! {

broadcast use vstd::seq::axiom_seq_index_decreases, vstd::seq::axiom_seq_subrange_decreases;

/// A JSON document. Numbers are 64-bit integers: the protocol never
/// carries fractions.
#[derive(Debug, PartialEq)]
pub enum JsonValue {
    Null,
    Bool(bool),
    Int(i64),
    Str(String),
    Arr(Vec<JsonValue>),
    Obj(Vec<(String, JsonValue)>),
}

/// The mathematical model of a JSON document.
#[verifier::ext_equal]
pub enum JsonVal {
    Null,
    Bool(bool),
    Int(int),
    Str(Seq<char>),
    Arr(Seq<JsonVal>),
    Obj(Seq<(Seq<char>, JsonVal)>),
}

impl View for JsonValue {
    type V = JsonVal;

    open spec fn view(&self) -> JsonVal
        decreases self, 1int,
    {
        match self {
            JsonValue::Null => JsonVal::Null,
            JsonValue::Bool(b) => JsonVal::Bool(*b),
            JsonValue::Int(i) => JsonVal::Int(*i as int),
            JsonValue::Str(s) => JsonVal::Str(s@),
            JsonValue::Arr(items) => JsonVal::Arr(jv_elems(items@)),
            JsonValue::Obj(fields) => JsonVal::Obj(jv_fields(fields@)),
        }
    }
}

/// The element models of a sequence of documents.
pub open spec fn jv_elems(s: Seq<JsonValue>) -> Seq<JsonVal>
    decreases s, 0int,
{
    Seq::new(
        s.len(),
        |i: int|
            if 0 <= i < s.len() {
                s[i]@
            } else {
                JsonVal::Null
            },
    )
}

/// The member models of a sequence of keyed documents.
pub open spec fn jv_fields(s: Seq<(String, JsonValue)>) -> Seq<(Seq<char>, JsonVal)>
    decreases s, 0int,
{
    Seq::new(
        s.len(),
        |i: int|
            if 0 <= i < s.len() {
                (s[i].0@, s[i].1@)
            } else {
                (Seq::empty(), JsonVal::Null)
            },
    )
}

/// Every integer in the document fits in an `i64`. Views of executable
/// `JsonValue`s always satisfy this; the parser never produces anything
/// outside it.
pub open spec fn wf_val(v: JsonVal) -> bool
    decreases v,
{
    match v {
        JsonVal::Null => true,
        JsonVal::Bool(_) => true,
        JsonVal::Int(i) => i64::MIN <= i <= i64::MAX,
        JsonVal::Str(_) => true,
        JsonVal::Arr(elems) => forall|i: int| 0 <= i < elems.len() ==> wf_val(#[trigger] elems[i]),
        JsonVal::Obj(fields) => forall|i: int|
            0 <= i < fields.len() ==> wf_val(#[trigger] fields[i].1),
    }
}

pub proof fn lemma_view_wf(v: &JsonValue)
    ensures
        wf_val(v@),
    decreases v,
{
    match v {
        JsonValue::Arr(items) => {
            assert forall|i: int| 0 <= i < items@.len() implies wf_val(#[trigger] jv_elems(items@)[i]) by {
                lemma_view_wf(&items@[i]);
                assert(jv_elems(items@)[i] == items@[i]@);
            }
            assert(v@ == JsonVal::Arr(jv_elems(items@)));
        },
        JsonValue::Obj(fields) => {
            assert forall|i: int| 0 <= i < fields@.len() implies wf_val(
                #[trigger] jv_fields(fields@)[i].1,
            ) by {
                lemma_view_wf(&fields@[i].1);
                assert(jv_fields(fields@)[i].1 == fields@[i].1@);
            }
            assert(v@ == JsonVal::Obj(jv_fields(fields@)));
        },
        _ => {},
    }
}

// ---------------------------------------------------------------------------
// The serialized form, as spec functions.
// ---------------------------------------------------------------------------

pub open spec fn is_digit(c: char) -> bool {
    '0' <= c <= '9'
}

pub open spec fn digit_char(d: int) -> char {
    ((d + 48) as u8) as char
}

pub open spec fn digit_val(c: char) -> int {
    c as int - 48
}

/// Decimal digits of a natural number, most significant first.
pub open spec fn dec_digits(n: nat) -> Seq<char>
    decreases n,
{
    if n < 10 {
        seq![digit_char(n as int)]
    } else {
        dec_digits(n / 10) + seq![digit_char((n % 10) as int)]
    }
}

/// Serialized form of an integer.
pub open spec fn ser_int(i: int) -> Seq<char> {
    if i < 0 {
        seq!['-'] + dec_digits((-i) as nat)
    } else {
        dec_digits(i as nat)
    }
}

/// Serialized form of one character inside a string literal.
pub open spec fn esc_char(c: char) -> Seq<char> {
    if c == '"' {
        seq!['\\', '"']
    } else if c == '\\' {
        seq!['\\', '\\']
    } else if c == '\n' {
        seq!['\\', 'n']
    } else if c == '\r' {
        seq!['\\', 'r']
    } else if c == '\t' {
        seq!['\\', 't']
    } else {
        seq![c]
    }
}

/// Escaped body of a string literal.
pub open spec fn esc_str(s: Seq<char>) -> Seq<char>
    decreases s.len(),
{
    if s.len() == 0 {
        Seq::empty()
    } else {
        esc_str(s.drop_last()) + esc_char(s.last())
    }
}

/// Serialized form of a string literal, quotes included.
pub open spec fn ser_str(s: Seq<char>) -> Seq<char> {
    seq!['"'] + esc_str(s) + seq!['"']
}

/// Serialized form of a document, in the compact style: no whitespace.
pub open spec fn ser_val(v: JsonVal) -> Seq<char>
    decreases v, 0int,
{
    match v {
        JsonVal::Null => seq!['n', 'u', 'l', 'l'],
        JsonVal::Bool(b) => if b {
            seq!['t', 'r', 'u', 'e']
        } else {
            seq!['f', 'a', 'l', 's', 'e']
        },
        JsonVal::Int(i) => ser_int(i),
        JsonVal::Str(s) => ser_str(s),
        JsonVal::Arr(elems) => if elems.len() == 0 {
            seq!['[', ']']
        } else {
            seq!['['] + ser_elems(elems, 0) + seq![']']
        },
        JsonVal::Obj(fields) => if fields.len() == 0 {
            seq!['{', '}']
        } else {
            seq!['{'] + ser_members(fields, 0) + seq!['}']
        },
    }
}

/// Serialized form of the elements `elems[k..]`, comma separated.
pub open spec fn ser_elems(elems: Seq<JsonVal>, k: int) -> Seq<char>
    decreases elems, elems.len() - k + 1,
{
    if k < 0 || k >= elems.len() {
        Seq::empty()
    } else if k == elems.len() - 1 {
        ser_val(elems[k])
    } else {
        ser_val(elems[k]) + seq![','] + ser_elems(elems, k + 1)
    }
}

/// Serialized form of the members `fields[k..]`, comma separated.
pub open spec fn ser_members(fields: Seq<(Seq<char>, JsonVal)>, k: int) -> Seq<char>
    decreases fields, fields.len() - k + 1,
{
    if k < 0 || k >= fields.len() {
        Seq::empty()
    } else if k == fields.len() - 1 {
        ser_member(fields[k])
    } else {
        ser_member(fields[k]) + seq![','] + ser_members(fields, k + 1)
    }
}

pub open spec fn ser_member(field: (Seq<char>, JsonVal)) -> Seq<char>
    decreases field, 0int,
{
    ser_str(field.0) + seq![':'] + ser_val(field.1)
}

// ---------------------------------------------------------------------------
// The executable serializer.
// ---------------------------------------------------------------------------

/// Relies on std's `String::push`: appends exactly the given character.
#[verifier::external_body]
fn push_char(out: &mut String, c: char)
    ensures
        final(out)@ == old(out)@ + seq![c],
{
    out.push(c);
}

/// Appends the decimal digits of `n`.
fn write_nat(out: &mut String, n: u64)
    ensures
        final(out)@ == old(out)@ + dec_digits(n as nat),
    decreases n,
{
    if n < 10 {
        push_char(out, (48 + n as u8) as char);
    } else {
        write_nat(out, n / 10);
        push_char(out, (48 + (n % 10) as u8) as char);
    }
}

/// Appends the serialized form of `i`.
fn write_int(out: &mut String, i: i64)
    ensures
        final(out)@ == old(out)@ + ser_int(i as int),
{
    if i < 0 {
        push_char(out, '-');
        let mag: u64 = ((-(i + 1)) as u64) + 1;
        assert(mag == -(i as int));
        write_nat(out, mag);
        assert(out@ == old(out)@ + ser_int(i as int));
    } else {
        write_nat(out, i as u64);
    }
}

proof fn lemma_esc_str_push(s: Seq<char>, c: char)
    ensures
        esc_str(s.push(c)) == esc_str(s) + esc_char(c),
{
    assert(s.push(c).drop_last() =~= s);
    assert(s.push(c).last() == c);
}

/// Appends the serialized form of the string `s`, quotes included.
fn write_str(out: &mut String, s: &str)
    ensures
        final(out)@ == old(out)@ + ser_str(s@),
{
    push_char(out, '"');
    let len: usize = s.unicode_len();
    let mut i: usize = 0;
    while i < len
        invariant
            len == s@.len(),
            i <= len,
            out@ == old(out)@ + seq!['"'] + esc_str(s@.subrange(0, i as int)),
        decreases len - i,
    {
        let c = s.get_char(i);
        if c == '"' {
            push_char(out, '\\');
            push_char(out, '"');
        } else if c == '\\' {
            push_char(out, '\\');
            push_char(out, '\\');
        } else if c == '\n' {
            push_char(out, '\\');
            push_char(out, 'n');
        } else if c == '\r' {
            push_char(out, '\\');
            push_char(out, 'r');
        } else if c == '\t' {
            push_char(out, '\\');
            push_char(out, 't');
        } else {
            push_char(out, c);
        }
        proof {
            lemma_esc_str_push(s@.subrange(0, i as int), c);
            assert(s@.subrange(0, i as int).push(c) =~= s@.subrange(0, i as int + 1));
        }
        i = i + 1;
    }
    proof {
        assert(s@.subrange(0, len as int) =~= s@);
    }
    push_char(out, '"');
    proof {
        assert(old(out)@ + seq!['"'] + esc_str(s@) + seq!['"'] =~= old(out)@ + ser_str(s@));
    }
}

/// Appends the serialized form of `v`, in the compact style.
pub fn write_value(out: &mut String, v: &JsonValue)
    ensures
        final(out)@ == old(out)@ + ser_val(v@),
    decreases v, 0int,
{
    match v {
        JsonValue::Null => {
            push_char(out, 'n');
            push_char(out, 'u');
            push_char(out, 'l');
            push_char(out, 'l');
            assert(out@ =~= old(out)@ + ser_val(v@));
        },
        JsonValue::Bool(b) => {
            if *b {
                push_char(out, 't');
                push_char(out, 'r');
                push_char(out, 'u');
                push_char(out, 'e');
            } else {
                push_char(out, 'f');
                push_char(out, 'a');
                push_char(out, 'l');
                push_char(out, 's');
                push_char(out, 'e');
            }
            assert(out@ =~= old(out)@ + ser_val(v@));
        },
        JsonValue::Int(i) => {
            write_int(out, *i);
        },
        JsonValue::Str(s) => {
            write_str(out, s.as_str());
        },
        JsonValue::Arr(items) => {
            push_char(out, '[');
            if items.len() == 0 {
                push_char(out, ']');
                assert(out@ =~= old(out)@ + ser_val(v@));
            } else {
                write_elems(out, items, 0);
                push_char(out, ']');
                assert(out@ =~= old(out)@ + ser_val(v@));
            }
        },
        JsonValue::Obj(fields) => {
            push_char(out, '{');
            if fields.len() == 0 {
                push_char(out, '}');
                assert(out@ =~= old(out)@ + ser_val(v@));
            } else {
                write_members(out, fields, 0);
                push_char(out, '}');
                assert(out@ =~= old(out)@ + ser_val(v@));
            }
        },
    }
}

fn write_elems(out: &mut String, items: &Vec<JsonValue>, k: usize)
    requires
        k < items@.len(),
    ensures
        final(out)@ == old(out)@ + ser_elems(jv_elems(items@), k as int),
    decreases items, items@.len() - k + 1,
{
    write_value(out, &items[k]);
    proof {
        assert(items@[k as int]@ == jv_elems(items@)[k as int]);
    }
    if k < items.len() - 1 {
        push_char(out, ',');
        write_elems(out, items, k + 1);
        assert(out@ =~= old(out)@ + ser_elems(jv_elems(items@), k as int));
    } else {
        assert(out@ =~= old(out)@ + ser_elems(jv_elems(items@), k as int));
    }
}

fn write_members(out: &mut String, fields: &Vec<(String, JsonValue)>, k: usize)
    requires
        k < fields@.len(),
    ensures
        final(out)@ == old(out)@ + ser_members(jv_fields(fields@), k as int),
    decreases fields, fields@.len() - k + 1,
{
    write_str(out, fields[k].0.as_str());
    push_char(out, ':');
    write_value(out, &fields[k].1);
    proof {
        assert(jv_fields(fields@)[k as int] == (fields@[k as int].0@, fields@[k as int].1@));
        assert(ser_member(jv_fields(fields@)[k as int]) == ser_str(fields@[k as int].0@) + seq![
            ':',
        ] + ser_val(fields@[k as int].1@));
        assert(out@ =~= old(out)@ + ser_member(jv_fields(fields@)[k as int]));
    }
    if k < fields.len() - 1 {
        push_char(out, ',');
        write_members(out, fields, k + 1);
        assert(out@ =~= old(out)@ + ser_members(jv_fields(fields@), k as int));
    } else {
        assert(out@ =~= old(out)@ + ser_members(jv_fields(fields@), k as int));
    }
}

/// Serializes a document to its compact JSON text.
pub fn to_json(v: &JsonValue) -> (out: String)
    ensures
        out@ == ser_val(v@),
{
    let mut out = String::new();
    write_value(&mut out, v);
    out
}

} // verus!

// ---------------------------------------------------------------------------
// The grammar, as a spec-level parser over character sequences.
// ---------------------------------------------------------------------------

verus! {

/// The position just after the run of digits that starts at `i`.
pub open spec fn digits_end(s: Seq<char>, i: int) -> int
    decreases s.len() - i,
{
    if i < 0 || i >= s.len() || !is_digit(s[i]) {
        i
    } else {
        digits_end(s, i + 1)
    }
}

/// The numeric value of the digit run `s[i..j]`, most significant first.
pub open spec fn digits_val(s: Seq<char>, i: int, j: int) -> int
    decreases j - i,
{
    if j <= i {
        0
    } else {
        digits_val(s, i, j - 1) * 10 + digit_val(s[j - 1])
    }
}

/// Parses an integer at `i`: an optional minus sign, then digits. Values
/// outside the 64-bit range are rejected.
pub open spec fn parse_int(s: Seq<char>, i: int) -> Option<(JsonVal, int)> {
    if 0 <= i < s.len() && s[i] == '-' {
        let j = digits_end(s, i + 1);
        if j == i + 1 {
            None
        } else if -digits_val(s, i + 1, j) >= i64::MIN as int {
            Some((JsonVal::Int(-digits_val(s, i + 1, j)), j))
        } else {
            None
        }
    } else {
        let j = digits_end(s, i);
        if j == i {
            None
        } else if digits_val(s, i, j) <= i64::MAX as int {
            Some((JsonVal::Int(digits_val(s, i, j)), j))
        } else {
            None
        }
    }
}

/// The character an escape sequence `\c` stands for, if `c` is one of the
/// five escapes the codec knows.
pub open spec fn unesc(c: char) -> Option<char> {
    if c == '"' {
        Some('"')
    } else if c == '\\' {
        Some('\\')
    } else if c == 'n' {
        Some('\n')
    } else if c == 'r' {
        Some('\r')
    } else if c == 't' {
        Some('\t')
    } else {
        None
    }
}

/// Parses the body of a string literal, starting just after the opening
/// quote; returns the content and the position after the closing quote.
pub open spec fn parse_str_body(s: Seq<char>, i: int) -> Option<(Seq<char>, int)>
    decreases s.len() - i,
{
    if i < 0 || i >= s.len() {
        None
    } else if s[i] == '"' {
        Some((Seq::empty(), i + 1))
    } else if s[i] == '\\' {
        if i + 1 < s.len() {
            match unesc(s[i + 1]) {
                Some(c) => match parse_str_body(s, i + 2) {
                    Some((cs, j)) => Some((seq![c] + cs, j)),
                    None => None,
                },
                None => None,
            }
        } else {
            None
        }
    } else {
        match parse_str_body(s, i + 1) {
            Some((cs, j)) => Some((seq![s[i]] + cs, j)),
            None => None,
        }
    }
}

/// Parses a document at `i`, in the compact style the serializer emits.
pub open spec fn parse_val(s: Seq<char>, i: int) -> Option<(JsonVal, int)>
    decreases s.len() - i, 2int,
{
    if i < 0 || i >= s.len() {
        None
    } else if s[i] == 'n' {
        if i + 4 <= s.len() && s[i + 1] == 'u' && s[i + 2] == 'l' && s[i + 3] == 'l' {
            Some((JsonVal::Null, i + 4))
        } else {
            None
        }
    } else if s[i] == 't' {
        if i + 4 <= s.len() && s[i + 1] == 'r' && s[i + 2] == 'u' && s[i + 3] == 'e' {
            Some((JsonVal::Bool(true), i + 4))
        } else {
            None
        }
    } else if s[i] == 'f' {
        if i + 5 <= s.len() && s[i + 1] == 'a' && s[i + 2] == 'l' && s[i + 3] == 's' && s[i + 4]
            == 'e' {
            Some((JsonVal::Bool(false), i + 5))
        } else {
            None
        }
    } else if s[i] == '-' || is_digit(s[i]) {
        parse_int(s, i)
    } else if s[i] == '"' {
        match parse_str_body(s, i + 1) {
            Some((cs, j)) => Some((JsonVal::Str(cs), j)),
            None => None,
        }
    } else if s[i] == '[' {
        if i + 1 < s.len() && s[i + 1] == ']' {
            Some((JsonVal::Arr(Seq::empty()), i + 2))
        } else {
            match parse_elems(s, i + 1) {
                Some((vs, j)) => Some((JsonVal::Arr(vs), j)),
                None => None,
            }
        }
    } else if s[i] == '{' {
        if i + 1 < s.len() && s[i + 1] == '}' {
            Some((JsonVal::Obj(Seq::empty()), i + 2))
        } else {
            match parse_members(s, i + 1) {
                Some((fs, j)) => Some((JsonVal::Obj(fs), j)),
                None => None,
            }
        }
    } else {
        None
    }
}

/// Parses one or more comma-separated elements followed by `]`.
pub open spec fn parse_elems(s: Seq<char>, i: int) -> Option<(Seq<JsonVal>, int)>
    decreases s.len() - i, 3int,
{
    match parse_val(s, i) {
        Some((v, j)) => if j <= i || j >= s.len() {
            None
        } else if s[j] == ',' {
            match parse_elems(s, j + 1) {
                Some((vs, m)) => Some((seq![v] + vs, m)),
                None => None,
            }
        } else if s[j] == ']' {
            Some((seq![v], j + 1))
        } else {
            None
        },
        None => None,
    }
}

/// Parses one or more comma-separated `"key":value` members followed by `}`.
pub open spec fn parse_members(s: Seq<char>, i: int) -> Option<(Seq<(Seq<char>, JsonVal)>, int)>
    decreases s.len() - i, 3int,
{
    if i < 0 || i >= s.len() || s[i] != '"' {
        None
    } else {
        match parse_str_body(s, i + 1) {
            Some((key, j)) => if j <= i || j >= s.len() || s[j] != ':' {
                None
            } else {
                match parse_val(s, j + 1) {
                    Some((v, m)) => if m <= j || m >= s.len() {
                        None
                    } else if s[m] == ',' {
                        match parse_members(s, m + 1) {
                            Some((fs, e)) => Some((seq![(key, v)] + fs, e)),
                            None => None,
                        }
                    } else if s[m] == '}' {
                        Some((seq![(key, v)], m + 1))
                    } else {
                        None
                    },
                    None => None,
                }
            },
            None => None,
        }
    }
}

/// Parses a whole document: a value covering the entire input.
pub open spec fn parse_doc(s: Seq<char>) -> Option<JsonVal> {
    match parse_val(s, 0) {
        Some((v, j)) => if j == s.len() {
            Some(v)
        } else {
            None
        },
        None => None,
    }
}

} // verus!

// ---------------------------------------------------------------------------
// The executable parser.
// ---------------------------------------------------------------------------

verus! {

fn is_digit_x(c: char) -> (r: bool)
    ensures
        r == is_digit(c),
{
    '0' <= c && c <= '9'
}

/// Scans the digit run at `i` and accumulates its value, reporting whether
/// the value exceeded `2^63`.
fn scan_digits(s: &str, i: usize, len: usize) -> (r: (usize, u64, bool))
    requires
        len == s@.len(),
        i <= len,
    ensures
        r.0 == digits_end(s@, i as int),
        i <= r.0 <= len,
        !r.2 ==> r.1 as int == digits_val(s@, i as int, r.0 as int) && r.1
            <= 9223372036854775808u64,
        r.2 ==> digits_val(s@, i as int, r.0 as int) > 9223372036854775808,
        i < len && is_digit(s@[i as int]) ==> r.0 > i,
{
    let mut k: usize = i;
    let mut mag: u64 = 0;
    let mut over: bool = false;
    while k < len && is_digit_x(s.get_char(k))
        invariant
            len == s@.len(),
            i <= k <= len,
            digits_end(s@, i as int) == digits_end(s@, k as int),
            !over ==> mag as int == digits_val(s@, i as int, k as int) && mag
                <= 9223372036854775808u64,
            over ==> digits_val(s@, i as int, k as int) > 9223372036854775808,
        decreases len - k,
    {
        let d: u64 = (s.get_char(k) as u8 - 48) as u64;
        proof {
            assert(is_digit(s@[k as int]));
            assert(d as int == digit_val(s@[k as int]));
            assert(digits_val(s@, i as int, k as int + 1) == digits_val(s@, i as int, k as int)
                * 10 + d);
        }
        if over {
            proof {
                assert(digits_val(s@, i as int, k as int) * 10 >= digits_val(
                    s@,
                    i as int,
                    k as int,
                ));
                assert(digits_val(s@, i as int, k as int + 1) > 9223372036854775808);
            }
        } else {
            let nv: u128 = mag as u128 * 10 + d as u128;
            if nv > 9223372036854775808u128 {
                over = true;
            } else {
                mag = nv as u64;
            }
        }
        k = k + 1;
    }
    proof {
        if k < len {
            assert(!is_digit(s@[k as int]));
        }
        assert(digits_end(s@, k as int) == k as int);
    }
    (k, mag, over)
}

/// Parses an integer at `i`: the executable form of `parse_int`.
fn parse_int_x(s: &str, i: usize, len: usize) -> (r: Option<(JsonValue, usize)>)
    requires
        len == s@.len(),
        i < len,
        s@[i as int] == '-' || is_digit(s@[i as int]),
    ensures
        match r {
            Some(p) => parse_int(s@, i as int) == Some((p.0@, p.1 as int)) && i < p.1 <= len,
            None => parse_int(s@, i as int) is None,
        },
{
    if s.get_char(i) == '-' {
        let (j, mag, over) = scan_digits(s, i + 1, len);
        if j == i + 1 {
            None
        } else if over || mag > 9223372036854775808u64 {
            proof {
                assert(digits_val(s@, i as int + 1, j as int) > 9223372036854775808);
            }
            None
        } else {
            let v: i64 = if mag == 9223372036854775808u64 {
                i64::MIN
            } else {
                -(mag as i64)
            };
            proof {
                assert(v as int == -digits_val(s@, i as int + 1, j as int));
            }
            Some((JsonValue::Int(v), j))
        }
    } else {
        let (j, mag, over) = scan_digits(s, i, len);
        if over || mag > 9223372036854775807u64 {
            None
        } else {
            Some((JsonValue::Int(mag as i64), j))
        }
    }
}

/// Parses a string literal body: the executable form of `parse_str_body`.
fn parse_str_body_x(s: &str, i: usize, len: usize) -> (r: Option<(String, usize)>)
    requires
        len == s@.len(),
        i <= len,
    ensures
        match r {
            Some(p) => parse_str_body(s@, i as int) == Some((p.0@, p.1 as int)) && i < p.1 <= len,
            None => parse_str_body(s@, i as int) is None,
        },
    decreases len - i,
{
    if i >= len {
        return None;
    }
    let c = s.get_char(i);
    if c == '"' {
        Some((String::new(), i + 1))
    } else if c == '\\' {
        if i + 1 < len {
            let e = s.get_char(i + 1);
            let dec: Option<char> = if e == '"' {
                Some('"')
            } else if e == '\\' {
                Some('\\')
            } else if e == 'n' {
                Some('\n')
            } else if e == 'r' {
                Some('\r')
            } else if e == 't' {
                Some('\t')
            } else {
                None
            };
            match dec {
                Some(dc) => match parse_str_body_x(s, i + 2, len) {
                    Some((rest, j)) => {
                        let mut out = String::new();
                        push_char(&mut out, dc);
                        out.append(rest.as_str());
                        proof {
                            assert(out@ =~= seq![dc] + rest@);
                        }
                        Some((out, j))
                    },
                    None => None,
                },
                None => None,
            }
        } else {
            None
        }
    } else {
        match parse_str_body_x(s, i + 1, len) {
            Some((rest, j)) => {
                let mut out = String::new();
                push_char(&mut out, c);
                out.append(rest.as_str());
                proof {
                    assert(out@ =~= seq![c] + rest@);
                }
                Some((out, j))
            },
            None => None,
        }
    }
}

/// Parses a document at `i`: the executable form of `parse_val`.
fn parse_val_x(s: &str, i: usize, len: usize) -> (r: Option<(JsonValue, usize)>)
    requires
        len == s@.len(),
        i <= len,
    ensures
        match r {
            Some(p) => parse_val(s@, i as int) == Some((p.0@, p.1 as int)) && i < p.1 <= len,
            None => parse_val(s@, i as int) is None,
        },
    decreases len - i, 2int,
{
    if i >= len {
        return None;
    }
    let c = s.get_char(i);
    if c == 'n' {
        if len - i >= 4 && s.get_char(i + 1) == 'u' && s.get_char(i + 2) == 'l' && s.get_char(
            i + 3,
        ) == 'l' {
            Some((JsonValue::Null, i + 4))
        } else {
            None
        }
    } else if c == 't' {
        if len - i >= 4 && s.get_char(i + 1) == 'r' && s.get_char(i + 2) == 'u' && s.get_char(
            i + 3,
        ) == 'e' {
            Some((JsonValue::Bool(true), i + 4))
        } else {
            None
        }
    } else if c == 'f' {
        if len - i >= 5 && s.get_char(i + 1) == 'a' && s.get_char(i + 2) == 'l' && s.get_char(
            i + 3,
        ) == 's' && s.get_char(i + 4) == 'e' {
            Some((JsonValue::Bool(false), i + 5))
        } else {
            None
        }
    } else if c == '-' || ('0' <= c && c <= '9') {
        parse_int_x(s, i, len)
    } else if c == '"' {
        match parse_str_body_x(s, i + 1, len) {
            Some((cs, j)) => Some((JsonValue::Str(cs), j)),
            None => None,
        }
    } else if c == '[' {
        if i + 1 < len && s.get_char(i + 1) == ']' {
            proof {
                assert(jv_elems(Seq::<JsonValue>::empty()) =~= Seq::<JsonVal>::empty());
            }
            Some((JsonValue::Arr(Vec::new()), i + 2))
        } else {
            match parse_elems_x(s, i + 1, len) {
                Some((vs, j)) => Some((JsonValue::Arr(vs), j)),
                None => None,
            }
        }
    } else if c == '{' {
        if i + 1 < len && s.get_char(i + 1) == '}' {
            proof {
                assert(jv_fields(Seq::<(String, JsonValue)>::empty()) =~= Seq::<
                    (Seq<char>, JsonVal),
                >::empty());
            }
            Some((JsonValue::Obj(Vec::new()), i + 2))
        } else {
            match parse_members_x(s, i + 1, len) {
                Some((fs, j)) => Some((JsonValue::Obj(fs), j)),
                None => None,
            }
        }
    } else {
        None
    }
}

/// Parses the elements of a non-empty array: the executable form of
/// `parse_elems`.
fn parse_elems_x(s: &str, i: usize, len: usize) -> (r: Option<(Vec<JsonValue>, usize)>)
    requires
        len == s@.len(),
        i <= len,
    ensures
        match r {
            Some(p) => parse_elems(s@, i as int) == Some((jv_elems(p.0@), p.1 as int)) && i < p.1
                <= len,
            None => parse_elems(s@, i as int) is None,
        },
    decreases len - i, 3int,
{
    match parse_val_x(s, i, len) {
        Some((v, j)) => {
            if j >= len {
                return None;
            }
            let c = s.get_char(j);
            if c == ',' {
                match parse_elems_x(s, j + 1, len) {
                    Some((rest, m)) => {
                        let mut vs = rest;
                        vs.insert(0, v);
                        proof {
                            assert(jv_elems(vs@) =~= seq![v@] + jv_elems(vs@.drop_first()));
                        }
                        Some((vs, m))
                    },
                    None => None,
                }
            } else if c == ']' {
                let mut vs: Vec<JsonValue> = Vec::new();
                vs.push(v);
                proof {
                    assert(jv_elems(vs@) =~= seq![v@]);
                }
                Some((vs, j + 1))
            } else {
                None
            }
        },
        None => None,
    }
}

/// Parses the members of a non-empty object: the executable form of
/// `parse_members`.
fn parse_members_x(s: &str, i: usize, len: usize) -> (r: Option<(Vec<(String, JsonValue)>, usize)>)
    requires
        len == s@.len(),
        i <= len,
    ensures
        match r {
            Some(p) => parse_members(s@, i as int) == Some((jv_fields(p.0@), p.1 as int)) && i < p.1
                <= len,
            None => parse_members(s@, i as int) is None,
        },
    decreases len - i, 3int,
{
    if i >= len || s.get_char(i) != '"' {
        return None;
    }
    match parse_str_body_x(s, i + 1, len) {
        Some((key, j)) => {
            if j >= len || s.get_char(j) != ':' {
                return None;
            }
            match parse_val_x(s, j + 1, len) {
                Some((v, m)) => {
                    if m >= len {
                        return None;
                    }
                    let c = s.get_char(m);
                    if c == ',' {
                        match parse_members_x(s, m + 1, len) {
                            Some((rest, e)) => {
                                let mut fs = rest;
                                fs.insert(0, (key, v));
                                proof {
                                    assert(jv_fields(fs@) =~= seq![(fs@[0].0@, fs@[0].1@)]
                                        + jv_fields(fs@.drop_first()));
                                }
                                Some((fs, e))
                            },
                            None => None,
                        }
                    } else if c == '}' {
                        let mut fs: Vec<(String, JsonValue)> = Vec::new();
                        fs.push((key, v));
                        proof {
                            assert(jv_fields(fs@) =~= seq![(fs@[0].0@, fs@[0].1@)]);
                        }
                        Some((fs, m + 1))
                    } else {
                        None
                    }
                },
                None => None,
            }
        },
        None => None,
    }
}

/// Parses a whole document from its compact JSON text.
pub fn from_json(s: &str) -> (r: Option<JsonValue>)
    ensures
        match r {
            Some(v) => parse_doc(s@) == Some(v@),
            None => parse_doc(s@) is None,
        },
{
    let len = s.unicode_len();
    match parse_val_x(s, 0, len) {
        Some((v, j)) => if j == len {
            Some(v)
        } else {
            None
        },
        None => None,
    }
}

} // verus!


// ---------------------------------------------------------------------------
// The round trip: parsing inverts serialization.
// ---------------------------------------------------------------------------

verus! {

/// A window of `s` equal to `w` makes every sub-window of `s` equal to the
/// matching part of `w`.
proof fn lemma_subrange_shift(s: Seq<char>, p: int, w: Seq<char>, a: int, b: int)
    requires
        0 <= p,
        p + w.len() <= s.len(),
        s.subrange(p, p + w.len()) == w,
        0 <= a <= b <= w.len(),
    ensures
        s.subrange(p + a, p + b) == w.subrange(a, b),
{
    assert forall|m: int| 0 <= m < b - a implies s.subrange(p + a, p + b)[m] == w.subrange(
        a,
        b,
    )[m] by {
        assert(s.subrange(p, p + w.len())[a + m] == w[a + m]);
    }
    assert(s.subrange(p + a, p + b) =~= w.subrange(a, b));
}

/// A window of `s` equal to `w` pins each character of the window.
proof fn lemma_index_at(s: Seq<char>, p: int, w: Seq<char>, a: int)
    requires
        0 <= p,
        p + w.len() <= s.len(),
        s.subrange(p, p + w.len()) == w,
        0 <= a < w.len(),
    ensures
        s[p + a] == w[a],
{
    assert(s.subrange(p, p + w.len())[a] == w[a]);
}

proof fn lemma_dec_digits_props(n: nat)
    ensures
        dec_digits(n).len() >= 1,
        forall|k: int| 0 <= k < dec_digits(n).len() ==> is_digit(#[trigger] dec_digits(n)[k]),
    decreases n,
{
    if n < 10 {
        assert(is_digit(digit_char(n as int)));
    } else {
        lemma_dec_digits_props(n / 10);
        assert(is_digit(digit_char((n % 10) as int)));
        assert forall|k: int| 0 <= k < dec_digits(n).len() implies is_digit(
            #[trigger] dec_digits(n)[k],
        ) by {
            if k < dec_digits(n / 10).len() {
                assert(dec_digits(n)[k] == dec_digits(n / 10)[k]);
            } else {
                assert(dec_digits(n)[k] == digit_char((n % 10) as int));
            }
        }
    }
}

proof fn lemma_digits_end_run(s: Seq<char>, p: int, q: int)
    requires
        0 <= p <= q <= s.len(),
        forall|m: int| p <= m < q ==> is_digit(#[trigger] s[m]),
        q == s.len() || !is_digit(s[q]),
    ensures
        digits_end(s, p) == q,
    decreases q - p,
{
    if p == q {
    } else {
        lemma_digits_end_run(s, p + 1, q);
    }
}

proof fn lemma_digits_val_of_dec(s: Seq<char>, p: int, n: nat)
    requires
        0 <= p,
        p + dec_digits(n).len() <= s.len(),
        s.subrange(p, p + dec_digits(n).len()) == dec_digits(n),
    ensures
        digits_val(s, p, p + dec_digits(n).len()) == n,
    decreases n,
{
    let w = dec_digits(n);
    if n < 10 {
        lemma_index_at(s, p, w, 0);
        assert(s[p] == digit_char(n as int));
        assert(digit_val(digit_char(n as int)) == n);
        assert(digits_val(s, p, p) == 0);
        assert(digits_val(s, p, p + 1) == digits_val(s, p, p) * 10 + digit_val(s[p]));
    } else {
        let w0 = dec_digits(n / 10);
        assert(w == w0 + seq![digit_char((n % 10) as int)]);
        lemma_subrange_shift(s, p, w, 0, w0.len() as int);
        assert(w.subrange(0, w0.len() as int) =~= w0);
        lemma_digits_val_of_dec(s, p, n / 10);
        lemma_index_at(s, p, w, w.len() - 1);
        assert(w[w.len() - 1] == digit_char((n % 10) as int));
        assert(digit_val(digit_char((n % 10) as int)) == n % 10);
        assert(digits_val(s, p, p + w.len()) == digits_val(s, p, p + w.len() - 1) * 10
            + digit_val(s[p + w.len() - 1]));
        assert(digits_val(s, p, p + w0.len()) == n / 10);
        assert((n / 10) * 10 + n % 10 == n);
    }
}

proof fn lemma_esc_str_first(cs: Seq<char>)
    requires
        cs.len() >= 1,
    ensures
        esc_str(cs) == esc_char(cs[0]) + esc_str(cs.drop_first()),
    decreases cs.len(),
{
    if cs.len() == 1 {
        assert(cs.drop_last() =~= Seq::<char>::empty());
        assert(cs.drop_first() =~= Seq::<char>::empty());
        assert(esc_str(cs) =~= esc_char(cs[0]) + esc_str(cs.drop_first()));
    } else {
        let head = cs.drop_last();
        lemma_esc_str_first(head);
        assert(head[0] == cs[0]);
        assert(head.drop_first() =~= cs.drop_first().drop_last());
        assert(cs.drop_first().last() == cs.last());
        assert(esc_str(cs) == esc_str(head) + esc_char(cs.last()));
        assert(esc_str(cs.drop_first()) == esc_str(cs.drop_first().drop_last()) + esc_char(
            cs.drop_first().last(),
        ));
        assert(esc_str(cs) =~= esc_char(cs[0]) + esc_str(cs.drop_first()));
    }
}

proof fn lemma_rt_str_body(s: Seq<char>, p: int, cs: Seq<char>)
    requires
        0 <= p,
        p + esc_str(cs).len() + 1 <= s.len(),
        s.subrange(p, p + esc_str(cs).len()) == esc_str(cs),
        s[p + esc_str(cs).len()] == '"',
    ensures
        parse_str_body(s, p) == Some((cs, p + esc_str(cs).len() + 1)),
    decreases cs.len(),
{
    let w = esc_str(cs);
    if cs.len() == 0 {
        assert(s[p] == '"');
    } else {
        lemma_esc_str_first(cs);
        let e = esc_char(cs[0]);
        let tail = cs.drop_first();
        let wt = esc_str(tail);
        assert(w == e + wt);
        lemma_subrange_shift(s, p, w, e.len() as int, w.len() as int);
        assert(w.subrange(e.len() as int, w.len() as int) =~= wt);
        assert(p + e.len() + wt.len() == p + w.len());
        assert(s[p + e.len() + wt.len()] == '"');
        lemma_rt_str_body(s, p + e.len(), tail);
        if cs[0] == '"' || cs[0] == '\\' || cs[0] == '\n' || cs[0] == '\r' || cs[0] == '\t' {
            assert(e.len() == 2);
            lemma_index_at(s, p, w, 0);
            lemma_index_at(s, p, w, 1);
            assert(s[p] == '\\');
            assert(s[p + 1] == e[1]);
            assert(unesc(s[p + 1]) == Some(cs[0]));
            assert(seq![cs[0]] + tail =~= cs);
            assert(parse_str_body(s, p) == Some((cs, p + w.len() + 1)));
        } else {
            assert(e.len() == 1);
            lemma_index_at(s, p, w, 0);
            assert(s[p] == cs[0]);
            assert(s[p] != '"' && s[p] != '\\');
            assert(seq![s[p]] + tail =~= cs);
            assert(parse_str_body(s, p) == Some((cs, p + w.len() + 1)));
        }
    }
}

/// The characters a serialized value can start with.
pub open spec fn is_value_start(c: char) -> bool {
    c == 'n' || c == 't' || c == 'f' || c == '-' || is_digit(c) || c == '"' || c == '[' || c == '{'
}

proof fn lemma_ser_len_first(v: JsonVal)
    ensures
        ser_val(v).len() >= 1,
        is_value_start(ser_val(v)[0]),
{
    match v {
        JsonVal::Int(i) => {
            if i < 0 {
                lemma_dec_digits_props((-i) as nat);
            } else {
                lemma_dec_digits_props(i as nat);
                assert(ser_val(v)[0] == dec_digits(i as nat)[0]);
            }
        },
        _ => {},
    }
}

proof fn lemma_rt_int(s: Seq<char>, p: int, v: JsonVal)
    requires
        wf_val(v),
        v is Int,
        0 <= p,
        p + ser_val(v).len() <= s.len(),
        s.subrange(p, p + ser_val(v).len()) == ser_val(v),
        p + ser_val(v).len() == s.len() || !is_digit(s[p + ser_val(v).len()]),
    ensures
        parse_int(s, p) == Some((v, p + ser_val(v).len())),
{
    let i = v->Int_0;
    let w = ser_val(v);
    if i < 0 {
        let d = dec_digits((-i) as nat);
        lemma_dec_digits_props((-i) as nat);
        assert(w == seq!['-'] + d);
        lemma_index_at(s, p, w, 0);
        assert(s[p] == '-');
        assert forall|m: int| p + 1 <= m < p + w.len() implies is_digit(#[trigger] s[m]) by {
            lemma_index_at(s, p, w, m - p);
            assert(w[m - p] == d[m - p - 1]);
        }
        lemma_digits_end_run(s, p + 1, p + w.len());
        lemma_subrange_shift(s, p, w, 1, w.len() as int);
        assert(w.subrange(1, w.len() as int) =~= d);
        lemma_digits_val_of_dec(s, p + 1, (-i) as nat);
        assert(digits_val(s, p + 1, p + w.len()) == -i);
        assert(-digits_val(s, p + 1, p + w.len()) >= i64::MIN as int);
        assert(digits_end(s, p + 1) == p + w.len());
        assert(p + w.len() != p + 1) by {
            assert(d.len() >= 1);
        }
    } else {
        let d = dec_digits(i as nat);
        lemma_dec_digits_props(i as nat);
        assert(w == d);
        assert forall|m: int| p <= m < p + w.len() implies is_digit(#[trigger] s[m]) by {
            lemma_index_at(s, p, w, m - p);
        }
        lemma_index_at(s, p, w, 0);
        assert(is_digit(s[p]));
        assert(s[p] != '-');
        lemma_digits_end_run(s, p, p + w.len());
        lemma_digits_val_of_dec(s, p, i as nat);
        assert(digits_val(s, p, p + w.len()) == i);
        assert(digits_end(s, p) == p + w.len());
        assert(p + w.len() != p);
    }
}

proof fn lemma_rt_val(s: Seq<char>, p: int, v: JsonVal)
    requires
        wf_val(v),
        0 <= p,
        p + ser_val(v).len() <= s.len(),
        s.subrange(p, p + ser_val(v).len()) == ser_val(v),
        p + ser_val(v).len() == s.len() || !is_digit(s[p + ser_val(v).len()]),
    ensures
        parse_val(s, p) == Some((v, p + ser_val(v).len())),
    decreases v, 0int,
{
    let w = ser_val(v);
    lemma_ser_len_first(v);
    lemma_index_at(s, p, w, 0);
    match v {
        JsonVal::Null => {
            lemma_index_at(s, p, w, 1);
            lemma_index_at(s, p, w, 2);
            lemma_index_at(s, p, w, 3);
        },
        JsonVal::Bool(b) => {
            lemma_index_at(s, p, w, 1);
            lemma_index_at(s, p, w, 2);
            lemma_index_at(s, p, w, 3);
            if !b {
                lemma_index_at(s, p, w, 4);
            }
        },
        JsonVal::Int(i) => {
            lemma_rt_int(s, p, v);
        },
        JsonVal::Str(cs) => {
            assert(s[p] == '"');
            assert(w == seq!['"'] + esc_str(cs) + seq!['"']);
            lemma_subrange_shift(s, p, w, 1, 1 + esc_str(cs).len() as int);
            assert(w.subrange(1, 1 + esc_str(cs).len() as int) =~= esc_str(cs));
            lemma_index_at(s, p, w, w.len() - 1);
            assert(s[p + 1 + esc_str(cs).len() as int] == '"');
            lemma_rt_str_body(s, p + 1, cs);
        },
        JsonVal::Arr(elems) => {
            assert(s[p] == '[');
            if elems.len() == 0 {
                lemma_index_at(s, p, w, 1);
                assert(s[p + 1] == ']');
                assert(elems =~= Seq::<JsonVal>::empty());
            } else {
                let body = ser_elems(elems, 0);
                assert(w == seq!['['] + body + seq![']']);
                lemma_ser_len_first(elems[0]);
                assert(body[0] == ser_val(elems[0])[0]);
                lemma_index_at(s, p, w, 1);
                assert(s[p + 1] == body[0]);
                assert(s[p + 1] != ']');
                lemma_subrange_shift(s, p, w, 1, 1 + body.len() as int);
                assert(w.subrange(1, 1 + body.len() as int) =~= body);
                lemma_index_at(s, p, w, w.len() - 1);
                assert(s[p + 1 + body.len() as int] == ']');
                lemma_rt_elems(s, p + 1, elems, 0);
                assert(elems.skip(0) =~= elems);
            }
        },
        JsonVal::Obj(fields) => {
            assert(s[p] == '{');
            if fields.len() == 0 {
                lemma_index_at(s, p, w, 1);
                assert(s[p + 1] == '}');
                assert(fields =~= Seq::<(Seq<char>, JsonVal)>::empty());
            } else {
                let body = ser_members(fields, 0);
                assert(w == seq!['{'] + body + seq!['}']);
                assert(ser_member(fields[0])[0] == '"');
                assert(body[0] == ser_member(fields[0])[0]);
                lemma_index_at(s, p, w, 1);
                assert(s[p + 1] == '"');
                assert(s[p + 1] != '}');
                lemma_subrange_shift(s, p, w, 1, 1 + body.len() as int);
                assert(w.subrange(1, 1 + body.len() as int) =~= body);
                lemma_index_at(s, p, w, w.len() - 1);
                assert(s[p + 1 + body.len() as int] == '}');
                lemma_rt_members(s, p + 1, fields, 0);
                assert(fields.skip(0) =~= fields);
            }
        },
    }
}

proof fn lemma_rt_elems(s: Seq<char>, p: int, elems: Seq<JsonVal>, k: int)
    requires
        forall|m: int| 0 <= m < elems.len() ==> wf_val(#[trigger] elems[m]),
        0 <= k < elems.len(),
        0 <= p,
        p + ser_elems(elems, k).len() < s.len(),
        s.subrange(p, p + ser_elems(elems, k).len()) == ser_elems(elems, k),
        s[p + ser_elems(elems, k).len()] == ']',
    ensures
        parse_elems(s, p) == Some((elems.skip(k), p + ser_elems(elems, k).len() + 1)),
    decreases elems, elems.len() - k,
{
    let w = ser_elems(elems, k);
    let sv = ser_val(elems[k]);
    lemma_ser_len_first(elems[k]);
    if k == elems.len() - 1 {
        assert(w == sv);
        lemma_rt_val(s, p, elems[k]);
        let q = p + sv.len();
        assert(s[q] == ']');
        assert(seq![elems[k]] =~= elems.skip(k));
    } else {
        let rest = ser_elems(elems, k + 1);
        assert(w == sv + seq![','] + rest);
        lemma_subrange_shift(s, p, w, 0, sv.len() as int);
        assert(w.subrange(0, sv.len() as int) =~= sv);
        let q = p + sv.len();
        lemma_index_at(s, p, w, sv.len() as int);
        assert(s[q] == ',');
        assert(!is_digit(','));
        lemma_rt_val(s, p, elems[k]);
        lemma_subrange_shift(s, p, w, sv.len() as int + 1, w.len() as int);
        assert(w.subrange(sv.len() as int + 1, w.len() as int) =~= rest);
        assert(s[q + 1 + rest.len()] == ']');
        lemma_rt_elems(s, q + 1, elems, k + 1);
        assert(seq![elems[k]] + elems.skip(k + 1) =~= elems.skip(k));
    }
}

proof fn lemma_rt_members(s: Seq<char>, p: int, fields: Seq<(Seq<char>, JsonVal)>, k: int)
    requires
        forall|m: int| 0 <= m < fields.len() ==> wf_val(#[trigger] fields[m].1),
        0 <= k < fields.len(),
        0 <= p,
        p + ser_members(fields, k).len() < s.len(),
        s.subrange(p, p + ser_members(fields, k).len()) == ser_members(fields, k),
        s[p + ser_members(fields, k).len()] == '}',
    ensures
        parse_members(s, p) == Some((fields.skip(k), p + ser_members(fields, k).len() + 1)),
    decreases fields, fields.len() - k,
{
    let w = ser_members(fields, k);
    let key = fields[k].0;
    let sm = ser_member(fields[k]);
    let sk = ser_str(key);
    let sv = ser_val(fields[k].1);
    lemma_ser_len_first(fields[k].1);
    assert(sm == sk + seq![':'] + sv);
    assert(sk == seq!['"'] + esc_str(key) + seq!['"']);
    let j = p + sk.len();
    let q = j + 1 + sv.len();
    if k == fields.len() - 1 {
        assert(w == sm);
        lemma_index_at(s, p, w, 0);
        assert(s[p] == '"');
        lemma_subrange_shift(s, p, w, 1, 1 + esc_str(key).len() as int);
        assert(w.subrange(1, 1 + esc_str(key).len() as int) =~= esc_str(key));
        lemma_index_at(s, p, w, 1 + esc_str(key).len() as int);
        assert(s[p + 1 + esc_str(key).len() as int] == '"');
        lemma_rt_str_body(s, p + 1, key);
        lemma_index_at(s, p, w, sk.len() as int);
        assert(s[j] == ':');
        lemma_subrange_shift(s, p, w, sk.len() as int + 1, w.len() as int);
        assert(w.subrange(sk.len() as int + 1, w.len() as int) =~= sv);
        assert(q == p + w.len());
        assert(s[q] == '}');
        lemma_rt_val(s, j + 1, fields[k].1);
        assert(seq![(key, fields[k].1)] =~= fields.skip(k));
        assert((key, fields[k].1) == fields[k]);
    } else {
        let rest = ser_members(fields, k + 1);
        assert(w == sm + seq![','] + rest);
        lemma_index_at(s, p, w, 0);
        assert(s[p] == '"');
        lemma_subrange_shift(s, p, w, 1, 1 + esc_str(key).len() as int);
        assert(w.subrange(1, 1 + esc_str(key).len() as int) =~= esc_str(key));
        lemma_index_at(s, p, w, 1 + esc_str(key).len() as int);
        assert(s[p + 1 + esc_str(key).len() as int] == '"');
        lemma_rt_str_body(s, p + 1, key);
        lemma_index_at(s, p, w, sk.len() as int);
        assert(s[j] == ':');
        lemma_subrange_shift(s, p, w, sk.len() as int + 1, sm.len() as int);
        assert(w.subrange(sk.len() as int + 1, sm.len() as int) =~= sv);
        lemma_index_at(s, p, w, sm.len() as int);
        assert(s[q] == ',');
        lemma_rt_val(s, j + 1, fields[k].1);
        lemma_subrange_shift(s, p, w, sm.len() as int + 1, w.len() as int);
        assert(w.subrange(sm.len() as int + 1, w.len() as int) =~= rest);
        assert(s[q + 1 + rest.len()] == '}');
        lemma_rt_members(s, q + 1, fields, k + 1);
        assert(seq![(key, fields[k].1)] + fields.skip(k + 1) =~= fields.skip(k));
        assert((key, fields[k].1) == fields[k]);
    }
}

/// The codec's round trip: parsing a serialized document yields the
/// document back, for every document whose integers fit in 64 bits.
pub proof fn lemma_parse_of_ser(v: JsonVal)
    requires
        wf_val(v),
    ensures
        parse_doc(ser_val(v)) == Some(v),
{
    let s = ser_val(v);
    lemma_ser_len_first(v);
    assert(s.subrange(0, s.len() as int) =~= s);
    lemma_rt_val(s, 0, v);
}

} // verus!

// ---------------------------------------------------------------------------
// Working with documents: duplication, field lookup, integer text.
// ---------------------------------------------------------------------------

verus! {

/// The value under `key` in a member list: the first match wins.
pub open spec fn lookup_obj(fields: Seq<(Seq<char>, JsonVal)>, key: Seq<char>) -> Option<JsonVal>
    decreases fields.len(),
{
    if fields.len() == 0 {
        None
    } else if fields[0].0 == key {
        Some(fields[0].1)
    } else {
        lookup_obj(fields.drop_first(), key)
    }
}

/// The value under `key` when the document is an object.
pub open spec fn get_field_spec(v: JsonVal, key: Seq<char>) -> Option<JsonVal> {
    match v {
        JsonVal::Obj(fields) => lookup_obj(fields, key),
        _ => None,
    }
}

/// Looks a key up in a document; `None` when the document is not an object
/// or has no such member.
pub fn get_field<'a>(v: &'a JsonValue, key: &str) -> (r: Option<&'a JsonValue>)
    ensures
        match r {
            Some(f) => get_field_spec(v@, key@) == Some(f@),
            None => get_field_spec(v@, key@) is None,
        },
{
    match v {
        JsonValue::Obj(fields) => {
            let ghost all = jv_fields(fields@);
            proof {
                assert(v@ =~= JsonVal::Obj(all));
                assert(all.skip(0) =~= all);
            }
            let mut i: usize = 0;
            while i < fields.len()
                invariant
                    all == jv_fields(fields@),
                    v@ == JsonVal::Obj(all),
                    i <= fields@.len(),
                    lookup_obj(all, key@) == lookup_obj(all.skip(i as int), key@),
                decreases fields@.len() - i,
            {
                proof {
                    assert(all.skip(i as int)[0] == all[i as int]);
                    assert(all.skip(i as int).drop_first() =~= all.skip(i as int + 1));
                }
                if crate::strutil::str_eq(fields[i].0.as_str(), key) {
                    proof {
                        assert(all[i as int] == (fields@[i as int].0@, fields@[i as int].1@));
                        assert(all[i as int].0 == key@);
                        assert(lookup_obj(all.skip(i as int), key@) == Some(all[i as int].1));
                        assert(get_field_spec(v@, key@) == lookup_obj(all, key@));
                        assert(fields@[i as int].1@ == all[i as int].1);
                    }
                    return Some(&fields[i].1);
                }
                i = i + 1;
            }
            proof {
                assert(all.skip(fields@.len() as int) =~= Seq::<(Seq<char>, JsonVal)>::empty());
            }
            None
        },
        _ => None,
    }
}

/// Looks a key up and takes it as a string; `None` when absent or of
/// another shape.
pub fn get_str_field<'a>(v: &'a JsonValue, key: &str) -> (r: Option<&'a String>)
    ensures
        match r {
            Some(s) => get_field_spec(v@, key@) == Some(JsonVal::Str(s@)),
            None => !(get_field_spec(v@, key@) matches Some(f) && f is Str),
        },
{
    match get_field(v, key) {
        Some(f) => match f {
            JsonValue::Str(s) => Some(s),
            _ => None,
        },
        None => None,
    }
}

/// A deep copy of a document.
pub fn dup_value(v: &JsonValue) -> (r: JsonValue)
    ensures
        r@ == v@,
    decreases v,
{
    match v {
        JsonValue::Null => JsonValue::Null,
        JsonValue::Bool(b) => JsonValue::Bool(*b),
        JsonValue::Int(i) => JsonValue::Int(*i),
        JsonValue::Str(s) => JsonValue::Str(String::from_str(s.as_str())),
        JsonValue::Arr(items) => {
            let out = dup_arr(items, 0);
            proof {
                assert(jv_elems(items@).skip(0) =~= jv_elems(items@));
            }
            JsonValue::Arr(out)
        },
        JsonValue::Obj(fields) => {
            let out = dup_obj(fields, 0);
            proof {
                assert(jv_fields(fields@).skip(0) =~= jv_fields(fields@));
            }
            JsonValue::Obj(out)
        },
    }
}

#[verifier::rlimit(50)]
fn dup_arr(items: &Vec<JsonValue>, k: usize) -> (r: Vec<JsonValue>)
    requires
        k <= items@.len(),
    ensures
        jv_elems(r@) == jv_elems(items@).skip(k as int),
    decreases items, items@.len() - k + 1,
{
    if k == items.len() {
        let r: Vec<JsonValue> = Vec::new();
        proof {
            assert(jv_elems(r@) =~= jv_elems(items@).skip(k as int));
        }
        r
    } else {
        let mut rest = dup_arr(items, k + 1);
        let ghost tail = rest@;
        let x = dup_value(&items[k]);
        rest.insert(0, x);
        proof {
            broadcast use vstd::seq_lib::lemma_seq_skip_len, vstd::seq_lib::lemma_seq_skip_index;

            tail.insert_ensures(0, x);
            assert(jv_elems(tail) == jv_elems(items@).skip(k as int + 1));
            assert(jv_elems(items@).skip(k as int + 1).len() == jv_elems(items@).len() - (k + 1));
            assert(jv_elems(items@).skip(k as int).len() == jv_elems(items@).len() - k);
            assert(tail.len() == jv_elems(items@).len() - (k + 1));
            assert_seqs_equal!(jv_elems(rest@) == jv_elems(items@).skip(k as int), m => {
                if m == 0 {
                    assert(rest@[0] == x);
                } else {
                    assert(rest@ == tail.insert(0, x));
                    assert(tail.insert(0, x)[(m - 1) + 1] == tail[m - 1]);
                    assert(rest@[m] == tail[m - 1]);
                    assert(jv_elems(rest@)[m] == rest@[m]@);
                    assert(jv_elems(tail)[m - 1] == tail[m - 1]@);
                    assert(jv_elems(items@).skip(k as int + 1)[m - 1] == jv_elems(items@)[k + m]);
                    assert(jv_elems(items@).skip(k as int)[m] == jv_elems(items@)[k + m]);
                }
            });
        }
        rest
    }
}

#[verifier::rlimit(50)]
fn dup_obj(fields: &Vec<(String, JsonValue)>, k: usize) -> (r: Vec<(String, JsonValue)>)
    requires
        k <= fields@.len(),
    ensures
        jv_fields(r@) == jv_fields(fields@).skip(k as int),
    decreases fields, fields@.len() - k + 1,
{
    if k == fields.len() {
        let r: Vec<(String, JsonValue)> = Vec::new();
        proof {
            assert(jv_fields(r@) =~= jv_fields(fields@).skip(k as int));
        }
        r
    } else {
        let mut rest = dup_obj(fields, k + 1);
        let ghost tail = rest@;
        let key = String::from_str(fields[k].0.as_str());
        let x = (key, dup_value(&fields[k].1));
        rest.insert(0, x);
        proof {
            broadcast use vstd::seq_lib::lemma_seq_skip_len, vstd::seq_lib::lemma_seq_skip_index;

            tail.insert_ensures(0, x);
            assert(jv_fields(tail) == jv_fields(fields@).skip(k as int + 1));
            assert(jv_fields(fields@).skip(k as int + 1).len() == jv_fields(fields@).len() - (k
                + 1));
            assert(jv_fields(fields@).skip(k as int).len() == jv_fields(fields@).len() - k);
            assert(tail.len() == jv_fields(fields@).len() - (k + 1));
            assert_seqs_equal!(jv_fields(rest@) == jv_fields(fields@).skip(k as int), m => {
                if m == 0 {
                    assert(rest@[0] == x);
                } else {
                    assert(rest@ == tail.insert(0, x));
                    assert(tail.insert(0, x)[(m - 1) + 1] == tail[m - 1]);
                    assert(rest@[m] == tail[m - 1]);
                    assert(jv_fields(rest@)[m] == (rest@[m].0@, rest@[m].1@));
                    assert(jv_fields(tail)[m - 1] == (tail[m - 1].0@, tail[m - 1].1@));
                    assert(jv_fields(fields@).skip(k as int + 1)[m - 1] == jv_fields(fields@)[k
                        + m]);
                    assert(jv_fields(fields@).skip(k as int)[m] == jv_fields(fields@)[k + m]);
                }
            });
        }
        rest
    }
}

/// The decimal text of an integer.
pub fn int_to_string(i: i64) -> (s: String)
    ensures
        s@ == ser_int(i as int),
{
    let mut s = String::new();
    write_int(&mut s, i);
    s
}

} // verus!


// ---------------------------------------------------------------------------
// Small object builders.
// ---------------------------------------------------------------------------

verus! {

/// A document holding one string.
pub fn str_val(s: &str) -> (r: JsonValue)
    ensures
        r@ == JsonVal::Str(s@),
{
    JsonValue::Str(String::from_str(s))
}

/// An object of one member.
pub fn obj1(k1: &str, v1: JsonValue) -> (r: JsonValue)
    ensures
        r@ == JsonVal::Obj(seq![(k1@, v1@)]),
{
    let ghost v1v = v1@;
    let mut fields: Vec<(String, JsonValue)> = Vec::new();
    fields.push((String::from_str(k1), v1));
    proof {
        assert(fields@[0].0@ == k1@);
        assert(fields@[0].1@ == v1v);
        assert(jv_fields(fields@) =~= seq![(k1@, v1v)]);
    }
    JsonValue::Obj(fields)
}

/// An object of two members.
pub fn obj2(k1: &str, v1: JsonValue, k2: &str, v2: JsonValue) -> (r: JsonValue)
    ensures
        r@ == JsonVal::Obj(seq![(k1@, v1@), (k2@, v2@)]),
{
    let ghost v1v = v1@;
    let ghost v2v = v2@;
    let mut fields: Vec<(String, JsonValue)> = Vec::new();
    fields.push((String::from_str(k1), v1));
    fields.push((String::from_str(k2), v2));
    proof {
        assert(fields@[0].0@ == k1@);
        assert(fields@[0].1@ == v1v);
        assert(fields@[1].0@ == k2@);
        assert(fields@[1].1@ == v2v);
        assert(jv_fields(fields@) =~= seq![(k1@, v1v), (k2@, v2v)]);
    }
    JsonValue::Obj(fields)
}

/// An object of three members.
pub fn obj3(k1: &str, v1: JsonValue, k2: &str, v2: JsonValue, k3: &str, v3: JsonValue) -> (r:
    JsonValue)
    ensures
        r@ == JsonVal::Obj(seq![(k1@, v1@), (k2@, v2@), (k3@, v3@)]),
{
    let ghost v1v = v1@;
    let ghost v2v = v2@;
    let ghost v3v = v3@;
    let mut fields: Vec<(String, JsonValue)> = Vec::new();
    fields.push((String::from_str(k1), v1));
    fields.push((String::from_str(k2), v2));
    fields.push((String::from_str(k3), v3));
    proof {
        assert(fields@[0].0@ == k1@);
        assert(fields@[0].1@ == v1v);
        assert(fields@[1].0@ == k2@);
        assert(fields@[1].1@ == v2v);
        assert(fields@[2].0@ == k3@);
        assert(fields@[2].1@ == v3v);
        assert(jv_fields(fields@) =~= seq![(k1@, v1v), (k2@, v2v), (k3@, v3v)]);
    }
    JsonValue::Obj(fields)
}

} // verus!
