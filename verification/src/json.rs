//! The wire grammar: a restricted JSON shape, one object per line.
//!
//! A wire object is a JSON object whose member values are scalars (string,
//! unsigned integer, boolean, null) or one further object of scalars; this
//! is exactly the depth the event messages need. String escapes cover `\"`,
//! `\\`, `\/`, `\n`, `\t`, `\r`, `\b`, `\f` and `\u00XX`; the printer
//! escapes `"`, `\` and control characters, and emits nothing deeper.
//!
//! Both directions are specified against the same grammar functions, and
//! parsing a printed object is proved to give the object back.

use vstd::prelude::*;
use crate::text::{spec_is_digit, spec_digit_val, spec_digit_char, spec_decimal, spec_digits_val};

verus! {

/// A scalar member value.
#[derive(Debug, Clone)]
pub enum Scalar {
    Null,
    Bool(bool),
    Num(u64),
    Text(String),
}

/// Mathematical image of a `Scalar`.
pub enum ScalarView {
    Null,
    Bool(bool),
    Num(u64),
    Text(Seq<char>),
}

impl View for Scalar {
    type V = ScalarView;

    open spec fn view(&self) -> ScalarView {
        match self {
            Scalar::Null => ScalarView::Null,
            Scalar::Bool(b) => ScalarView::Bool(*b),
            Scalar::Num(n) => ScalarView::Num(*n),
            Scalar::Text(s) => ScalarView::Text(s@),
        }
    }
}

/// A top-level member value: a scalar or one nested object of scalars.
#[derive(Debug, Clone)]
pub enum Field {
    Scalar(Scalar),
    Object(Vec<(String, Scalar)>),
}

/// Mathematical image of a `Field`.
pub enum FieldView {
    Scalar(ScalarView),
    Object(Seq<(Seq<char>, ScalarView)>),
}

/// The image of a nested object's members.
pub open spec fn view_inner(v: Seq<(String, Scalar)>) -> Seq<(Seq<char>, ScalarView)> {
    v.map_values(|p: (String, Scalar)| (p.0@, p.1@))
}

impl View for Field {
    type V = FieldView;

    open spec fn view(&self) -> FieldView {
        match self {
            Field::Scalar(s) => FieldView::Scalar(s@),
            Field::Object(ms) => FieldView::Object(view_inner(ms@)),
        }
    }
}

/// The image of a top-level object's members.
pub open spec fn view_top(v: Seq<(String, Field)>) -> Seq<(Seq<char>, FieldView)> {
    v.map_values(|p: (String, Field)| (p.0@, p.1@))
}

// ------------------------------------------------------------------
// Printing
// ------------------------------------------------------------------

/// The lower-case hexadecimal digit with the given value.
pub open spec fn spec_hex_digit(d: nat) -> char
    recommends
        d < 16,
{
    if d < 10 {
        spec_digit_char(d)
    } else if d == 10 {
        'a'
    } else if d == 11 {
        'b'
    } else if d == 12 {
        'c'
    } else if d == 13 {
        'd'
    } else if d == 14 {
        'e'
    } else {
        'f'
    }
}

/// How one character is written inside a string literal.
pub open spec fn spec_esc_char(c: char) -> Seq<char> {
    if c == '"' {
        seq!['\\', '"']
    } else if c == '\\' {
        seq!['\\', '\\']
    } else if (c as u32) < 32 {
        seq!['\\', 'u', '0', '0', spec_hex_digit(((c as u32) / 16) as nat), spec_hex_digit(
            ((c as u32) % 16) as nat,
        )]
    } else {
        seq![c]
    }
}

/// How a string's characters are written inside a string literal.
pub open spec fn spec_esc(s: Seq<char>) -> Seq<char>
    decreases s.len(),
{
    if s.len() == 0 {
        Seq::empty()
    } else {
        spec_esc_char(s[0]) + spec_esc(s.drop_first())
    }
}

/// How a string member value is written: quoted and escaped.
pub open spec fn spec_print_text(s: Seq<char>) -> Seq<char> {
    seq!['"'] + spec_esc(s) + seq!['"']
}

/// How a scalar is written.
pub open spec fn spec_print_scalar(v: ScalarView) -> Seq<char> {
    match v {
        ScalarView::Null => "null"@,
        ScalarView::Bool(b) => if b {
            "true"@
        } else {
            "false"@
        },
        ScalarView::Num(n) => spec_decimal(n as nat),
        ScalarView::Text(s) => spec_print_text(s),
    }
}

/// How a nested object's members are written, comma-separated.
pub open spec fn spec_print_inner_members(ms: Seq<(Seq<char>, ScalarView)>) -> Seq<char>
    decreases ms.len(),
{
    if ms.len() == 0 {
        Seq::empty()
    } else if ms.len() == 1 {
        spec_print_text(ms[0].0) + seq![':'] + spec_print_scalar(ms[0].1)
    } else {
        spec_print_text(ms[0].0) + seq![':'] + spec_print_scalar(ms[0].1) + seq![',']
            + spec_print_inner_members(ms.drop_first())
    }
}

/// How a nested object is written.
pub open spec fn spec_print_inner(ms: Seq<(Seq<char>, ScalarView)>) -> Seq<char> {
    seq!['{'] + spec_print_inner_members(ms) + seq!['}']
}

/// How a top-level member value is written.
pub open spec fn spec_print_field(f: FieldView) -> Seq<char> {
    match f {
        FieldView::Scalar(v) => spec_print_scalar(v),
        FieldView::Object(ms) => spec_print_inner(ms),
    }
}

/// How a top-level object's members are written, comma-separated.
pub open spec fn spec_print_top_members(ms: Seq<(Seq<char>, FieldView)>) -> Seq<char>
    decreases ms.len(),
{
    if ms.len() == 0 {
        Seq::empty()
    } else if ms.len() == 1 {
        spec_print_text(ms[0].0) + seq![':'] + spec_print_field(ms[0].1)
    } else {
        spec_print_text(ms[0].0) + seq![':'] + spec_print_field(ms[0].1) + seq![',']
            + spec_print_top_members(ms.drop_first())
    }
}

/// How a whole wire object is written.
pub open spec fn spec_print_top(ms: Seq<(Seq<char>, FieldView)>) -> Seq<char> {
    seq!['{'] + spec_print_top_members(ms) + seq!['}']
}

// ------------------------------------------------------------------
// Parsing
// ------------------------------------------------------------------

/// Whitespace accepted between tokens.
pub open spec fn spec_is_ws(c: char) -> bool {
    c == ' ' || c == '\t' || c == '\n' || c == '\r'
}

/// The first index at or after `i` holding no whitespace.
pub open spec fn spec_ws_end(s: Seq<char>, i: int) -> int
    decreases s.len() - i,
{
    if 0 <= i < s.len() && spec_is_ws(s[i]) {
        spec_ws_end(s, i + 1)
    } else {
        i
    }
}

pub proof fn lemma_ws_end(s: Seq<char>, i: int)
    requires
        0 <= i <= s.len(),
    ensures
        i <= spec_ws_end(s, i) <= s.len(),
        spec_ws_end(s, i) < s.len() ==> !spec_is_ws(s[spec_ws_end(s, i)]),
    decreases s.len() - i,
{
    if i < s.len() && spec_is_ws(s[i]) {
        lemma_ws_end(s, i + 1);
    }
}

/// The value of a hexadecimal digit, either case.
pub open spec fn spec_hex_val(c: char) -> Option<nat> {
    if spec_is_digit(c) {
        Some(spec_digit_val(c))
    } else if 'a' <= c && c <= 'f' {
        Some((((c as u32) - ('a' as u32)) + 10) as nat)
    } else if 'A' <= c && c <= 'F' {
        Some((((c as u32) - ('A' as u32)) + 10) as nat)
    } else {
        None
    }
}

/// The character with the given code, for codes below 256.
pub open spec fn spec_char_of_code(n: nat) -> char
    recommends
        n < 256,
{
    (n as u8) as char
}

/// Parse the body of a string literal, starting just after the opening
/// quote; yields the unescaped content and the index after the closing
/// quote.
pub open spec fn spec_p_text_body(s: Seq<char>, i: int) -> Option<(Seq<char>, int)>
    decreases s.len() - i,
{
    if i < 0 || i >= s.len() {
        None
    } else if s[i] == '"' {
        Some((Seq::empty(), i + 1))
    } else if s[i] == '\\' {
        if i + 1 >= s.len() {
            None
        } else {
            let e = s[i + 1];
            if e == '"' || e == '\\' || e == '/' || e == 'n' || e == 't' || e == 'r' || e == 'b'
                || e == 'f' {
                let c = if e == 'n' {
                    '\n'
                } else if e == 't' {
                    '\t'
                } else if e == 'r' {
                    '\r'
                } else if e == 'b' {
                    spec_char_of_code(8)
                } else if e == 'f' {
                    spec_char_of_code(12)
                } else {
                    e
                };
                match spec_p_text_body(s, i + 2) {
                    Some(t) => Some((seq![c] + t.0, t.1)),
                    None => None,
                }
            } else if e == 'u' {
                if i + 6 > s.len() {
                    None
                } else {
                    match (spec_hex_val(s[i + 2]), spec_hex_val(s[i + 3]), spec_hex_val(s[i + 4]),
                        spec_hex_val(s[i + 5])) {
                        (Some(h1), Some(h2), Some(h3), Some(h4)) => {
                            let code = h1 * 4096 + h2 * 256 + h3 * 16 + h4;
                            if code < 256 {
                                match spec_p_text_body(s, i + 6) {
                                    Some(t) => Some((seq![spec_char_of_code(code)] + t.0, t.1)),
                                    None => None,
                                }
                            } else {
                                None
                            }
                        },
                        _ => None,
                    }
                }
            } else {
                None
            }
        }
    } else if (s[i] as u32) < 32 {
        None
    } else {
        match spec_p_text_body(s, i + 1) {
            Some(t) => Some((seq![s[i]] + t.0, t.1)),
            None => None,
        }
    }
}

/// Parse a string literal at `i`.
pub open spec fn spec_p_text(s: Seq<char>, i: int) -> Option<(Seq<char>, int)> {
    if 0 <= i < s.len() && s[i] == '"' {
        spec_p_text_body(s, i + 1)
    } else {
        None
    }
}

pub proof fn lemma_p_text_body_advances(s: Seq<char>, i: int)
    requires
        spec_p_text_body(s, i) is Some,
    ensures
        i < spec_p_text_body(s, i)->Some_0.1 <= s.len(),
    decreases s.len() - i,
{
    if s[i] == '"' {
    } else if s[i] == '\\' {
        let e = s[i + 1];
        if e == 'u' {
            lemma_p_text_body_advances(s, i + 6);
        } else {
            lemma_p_text_body_advances(s, i + 2);
        }
    } else {
        lemma_p_text_body_advances(s, i + 1);
    }
}

pub proof fn lemma_p_text_advances(s: Seq<char>, i: int)
    requires
        spec_p_text(s, i) is Some,
    ensures
        i + 1 < spec_p_text(s, i)->Some_0.1 <= s.len(),
{
    lemma_p_text_body_advances(s, i + 1);
}

/// The first index at or after `i` holding no decimal digit.
pub open spec fn spec_digits_end(s: Seq<char>, i: int) -> int
    decreases s.len() - i,
{
    if 0 <= i < s.len() && spec_is_digit(s[i]) {
        spec_digits_end(s, i + 1)
    } else {
        i
    }
}

pub proof fn lemma_digits_end(s: Seq<char>, i: int)
    requires
        0 <= i <= s.len(),
    ensures
        i <= spec_digits_end(s, i) <= s.len(),
        spec_digits_end(s, i) < s.len() ==> !spec_is_digit(s[spec_digits_end(s, i)]),
        forall|k: int| i <= k < spec_digits_end(s, i) ==> spec_is_digit(#[trigger] s[k]),
    decreases s.len() - i,
{
    if i < s.len() && spec_is_digit(s[i]) {
        lemma_digits_end(s, i + 1);
    }
}

/// Parse an unsigned integer at `i`.
pub open spec fn spec_p_num(s: Seq<char>, i: int) -> Option<(u64, int)> {
    let j = spec_digits_end(s, i);
    if j == i {
        None
    } else if spec_digits_val(s.subrange(i, j)) > u64::MAX {
        None
    } else {
        Some((spec_digits_val(s.subrange(i, j)) as u64, j))
    }
}

/// Parse a scalar at `i`.
pub open spec fn spec_p_scalar(s: Seq<char>, i: int) -> Option<(ScalarView, int)> {
    if i < 0 || i >= s.len() {
        None
    } else if s[i] == '"' {
        match spec_p_text(s, i) {
            Some(t) => Some((ScalarView::Text(t.0), t.1)),
            None => None,
        }
    } else if spec_is_digit(s[i]) {
        match spec_p_num(s, i) {
            Some(t) => Some((ScalarView::Num(t.0), t.1)),
            None => None,
        }
    } else if s[i] == 't' {
        if i + 4 <= s.len() && s.subrange(i, i + 4) == "true"@ {
            Some((ScalarView::Bool(true), i + 4))
        } else {
            None
        }
    } else if s[i] == 'f' {
        if i + 5 <= s.len() && s.subrange(i, i + 5) == "false"@ {
            Some((ScalarView::Bool(false), i + 5))
        } else {
            None
        }
    } else if s[i] == 'n' {
        if i + 4 <= s.len() && s.subrange(i, i + 4) == "null"@ {
            Some((ScalarView::Null, i + 4))
        } else {
            None
        }
    } else {
        None
    }
}

pub proof fn lemma_p_scalar_advances(s: Seq<char>, i: int)
    requires
        spec_p_scalar(s, i) is Some,
    ensures
        i < spec_p_scalar(s, i)->Some_0.1 <= s.len(),
{
    if s[i] == '"' {
        lemma_p_text_advances(s, i);
    } else if spec_is_digit(s[i]) {
        lemma_digits_end(s, i);
    }
}

/// Parse the members of a nested object, starting just after the opening
/// brace; the closing brace is consumed. At least one member is present.
pub open spec fn spec_p_inner_members1(s: Seq<char>, i: int) -> Option<
    (Seq<(Seq<char>, ScalarView)>, int),
>
    decreases s.len() - i when 0 <= i <= s.len()
{
    let j = spec_ws_end(s, i);
    proof {
        lemma_ws_end(s, i);
    }
    match spec_p_text(s, j) {
        None => None,
        Some(kt) => {
            proof {
                lemma_p_text_advances(s, j);
            }
            let j2 = spec_ws_end(s, kt.1);
            proof {
                lemma_ws_end(s, kt.1);
            }
            if j2 < s.len() && s[j2] == ':' {
                let j3 = spec_ws_end(s, j2 + 1);
                proof {
                    lemma_ws_end(s, j2 + 1);
                }
                match spec_p_scalar(s, j3) {
                    None => None,
                    Some(vt) => {
                        proof {
                            lemma_p_scalar_advances(s, j3);
                        }
                        let j4 = spec_ws_end(s, vt.1);
                        proof {
                            lemma_ws_end(s, vt.1);
                        }
                        if j4 < s.len() && s[j4] == ',' {
                            match spec_p_inner_members1(s, j4 + 1) {
                                None => None,
                                Some(mt) => Some((seq![(kt.0, vt.0)] + mt.0, mt.1)),
                            }
                        } else if j4 < s.len() && s[j4] == '}' {
                            Some((seq![(kt.0, vt.0)], j4 + 1))
                        } else {
                            None
                        }
                    },
                }
            } else {
                None
            }
        },
    }
}

/// Parse a nested object at `i` (expects an opening brace).
pub open spec fn spec_p_inner(s: Seq<char>, i: int) -> Option<
    (Seq<(Seq<char>, ScalarView)>, int),
> {
    if 0 <= i < s.len() && s[i] == '{' {
        let j = spec_ws_end(s, i + 1);
        if j < s.len() && s[j] == '}' {
            Some((Seq::empty(), j + 1))
        } else {
            spec_p_inner_members1(s, i + 1)
        }
    } else {
        None
    }
}

pub proof fn lemma_p_inner_members1_advances(s: Seq<char>, i: int)
    requires
        0 <= i <= s.len(),
        spec_p_inner_members1(s, i) is Some,
    ensures
        i < spec_p_inner_members1(s, i)->Some_0.1 <= s.len(),
    decreases s.len() - i,
{
    let j = spec_ws_end(s, i);
    lemma_ws_end(s, i);
    let kt = spec_p_text(s, j)->Some_0;
    lemma_p_text_advances(s, j);
    let j2 = spec_ws_end(s, kt.1);
    lemma_ws_end(s, kt.1);
    let j3 = spec_ws_end(s, j2 + 1);
    lemma_ws_end(s, j2 + 1);
    let vt = spec_p_scalar(s, j3)->Some_0;
    lemma_p_scalar_advances(s, j3);
    let j4 = spec_ws_end(s, vt.1);
    lemma_ws_end(s, vt.1);
    if j4 < s.len() && s[j4] == ',' {
        lemma_p_inner_members1_advances(s, j4 + 1);
    }
}

pub proof fn lemma_p_inner_advances(s: Seq<char>, i: int)
    requires
        spec_p_inner(s, i) is Some,
    ensures
        i < spec_p_inner(s, i)->Some_0.1 <= s.len(),
{
    let j = spec_ws_end(s, i + 1);
    lemma_ws_end(s, i + 1);
    if !(j < s.len() && s[j] == '}') {
        lemma_p_inner_members1_advances(s, i + 1);
    }
}

/// Parse a top-level member value at `i`.
pub open spec fn spec_p_field(s: Seq<char>, i: int) -> Option<(FieldView, int)> {
    if 0 <= i < s.len() && s[i] == '{' {
        match spec_p_inner(s, i) {
            Some(t) => Some((FieldView::Object(t.0), t.1)),
            None => None,
        }
    } else {
        match spec_p_scalar(s, i) {
            Some(t) => Some((FieldView::Scalar(t.0), t.1)),
            None => None,
        }
    }
}

pub proof fn lemma_p_field_advances(s: Seq<char>, i: int)
    requires
        spec_p_field(s, i) is Some,
    ensures
        i < spec_p_field(s, i)->Some_0.1 <= s.len(),
{
    if 0 <= i < s.len() && s[i] == '{' {
        lemma_p_inner_advances(s, i);
    } else {
        lemma_p_scalar_advances(s, i);
    }
}

/// Parse the members of the top-level object, starting just after the
/// opening brace; the closing brace is consumed. At least one member is
/// present.
pub open spec fn spec_p_top_members1(s: Seq<char>, i: int) -> Option<
    (Seq<(Seq<char>, FieldView)>, int),
>
    decreases s.len() - i when 0 <= i <= s.len()
{
    let j = spec_ws_end(s, i);
    proof {
        lemma_ws_end(s, i);
    }
    match spec_p_text(s, j) {
        None => None,
        Some(kt) => {
            proof {
                lemma_p_text_advances(s, j);
            }
            let j2 = spec_ws_end(s, kt.1);
            proof {
                lemma_ws_end(s, kt.1);
            }
            if j2 < s.len() && s[j2] == ':' {
                let j3 = spec_ws_end(s, j2 + 1);
                proof {
                    lemma_ws_end(s, j2 + 1);
                }
                match spec_p_field(s, j3) {
                    None => None,
                    Some(vt) => {
                        proof {
                            lemma_p_field_advances(s, j3);
                        }
                        let j4 = spec_ws_end(s, vt.1);
                        proof {
                            lemma_ws_end(s, vt.1);
                        }
                        if j4 < s.len() && s[j4] == ',' {
                            match spec_p_top_members1(s, j4 + 1) {
                                None => None,
                                Some(mt) => Some((seq![(kt.0, vt.0)] + mt.0, mt.1)),
                            }
                        } else if j4 < s.len() && s[j4] == '}' {
                            Some((seq![(kt.0, vt.0)], j4 + 1))
                        } else {
                            None
                        }
                    },
                }
            } else {
                None
            }
        },
    }
}

pub proof fn lemma_p_top_members1_advances(s: Seq<char>, i: int)
    requires
        0 <= i <= s.len(),
        spec_p_top_members1(s, i) is Some,
    ensures
        i < spec_p_top_members1(s, i)->Some_0.1 <= s.len(),
    decreases s.len() - i,
{
    let j = spec_ws_end(s, i);
    lemma_ws_end(s, i);
    let kt = spec_p_text(s, j)->Some_0;
    lemma_p_text_advances(s, j);
    let j2 = spec_ws_end(s, kt.1);
    lemma_ws_end(s, kt.1);
    let j3 = spec_ws_end(s, j2 + 1);
    lemma_ws_end(s, j2 + 1);
    let vt = spec_p_field(s, j3)->Some_0;
    lemma_p_field_advances(s, j3);
    let j4 = spec_ws_end(s, vt.1);
    lemma_ws_end(s, vt.1);
    if j4 < s.len() && s[j4] == ',' {
        lemma_p_top_members1_advances(s, j4 + 1);
    }
}

/// Parse a whole wire object: optional surrounding whitespace, one object,
/// nothing after it.
pub open spec fn spec_p_top(s: Seq<char>) -> Option<Seq<(Seq<char>, FieldView)>> {
    let i = spec_ws_end(s, 0);
    if i < s.len() && s[i] == '{' {
        let j = spec_ws_end(s, i + 1);
        let body = if j < s.len() && s[j] == '}' {
            Some((Seq::<(Seq<char>, FieldView)>::empty(), j + 1))
        } else {
            spec_p_top_members1(s, i + 1)
        };
        match body {
            None => None,
            Some(mt) => {
                if spec_ws_end(s, mt.1) == s.len() {
                    Some(mt.0)
                } else {
                    None
                }
            },
        }
    } else {
        None
    }
}

} // verus!

// ------------------------------------------------------------------
// The executable printer
// ------------------------------------------------------------------

verus! {

/// Escaping distributes over appending one character.
pub proof fn lemma_esc_push(s: Seq<char>, c: char)
    ensures
        spec_esc(s.push(c)) == spec_esc(s) + spec_esc_char(c),
    decreases s.len(),
{
    if s.len() == 0 {
        assert(s.push(c)[0] == c);
        assert(s.push(c).drop_first() =~= Seq::<char>::empty());
        assert(spec_esc(Seq::<char>::empty()) =~= Seq::<char>::empty());
        assert(spec_esc(s.push(c)) =~= spec_esc_char(c) + Seq::<char>::empty());
        assert(spec_esc_char(c) + Seq::<char>::empty() =~= spec_esc_char(c));
        assert(spec_esc(s) + spec_esc_char(c) =~= spec_esc_char(c));
    } else {
        lemma_esc_push(s.drop_first(), c);
        assert(s.push(c)[0] == s[0]);
        assert(s.push(c).drop_first() =~= s.drop_first().push(c));
        assert(spec_esc(s.push(c)) == spec_esc_char(s[0]) + (spec_esc(s.drop_first())
            + spec_esc_char(c)));
        assert(spec_esc_char(s[0]) + (spec_esc(s.drop_first()) + spec_esc_char(c)) =~= (
        spec_esc_char(s[0]) + spec_esc(s.drop_first())) + spec_esc_char(c));
    }
}

/// The lower-case hexadecimal digit with the given value.
fn hex_digit_char(d: u32) -> (c: char)
    requires
        d < 16,
    ensures
        c == spec_hex_digit(d as nat),
{
    match d {
        0 => '0',
        1 => '1',
        2 => '2',
        3 => '3',
        4 => '4',
        5 => '5',
        6 => '6',
        7 => '7',
        8 => '8',
        9 => '9',
        10 => 'a',
        11 => 'b',
        12 => 'c',
        13 => 'd',
        14 => 'e',
        _ => 'f',
    }
}

/// Append one string's characters, escaped, to the output.
fn append_esc(out: &mut String, s: &str)
    ensures
        final(out)@ == old(out)@ + spec_esc(s@),
{
    let n = s.unicode_len();
    for i in 0..n
        invariant
            n == s@.len(),
            out@ == old(out)@ + spec_esc(s@.take(i as int)),
    {
        let c = s.get_char(i);
        proof {
            assert(s@.take(i + 1) =~= s@.take(i as int).push(c));
            lemma_esc_push(s@.take(i as int), c);
        }
        if c == '"' {
            out.push('\\');
            out.push('"');
        } else if c == '\\' {
            out.push('\\');
            out.push('\\');
        } else if (c as u32) < 32 {
            out.push('\\');
            out.push('u');
            out.push('0');
            out.push('0');
            out.push(hex_digit_char((c as u32) / 16));
            out.push(hex_digit_char((c as u32) % 16));
        } else {
            out.push(c);
        }
        assert(out@ =~= old(out)@ + spec_esc(s@.take(i + 1)));
    }
    assert(s@.take(n as int) =~= s@);
}

/// Append a quoted, escaped string literal to the output.
fn append_text(out: &mut String, s: &str)
    ensures
        final(out)@ == old(out)@ + spec_print_text(s@),
{
    out.push('"');
    append_esc(out, s);
    out.push('"');
    assert(final(out)@ =~= old(out)@ + spec_print_text(s@));
}

/// Append a scalar to the output.
fn append_scalar(out: &mut String, v: &Scalar)
    ensures
        final(out)@ == old(out)@ + spec_print_scalar(v@),
{
    match v {
        Scalar::Null => {
            out.append("null");
        },
        Scalar::Bool(b) => {
            if *b {
                out.append("true");
            } else {
                out.append("false");
            }
        },
        Scalar::Num(n) => {
            let t = crate::text::u64_to_string(*n);
            out.append(t.as_str());
        },
        Scalar::Text(s) => {
            append_text(out, s.as_str());
        },
    }
}

/// Append a nested object to the output.
fn append_inner(out: &mut String, ms: &Vec<(String, Scalar)>)
    ensures
        final(out)@ == old(out)@ + spec_print_inner(view_inner(ms@)),
{
    let ghost sms = view_inner(ms@);
    out.push('{');
    proof {
        assert(sms.skip(0) =~= sms);
        assert(out@ =~= old(out)@ + seq!['{']);
    }
    let n = ms.len();
    for i in 0..n
        invariant
            n == ms@.len(),
            sms == view_inner(ms@),
            sms.len() == n,
            out@ + spec_print_inner_members(sms.skip(i as int)) == old(out)@ + seq!['{']
                + spec_print_inner_members(sms),
    {
        let ghost tail = sms.skip(i as int);
        proof {
            assert(tail[0] == (ms@[i as int].0@, ms@[i as int].1@));
            assert(tail.drop_first() =~= sms.skip(i + 1));
        }
        append_text(out, ms[i].0.as_str());
        out.push(':');
        append_scalar(out, &ms[i].1);
        if i + 1 < n {
            out.push(',');
            proof {
                assert(spec_print_inner_members(tail) =~= spec_print_text(tail[0].0) + seq![':']
                    + spec_print_scalar(tail[0].1) + seq![','] + spec_print_inner_members(
                    sms.skip(i + 1),
                ));
                assert(out@ + spec_print_inner_members(sms.skip(i + 1)) =~= old(out)@ + seq!['{']
                    + spec_print_inner_members(sms));
            }
        } else {
            proof {
                assert(tail.len() == 1);
                assert(spec_print_inner_members(tail) =~= spec_print_text(tail[0].0) + seq![':']
                    + spec_print_scalar(tail[0].1));
                assert(sms.skip(i + 1) =~= Seq::<(Seq<char>, ScalarView)>::empty());
                assert(out@ + spec_print_inner_members(sms.skip(i + 1)) =~= old(out)@ + seq!['{']
                    + spec_print_inner_members(sms));
            }
        }
    }
    proof {
        assert(sms.skip(n as int) =~= Seq::<(Seq<char>, ScalarView)>::empty());
    }
    out.push('}');
    assert(final(out)@ =~= old(out)@ + spec_print_inner(sms));
}

/// Append a top-level member value to the output.
fn append_field(out: &mut String, f: &Field)
    ensures
        final(out)@ == old(out)@ + spec_print_field(f@),
{
    match f {
        Field::Scalar(v) => append_scalar(out, v),
        Field::Object(ms) => append_inner(out, ms),
    }
}

/// Print a whole wire object on one line.
pub fn print_top(ms: &Vec<(String, Field)>) -> (r: String)
    ensures
        r@ == spec_print_top(view_top(ms@)),
{
    let ghost sms = view_top(ms@);
    let mut out = String::new();
    out.push('{');
    proof {
        assert(sms.skip(0) =~= sms);
        assert(out@ =~= seq!['{']);
    }
    let n = ms.len();
    for i in 0..n
        invariant
            n == ms@.len(),
            sms == view_top(ms@),
            sms.len() == n,
            out@ + spec_print_top_members(sms.skip(i as int)) == seq!['{']
                + spec_print_top_members(sms),
    {
        let ghost tail = sms.skip(i as int);
        proof {
            assert(tail[0] == (ms@[i as int].0@, ms@[i as int].1@));
            assert(tail.drop_first() =~= sms.skip(i + 1));
        }
        append_text(&mut out, ms[i].0.as_str());
        out.push(':');
        append_field(&mut out, &ms[i].1);
        if i + 1 < n {
            out.push(',');
            proof {
                assert(spec_print_top_members(tail) =~= spec_print_text(tail[0].0) + seq![':']
                    + spec_print_field(tail[0].1) + seq![','] + spec_print_top_members(
                    sms.skip(i + 1),
                ));
                assert(out@ + spec_print_top_members(sms.skip(i + 1)) =~= seq!['{']
                    + spec_print_top_members(sms));
            }
        } else {
            proof {
                assert(tail.len() == 1);
                assert(spec_print_top_members(tail) =~= spec_print_text(tail[0].0) + seq![':']
                    + spec_print_field(tail[0].1));
                assert(sms.skip(i + 1) =~= Seq::<(Seq<char>, FieldView)>::empty());
                assert(out@ + spec_print_top_members(sms.skip(i + 1)) =~= seq!['{']
                    + spec_print_top_members(sms));
            }
        }
    }
    proof {
        assert(sms.skip(n as int) =~= Seq::<(Seq<char>, FieldView)>::empty());
    }
    out.push('}');
    assert(out@ =~= spec_print_top(sms));
    out
}

} // verus!

// ------------------------------------------------------------------
// The executable parser
// ------------------------------------------------------------------

verus! {

/// Whether a character is wire whitespace.
fn is_ws_char(c: char) -> (r: bool)
    ensures
        r == spec_is_ws(c),
{
    c == ' ' || c == '\t' || c == '\n' || c == '\r'
}

/// The first index at or after `i` holding no whitespace.
fn ws_end(v: &Vec<char>, i: usize) -> (j: usize)
    requires
        i <= v@.len(),
    ensures
        j as int == spec_ws_end(v@, i as int),
        i <= j <= v@.len(),
{
    let n = v.len();
    let mut j = i;
    while j < n && is_ws_char(v[j])
        invariant
            i <= j <= n,
            n == v@.len(),
            spec_ws_end(v@, i as int) == spec_ws_end(v@, j as int),
        decreases n - j,
    {
        j = j + 1;
    }
    j
}

/// The value of a hexadecimal digit character.
fn hex_val_char(c: char) -> (r: Option<u32>)
    ensures
        r is Some <==> spec_hex_val(c) is Some,
        r matches Some(h) ==> spec_hex_val(c) == Some(h as nat) && h < 16,
{
    if c >= '0' && c <= '9' {
        Some((c as u32) - ('0' as u32))
    } else if c >= 'a' && c <= 'f' {
        Some((c as u32) - ('a' as u32) + 10)
    } else if c >= 'A' && c <= 'F' {
        Some((c as u32) - ('A' as u32) + 10)
    } else {
        None
    }
}

/// Parse a string literal at `i`: the unescaped content and the index after
/// the closing quote.
fn parse_text(v: &Vec<char>, i: usize) -> (r: Option<(String, usize)>)
    requires
        i <= v@.len(),
    ensures
        r is Some <==> spec_p_text(v@, i as int) is Some,
        r matches Some(t) ==> spec_p_text(v@, i as int) == Some((t.0@, t.1 as int)) && i < t.1
            <= v@.len(),
{
    let ghost s = v@;
    let n = v.len();
    if !(i < n && v[i] == '"') {
        return None;
    }
    let mut j: usize = i + 1;
    let mut acc = String::new();
    proof {
        assert(acc@ =~= Seq::<char>::empty());
    }
    loop
        invariant
            i + 1 <= j <= n,
            n == s.len(),
            s == v@,
            s[i as int] == '"',
            (match spec_p_text_body(s, j as int) {
                Some(t) => spec_p_text_body(s, i + 1) == Some((acc@ + t.0, t.1)),
                None => spec_p_text_body(s, i + 1) is None,
            }),
        decreases n - j,
    {
        if j >= n {
            return None;
        }
        let c = v[j];
        if c == '"' {
            proof {
                assert(spec_p_text_body(s, j as int) == Some((Seq::<char>::empty(), j + 1)));
                assert(acc@ + Seq::<char>::empty() =~= acc@);
                lemma_p_text_body_advances(s, i + 1);
            }
            return Some((acc, j + 1));
        } else if c == '\\' {
            if j + 1 >= n {
                return None;
            }
            let e = v[j + 1];
            if e == '"' || e == '\\' || e == '/' || e == 'n' || e == 't' || e == 'r' || e == 'b'
                || e == 'f' {
                let c2: char = if e == 'n' {
                    '\n'
                } else if e == 't' {
                    '\t'
                } else if e == 'r' {
                    '\r'
                } else if e == 'b' {
                    (8u8) as char
                } else if e == 'f' {
                    (12u8) as char
                } else {
                    e
                };
                let ghost prev = acc@;
                acc.push(c2);
                proof {
                    if spec_p_text_body(s, j + 2) is Some {
                        let t = spec_p_text_body(s, j + 2)->Some_0;
                        assert(spec_p_text_body(s, j as int) == Some((seq![c2] + t.0, t.1)));
                        assert(prev + (seq![c2] + t.0) =~= acc@ + t.0);
                    } else {
                        assert(spec_p_text_body(s, j as int) is None);
                    }
                }
                j = j + 2;
            } else if e == 'u' {
                if n - j < 6 {
                    return None;
                }
                let h1 = match hex_val_char(v[j + 2]) {
                    Some(h) => h,
                    None => {
                        return None;
                    },
                };
                let h2 = match hex_val_char(v[j + 3]) {
                    Some(h) => h,
                    None => {
                        return None;
                    },
                };
                let h3 = match hex_val_char(v[j + 4]) {
                    Some(h) => h,
                    None => {
                        return None;
                    },
                };
                let h4 = match hex_val_char(v[j + 5]) {
                    Some(h) => h,
                    None => {
                        return None;
                    },
                };
                let code: u32 = h1 * 4096 + h2 * 256 + h3 * 16 + h4;
                if code >= 256 {
                    return None;
                }
                let c2: char = #[verifier::truncate] (code as u8) as char;
                assert(c2 == spec_char_of_code(code as nat));
                let ghost prev = acc@;
                acc.push(c2);
                proof {
                    if spec_p_text_body(s, j + 6) is Some {
                        let t = spec_p_text_body(s, j + 6)->Some_0;
                        assert(spec_p_text_body(s, j as int) == Some((seq![c2] + t.0, t.1)));
                        assert(prev + (seq![c2] + t.0) =~= acc@ + t.0);
                    } else {
                        assert(spec_p_text_body(s, j as int) is None);
                    }
                }
                j = j + 6;
            } else {
                return None;
            }
        } else if (c as u32) < 32 {
            return None;
        } else {
            let ghost prev = acc@;
            acc.push(c);
            proof {
                if spec_p_text_body(s, j + 1) is Some {
                    let t = spec_p_text_body(s, j + 1)->Some_0;
                    assert(spec_p_text_body(s, j as int) == Some((seq![c] + t.0, t.1)));
                    assert(prev + (seq![c] + t.0) =~= acc@ + t.0);
                } else {
                    assert(spec_p_text_body(s, j as int) is None);
                }
            }
            j = j + 1;
        }
    }
}

/// The first index at or after `i` holding no decimal digit.
fn digits_end(v: &Vec<char>, i: usize) -> (j: usize)
    requires
        i <= v@.len(),
    ensures
        j as int == spec_digits_end(v@, i as int),
        i <= j <= v@.len(),
{
    let n = v.len();
    let mut j = i;
    while j < n && v[j] >= '0' && v[j] <= '9'
        invariant
            i <= j <= n,
            n == v@.len(),
            spec_digits_end(v@, i as int) == spec_digits_end(v@, j as int),
        decreases n - j,
    {
        j = j + 1;
    }
    j
}

/// Parse an unsigned integer at `i`.
fn parse_num(v: &Vec<char>, i: usize) -> (r: Option<(u64, usize)>)
    requires
        i <= v@.len(),
    ensures
        r is Some <==> spec_p_num(v@, i as int) is Some,
        r matches Some(t) ==> spec_p_num(v@, i as int) == Some((t.0, t.1 as int)) && i < t.1
            <= v@.len(),
{
    let j = digits_end(v, i);
    proof {
        lemma_digits_end(v@, i as int);
    }
    if j == i {
        return None;
    }
    let ghost d = v@.subrange(i as int, j as int);
    proof {
        assert(forall|k: int| 0 <= k < d.len() ==> spec_is_digit(#[trigger] d[k]));
    }
    match crate::text::parse_u64_chars(v, i, j) {
        Some(x) => Some((x, j)),
        None => {
            proof {
                assert(crate::text::spec_parse_u64(d) is None);
                assert(crate::text::spec_digits_val(d) > u64::MAX);
            }
            None
        },
    }
}

/// Parse a scalar at `i`.
fn parse_scalar(v: &Vec<char>, i: usize) -> (r: Option<(Scalar, usize)>)
    requires
        i <= v@.len(),
    ensures
        r is Some <==> spec_p_scalar(v@, i as int) is Some,
        r matches Some(t) ==> spec_p_scalar(v@, i as int) == Some((t.0@, t.1 as int)) && i < t.1
            <= v@.len(),
{
    let ghost s = v@;
    let n = v.len();
    if i >= n {
        return None;
    }
    let c = v[i];
    if c == '"' {
        match parse_text(v, i) {
            Some(t) => Some((Scalar::Text(t.0), t.1)),
            None => None,
        }
    } else if c >= '0' && c <= '9' {
        match parse_num(v, i) {
            Some(t) => Some((Scalar::Num(t.0), t.1)),
            None => None,
        }
    } else if c == 't' {
        proof {
            reveal_strlit("true");
        }
        if n - i >= 4 && v[i + 1] == 'r' && v[i + 2] == 'u' && v[i + 3] == 'e' {
            proof {
                assert(s.subrange(i as int, i + 4) =~= "true"@);
            }
            Some((Scalar::Bool(true), i + 4))
        } else {
            proof {
                if i + 4 <= n {
                    assert(s.subrange(i as int, i + 4)[1] == s[i + 1]);
                    assert(s.subrange(i as int, i + 4)[2] == s[i + 2]);
                    assert(s.subrange(i as int, i + 4)[3] == s[i + 3]);
                    assert(s.subrange(i as int, i + 4) != "true"@);
                }
            }
            None
        }
    } else if c == 'f' {
        proof {
            reveal_strlit("false");
        }
        if n - i >= 5 && v[i + 1] == 'a' && v[i + 2] == 'l' && v[i + 3] == 's' && v[i + 4] == 'e' {
            proof {
                assert(s.subrange(i as int, i + 5) =~= "false"@);
            }
            Some((Scalar::Bool(false), i + 5))
        } else {
            proof {
                if i + 5 <= n {
                    assert(s.subrange(i as int, i + 5)[1] == s[i + 1]);
                    assert(s.subrange(i as int, i + 5)[2] == s[i + 2]);
                    assert(s.subrange(i as int, i + 5)[3] == s[i + 3]);
                    assert(s.subrange(i as int, i + 5)[4] == s[i + 4]);
                    assert(s.subrange(i as int, i + 5) != "false"@);
                }
            }
            None
        }
    } else if c == 'n' {
        proof {
            reveal_strlit("null");
        }
        if n - i >= 4 && v[i + 1] == 'u' && v[i + 2] == 'l' && v[i + 3] == 'l' {
            proof {
                assert(s.subrange(i as int, i + 4) =~= "null"@);
            }
            Some((Scalar::Null, i + 4))
        } else {
            proof {
                if i + 4 <= n {
                    assert(s.subrange(i as int, i + 4)[1] == s[i + 1]);
                    assert(s.subrange(i as int, i + 4)[2] == s[i + 2]);
                    assert(s.subrange(i as int, i + 4)[3] == s[i + 3]);
                    assert(s.subrange(i as int, i + 4) != "null"@);
                }
            }
            None
        }
    } else {
        None
    }
}

} // verus!

verus! {

/// Parse a nested object at `i` (expects an opening brace).
fn parse_inner(v: &Vec<char>, i: usize) -> (r: Option<(Vec<(String, Scalar)>, usize)>)
    requires
        i <= v@.len(),
    ensures
        r is Some <==> spec_p_inner(v@, i as int) is Some,
        r matches Some(t) ==> spec_p_inner(v@, i as int) == Some((view_inner(t.0@), t.1 as int))
            && i < t.1 <= v@.len(),
{
    let ghost s = v@;
    let n = v.len();
    if !(i < n && v[i] == '{') {
        return None;
    }
    let j0 = ws_end(v, i + 1);
    if j0 < n && v[j0] == '}' {
        let acc: Vec<(String, Scalar)> = Vec::new();
        proof {
            assert(view_inner(acc@) =~= Seq::<(Seq<char>, ScalarView)>::empty());
        }
        return Some((acc, j0 + 1));
    }
    let mut acc: Vec<(String, Scalar)> = Vec::new();
    let mut j: usize = i + 1;
    proof {
        assert(view_inner(acc@) =~= Seq::<(Seq<char>, ScalarView)>::empty());
        if spec_p_inner_members1(s, j as int) is Some {
            let mt = spec_p_inner_members1(s, j as int)->Some_0;
            assert(view_inner(acc@) + mt.0 =~= mt.0);
        }
    }
    loop
        invariant
            i + 1 <= j <= n,
            n == s.len(),
            s == v@,
            s[i as int] == '{',
            !(spec_ws_end(s, i + 1) < s.len() && s[spec_ws_end(s, i + 1)] == '}'),
            (match spec_p_inner_members1(s, j as int) {
                Some(mt) => spec_p_inner_members1(s, i + 1) == Some(
                    (view_inner(acc@) + mt.0, mt.1),
                ),
                None => spec_p_inner_members1(s, i + 1) is None,
            }),
        decreases n - j,
    {
        let ghost jint = j as int;
        let j1 = ws_end(v, j);
        let (key, j2) = match parse_text(v, j1) {
            Some(t) => t,
            None => {
                return None;
            },
        };
        let j3 = ws_end(v, j2);
        if !(j3 < n && v[j3] == ':') {
            return None;
        }
        let j4 = ws_end(v, j3 + 1);
        let (val, j5) = match parse_scalar(v, j4) {
            Some(t) => t,
            None => {
                return None;
            },
        };
        let j6 = ws_end(v, j5);
        let ghost prev = acc@;
        let ghost kv = (key@, val@);
        acc.push((key, val));
        proof {
            assert(view_inner(acc@) =~= view_inner(prev).push(kv));
        }
        if j6 < n && v[j6] == ',' {
            proof {
                if spec_p_inner_members1(s, j6 + 1) is Some {
                    let mt = spec_p_inner_members1(s, j6 + 1)->Some_0;
                    assert(spec_p_inner_members1(s, jint) == Some((seq![kv] + mt.0, mt.1)));
                    assert(view_inner(prev) + (seq![kv] + mt.0) =~= view_inner(acc@) + mt.0);
                } else {
                    assert(spec_p_inner_members1(s, jint) is None);
                }
            }
            j = j6 + 1;
        } else if j6 < n && v[j6] == '}' {
            proof {
                assert(spec_p_inner_members1(s, jint) == Some((seq![kv], j6 + 1)));
                assert(view_inner(prev) + seq![kv] =~= view_inner(acc@));
            }
            return Some((acc, j6 + 1));
        } else {
            return None;
        }
    }
}

/// Parse a top-level member value at `i`.
fn parse_field(v: &Vec<char>, i: usize) -> (r: Option<(Field, usize)>)
    requires
        i <= v@.len(),
    ensures
        r is Some <==> spec_p_field(v@, i as int) is Some,
        r matches Some(t) ==> spec_p_field(v@, i as int) == Some((t.0@, t.1 as int)) && i < t.1
            <= v@.len(),
{
    let n = v.len();
    if i < n && v[i] == '{' {
        match parse_inner(v, i) {
            Some(t) => Some((Field::Object(t.0), t.1)),
            None => None,
        }
    } else {
        match parse_scalar(v, i) {
            Some(t) => Some((Field::Scalar(t.0), t.1)),
            None => None,
        }
    }
}

/// Parse a whole wire object: optional surrounding whitespace, one object,
/// nothing after it.
pub fn parse_top(v: &Vec<char>) -> (r: Option<Vec<(String, Field)>>)
    ensures
        r is Some <==> spec_p_top(v@) is Some,
        r matches Some(ms) ==> spec_p_top(v@) == Some(view_top(ms@)),
{
    let ghost s = v@;
    let n = v.len();
    let i0 = ws_end(v, 0);
    if !(i0 < n && v[i0] == '{') {
        return None;
    }
    let j0 = ws_end(v, i0 + 1);
    if j0 < n && v[j0] == '}' {
        let e = ws_end(v, j0 + 1);
        if e == n {
            let acc: Vec<(String, Field)> = Vec::new();
            proof {
                assert(view_top(acc@) =~= Seq::<(Seq<char>, FieldView)>::empty());
            }
            return Some(acc);
        } else {
            return None;
        }
    }
    let mut acc: Vec<(String, Field)> = Vec::new();
    let mut j: usize = i0 + 1;
    proof {
        assert(view_top(acc@) =~= Seq::<(Seq<char>, FieldView)>::empty());
        if spec_p_top_members1(s, j as int) is Some {
            let mt = spec_p_top_members1(s, j as int)->Some_0;
            assert(view_top(acc@) + mt.0 =~= mt.0);
        }
    }
    loop
        invariant
            i0 + 1 <= j <= n,
            n == s.len(),
            s == v@,
            i0 as int == spec_ws_end(s, 0),
            i0 < n,
            s[i0 as int] == '{',
            !(spec_ws_end(s, i0 + 1) < s.len() && s[spec_ws_end(s, i0 + 1)] == '}'),
            (match spec_p_top_members1(s, j as int) {
                Some(mt) => spec_p_top_members1(s, i0 + 1) == Some((view_top(acc@) + mt.0, mt.1)),
                None => spec_p_top_members1(s, i0 + 1) is None,
            }),
        decreases n - j,
    {
        let ghost jint = j as int;
        let j1 = ws_end(v, j);
        let (key, j2) = match parse_text(v, j1) {
            Some(t) => t,
            None => {
                return None;
            },
        };
        let j3 = ws_end(v, j2);
        if !(j3 < n && v[j3] == ':') {
            return None;
        }
        let j4 = ws_end(v, j3 + 1);
        let (val, j5) = match parse_field(v, j4) {
            Some(t) => t,
            None => {
                return None;
            },
        };
        let j6 = ws_end(v, j5);
        let ghost prev = acc@;
        let ghost kv = (key@, val@);
        acc.push((key, val));
        proof {
            assert(view_top(acc@) =~= view_top(prev).push(kv));
        }
        if j6 < n && v[j6] == ',' {
            proof {
                if spec_p_top_members1(s, j6 + 1) is Some {
                    let mt = spec_p_top_members1(s, j6 + 1)->Some_0;
                    assert(spec_p_top_members1(s, jint) == Some((seq![kv] + mt.0, mt.1)));
                    assert(view_top(prev) + (seq![kv] + mt.0) =~= view_top(acc@) + mt.0);
                } else {
                    assert(spec_p_top_members1(s, jint) is None);
                }
            }
            j = j6 + 1;
        } else if j6 < n && v[j6] == '}' {
            proof {
                assert(spec_p_top_members1(s, jint) == Some((seq![kv], j6 + 1)));
                assert(view_top(prev) + seq![kv] =~= view_top(acc@));
            }
            let e = ws_end(v, j6 + 1);
            if e == n {
                return Some(acc);
            } else {
                return None;
            }
        } else {
            return None;
        }
    }
}

} // verus!

// ------------------------------------------------------------------
// Parsing a printed object gives the object back
// ------------------------------------------------------------------

verus! {

/// A hexadecimal digit reads back as the value it was made from.
proof fn lemma_hex_digit_val(d: nat)
    requires
        d < 16,
    ensures
        spec_hex_val(spec_hex_digit(d)) == Some(d),
{
    if d < 10 {
        crate::text::lemma_digit_char_val(d);
    }
}

/// A character code below 256 maps back to the character it came from.
proof fn lemma_char_of_code_id(c: char)
    requires
        (c as u32) < 256,
    ensures
        spec_char_of_code((c as u32) as nat) == c,
{
}

/// Parsing a string-literal body over an escaped content, followed by the
/// closing quote, recovers the content.
proof fn lemma_parse_esc(content: Seq<char>, pre: Seq<char>, rest: Seq<char>)
    ensures
        spec_p_text_body(
            pre + spec_esc(content) + seq!['"'] + rest,
            pre.len() as int,
        ) == Some::<(Seq<char>, int)>(
            (content, pre.len() as int + spec_esc(content).len() + 1),
        ),
    decreases content.len(),
{
    let s = pre + spec_esc(content) + seq!['"'] + rest;
    let i = pre.len() as int;
    if content.len() == 0 {
        assert(spec_esc(content) =~= Seq::<char>::empty());
        assert(s[i] == '"');
        assert(content =~= Seq::<char>::empty());
    } else {
        let c = content[0];
        let tail = content.drop_first();
        let ec = spec_esc_char(c);
        assert(spec_esc(content) == ec + spec_esc(tail));
        let pre2 = pre + ec;
        let s2 = pre2 + spec_esc(tail) + seq!['"'] + rest;
        assert(s2 =~= s);
        lemma_parse_esc(tail, pre2, rest);
        let after = spec_p_text_body(s, pre2.len() as int);
        assert(after == Some::<(Seq<char>, int)>((tail, pre2.len() as int + spec_esc(tail).len() + 1)));
        if c == '"' {
            assert(s[i] == '\\' && s[i + 1] == '"');
            assert(spec_p_text_body(s, i) == Some::<(Seq<char>, int)>(
                (seq![c] + tail, pre2.len() as int + spec_esc(tail).len() + 1),
            ));
            assert(seq![c] + tail =~= content);
        } else if c == '\\' {
            assert(s[i] == '\\' && s[i + 1] == '\\');
            assert(seq![c] + tail =~= content);
        } else if (c as u32) < 32 {
            let hi = ((c as u32) / 16) as nat;
            let lo = ((c as u32) % 16) as nat;
            assert(s[i] == '\\' && s[i + 1] == 'u' && s[i + 2] == '0' && s[i + 3] == '0');
            assert(s[i + 4] == spec_hex_digit(hi) && s[i + 5] == spec_hex_digit(lo));
            assert(i + 6 <= s.len());
            lemma_hex_digit_val(hi);
            lemma_hex_digit_val(lo);
            assert(spec_hex_val('0') == Some(0nat)) by {
                crate::text::lemma_digit_char_val(0);
            };
            let code = 0nat * 4096 + 0nat * 256 + hi * 16 + lo;
            assert(code == (c as u32) as nat);
            assert(code < 256);
            lemma_char_of_code_id(c);
            assert(spec_char_of_code(code) == c);
            assert(spec_p_text_body(s, i) == Some::<(Seq<char>, int)>(
                (seq![c] + tail, pre2.len() as int + spec_esc(tail).len() + 1),
            ));
            assert(seq![c] + tail =~= content);
        } else {
            assert(ec =~= seq![c]);
            assert(s[i] == c);
            assert(s[i] != '"' && s[i] != '\\' && !((s[i] as u32) < 32));
            assert(spec_p_text_body(s, i) == Some::<(Seq<char>, int)>(
                (seq![c] + tail, pre2.len() as int + spec_esc(tail).len() + 1),
            ));
            assert(seq![c] + tail =~= content);
        }
        assert(pre2.len() as int + spec_esc(tail).len() + 1 == i + spec_esc(content).len() + 1);
    }
}

/// Parsing a printed string literal recovers the string.
proof fn lemma_parse_print_text(k: Seq<char>, pre: Seq<char>, rest: Seq<char>)
    ensures
        spec_p_text(pre + spec_print_text(k) + rest, pre.len() as int) == Some::<(Seq<char>, int)>(
            (k, pre.len() as int + spec_print_text(k).len()),
        ),
{
    let s = pre + spec_print_text(k) + rest;
    let i = pre.len() as int;
    assert(s[i] == '"');
    let pre2 = pre + seq!['"'];
    assert(s =~= pre2 + spec_esc(k) + seq!['"'] + rest);
    lemma_parse_esc(k, pre2, rest);
}

/// The end of a digit run is where the digits stop.
proof fn lemma_digits_end_exact(s: Seq<char>, i: int, j: int)
    requires
        0 <= i <= j <= s.len(),
        forall|k: int| i <= k < j ==> spec_is_digit(#[trigger] s[k]),
        j < s.len() ==> !spec_is_digit(s[j]),
    ensures
        spec_digits_end(s, i) == j,
    decreases j - i,
{
    if i < j {
        lemma_digits_end_exact(s, i + 1, j);
    }
}

/// Parsing a printed number, followed by a non-digit, recovers the number.
proof fn lemma_parse_print_num(n: u64, pre: Seq<char>, rest: Seq<char>)
    requires
        rest.len() >= 1,
        !spec_is_digit(rest[0]),
    ensures
        spec_p_num(pre + spec_decimal(n as nat) + rest, pre.len() as int) == Some::<(u64, int)>(
            (n, pre.len() as int + spec_decimal(n as nat).len()),
        ),
{
    let d = spec_decimal(n as nat);
    let s = pre + d + rest;
    let i = pre.len() as int;
    crate::text::lemma_decimal_digits(n as nat);
    assert(forall|k: int| i <= k < i + d.len() ==> spec_is_digit(#[trigger] s[k]));
    assert(!spec_is_digit(s[i + d.len()]));
    lemma_digits_end_exact(s, i, i + d.len());
    assert(s.subrange(i, i + d.len()) =~= d);
}

/// A printed scalar is never empty and never opens with whitespace, a brace,
/// or a comma.
proof fn lemma_print_scalar_head(v: ScalarView)
    ensures
        spec_print_scalar(v).len() >= 1,
        !spec_is_ws(spec_print_scalar(v)[0]),
        spec_print_scalar(v)[0] != '{',
{
    reveal_strlit("null");
    reveal_strlit("true");
    reveal_strlit("false");
    match v {
        ScalarView::Num(n) => {
            crate::text::lemma_decimal_digits(n as nat);
        },
        _ => {},
    }
}

/// Parsing a printed scalar, followed by a comma or closing brace, recovers
/// the scalar.
proof fn lemma_parse_print_scalar(v: ScalarView, pre: Seq<char>, rest: Seq<char>)
    requires
        rest.len() >= 1,
        rest[0] == ',' || rest[0] == '}',
    ensures
        spec_p_scalar(pre + spec_print_scalar(v) + rest, pre.len() as int) == Some::<
            (ScalarView, int),
        >((v, pre.len() as int + spec_print_scalar(v).len())),
{
    let p = spec_print_scalar(v);
    let s = pre + p + rest;
    let i = pre.len() as int;
    lemma_print_scalar_head(v);
    reveal_strlit("null");
    reveal_strlit("true");
    reveal_strlit("false");
    match v {
        ScalarView::Null => {
            assert(s[i] == 'n');
            assert(s.subrange(i, i + 4) =~= "null"@);
        },
        ScalarView::Bool(b) => {
            if b {
                assert(s[i] == 't');
                assert(s.subrange(i, i + 4) =~= "true"@);
            } else {
                assert(s[i] == 'f');
                assert(s.subrange(i, i + 5) =~= "false"@);
            }
        },
        ScalarView::Num(n) => {
            crate::text::lemma_decimal_digits(n as nat);
            assert(s[i] == spec_decimal(n as nat)[0]);
            assert(spec_is_digit(s[i]));
            assert(s[i] != '"');
            lemma_parse_print_num(n, pre, rest);
        },
        ScalarView::Text(t) => {
            assert(s[i] == '"');
            assert(s =~= pre + spec_print_text(t) + rest);
            lemma_parse_print_text(t, pre, rest);
        },
    }
}

} // verus!

verus! {

/// A printed member value is never empty and never opens with whitespace.
proof fn lemma_print_field_head(f: FieldView)
    ensures
        spec_print_field(f).len() >= 1,
        !spec_is_ws(spec_print_field(f)[0]),
{
    match f {
        FieldView::Scalar(v) => {
            lemma_print_scalar_head(v);
        },
        FieldView::Object(ms) => {
            assert(spec_print_inner(ms)[0] == '{');
        },
    }
}

/// Parsing printed members of a nested object, followed by the closing
/// brace, recovers the members.
#[verifier::rlimit(100)]
#[verifier::spinoff_prover]
proof fn lemma_parse_print_inner_members(
    ms: Seq<(Seq<char>, ScalarView)>,
    pre: Seq<char>,
    rest: Seq<char>,
)
    requires
        ms.len() >= 1,
    ensures
        spec_p_inner_members1(
            pre + spec_print_inner_members(ms) + seq!['}'] + rest,
            pre.len() as int,
        ) == Some::<(Seq<(Seq<char>, ScalarView)>, int)>(
            (ms, pre.len() as int + spec_print_inner_members(ms).len() + 1),
        ),
    decreases ms.len(),
{
    let body = spec_print_inner_members(ms);
    let s = pre + body + seq!['}'] + rest;
    let i = pre.len() as int;
    let k0 = ms[0].0;
    let v0 = ms[0].1;
    let a = spec_print_text(k0);
    let b = spec_print_scalar(v0);
    let i2 = i + a.len();
    let i3 = i2 + 1;
    let i4 = i3 + b.len();
    let tail = ms.drop_first();
    let tbody = spec_print_inner_members(tail);
    if ms.len() == 1 {
        assert(body == a + seq![':'] + b);
    } else {
        assert(body == a + seq![':'] + b + seq![','] + tbody);
    }
    let sep: char = if ms.len() == 1 { '}' } else { ',' };
    let after = if ms.len() == 1 { seq!['}'] + rest } else { seq![','] + tbody + seq!['}'] + rest };
    assert(s =~= pre + a + seq![':'] + b + after);
    assert(spec_p_text(s, i) == Some::<(Seq<char>, int)>((k0, i2))) by {
        let restk = seq![':'] + b + after;
        assert(s =~= pre + a + restk);
        lemma_parse_print_text(k0, pre, restk);
    };
    assert(spec_p_scalar(s, i3) == Some::<(ScalarView, int)>((v0, i4))) by {
        let prev = pre + a + seq![':'];
        assert(s =~= prev + b + after);
        assert(after[0] == ',' || after[0] == '}');
        lemma_parse_print_scalar(v0, prev, after);
    };
    assert(s[i] == '"' && s[i2] == ':' && s[i3] == b[0] && s[i4] == sep) by {
        assert(a[0] == '"');
    };
    assert(spec_ws_end(s, i) == i && spec_ws_end(s, i2) == i2 && spec_ws_end(s, i3) == i3
        && spec_ws_end(s, i4) == i4) by {
        lemma_print_scalar_head(v0);
    };
    if ms.len() == 1 {
        assert(spec_p_inner_members1(s, i) == Some::<(Seq<(Seq<char>, ScalarView)>, int)>(
            (seq![(k0, v0)], i4 + 1),
        ));
        assert(seq![(k0, v0)] =~= ms);
    } else {
        let pre2 = pre + a + seq![':'] + b + seq![','];
        assert(spec_p_inner_members1(s, i4 + 1) == Some::<(Seq<(Seq<char>, ScalarView)>, int)>(
            (tail, pre2.len() as int + tbody.len() + 1),
        )) by {
            assert(s =~= pre2 + tbody + seq!['}'] + rest);
            lemma_parse_print_inner_members(tail, pre2, rest);
            assert(i4 + 1 == pre2.len());
        };
        assert(spec_p_inner_members1(s, i) == Some::<(Seq<(Seq<char>, ScalarView)>, int)>(
            (seq![(k0, v0)] + tail, pre2.len() as int + tbody.len() + 1),
        ));
        assert(seq![(k0, v0)] + tail =~= ms);
        assert(pre2.len() as int + tbody.len() + 1 == i + body.len() + 1);
    }
}

/// Parsing a printed nested object recovers the members.
proof fn lemma_parse_print_inner(ms: Seq<(Seq<char>, ScalarView)>, pre: Seq<char>, rest: Seq<char>)
    ensures
        spec_p_inner(pre + spec_print_inner(ms) + rest, pre.len() as int) == Some::<
            (Seq<(Seq<char>, ScalarView)>, int),
        >((ms, pre.len() as int + spec_print_inner(ms).len())),
{
    let body = spec_print_inner_members(ms);
    let s = pre + spec_print_inner(ms) + rest;
    let i = pre.len() as int;
    assert(s[i] == '{');
    if ms.len() == 0 {
        assert(body =~= Seq::<char>::empty());
        assert(s[i + 1] == '}');
        assert(spec_ws_end(s, i + 1) == i + 1);
        assert(ms =~= Seq::<(Seq<char>, ScalarView)>::empty());
    } else {
        let pre2 = pre + seq!['{'];
        assert(s =~= pre2 + body + seq!['}'] + rest);
        lemma_parse_print_inner_members(ms, pre2, rest);
        assert(s[i + 1] == spec_print_text(ms[0].0)[0]);
        assert(s[i + 1] == '"');
        assert(spec_ws_end(s, i + 1) == i + 1);
        assert(spec_p_inner(s, i) == Some::<(Seq<(Seq<char>, ScalarView)>, int)>(
            (ms, pre2.len() as int + body.len() + 1),
        ));
    }
}

/// Parsing a printed member value, followed by a comma or closing brace,
/// recovers the value.
proof fn lemma_parse_print_field(f: FieldView, pre: Seq<char>, rest: Seq<char>)
    requires
        rest.len() >= 1,
        rest[0] == ',' || rest[0] == '}',
    ensures
        spec_p_field(pre + spec_print_field(f) + rest, pre.len() as int) == Some::<
            (FieldView, int),
        >((f, pre.len() as int + spec_print_field(f).len())),
{
    let s = pre + spec_print_field(f) + rest;
    let i = pre.len() as int;
    match f {
        FieldView::Scalar(v) => {
            lemma_print_scalar_head(v);
            assert(s[i] == spec_print_scalar(v)[0]);
            assert(s[i] != '{');
            lemma_parse_print_scalar(v, pre, rest);
        },
        FieldView::Object(ms) => {
            assert(s[i] == '{');
            lemma_parse_print_inner(ms, pre, rest);
        },
    }
}

/// Parsing printed members of a top-level object, followed by the closing
/// brace, recovers the members.
#[verifier::rlimit(100)]
#[verifier::spinoff_prover]
proof fn lemma_parse_print_top_members(
    ms: Seq<(Seq<char>, FieldView)>,
    pre: Seq<char>,
    rest: Seq<char>,
)
    requires
        ms.len() >= 1,
    ensures
        spec_p_top_members1(
            pre + spec_print_top_members(ms) + seq!['}'] + rest,
            pre.len() as int,
        ) == Some::<(Seq<(Seq<char>, FieldView)>, int)>(
            (ms, pre.len() as int + spec_print_top_members(ms).len() + 1),
        ),
    decreases ms.len(),
{
    let body = spec_print_top_members(ms);
    let s = pre + body + seq!['}'] + rest;
    let i = pre.len() as int;
    let k0 = ms[0].0;
    let v0 = ms[0].1;
    let a = spec_print_text(k0);
    let b = spec_print_field(v0);
    let i2 = i + a.len();
    let i3 = i2 + 1;
    let i4 = i3 + b.len();
    let tail = ms.drop_first();
    let tbody = spec_print_top_members(tail);
    if ms.len() == 1 {
        assert(body == a + seq![':'] + b);
    } else {
        assert(body == a + seq![':'] + b + seq![','] + tbody);
    }
    let sep: char = if ms.len() == 1 { '}' } else { ',' };
    let after = if ms.len() == 1 { seq!['}'] + rest } else { seq![','] + tbody + seq!['}'] + rest };
    assert(s =~= pre + a + seq![':'] + b + after);
    assert(spec_p_text(s, i) == Some::<(Seq<char>, int)>((k0, i2))) by {
        let restk = seq![':'] + b + after;
        assert(s =~= pre + a + restk);
        lemma_parse_print_text(k0, pre, restk);
    };
    assert(spec_p_field(s, i3) == Some::<(FieldView, int)>((v0, i4))) by {
        let prev = pre + a + seq![':'];
        assert(s =~= prev + b + after);
        assert(after[0] == ',' || after[0] == '}');
        lemma_parse_print_field(v0, prev, after);
    };
    assert(s[i] == '"' && s[i2] == ':' && s[i3] == b[0] && s[i4] == sep) by {
        assert(a[0] == '"');
    };
    assert(spec_ws_end(s, i) == i && spec_ws_end(s, i2) == i2 && spec_ws_end(s, i3) == i3
        && spec_ws_end(s, i4) == i4) by {
        lemma_print_field_head(v0);
    };
    if ms.len() == 1 {
        assert(spec_p_top_members1(s, i) == Some::<(Seq<(Seq<char>, FieldView)>, int)>(
            (seq![(k0, v0)], i4 + 1),
        ));
        assert(seq![(k0, v0)] =~= ms);
    } else {
        let pre2 = pre + a + seq![':'] + b + seq![','];
        assert(spec_p_top_members1(s, i4 + 1) == Some::<(Seq<(Seq<char>, FieldView)>, int)>(
            (tail, pre2.len() as int + tbody.len() + 1),
        )) by {
            assert(s =~= pre2 + tbody + seq!['}'] + rest);
            lemma_parse_print_top_members(tail, pre2, rest);
            assert(i4 + 1 == pre2.len());
        };
        assert(spec_p_top_members1(s, i) == Some::<(Seq<(Seq<char>, FieldView)>, int)>(
            (seq![(k0, v0)] + tail, pre2.len() as int + tbody.len() + 1),
        ));
        assert(seq![(k0, v0)] + tail =~= ms);
        assert(pre2.len() as int + tbody.len() + 1 == i + body.len() + 1);
    }
}

/// Parsing a printed wire object recovers the object: the printer and the
/// parser are inverse over the grammar.
pub proof fn lemma_parse_print_top(ms: Seq<(Seq<char>, FieldView)>)
    ensures
        spec_p_top(spec_print_top(ms)) == Some(ms),
{
    let body = spec_print_top_members(ms);
    let s = spec_print_top(ms);
    assert(s[0] == '{');
    assert(spec_ws_end(s, 0) == 0);
    if ms.len() == 0 {
        assert(body =~= Seq::<char>::empty());
        assert(s[1] == '}');
        assert(spec_ws_end(s, 1) == 1);
        assert(s.len() == 2);
        assert(spec_ws_end(s, 2) == 2);
        assert(ms =~= Seq::<(Seq<char>, FieldView)>::empty());
    } else {
        let pre2 = seq!['{'];
        assert(s =~= pre2 + body + seq!['}'] + Seq::<char>::empty());
        lemma_parse_print_top_members(ms, pre2, Seq::<char>::empty());
        assert(s[1] == spec_print_text(ms[0].0)[0]);
        assert(s[1] == '"');
        assert(spec_ws_end(s, 1) == 1);
        assert(spec_p_top_members1(s, 1) == Some::<(Seq<(Seq<char>, FieldView)>, int)>(
            (ms, 1int + body.len() + 1),
        ));
        assert(1 + body.len() + 1 == s.len());
        assert(spec_ws_end(s, s.len() as int) == s.len());
    }
}

} // verus!
