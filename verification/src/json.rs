use vstd::prelude::*;
use crate::text::{chars_to_string, str_to_chars, str_eq};
use crate::error::OciSpecError;

verus! {

broadcast use vstd::seq::axiom_seq_index_decreases, vstd::seq::axiom_seq_subrange_decreases,
    vstd::std_specs::vec::axiom_vec_index_decreases, vstd::std_specs::vec::axiom_vec_decreases_to_view;

/// The mathematical model of a wire-format document: null, a boolean, an
/// integer, a text string, an ordered array, or an object whose fields keep
/// their document order.
#[verifier::ext_equal]
pub enum JsonData {
    Null,
    Bool(bool),
    Int(int),
    Text(Seq<char>),
    Arr(Seq<JsonData>),
    Obj(Seq<(Seq<char>, JsonData)>),
}

/// An in-memory wire-format document. Its view is the corresponding
/// [`JsonData`] model value.
#[derive(Debug, PartialEq, Eq)]
pub enum Json {
    Null,
    Bool(bool),
    Int(i64),
    Text(String),
    Arr(Vec<Json>),
    Obj(Vec<(String, Json)>),
}

pub open spec fn jview(j: Json) -> JsonData
    decreases j,
{
    match j {
        Json::Null => JsonData::Null,
        Json::Bool(b) => JsonData::Bool(b),
        Json::Int(i) => JsonData::Int(i as int),
        Json::Text(s) => JsonData::Text(s@),
        Json::Arr(v) => JsonData::Arr(jview_list(v@)),
        Json::Obj(v) => JsonData::Obj(jview_fields(v@)),
    }
}

pub open spec fn jview_list(v: Seq<Json>) -> Seq<JsonData>
    decreases v,
{
    if v.len() == 0 {
        Seq::empty()
    } else {
        seq![jview(v[0])] + jview_list(v.subrange(1, v.len() as int))
    }
}

pub open spec fn jview_fields(v: Seq<(String, Json)>) -> Seq<(Seq<char>, JsonData)>
    decreases v,
{
    if v.len() == 0 {
        Seq::empty()
    } else {
        seq![(v[0].0@, jview(v[0].1))] + jview_fields(v.subrange(1, v.len() as int))
    }
}

impl View for Json {
    type V = JsonData;

    open spec fn view(&self) -> JsonData {
        jview(*self)
    }
}

pub proof fn lemma_jview_list(v: Seq<Json>)
    ensures
        jview_list(v).len() == v.len(),
        forall|k: int| 0 <= k < v.len() ==> jview_list(v)[k] == jview(v[k]),
    decreases v.len(),
{
    if v.len() > 0 {
        lemma_jview_list(v.subrange(1, v.len() as int));
    }
}

pub proof fn lemma_jview_fields(v: Seq<(String, Json)>)
    ensures
        jview_fields(v).len() == v.len(),
        forall|k: int|
            0 <= k < v.len() ==> jview_fields(v)[k] == (v[k].0@, jview(v[k].1)),
    decreases v.len(),
{
    if v.len() > 0 {
        lemma_jview_fields(v.subrange(1, v.len() as int));
    }
}

/// The sixteen lowercase hexadecimal digit characters, by value.
pub open spec fn hex_digit(d: int) -> char {
    if d == 0 { '0' } else if d == 1 { '1' } else if d == 2 { '2' } else if d == 3 { '3' }
    else if d == 4 { '4' } else if d == 5 { '5' } else if d == 6 { '6' } else if d == 7 { '7' }
    else if d == 8 { '8' } else if d == 9 { '9' } else if d == 10 { 'a' } else if d == 11 { 'b' }
    else if d == 12 { 'c' } else if d == 13 { 'd' } else if d == 14 { 'e' } else { 'f' }
}

/// How one character of a string is written on the wire: the two-character
/// short escapes, a `\u00xx` escape for the other control characters, and
/// the character itself otherwise.
pub open spec fn escape_char(c: char) -> Seq<char> {
    if c == '"' { seq!['\\', '"'] }
    else if c == '\\' { seq!['\\', '\\'] }
    else if c == '\u{8}' { seq!['\\', 'b'] }
    else if c == '\u{c}' { seq!['\\', 'f'] }
    else if c == '\n' { seq!['\\', 'n'] }
    else if c == '\r' { seq!['\\', 'r'] }
    else if c == '\t' { seq!['\\', 't'] }
    else if (c as u32) < 0x20 {
        seq!['\\', 'u', '0', '0', hex_digit((c as u32) as int / 16), hex_digit((c as u32) as int % 16)]
    } else {
        seq![c]
    }
}

/// The body of a string literal on the wire: each character escaped.
pub open spec fn escape_str(s: Seq<char>) -> Seq<char>
    decreases s.len(),
{
    if s.len() == 0 {
        Seq::empty()
    } else {
        escape_char(s[0]) + escape_str(s.subrange(1, s.len() as int))
    }
}

pub proof fn lemma_escape_append(a: Seq<char>, b: Seq<char>)
    ensures
        escape_str(a + b) == escape_str(a) + escape_str(b),
    decreases a.len(),
{
    if a.len() == 0 {
        assert(a + b =~= b);
        assert(escape_str(a) + escape_str(b) =~= escape_str(b));
    } else {
        assert((a + b).subrange(1, (a + b).len() as int) =~= a.subrange(1, a.len() as int) + b);
        lemma_escape_append(a.subrange(1, a.len() as int), b);
        assert(escape_char((a + b)[0]) + (escape_str(a.subrange(1, a.len() as int)) + escape_str(b))
            =~= escape_str(a) + escape_str(b));
    }
}

/// The decimal digits of a nonnegative integer, most significant first.
pub open spec fn dec_digits(n: nat) -> Seq<char>
    decreases n,
{
    if n < 10 {
        seq![hex_digit(n as int)]
    } else {
        dec_digits(n / 10) + seq![hex_digit((n % 10) as int)]
    }
}

/// The wire text of an integer: a minus sign for negative values, then the
/// decimal digits of the magnitude.
pub open spec fn int_text(i: int) -> Seq<char> {
    if i < 0 {
        seq!['-'] + dec_digits((-i) as nat)
    } else {
        dec_digits(i as nat)
    }
}

/// The wire text of a document: no inter-token whitespace, object fields in
/// order, strings escaped as [`escape_str`] says.
pub open spec fn render(j: JsonData) -> Seq<char>
    decreases j,
{
    match j {
        JsonData::Null => seq!['n', 'u', 'l', 'l'],
        JsonData::Bool(b) => if b { seq!['t', 'r', 'u', 'e'] } else { seq!['f', 'a', 'l', 's', 'e'] },
        JsonData::Int(i) => int_text(i),
        JsonData::Text(s) => seq!['"'] + escape_str(s) + seq!['"'],
        JsonData::Arr(items) => seq!['['] + render_list(items) + seq![']'],
        JsonData::Obj(fields) => seq!['{'] + render_fields(fields) + seq!['}'],
    }
}

pub open spec fn render_list(items: Seq<JsonData>) -> Seq<char>
    decreases items,
{
    if items.len() == 0 {
        Seq::empty()
    } else {
        render(items[0]) + render_list_tail(items.subrange(1, items.len() as int))
    }
}

pub open spec fn render_list_tail(items: Seq<JsonData>) -> Seq<char>
    decreases items,
{
    if items.len() == 0 {
        Seq::empty()
    } else {
        seq![','] + render(items[0]) + render_list_tail(items.subrange(1, items.len() as int))
    }
}

pub open spec fn render_field(f: (Seq<char>, JsonData)) -> Seq<char>
    decreases f,
{
    seq!['"'] + escape_str(f.0) + seq!['"', ':'] + render(f.1)
}

pub open spec fn render_fields(fields: Seq<(Seq<char>, JsonData)>) -> Seq<char>
    decreases fields,
{
    if fields.len() == 0 {
        Seq::empty()
    } else {
        render_field(fields[0]) + render_fields_tail(fields.subrange(1, fields.len() as int))
    }
}

pub open spec fn render_fields_tail(fields: Seq<(Seq<char>, JsonData)>) -> Seq<char>
    decreases fields,
{
    if fields.len() == 0 {
        Seq::empty()
    } else {
        seq![','] + render_field(fields[0]) + render_fields_tail(fields.subrange(1, fields.len() as int))
    }
}

fn hex_digit_ex(d: u32) -> (c: char)
    requires
        d < 16,
    ensures
        c == hex_digit(d as int),
{
    if d == 0 { '0' } else if d == 1 { '1' } else if d == 2 { '2' } else if d == 3 { '3' }
    else if d == 4 { '4' } else if d == 5 { '5' } else if d == 6 { '6' } else if d == 7 { '7' }
    else if d == 8 { '8' } else if d == 9 { '9' } else if d == 10 { 'a' } else if d == 11 { 'b' }
    else if d == 12 { 'c' } else if d == 13 { 'd' } else if d == 14 { 'e' } else { 'f' }
}

fn escape_char_into(c: char, out: &mut Vec<char>)
    ensures
        final(out)@ == old(out)@ + escape_char(c),
{
    if c == '"' {
        out.push('\\');
        out.push('"');
    } else if c == '\\' {
        out.push('\\');
        out.push('\\');
    } else if c == '\u{8}' {
        out.push('\\');
        out.push('b');
    } else if c == '\u{c}' {
        out.push('\\');
        out.push('f');
    } else if c == '\n' {
        out.push('\\');
        out.push('n');
    } else if c == '\r' {
        out.push('\\');
        out.push('r');
    } else if c == '\t' {
        out.push('\\');
        out.push('t');
    } else if (c as u32) < 0x20 {
        out.push('\\');
        out.push('u');
        out.push('0');
        out.push('0');
        out.push(hex_digit_ex((c as u32) / 16));
        out.push(hex_digit_ex((c as u32) % 16));
    } else {
        out.push(c);
    }
    proof {
        assert(out@ =~= old(out)@ + escape_char(c));
    }
}

fn escape_into(s: &str, out: &mut Vec<char>)
    ensures
        final(out)@ == old(out)@ + escape_str(s@),
{
    let len = s.unicode_len();
    let mut i: usize = 0;
    while i < len
        invariant
            len == s@.len(),
            i <= len,
            out@ == old(out)@ + escape_str(s@.subrange(0, i as int)),
        decreases len - i,
    {
        let c = s.get_char(i);
        escape_char_into(c, out);
        proof {
            assert(s@.subrange(0, i + 1 as int)
                =~= s@.subrange(0, i as int) + seq![s@[i as int]]);
            lemma_escape_append(s@.subrange(0, i as int), seq![s@[i as int]]);
            let one = seq![s@[i as int]];
            assert(one.subrange(1, 1) =~= Seq::<char>::empty());
            assert(escape_str(Seq::<char>::empty()) =~= Seq::<char>::empty());
            assert(escape_str(one) =~= escape_char(s@[i as int]));
        }
        i += 1;
    }
    proof {
        assert(s@.subrange(0, len as int) =~= s@);
    }
}

fn render_string_into(s: &str, out: &mut Vec<char>)
    ensures
        final(out)@ == old(out)@ + seq!['"'] + escape_str(s@) + seq!['"'],
{
    out.push('"');
    escape_into(s, out);
    out.push('"');
}

fn render_u64_into(n: u64, out: &mut Vec<char>)
    ensures
        final(out)@ == old(out)@ + dec_digits(n as nat),
    decreases n,
{
    if n < 10 {
        out.push(hex_digit_ex(n as u32));
    } else {
        render_u64_into(n / 10, out);
        out.push(hex_digit_ex((n % 10) as u32));
    }
    proof {
        assert(out@ =~= old(out)@ + dec_digits(n as nat));
    }
}

fn render_i64_into(i: i64, out: &mut Vec<char>)
    ensures
        final(out)@ == old(out)@ + int_text(i as int),
{
    if i < 0 {
        out.push('-');
        let mag: u64 = if i == -9223372036854775808i64 {
            9223372036854775808u64
        } else {
            (-i) as u64
        };
        proof {
            assert(mag as nat == (-(i as int)) as nat);
        }
        render_u64_into(mag, out);
        proof {
            assert(out@ =~= old(out)@ + int_text(i as int));
        }
    } else {
        render_u64_into(i as u64, out);
    }
}

fn render_value_into(j: &Json, out: &mut Vec<char>)
    ensures
        final(out)@ == old(out)@ + render(j@),
    decreases *j,
{
    match j {
        Json::Null => {
            out.push('n');
            out.push('u');
            out.push('l');
            out.push('l');
            proof {
                assert(out@ =~= old(out)@ + render(j@));
            }
        },
        Json::Bool(b) => {
            if *b {
                out.push('t');
                out.push('r');
                out.push('u');
                out.push('e');
            } else {
                out.push('f');
                out.push('a');
                out.push('l');
                out.push('s');
                out.push('e');
            }
            proof {
                assert(out@ =~= old(out)@ + render(j@));
            }
        },
        Json::Int(i) => {
            render_i64_into(*i, out);
        },
        Json::Text(s) => {
            render_string_into(s.as_str(), out);
            proof {
                assert(out@ =~= old(out)@ + render(j@));
            }
        },
        Json::Arr(v) => {
            out.push('[');
            render_items_into(v.as_slice(), out);
            out.push(']');
            proof {
                assert(v@.subrange(0, v@.len() as int) =~= v@);
                assert(out@ =~= old(out)@ + render(j@));
            }
        },
        Json::Obj(v) => {
            out.push('{');
            render_obj_fields_into(v.as_slice(), out);
            out.push('}');
            proof {
                assert(v@.subrange(0, v@.len() as int) =~= v@);
                assert(out@ =~= old(out)@ + render(j@));
            }
        },
    }
}

fn render_items_into(items: &[Json], out: &mut Vec<char>)
    ensures
        final(out)@ == old(out)@ + render_list(jview_list(items@)),
    decreases items@,
{
    proof {
        lemma_jview_list(items@);
    }
    if items.len() == 0 {
        proof {
            assert(out@ =~= old(out)@ + render_list(jview_list(items@)));
        }
        return ;
    }
    render_value_into(&items[0], out);
    render_items_tail_into(&items[1..items.len()], out);
    proof {
        assert(jview_list(items@).subrange(1, jview_list(items@).len() as int)
            =~= jview_list(items@.subrange(1, items@.len() as int))) by {
            lemma_jview_list(items@);
            lemma_jview_list(items@.subrange(1, items@.len() as int));
        }
        assert(out@ =~= old(out)@ + render_list(jview_list(items@)));
    }
}

fn render_items_tail_into(items: &[Json], out: &mut Vec<char>)
    ensures
        final(out)@ == old(out)@ + render_list_tail(jview_list(items@)),
    decreases items@,
{
    proof {
        lemma_jview_list(items@);
    }
    if items.len() == 0 {
        proof {
            assert(out@ =~= old(out)@ + render_list_tail(jview_list(items@)));
        }
        return ;
    }
    out.push(',');
    render_value_into(&items[0], out);
    render_items_tail_into(&items[1..items.len()], out);
    proof {
        assert(jview_list(items@).subrange(1, jview_list(items@).len() as int)
            =~= jview_list(items@.subrange(1, items@.len() as int))) by {
            lemma_jview_list(items@);
            lemma_jview_list(items@.subrange(1, items@.len() as int));
        }
        assert(out@ =~= old(out)@ + render_list_tail(jview_list(items@)));
    }
}

fn render_one_field_into(f: &(String, Json), out: &mut Vec<char>)
    ensures
        final(out)@ == old(out)@ + render_field((f.0@, jview(f.1))),
    decreases *f,
{
    render_string_into(f.0.as_str(), out);
    out.push(':');
    render_value_into(&f.1, out);
    proof {
        assert(out@ =~= old(out)@ + render_field((f.0@, jview(f.1))));
    }
}

fn render_obj_fields_into(fields: &[(String, Json)], out: &mut Vec<char>)
    ensures
        final(out)@ == old(out)@ + render_fields(jview_fields(fields@)),
    decreases fields@,
{
    proof {
        lemma_jview_fields(fields@);
    }
    if fields.len() == 0 {
        proof {
            assert(out@ =~= old(out)@ + render_fields(jview_fields(fields@)));
        }
        return ;
    }
    render_one_field_into(&fields[0], out);
    render_obj_fields_tail_into(&fields[1..fields.len()], out);
    proof {
        assert(jview_fields(fields@).subrange(1, jview_fields(fields@).len() as int)
            =~= jview_fields(fields@.subrange(1, fields@.len() as int))) by {
            lemma_jview_fields(fields@);
            lemma_jview_fields(fields@.subrange(1, fields@.len() as int));
        }
        assert(out@ =~= old(out)@ + render_fields(jview_fields(fields@)));
    }
}

fn render_obj_fields_tail_into(fields: &[(String, Json)], out: &mut Vec<char>)
    ensures
        final(out)@ == old(out)@ + render_fields_tail(jview_fields(fields@)),
    decreases fields@,
{
    proof {
        lemma_jview_fields(fields@);
    }
    if fields.len() == 0 {
        proof {
            assert(out@ =~= old(out)@ + render_fields_tail(jview_fields(fields@)));
        }
        return ;
    }
    out.push(',');
    render_one_field_into(&fields[0], out);
    render_obj_fields_tail_into(&fields[1..fields.len()], out);
    proof {
        assert(jview_fields(fields@).subrange(1, jview_fields(fields@).len() as int)
            =~= jview_fields(fields@.subrange(1, fields@.len() as int))) by {
            lemma_jview_fields(fields@);
            lemma_jview_fields(fields@.subrange(1, fields@.len() as int));
        }
        assert(out@ =~= old(out)@ + render_fields_tail(jview_fields(fields@)));
    }
}

impl Json {
    /// The exact wire text of this document: what [`render`] says of its
    /// model value.
    pub fn to_text(&self) -> (r: String)
        ensures
            r@ == render(self@),
    {
        let mut out: Vec<char> = Vec::new();
        render_value_into(self, &mut out);
        chars_to_string(&out)
    }
}

/// The four whitespace characters the wire format allows between tokens.
pub open spec fn is_ws(c: char) -> bool {
    c == ' ' || c == '\n' || c == '\r' || c == '\t'
}

pub open spec fn is_digit(c: char) -> bool {
    48 <= (c as u32) && (c as u32) <= 57
}

pub open spec fn digit_val(c: char) -> int {
    (c as u32) - 48
}

/// The value of one hexadecimal digit character, upper or lower case.
pub open spec fn hex_val(c: char) -> Option<int> {
    if 48 <= (c as u32) && (c as u32) <= 57 {
        Some((c as u32) - 48)
    } else if 97 <= (c as u32) && (c as u32) <= 102 {
        Some((c as u32) - 87)
    } else if 65 <= (c as u32) && (c as u32) <= 70 {
        Some((c as u32) - 55)
    } else {
        None
    }
}

/// The value of the four hexadecimal digits at `i`.
pub open spec fn hex4(s: Seq<char>, i: int) -> Option<int> {
    if hex_val(s[i]) is Some && hex_val(s[i + 1]) is Some && hex_val(s[i + 2]) is Some
        && hex_val(s[i + 3]) is Some {
        Some(
            4096 * hex_val(s[i])->0 + 256 * hex_val(s[i + 1])->0 + 16 * hex_val(s[i + 2])->0
                + hex_val(s[i + 3])->0,
        )
    } else {
        None
    }
}

/// The character that a two-character escape stands for, if the second
/// character is one of the eight the wire format recognises.
pub open spec fn unescape_char(e: char) -> Option<char> {
    if e == '"' { Some('"') }
    else if e == '\\' { Some('\\') }
    else if e == '/' { Some('/') }
    else if e == 'b' { Some('\u{8}') }
    else if e == 'f' { Some('\u{c}') }
    else if e == 'n' { Some('\n') }
    else if e == 'r' { Some('\r') }
    else if e == 't' { Some('\t') }
    else { None }
}

/// Parse the body of a string literal starting at `i` (just after the
/// opening quote), up to and including the closing quote. Yields the
/// unescaped characters and the index after the closing quote. A
/// `\uXXXX` escape yields the character with that code; a surrogate
/// pair of escapes yields the supplementary character it encodes; an
/// unpaired surrogate is rejected.
pub open spec fn parse_string_body(s: Seq<char>, i: int) -> Option<(Seq<char>, int)>
    decreases s.len() - i,
{
    if i >= s.len() {
        None
    } else if s[i] == '"' {
        Some((Seq::empty(), i + 1))
    } else if s[i] == '\\' {
        if i + 1 >= s.len() {
            None
        } else if s[i + 1] == 'u' {
            if i + 6 > s.len() {
                None
            } else {
                match hex4(s, i + 2) {
                    None => None,
                    Some(code) => if code < 0xd800 || code >= 0xe000 {
                        match parse_string_body(s, i + 6) {
                            None => None,
                            Some((rest, j)) => Some((seq![(code as u32) as char] + rest, j)),
                        }
                    } else if code < 0xdc00 {
                        // a high surrogate: a low-surrogate escape must follow
                        if i + 12 > s.len() {
                            None
                        } else if s[i + 6] == '\\' && s[i + 7] == 'u' {
                            match hex4(s, i + 8) {
                                None => None,
                                Some(lo) => if 0xdc00 <= lo < 0xe000 {
                                    let combined = 0x10000 + (code - 0xd800) * 0x400 + (lo
                                        - 0xdc00);
                                    match parse_string_body(s, i + 12) {
                                        None => None,
                                        Some((rest, j)) => Some(
                                            (seq![(combined as u32) as char] + rest, j),
                                        ),
                                    }
                                } else {
                                    None
                                },
                            }
                        } else {
                            None
                        }
                    } else {
                        None
                    },
                }
            }
        } else {
            match unescape_char(s[i + 1]) {
                None => None,
                Some(c) => match parse_string_body(s, i + 2) {
                    None => None,
                    Some((rest, j)) => Some((seq![c] + rest, j)),
                },
            }
        }
    } else if (s[i] as u32) < 0x20 {
        None
    } else {
        match parse_string_body(s, i + 1) {
            None => None,
            Some((rest, j)) => Some((seq![s[i]] + rest, j)),
        }
    }
}

/// Parse a run of decimal digits, accumulating onto `acc`; stops at the
/// first non-digit. Magnitudes above `2^63` are rejected.
pub open spec fn parse_digits(s: Seq<char>, i: int, acc: int) -> Option<(int, int)>
    decreases s.len() - i,
{
    if i < s.len() && is_digit(s[i]) {
        let acc2 = acc * 10 + digit_val(s[i]);
        if acc2 > 0x8000_0000_0000_0000 {
            None
        } else {
            parse_digits(s, i + 1, acc2)
        }
    } else {
        Some((acc, i))
    }
}

/// Parse an integer: an optional minus sign and at least one digit.
pub open spec fn parse_int(s: Seq<char>, i: int) -> Option<(int, int)> {
    if i < s.len() && s[i] == '-' {
        if i + 1 < s.len() && is_digit(s[i + 1]) {
            match parse_digits(s, i + 1, 0) {
                None => None,
                Some((m, j)) => Some((-m, j)),
            }
        } else {
            None
        }
    } else if i < s.len() && is_digit(s[i]) {
        match parse_digits(s, i, 0) {
            None => None,
            Some((m, j)) => if m <= 0x7fff_ffff_ffff_ffff {
                Some((m, j))
            } else {
                None
            },
        }
    } else {
        None
    }
}

/// Parse one document value starting at `i`, skipping leading whitespace.
/// Yields the value and the index just after it.
pub open spec fn parse_val(s: Seq<char>, i: int) -> Option<(JsonData, int)>
    decreases s.len() - i, 1int,
{
    if i >= s.len() {
        None
    } else if is_ws(s[i]) {
        parse_val(s, i + 1)
    } else if s[i] == 'n' {
        if i + 4 <= s.len() && s[i + 1] == 'u' && s[i + 2] == 'l' && s[i + 3] == 'l' {
            Some((JsonData::Null, i + 4))
        } else {
            None
        }
    } else if s[i] == 't' {
        if i + 4 <= s.len() && s[i + 1] == 'r' && s[i + 2] == 'u' && s[i + 3] == 'e' {
            Some((JsonData::Bool(true), i + 4))
        } else {
            None
        }
    } else if s[i] == 'f' {
        if i + 5 <= s.len() && s[i + 1] == 'a' && s[i + 2] == 'l' && s[i + 3] == 's' && s[i + 4]
            == 'e' {
            Some((JsonData::Bool(false), i + 5))
        } else {
            None
        }
    } else if s[i] == '"' {
        match parse_string_body(s, i + 1) {
            None => None,
            Some((t, j)) => Some((JsonData::Text(t), j)),
        }
    } else if s[i] == '[' {
        match parse_items(s, i + 1, Seq::empty()) {
            None => None,
            Some((items, j)) => Some((JsonData::Arr(items), j)),
        }
    } else if s[i] == '{' {
        match parse_fields(s, i + 1, Seq::empty()) {
            None => None,
            Some((fields, j)) => Some((JsonData::Obj(fields), j)),
        }
    } else if s[i] == '-' || is_digit(s[i]) {
        match parse_int(s, i) {
            None => None,
            Some((n, j)) => Some((JsonData::Int(n), j)),
        }
    } else {
        None
    }
}

/// Inside an array, expect either the closing bracket (only while no
/// element has been read) or the next element.
pub open spec fn parse_items(s: Seq<char>, i: int, acc: Seq<JsonData>) -> Option<
    (Seq<JsonData>, int),
>
    decreases s.len() - i, 2int,
{
    if i >= s.len() {
        None
    } else if is_ws(s[i]) {
        parse_items(s, i + 1, acc)
    } else if s[i] == ']' && acc.len() == 0 {
        Some((acc, i + 1))
    } else {
        match parse_val(s, i) {
            None => None,
            Some((v, j)) => if i < j && j <= s.len() {
                parse_items_tail(s, j, acc.push(v))
            } else {
                None
            },
        }
    }
}

/// Inside an array after an element: expect the closing bracket or a comma
/// and the next element.
pub open spec fn parse_items_tail(s: Seq<char>, i: int, acc: Seq<JsonData>) -> Option<
    (Seq<JsonData>, int),
>
    decreases s.len() - i, 2int,
{
    if i >= s.len() {
        None
    } else if is_ws(s[i]) {
        parse_items_tail(s, i + 1, acc)
    } else if s[i] == ']' {
        Some((acc, i + 1))
    } else if s[i] == ',' {
        match parse_val(s, i + 1) {
            None => None,
            Some((v, j)) => if i + 1 <= j && j <= s.len() {
                parse_items_tail(s, j, acc.push(v))
            } else {
                None
            },
        }
    } else {
        None
    }
}

/// Inside an object, expect either the closing brace (only while no field
/// has been read) or the next field's key.
pub open spec fn parse_fields(s: Seq<char>, i: int, acc: Seq<(Seq<char>, JsonData)>) -> Option<
    (Seq<(Seq<char>, JsonData)>, int),
>
    decreases s.len() - i, 2int,
{
    if i >= s.len() {
        None
    } else if is_ws(s[i]) {
        parse_fields(s, i + 1, acc)
    } else if s[i] == '}' && acc.len() == 0 {
        Some((acc, i + 1))
    } else if s[i] == '"' {
        match parse_string_body(s, i + 1) {
            None => None,
            Some((k, j)) => if i + 1 < j && j <= s.len() {
                parse_field_val(s, j, acc, k)
            } else {
                None
            },
        }
    } else {
        None
    }
}

/// After a field's key: expect a colon and the field's value.
pub open spec fn parse_field_val(
    s: Seq<char>,
    i: int,
    acc: Seq<(Seq<char>, JsonData)>,
    k: Seq<char>,
) -> Option<(Seq<(Seq<char>, JsonData)>, int)>
    decreases s.len() - i, 2int,
{
    if i >= s.len() {
        None
    } else if is_ws(s[i]) {
        parse_field_val(s, i + 1, acc, k)
    } else if s[i] == ':' {
        match parse_val(s, i + 1) {
            None => None,
            Some((v, j)) => if i + 1 <= j && j <= s.len() {
                parse_fields_tail(s, j, acc.push((k, v)))
            } else {
                None
            },
        }
    } else {
        None
    }
}

/// After a field: expect the closing brace or a comma and the next key.
pub open spec fn parse_fields_tail(s: Seq<char>, i: int, acc: Seq<(Seq<char>, JsonData)>) -> Option<
    (Seq<(Seq<char>, JsonData)>, int),
>
    decreases s.len() - i, 2int,
{
    if i >= s.len() {
        None
    } else if is_ws(s[i]) {
        parse_fields_tail(s, i + 1, acc)
    } else if s[i] == '}' {
        Some((acc, i + 1))
    } else if s[i] == ',' {
        parse_fields_key(s, i + 1, acc)
    } else {
        None
    }
}

/// After a comma in an object: expect the next field's key.
pub open spec fn parse_fields_key(s: Seq<char>, i: int, acc: Seq<(Seq<char>, JsonData)>) -> Option<
    (Seq<(Seq<char>, JsonData)>, int),
>
    decreases s.len() - i, 2int,
{
    if i >= s.len() {
        None
    } else if is_ws(s[i]) {
        parse_fields_key(s, i + 1, acc)
    } else if s[i] == '"' {
        match parse_string_body(s, i + 1) {
            None => None,
            Some((k, j)) => if i + 1 < j && j <= s.len() {
                parse_field_val(s, j, acc, k)
            } else {
                None
            },
        }
    } else {
        None
    }
}

/// True when only whitespace remains from `i` to the end.
pub open spec fn ws_only(s: Seq<char>, i: int) -> bool
    decreases s.len() - i,
{
    if i >= s.len() {
        true
    } else if is_ws(s[i]) {
        ws_only(s, i + 1)
    } else {
        false
    }
}

/// Parse a whole document: one value with nothing but whitespace after it.
pub open spec fn parse_doc(s: Seq<char>) -> Option<JsonData> {
    match parse_val(s, 0) {
        None => None,
        Some((v, j)) => if 0 <= j <= s.len() && ws_only(s, j) {
            Some(v)
        } else {
            None
        },
    }
}

/// The value of the first field named `key`, if the object has one.
pub open spec fn obj_lookup(fields: Seq<(Seq<char>, JsonData)>, key: Seq<char>) -> Option<JsonData>
    decreases fields.len(),
{
    if fields.len() == 0 {
        None
    } else if fields[0].0 == key {
        Some(fields[0].1)
    } else {
        obj_lookup(fields.subrange(1, fields.len() as int), key)
    }
}

pub proof fn lemma_obj_lookup_skip(fields: Seq<(Seq<char>, JsonData)>, key: Seq<char>, k: int)
    requires
        0 <= k <= fields.len(),
        forall|m: int| 0 <= m < k ==> fields[m].0 != key,
    ensures
        obj_lookup(fields, key) == obj_lookup(fields.subrange(k, fields.len() as int), key),
    decreases k,
{
    if k == 0 {
        assert(fields.subrange(0, fields.len() as int) =~= fields);
    } else {
        assert(fields[0].0 != key);
        let sub1 = fields.subrange(1, fields.len() as int);
        assert(forall|m: int| 0 <= m < k - 1 ==> sub1[m] == fields[m + 1] && sub1[m].0 != key);
        lemma_obj_lookup_skip(sub1, key, k - 1);
        assert(sub1.subrange(k - 1, sub1.len() as int) =~= fields.subrange(
            k,
            fields.len() as int,
        ));
    }
}

pub proof fn lemma_obj_lookup_at(fields: Seq<(Seq<char>, JsonData)>, key: Seq<char>, k: int)
    requires
        0 <= k < fields.len(),
        forall|m: int| 0 <= m < k ==> fields[m].0 != key,
        fields[k].0 == key,
    ensures
        obj_lookup(fields, key) == Some(fields[k].1),
{
    lemma_obj_lookup_skip(fields, key, k);
    assert(fields.subrange(k, fields.len() as int)[0] == fields[k]);
}

pub proof fn lemma_obj_lookup_none(fields: Seq<(Seq<char>, JsonData)>, key: Seq<char>)
    requires
        forall|m: int| 0 <= m < fields.len() ==> fields[m].0 != key,
    ensures
        obj_lookup(fields, key) is None,
{
    lemma_obj_lookup_skip(fields, key, fields.len() as int);
}

/// Whether the object names `key` at most once.
pub open spec fn key_unique(fields: Seq<(Seq<char>, JsonData)>, key: Seq<char>) -> bool {
    forall|i: int, j: int|
        0 <= i < j < fields.len() ==> !(fields[i].0 == key && fields[j].0 == key)
}

/// Check that an object's field list names `key` at most once.
pub fn key_unique_ex(fields: &Vec<(String, Json)>, key: &str) -> (r: bool)
    ensures
        r == key_unique(jview_fields(fields@), key@),
{
    proof {
        lemma_jview_fields(fields@);
    }
    let ghost fs = jview_fields(fields@);
    let mut seen = false;
    let mut first: usize = 0;
    let mut k: usize = 0;
    while k < fields.len()
        invariant
            k <= fields@.len(),
            fs == jview_fields(fields@),
            fs.len() == fields@.len(),
            forall|m: int| 0 <= m < fields@.len() ==> fs[m] == (fields@[m].0@, jview(
                fields@[m].1,
            )),
            seen ==> first < k && fs[first as int].0 == key@,
            forall|m: int| 0 <= m < k && (!seen || m != first as int) ==> fs[m].0 != key@,
        decreases fields@.len() - k,
    {
        if str_eq(fields[k].0.as_str(), key) {
            if seen {
                proof {
                    assert(fs[first as int].0 == key@ && fs[k as int].0 == key@ && first < k);
                }
                return false;
            }
            seen = true;
            first = k;
        }
        k += 1;
    }
    proof {
        assert forall|i: int, j: int|
            0 <= i < j < fs.len() implies !(fs[i].0 == key@ && fs[j].0 == key@) by {
            if fs[i].0 == key@ && fs[j].0 == key@ {
                assert(seen && i == first as int && j == first as int);
            }
        }
    }
    true
}

/// Find the first field named `key` in an object's field list.
pub fn obj_lookup_ex<'a>(fields: &'a Vec<(String, Json)>, key: &str) -> (r: Option<&'a Json>)
    ensures
        (r is None) == (obj_lookup(jview_fields(fields@), key@) is None),
        r matches Some(j) ==> obj_lookup(jview_fields(fields@), key@) == Some(j@),
{
    proof {
        lemma_jview_fields(fields@);
    }
    let ghost fs = jview_fields(fields@);
    let mut k: usize = 0;
    while k < fields.len()
        invariant
            k <= fields@.len(),
            fs == jview_fields(fields@),
            fs.len() == fields@.len(),
            forall|m: int| 0 <= m < fields@.len() ==> fs[m] == (fields@[m].0@, jview(
                fields@[m].1,
            )),
            forall|m: int| 0 <= m < k ==> fs[m].0 != key@,
        decreases fields@.len() - k,
    {
        if str_eq(fields[k].0.as_str(), key) {
            proof {
                lemma_obj_lookup_at(fs, key@, k as int);
            }
            return Some(&fields[k].1);
        }
        k += 1;
    }
    proof {
        lemma_obj_lookup_none(fs, key@);
    }
    None
}

/// Relies on char::from_u32: it yields the character with the given
/// code exactly when the code is a Unicode scalar value, that is, not a
/// surrogate and at most 0x10FFFF.
pub assume_specification[ char::from_u32 ](i: u32) -> (r: Option<char>)
    ensures
        (r is Some) == (i < 0xd800 || (0xe000 <= i && i <= 0x10ffff)),
        r matches Some(c) ==> c as u32 == i,
;

fn is_ws_ex(c: char) -> (r: bool)
    ensures
        r == is_ws(c),
{
    c == ' ' || c == '\n' || c == '\r' || c == '\t'
}

fn is_digit_ex(c: char) -> (r: bool)
    ensures
        r == is_digit(c),
{
    let u = c as u32;
    48 <= u && u <= 57
}

fn hex_val_ex(c: char) -> (r: Option<u32>)
    ensures
        (r is None) == (hex_val(c) is None),
        r matches Some(v) ==> hex_val(c) == Some(v as int) && v < 16,
{
    let u = c as u32;
    if 48 <= u && u <= 57 {
        Some(u - 48)
    } else if 97 <= u && u <= 102 {
        Some(u - 87)
    } else if 65 <= u && u <= 70 {
        Some(u - 55)
    } else {
        None
    }
}

fn hex4_ex(s: &Vec<char>, i: usize) -> (r: Option<u32>)
    requires
        i + 4 <= s@.len(),
    ensures
        (r is None) == (hex4(s@, i as int) is None),
        r matches Some(v) ==> hex4(s@, i as int) == Some(v as int) && v < 0x10000,
{
    let n = s.len();
    proof {
        assert(i + 4 <= n);
    }
    let h0 = hex_val_ex(s[i]);
    let h1 = hex_val_ex(s[i + 1]);
    let h2 = hex_val_ex(s[i + 2]);
    let h3 = hex_val_ex(s[i + 3]);
    match (h0, h1, h2, h3) {
        (Some(a), Some(b), Some(c), Some(d)) => Some(4096 * a + 256 * b + 16 * c + d),
        _ => None,
    }
}

fn unescape_char_ex(e: char) -> (r: Option<char>)
    ensures
        r == unescape_char(e),
{
    if e == '"' { Some('"') }
    else if e == '\\' { Some('\\') }
    else if e == '/' { Some('/') }
    else if e == 'b' { Some('\u{8}') }
    else if e == 'f' { Some('\u{c}') }
    else if e == 'n' { Some('\n') }
    else if e == 'r' { Some('\r') }
    else if e == 't' { Some('\t') }
    else { None }
}

fn parse_string_body_ex(s: &Vec<char>, i: usize) -> (r: Option<(Vec<char>, usize)>)
    requires
        i <= s@.len(),
    ensures
        (r is None) == (parse_string_body(s@, i as int) is None),
        r matches Some(p) ==> parse_string_body(s@, i as int) == Some((p.0@, p.1 as int)) && p.1
            <= s@.len(),
    decreases s@.len() - i,
{
    if i >= s.len() {
        return None;
    }
    let c = s[i];
    if c == '"' {
        let empty: Vec<char> = Vec::new();
        proof {
            assert(empty@ =~= Seq::<char>::empty());
        }
        return Some((empty, i + 1));
    }
    if c == '\\' {
        if i + 1 >= s.len() {
            return None;
        }
        let e = s[i + 1];
        if e == 'u' {
            if s.len() - i < 6 {
                return None;
            }
            match hex4_ex(s, i + 2) {
                None => None,
                Some(code) => {
                    if code < 0xd800 || code >= 0xe000 {
                        match char::from_u32(code) {
                            Some(c2) => {
                                proof {
                                    vstd::utf8::char_u32_cast(c2, code);
                                }
                                match parse_string_body_ex(s, i + 6) {
                                    None => None,
                                    Some((rest, j)) => {
                                        let mut v = rest;
                                        v.insert(0, c2);
                                        proof {
                                            assert(v@ =~= seq![c2] + v@.subrange(
                                                1,
                                                v@.len() as int,
                                            ));
                                        }
                                        Some((v, j))
                                    },
                                }
                            },
                            None => None,
                        }
                    } else if code < 0xdc00 {
                        if s.len() - i < 12 {
                            return None;
                        }
                        if s[i + 6] == '\\' && s[i + 7] == 'u' {
                            match hex4_ex(s, i + 8) {
                                None => None,
                                Some(lo) => {
                                    if 0xdc00 <= lo && lo < 0xe000 {
                                        let combined: u32 = 0x10000 + (code - 0xd800) * 0x400
                                            + (lo - 0xdc00);
                                        match char::from_u32(combined) {
                                            Some(c2) => {
                                                proof {
                                                    vstd::utf8::char_u32_cast(c2, combined);
                                                }
                                                match parse_string_body_ex(s, i + 12) {
                                                    None => None,
                                                    Some((rest, j)) => {
                                                        let mut v = rest;
                                                        v.insert(0, c2);
                                                        proof {
                                                            assert(v@ =~= seq![c2] + v@.subrange(
                                                                1,
                                                                v@.len() as int,
                                                            ));
                                                        }
                                                        Some((v, j))
                                                    },
                                                }
                                            },
                                            None => None,
                                        }
                                    } else {
                                        None
                                    }
                                },
                            }
                        } else {
                            None
                        }
                    } else {
                        None
                    }
                },
            }
        } else {
            match unescape_char_ex(e) {
                None => None,
                Some(c2) => match parse_string_body_ex(s, i + 2) {
                    None => None,
                    Some((rest, j)) => {
                        let mut v = rest;
                        v.insert(0, c2);
                        proof {
                            assert(v@ =~= seq![c2] + v@.subrange(1, v@.len() as int));
                        }
                        Some((v, j))
                    },
                },
            }
        }
    } else if (c as u32) < 0x20 {
        None
    } else {
        match parse_string_body_ex(s, i + 1) {
            None => None,
            Some((rest, j)) => {
                let mut v = rest;
                v.insert(0, c);
                proof {
                    assert(v@ =~= seq![c] + v@.subrange(1, v@.len() as int));
                }
                Some((v, j))
            },
        }
    }
}

fn parse_digits_ex(s: &Vec<char>, i: usize, acc: u64) -> (r: Option<(u64, usize)>)
    requires
        i <= s@.len(),
        acc <= 0x8000_0000_0000_0000,
    ensures
        (r is None) == (parse_digits(s@, i as int, acc as int) is None),
        r matches Some(p) ==> parse_digits(s@, i as int, acc as int) == Some(
            (p.0 as int, p.1 as int),
        ) && p.1 <= s@.len() && p.0 <= 0x8000_0000_0000_0000,
    decreases s@.len() - i,
{
    if i < s.len() {
        let c = s[i];
        if is_digit_ex(c) {
            let d: u32 = (c as u32) - 48;
            let acc2: u128 = (acc as u128) * 10 + (d as u128);
            if acc2 > 0x8000_0000_0000_0000u128 {
                return None;
            }
            return parse_digits_ex(s, i + 1, acc2 as u64);
        }
    }
    Some((acc, i))
}

fn parse_int_ex(s: &Vec<char>, i: usize) -> (r: Option<(i64, usize)>)
    requires
        i <= s@.len(),
    ensures
        (r is None) == (parse_int(s@, i as int) is None),
        r matches Some(p) ==> parse_int(s@, i as int) == Some((p.0 as int, p.1 as int)) && p.1
            <= s@.len(),
{
    if i < s.len() && s[i] == '-' {
        if i + 1 < s.len() && is_digit_ex(s[i + 1]) {
            match parse_digits_ex(s, i + 1, 0) {
                None => None,
                Some((m, j)) => {
                    let v: i64 = if m == 0x8000_0000_0000_0000u64 {
                        i64::MIN
                    } else {
                        -(m as i64)
                    };
                    Some((v, j))
                },
            }
        } else {
            None
        }
    } else if i < s.len() && is_digit_ex(s[i]) {
        match parse_digits_ex(s, i, 0) {
            None => None,
            Some((m, j)) => if m <= 0x7fff_ffff_ffff_ffffu64 {
                Some((m as i64, j))
            } else {
                None
            },
        }
    } else {
        None
    }
}

fn parse_val_ex(s: &Vec<char>, i: usize) -> (r: Option<(Json, usize)>)
    requires
        i <= s@.len(),
    ensures
        (r is None) == (parse_val(s@, i as int) is None),
        r matches Some(p) ==> parse_val(s@, i as int) == Some((p.0@, p.1 as int)) && p.1
            <= s@.len(),
    decreases s@.len() - i, 1int,
{
    if i >= s.len() {
        return None;
    }
    let c = s[i];
    if is_ws_ex(c) {
        return parse_val_ex(s, i + 1);
    }
    if c == 'n' {
        if s.len() - i >= 4 && s[i + 1] == 'u' && s[i + 2] == 'l' && s[i + 3] == 'l' {
            return Some((Json::Null, i + 4));
        }
        return None;
    }
    if c == 't' {
        if s.len() - i >= 4 && s[i + 1] == 'r' && s[i + 2] == 'u' && s[i + 3] == 'e' {
            return Some((Json::Bool(true), i + 4));
        }
        return None;
    }
    if c == 'f' {
        if s.len() - i >= 5 && s[i + 1] == 'a' && s[i + 2] == 'l' && s[i + 3] == 's' && s[i + 4]
            == 'e' {
            return Some((Json::Bool(false), i + 5));
        }
        return None;
    }
    if c == '"' {
        return match parse_string_body_ex(s, i + 1) {
            None => None,
            Some((t, j)) => Some((Json::Text(chars_to_string(&t)), j)),
        };
    }
    if c == '[' {
        let acc: Vec<Json> = Vec::new();
        proof {
            assert(jview_list(acc@) =~= Seq::<JsonData>::empty());
        }
        return match parse_items_ex(s, i + 1, acc) {
            None => None,
            Some((items, j)) => Some((Json::Arr(items), j)),
        };
    }
    if c == '{' {
        let acc: Vec<(String, Json)> = Vec::new();
        proof {
            assert(jview_fields(acc@) =~= Seq::<(Seq<char>, JsonData)>::empty());
        }
        return match parse_fields_ex(s, i + 1, acc) {
            None => None,
            Some((fields, j)) => Some((Json::Obj(fields), j)),
        };
    }
    if c == '-' || is_digit_ex(c) {
        return match parse_int_ex(s, i) {
            None => None,
            Some((n, j)) => Some((Json::Int(n), j)),
        };
    }
    None
}

fn parse_items_ex(s: &Vec<char>, i: usize, acc: Vec<Json>) -> (r: Option<(Vec<Json>, usize)>)
    requires
        i <= s@.len(),
    ensures
        (r is None) == (parse_items(s@, i as int, jview_list(acc@)) is None),
        r matches Some(p) ==> parse_items(s@, i as int, jview_list(acc@)) == Some(
            (jview_list(p.0@), p.1 as int),
        ) && p.1 <= s@.len(),
    decreases s@.len() - i, 2int,
{
    proof {
        lemma_jview_list(acc@);
    }
    if i >= s.len() {
        return None;
    }
    let c = s[i];
    if is_ws_ex(c) {
        return parse_items_ex(s, i + 1, acc);
    }
    if c == ']' && acc.len() == 0 {
        return Some((acc, i + 1));
    }
    match parse_val_ex(s, i) {
        None => None,
        Some((v, j)) => {
            if i < j && j <= s.len() {
                let ghost old_acc = acc@;
                let mut acc2 = acc;
                acc2.push(v);
                proof {
                    lemma_jview_list(old_acc);
                    lemma_jview_list(acc2@);
                    assert(jview_list(acc2@) =~= jview_list(old_acc).push(v@));
                }
                parse_items_tail_ex(s, j, acc2)
            } else {
                None
            }
        },
    }
}

fn parse_items_tail_ex(s: &Vec<char>, i: usize, acc: Vec<Json>) -> (r: Option<(Vec<Json>, usize)>)
    requires
        i <= s@.len(),
    ensures
        (r is None) == (parse_items_tail(s@, i as int, jview_list(acc@)) is None),
        r matches Some(p) ==> parse_items_tail(s@, i as int, jview_list(acc@)) == Some(
            (jview_list(p.0@), p.1 as int),
        ) && p.1 <= s@.len(),
    decreases s@.len() - i, 2int,
{
    if i >= s.len() {
        return None;
    }
    let c = s[i];
    if is_ws_ex(c) {
        return parse_items_tail_ex(s, i + 1, acc);
    }
    if c == ']' {
        return Some((acc, i + 1));
    }
    if c == ',' {
        match parse_val_ex(s, i + 1) {
            None => None,
            Some((v, j)) => {
                if i + 1 <= j && j <= s.len() {
                    let ghost old_acc = acc@;
                    let mut acc2 = acc;
                    acc2.push(v);
                    proof {
                        lemma_jview_list(old_acc);
                        lemma_jview_list(acc2@);
                        assert(jview_list(acc2@) =~= jview_list(old_acc).push(v@));
                    }
                    parse_items_tail_ex(s, j, acc2)
                } else {
                    None
                }
            },
        }
    } else {
        None
    }
}

fn parse_fields_ex(s: &Vec<char>, i: usize, acc: Vec<(String, Json)>) -> (r: Option<
    (Vec<(String, Json)>, usize),
>)
    requires
        i <= s@.len(),
    ensures
        (r is None) == (parse_fields(s@, i as int, jview_fields(acc@)) is None),
        r matches Some(p) ==> parse_fields(s@, i as int, jview_fields(acc@)) == Some(
            (jview_fields(p.0@), p.1 as int),
        ) && p.1 <= s@.len(),
    decreases s@.len() - i, 2int,
{
    proof {
        lemma_jview_fields(acc@);
    }
    if i >= s.len() {
        return None;
    }
    let c = s[i];
    if is_ws_ex(c) {
        return parse_fields_ex(s, i + 1, acc);
    }
    if c == '}' && acc.len() == 0 {
        return Some((acc, i + 1));
    }
    if c == '"' {
        match parse_string_body_ex(s, i + 1) {
            None => None,
            Some((k, j)) => {
                if i + 1 < j && j <= s.len() {
                    parse_field_val_ex(s, j, acc, chars_to_string(&k))
                } else {
                    None
                }
            },
        }
    } else {
        None
    }
}

fn parse_field_val_ex(s: &Vec<char>, i: usize, acc: Vec<(String, Json)>, k: String) -> (r: Option<
    (Vec<(String, Json)>, usize),
>)
    requires
        i <= s@.len(),
    ensures
        (r is None) == (parse_field_val(s@, i as int, jview_fields(acc@), k@) is None),
        r matches Some(p) ==> parse_field_val(s@, i as int, jview_fields(acc@), k@) == Some(
            (jview_fields(p.0@), p.1 as int),
        ) && p.1 <= s@.len(),
    decreases s@.len() - i, 2int,
{
    if i >= s.len() {
        return None;
    }
    let c = s[i];
    if is_ws_ex(c) {
        return parse_field_val_ex(s, i + 1, acc, k);
    }
    if c == ':' {
        match parse_val_ex(s, i + 1) {
            None => None,
            Some((v, j)) => {
                if i + 1 <= j && j <= s.len() {
                    let ghost old_acc = acc@;
                    let ghost kv = k@;
                    let mut acc2 = acc;
                    acc2.push((k, v));
                    proof {
                        lemma_jview_fields(old_acc);
                        lemma_jview_fields(acc2@);
                        assert(jview_fields(acc2@) =~= jview_fields(old_acc).push((kv, v@)));
                    }
                    parse_fields_tail_ex(s, j, acc2)
                } else {
                    None
                }
            },
        }
    } else {
        None
    }
}

fn parse_fields_tail_ex(s: &Vec<char>, i: usize, acc: Vec<(String, Json)>) -> (r: Option<
    (Vec<(String, Json)>, usize),
>)
    requires
        i <= s@.len(),
    ensures
        (r is None) == (parse_fields_tail(s@, i as int, jview_fields(acc@)) is None),
        r matches Some(p) ==> parse_fields_tail(s@, i as int, jview_fields(acc@)) == Some(
            (jview_fields(p.0@), p.1 as int),
        ) && p.1 <= s@.len(),
    decreases s@.len() - i, 2int,
{
    if i >= s.len() {
        return None;
    }
    let c = s[i];
    if is_ws_ex(c) {
        return parse_fields_tail_ex(s, i + 1, acc);
    }
    if c == '}' {
        return Some((acc, i + 1));
    }
    if c == ',' {
        parse_fields_key_ex(s, i + 1, acc)
    } else {
        None
    }
}

fn parse_fields_key_ex(s: &Vec<char>, i: usize, acc: Vec<(String, Json)>) -> (r: Option<
    (Vec<(String, Json)>, usize),
>)
    requires
        i <= s@.len(),
    ensures
        (r is None) == (parse_fields_key(s@, i as int, jview_fields(acc@)) is None),
        r matches Some(p) ==> parse_fields_key(s@, i as int, jview_fields(acc@)) == Some(
            (jview_fields(p.0@), p.1 as int),
        ) && p.1 <= s@.len(),
    decreases s@.len() - i, 2int,
{
    if i >= s.len() {
        return None;
    }
    let c = s[i];
    if is_ws_ex(c) {
        return parse_fields_key_ex(s, i + 1, acc);
    }
    if c == '"' {
        match parse_string_body_ex(s, i + 1) {
            None => None,
            Some((k, j)) => {
                if i + 1 < j && j <= s.len() {
                    parse_field_val_ex(s, j, acc, chars_to_string(&k))
                } else {
                    None
                }
            },
        }
    } else {
        None
    }
}

fn ws_only_ex(s: &Vec<char>, i: usize) -> (r: bool)
    requires
        i <= s@.len(),
    ensures
        r == ws_only(s@, i as int),
    decreases s@.len() - i,
{
    if i >= s.len() {
        true
    } else {
        let c = s[i];
        if is_ws_ex(c) {
            ws_only_ex(s, i + 1)
        } else {
            false
        }
    }
}

impl Json {
    /// Parse a whole wire document from text. Succeeds exactly on the texts
    /// that [`parse_doc`] accepts, and returns exactly the value it gives;
    /// any failure is a serialization error.
    pub fn parse_text(s: &str) -> (r: Result<Json, OciSpecError>)
        ensures
            (r is Ok) == (parse_doc(s@) is Some),
            r matches Ok(j) ==> parse_doc(s@) == Some(j@),
            r matches Err(e) ==> e is SerDe,
    {
        let chars = str_to_chars(s);
        match parse_val_ex(&chars, 0) {
            None => Err(OciSpecError::SerDe("malformed document".to_owned())),
            Some((j, k)) => {
                if ws_only_ex(&chars, k) {
                    Ok(j)
                } else {
                    Err(OciSpecError::SerDe("trailing characters after document".to_owned()))
                }
            },
        }
    }
}


/// The integers the in-memory document can carry.
pub open spec fn int_in_range(i: int) -> bool {
    -0x8000_0000_0000_0000 <= i && i <= 0x7fff_ffff_ffff_ffff
}

/// A scalar document value: null, a boolean, an integer in range, or text.
pub open spec fn leaf_json(j: JsonData) -> bool {
    match j {
        JsonData::Null => true,
        JsonData::Bool(_) => true,
        JsonData::Int(i) => int_in_range(i),
        JsonData::Text(_) => true,
        _ => false,
    }
}

/// A well-formed document: every integer in it lies in the range the
/// in-memory document can carry.
pub open spec fn wf_json(j: JsonData) -> bool
    decreases j,
{
    match j {
        JsonData::Int(i) => int_in_range(i),
        JsonData::Arr(items) => forall|k: int| 0 <= k < items.len() ==> wf_json(#[trigger] items[k]),
        JsonData::Obj(fs) => forall|k: int| 0 <= k < fs.len() ==> wf_json(#[trigger] fs[k].1),
        _ => true,
    }
}

proof fn lemma_hex_digit_val(d: int)
    requires
        0 <= d < 16,
    ensures
        hex_val(hex_digit(d)) == Some(d),
        d < 10 ==> is_digit(hex_digit(d)) && digit_val(hex_digit(d)) == d,
        !is_ws(hex_digit(d)),
        hex_digit(d) != ']' && hex_digit(d) != '}' && hex_digit(d) != ',' && hex_digit(d) != '-',
{
}

pub open spec fn all_digits(ds: Seq<char>) -> bool {
    forall|k: int| 0 <= k < ds.len() ==> is_digit(ds[k])
}

proof fn lemma_dec_digits_props(n: nat)
    ensures
        dec_digits(n).len() >= 1,
        all_digits(dec_digits(n)),
    decreases n,
{
    if n < 10 {
        lemma_hex_digit_val(n as int);
    } else {
        lemma_dec_digits_props(n / 10);
        lemma_hex_digit_val((n % 10) as int);
        assert(forall|k: int|
            0 <= k < dec_digits(n).len() ==> is_digit(
                #[trigger] dec_digits(n)[k],
            )) by {
            assert(forall|k: int|
                0 <= k < dec_digits(n / 10).len() ==> dec_digits(n)[k] == dec_digits(
                    n / 10,
                )[k] && is_digit(dec_digits(n / 10)[k]));
            assert(dec_digits(n)[dec_digits(n).len() - 1] == hex_digit((n % 10) as int));
        }
    }
}

/// The value of a digit string read left to right onto an accumulator.
pub open spec fn digits_val(ds: Seq<char>, acc: int) -> int
    decreases ds.len(),
{
    if ds.len() == 0 {
        acc
    } else {
        digits_val(ds.subrange(1, ds.len() as int), acc * 10 + digit_val(ds[0]))
    }
}

proof fn lemma_digits_val_append(a: Seq<char>, b: Seq<char>, acc: int)
    ensures
        digits_val(a + b, acc) == digits_val(b, digits_val(a, acc)),
    decreases a.len(),
{
    if a.len() == 0 {
        assert(a + b =~= b);
    } else {
        assert((a + b).subrange(1, (a + b).len() as int) =~= a.subrange(1, a.len() as int) + b);
        assert((a + b)[0] == a[0]);
        lemma_digits_val_append(a.subrange(1, a.len() as int), b, acc * 10 + digit_val(a[0]));
    }
}

proof fn lemma_digits_val_single(c: char, acc: int)
    ensures
        digits_val(seq![c], acc) == acc * 10 + digit_val(c),
{
    let one = seq![c];
    assert(one.subrange(1, 1) =~= Seq::<char>::empty());
    assert(digits_val(one, acc) == digits_val(one.subrange(1, 1), acc * 10 + digit_val(one[0])));
    assert(digits_val(one.subrange(1, 1), acc * 10 + digit_val(c)) == acc * 10 + digit_val(c));
}

proof fn lemma_dec_digits_val(n: nat)
    ensures
        digits_val(dec_digits(n), 0) == n,
    decreases n,
{
    if n < 10 {
        lemma_hex_digit_val(n as int);
        lemma_digits_val_single(hex_digit(n as int), 0);
    } else {
        lemma_dec_digits_val(n / 10);
        lemma_hex_digit_val((n % 10) as int);
        lemma_digits_val_append(dec_digits(n / 10), seq![hex_digit((n % 10) as int)], 0);
        lemma_digits_val_single(hex_digit((n % 10) as int), digits_val(dec_digits(n / 10), 0));
    }
}

proof fn lemma_digits_val_lower(ds: Seq<char>, acc: int)
    requires
        acc >= 0,
        all_digits(ds),
    ensures
        digits_val(ds, acc) >= acc,
    decreases ds.len(),
{
    if ds.len() > 0 {
        assert(is_digit(ds[0]));
        assert(digit_val(ds[0]) >= 0);
        assert(all_digits(ds.subrange(1, ds.len() as int)));
        lemma_digits_val_lower(ds.subrange(1, ds.len() as int), acc * 10 + digit_val(ds[0]));
    }
}

proof fn lemma_parse_digits_at(s: Seq<char>, i: int, e: int, acc: int)
    requires
        0 <= i <= e <= s.len(),
        forall|k: int| i <= k < e ==> is_digit(s[k]),
        e == s.len() || !is_digit(s[e]),
        0 <= acc,
        digits_val(s.subrange(i, e), acc) <= 0x8000_0000_0000_0000,
    ensures
        parse_digits(s, i, acc) == Some((digits_val(s.subrange(i, e), acc), e)),
    decreases e - i,
{
    let region = s.subrange(i, e);
    if i == e {
        assert(region =~= Seq::<char>::empty());
    } else {
        assert(is_digit(s[i]));
        let acc2 = acc * 10 + digit_val(s[i]);
        assert(region[0] == s[i]);
        assert(region.subrange(1, region.len() as int) =~= s.subrange(i + 1, e));
        assert(all_digits(s.subrange(i + 1, e)));
        lemma_digits_val_lower(s.subrange(i + 1, e), acc2);
        lemma_parse_digits_at(s, i + 1, e, acc2);
    }
}

proof fn lemma_parse_int_at(s: Seq<char>, i: int, v: int)
    requires
        0 <= i,
        int_in_range(v),
        i + int_text(v).len() <= s.len(),
        s.subrange(i, i + int_text(v).len() as int) == int_text(v),
        i + int_text(v).len() == s.len() || !is_digit(s[i + int_text(v).len()]),
    ensures
        parse_int(s, i) == Some((v, i + int_text(v).len())),
{
    let txt = int_text(v);
    let e = i + txt.len();
    assert forall|k: int| 0 <= k < txt.len() implies s[i + k] == txt[k] by {
        assert(s.subrange(i, i + txt.len() as int)[k] == txt[k]);
        assert(s.subrange(i, i + txt.len() as int)[k] == s[i + k]);
    }
    assert(s.subrange(i, i + txt.len() as int)[0] == s[i]);
    assert(s[i] == txt[0]);
    if v < 0 {
        let m = (-v) as nat;
        lemma_dec_digits_props(m);
        lemma_dec_digits_val(m);
        assert(txt[0] == '-');
        assert(s[i] == '-');
        assert forall|k: int|
            0 <= k < e - i - 1 implies s.subrange(i + 1, e)[k] == dec_digits(m)[k] by {
            assert(s.subrange(i + 1, e)[k] == s[i + 1 + k]);
            assert(s[i + (k + 1)] == txt[k + 1]);
            assert(txt[k + 1] == dec_digits(m)[k]);
        }
        assert(s.subrange(i + 1, e) =~= dec_digits(m));
        assert forall|k: int| i + 1 <= k < e implies is_digit(s[k]) by {
            assert(s[k] == txt[k - i]);
            assert(txt[k - i] == dec_digits(m)[k - i - 1]);
            assert(is_digit(dec_digits(m)[k - i - 1]));
        }
        assert(is_digit(s[i + 1]));
        lemma_parse_digits_at(s, i + 1, e, 0);
        assert(digits_val(s.subrange(i + 1, e), 0) == m);
    } else {
        let m = v as nat;
        lemma_dec_digits_props(m);
        lemma_dec_digits_val(m);
        assert(s.subrange(i, e) =~= dec_digits(m));
        assert forall|k: int| i <= k < e implies is_digit(s[k]) by {
            assert(s[k] == txt[k - i]);
            assert(is_digit(dec_digits(m)[k - i]));
        }
        assert(is_digit(s[i]));
        assert(s[i] != '-');
        lemma_parse_digits_at(s, i, e, 0);
        assert(digits_val(s.subrange(i, e), 0) == m);
    }
}

proof fn lemma_parse_string_at(s: Seq<char>, i: int, t: Seq<char>)
    requires
        0 <= i,
        i + escape_str(t).len() + 1 <= s.len(),
        s.subrange(i, i + escape_str(t).len() as int) == escape_str(t),
        s[i + escape_str(t).len()] == '"',
    ensures
        parse_string_body(s, i) == Some((t, i + escape_str(t).len() + 1)),
    decreases t.len(),
{
    if t.len() == 0 {
        assert(escape_str(t).len() == 0);
        assert(t =~= Seq::<char>::empty());
    } else {
        let c = t[0];
        let t2 = t.subrange(1, t.len() as int);
        let ec = escape_char(c);
        let est = escape_str(t);
        assert(est == ec + escape_str(t2));
        assert forall|k: int| 0 <= k < est.len() implies s[i + k] == est[k] by {
            assert(s.subrange(i, i + est.len() as int)[k] == est[k]);
            assert(s.subrange(i, i + est.len() as int)[k] == s[i + k]);
        }
        assert forall|k: int| 0 <= k < ec.len() implies s[i + k] == ec[k] by {
            assert(s[i + k] == est[k]);
            assert(est[k] == ec[k]);
        }
        assert(s.subrange(i, i + est.len() as int)[0] == s[i]);
        assert(s[i] == ec[0]);
        let i2 = i + ec.len();
        assert forall|k: int|
            0 <= k < escape_str(t2).len() implies s.subrange(
                i2,
                i2 + escape_str(t2).len() as int,
            )[k] == escape_str(t2)[k] by {
            assert(s.subrange(i2, i2 + escape_str(t2).len() as int)[k] == s[i2 + k]);
            assert(s[i2 + k] == est[ec.len() + k]);
            assert(est[ec.len() + k] == escape_str(t2)[k]);
        }
        assert(s.subrange(i2, i2 + escape_str(t2).len() as int) =~= escape_str(t2));
        lemma_parse_string_at(s, i2, t2);
        if c == '"' || c == '\\' || c == '\u{8}' || c == '\u{c}' || c == '\n' || c == '\r' || c
            == '\t' {
            assert(s[i] == '\\');
            assert(parse_string_body(s, i) == Some((seq![c] + t2, i + est.len() + 1)));
            assert(seq![c] + t2 =~= t);
        } else if (c as u32) < 0x20 {
            assert(s[i] == '\\' && s[i + 1] == 'u' && s[i + 2] == '0' && s[i + 3] == '0');
            let hi = (c as u32) as int / 16;
            let lo = (c as u32) as int % 16;
            assert(s[i + 4] == hex_digit(hi) && s[i + 5] == hex_digit(lo));
            lemma_hex_digit_val(hi);
            lemma_hex_digit_val(lo);
            assert(hex_val('0') == Some(0int));
            let code = 16 * hi + lo;
            assert(hex4(s, i + 2) == Some(code));
            assert(code == c as u32);
            vstd::utf8::char_u32_cast(c, c as u32);
            assert(((code as u32) as char) == c);
            assert(parse_string_body(s, i) == Some((seq![(code as u32) as char] + t2, i + est.len() + 1)));
            assert(seq![(code as u32) as char] + t2 =~= t);
        } else {
            assert(ec == seq![c]);
            assert(s[i] == c);
            assert(c != '"' && c != '\\' && !((c as u32) < 0x20));
            assert(parse_string_body(s, i) == Some((seq![c] + t2, i + est.len() + 1)));
            assert(seq![c] + t2 =~= t);
        }
    }
}

/// The first character of any rendered value: never whitespace, never a
/// closing bracket or brace, never a comma.
proof fn lemma_render_first_char(j: JsonData)
    ensures
        render(j).len() >= 1,
        !is_ws(render(j)[0]),
        render(j)[0] != ']',
        render(j)[0] != '}',
        render(j)[0] != ',',
{
    match j {
        JsonData::Int(i) => {
            if i < 0 {
            } else {
                lemma_dec_digits_props(i as nat);
                assert(is_digit(dec_digits(i as nat)[0]));
            }
        },
        _ => {},
    }
}

proof fn lemma_parse_leaf_at(s: Seq<char>, i: int, j: JsonData)
    requires
        0 <= i,
        leaf_json(j),
        i + render(j).len() <= s.len(),
        s.subrange(i, i + render(j).len() as int) == render(j),
        i + render(j).len() == s.len() || !is_digit(s[i + render(j).len()]),
    ensures
        parse_val(s, i) == Some((j, i + render(j).len())),
{
    let rj = render(j);
    assert forall|k: int| 0 <= k < rj.len() implies s[i + k] == rj[k] by {
        assert(s.subrange(i, i + rj.len() as int)[k] == rj[k]);
        assert(s.subrange(i, i + rj.len() as int)[k] == s[i + k]);
    }
    assert(s.subrange(i, i + rj.len() as int)[0] == s[i]);
    assert(s[i] == rj[0]);
    match j {
        JsonData::Null => {
            assert(s[i] == 'n' && s[i + 1] == 'u' && s[i + 2] == 'l' && s[i + 3] == 'l');
        },
        JsonData::Bool(b) => {
            if b {
                assert(s[i] == 't' && s[i + 1] == 'r' && s[i + 2] == 'u' && s[i + 3] == 'e');
            } else {
                assert(s[i] == 'f' && s[i + 1] == 'a' && s[i + 2] == 'l' && s[i + 3] == 's' && s[i
                    + 4] == 'e');
            }
        },
        JsonData::Int(v) => {
            lemma_parse_int_at(s, i, v);
            if v < 0 {
                assert(s[i] == '-');
            } else {
                lemma_dec_digits_props(v as nat);
                assert(is_digit(s[i]));
            }
        },
        JsonData::Text(t) => {
            assert(s[i] == '"');
            let el = escape_str(t).len() as int;
            assert forall|k: int|
                0 <= k < el implies s.subrange(i + 1, i + 1 + el)[k] == escape_str(t)[k] by {
                assert(s.subrange(i + 1, i + 1 + el)[k] == s[i + 1 + k]);
                assert(s[i + (k + 1)] == rj[k + 1]);
                assert(rj[k + 1] == escape_str(t)[k]);
            }
            assert(s.subrange(i + 1, i + 1 + el) =~= escape_str(t));
            assert(s[i + (el + 1)] == rj[el + 1]);
            assert(rj[el + 1] == '"');
            assert(s[i + 1 + el] == '"');
            lemma_parse_string_at(s, i + 1, t);
        },
        _ => {},
    }
}

proof fn lemma_region(s: Seq<char>, i: int, region: Seq<char>, a: int, b: int)
    requires
        0 <= i,
        i + region.len() <= s.len(),
        s.subrange(i, i + region.len() as int) == region,
        0 <= a <= b <= region.len(),
    ensures
        s.subrange(i + a, i + b) == region.subrange(a, b),
        forall|k: int| 0 <= k < region.len() ==> s[i + k] == region[k],
        region.len() > 0 ==> s[i] == region[0],
{
    assert forall|k: int| 0 <= k < region.len() implies s[i + k] == region[k] by {
        assert(s.subrange(i, i + region.len() as int)[k] == region[k]);
        assert(s.subrange(i, i + region.len() as int)[k] == s[i + k]);
    }
    if region.len() > 0 {
        assert(s.subrange(i, i + region.len() as int)[0] == s[i]);
    }
    assert forall|k: int|
        0 <= k < b - a implies s.subrange(i + a, i + b)[k] == region.subrange(a, b)[k] by {
        assert(s.subrange(i + a, i + b)[k] == s[(i + a) + k]);
        assert(s[i + (a + k)] == region[a + k]);
        assert(region.subrange(a, b)[k] == region[a + k]);
    }
    assert(s.subrange(i + a, i + b) =~= region.subrange(a, b));
}

proof fn lemma_parse_doc_value_at(s: Seq<char>, i: int, j: JsonData)
    requires
        0 <= i,
        wf_json(j),
        i + render(j).len() <= s.len(),
        s.subrange(i, i + render(j).len() as int) == render(j),
        i + render(j).len() == s.len() || !is_digit(s[i + render(j).len()]),
    ensures
        parse_val(s, i) == Some((j, i + render(j).len())),
    decreases j,
{
    if leaf_json(j) {
        lemma_parse_leaf_at(s, i, j);
    } else {
        match j {
            JsonData::Obj(fs) => {
                let rj = render(j);
                let inner = render_fields(fs);
                assert(rj == seq!['{'] + inner + seq!['}']);
                lemma_region(s, i, rj, 1, 1 + inner.len() as int);
                assert(s[i] == '{');
                assert(rj.subrange(1, 1 + inner.len() as int) =~= inner);
                assert(s.subrange(i + 1, i + 1 + inner.len() as int) == inner);
                assert(s[i + (1 + inner.len() as int)] == rj[1 + inner.len() as int]);
                assert(rj[1 + inner.len() as int] == '}');
                lemma_parse_doc_fields_at(s, i + 1, fs);
                assert(parse_val(s, i) == Some((j, i + rj.len())));
            },
            JsonData::Arr(items) => {
                let rj = render(j);
                let inner = render_list(items);
                assert(rj == seq!['['] + inner + seq![']']);
                lemma_region(s, i, rj, 1, 1 + inner.len() as int);
                assert(s[i] == '[');
                assert(rj.subrange(1, 1 + inner.len() as int) =~= inner);
                assert(s.subrange(i + 1, i + 1 + inner.len() as int) == inner);
                assert(s[i + (1 + inner.len() as int)] == rj[1 + inner.len() as int]);
                assert(rj[1 + inner.len() as int] == ']');
                lemma_parse_doc_items_at(s, i + 1, items);
                assert(parse_val(s, i) == Some((j, i + rj.len())));
            },
            _ => {},
        }
    }
}

proof fn lemma_parse_doc_items_at(s: Seq<char>, i: int, items: Seq<JsonData>)
    requires
        0 <= i,
        forall|k: int| 0 <= k < items.len() ==> wf_json(#[trigger] items[k]),
        i + render_list(items).len() + 1 <= s.len(),
        s.subrange(i, i + render_list(items).len() as int) == render_list(items),
        s[i + render_list(items).len()] == ']',
    ensures
        parse_items(s, i, Seq::empty()) == Some(
            (items, i + render_list(items).len() + 1),
        ),
    decreases items,
{
    let region = render_list(items);
    if items.len() == 0 {
        assert(region.len() == 0);
        assert(s[i] == ']');
        assert(Seq::<JsonData>::empty() =~= items);
    } else {
        let v0 = items[0];
        let rest = items.subrange(1, items.len() as int);
        let tail_txt = render_list_tail(rest);
        assert(region == render(v0) + tail_txt);
        lemma_region(s, i, region, 0, region.len() as int);
        lemma_render_first_char(v0);
        let vlen = render(v0).len() as int;
        assert(region.subrange(0, vlen) =~= render(v0));
        lemma_region(s, i, region, 0, vlen);
        assert(s.subrange(i, i + vlen) == render(v0));
        assert(s[i] == render(v0)[0]);
        let j2 = i + vlen;
        if rest.len() == 0 {
            assert(j2 == i + region.len());
            assert(s[j2] == ']');
        } else {
            assert(region[vlen] == tail_txt[0] && tail_txt[0] == ',');
            assert(s[i + (vlen)] == region[vlen]);
            assert(s[j2] == ',');
        }
        lemma_parse_doc_value_at(s, i, v0);
        assert(region.subrange(vlen, region.len() as int) =~= tail_txt);
        lemma_region(s, i, region, vlen, region.len() as int);
        assert(s.subrange(j2, i + region.len() as int) == tail_txt);
        lemma_parse_doc_items_tail_at(s, j2, rest, Seq::empty().push(v0));
        assert(Seq::empty().push(v0) + rest =~= items);
    }
}

proof fn lemma_parse_doc_items_tail_at(
    s: Seq<char>,
    i: int,
    rest: Seq<JsonData>,
    acc: Seq<JsonData>,
)
    requires
        0 <= i,
        forall|k: int| 0 <= k < rest.len() ==> wf_json(#[trigger] rest[k]),
        i + render_list_tail(rest).len() + 1 <= s.len(),
        s.subrange(i, i + render_list_tail(rest).len() as int) == render_list_tail(rest),
        s[i + render_list_tail(rest).len()] == ']',
    ensures
        parse_items_tail(s, i, acc) == Some(
            (acc + rest, i + render_list_tail(rest).len() + 1),
        ),
    decreases rest,
{
    let region = render_list_tail(rest);
    if rest.len() == 0 {
        assert(region.len() == 0);
        assert(s[i] == ']');
        assert(acc + rest =~= acc);
    } else {
        let v0 = rest[0];
        let rest2 = rest.subrange(1, rest.len() as int);
        let tail_txt = render_list_tail(rest2);
        assert(region == seq![','] + render(v0) + tail_txt);
        lemma_region(s, i, region, 0, region.len() as int);
        assert(s[i] == region[0]);
        assert(region[0] == ',');
        lemma_render_first_char(v0);
        let vlen = render(v0).len() as int;
        assert(region.subrange(1, 1 + vlen) =~= render(v0));
        lemma_region(s, i, region, 1, 1 + vlen);
        assert(s.subrange(i + 1, i + 1 + vlen) == render(v0));
        let j2 = i + 1 + vlen;
        if rest2.len() == 0 {
            assert(j2 == i + region.len());
            assert(s[j2] == ']');
        } else {
            assert(region[1 + vlen] == tail_txt[0] && tail_txt[0] == ',');
            assert(s[i + (1 + vlen)] == region[1 + vlen]);
            assert(s[j2] == ',');
        }
        lemma_parse_doc_value_at(s, i + 1, v0);
        assert(region.subrange(1 + vlen, region.len() as int) =~= tail_txt);
        lemma_region(s, i, region, 1 + vlen, region.len() as int);
        assert(s.subrange(j2, i + region.len() as int) == tail_txt);
        lemma_parse_doc_items_tail_at(s, j2, rest2, acc.push(v0));
        assert(acc.push(v0) + rest2 =~= acc + rest);
    }
}

proof fn lemma_parse_doc_fields_at(s: Seq<char>, i: int, fs: Seq<(Seq<char>, JsonData)>)
    requires
        0 <= i,
        forall|k: int| 0 <= k < fs.len() ==> wf_json(#[trigger] fs[k].1),
        i + render_fields(fs).len() + 1 <= s.len(),
        s.subrange(i, i + render_fields(fs).len() as int) == render_fields(fs),
        s[i + render_fields(fs).len()] == '}',
    ensures
        parse_fields(s, i, Seq::empty()) == Some(
            (fs, i + render_fields(fs).len() + 1),
        ),
    decreases fs,
{
    let region = render_fields(fs);
    if fs.len() == 0 {
        assert(region.len() == 0);
        assert(s[i] == '}');
        assert(parse_fields(s, i, Seq::<(Seq<char>, JsonData)>::empty()) == Some(
            (Seq::<(Seq<char>, JsonData)>::empty(), i + 1),
        ));
        assert(Seq::<(Seq<char>, JsonData)>::empty() =~= fs);
    } else {
        let k0 = fs[0].0;
        let v0 = fs[0].1;
        let rest = fs.subrange(1, fs.len() as int);
        let elen = escape_str(k0).len() as int;
        let rf0 = render_field(fs[0]);
        let tail_txt = render_fields_tail(rest);
        assert(region == rf0 + tail_txt);
        assert(rf0 == seq!['"'] + escape_str(k0) + seq!['"', ':'] + render(v0));
        lemma_region(s, i, region, 0, region.len() as int);
        assert(s[i] == region[0]);
        assert(region[0] == rf0[0] && rf0[0] == '"');
        // the key string
        assert(region.subrange(1, 1 + elen) =~= escape_str(k0));
        lemma_region(s, i, region, 1, 1 + elen);
        assert(s[i + (1 + elen)] == region[1 + elen]);
        assert(region[1 + elen] == rf0[1 + elen] && rf0[1 + elen] == '"');
        lemma_parse_string_at(s, i + 1, k0);
        let j2 = i + 2 + elen;
        assert(parse_string_body(s, i + 1) == Some((k0, j2)));
        // the colon
        assert(s[i + (2 + elen)] == region[2 + elen]);
        assert(region[2 + elen] == rf0[2 + elen] && rf0[2 + elen] == ':');
        assert(s[j2] == ':');
        // the value
        let vlen = render(v0).len() as int;
        assert(region.subrange(3 + elen, 3 + elen + vlen) =~= render(v0));
        lemma_region(s, i, region, 3 + elen, 3 + elen + vlen);
        let j3 = j2 + 1 + vlen;
        assert(s.subrange(j2 + 1, j2 + 1 + vlen) == render(v0));
        lemma_render_first_char(v0);
        if rest.len() == 0 {
            assert(region.len() == rf0.len());
            assert(j3 == i + region.len());
            assert(s[j3] == '}');
        } else {
            assert(region[3 + elen + vlen] == tail_txt[0] && tail_txt[0] == ',');
            assert(s[i + (3 + elen + vlen)] == region[3 + elen + vlen]);
            assert(s[j3] == ',');
        }
        lemma_parse_doc_value_at(s, j2 + 1, v0);
        // the remaining fields
        assert(region.subrange(3 + elen + vlen, region.len() as int) =~= tail_txt);
        lemma_region(s, i, region, 3 + elen + vlen, region.len() as int);
        assert(s.subrange(j3, i + region.len() as int) == tail_txt);
        lemma_parse_doc_fields_tail_at(s, j3, rest, Seq::empty().push((k0, v0)));
        assert(Seq::empty().push((k0, v0)) + rest =~= fs);
        assert(parse_fields(s, i, Seq::<(Seq<char>, JsonData)>::empty()) == parse_field_val(
            s,
            j2,
            Seq::empty(),
            k0,
        ));
    }
}

proof fn lemma_parse_doc_fields_tail_at(
    s: Seq<char>,
    i: int,
    rest: Seq<(Seq<char>, JsonData)>,
    acc: Seq<(Seq<char>, JsonData)>,
)
    requires
        0 <= i,
        forall|k: int| 0 <= k < rest.len() ==> wf_json(#[trigger] rest[k].1),
        i + render_fields_tail(rest).len() + 1 <= s.len(),
        s.subrange(i, i + render_fields_tail(rest).len() as int) == render_fields_tail(rest),
        s[i + render_fields_tail(rest).len()] == '}',
    ensures
        parse_fields_tail(s, i, acc) == Some(
            (acc + rest, i + render_fields_tail(rest).len() + 1),
        ),
    decreases rest,
{
    let region = render_fields_tail(rest);
    if rest.len() == 0 {
        assert(region.len() == 0);
        assert(s[i] == '}');
        assert(acc + rest =~= acc);
    } else {
        let k0 = rest[0].0;
        let v0 = rest[0].1;
        let rest2 = rest.subrange(1, rest.len() as int);
        let elen = escape_str(k0).len() as int;
        let rf0 = render_field(rest[0]);
        let tail_txt = render_fields_tail(rest2);
        assert(region == seq![','] + rf0 + tail_txt);
        assert(rf0 == seq!['"'] + escape_str(k0) + seq!['"', ':'] + render(v0));
        lemma_region(s, i, region, 0, region.len() as int);
        assert(s[i] == region[0]);
        assert(region[0] == ',');
        assert(s[i + 1] == region[1]);
        assert(region[1] == rf0[0] && rf0[0] == '"');
        // the key string
        assert(region.subrange(2, 2 + elen) =~= escape_str(k0));
        lemma_region(s, i, region, 2, 2 + elen);
        assert(s[i + (2 + elen)] == region[2 + elen]);
        assert(region[2 + elen] == rf0[1 + elen] && rf0[1 + elen] == '"');
        lemma_parse_string_at(s, i + 2, k0);
        let j2 = i + 3 + elen;
        assert(parse_string_body(s, i + 2) == Some((k0, j2)));
        // the colon
        assert(s[i + (3 + elen)] == region[3 + elen]);
        assert(region[3 + elen] == rf0[2 + elen] && rf0[2 + elen] == ':');
        assert(s[j2] == ':');
        // the value
        let vlen = render(v0).len() as int;
        assert(region.subrange(4 + elen, 4 + elen + vlen) =~= render(v0));
        lemma_region(s, i, region, 4 + elen, 4 + elen + vlen);
        let j3 = j2 + 1 + vlen;
        assert(s.subrange(j2 + 1, j2 + 1 + vlen) == render(v0));
        lemma_render_first_char(v0);
        if rest2.len() == 0 {
            assert(j3 == i + region.len());
            assert(s[j3] == '}');
        } else {
            assert(region[4 + elen + vlen] == tail_txt[0] && tail_txt[0] == ',');
            assert(s[i + (4 + elen + vlen)] == region[4 + elen + vlen]);
            assert(s[j3] == ',');
        }
        lemma_parse_doc_value_at(s, j2 + 1, v0);
        // the remaining fields
        assert(region.subrange(4 + elen + vlen, region.len() as int) =~= tail_txt);
        lemma_region(s, i, region, 4 + elen + vlen, region.len() as int);
        assert(s.subrange(j3, i + region.len() as int) == tail_txt);
        lemma_parse_doc_fields_tail_at(s, j3, rest2, acc.push((k0, v0)));
        assert(acc.push((k0, v0)) + rest2 =~= acc + rest);
        assert(parse_fields_tail(s, i, acc) == parse_fields_key(s, i + 1, acc));
        assert(parse_fields_key(s, i + 1, acc) == parse_field_val(s, j2, acc, k0));
    }
}

proof fn lemma_ws_only_end(s: Seq<char>, i: int)
    requires
        i >= s.len(),
    ensures
        ws_only(s, i),
{
}

/// Rendering any well-formed document and parsing the text back yields
/// exactly the original document.
pub proof fn lemma_parse_render_doc(j: JsonData)
    requires
        wf_json(j),
    ensures
        parse_doc(render(j)) == Some(j),
{
    let s = render(j);
    assert(s.subrange(0, s.len() as int) =~= s);
    lemma_parse_doc_value_at(s, 0, j);
    lemma_ws_only_end(s, s.len() as int);
}

} // verus!
