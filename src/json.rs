//! The JSON subset that carries the protocol: an object whose members are
//! scalars (null, booleans, integers, strings) or lists of flat objects.

use vstd::prelude::*;
use crate::text::{chars_of, push_char, push_decimal, push_str, decimal, digit_char, int_text};

verus! {

/// A scalar JSON value, as a mathematical value.
pub enum ScalarModel {
    Null,
    Bool(bool),
    Int(int),
    Str(Seq<char>),
}

/// A member's value, as a mathematical value.
pub enum ValueModel {
    Scalar(ScalarModel),
    Rows(Seq<Seq<(Seq<char>, ScalarModel)>>),
}

/// A scalar JSON value.
#[derive(Debug, Clone, PartialEq)]
pub enum Scalar {
    Null,
    Bool(bool),
    Int(i128),
    Str(String),
}

impl View for Scalar {
    type V = ScalarModel;

    open spec fn view(&self) -> ScalarModel {
        match self {
            Scalar::Null => ScalarModel::Null,
            Scalar::Bool(b) => ScalarModel::Bool(*b),
            Scalar::Int(n) => ScalarModel::Int(*n as int),
            Scalar::Str(s) => ScalarModel::Str(s@),
        }
    }
}

/// A flat object: its members in order.
pub type Row = Vec<(String, Scalar)>;

/// A member's value: a scalar or a list of flat objects.
#[derive(Debug, Clone, PartialEq)]
pub enum Value {
    Scalar(Scalar),
    Rows(Vec<Row>),
}

pub open spec fn row_view(r: Seq<(String, Scalar)>) -> Seq<(Seq<char>, ScalarModel)> {
    r.map_values(|p: (String, Scalar)| (p.0@, p.1@))
}

pub open spec fn rows_view(rs: Seq<Row>) -> Seq<Seq<(Seq<char>, ScalarModel)>> {
    rs.map_values(|r: Row| row_view(r@))
}

impl View for Value {
    type V = ValueModel;

    open spec fn view(&self) -> ValueModel {
        match self {
            Value::Scalar(v) => ValueModel::Scalar(v@),
            Value::Rows(rs) => ValueModel::Rows(rows_view(rs@)),
        }
    }
}

pub open spec fn members_view(m: Seq<(String, Value)>) -> Seq<(Seq<char>, ValueModel)> {
    m.map_values(|p: (String, Value)| (p.0@, p.1@))
}

// ---------------------------------------------------------------------------
// Writing
// ---------------------------------------------------------------------------

pub open spec fn hex_char(d: nat) -> char {
    if d < 10 {
        digit_char(d)
    } else if d == 10 {
        'a'
    } else if d == 11 {
        'b'
    } else if d == 12 {
        'c'
    } else if d == 13 {
        'd'
    } else if d == 14 {
        'e'
    } else {
        'f'
    }
}

/// How one character is written inside a JSON string.
pub open spec fn escape_char(c: char) -> Seq<char> {
    if c == '"' {
        seq!['\\', '"']
    } else if c == '\\' {
        seq!['\\', '\\']
    } else if c == '\n' {
        seq!['\\', 'n']
    } else if c == '\r' {
        seq!['\\', 'r']
    } else if c == '\t' {
        seq!['\\', 't']
    } else if c == '\x08' {
        seq!['\\', 'b']
    } else if c == '\x0c' {
        seq!['\\', 'f']
    } else if (c as u32) < 0x20 {
        seq!['\\', 'u', '0', '0', hex_char((c as u32 / 16) as nat), hex_char((c as u32 % 16) as nat)]
    } else {
        seq![c]
    }
}

pub open spec fn escaped(s: Seq<char>) -> Seq<char>
    decreases s.len(),
{
    if s.len() == 0 {
        seq![]
    } else {
        escaped(s.drop_last()) + escape_char(s.last())
    }
}

/// A string literal: quotes around the escaped characters.
pub open spec fn string_text(s: Seq<char>) -> Seq<char> {
    seq!['"'] + escaped(s) + seq!['"']
}

pub open spec fn scalar_text(v: ScalarModel) -> Seq<char> {
    match v {
        ScalarModel::Null => "null"@,
        ScalarModel::Bool(b) => if b {
            "true"@
        } else {
            "false"@
        },
        ScalarModel::Int(n) => int_text(n),
        ScalarModel::Str(t) => string_text(t),
    }
}

pub open spec fn member_text(key: Seq<char>, value: Seq<char>) -> Seq<char> {
    string_text(key) + seq![':'] + value
}

/// The members of a flat object, separated by commas.
pub open spec fn row_body(r: Seq<(Seq<char>, ScalarModel)>) -> Seq<char>
    decreases r.len(),
{
    if r.len() == 0 {
        seq![]
    } else {
        row_body(r.drop_last()) + (if r.len() == 1 {
            seq![]
        } else {
            seq![',']
        }) + member_text(r.last().0, scalar_text(r.last().1))
    }
}

pub open spec fn row_text(r: Seq<(Seq<char>, ScalarModel)>) -> Seq<char> {
    seq!['{'] + row_body(r) + seq!['}']
}

pub open spec fn rows_body(rs: Seq<Seq<(Seq<char>, ScalarModel)>>) -> Seq<char>
    decreases rs.len(),
{
    if rs.len() == 0 {
        seq![]
    } else {
        rows_body(rs.drop_last()) + (if rs.len() == 1 {
            seq![]
        } else {
            seq![',']
        }) + row_text(rs.last())
    }
}

pub open spec fn value_text(v: ValueModel) -> Seq<char> {
    match v {
        ValueModel::Scalar(s) => scalar_text(s),
        ValueModel::Rows(rs) => seq!['['] + rows_body(rs) + seq![']'],
    }
}

pub open spec fn members_body(m: Seq<(Seq<char>, ValueModel)>) -> Seq<char>
    decreases m.len(),
{
    if m.len() == 0 {
        seq![]
    } else {
        members_body(m.drop_last()) + (if m.len() == 1 {
            seq![]
        } else {
            seq![',']
        }) + member_text(m.last().0, value_text(m.last().1))
    }
}

/// The text of an object with these members, in order, without spaces.
pub open spec fn object_text(m: Seq<(Seq<char>, ValueModel)>) -> Seq<char> {
    seq!['{'] + members_body(m) + seq!['}']
}

fn hex_digit(d: u32) -> (c: char)
    requires
        d < 16,
    ensures
        c == hex_char(d as nat),
{
    if d < 10 {
        crate::text::digit(d as u128)
    } else if d == 10 {
        'a'
    } else if d == 11 {
        'b'
    } else if d == 12 {
        'c'
    } else if d == 13 {
        'd'
    } else if d == 14 {
        'e'
    } else {
        'f'
    }
}

fn push_escaped_char(out: &mut String, c: char)
    ensures
        final(out)@ == old(out)@ + escape_char(c),
{
    let ghost start = out@;
    if c == '"' {
        push_char(out, '\\');
        push_char(out, '"');
    } else if c == '\\' {
        push_char(out, '\\');
        push_char(out, '\\');
    } else if c == '\n' {
        push_char(out, '\\');
        push_char(out, 'n');
    } else if c == '\r' {
        push_char(out, '\\');
        push_char(out, 'r');
    } else if c == '\t' {
        push_char(out, '\\');
        push_char(out, 't');
    } else if c == '\x08' {
        push_char(out, '\\');
        push_char(out, 'b');
    } else if c == '\x0c' {
        push_char(out, '\\');
        push_char(out, 'f');
    } else if (c as u32) < 0x20 {
        push_char(out, '\\');
        push_char(out, 'u');
        push_char(out, '0');
        push_char(out, '0');
        push_char(out, hex_digit(c as u32 / 16));
        push_char(out, hex_digit(c as u32 % 16));
    } else {
        push_char(out, c);
    }
    assert(out@ =~= start + escape_char(c));
}

/// Appends `s` as a JSON string literal.
pub fn push_string(out: &mut String, s: &str)
    ensures
        final(out)@ == old(out)@ + string_text(s@),
{
    let chars = chars_of(s);
    let ghost start = out@;
    push_char(out, '"');
    let mut i: usize = 0;
    while i < chars.len()
        invariant
            i <= chars.len(),
            chars@ == s@,
            out@ == start + seq!['"'] + escaped(s@.take(i as int)),
        decreases chars.len() - i,
    {
        push_escaped_char(out, chars[i]);
        assert(s@.take(i as int + 1).drop_last() =~= s@.take(i as int));
        i += 1;
    }
    assert(s@.take(i as int) =~= s@);
    push_char(out, '"');
    assert(out@ =~= start + string_text(s@));
}

/// Appends the decimal notation of `v`, signed.
pub fn push_integer(out: &mut String, v: i128)
    ensures
        final(out)@ == old(out)@ + int_text(v as int),
{
    if v < 0 {
        push_char(out, '-');
        let m: u128 = (-(v + 1)) as u128 + 1;
        push_decimal(out, m);
        assert(final(out)@ =~= old(out)@ + int_text(v as int));
    } else {
        push_decimal(out, v as u128);
    }
}

pub fn push_scalar(out: &mut String, v: &Scalar)
    ensures
        final(out)@ == old(out)@ + scalar_text(v@),
{
    proof {
        reveal_strlit("null");
        reveal_strlit("true");
        reveal_strlit("false");
    }
    match v {
        Scalar::Null => push_str(out, "null"),
        Scalar::Bool(b) => if *b {
            push_str(out, "true")
        } else {
            push_str(out, "false")
        },
        Scalar::Int(n) => push_integer(out, *n),
        Scalar::Str(s) => push_string(out, s.as_str()),
    }
}

fn push_row(out: &mut String, r: &Row)
    ensures
        final(out)@ == old(out)@ + row_text(row_view(r@)),
{
    let ghost start = out@;
    push_char(out, '{');
    let mut i: usize = 0;
    while i < r.len()
        invariant
            i <= r.len(),
            out@ == start + seq!['{'] + row_body(row_view(r@).take(i as int)),
        decreases r.len() - i,
    {
        let ghost before = out@;
        if i > 0 {
            push_char(out, ',');
        }
        push_string(out, r[i].0.as_str());
        push_char(out, ':');
        push_scalar(out, &r[i].1);
        let ghost t = row_view(r@).take(i as int + 1);
        assert(t.drop_last() =~= row_view(r@).take(i as int));
        assert(out@ =~= start + seq!['{'] + row_body(t));
        i += 1;
    }
    assert(row_view(r@).take(i as int) =~= row_view(r@));
    push_char(out, '}');
    assert(out@ =~= start + row_text(row_view(r@)));
}

pub fn push_value(out: &mut String, v: &Value)
    ensures
        final(out)@ == old(out)@ + value_text(v@),
{
    match v {
        Value::Scalar(s) => push_scalar(out, s),
        Value::Rows(rs) => {
            let ghost start = out@;
            push_char(out, '[');
            let mut i: usize = 0;
            while i < rs.len()
                invariant
                    i <= rs.len(),
                    out@ == start + seq!['['] + rows_body(rows_view(rs@).take(i as int)),
                decreases rs.len() - i,
            {
                if i > 0 {
                    push_char(out, ',');
                }
                push_row(out, &rs[i]);
                let ghost t = rows_view(rs@).take(i as int + 1);
                assert(t.drop_last() =~= rows_view(rs@).take(i as int));
                assert(out@ =~= start + seq!['['] + rows_body(t));
                i += 1;
            }
            assert(rows_view(rs@).take(i as int) =~= rows_view(rs@));
            push_char(out, ']');
            assert(out@ =~= start + value_text(v@));
        },
    }
}

/// The text of an object with these members, in order.
pub fn write_object(m: &Vec<(String, Value)>) -> (r: String)
    ensures
        r@ == object_text(members_view(m@)),
{
    let mut out = String::new();
    push_char(&mut out, '{');
    let mut i: usize = 0;
    while i < m.len()
        invariant
            i <= m.len(),
            out@ == seq!['{'] + members_body(members_view(m@).take(i as int)),
        decreases m.len() - i,
    {
        if i > 0 {
            push_char(&mut out, ',');
        }
        push_string(&mut out, m[i].0.as_str());
        push_char(&mut out, ':');
        push_value(&mut out, &m[i].1);
        let ghost t = members_view(m@).take(i as int + 1);
        assert(t.drop_last() =~= members_view(m@).take(i as int));
        assert(out@ =~= seq!['{'] + members_body(t));
        i += 1;
    }
    assert(members_view(m@).take(i as int) =~= members_view(m@));
    push_char(&mut out, '}');
    assert(out@ =~= object_text(members_view(m@)));
    out
}


// ---------------------------------------------------------------------------
// Reading
// ---------------------------------------------------------------------------

pub open spec fn is_ws(c: char) -> bool {
    c == ' ' || c == '\t' || c == '\n' || c == '\r'
}

/// The first position at or after `i` that is not whitespace.
pub open spec fn skip_ws(s: Seq<char>, i: int) -> int
    decreases s.len() - i,
{
    if 0 <= i < s.len() && is_ws(s[i]) {
        skip_ws(s, i + 1)
    } else {
        i
    }
}

pub open spec fn is_digit(c: char) -> bool {
    48 <= c as u32 <= 57
}

/// What a character after a backslash stands for, if it is a one-letter escape.
pub open spec fn simple_escape(c: char) -> Option<char> {
    if c == '"' {
        Some('"')
    } else if c == '\\' {
        Some('\\')
    } else if c == '/' {
        Some('/')
    } else if c == 'b' {
        Some('\x08')
    } else if c == 'f' {
        Some('\x0c')
    } else if c == 'n' {
        Some('\n')
    } else if c == 'r' {
        Some('\r')
    } else if c == 't' {
        Some('\t')
    } else {
        None
    }
}

pub open spec fn hex_value(c: char) -> Option<nat> {
    if is_digit(c) {
        Some((c as u32 - 48) as nat)
    } else if 97 <= c as u32 <= 102 {
        Some((c as u32 - 87) as nat)
    } else if 65 <= c as u32 <= 70 {
        Some((c as u32 - 55) as nat)
    } else {
        None
    }
}

/// The value of four hex digits at `j`.
pub open spec fn hex4(s: Seq<char>, j: int) -> Option<nat> {
    if 0 <= j && j + 3 < s.len() && hex_value(s[j]) is Some && hex_value(s[j + 1]) is Some
        && hex_value(s[j + 2]) is Some && hex_value(s[j + 3]) is Some {
        Some(
            hex_value(s[j]).unwrap() * 4096 + hex_value(s[j + 1]).unwrap() * 256 + hex_value(s[j + 2]).unwrap()
                * 16 + hex_value(s[j + 3]).unwrap(),
        )
    } else {
        None
    }
}

pub open spec fn code_point(c: char) -> nat {
    c as u32 as nat
}

/// The character with this code point, if it is one: not a surrogate, and
/// at most U+10FFFF.
pub open spec fn char_of_code(code: nat) -> Option<char> {
    if code <= 0x10FFFF && !(0xD800 <= code <= 0xDFFF) {
        Some(choose|c: char| #[trigger] code_point(c) == code)
    } else {
        None
    }
}

/// What a `\u` escape at `i` stands for, and whether it is a surrogate
/// pair (twelve characters, `\uD8xx\uDCxx`) rather than six. A lone
/// surrogate stands for nothing.
#[verifier::opaque]
pub open spec fn unicode_escape(s: Seq<char>, i: int) -> Option<(char, bool)> {
    match hex4(s, i + 2) {
        None => None,
        Some(v) => if 0xD800 <= v <= 0xDBFF {
            if i + 11 < s.len() && s[i + 6] == '\\' && s[i + 7] == 'u' {
                match hex4(s, i + 8) {
                    Some(w) => if 0xDC00 <= w <= 0xDFFF {
                        match char_of_code((0x10000 + (v - 0xD800) * 1024 + (w - 0xDC00)) as nat) {
                            Some(c) => Some((c, true)),
                            None => None,
                        }
                    } else {
                        None
                    },
                    None => None,
                }
            } else {
                None
            }
        } else {
            match char_of_code(v) {
                Some(c) => Some((c, false)),
                None => None,
            }
        },
    }
}

/// Reads the rest of a string literal from `i`, after `acc` was read: the
/// characters and the position after the closing quote.
pub open spec fn string_scan(s: Seq<char>, i: int, acc: Seq<char>) -> Option<(Seq<char>, int)>
    decreases s.len() - i,
{
    if i < 0 || i >= s.len() {
        None
    } else if s[i] == '"' {
        Some((acc, i + 1))
    } else if s[i] == '\\' {
        if i + 1 < s.len() && simple_escape(s[i + 1]) is Some {
            string_scan(s, i + 2, acc.push(simple_escape(s[i + 1]).unwrap()))
        } else if i + 5 < s.len() && s[i + 1] == 'u' && unicode_escape(s, i) is Some
            // a pair always has its twelve characters; said here for the measure
             && (unicode_escape(
            s,
            i,
        ).unwrap().1 ==> i + 11 < s.len()) {
            string_scan(
                s,
                i + (if unicode_escape(s, i).unwrap().1 {
                    12int
                } else {
                    6int
                }),
                acc.push(unicode_escape(s, i).unwrap().0),
            )
        } else {
            None
        }
    } else if (s[i] as u32) < 0x20 {
        None
    } else {
        string_scan(s, i + 1, acc.push(s[i]))
    }
}

/// The first position at or after `i` that is not a digit.
pub open spec fn digits_end(s: Seq<char>, i: int) -> int
    decreases s.len() - i,
{
    if 0 <= i < s.len() && is_digit(s[i]) {
        digits_end(s, i + 1)
    } else {
        i
    }
}

/// The value of the digits from `i` up to `j`.
pub open spec fn digits_value(s: Seq<char>, i: int, j: int) -> nat
    decreases j - i,
{
    if j <= i {
        0
    } else {
        digits_value(s, i, j - 1) * 10 + (s[j - 1] as u32 - 48) as nat
    }
}

pub open spec fn pow10(n: nat) -> nat
    decreases n,
{
    if n == 0 {
        1
    } else {
        10 * pow10((n - 1) as nat)
    }
}

/// An integer at `i`: optional minus, digits without a leading zero, no
/// fraction or exponent, magnitude within 64 bits.
pub open spec fn number_at(s: Seq<char>, i: int) -> Option<(int, int)> {
    let neg = 0 <= i < s.len() && s[i] == '-';
    let st = if neg {
        i + 1
    } else {
        i
    };
    let e = digits_end(s, st);
    if e == st {
        None
    } else if s[st] == '0' && e > st + 1 {
        None
    } else if e - st > 20 {
        None
    } else if e < s.len() && (s[e] == '.' || s[e] == 'e' || s[e] == 'E') {
        None
    } else if digits_value(s, st, e) > u64::MAX {
        None
    } else {
        Some(
            (
                if neg {
                    -(digits_value(s, st, e) as int)
                } else {
                    digits_value(s, st, e) as int
                },
                e,
            ),
        )
    }
}

/// The word `w` stands at `i`.
pub open spec fn word_at(s: Seq<char>, i: int, w: Seq<char>) -> bool {
    0 <= i && i + w.len() <= s.len() && s.subrange(i, i + w.len()) == w
}

/// A scalar at `i`, and the position after it.
pub open spec fn scalar_at(s: Seq<char>, i: int) -> Option<(ScalarModel, int)> {
    if i < 0 || i >= s.len() {
        None
    } else if s[i] == '"' {
        match string_scan(s, i + 1, seq![]) {
            Some((t, j)) => Some((ScalarModel::Str(t), j)),
            None => None,
        }
    } else if word_at(s, i, "null"@) {
        Some((ScalarModel::Null, i + 4))
    } else if word_at(s, i, "true"@) {
        Some((ScalarModel::Bool(true), i + 4))
    } else if word_at(s, i, "false"@) {
        Some((ScalarModel::Bool(false), i + 5))
    } else if s[i] == '-' || is_digit(s[i]) {
        match number_at(s, i) {
            Some((n, j)) => Some((ScalarModel::Int(n), j)),
            None => None,
        }
    } else {
        None
    }
}

/// Members of a flat object from `i`, where a key is due, after `acc` was
/// read; at most `fuel` more members.
pub open spec fn row_members(
    s: Seq<char>,
    i: int,
    acc: Seq<(Seq<char>, ScalarModel)>,
    fuel: nat,
) -> Option<(Seq<(Seq<char>, ScalarModel)>, int)>
    decreases fuel,
{
    if fuel == 0 || !(0 <= i < s.len() && s[i] == '"') {
        None
    } else {
        match string_scan(s, i + 1, seq![]) {
            None => None,
            Some((k, a)) => {
                let b = skip_ws(s, a);
                if !(0 <= b < s.len() && s[b] == ':') {
                    None
                } else {
                    match scalar_at(s, skip_ws(s, b + 1)) {
                        None => None,
                        Some((v, c)) => {
                            let d = skip_ws(s, c);
                            if 0 <= d < s.len() && s[d] == ',' {
                                row_members(s, skip_ws(s, d + 1), acc.push((k, v)), (fuel - 1) as nat)
                            } else if 0 <= d < s.len() && s[d] == '}' {
                                Some((acc.push((k, v)), d + 1))
                            } else {
                                None
                            }
                        },
                    }
                }
            },
        }
    }
}

/// A flat object at `i`, and the position after it.
pub open spec fn row_at(s: Seq<char>, i: int) -> Option<(Seq<(Seq<char>, ScalarModel)>, int)> {
    if !(0 <= i < s.len() && s[i] == '{') {
        None
    } else {
        let j = skip_ws(s, i + 1);
        if 0 <= j < s.len() && s[j] == '}' {
            Some((seq![], j + 1))
        } else {
            row_members(s, j, seq![], s.len())
        }
    }
}

/// Items of a list of flat objects from `i`, where an object is due.
pub open spec fn rows_items(
    s: Seq<char>,
    i: int,
    acc: Seq<Seq<(Seq<char>, ScalarModel)>>,
    fuel: nat,
) -> Option<(Seq<Seq<(Seq<char>, ScalarModel)>>, int)>
    decreases fuel,
{
    if fuel == 0 {
        None
    } else {
        match row_at(s, i) {
            None => None,
            Some((r, c)) => {
                let d = skip_ws(s, c);
                if 0 <= d < s.len() && s[d] == ',' {
                    rows_items(s, skip_ws(s, d + 1), acc.push(r), (fuel - 1) as nat)
                } else if 0 <= d < s.len() && s[d] == ']' {
                    Some((acc.push(r), d + 1))
                } else {
                    None
                }
            },
        }
    }
}

/// A member's value at `i`, and the position after it.
pub open spec fn value_at(s: Seq<char>, i: int) -> Option<(ValueModel, int)> {
    if 0 <= i < s.len() && s[i] == '[' {
        let j = skip_ws(s, i + 1);
        if 0 <= j < s.len() && s[j] == ']' {
            Some((ValueModel::Rows(seq![]), j + 1))
        } else {
            match rows_items(s, j, seq![], s.len()) {
                Some((rs, k)) => Some((ValueModel::Rows(rs), k)),
                None => None,
            }
        }
    } else {
        match scalar_at(s, i) {
            Some((v, k)) => Some((ValueModel::Scalar(v), k)),
            None => None,
        }
    }
}

/// Members of the outer object from `i`, where a key is due.
pub open spec fn object_members(
    s: Seq<char>,
    i: int,
    acc: Seq<(Seq<char>, ValueModel)>,
    fuel: nat,
) -> Option<(Seq<(Seq<char>, ValueModel)>, int)>
    decreases fuel,
{
    if fuel == 0 || !(0 <= i < s.len() && s[i] == '"') {
        None
    } else {
        match string_scan(s, i + 1, seq![]) {
            None => None,
            Some((k, a)) => {
                let b = skip_ws(s, a);
                if !(0 <= b < s.len() && s[b] == ':') {
                    None
                } else {
                    match value_at(s, skip_ws(s, b + 1)) {
                        None => None,
                        Some((v, c)) => {
                            let d = skip_ws(s, c);
                            if 0 <= d < s.len() && s[d] == ',' {
                                object_members(s, skip_ws(s, d + 1), acc.push((k, v)), (fuel - 1) as nat)
                            } else if 0 <= d < s.len() && s[d] == '}' {
                                Some((acc.push((k, v)), d + 1))
                            } else {
                                None
                            }
                        },
                    }
                }
            },
        }
    }
}

/// The members of the document `s`: one object, with whitespace around
/// its parts, and nothing after it.
pub open spec fn parse_document(s: Seq<char>) -> Option<Seq<(Seq<char>, ValueModel)>> {
    let i = skip_ws(s, 0);
    if !(0 <= i < s.len() && s[i] == '{') {
        None
    } else {
        let j = skip_ws(s, i + 1);
        let body = if 0 <= j < s.len() && s[j] == '}' {
            Some((seq![], j + 1))
        } else {
            object_members(s, j, seq![], s.len())
        };
        match body {
            Some((m, k)) => if skip_ws(s, k) == s.len() {
                Some(m)
            } else {
                None
            },
            None => None,
        }
    }
}

/// `r` holds, with views, what `m` holds.
pub open spec fn same_at<T: View>(r: Option<(T, usize)>, m: Option<(T::V, int)>) -> bool {
    match (r, m) {
        (None, None) => true,
        (Some((a, i)), Some((b, j))) => a@ == b && i as int == j,
        _ => false,
    }
}

fn skip_spaces(s: &Vec<char>, i: usize) -> (r: usize)
    requires
        i <= s.len(),
    ensures
        r as int == skip_ws(s@, i as int),
        i <= r <= s.len(),
{
    let mut k = i;
    while k < s.len() && (s[k] == ' ' || s[k] == '\t' || s[k] == '\n' || s[k] == '\r')
        invariant
            i <= k <= s.len(),
            skip_ws(s@, i as int) == skip_ws(s@, k as int),
        decreases s.len() - k,
    {
        k += 1;
    }
    k
}

fn escape_of(c: char) -> (r: Option<char>)
    ensures
        r == simple_escape(c),
{
    if c == '"' {
        Some('"')
    } else if c == '\\' {
        Some('\\')
    } else if c == '/' {
        Some('/')
    } else if c == 'b' {
        Some('\x08')
    } else if c == 'f' {
        Some('\x0c')
    } else if c == 'n' {
        Some('\n')
    } else if c == 'r' {
        Some('\r')
    } else if c == 't' {
        Some('\t')
    } else {
        None
    }
}

fn hex_of(c: char) -> (r: Option<u32>)
    ensures
        match hex_value(c) {
            None => r is None,
            Some(v) => r == Some(v as u32),
        },
{
    let code = c as u32;
    if 48 <= code && code <= 57 {
        Some(code - 48)
    } else if 97 <= code && code <= 102 {
        Some(code - 87)
    } else if 65 <= code && code <= 70 {
        Some(code - 55)
    } else {
        None
    }
}

fn hex4_at(s: &Vec<char>, j: usize) -> (r: Option<u32>)
    requires
        j + 3 < s.len(),
    ensures
        match hex4(s@, j as int) {
            None => r is None,
            Some(v) => r == Some(v as u32),
        },
{
    match (hex_of(s[j]), hex_of(s[j + 1]), hex_of(s[j + 2]), hex_of(s[j + 3])) {
        (Some(a), Some(b), Some(c), Some(d)) => Some(a * 4096 + b * 256 + c * 16 + d),
        _ => None,
    }
}

/// Relies on `char::from_u32`: the character with this code point, or
/// `None` for a surrogate or a value above U+10FFFF.
#[verifier::external_body]
fn char_from_code(code: u32) -> (r: Option<char>)
    ensures
        r == char_of_code(code as nat),
{
    char::from_u32(code)
}

fn unicode_escape_at(s: &Vec<char>, i: usize) -> (r: Option<(char, bool)>)
    requires
        i + 5 < s.len(),
    ensures
        r == unicode_escape(s@, i as int),
        r matches Some((_, true)) ==> i + 11 < s.len(),
{
    reveal(unicode_escape);
    let v = match hex4_at(s, i + 2) {
        Some(v) => v,
        None => {
            return None;
        },
    };
    if 0xD800 <= v && v <= 0xDBFF {
        if s.len() - i > 11 && s[i + 6] == '\\' && s[i + 7] == 'u' {
            match hex4_at(s, i + 8) {
                Some(w) => if 0xDC00 <= w && w <= 0xDFFF {
                    match char_from_code(0x10000 + (v - 0xD800) * 1024 + (w - 0xDC00)) {
                        Some(c) => Some((c, true)),
                        None => None,
                    }
                } else {
                    None
                },
                None => None,
            }
        } else {
            None
        }
    } else {
        match char_from_code(v) {
            Some(c) => Some((c, false)),
            None => None,
        }
    }
}

/// Reads a string literal whose opening quote stands before `start`.
fn scan_string(s: &Vec<char>, start: usize) -> (r: Option<(String, usize)>)
    requires
        start <= s.len(),
    ensures
        same_at(r, string_scan(s@, start as int, seq![])),
        r is Some ==> r.unwrap().1 <= s.len(),
{
    let mut out = String::new();
    let mut i = start;
    while i < s.len()
        invariant
            start <= i <= s.len(),
            string_scan(s@, start as int, seq![]) == string_scan(s@, i as int, out@),
        decreases s.len() - i,
    {
        let c = s[i];
        if c == '"' {
            return Some((out, i + 1));
        } else if c == '\\' {
            if i + 1 < s.len() {
                if let Some(e) = escape_of(s[i + 1]) {
                    push_char(&mut out, e);
                    i = i + 2;
                    continue;
                }
            }
            if s.len() - i > 5 && s[i + 1] == 'u' {
                if let Some((e, pair)) = unicode_escape_at(s, i) {
                    push_char(&mut out, e);
                    i = if pair {
                        i + 12
                    } else {
                        i + 6
                    };
                    continue;
                }
            }
            return None;
        } else if (c as u32) < 0x20 {
            return None;
        } else {
            push_char(&mut out, c);
            i += 1;
        }
    }
    None
}

proof fn lemma_pow10_grows(a: nat, b: nat)
    requires
        a <= b,
    ensures
        pow10(a) <= pow10(b),
    decreases b,
{
    if a < b {
        lemma_pow10_grows(a, (b - 1) as nat);
    }
}

proof fn lemma_pow10_20()
    ensures
        pow10(20) == 100000000000000000000,
{
    reveal_with_fuel(pow10, 21);
}

fn scan_number(s: &Vec<char>, i: usize) -> (r: Option<(i128, usize)>)
    requires
        i < s.len(),
    ensures
        match number_at(s@, i as int) {
            None => r is None,
            Some((n, j)) => r is Some && r.unwrap().0 as int == n && r.unwrap().1 as int == j,
        },
        r is Some ==> r.unwrap().1 <= s.len(),
{
    let neg = s[i] == '-';
    let st = if neg {
        i + 1
    } else {
        i
    };
    let mut e = st;
    while e < s.len() && 48 <= s[e] as u32 && s[e] as u32 <= 57
        invariant
            st <= e <= s.len(),
            digits_end(s@, st as int) == digits_end(s@, e as int),
            forall|t: int| st <= t < e ==> is_digit(#[trigger] s@[t]),
        decreases s.len() - e,
    {
        e += 1;
    }
    if e == st {
        return None;
    }
    if s[st] == '0' && e > st + 1 {
        return None;
    }
    if e - st > 20 {
        return None;
    }
    if e < s.len() && (s[e] == '.' || s[e] == 'e' || s[e] == 'E') {
        return None;
    }
    let mut acc: u128 = 0;
    let mut k = st;
    proof {
        lemma_pow10_20();
    }
    while k < e
        invariant
            st <= k <= e <= s.len(),
            e - st <= 20,
            forall|t: int| st <= t < e ==> is_digit(#[trigger] s@[t]),
            acc as nat == digits_value(s@, st as int, k as int),
            acc < pow10((k - st) as nat),
            pow10(20) == 100000000000000000000,
        decreases e - k,
    {
        let d = (s[k] as u32 - 48) as u128;
        proof {
            lemma_pow10_grows((k - st) as nat, 19);
            assert(acc * 10 + d < pow10((k - st) as nat) * 10) by (nonlinear_arith)
                requires
                    acc < pow10((k - st) as nat),
                    d < 10,
            ;
            reveal_with_fuel(pow10, 20);
        }
        acc = acc * 10 + d;
        k += 1;
    }
    if acc > u64::MAX as u128 {
        return None;
    }
    let v: i128 = if neg {
        -(acc as i128)
    } else {
        acc as i128
    };
    Some((v, e))
}

/// `w` stands at `i` in `s`.
fn word_here(s: &Vec<char>, i: usize, w: &str) -> (r: bool)
    requires
        i <= s.len(),
    ensures
        r == word_at(s@, i as int, w@),
{
    let wc = chars_of(w);
    if wc.len() > s.len() - i {
        return false;
    }
    let mut k: usize = 0;
    while k < wc.len()
        invariant
            k <= wc.len(),
            i + wc.len() <= s.len(),
            wc@ == w@,
            forall|t: int| 0 <= t < k ==> s@[i + t] == wc@[t],
        decreases wc.len() - k,
    {
        if s[i + k] != wc[k] {
            assert(s@.subrange(i as int, i + wc.len())[k as int] != w@[k as int]);
            return false;
        }
        k += 1;
    }
    assert(s@.subrange(i as int, i + wc.len()) =~= w@);
    true
}

fn scan_scalar(s: &Vec<char>, i: usize) -> (r: Option<(Scalar, usize)>)
    requires
        i <= s.len(),
    ensures
        same_at(r, scalar_at(s@, i as int)),
        r is Some ==> r.unwrap().1 <= s.len(),
{
    if i >= s.len() {
        return None;
    }
    if s[i] == '"' {
        return match scan_string(s, i + 1) {
            Some((t, j)) => Some((Scalar::Str(t), j)),
            None => None,
        };
    }
    proof {
        reveal_strlit("null");
        reveal_strlit("true");
        reveal_strlit("false");
    }
    if word_here(s, i, "null") {
        return Some((Scalar::Null, i + 4));
    }
    if word_here(s, i, "true") {
        return Some((Scalar::Bool(true), i + 4));
    }
    if word_here(s, i, "false") {
        return Some((Scalar::Bool(false), i + 5));
    }
    if s[i] == '-' || (48 <= s[i] as u32 && s[i] as u32 <= 57) {
        return match scan_number(s, i) {
            Some((n, j)) => Some((Scalar::Int(n), j)),
            None => None,
        };
    }
    None
}


fn scan_row_members(s: &Vec<char>, start: usize, fuel0: usize) -> (r: Option<(Row, usize)>)
    requires
        start <= s.len(),
    ensures
        match row_members(s@, start as int, seq![], fuel0 as nat) {
            None => r is None,
            Some((m, j)) => r is Some && row_view(r.unwrap().0@) == m && r.unwrap().1 as int == j,
        },
        r is Some ==> r.unwrap().1 <= s.len(),
{
    let mut acc: Row = Vec::new();
    let mut i = start;
    let mut fuel = fuel0;
    assert(row_view(acc@) =~= seq![]);
    loop
        invariant
            i <= s.len(),
            row_members(s@, start as int, seq![], fuel0 as nat) == row_members(
                s@,
                i as int,
                row_view(acc@),
                fuel as nat,
            ),
        decreases fuel,
    {
        if fuel == 0 || !(i < s.len() && s[i] == '"') {
            return None;
        }
        let (k, a) = match scan_string(s, i + 1) {
            Some(p) => p,
            None => {
                return None;
            },
        };
        let b = skip_spaces(s, a);
        if !(b < s.len() && s[b] == ':') {
            return None;
        }
        let p = skip_spaces(s, b + 1);
        let (v, c) = match scan_scalar(s, p) {
            Some(q) => q,
            None => {
                return None;
            },
        };
        let d = skip_spaces(s, c);
        let ghost before = row_view(acc@);
        acc.push((k, v));
        assert(row_view(acc@) =~= before.push((k@, v@)));
        if d < s.len() && s[d] == ',' {
            i = skip_spaces(s, d + 1);
            fuel = fuel - 1;
        } else if d < s.len() && s[d] == '}' {
            return Some((acc, d + 1));
        } else {
            return None;
        }
    }
}

fn scan_row(s: &Vec<char>, i: usize) -> (r: Option<(Row, usize)>)
    requires
        i <= s.len(),
    ensures
        match row_at(s@, i as int) {
            None => r is None,
            Some((m, j)) => r is Some && row_view(r.unwrap().0@) == m && r.unwrap().1 as int == j,
        },
        r is Some ==> r.unwrap().1 <= s.len(),
{
    if !(i < s.len() && s[i] == '{') {
        return None;
    }
    let j = skip_spaces(s, i + 1);
    if j < s.len() && s[j] == '}' {
        let empty: Row = Vec::new();
        assert(row_view(empty@) =~= seq![]);
        return Some((empty, j + 1));
    }
    assert(row_view(Seq::<(String, Scalar)>::empty()) =~= seq![]);
    scan_row_members(s, j, s.len())
}

fn scan_rows(s: &Vec<char>, start: usize, fuel0: usize) -> (r: Option<(Vec<Row>, usize)>)
    requires
        start <= s.len(),
    ensures
        match rows_items(s@, start as int, seq![], fuel0 as nat) {
            None => r is None,
            Some((m, j)) => r is Some && rows_view(r.unwrap().0@) == m && r.unwrap().1 as int == j,
        },
        r is Some ==> r.unwrap().1 <= s.len(),
{
    let mut acc: Vec<Row> = Vec::new();
    let mut i = start;
    let mut fuel = fuel0;
    assert(rows_view(acc@) =~= seq![]);
    loop
        invariant
            i <= s.len(),
            rows_items(s@, start as int, seq![], fuel0 as nat) == rows_items(
                s@,
                i as int,
                rows_view(acc@),
                fuel as nat,
            ),
        decreases fuel,
    {
        if fuel == 0 {
            return None;
        }
        let (row, c) = match scan_row(s, i) {
            Some(q) => q,
            None => {
                return None;
            },
        };
        let d = skip_spaces(s, c);
        let ghost before = rows_view(acc@);
        acc.push(row);
        assert(rows_view(acc@) =~= before.push(row_view(row@)));
        if d < s.len() && s[d] == ',' {
            i = skip_spaces(s, d + 1);
            fuel = fuel - 1;
        } else if d < s.len() && s[d] == ']' {
            return Some((acc, d + 1));
        } else {
            return None;
        }
    }
}

fn scan_value(s: &Vec<char>, i: usize) -> (r: Option<(Value, usize)>)
    requires
        i <= s.len(),
    ensures
        same_at(r, value_at(s@, i as int)),
        r is Some ==> r.unwrap().1 <= s.len(),
{
    if i < s.len() && s[i] == '[' {
        let j = skip_spaces(s, i + 1);
        if j < s.len() && s[j] == ']' {
            let empty: Vec<Row> = Vec::new();
            assert(rows_view(empty@) =~= seq![]);
            return Some((Value::Rows(empty), j + 1));
        }
        match scan_rows(s, j, s.len()) {
            Some((rs, k)) => Some((Value::Rows(rs), k)),
            None => None,
        }
    } else {
        match scan_scalar(s, i) {
            Some((v, k)) => Some((Value::Scalar(v), k)),
            None => None,
        }
    }
}

fn scan_members(s: &Vec<char>, start: usize, fuel0: usize) -> (r: Option<(Vec<(String, Value)>, usize)>)
    requires
        start <= s.len(),
    ensures
        match object_members(s@, start as int, seq![], fuel0 as nat) {
            None => r is None,
            Some((m, j)) => r is Some && members_view(r.unwrap().0@) == m && r.unwrap().1 as int == j,
        },
        r is Some ==> r.unwrap().1 <= s.len(),
{
    let mut acc: Vec<(String, Value)> = Vec::new();
    let mut i = start;
    let mut fuel = fuel0;
    assert(members_view(acc@) =~= seq![]);
    loop
        invariant
            i <= s.len(),
            object_members(s@, start as int, seq![], fuel0 as nat) == object_members(
                s@,
                i as int,
                members_view(acc@),
                fuel as nat,
            ),
        decreases fuel,
    {
        if fuel == 0 || !(i < s.len() && s[i] == '"') {
            return None;
        }
        let (k, a) = match scan_string(s, i + 1) {
            Some(p) => p,
            None => {
                return None;
            },
        };
        let b = skip_spaces(s, a);
        if !(b < s.len() && s[b] == ':') {
            return None;
        }
        let p = skip_spaces(s, b + 1);
        let (v, c) = match scan_value(s, p) {
            Some(q) => q,
            None => {
                return None;
            },
        };
        let d = skip_spaces(s, c);
        let ghost before = members_view(acc@);
        acc.push((k, v));
        assert(members_view(acc@) =~= before.push((k@, v@)));
        if d < s.len() && s[d] == ',' {
            i = skip_spaces(s, d + 1);
            fuel = fuel - 1;
        } else if d < s.len() && s[d] == '}' {
            return Some((acc, d + 1));
        } else {
            return None;
        }
    }
}

/// The members of a JSON document that is one object, in order.
pub fn parse_object(text: &str) -> (r: Option<Vec<(String, Value)>>)
    ensures
        match parse_document(text@) {
            None => r is None,
            Some(m) => r is Some && members_view(r.unwrap()@) == m,
        },
{
    let s = chars_of(text);
    let i = skip_spaces(&s, 0);
    if !(i < s.len() && s[i] == '{') {
        return None;
    }
    let j = skip_spaces(&s, i + 1);
    let body = if j < s.len() && s[j] == '}' {
        let empty: Vec<(String, Value)> = Vec::new();
        assert(members_view(empty@) =~= seq![]);
        Some((empty, j + 1))
    } else {
        scan_members(&s, j, s.len())
    };
    match body {
        Some((m, k)) => if skip_spaces(&s, k) == s.len() {
            Some(m)
        } else {
            None
        },
        None => None,
    }
}

} // verus!
