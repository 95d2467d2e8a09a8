//! Reading back what was written: the parser recovers every object that
//! the writer produces from members the protocol can carry.

use vstd::prelude::*;
use crate::json::{
    ScalarModel, ValueModel, char_of_code, code_point, digits_end, digits_value, escape_char, escaped, hex_char, hex_value,
    hex4, is_digit, is_ws, member_text, members_body, number_at, object_members, object_text, parse_document, pow10,
    row_at, row_body, row_members, row_text, rows_body, rows_items, scalar_at, scalar_text, skip_ws, string_scan,
    string_text, unicode_escape, value_at, value_text, word_at,
};
use crate::text::{decimal, digit_char, int_text};

verus! {

/// `p` stands in `s` at position `i`.
pub open spec fn piece_at(s: Seq<char>, i: int, p: Seq<char>) -> bool {
    0 <= i && i + p.len() <= s.len() && s.subrange(i, i + p.len()) == p
}

/// A scalar that the writer and the reader agree on: integers within 64
/// bits of magnitude.
pub open spec fn scalar_ok(v: ScalarModel) -> bool {
    match v {
        ScalarModel::Int(n) => -(u64::MAX as int) <= n <= u64::MAX as int,
        _ => true,
    }
}

pub open spec fn row_ok(r: Seq<(Seq<char>, ScalarModel)>) -> bool {
    forall|k: int| 0 <= k < r.len() ==> scalar_ok(#[trigger] r[k].1)
}

pub open spec fn value_ok(v: ValueModel) -> bool {
    match v {
        ValueModel::Scalar(x) => scalar_ok(x),
        ValueModel::Rows(rs) => forall|k: int| 0 <= k < rs.len() ==> row_ok(#[trigger] rs[k]),
    }
}

/// Members whose values the reader gives back as written.
pub open spec fn members_ok(m: Seq<(Seq<char>, ValueModel)>) -> bool {
    forall|k: int| 0 <= k < m.len() ==> value_ok(#[trigger] m[k].1)
}

pub proof fn lemma_piece_split(s: Seq<char>, i: int, a: Seq<char>, b: Seq<char>)
    requires
        piece_at(s, i, a + b),
    ensures
        piece_at(s, i, a),
        piece_at(s, i + a.len(), b),
{
    let w = s.subrange(i, i + a.len() + b.len());
    assert(w == a + b);
    assert(s.subrange(i, i + a.len()) =~= w.subrange(0, a.len() as int));
    assert(w.subrange(0, a.len() as int) =~= a);
    assert(s.subrange(i + a.len(), i + a.len() + b.len()) =~= w.subrange(a.len() as int, w.len() as int));
    assert(w.subrange(a.len() as int, w.len() as int) =~= b);
}

pub proof fn lemma_piece_char(s: Seq<char>, i: int, p: Seq<char>, k: int)
    requires
        piece_at(s, i, p),
        0 <= k < p.len(),
    ensures
        s[i + k] == p[k],
{
    assert(s.subrange(i, i + p.len())[k] == s[i + k]);
}

pub proof fn lemma_escaped_concat(a: Seq<char>, b: Seq<char>)
    ensures
        escaped(a + b) == escaped(a) + escaped(b),
    decreases b.len(),
{
    if b.len() == 0 {
        assert(a + b =~= a);
        assert(escaped(a) + escaped(b) =~= escaped(a));
    } else {
        assert((a + b).drop_last() =~= a + b.drop_last());
        assert((a + b).last() == b.last());
        lemma_escaped_concat(a, b.drop_last());
        assert(escaped(a + b) =~= escaped(a) + escaped(b));
    }
}

pub proof fn lemma_escaped_front(t: Seq<char>)
    requires
        t.len() > 0,
    ensures
        escaped(t) == escape_char(t[0]) + escaped(t.drop_first()),
{
    assert(t =~= seq![t[0]] + t.drop_first());
    lemma_escaped_concat(seq![t[0]], t.drop_first());
    assert(seq![t[0]].drop_last() =~= Seq::<char>::empty());
    reveal_with_fuel(escaped, 2);
    assert(escaped(seq![t[0]]) =~= escape_char(t[0]));
}

/// Characters with the same code point are the same.
pub proof fn lemma_same_code(a: char, b: char)
    requires
        a as u32 == b as u32,
    ensures
        a == b,
{
}

pub proof fn lemma_hex_round_trip(d: nat)
    requires
        d < 16,
    ensures
        hex_value(hex_char(d)) == Some(d),
{
}

/// One written character is read back as itself.
pub proof fn lemma_scan_char(s: Seq<char>, i: int, c: char, acc: Seq<char>)
    requires
        piece_at(s, i, escape_char(c)),
        i + escape_char(c).len() < s.len(),
    ensures
        string_scan(s, i, acc) == string_scan(s, i + escape_char(c).len(), acc.push(c)),
{
    let e = escape_char(c);
    assert forall|k: int| 0 <= k < e.len() implies s[i + k] == e[k] by {
        lemma_piece_char(s, i, e, k);
    }
    if c == '"' {
        assert(s[i] == '\\' && s[i + 1] == '"');
    } else if c == '\\' {
        assert(s[i] == '\\' && s[i + 1] == '\\');
    } else if c == '\n' {
        assert(s[i] == '\\' && s[i + 1] == 'n');
    } else if c == '\r' {
        assert(s[i] == '\\' && s[i + 1] == 'r');
    } else if c == '\t' {
        assert(s[i] == '\\' && s[i + 1] == 't');
    } else if c == '\x08' {
        assert(s[i] == '\\' && s[i + 1] == 'b');
    } else if c == '\x0c' {
        assert(s[i] == '\\' && s[i + 1] == 'f');
    } else if (c as u32) < 0x20 {
        let code = c as u32;
        lemma_hex_round_trip((code / 16) as nat);
        lemma_hex_round_trip((code % 16) as nat);
        assert(s[i] == '\\' && s[i + 1] == 'u');
        assert(s[i + 2] == '0' && s[i + 3] == '0');
        assert(hex_value(s[i + 2]) == Some(0nat));
        assert(hex_value(s[i + 3]) == Some(0nat));
        assert(hex_value(s[i + 4]) == Some((code / 16) as nat));
        assert(hex_value(s[i + 5]) == Some((code % 16) as nat));
        assert(hex4(s, i + 2) == Some(code as nat));
        assert(code_point(c) == code as nat);
        let x = choose|x: char| #[trigger] code_point(x) == code as nat;
        assert(code_point(x) == code_point(c));
        lemma_same_code(x, c);
        assert(char_of_code(code as nat) == Some(c));
        reveal(unicode_escape);
        assert(unicode_escape(s, i) == Some((c, false)));
    } else {
        assert(e == seq![c]);
        lemma_piece_char(s, i, e, 0);
        assert(e[0] == c);
        assert(s[i] == c);
    }
}

/// A written string body, followed by its closing quote, is read back.
pub proof fn lemma_scan_escaped(s: Seq<char>, i: int, t: Seq<char>, acc: Seq<char>)
    requires
        piece_at(s, i, escaped(t) + seq!['"']),
    ensures
        string_scan(s, i, acc) == Some((acc + t, i + escaped(t).len() + 1)),
    decreases t.len(),
{
    if t.len() == 0 {
        lemma_piece_char(s, i, escaped(t) + seq!['"'], 0);
        assert(acc + t =~= acc);
    } else {
        let c = t[0];
        let rest = t.drop_first();
        lemma_escaped_front(t);
        assert(escaped(t) + seq!['"'] =~= escape_char(c) + (escaped(rest) + seq!['"']));
        lemma_piece_split(s, i, escape_char(c), escaped(rest) + seq!['"']);
        lemma_scan_char(s, i, c, acc);
        lemma_scan_escaped(s, i + escape_char(c).len(), rest, acc.push(c));
        assert(acc.push(c) + rest =~= acc + t);
    }
}

/// A written string literal is read back.
pub proof fn lemma_string_at(s: Seq<char>, i: int, t: Seq<char>)
    requires
        piece_at(s, i, string_text(t)),
    ensures
        s[i] == '"',
        string_scan(s, i + 1, seq![]) == Some((t, i + string_text(t).len())),
{
    assert(string_text(t) =~= seq!['"'] + (escaped(t) + seq!['"']));
    lemma_piece_split(s, i, seq!['"'], escaped(t) + seq!['"']);
    lemma_piece_char(s, i, seq!['"'], 0);
    lemma_scan_escaped(s, i + 1, t, seq![]);
    assert(seq![] + t =~= t);
}

pub proof fn lemma_decimal_facts(m: nat)
    ensures
        decimal(m).len() >= 1,
        forall|k: int| 0 <= k < decimal(m).len() ==> is_digit(#[trigger] decimal(m)[k]),
        decimal(m)[0] == '0' ==> m == 0 && decimal(m).len() == 1,
        decimal(m).len() > 1 ==> m >= pow10((decimal(m).len() - 1) as nat),
    decreases m,
{
    if m >= 10 {
        lemma_decimal_facts(m / 10);
        let d = decimal(m / 10);
        assert(decimal(m) == d.push(digit_char(m % 10)));
        assert forall|k: int| 0 <= k < decimal(m).len() implies is_digit(#[trigger] decimal(m)[k]) by {
            if k < d.len() {
                assert(decimal(m)[k] == d[k]);
            }
        }
        assert(decimal(m)[0] == d[0]);
        if d.len() > 1 {
            assert(m / 10 >= pow10((d.len() - 1) as nat));
        }
        assert(pow10(d.len() as nat) == 10 * pow10((d.len() - 1) as nat));
        assert(m >= 10 * pow10((d.len() - 1) as nat)) by (nonlinear_arith)
            requires
                m / 10 >= pow10((d.len() - 1) as nat),
                m >= 10,
        {
        }
    }
}

pub proof fn lemma_digits_value(s: Seq<char>, st: int, m: nat)
    requires
        piece_at(s, st, decimal(m)),
    ensures
        digits_value(s, st, st + decimal(m).len()) == m,
    decreases m,
{
    let d = decimal(m);
    let e = st + d.len();
    lemma_piece_char(s, st, d, d.len() - 1);
    lemma_digit_value(m % 10);
    reveal_with_fuel(digits_value, 2);
    if m >= 10 {
        let q = decimal(m / 10);
        assert(d =~= q + seq![digit_char(m % 10)]);
        lemma_piece_split(s, st, q, seq![digit_char(m % 10)]);
        lemma_digits_value(s, st, m / 10);
        assert(m == (m / 10) * 10 + m % 10);
    }
}

pub proof fn lemma_digit_value(d: nat)
    requires
        d < 10,
    ensures
        (digit_char(d) as u32 - 48) as nat == d,
        is_digit(digit_char(d)),
{
}

pub proof fn lemma_digits_end(s: Seq<char>, j: int, e: int)
    requires
        0 <= j <= e <= s.len(),
        forall|x: int| j <= x < e ==> is_digit(#[trigger] s[x]),
        e < s.len() ==> !is_digit(s[e]),
    ensures
        digits_end(s, j) == e,
    decreases e - j,
{
    if j < e {
        lemma_digits_end(s, j + 1, e);
    }
}

proof fn lemma_pow10_20_le(n: nat)
    requires
        n >= 20,
    ensures
        pow10(n) >= 100000000000000000000,
    decreases n,
{
    if n > 20 {
        lemma_pow10_20_le((n - 1) as nat);
    } else {
        reveal_with_fuel(pow10, 21);
    }
}

/// A written integer is read back, when a delimiter follows it.
pub proof fn lemma_number_at(s: Seq<char>, i: int, n: int)
    requires
        piece_at(s, i, int_text(n)),
        -(u64::MAX as int) <= n <= u64::MAX as int,
        i + int_text(n).len() < s.len(),
        !is_digit(s[i + int_text(n).len()]),
        s[i + int_text(n).len()] != '.' && s[i + int_text(n).len()] != 'e' && s[i + int_text(n).len()] != 'E',
    ensures
        number_at(s, i) == Some((n, i + int_text(n).len())),
{
    let m: nat = if n < 0 {
        (-n) as nat
    } else {
        n as nat
    };
    let st = if n < 0 {
        i + 1
    } else {
        i
    };
    let d = decimal(m);
    lemma_decimal_facts(m);
    if n < 0 {
        assert(int_text(n) == seq!['-'] + d);
        lemma_piece_split(s, i, seq!['-'], d);
        lemma_piece_char(s, i, seq!['-'], 0);
    } else {
        assert(int_text(n) == d);
        lemma_piece_char(s, i, d, 0);
        assert(s[i] != '-');
    }
    assert forall|x: int| st <= x < st + d.len() implies is_digit(#[trigger] s[x]) by {
        lemma_piece_char(s, st, d, x - st);
    }
    lemma_digits_end(s, st, st + d.len());
    lemma_digits_value(s, st, m);
    lemma_piece_char(s, st, d, 0);
    if d.len() > 20 {
        lemma_pow10_20_le((d.len() - 1) as nat);
    }
}

/// A written scalar is read back, when a delimiter follows it.
pub proof fn lemma_scalar_at(s: Seq<char>, i: int, v: ScalarModel)
    requires
        piece_at(s, i, scalar_text(v)),
        scalar_ok(v),
        i + scalar_text(v).len() < s.len(),
        s[i + scalar_text(v).len()] == ',' || s[i + scalar_text(v).len()] == '}'
            || s[i + scalar_text(v).len()] == ']',
    ensures
        scalar_at(s, i) == Some((v, i + scalar_text(v).len())),
{
    reveal_strlit("null");
    reveal_strlit("true");
    reveal_strlit("false");
    let t = scalar_text(v);
    lemma_piece_char(s, i, t, 0);
    match v {
        ScalarModel::Str(x) => {
            lemma_string_at(s, i, x);
        },
        ScalarModel::Null => {
            assert(word_at(s, i, "null"@));
        },
        ScalarModel::Bool(b) => {
            if b {
                assert(word_at(s, i, "true"@));
                assert(!word_at(s, i, "null"@)) by {
                    if word_at(s, i, "null"@) {
                        assert(s.subrange(i, i + 4)[0] == s[i]);
                    }
                }
            } else {
                assert(word_at(s, i, "false"@));
                assert(!word_at(s, i, "null"@)) by {
                    if word_at(s, i, "null"@) {
                        assert(s.subrange(i, i + 4)[0] == s[i]);
                    }
                }
                assert(!word_at(s, i, "true"@)) by {
                    if word_at(s, i, "true"@) {
                        assert(s.subrange(i, i + 4)[0] == s[i]);
                    }
                }
            }
        },
        ScalarModel::Int(n) => {
            lemma_decimal_facts(if n < 0 {
                (-n) as nat
            } else {
                n as nat
            });
            if n >= 0 {
                assert(is_digit(decimal(n as nat)[0]));
            }
            assert(!word_at(s, i, "null"@)) by {
                if word_at(s, i, "null"@) {
                    assert(s.subrange(i, i + 4)[0] == s[i]);
                }
            }
            assert(!word_at(s, i, "true"@)) by {
                if word_at(s, i, "true"@) {
                    assert(s.subrange(i, i + 4)[0] == s[i]);
                }
            }
            assert(!word_at(s, i, "false"@)) by {
                if word_at(s, i, "false"@) {
                    assert(s.subrange(i, i + 5)[0] == s[i]);
                }
            }
            lemma_number_at(s, i, n);
        },
    }
}


/// Parts separated by commas.
pub open spec fn join(p: Seq<Seq<char>>) -> Seq<char>
    decreases p.len(),
{
    if p.len() == 0 {
        seq![]
    } else {
        join(p.drop_last()) + (if p.len() == 1 {
            seq![]
        } else {
            seq![',']
        }) + p.last()
    }
}

pub proof fn lemma_join_front(p: Seq<Seq<char>>)
    requires
        p.len() >= 1,
    ensures
        join(p) == p[0] + (if p.len() > 1 {
            seq![','] + join(p.drop_first())
        } else {
            seq![]
        }),
    decreases p.len(),
{
    if p.len() == 1 {
        reveal_with_fuel(join, 2);
        assert(join(p) =~= p[0]);
    } else {
        let dl = p.drop_last();
        lemma_join_front(dl);
        assert(p.drop_first().drop_last() =~= dl.drop_first());
        assert(p.drop_first().last() == p.last());
        if p.len() == 2 {
            reveal_with_fuel(join, 2);
            assert(join(p.drop_first()) =~= p.last());
            assert(join(dl) =~= p[0]);
        }
        assert(join(p) =~= p[0] + (seq![','] + join(p.drop_first())));
    }
}

pub proof fn lemma_join_len(p: Seq<Seq<char>>)
    requires
        forall|k: int| 0 <= k < p.len() ==> (#[trigger] p[k]).len() >= 1,
    ensures
        join(p).len() >= p.len(),
    decreases p.len(),
{
    if p.len() > 0 {
        lemma_join_len(p.drop_last());
    }
}

pub open spec fn row_parts(r: Seq<(Seq<char>, ScalarModel)>) -> Seq<Seq<char>> {
    r.map_values(|m: (Seq<char>, ScalarModel)| member_text(m.0, scalar_text(m.1)))
}

pub open spec fn rows_parts(rs: Seq<Seq<(Seq<char>, ScalarModel)>>) -> Seq<Seq<char>> {
    rs.map_values(|r: Seq<(Seq<char>, ScalarModel)>| row_text(r))
}

pub open spec fn member_parts(m: Seq<(Seq<char>, ValueModel)>) -> Seq<Seq<char>> {
    m.map_values(|x: (Seq<char>, ValueModel)| member_text(x.0, value_text(x.1)))
}

pub proof fn lemma_row_body_join(r: Seq<(Seq<char>, ScalarModel)>)
    ensures
        row_body(r) == join(row_parts(r)),
    decreases r.len(),
{
    if r.len() > 0 {
        lemma_row_body_join(r.drop_last());
        assert(row_parts(r).drop_last() =~= row_parts(r.drop_last()));
    }
}

pub proof fn lemma_rows_body_join(rs: Seq<Seq<(Seq<char>, ScalarModel)>>)
    ensures
        rows_body(rs) == join(rows_parts(rs)),
    decreases rs.len(),
{
    if rs.len() > 0 {
        lemma_rows_body_join(rs.drop_last());
        assert(rows_parts(rs).drop_last() =~= rows_parts(rs.drop_last()));
    }
}

pub proof fn lemma_members_body_join(m: Seq<(Seq<char>, ValueModel)>)
    ensures
        members_body(m) == join(member_parts(m)),
    decreases m.len(),
{
    if m.len() > 0 {
        lemma_members_body_join(m.drop_last());
        assert(member_parts(m).drop_last() =~= member_parts(m.drop_last()));
    }
}

/// The first character of a written scalar is not whitespace, nor `[`.
pub proof fn lemma_scalar_first(v: ScalarModel)
    ensures
        scalar_text(v).len() >= 1,
        !is_ws(scalar_text(v)[0]),
        scalar_text(v)[0] != '[',
{
    reveal_strlit("null");
    reveal_strlit("true");
    reveal_strlit("false");
    if let ScalarModel::Int(n) = v {
        let m: nat = if n < 0 {
            (-n) as nat
        } else {
            n as nat
        };
        lemma_decimal_facts(m);
        if n >= 0 {
            assert(is_digit(decimal(m)[0]));
        }
    }
}

/// Reading one member `"key":` from `i`: the key, and the position of its
/// value.
pub proof fn lemma_key_at(s: Seq<char>, i: int, k: Seq<char>, rest: Seq<char>)
    requires
        piece_at(s, i, string_text(k) + seq![':'] + rest),
    ensures
        s[i] == '"',
        string_scan(s, i + 1, seq![]) == Some((k, i + string_text(k).len())),
        skip_ws(s, i + string_text(k).len()) == i + string_text(k).len(),
        s[i + string_text(k).len()] == ':',
        piece_at(s, i + string_text(k).len() + 1, rest),
{
    assert(string_text(k) + seq![':'] + rest =~= string_text(k) + (seq![':'] + rest));
    lemma_piece_split(s, i, string_text(k), seq![':'] + rest);
    lemma_string_at(s, i, k);
    lemma_piece_split(s, i + string_text(k).len(), seq![':'], rest);
    lemma_piece_char(s, i + string_text(k).len(), seq![':'], 0);
}

/// The members of a written flat object, from its first key on, are read
/// back.
pub proof fn lemma_row_members(
    s: Seq<char>,
    i: int,
    acc: Seq<(Seq<char>, ScalarModel)>,
    fuel: nat,
    r: Seq<(Seq<char>, ScalarModel)>,
)
    requires
        r.len() >= 1,
        fuel >= r.len(),
        row_ok(r),
        piece_at(s, i, join(row_parts(r)) + seq!['}']),
    ensures
        row_members(s, i, acc, fuel) == Some((acc + r, i + join(row_parts(r)).len() + 1)),
    decreases r.len(),
{
    let (k, v) = r[0];
    let p = row_parts(r);
    lemma_join_front(p);
    assert(p[0] == member_text(k, scalar_text(v)));
    let tail = if p.len() > 1 {
        seq![','] + join(p.drop_first())
    } else {
        seq![]
    };
    assert(join(p) + seq!['}'] =~= string_text(k) + seq![':'] + (scalar_text(v) + (tail + seq!['}'])));
    lemma_key_at(s, i, k, scalar_text(v) + (tail + seq!['}']));
    let a = i + string_text(k).len();
    lemma_piece_split(s, a + 1, scalar_text(v), tail + seq!['}']);
    let c = a + 1 + scalar_text(v).len();
    lemma_piece_char(s, c, tail + seq!['}'], 0);
    lemma_scalar_first(v);
    lemma_piece_char(s, a + 1, scalar_text(v), 0);
    assert(scalar_ok(r[0].1));
    lemma_scalar_at(s, a + 1, v);
    assert(skip_ws(s, a + 1) == a + 1);
    assert(skip_ws(s, c) == c);
    if p.len() > 1 {
        let rest = r.drop_first();
        assert(p.drop_first() =~= row_parts(rest));
        assert(tail + seq!['}'] =~= seq![','] + (join(row_parts(rest)) + seq!['}']));
        lemma_piece_split(s, c, seq![','], join(row_parts(rest)) + seq!['}']);
        lemma_join_front(row_parts(rest));
        lemma_piece_char(s, c + 1, join(row_parts(rest)) + seq!['}'], 0);
        assert(row_parts(rest)[0] == member_text(rest[0].0, scalar_text(rest[0].1)));
        assert(skip_ws(s, c + 1) == c + 1);
        assert forall|x: int| 0 <= x < rest.len() implies scalar_ok(#[trigger] rest[x].1) by {
            assert(rest[x] == r[x + 1]);
        }
        lemma_row_members(s, c + 1, acc.push((k, v)), (fuel - 1) as nat, rest);
        assert(acc.push((k, v)) + rest =~= acc + r);
    } else {
        assert(acc.push((k, v)) =~= acc + r);
    }
}

/// A written flat object is read back.
pub proof fn lemma_row_at(s: Seq<char>, i: int, r: Seq<(Seq<char>, ScalarModel)>)
    requires
        row_ok(r),
        piece_at(s, i, row_text(r)),
    ensures
        row_at(s, i) == Some((r, i + row_text(r).len())),
{
    lemma_row_body_join(r);
    assert(row_text(r) =~= seq!['{'] + (join(row_parts(r)) + seq!['}']));
    lemma_piece_split(s, i, seq!['{'], join(row_parts(r)) + seq!['}']);
    lemma_piece_char(s, i, seq!['{'], 0);
    lemma_piece_char(s, i + 1, join(row_parts(r)) + seq!['}'], 0);
    if r.len() == 0 {
        assert(join(row_parts(r)) =~= Seq::<char>::empty());
        assert(seq![] =~= r);
    } else {
        lemma_join_front(row_parts(r));
        assert(row_parts(r)[0] == member_text(r[0].0, scalar_text(r[0].1)));
        assert(skip_ws(s, i + 1) == i + 1);
        assert forall|x: int| 0 <= x < row_parts(r).len() implies (#[trigger] row_parts(r)[x]).len() >= 1 by {}
        lemma_join_len(row_parts(r));
        lemma_row_members(s, i + 1, seq![], s.len(), r);
        assert(seq![] + r =~= r);
    }
}

/// The items of a written list of flat objects, from the first on, are read
/// back.
pub proof fn lemma_rows_items(
    s: Seq<char>,
    i: int,
    acc: Seq<Seq<(Seq<char>, ScalarModel)>>,
    fuel: nat,
    rs: Seq<Seq<(Seq<char>, ScalarModel)>>,
)
    requires
        rs.len() >= 1,
        fuel >= rs.len(),
        forall|x: int| 0 <= x < rs.len() ==> row_ok(#[trigger] rs[x]),
        piece_at(s, i, join(rows_parts(rs)) + seq![']']),
    ensures
        rows_items(s, i, acc, fuel) == Some((acc + rs, i + join(rows_parts(rs)).len() + 1)),
    decreases rs.len(),
{
    let r = rs[0];
    let p = rows_parts(rs);
    lemma_join_front(p);
    assert(p[0] == row_text(r));
    let tail = if p.len() > 1 {
        seq![','] + join(p.drop_first())
    } else {
        seq![]
    };
    assert(join(p) + seq![']'] =~= row_text(r) + (tail + seq![']']));
    lemma_piece_split(s, i, row_text(r), tail + seq![']']);
    assert(row_ok(rs[0]));
    lemma_row_at(s, i, r);
    let c = i + row_text(r).len();
    lemma_piece_char(s, c, tail + seq![']'], 0);
    assert(skip_ws(s, c) == c);
    if p.len() > 1 {
        let rest = rs.drop_first();
        assert(p.drop_first() =~= rows_parts(rest));
        assert(tail + seq![']'] =~= seq![','] + (join(rows_parts(rest)) + seq![']']));
        lemma_piece_split(s, c, seq![','], join(rows_parts(rest)) + seq![']']);
        lemma_join_front(rows_parts(rest));
        lemma_piece_char(s, c + 1, join(rows_parts(rest)) + seq![']'], 0);
        assert(rows_parts(rest)[0] == row_text(rest[0]));
        assert(skip_ws(s, c + 1) == c + 1);
        assert forall|x: int| 0 <= x < rest.len() implies row_ok(#[trigger] rest[x]) by {
            assert(rest[x] == rs[x + 1]);
        }
        lemma_rows_items(s, c + 1, acc.push(r), (fuel - 1) as nat, rest);
        assert(acc.push(r) + rest =~= acc + rs);
    } else {
        assert(acc.push(r) =~= acc + rs);
    }
}

/// A written member value is read back, when a delimiter follows it.
pub proof fn lemma_value_at(s: Seq<char>, i: int, v: ValueModel)
    requires
        value_ok(v),
        piece_at(s, i, value_text(v)),
        i + value_text(v).len() < s.len(),
        s[i + value_text(v).len()] == ',' || s[i + value_text(v).len()] == '}',
    ensures
        value_at(s, i) == Some((v, i + value_text(v).len())),
        !is_ws(s[i]),
{
    match v {
        ValueModel::Scalar(x) => {
            lemma_scalar_first(x);
            lemma_piece_char(s, i, scalar_text(x), 0);
            lemma_scalar_at(s, i, x);
        },
        ValueModel::Rows(rs) => {
            lemma_rows_body_join(rs);
            assert(value_text(v) =~= seq!['['] + (join(rows_parts(rs)) + seq![']']));
            lemma_piece_split(s, i, seq!['['], join(rows_parts(rs)) + seq![']']);
            lemma_piece_char(s, i, seq!['['], 0);
            lemma_piece_char(s, i + 1, join(rows_parts(rs)) + seq![']'], 0);
            if rs.len() == 0 {
                assert(join(rows_parts(rs)) =~= Seq::<char>::empty());
                assert(seq![] =~= rs);
            } else {
                lemma_join_front(rows_parts(rs));
                assert(rows_parts(rs)[0] == row_text(rs[0]));
                assert(skip_ws(s, i + 1) == i + 1);
                assert forall|x: int| 0 <= x < rows_parts(rs).len() implies (#[trigger] rows_parts(rs)[x]).len()
                    >= 1 by {}
                lemma_join_len(rows_parts(rs));
                lemma_rows_items(s, i + 1, seq![], s.len(), rs);
                assert(seq![] + rs =~= rs);
            }
        },
    }
}

/// The members of a written object, from its first key on, are read back.
pub proof fn lemma_object_members(
    s: Seq<char>,
    i: int,
    acc: Seq<(Seq<char>, ValueModel)>,
    fuel: nat,
    m: Seq<(Seq<char>, ValueModel)>,
)
    requires
        m.len() >= 1,
        fuel >= m.len(),
        members_ok(m),
        piece_at(s, i, join(member_parts(m)) + seq!['}']),
    ensures
        object_members(s, i, acc, fuel) == Some((acc + m, i + join(member_parts(m)).len() + 1)),
    decreases m.len(),
{
    let (k, v) = m[0];
    let p = member_parts(m);
    lemma_join_front(p);
    assert(p[0] == member_text(k, value_text(v)));
    let tail = if p.len() > 1 {
        seq![','] + join(p.drop_first())
    } else {
        seq![]
    };
    assert(join(p) + seq!['}'] =~= string_text(k) + seq![':'] + (value_text(v) + (tail + seq!['}'])));
    lemma_key_at(s, i, k, value_text(v) + (tail + seq!['}']));
    let a = i + string_text(k).len();
    lemma_piece_split(s, a + 1, value_text(v), tail + seq!['}']);
    let c = a + 1 + value_text(v).len();
    lemma_piece_char(s, c, tail + seq!['}'], 0);
    assert(value_ok(m[0].1));
    lemma_value_at(s, a + 1, v);
    assert(skip_ws(s, a + 1) == a + 1);
    assert(skip_ws(s, c) == c);
    if p.len() > 1 {
        let rest = m.drop_first();
        assert(p.drop_first() =~= member_parts(rest));
        assert(tail + seq!['}'] =~= seq![','] + (join(member_parts(rest)) + seq!['}']));
        lemma_piece_split(s, c, seq![','], join(member_parts(rest)) + seq!['}']);
        lemma_join_front(member_parts(rest));
        lemma_piece_char(s, c + 1, join(member_parts(rest)) + seq!['}'], 0);
        assert(member_parts(rest)[0] == member_text(rest[0].0, value_text(rest[0].1)));
        assert(skip_ws(s, c + 1) == c + 1);
        assert forall|x: int| 0 <= x < rest.len() implies value_ok(#[trigger] rest[x].1) by {
            assert(rest[x] == m[x + 1]);
        }
        lemma_object_members(s, c + 1, acc.push((k, v)), (fuel - 1) as nat, rest);
        assert(acc.push((k, v)) + rest =~= acc + m);
    } else {
        assert(acc.push((k, v)) =~= acc + m);
    }
}

/// Reading a written object gives back its members, in order.
pub proof fn lemma_parse_written(m: Seq<(Seq<char>, ValueModel)>)
    requires
        members_ok(m),
    ensures
        parse_document(object_text(m)) == Some(m),
{
    let s = object_text(m);
    lemma_members_body_join(m);
    assert(s =~= seq!['{'] + (join(member_parts(m)) + seq!['}']));
    assert(piece_at(s, 0, s)) by {
        assert(s.subrange(0, s.len() as int) =~= s);
    }
    lemma_piece_split(s, 0, seq!['{'], join(member_parts(m)) + seq!['}']);
    lemma_piece_char(s, 0, seq!['{'], 0);
    lemma_piece_char(s, 1, join(member_parts(m)) + seq!['}'], 0);
    assert(skip_ws(s, 0) == 0);
    if m.len() == 0 {
        assert(join(member_parts(m)) =~= Seq::<char>::empty());
        assert(skip_ws(s, 1) == 1);
        assert(seq![] =~= m);
    } else {
        lemma_join_front(member_parts(m));
        assert(member_parts(m)[0] == member_text(m[0].0, value_text(m[0].1)));
        assert(skip_ws(s, 1) == 1);
        assert forall|x: int| 0 <= x < member_parts(m).len() implies (#[trigger] member_parts(m)[x]).len() >= 1 by {}
        lemma_join_len(member_parts(m));
        lemma_object_members(s, 1, seq![], s.len(), m);
        assert(seq![] + m =~= m);
    }
}

} // verus!
