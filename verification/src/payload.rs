//! Decoding of database notification payloads. The triggers installed by the
//! migrations emit, on the channels `chat_updated` and
//! `chat_message_created`, a compact JSON object in a stable schema; this
//! module turns such a payload into an [`Event`]. A payload outside the
//! schema decodes to nothing — the listener logs and drops it, never fails.
//!
//! The accepted schema, with the fields in this order and no interior
//! whitespace, integers in plain decimal, and strings escaping quote,
//! backslash, newline, carriage return and tab with a backslash:
//!
//! - `{"op":"upsert","chat_id":N,"workspace_id":N,"members":[N,…],"name":S|null,"kind":"K"}`
//!   on `chat_updated`, where `K` is one of `single`, `group`,
//!   `private_channel`, `public_channel`;
//! - `{"op":"delete","chat_id":N,"workspace_id":N,"members":[N,…]}` on
//!   `chat_updated`;
//! - `{"message_id":N,"chat_id":N,"workspace_id":N,"sender_id":N,"members":[N,…],"created_at":N}`
//!   on `chat_message_created`, `created_at` in UTC seconds.

use vstd::prelude::*;

use crate::event::ChatType;
use crate::event::Event;
use crate::event::EventV;
use crate::text::chars_of;
use crate::text::push_char;
use crate::text::str_eq;

verus! {

/// Position after the literal `lit` read at `i`, when it is there.
pub open spec fn sp_lit(s: Seq<char>, i: int, lit: Seq<char>) -> Option<int> {
    if 0 <= i && i + lit.len() <= s.len() && s.subrange(i, i + lit.len()) == lit {
        Some(i + lit.len())
    } else {
        None
    }
}

/// A decimal digit.
pub open spec fn is_digit(c: char) -> bool {
    c == '0' || c == '1' || c == '2' || c == '3' || c == '4' || c == '5' || c == '6' || c == '7'
        || c == '8' || c == '9'
}

/// The value of a decimal digit.
pub open spec fn digit_of(c: char) -> int {
    if c == '0' {
        0
    } else if c == '1' {
        1
    } else if c == '2' {
        2
    } else if c == '3' {
        3
    } else if c == '4' {
        4
    } else if c == '5' {
        5
    } else if c == '6' {
        6
    } else if c == '7' {
        7
    } else if c == '8' {
        8
    } else {
        9
    }
}

/// How many digits stand at `i`.
pub open spec fn run_len(s: Seq<char>, i: int) -> nat
    decreases s.len() - i when 0 <= i
{
    if i < 0 || i >= s.len() || !is_digit(s[i]) {
        0
    } else {
        1 + run_len(s, i + 1)
    }
}

/// The value of a digit string.
pub open spec fn digits_val(s: Seq<char>) -> int
    decreases s.len(),
{
    if s.len() == 0 {
        0
    } else {
        digits_val(s.drop_last()) * 10 + digit_of(s.last())
    }
}

/// Ten to the `n`.
pub open spec fn pow10(n: nat) -> int
    decreases n,
{
    if n == 0 {
        1
    } else {
        10 * pow10((n - 1) as nat)
    }
}

/// A digit string's value is non-negative and below ten to its length.
pub proof fn lemma_digits_val_bound(s: Seq<char>)
    requires
        forall|m: int| 0 <= m < s.len() ==> is_digit(s[m]),
    ensures
        0 <= digits_val(s) < pow10(s.len()),
    decreases s.len(),
{
    if s.len() > 0 {
        assert forall|m: int| 0 <= m < s.drop_last().len() implies is_digit(s.drop_last()[m]) by {
            assert(s.drop_last()[m] == s[m]);
        }
        lemma_digits_val_bound(s.drop_last());
    }
}

/// Ten to the `n` grows with `n`.
pub proof fn lemma_pow10_mono(a: nat, b: nat)
    requires
        a <= b,
    ensures
        pow10(a) <= pow10(b),
        pow10(a) >= 1,
    decreases b,
{
    if b > 0 {
        if a == b {
            lemma_pow10_mono((a - 1) as nat, (b - 1) as nat);
        } else {
            lemma_pow10_mono(a, (b - 1) as nat);
        }
    }
}

/// The unsigned integer read at `i`: its maximal digit run, valued, when the
/// run is non-empty and short enough that the value cannot overflow what any
/// field of the schema may hold.
pub open spec fn sp_parse_u64(s: Seq<char>, i: int) -> Option<(int, int)> {
    let l = run_len(s, i);
    if l == 0 || l > 19 {
        None
    } else {
        Some((digits_val(s.subrange(i, i + l)), i + l))
    }
}

/// The signed integer read at `i`: an optional minus sign, then digits, with
/// the value required to fit an `i64`.
pub open spec fn sp_parse_i64(s: Seq<char>, i: int) -> Option<(i64, int)> {
    if 0 <= i < s.len() && s[i] == '-' {
        match sp_parse_u64(s, i + 1) {
            None => None,
            Some((v, j)) => if v <= 9223372036854775808 {
                Some(((-v) as i64, j))
            } else {
                None
            },
        }
    } else {
        match sp_parse_u64(s, i) {
            None => None,
            Some((v, j)) => if v <= 9223372036854775807 {
                Some((v as i64, j))
            } else {
                None
            },
        }
    }
}

/// The member array items read at `i` (after the opening bracket, first item
/// onward): integers separated by commas, up to a closing bracket. Yields
/// the items and the position after the bracket.
pub open spec fn sp_members_items(s: Seq<char>, i: int) -> Option<(Seq<i64>, int)>
    decreases s.len() - i when 0 <= i
{
    match sp_parse_i64(s, i) {
        None => None,
        Some((v, j)) => {
            if !(i < j <= s.len()) {
                None
            } else if j < s.len() && s[j] == ']' {
                Some((seq![v], j + 1))
            } else if j < s.len() && s[j] == ',' {
                match sp_members_items(s, j + 1) {
                    None => None,
                    Some((rest, e)) => Some((seq![v] + rest, e)),
                }
            } else {
                None
            }
        },
    }
}

/// The member array read at `i`: `[`, items or nothing, `]`.
pub open spec fn sp_members(s: Seq<char>, i: int) -> Option<(Seq<i64>, int)> {
    if !(0 <= i < s.len() && s[i] == '[') {
        None
    } else if i + 1 < s.len() && s[i + 1] == ']' {
        Some((Seq::empty(), i + 2))
    } else {
        sp_members_items(s, i + 1)
    }
}

/// The body of a JSON string read at `i` (after the opening quote): plain
/// characters and the five simple escapes, up to the closing quote. Yields
/// the unescaped content and the position after the quote.
pub open spec fn sp_str_rest(s: Seq<char>, i: int) -> Option<(Seq<char>, int)>
    decreases s.len() - i when 0 <= i
{
    if !(0 <= i < s.len()) {
        None
    } else if s[i] == '"' {
        Some((Seq::empty(), i + 1))
    } else if s[i] == '\\' {
        if i + 1 >= s.len() {
            None
        } else {
            let e = s[i + 1];
            if e == '"' || e == '\\' || e == 'n' || e == 'r' || e == 't' {
                let c = if e == '"' {
                    '"'
                } else if e == '\\' {
                    '\\'
                } else if e == 'n' {
                    '\n'
                } else if e == 'r' {
                    '\r'
                } else {
                    '\t'
                };
                match sp_str_rest(s, i + 2) {
                    None => None,
                    Some((rest, j)) => Some((seq![c] + rest, j)),
                }
            } else {
                None
            }
        }
    } else {
        match sp_str_rest(s, i + 1) {
            None => None,
            Some((rest, j)) => Some((seq![s[i]] + rest, j)),
        }
    }
}

/// Reading a string body at `i` is reading it at the start of the text that
/// begins at `i`: the content is the same, the end position shifts by `i`.
pub proof fn lemma_str_rest_shift(s: Seq<char>, i: int)
    requires
        0 <= i <= s.len(),
    ensures
        sp_str_rest(s, i) == match sp_str_rest(s.skip(i), 0) {
            None => None::<(Seq<char>, int)>,
            Some((content, j)) => Some((content, j + i)),
        },
    decreases s.len() - i,
{
    let t = s.skip(i);
    if i < s.len() {
        assert(t[0] == s[i]);
        if s[i] == '"' {
        } else if s[i] == '\\' {
            if i + 1 < s.len() {
                assert(t[1] == s[i + 1]);
                let e = s[i + 1];
                if e == '"' || e == '\\' || e == 'n' || e == 'r' || e == 't' {
                    lemma_str_rest_shift(s, i + 2);
                    assert(s.skip(i + 2) =~= t.skip(2));
                    lemma_str_rest_shift(t, 2);
                }
            }
        } else {
            lemma_str_rest_shift(s, i + 1);
            assert(s.skip(i + 1) =~= t.skip(1));
            lemma_str_rest_shift(t, 1);
        }
    }
}

/// The escaping of a string starts with the escaping of its first character.
pub proof fn lemma_escape_cons(s: Seq<char>)
    requires
        s.len() > 0,
    ensures
        crate::frame::spec_escape(s) == crate::frame::spec_escape_char(s[0])
            + crate::frame::spec_escape(s.drop_first()),
    decreases s.len(),
{
    if s.len() == 1 {
        assert(s.drop_last() =~= Seq::<char>::empty());
        assert(s.drop_first() =~= Seq::<char>::empty());
        assert(s.last() == s[0]);
        assert(crate::frame::spec_escape(s) =~= crate::frame::spec_escape_char(s[0])
            + crate::frame::spec_escape(s.drop_first()));
    } else {
        let pre = s.drop_last();
        lemma_escape_cons(pre);
        assert(pre[0] == s[0]);
        assert(pre.drop_first() =~= s.drop_first().drop_last());
        assert(s.drop_first().last() == s.last());
        assert(crate::frame::spec_escape(s.drop_first()) == crate::frame::spec_escape(
            s.drop_first().drop_last(),
        ) + crate::frame::spec_escape_char(s.drop_first().last()));
        assert(crate::frame::spec_escape(s) =~= crate::frame::spec_escape_char(s[0])
            + crate::frame::spec_escape(s.drop_first()));
    }
}

/// The wire schema is stable: a string written with the frame renderer's
/// escaping and closed with a quote is read back exactly — whatever the
/// content and whatever follows the closing quote.
pub proof fn lemma_escape_roundtrip(n: Seq<char>, tail: Seq<char>)
    ensures
        sp_str_rest(crate::frame::spec_escape(n) + seq!['"'] + tail, 0) == Some(
            (n, crate::frame::spec_escape(n).len() + 1int),
        ),
    decreases n.len(),
{
    let esc = crate::frame::spec_escape(n);
    let input = esc + seq!['"'] + tail;
    if n.len() == 0 {
        assert(esc =~= Seq::<char>::empty());
        assert(input[0] == '"');
        assert(sp_str_rest(input, 0) == Some((Seq::<char>::empty(), 1int)));
        assert(n =~= Seq::<char>::empty());
    } else {
        let c = n[0];
        let rest = n.drop_first();
        lemma_escape_cons(n);
        let esc_c = crate::frame::spec_escape_char(c);
        let esc_rest = crate::frame::spec_escape(rest);
        assert(esc == esc_c + esc_rest);
        lemma_escape_roundtrip(rest, tail);
        reveal_strlit("\\\"");
        reveal_strlit("\\\\");
        reveal_strlit("\\n");
        reveal_strlit("\\r");
        reveal_strlit("\\t");
        if c == '"' || c == '\\' || c == '\n' || c == '\r' || c == '\t' {
            let e = if c == '"' {
                '"'
            } else if c == '\\' {
                '\\'
            } else if c == '\n' {
                'n'
            } else if c == '\r' {
                'r'
            } else {
                't'
            };
            assert(esc_c =~= seq!['\\', e]);
            assert(input[0] == '\\');
            assert(input[1] == e);
            lemma_str_rest_shift(input, 2);
            assert(input.skip(2) =~= esc_rest + seq!['"'] + tail);
            assert(sp_str_rest(input, 2) == Some((rest, esc_rest.len() + 3int)));
            assert(sp_str_rest(input, 0) == Some((seq![c] + rest, esc_rest.len() + 3int)));
            assert(seq![c] + rest =~= n);
            assert(esc.len() + 1 == esc_rest.len() + 3);
        } else {
            assert(esc_c =~= seq![c]);
            assert(input[0] == c);
            lemma_str_rest_shift(input, 1);
            assert(input.skip(1) =~= esc_rest + seq!['"'] + tail);
            assert(sp_str_rest(input, 1) == Some((rest, esc_rest.len() + 2int)));
            assert(sp_str_rest(input, 0) == Some((seq![c] + rest, esc_rest.len() + 2int)));
            assert(seq![c] + rest =~= n);
            assert(esc.len() + 1 == esc_rest.len() + 2);
        }
    }
}

/// The optional chat name read at `i`: the literal `null`, or a JSON string.
pub open spec fn sp_name(s: Seq<char>, i: int) -> Option<(Option<Seq<char>>, int)> {
    if sp_lit(s, i, "null"@) is Some {
        Some((None, sp_lit(s, i, "null"@)->Some_0))
    } else if 0 <= i < s.len() && s[i] == '"' {
        match sp_str_rest(s, i + 1) {
            None => None,
            Some((content, j)) => Some((Some(content), j)),
        }
    } else {
        None
    }
}

/// Reads the literal `lit` at `i`, yielding the position after it.
fn expect_lit(cs: &Vec<char>, i: usize, lit: &str) -> (r: Option<usize>)
    ensures
        match r {
            Some(j) => sp_lit(cs@, i as int, lit@) == Some(j as int),
            None => sp_lit(cs@, i as int, lit@) is None,
        },
{
    let lv = chars_of(lit);
    let n = lv.len();
    if i > cs.len() || cs.len() - i < n {
        return None;
    }
    let mut j: usize = 0;
    while j < n
        invariant
            lv@ == lit@,
            n == lv@.len(),
            i + n <= cs@.len(),
            cs@.len() <= usize::MAX,
            j <= n,
            forall|m: int| 0 <= m < j ==> cs@[i + m] == lit@[m],
        decreases n - j,
    {
        if cs[i + j] != lv[j] {
            proof {
                if cs@.subrange(i as int, i + n) == lit@ {
                    assert(cs@.subrange(i as int, i + n)[j as int] == lit@[j as int]);
                }
            }
            return None;
        }
        j = j + 1;
    }
    proof {
        assert(cs@.subrange(i as int, i + n) =~= lit@);
    }
    Some(i + n)
}

/// Reads the maximal digit run at `i` as an unsigned value.
fn parse_u64_at(cs: &Vec<char>, i: usize) -> (r: Option<(u64, usize)>)
    ensures
        match r {
            Some((v, j)) => sp_parse_u64(cs@, i as int) == Some((v as int, j as int)),
            None => sp_parse_u64(cs@, i as int) is None,
        },
{
    let mut j: usize = i;
    while j < cs.len() && is_digit_exec(cs[j])
        invariant
            i <= j,
            j <= cs@.len() || j == i,
            run_len(cs@, i as int) == j - i + run_len(cs@, j as int),
            forall|m: int| i <= m < j ==> is_digit(cs@[m]),
        decreases cs@.len() - j,
    {
        j = j + 1;
    }
    proof {
        assert(run_len(cs@, j as int) == 0);
        assert(run_len(cs@, i as int) == j - i);
    }
    let l = j - i;
    if l == 0 || l > 19 {
        return None;
    }
    let ghost digits = cs@.subrange(i as int, j as int);
    proof {
        assert forall|m: int| 0 <= m < digits.len() implies is_digit(digits[m]) by {
            assert(digits[m] == cs@[i + m]);
        }
        lemma_digits_val_bound(digits);
    }
    let mut acc: u64 = 0;
    let mut p: usize = i;
    while p < j
        invariant
            i <= p <= j,
            j <= cs@.len(),
            j - i <= 19,
            digits == cs@.subrange(i as int, j as int),
            forall|m: int| i <= m < j ==> is_digit(cs@[m]),
            acc == digits_val(cs@.subrange(i as int, p as int)),
            acc < pow10((p - i) as nat),
        decreases j - p,
    {
        let d = digit_val_exec(cs[p]);
        proof {
            assert(cs@.subrange(i as int, p + 1).drop_last() =~= cs@.subrange(i as int, p as int));
            assert(cs@.subrange(i as int, p + 1).last() == cs@[p as int]);
            lemma_pow10_mono((p - i) as nat, 18);
            reveal_with_fuel(pow10, 20);
            assert(pow10(18) == 1000000000000000000);
            assert(pow10(((p - i) + 1) as nat) == 10 * pow10((p - i) as nat));
        }
        acc = acc * 10 + d;
        p = p + 1;
    }
    proof {
        assert(cs@.subrange(i as int, p as int) == digits);
        assert(sp_parse_u64(cs@, i as int) == Some((acc as int, j as int)));
    }
    Some((acc, j))
}

fn is_digit_exec(c: char) -> (r: bool)
    ensures
        r == is_digit(c),
{
    c == '0' || c == '1' || c == '2' || c == '3' || c == '4' || c == '5' || c == '6' || c == '7'
        || c == '8' || c == '9'
}

fn digit_val_exec(c: char) -> (r: u64)
    requires
        is_digit(c),
    ensures
        r == digit_of(c),
{
    if c == '0' {
        0
    } else if c == '1' {
        1
    } else if c == '2' {
        2
    } else if c == '3' {
        3
    } else if c == '4' {
        4
    } else if c == '5' {
        5
    } else if c == '6' {
        6
    } else if c == '7' {
        7
    } else if c == '8' {
        8
    } else {
        9
    }
}

/// Reads the signed integer at `i`.
fn parse_i64_at(cs: &Vec<char>, i: usize) -> (r: Option<(i64, usize)>)
    ensures
        match r {
            Some((v, j)) => sp_parse_i64(cs@, i as int) == Some((v, j as int)),
            None => sp_parse_i64(cs@, i as int) is None,
        },
{
    if i < cs.len() && cs[i] == '-' {
        match parse_u64_at(cs, i + 1) {
            None => None,
            Some((v, j)) => {
                if v <= 9223372036854775808 {
                    let r: i64 = if v == 9223372036854775808 {
                        i64::MIN
                    } else {
                        -(v as i64)
                    };
                    proof {
                        assert(r == (-(v as int)) as i64);
                    }
                    Some((r, j))
                } else {
                    None
                }
            },
        }
    } else {
        match parse_u64_at(cs, i) {
            None => None,
            Some((v, j)) => {
                if v <= 9223372036854775807 {
                    Some((v as i64, j))
                } else {
                    None
                }
            },
        }
    }
}

/// Reads the member array items at `i`, first item onward.
fn parse_members_items(cs: &Vec<char>, i: usize) -> (r: Option<(Vec<i64>, usize)>)
    ensures
        match r {
            Some((items, j)) => sp_members_items(cs@, i as int) == Some((items@, j as int)),
            None => sp_members_items(cs@, i as int) is None,
        },
    decreases cs@.len() - i,
{
    match parse_i64_at(cs, i) {
        None => None,
        Some((v, j)) => {
            if !(i < j && j <= cs.len()) {
                None
            } else if j < cs.len() && cs[j] == ']' {
                let mut items: Vec<i64> = Vec::new();
                items.push(v);
                proof {
                    assert(items@ =~= seq![v]);
                }
                Some((items, j + 1))
            } else if j < cs.len() && cs[j] == ',' {
                match parse_members_items(cs, j + 1) {
                    None => None,
                    Some((rest, e)) => {
                        let mut items: Vec<i64> = Vec::new();
                        items.push(v);
                        let mut tail = rest;
                        let ghost tail_view = tail@;
                        items.append(&mut tail);
                        proof {
                            assert(items@ =~= seq![v] + tail_view);
                        }
                        Some((items, e))
                    },
                }
            } else {
                None
            }
        },
    }
}

/// Reads the member array at `i`.
fn parse_members(cs: &Vec<char>, i: usize) -> (r: Option<(Vec<i64>, usize)>)
    ensures
        match r {
            Some((items, j)) => sp_members(cs@, i as int) == Some((items@, j as int)),
            None => sp_members(cs@, i as int) is None,
        },
{
    if !(i < cs.len()) {
        return None;
    }
    if cs[i] != '[' {
        return None;
    }
    if i + 1 < cs.len() && cs[i + 1] == ']' {
        let items: Vec<i64> = Vec::new();
        proof {
            assert(items@ =~= Seq::<i64>::empty());
        }
        return Some((items, i + 2));
    }
    parse_members_items(cs, i + 1)
}

/// Reads a JSON string body at `i`, after the opening quote.
fn parse_string_rest(cs: &Vec<char>, i: usize) -> (r: Option<(String, usize)>)
    ensures
        match r {
            Some((content, j)) => sp_str_rest(cs@, i as int) == Some((content@, j as int)),
            None => sp_str_rest(cs@, i as int) is None,
        },
{
    let mut out = String::new();
    let mut p: usize = i;
    loop
        invariant
            i <= p,
            sp_str_rest(cs@, p as int) is None ==> sp_str_rest(cs@, i as int) is None,
            sp_str_rest(cs@, p as int) is Some ==> sp_str_rest(cs@, i as int) == Some(
                (
                    out@ + sp_str_rest(cs@, p as int)->Some_0.0,
                    sp_str_rest(cs@, p as int)->Some_0.1,
                ),
            ),
        decreases cs@.len() - p,
    {
        if p >= cs.len() {
            return None;
        }
        let c = cs[p];
        if c == '"' {
            proof {
                assert(out@ + Seq::<char>::empty() =~= out@);
            }
            return Some((out, p + 1));
        }
        if c == '\\' {
            if p + 1 >= cs.len() {
                return None;
            }
            let e = cs[p + 1];
            let c2: char = if e == '"' {
                '"'
            } else if e == '\\' {
                '\\'
            } else if e == 'n' {
                '\n'
            } else if e == 'r' {
                '\r'
            } else if e == 't' {
                '\t'
            } else {
                return None;
            };
            let ghost out_pre = out@;
            push_char(&mut out, c2);
            proof {
                if sp_str_rest(cs@, p + 2) is Some {
                    let rest = sp_str_rest(cs@, p + 2)->Some_0.0;
                    assert(sp_str_rest(cs@, p as int)->Some_0.0 == seq![c2] + rest);
                    assert(out@ + rest =~= out_pre + (seq![c2] + rest));
                }
            }
            p = p + 2;
        } else {
            let ghost out_pre = out@;
            push_char(&mut out, c);
            proof {
                if sp_str_rest(cs@, p + 1) is Some {
                    let rest = sp_str_rest(cs@, p + 1)->Some_0.0;
                    assert(sp_str_rest(cs@, p as int)->Some_0.0 == seq![c] + rest);
                    assert(out@ + rest =~= out_pre + (seq![c] + rest));
                }
            }
            p = p + 1;
        }
    }
}

/// Reads the optional chat name at `i`.
fn parse_name(cs: &Vec<char>, i: usize) -> (r: Option<(Option<String>, usize)>)
    ensures
        match r {
            Some((name, j)) => sp_name(cs@, i as int) == Some(
                (
                    match name {
                        Some(n) => Some(n@),
                        None => None,
                    },
                    j as int,
                ),
            ),
            None => sp_name(cs@, i as int) is None,
        },
{
    match expect_lit(cs, i, "null") {
        Some(j) => Some((None, j)),
        None => {
            if i < cs.len() && cs[i] == '"' {
                match parse_string_rest(cs, i + 1) {
                    None => None,
                    Some((content, j)) => Some((Some(content), j)),
                }
            } else {
                None
            }
        },
    }
}

/// The chat kind read at `i`: one of the four quoted labels.
pub open spec fn sp_kind(s: Seq<char>, i: int) -> Option<(ChatType, int)> {
    if sp_lit(s, i, "\"single\""@) is Some {
        Some((ChatType::Single, sp_lit(s, i, "\"single\""@)->Some_0))
    } else if sp_lit(s, i, "\"group\""@) is Some {
        Some((ChatType::Group, sp_lit(s, i, "\"group\""@)->Some_0))
    } else if sp_lit(s, i, "\"private_channel\""@) is Some {
        Some((ChatType::PrivateChannel, sp_lit(s, i, "\"private_channel\""@)->Some_0))
    } else if sp_lit(s, i, "\"public_channel\""@) is Some {
        Some((ChatType::PublicChannel, sp_lit(s, i, "\"public_channel\""@)->Some_0))
    } else {
        None
    }
}

/// Reads the chat kind at `i`.
fn parse_kind(cs: &Vec<char>, i: usize) -> (r: Option<(ChatType, usize)>)
    ensures
        match r {
            Some((kind, j)) => sp_kind(cs@, i as int) == Some((kind, j as int)),
            None => sp_kind(cs@, i as int) is None,
        },
{
    match expect_lit(cs, i, "\"single\"") {
        Some(j) => Some((ChatType::Single, j)),
        None => match expect_lit(cs, i, "\"group\"") {
            Some(j) => Some((ChatType::Group, j)),
            None => match expect_lit(cs, i, "\"private_channel\"") {
                Some(j) => Some((ChatType::PrivateChannel, j)),
                None => match expect_lit(cs, i, "\"public_channel\"") {
                    Some(j) => Some((ChatType::PublicChannel, j)),
                    None => None,
                },
            },
        },
    }
}

/// A `chat_updated` payload, decoded: an upsert or a delete.
pub open spec fn spec_decode_chat(s: Seq<char>) -> Option<EventV> {
    if sp_lit(s, 0, "{\"op\":\"upsert\",\"chat_id\":"@) is Some {
        let i1 = sp_lit(s, 0, "{\"op\":\"upsert\",\"chat_id\":"@)->Some_0;
        match sp_parse_i64(s, i1) {
            None => None,
            Some((chat_id, i2)) => match sp_lit(s, i2, ",\"workspace_id\":"@) {
                None => None,
                Some(i3) => match sp_parse_i64(s, i3) {
                    None => None,
                    Some((workspace_id, i4)) => match sp_lit(s, i4, ",\"members\":"@) {
                        None => None,
                        Some(i5) => match sp_members(s, i5) {
                            None => None,
                            Some((members, i6)) => match sp_lit(s, i6, ",\"name\":"@) {
                                None => None,
                                Some(i7) => match sp_name(s, i7) {
                                    None => None,
                                    Some((name, i8)) => match sp_lit(s, i8, ",\"kind\":"@) {
                                        None => None,
                                        Some(i9) => match sp_kind(s, i9) {
                                            None => None,
                                            Some((kind, i10)) => if sp_lit(s, i10, "}"@) == Some(
                                                s.len() as int,
                                            ) {
                                                Some(
                                                    EventV::ChatUpserted {
                                                        chat_id,
                                                        workspace_id,
                                                        members,
                                                        name,
                                                        kind,
                                                    },
                                                )
                                            } else {
                                                None
                                            },
                                        },
                                    },
                                },
                            },
                        },
                    },
                },
            },
        }
    } else if sp_lit(s, 0, "{\"op\":\"delete\",\"chat_id\":"@) is Some {
        let i1 = sp_lit(s, 0, "{\"op\":\"delete\",\"chat_id\":"@)->Some_0;
        match sp_parse_i64(s, i1) {
            None => None,
            Some((chat_id, i2)) => match sp_lit(s, i2, ",\"workspace_id\":"@) {
                None => None,
                Some(i3) => match sp_parse_i64(s, i3) {
                    None => None,
                    Some((workspace_id, i4)) => match sp_lit(s, i4, ",\"members\":"@) {
                        None => None,
                        Some(i5) => match sp_members(s, i5) {
                            None => None,
                            Some((members, i6)) => if sp_lit(s, i6, "}"@) == Some(s.len() as int) {
                                Some(EventV::ChatDeleted { chat_id, workspace_id, members })
                            } else {
                                None
                            },
                        },
                    },
                },
            },
        }
    } else {
        None
    }
}

/// A `chat_message_created` payload, decoded.
pub open spec fn spec_decode_message(s: Seq<char>) -> Option<EventV> {
    match sp_lit(s, 0, "{\"message_id\":"@) {
        None => None,
        Some(i1) => match sp_parse_i64(s, i1) {
            None => None,
            Some((message_id, i2)) => match sp_lit(s, i2, ",\"chat_id\":"@) {
                None => None,
                Some(i3) => match sp_parse_i64(s, i3) {
                    None => None,
                    Some((chat_id, i4)) => match sp_lit(s, i4, ",\"workspace_id\":"@) {
                        None => None,
                        Some(i5) => match sp_parse_i64(s, i5) {
                            None => None,
                            Some((workspace_id, i6)) => match sp_lit(s, i6, ",\"sender_id\":"@) {
                                None => None,
                                Some(i7) => match sp_parse_i64(s, i7) {
                                    None => None,
                                    Some((sender_id, i8)) => match sp_lit(
                                        s,
                                        i8,
                                        ",\"members\":"@,
                                    ) {
                                        None => None,
                                        Some(i9) => match sp_members(s, i9) {
                                            None => None,
                                            Some((members, i10)) => match sp_lit(
                                                s,
                                                i10,
                                                ",\"created_at\":"@,
                                            ) {
                                                None => None,
                                                Some(i11) => match sp_parse_i64(s, i11) {
                                                    None => None,
                                                    Some((created_at, i12)) => if sp_lit(
                                                        s,
                                                        i12,
                                                        "}"@,
                                                    ) == Some(s.len() as int) {
                                                        Some(
                                                            EventV::MessageCreated {
                                                                message_id,
                                                                chat_id,
                                                                workspace_id,
                                                                sender_id,
                                                                members,
                                                                created_at,
                                                            },
                                                        )
                                                    } else {
                                                        None
                                                    },
                                                },
                                            },
                                        },
                                    },
                                },
                            },
                        },
                    },
                },
            },
        },
    }
}

/// What a notification on `channel` carrying `payload` means: an event on
/// one of the two listened channels whose payload follows the schema, and
/// nothing otherwise.
pub open spec fn spec_decode(channel: Seq<char>, payload: Seq<char>) -> Option<EventV> {
    if channel == "chat_updated"@ {
        spec_decode_chat(payload)
    } else if channel == "chat_message_created"@ {
        spec_decode_message(payload)
    } else {
        None
    }
}

fn decode_chat(cs: &Vec<char>) -> (r: Option<Event>)
    ensures
        match r {
            Some(e) => spec_decode_chat(cs@) == Some(e@),
            None => spec_decode_chat(cs@) is None,
        },
{
    match expect_lit(cs, 0, "{\"op\":\"upsert\",\"chat_id\":") {
        Some(i1) => match parse_i64_at(cs, i1) {
            None => None,
            Some((chat_id, i2)) => match expect_lit(cs, i2, ",\"workspace_id\":") {
                None => None,
                Some(i3) => match parse_i64_at(cs, i3) {
                    None => None,
                    Some((workspace_id, i4)) => match expect_lit(cs, i4, ",\"members\":") {
                        None => None,
                        Some(i5) => match parse_members(cs, i5) {
                            None => None,
                            Some((members, i6)) => match expect_lit(cs, i6, ",\"name\":") {
                                None => None,
                                Some(i7) => match parse_name(cs, i7) {
                                    None => None,
                                    Some((name, i8)) => match expect_lit(cs, i8, ",\"kind\":") {
                                        None => None,
                                        Some(i9) => match parse_kind(cs, i9) {
                                            None => None,
                                            Some((kind, i10)) => match expect_lit(cs, i10, "}") {
                                                Some(end) if end == cs.len() => Some(
                                                    Event::ChatUpserted {
                                                        chat_id,
                                                        workspace_id,
                                                        members,
                                                        name,
                                                        kind,
                                                    },
                                                ),
                                                _ => None,
                                            },
                                        },
                                    },
                                },
                            },
                        },
                    },
                },
            },
        },
        None => match expect_lit(cs, 0, "{\"op\":\"delete\",\"chat_id\":") {
            None => None,
            Some(i1) => match parse_i64_at(cs, i1) {
                None => None,
                Some((chat_id, i2)) => match expect_lit(cs, i2, ",\"workspace_id\":") {
                    None => None,
                    Some(i3) => match parse_i64_at(cs, i3) {
                        None => None,
                        Some((workspace_id, i4)) => match expect_lit(cs, i4, ",\"members\":") {
                            None => None,
                            Some(i5) => match parse_members(cs, i5) {
                                None => None,
                                Some((members, i6)) => match expect_lit(cs, i6, "}") {
                                    Some(end) if end == cs.len() => Some(
                                        Event::ChatDeleted { chat_id, workspace_id, members },
                                    ),
                                    _ => None,
                                },
                            },
                        },
                    },
                },
            },
        },
    }
}

fn decode_message(cs: &Vec<char>) -> (r: Option<Event>)
    ensures
        match r {
            Some(e) => spec_decode_message(cs@) == Some(e@),
            None => spec_decode_message(cs@) is None,
        },
{
    match expect_lit(cs, 0, "{\"message_id\":") {
        None => None,
        Some(i1) => match parse_i64_at(cs, i1) {
            None => None,
            Some((message_id, i2)) => match expect_lit(cs, i2, ",\"chat_id\":") {
                None => None,
                Some(i3) => match parse_i64_at(cs, i3) {
                    None => None,
                    Some((chat_id, i4)) => match expect_lit(cs, i4, ",\"workspace_id\":") {
                        None => None,
                        Some(i5) => match parse_i64_at(cs, i5) {
                            None => None,
                            Some((workspace_id, i6)) => match expect_lit(cs, i6, ",\"sender_id\":")
                                {
                                None => None,
                                Some(i7) => match parse_i64_at(cs, i7) {
                                    None => None,
                                    Some((sender_id, i8)) => match expect_lit(
                                        cs,
                                        i8,
                                        ",\"members\":",
                                    ) {
                                        None => None,
                                        Some(i9) => match parse_members(cs, i9) {
                                            None => None,
                                            Some((members, i10)) => match expect_lit(
                                                cs,
                                                i10,
                                                ",\"created_at\":",
                                            ) {
                                                None => None,
                                                Some(i11) => match parse_i64_at(cs, i11) {
                                                    None => None,
                                                    Some((created_at, i12)) => match expect_lit(
                                                        cs,
                                                        i12,
                                                        "}",
                                                    ) {
                                                        Some(end) if end == cs.len() => Some(
                                                            Event::MessageCreated {
                                                                message_id,
                                                                chat_id,
                                                                workspace_id,
                                                                sender_id,
                                                                members,
                                                                created_at,
                                                            },
                                                        ),
                                                        _ => None,
                                                    },
                                                },
                                            },
                                        },
                                    },
                                },
                            },
                        },
                    },
                },
            },
        },
    }
}

/// Decodes one database notification: the channel it arrived on and its
/// payload text. Yields the event exactly when the channel is one of the two
/// listened channels and the payload follows the schema; anything else is a
/// malformed payload, to be logged and dropped by the listener.
pub fn decode_payload(channel: &str, payload: &str) -> (r: Option<Event>)
    ensures
        match r {
            Some(e) => spec_decode(channel@, payload@) == Some(e@),
            None => spec_decode(channel@, payload@) is None,
        },
{
    let cs = chars_of(payload);
    if str_eq(channel, "chat_updated") {
        decode_chat(&cs)
    } else if str_eq(channel, "chat_message_created") {
        decode_message(&cs)
    } else {
        None
    }
}

} // verus!
