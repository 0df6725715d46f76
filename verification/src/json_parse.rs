use vstd::prelude::*;

use crate::json::{jval_view, jvals_view, jobj_view, JsonValue, JVal};
use crate::json::{chars_to_string, lemma_jobj_view, lemma_jvals_view};

verus! {

// ---------------------------------------------------------------------------
// The grammar that the parser accepts: JSON with unsigned-integer numbers,
// whitespace between tokens, and the common character escapes. The spec
// functions below define the parse result exactly; the executable parser is
// proved to return it.
//
// Every parse function yields the parsed value and the number of characters
// consumed, or nothing when the input does not match.
// ---------------------------------------------------------------------------

pub open spec fn is_ws(c: char) -> bool {
    c == ' ' || c == '\n' || c == '\t' || c == '\r'
}

/// The number of leading whitespace characters.
pub open spec fn skip_ws_len(s: Seq<char>) -> nat
    decreases s.len(),
{
    if s.len() > 0 && is_ws(s[0]) {
        (1 + skip_ws_len(s.drop_first())) as nat
    } else {
        0
    }
}

/// Leading whitespace of a sequence that starts with a non-whitespace
/// character is empty.
pub proof fn lemma_skip_ws_none(s: Seq<char>)
    requires
        s.len() == 0 || !is_ws(s[0]),
    ensures
        skip_ws_len(s) == 0,
{
}

pub open spec fn digit_val_opt(c: char) -> Option<nat> {
    if c == '0' {
        Some(0nat)
    } else if c == '1' {
        Some(1nat)
    } else if c == '2' {
        Some(2nat)
    } else if c == '3' {
        Some(3nat)
    } else if c == '4' {
        Some(4nat)
    } else if c == '5' {
        Some(5nat)
    } else if c == '6' {
        Some(6nat)
    } else if c == '7' {
        Some(7nat)
    } else if c == '8' {
        Some(8nat)
    } else if c == '9' {
        Some(9nat)
    } else {
        None
    }
}

pub open spec fn is_digit(c: char) -> bool {
    digit_val_opt(c) is Some
}

pub open spec fn digit_val(c: char) -> nat {
    match digit_val_opt(c) {
        Some(d) => d,
        None => 0,
    }
}

/// The length of the leading digit run.
pub open spec fn digits_len(s: Seq<char>) -> nat
    decreases s.len(),
{
    if s.len() > 0 && is_digit(s[0]) {
        (1 + digits_len(s.drop_first())) as nat
    } else {
        0
    }
}

pub proof fn lemma_digits_len(s: Seq<char>)
    ensures
        digits_len(s) <= s.len(),
        forall|i: int| 0 <= i < digits_len(s) ==> is_digit(s[i]),
        digits_len(s) < s.len() ==> !is_digit(s[digits_len(s) as int]),
    decreases s.len(),
{
    if s.len() > 0 && is_digit(s[0]) {
        lemma_digits_len(s.drop_first());
        assert forall|i: int| 0 <= i < digits_len(s) implies is_digit(s[i]) by {
            if i > 0 {
                assert(is_digit(s.drop_first()[i - 1]));
            }
        }
        if digits_len(s) < s.len() {
            assert(s[digits_len(s) as int] == s.drop_first()[digits_len(s.drop_first()) as int]);
        }
    }
}

/// The value of a digit run, most significant digit first.
pub open spec fn digits_val(s: Seq<char>) -> nat
    decreases s.len(),
{
    if s.len() == 0 {
        0
    } else {
        digits_val(s.drop_last()) * 10 + digit_val(s.last())
    }
}

/// A number: the longest leading digit run, refused when empty or beyond
/// the `u64` range.
pub open spec fn parse_number(s: Seq<char>) -> Option<(u64, nat)> {
    let n = digits_len(s);
    if n == 0 {
        None
    } else if digits_val(s.take(n as int)) > u64::MAX as nat {
        None
    } else {
        Some((digits_val(s.take(n as int)) as u64, n))
    }
}

/// What a backslash escape denotes.
pub open spec fn unescape_char(c: char) -> Option<char> {
    if c == '"' {
        Some('"')
    } else if c == '\\' {
        Some('\\')
    } else if c == '/' {
        Some('/')
    } else if c == 'n' {
        Some('\n')
    } else if c == 't' {
        Some('\t')
    } else if c == 'r' {
        Some('\r')
    } else {
        None
    }
}

/// The body of a string, positioned after the opening quote: the contents
/// up to the closing quote, with escapes resolved. The count consumed
/// includes the closing quote.
pub open spec fn parse_string_body(s: Seq<char>) -> Option<(Seq<char>, nat)>
    decreases s.len(),
{
    if s.len() == 0 {
        None
    } else if s[0] == '"' {
        Some((Seq::empty(), 1nat))
    } else if s[0] == '\\' {
        if s.len() < 2 {
            None
        } else {
            match unescape_char(s[1]) {
                Some(c) => match parse_string_body(s.skip(2)) {
                    Some(p) => Some((seq![c] + p.0, (p.1 + 2) as nat)),
                    None => None,
                },
                None => None,
            }
        }
    } else {
        match parse_string_body(s.skip(1)) {
            Some(p) => Some((seq![s[0]] + p.0, (p.1 + 1) as nat)),
            None => None,
        }
    }
}

/// A value: leading whitespace, then a keyword, number, string, array or
/// object. The count consumed includes the leading whitespace.
pub open spec fn parse_jval(s: Seq<char>) -> Option<(JVal, nat)>
    decreases s.len(), 1int,
{
    let w = skip_ws_len(s);
    if w >= s.len() {
        None
    } else {
        let t = s.skip(w as int);
        let c = t[0];
        if c == 'n' {
            if t.len() >= 4 && t[1] == 'u' && t[2] == 'l' && t[3] == 'l' {
                Some((JVal::Null, (w + 4) as nat))
            } else {
                None
            }
        } else if c == 't' {
            if t.len() >= 4 && t[1] == 'r' && t[2] == 'u' && t[3] == 'e' {
                Some((JVal::Bool(true), (w + 4) as nat))
            } else {
                None
            }
        } else if c == 'f' {
            if t.len() >= 5 && t[1] == 'a' && t[2] == 'l' && t[3] == 's' && t[4] == 'e' {
                Some((JVal::Bool(false), (w + 5) as nat))
            } else {
                None
            }
        } else if c == '"' {
            match parse_string_body(t.skip(1)) {
                Some(p) => Some((JVal::Str(p.0), (w + 1 + p.1) as nat)),
                None => None,
            }
        } else if is_digit(c) {
            match parse_number(t) {
                Some(p) => Some((JVal::UInt(p.0), (w + p.1) as nat)),
                None => None,
            }
        } else if c == '[' {
            match parse_arr_items(t.skip(1)) {
                Some(p) => Some((JVal::Arr(p.0), (w + 1 + p.1) as nat)),
                None => None,
            }
        } else if c == '{' {
            match parse_obj_items(t.skip(1)) {
                Some(p) => Some((JVal::Obj(p.0), (w + 1 + p.1) as nat)),
                None => None,
            }
        } else {
            None
        }
    }
}

/// The members of an array, positioned after the opening bracket. The
/// count consumed includes the closing bracket.
pub open spec fn parse_arr_items(s: Seq<char>) -> Option<(Seq<JVal>, nat)>
    decreases s.len(), 2int,
{
    let w = skip_ws_len(s);
    if w >= s.len() {
        None
    } else if s[w as int] == ']' {
        Some((Seq::empty(), (w + 1) as nat))
    } else {
        match parse_jval(s) {
            Some(p) => {
                if p.1 < 1 || p.1 > s.len() {
                    None
                } else {
                    match parse_arr_cont(s.skip(p.1 as int)) {
                        Some(q) => Some((seq![p.0] + q.0, (p.1 + q.1) as nat)),
                        None => None,
                    }
                }
            },
            None => None,
        }
    }
}

/// What follows an array member: a comma and another member, or the
/// closing bracket.
pub open spec fn parse_arr_cont(s: Seq<char>) -> Option<(Seq<JVal>, nat)>
    decreases s.len(), 2int,
{
    let w = skip_ws_len(s);
    if w >= s.len() {
        None
    } else if s[w as int] == ']' {
        Some((Seq::empty(), (w + 1) as nat))
    } else if s[w as int] == ',' {
        match parse_jval(s.skip(w as int + 1)) {
            Some(p) => {
                if w + 1 + p.1 > s.len() {
                    None
                } else {
                    match parse_arr_cont(s.skip((w + 1 + p.1) as int)) {
                        Some(q) => Some((seq![p.0] + q.0, (w + 1 + p.1 + q.1) as nat)),
                        None => None,
                    }
                }
            },
            None => None,
        }
    } else {
        None
    }
}

/// One `"key": value` member of an object.
pub open spec fn parse_obj_field(s: Seq<char>) -> Option<((Seq<char>, JVal), nat)>
    decreases s.len(), 1int,
{
    let w = skip_ws_len(s);
    if w >= s.len() {
        None
    } else if s[w as int] != '"' {
        None
    } else {
        match parse_string_body(s.skip(w as int + 1)) {
            Some(k) => {
                let p = w + 1 + k.1;
                if p > s.len() {
                    None
                } else {
                    let w2 = skip_ws_len(s.skip(p as int));
                    if p + w2 >= s.len() {
                        None
                    } else if s[(p + w2) as int] != ':' {
                        None
                    } else {
                        match parse_jval(s.skip((p + w2 + 1) as int)) {
                            Some(v) => Some(((k.0, v.0), (p + w2 + 1 + v.1) as nat)),
                            None => None,
                        }
                    }
                }
            },
            None => None,
        }
    }
}

/// The members of an object, positioned after the opening brace. The count
/// consumed includes the closing brace.
pub open spec fn parse_obj_items(s: Seq<char>) -> Option<(Seq<(Seq<char>, JVal)>, nat)>
    decreases s.len(), 2int,
{
    let w = skip_ws_len(s);
    if w >= s.len() {
        None
    } else if s[w as int] == '}' {
        Some((Seq::empty(), (w + 1) as nat))
    } else {
        match parse_obj_field(s) {
            Some(p) => {
                if p.1 < 1 || p.1 > s.len() {
                    None
                } else {
                    match parse_obj_cont(s.skip(p.1 as int)) {
                        Some(q) => Some((seq![p.0] + q.0, (p.1 + q.1) as nat)),
                        None => None,
                    }
                }
            },
            None => None,
        }
    }
}

/// What follows an object member: a comma and another member, or the
/// closing brace.
pub open spec fn parse_obj_cont(s: Seq<char>) -> Option<(Seq<(Seq<char>, JVal)>, nat)>
    decreases s.len(), 2int,
{
    let w = skip_ws_len(s);
    if w >= s.len() {
        None
    } else if s[w as int] == '}' {
        Some((Seq::empty(), (w + 1) as nat))
    } else if s[w as int] == ',' {
        match parse_obj_field(s.skip(w as int + 1)) {
            Some(p) => {
                if w + 1 + p.1 > s.len() {
                    None
                } else {
                    match parse_obj_cont(s.skip((w + 1 + p.1) as int)) {
                        Some(q) => Some((seq![p.0] + q.0, (w + 1 + p.1 + q.1) as nat)),
                        None => None,
                    }
                }
            },
            None => None,
        }
    } else {
        None
    }
}

// ---------------------------------------------------------------------------
// Helpers for relating a partially consumed input to the spec functions.
// ---------------------------------------------------------------------------

pub open spec fn prepend_chars(prefix: Seq<char>, k: nat, o: Option<(Seq<char>, nat)>) -> Option<
    (Seq<char>, nat),
> {
    match o {
        Some(p) => Some((prefix + p.0, (k + p.1) as nat)),
        None => None,
    }
}

pub open spec fn prepend_vals(prefix: Seq<JVal>, k: nat, o: Option<(Seq<JVal>, nat)>) -> Option<
    (Seq<JVal>, nat),
> {
    match o {
        Some(p) => Some((prefix + p.0, (k + p.1) as nat)),
        None => None,
    }
}

pub open spec fn prepend_fields(
    prefix: Seq<(Seq<char>, JVal)>,
    k: nat,
    o: Option<(Seq<(Seq<char>, JVal)>, nat)>,
) -> Option<(Seq<(Seq<char>, JVal)>, nat)> {
    match o {
        Some(p) => Some((prefix + p.0, (k + p.1) as nat)),
        None => None,
    }
}

/// A whole document: one value with nothing but whitespace after it.
pub open spec fn parse_document(s: Seq<char>) -> Option<JVal> {
    match parse_jval(s) {
        Some(p) => {
            if p.1 <= s.len() && skip_ws_len(s.skip(p.1 as int)) == s.len() - p.1 {
                Some(p.0)
            } else {
                None
            }
        },
        None => None,
    }
}

// ---------------------------------------------------------------------------
// The executable parser. Each function returns the parsed piece and the
// absolute position after it, and is proved to agree with the spec parser
// on the corresponding suffix of the input.
// ---------------------------------------------------------------------------

fn is_ws_char(c: char) -> (r: bool)
    ensures
        r == is_ws(c),
{
    c == ' ' || c == '\n' || c == '\t' || c == '\r'
}

fn char_digit(c: char) -> (r: Option<u64>)
    ensures
        match r {
            Some(d) => digit_val_opt(c) == Some(d as nat),
            None => digit_val_opt(c) is None,
        },
{
    if c == '0' {
        Some(0)
    } else if c == '1' {
        Some(1)
    } else if c == '2' {
        Some(2)
    } else if c == '3' {
        Some(3)
    } else if c == '4' {
        Some(4)
    } else if c == '5' {
        Some(5)
    } else if c == '6' {
        Some(6)
    } else if c == '7' {
        Some(7)
    } else if c == '8' {
        Some(8)
    } else if c == '9' {
        Some(9)
    } else {
        None
    }
}

fn unescape_exec(c: char) -> (r: Option<char>)
    ensures
        r == unescape_char(c),
{
    if c == '"' {
        Some('"')
    } else if c == '\\' {
        Some('\\')
    } else if c == '/' {
        Some('/')
    } else if c == 'n' {
        Some('\n')
    } else if c == 't' {
        Some('\t')
    } else if c == 'r' {
        Some('\r')
    } else {
        None
    }
}

/// The position after the whitespace run that starts at `pos`.
fn skip_ws(cs: &Vec<char>, pos: usize) -> (r: usize)
    requires
        pos <= cs@.len(),
    ensures
        pos <= r <= cs@.len(),
        (r - pos) as nat == skip_ws_len(cs@.skip(pos as int)),
        forall|i: int| pos <= i < r ==> is_ws(cs@[i]),
        r < cs@.len() ==> !is_ws(cs@[r as int]),
{
    let mut cur: usize = pos;
    while cur < cs.len() && is_ws_char(cs[cur])
        invariant
            pos <= cur <= cs@.len(),
            skip_ws_len(cs@.skip(pos as int)) == (cur - pos) + skip_ws_len(
                cs@.skip(cur as int),
            ),
            forall|i: int| pos <= i < cur ==> is_ws(cs@[i]),
        decreases cs@.len() - cur,
    {
        proof {
            assert(cs@.skip(cur as int)[0] == cs@[cur as int]);
            assert(cs@.skip(cur as int).drop_first() =~= cs@.skip(cur as int + 1));
        }
        cur = cur + 1;
    }
    proof {
        if cur < cs@.len() {
            assert(cs@.skip(cur as int)[0] == cs@[cur as int]);
            lemma_skip_ws_none(cs@.skip(cur as int));
        } else {
            assert(cs@.skip(cur as int).len() == 0);
            lemma_skip_ws_none(cs@.skip(cur as int));
        }
    }
    cur
}

pub proof fn lemma_digits_len_is(s: Seq<char>, k: int)
    requires
        0 <= k <= s.len(),
        forall|i: int| 0 <= i < k ==> is_digit(s[i]),
        k == s.len() || !is_digit(s[k]),
    ensures
        digits_len(s) == k,
    decreases k,
{
    if k == 0 {
    } else {
        assert(is_digit(s[0]));
        assert forall|i: int| 0 <= i < k - 1 implies is_digit(s.drop_first()[i]) by {
            assert(s.drop_first()[i] == s[i + 1]);
        }
        if k < s.len() {
            assert(s.drop_first()[k - 1] == s[k]);
        }
        lemma_digits_len_is(s.drop_first(), k - 1);
    }
}

proof fn lemma_digits_len_ge(s: Seq<char>, k: int)
    requires
        0 <= k <= s.len(),
        forall|i: int| 0 <= i < k ==> is_digit(s[i]),
    ensures
        digits_len(s) >= k,
    decreases k,
{
    if k > 0 {
        assert(is_digit(s[0]));
        assert forall|i: int| 0 <= i < k - 1 implies is_digit(s.drop_first()[i]) by {
            assert(s.drop_first()[i] == s[i + 1]);
        }
        lemma_digits_len_ge(s.drop_first(), k - 1);
    }
}

proof fn lemma_digits_val_take_succ(s: Seq<char>, k: int)
    requires
        0 <= k < s.len(),
    ensures
        digits_val(s.take(k + 1)) == digits_val(s.take(k)) * 10 + digit_val(s[k]),
{
    assert(s.take(k + 1).drop_last() =~= s.take(k));
    assert(s.take(k + 1).last() == s[k]);
}

proof fn lemma_digits_val_mono(s: Seq<char>, k1: int, k2: int)
    requires
        0 <= k1 <= k2 <= s.len(),
    ensures
        digits_val(s.take(k1)) <= digits_val(s.take(k2)),
    decreases k2 - k1,
{
    if k1 < k2 {
        lemma_digits_val_take_succ(s, k2 - 1);
        assert(digits_val(s.take(k2 - 1)) * 10 >= digits_val(s.take(k2 - 1)));
        lemma_digits_val_mono(s, k1, k2 - 1);
    }
}

/// A number starting at `pos`.
fn parse_number_at(cs: &Vec<char>, pos: usize) -> (r: Option<(u64, usize)>)
    requires
        pos <= cs@.len(),
    ensures
        match r {
            Some(p) => pos < p.1 <= cs@.len() && parse_number(cs@.skip(pos as int)) == Some(
                (p.0, (p.1 - pos) as nat),
            ),
            None => parse_number(cs@.skip(pos as int)) is None,
        },
{
    let ghost s = cs@.skip(pos as int);
    proof {
        assert forall|i: int| 0 <= i < s.len() implies s[i] == cs@[pos + i] by {}
    }
    let mut cur: usize = pos;
    let mut acc: u64 = 0;
    while cur < cs.len() && char_digit(cs[cur]).is_some()
        invariant
            pos <= cur <= cs@.len(),
            s == cs@.skip(pos as int),
            forall|i: int| 0 <= i < cur - pos ==> is_digit(s[i]),
            acc == digits_val(s.take((cur - pos) as int)),
        decreases cs@.len() - cur,
    {
        let d = char_digit(cs[cur]).unwrap();
        proof {
            assert(s[(cur - pos) as int] == cs@[cur as int]);
            lemma_digits_val_take_succ(s, (cur - pos) as int);
        }
        proof {
            lemma_digits_len(s);
            assert forall|i: int| 0 <= i < (cur - pos) as int + 1 implies is_digit(s[i]) by {}
            lemma_digits_len_ge(s, (cur - pos) as int + 1);
        }
        let m = acc.checked_mul(10);
        let ghost next_val = digits_val(s.take((cur - pos) as int + 1));
        if m.is_none() {
            proof {
                lemma_digits_val_mono(s, (cur - pos) as int + 1, digits_len(s) as int);
                assert(next_val > u64::MAX as nat);
            }
            return None;
        }
        let a = m.unwrap().checked_add(d);
        if a.is_none() {
            proof {
                lemma_digits_val_mono(s, (cur - pos) as int + 1, digits_len(s) as int);
                assert(next_val > u64::MAX as nat);
            }
            return None;
        }
        acc = a.unwrap();
        cur = cur + 1;
    }
    proof {
        if cur < cs@.len() {
            assert(s[(cur - pos) as int] == cs@[cur as int]);
        }
        lemma_digits_len_is(s, (cur - pos) as int);
    }
    if cur == pos {
        return None;
    }
    Some((acc, cur))
}

/// A string body starting at `pos`, which is just after the opening quote.
fn parse_string_body_at(cs: &Vec<char>, pos: usize) -> (r: Option<(Vec<char>, usize)>)
    requires
        pos <= cs@.len(),
    ensures
        match r {
            Some(p) => pos < p.1 <= cs@.len() && parse_string_body(cs@.skip(pos as int)) == Some(
                (p.0@, (p.1 - pos) as nat),
            ),
            None => parse_string_body(cs@.skip(pos as int)) is None,
        },
{
    let mut acc: Vec<char> = Vec::new();
    let mut cur: usize = pos;
    proof {
        assert(acc@ =~= Seq::<char>::empty());
        assert(parse_string_body(cs@.skip(pos as int)) == prepend_chars(
            acc@,
            0,
            parse_string_body(cs@.skip(pos as int)),
        ));
    }
    while cur < cs.len()
        invariant
            pos <= cur <= cs@.len(),
            parse_string_body(cs@.skip(pos as int)) == prepend_chars(
                acc@,
                (cur - pos) as nat,
                parse_string_body(cs@.skip(cur as int)),
            ),
        decreases cs@.len() - cur,
    {
        let c = cs[cur];
        proof {
            assert(cs@.skip(cur as int)[0] == cs@[cur as int]);
        }
        if c == '"' {
            proof {
                assert(parse_string_body(cs@.skip(cur as int)) == Some(
                    (Seq::<char>::empty(), 1nat),
                ));
                assert(acc@ + Seq::<char>::empty() =~= acc@);
            }
            return Some((acc, cur + 1));
        } else if c == '\\' {
            if cur + 1 == cs.len() {
                proof {
                    assert(cs@.skip(cur as int).len() < 2);
                }
                return None;
            }
            let e = unescape_exec(cs[cur + 1]);
            proof {
                assert(cs@.skip(cur as int)[1] == cs@[cur as int + 1]);
            }
            match e {
                None => {
                    return None;
                },
                Some(u) => {
                    proof {
                        assert(cs@.skip(cur as int).skip(2) =~= cs@.skip(cur as int + 2));
                        let ghost o = parse_string_body(cs@.skip(cur as int + 2));
                        if o is Some {
                            assert(acc@ + (seq![u] + (o->0).0) =~= acc@.push(u) + (o->0).0);
                        }
                    }
                    acc.push(u);
                    cur = cur + 2;
                },
            }
        } else {
            proof {
                assert(cs@.skip(cur as int).skip(1) =~= cs@.skip(cur as int + 1));
                let ghost o = parse_string_body(cs@.skip(cur as int + 1));
                if o is Some {
                    assert(acc@ + (seq![c] + (o->0).0) =~= acc@.push(c) + (o->0).0);
                }
            }
            acc.push(c);
            cur = cur + 1;
        }
    }
    proof {
        assert(cs@.skip(cur as int).len() == 0);
    }
    None
}

/// A value starting at `pos`, leading whitespace included.
#[verifier::rlimit(100)]
pub fn parse_jval_at(cs: &Vec<char>, pos: usize) -> (r: Option<(JsonValue, usize)>)
    requires
        pos <= cs@.len(),
    ensures
        match r {
            Some(p) => pos < p.1 <= cs@.len() && parse_jval(cs@.skip(pos as int)) == Some(
                (p.0@, (p.1 - pos) as nat),
            ),
            None => parse_jval(cs@.skip(pos as int)) is None,
        },
    decreases cs@.len() - pos, 1int,
{
    let ghost s = cs@.skip(pos as int);
    let ws = skip_ws(cs, pos);
    proof {
        assert forall|i: int| 0 <= i < s.len() implies s[i] == cs@[pos + i] by {}
    }
    if ws == cs.len() {
        return None;
    }
    let ghost t = s.skip((ws - pos) as int);
    proof {
        assert(t =~= cs@.skip(ws as int));
        assert forall|i: int| 0 <= i < t.len() implies t[i] == cs@[ws + i] by {}
    }
    let c = cs[ws];
    if c == 'n' {
        if cs.len() - ws >= 4 && cs[ws + 1] == 'u' && cs[ws + 2] == 'l' && cs[ws + 3] == 'l' {
            return Some((JsonValue::Null, ws + 4));
        }
        return None;
    } else if c == 't' {
        if cs.len() - ws >= 4 && cs[ws + 1] == 'r' && cs[ws + 2] == 'u' && cs[ws + 3] == 'e' {
            return Some((JsonValue::Bool(true), ws + 4));
        }
        return None;
    } else if c == 'f' {
        if cs.len() - ws >= 5 && cs[ws + 1] == 'a' && cs[ws + 2] == 'l' && cs[ws + 3] == 's'
            && cs[ws + 4] == 'e' {
            return Some((JsonValue::Bool(false), ws + 5));
        }
        return None;
    } else if c == '"' {
        match parse_string_body_at(cs, ws + 1) {
            Some((body, end)) => {
                proof {
                    assert(t.skip(1) =~= cs@.skip(ws as int + 1));
                }
                let st = chars_to_string(&body);
                return Some((JsonValue::Str(st), end));
            },
            None => {
                proof {
                    assert(t.skip(1) =~= cs@.skip(ws as int + 1));
                }
                return None;
            },
        }
    } else if char_digit(c).is_some() {
        match parse_number_at(cs, ws) {
            Some((n, end)) => {
                return Some((JsonValue::UInt(n), end));
            },
            None => {
                return None;
            },
        }
    } else if c == '[' {
        match parse_arr_items_at(cs, ws + 1) {
            Some((vec, end)) => {
                proof {
                    assert(t.skip(1) =~= cs@.skip(ws as int + 1));
                }
                return Some((JsonValue::Arr(vec), end));
            },
            None => {
                proof {
                    assert(t.skip(1) =~= cs@.skip(ws as int + 1));
                }
                return None;
            },
        }
    } else if c == '{' {
        match parse_obj_items_at(cs, ws + 1) {
            Some((vec, end)) => {
                proof {
                    assert(t.skip(1) =~= cs@.skip(ws as int + 1));
                }
                return Some((JsonValue::Obj(vec), end));
            },
            None => {
                proof {
                    assert(t.skip(1) =~= cs@.skip(ws as int + 1));
                }
                return None;
            },
        }
    } else {
        return None;
    }
}

/// Array members starting at `pos`, which is just after the opening
/// bracket.
fn parse_arr_items_at(cs: &Vec<char>, pos: usize) -> (r: Option<(Vec<JsonValue>, usize)>)
    requires
        pos <= cs@.len(),
    ensures
        match r {
            Some(p) => pos < p.1 <= cs@.len() && parse_arr_items(cs@.skip(pos as int)) == Some(
                (jvals_view(p.0@), (p.1 - pos) as nat),
            ),
            None => parse_arr_items(cs@.skip(pos as int)) is None,
        },
    decreases cs@.len() - pos, 2int,
{
    let ghost s = cs@.skip(pos as int);
    let ws = skip_ws(cs, pos);
    if ws == cs.len() {
        return None;
    }
    proof {
        assert(s[(ws - pos) as int] == cs@[ws as int]);
    }
    if cs[ws] == ']' {
        let vec: Vec<JsonValue> = Vec::new();
        proof {
            assert(jvals_view(vec@) =~= Seq::<JVal>::empty());
        }
        return Some((vec, ws + 1));
    }
    match parse_jval_at(cs, pos) {
        None => {
            return None;
        },
        Some((v, vend)) => {
            let mut vec: Vec<JsonValue> = Vec::new();
            vec.push(v);
            let mut cur: usize = vend;
            proof {
                lemma_jvals_view(vec@);
                assert(jvals_view(vec@) =~= seq![jval_view(v)]);
                assert(s.skip((vend - pos) as int) =~= cs@.skip(vend as int));
                let ghost o = parse_arr_cont(cs@.skip(vend as int));
                if o is Some {
                    assert(seq![jval_view(v)] + (o->0).0 =~= jvals_view(vec@) + (o->0).0);
                }
                assert(parse_arr_items(s) == prepend_vals(
                    jvals_view(vec@),
                    (cur - pos) as nat,
                    parse_arr_cont(cs@.skip(cur as int)),
                ));
            }
            loop
                invariant
                    pos <= cur <= cs@.len(),
                    s == cs@.skip(pos as int),
                    parse_arr_items(s) == prepend_vals(
                        jvals_view(vec@),
                        (cur - pos) as nat,
                        parse_arr_cont(cs@.skip(cur as int)),
                    ),
                decreases cs@.len() - cur,
            {
                let ghost u = cs@.skip(cur as int);
                let ws2 = skip_ws(cs, cur);
                if ws2 == cs.len() {
                    return None;
                }
                proof {
                    assert(u[(ws2 - cur) as int] == cs@[ws2 as int]);
                }
                let c2 = cs[ws2];
                if c2 == ']' {
                    proof {
                        assert(parse_arr_cont(u) == Some(
                            (Seq::<JVal>::empty(), (ws2 - cur + 1) as nat),
                        ));
                        assert(jvals_view(vec@) + Seq::<JVal>::empty() =~= jvals_view(vec@));
                    }
                    return Some((vec, ws2 + 1));
                } else if c2 == ',' {
                    proof {
                        assert(u.skip((ws2 - cur) as int + 1) =~= cs@.skip(ws2 as int + 1));
                    }
                    match parse_jval_at(cs, ws2 + 1) {
                        None => {
                            return None;
                        },
                        Some((v2, cur2)) => {
                            proof {
                                assert(u.skip((cur2 - cur) as int) =~= cs@.skip(cur2 as int));
                                lemma_jvals_view(vec@);
                                assert(vec@.push(v2).drop_last() =~= vec@);
                                assert(jvals_view(vec@.push(v2)) == jvals_view(vec@).push(
                                    jval_view(v2),
                                ));
                                let ghost o = parse_arr_cont(cs@.skip(cur2 as int));
                                if o is Some {
                                    assert(jvals_view(vec@) + (seq![jval_view(v2)] + (o->0).0)
                                        =~= jvals_view(vec@.push(v2)) + (o->0).0);
                                }
                            }
                            vec.push(v2);
                            cur = cur2;
                        },
                    }
                } else {
                    return None;
                }
            }
        },
    }
}

/// One `"key": value` member starting at `pos`.
fn parse_obj_field_at(cs: &Vec<char>, pos: usize) -> (r: Option<((String, JsonValue), usize)>)
    requires
        pos <= cs@.len(),
    ensures
        match r {
            Some(p) => pos < p.1 <= cs@.len() && parse_obj_field(cs@.skip(pos as int)) == Some(
                ((p.0.0@, p.0.1@), (p.1 - pos) as nat),
            ),
            None => parse_obj_field(cs@.skip(pos as int)) is None,
        },
    decreases cs@.len() - pos, 1int,
{
    let ghost s = cs@.skip(pos as int);
    let ws = skip_ws(cs, pos);
    if ws == cs.len() {
        return None;
    }
    proof {
        assert(s[(ws - pos) as int] == cs@[ws as int]);
    }
    if !(cs[ws] == '"') {
        return None;
    }
    proof {
        assert(s.skip((ws - pos) as int + 1) =~= cs@.skip(ws as int + 1));
    }
    match parse_string_body_at(cs, ws + 1) {
        None => {
            return None;
        },
        Some((key_chars, kend)) => {
            proof {
                assert(s.skip((kend - pos) as int) =~= cs@.skip(kend as int));
            }
            let ws2 = skip_ws(cs, kend);
            if ws2 == cs.len() {
                return None;
            }
            proof {
                assert(s[(ws2 - pos) as int] == cs@[ws2 as int]);
            }
            if !(cs[ws2] == ':') {
                return None;
            }
            proof {
                assert(s.skip((ws2 - pos) as int + 1) =~= cs@.skip(ws2 as int + 1));
            }
            match parse_jval_at(cs, ws2 + 1) {
                None => {
                    return None;
                },
                Some((v, vend)) => {
                    let key = chars_to_string(&key_chars);
                    return Some(((key, v), vend));
                },
            }
        },
    }
}

/// Object members starting at `pos`, which is just after the opening brace.
#[verifier::rlimit(100)]
fn parse_obj_items_at(cs: &Vec<char>, pos: usize) -> (r: Option<(Vec<(String, JsonValue)>, usize)>)
    requires
        pos <= cs@.len(),
    ensures
        match r {
            Some(p) => pos < p.1 <= cs@.len() && parse_obj_items(cs@.skip(pos as int)) == Some(
                (jobj_view(p.0@), (p.1 - pos) as nat),
            ),
            None => parse_obj_items(cs@.skip(pos as int)) is None,
        },
    decreases cs@.len() - pos, 2int,
{
    let ghost s = cs@.skip(pos as int);
    let ws = skip_ws(cs, pos);
    if ws == cs.len() {
        return None;
    }
    proof {
        assert(s[(ws - pos) as int] == cs@[ws as int]);
    }
    if cs[ws] == '}' {
        let vec: Vec<(String, JsonValue)> = Vec::new();
        proof {
            assert(jobj_view(vec@) =~= Seq::<(Seq<char>, JVal)>::empty());
        }
        return Some((vec, ws + 1));
    }
    match parse_obj_field_at(cs, pos) {
        None => {
            return None;
        },
        Some((f, fend)) => {
            let mut vec: Vec<(String, JsonValue)> = Vec::new();
            let ghost fview = (f.0@, jval_view(f.1));
            vec.push(f);
            let mut cur: usize = fend;
            proof {
                lemma_jobj_view(vec@);
                assert(jobj_view(vec@) =~= seq![fview]);
                assert(s.skip((fend - pos) as int) =~= cs@.skip(fend as int));
                let ghost o = parse_obj_cont(cs@.skip(fend as int));
                if o is Some {
                    assert(seq![fview] + (o->0).0 =~= jobj_view(vec@) + (o->0).0);
                }
                assert(parse_obj_items(s) == prepend_fields(
                    jobj_view(vec@),
                    (cur - pos) as nat,
                    parse_obj_cont(cs@.skip(cur as int)),
                ));
            }
            loop
                invariant
                    pos <= cur <= cs@.len(),
                    s == cs@.skip(pos as int),
                    parse_obj_items(s) == prepend_fields(
                        jobj_view(vec@),
                        (cur - pos) as nat,
                        parse_obj_cont(cs@.skip(cur as int)),
                    ),
                decreases cs@.len() - cur,
            {
                let ghost u = cs@.skip(cur as int);
                let ws2 = skip_ws(cs, cur);
                if ws2 == cs.len() {
                    return None;
                }
                proof {
                    assert(u[(ws2 - cur) as int] == cs@[ws2 as int]);
                }
                let c2 = cs[ws2];
                if c2 == '}' {
                    proof {
                        assert(parse_obj_cont(u) == Some(
                            (Seq::<(Seq<char>, JVal)>::empty(), (ws2 - cur + 1) as nat),
                        ));
                        assert(jobj_view(vec@) + Seq::<(Seq<char>, JVal)>::empty() =~= jobj_view(
                            vec@,
                        ));
                    }
                    return Some((vec, ws2 + 1));
                } else if c2 == ',' {
                    proof {
                        assert(u.skip((ws2 - cur) as int + 1) =~= cs@.skip(ws2 as int + 1));
                    }
                    match parse_obj_field_at(cs, ws2 + 1) {
                        None => {
                            return None;
                        },
                        Some((f2, cur2)) => {
                            proof {
                                assert(u.skip((cur2 - cur) as int) =~= cs@.skip(cur2 as int));
                                lemma_jobj_view(vec@);
                                assert(vec@.push(f2).drop_last() =~= vec@);
                                assert(jobj_view(vec@.push(f2)) == jobj_view(vec@).push(
                                    (f2.0@, jval_view(f2.1)),
                                ));
                                let ghost o = parse_obj_cont(cs@.skip(cur2 as int));
                                if o is Some {
                                    assert(jobj_view(vec@) + (seq![(f2.0@, jval_view(f2.1))]
                                        + (o->0).0) =~= jobj_view(vec@.push(f2)) + (o->0).0);
                                }
                            }
                            vec.push(f2);
                            cur = cur2;
                        },
                    }
                } else {
                    return None;
                }
            }
        },
    }
}

/// A whole document, as characters: one value, then only whitespace.
pub fn parse_document_chars(cs: &Vec<char>) -> (r: Option<JsonValue>)
    ensures
        match r {
            Some(jv) => parse_document(cs@) == Some(jv@),
            None => parse_document(cs@) is None,
        },
{
    proof {
        assert(cs@.skip(0) =~= cs@);
    }
    match parse_jval_at(cs, 0) {
        None => None,
        Some((v, end)) => {
            let ws = skip_ws(cs, end);
            if ws == cs.len() {
                Some(v)
            } else {
                None
            }
        },
    }
}

} // verus!
