use vstd::prelude::*;

use crate::json::{
    digit_char, escape_char, escape_chars, write_arr, write_jval, write_obj, write_string,
    write_u64, JVal,
};
use crate::json_parse::{
    digit_val, digits_len, digits_val, is_digit, is_ws, parse_arr_cont, parse_arr_items,
    parse_document, parse_jval, parse_number, parse_obj_cont, parse_obj_field, parse_obj_items,
    parse_string_body, skip_ws_len, unescape_char,
};

verus! {

// ---------------------------------------------------------------------------
// The round-trip law of the JSON layer: parsing the canonical text of a
// value yields the value back, whatever follows the text, as long as what
// follows cannot extend a number token.
// ---------------------------------------------------------------------------

/// What may follow a value's text without changing how it parses: anything
/// that does not begin with a digit.
pub open spec fn sep(rest: Seq<char>) -> bool {
    rest.len() == 0 || !is_digit(rest[0])
}

/// The text that closes an array whose remaining members are `a`: each
/// preceded by a comma, then the closing bracket.
spec fn write_arr_cont(a: Seq<JVal>) -> Seq<char>
    decreases a,
{
    if a.len() == 0 {
        seq![']']
    } else {
        seq![','] + write_jval(a[0]) + write_arr_cont(a.drop_first())
    }
}

/// The text of one object member.
spec fn field_text(f: (Seq<char>, JVal)) -> Seq<char> {
    write_string(f.0) + seq![':'] + write_jval(f.1)
}

/// The text that closes an object whose remaining members are `o`.
spec fn write_obj_cont(o: Seq<(Seq<char>, JVal)>) -> Seq<char>
    decreases o,
{
    if o.len() == 0 {
        seq!['}']
    } else {
        seq![','] + field_text(o[0]) + write_obj_cont(o.drop_first())
    }
}

proof fn lemma_arr_decomp(a: Seq<JVal>)
    requires
        a.len() > 0,
    ensures
        write_arr(a) + seq![']'] == write_jval(a[0]) + write_arr_cont(a.drop_first()),
    decreases a,
{
    if a.len() == 1 {
        assert(write_arr(a) + seq![']'] =~= write_jval(a[0]) + write_arr_cont(a.drop_first()));
    } else {
        lemma_arr_decomp(a.drop_first());
        assert(a.drop_first()[0] == a[1]);
        assert(write_arr(a) + seq![']'] =~= write_jval(a[0]) + (seq![','] + (write_arr(
            a.drop_first(),
        ) + seq![']'])));
        assert(seq![','] + (write_arr(a.drop_first()) + seq![']']) =~= seq![','] + write_jval(
            a.drop_first()[0],
        ) + write_arr_cont(a.drop_first().drop_first()));
        assert(write_arr(a) + seq![']'] =~= write_jval(a[0]) + write_arr_cont(a.drop_first()));
    }
}

proof fn lemma_obj_decomp(o: Seq<(Seq<char>, JVal)>)
    requires
        o.len() > 0,
    ensures
        write_obj(o) + seq!['}'] == field_text(o[0]) + write_obj_cont(o.drop_first()),
    decreases o,
{
    if o.len() == 1 {
        assert(write_obj(o) + seq!['}'] =~= field_text(o[0]) + write_obj_cont(o.drop_first()));
    } else {
        lemma_obj_decomp(o.drop_first());
        assert(o.drop_first()[0] == o[1]);
        assert(write_obj(o) + seq!['}'] =~= field_text(o[0]) + (seq![','] + (write_obj(
            o.drop_first(),
        ) + seq!['}'])));
        assert(seq![','] + (write_obj(o.drop_first()) + seq!['}']) =~= seq![','] + field_text(
            o.drop_first()[0],
        ) + write_obj_cont(o.drop_first().drop_first()));
        assert(write_obj(o) + seq!['}'] =~= field_text(o[0]) + write_obj_cont(o.drop_first()));
    }
}

/// Every character of a number's text is a digit, its value reads back, and
/// it is non-empty.
proof fn lemma_write_u64_digits(n: nat)
    ensures
        write_u64(n).len() >= 1,
        forall|i: int| 0 <= i < write_u64(n).len() ==> is_digit(#[trigger] write_u64(n)[i]),
        digits_val(write_u64(n)) == n,
    decreases n,
{
    if n < 10 {
        assert(is_digit(digit_char(n)) && digit_val(digit_char(n)) == n);
        assert(write_u64(n) == seq![digit_char(n)]);
        assert(write_u64(n).len() == 1);
        assert(write_u64(n).last() == digit_char(n));
        assert(write_u64(n).drop_last() =~= Seq::<char>::empty());
        assert(digits_val(Seq::<char>::empty()) == 0);
        assert(digits_val(write_u64(n)) == digits_val(write_u64(n).drop_last()) * 10 + digit_val(
            write_u64(n).last(),
        ));
        assert(digits_val(write_u64(n)) == n);
    } else {
        lemma_write_u64_digits(n / 10);
        assert(is_digit(digit_char(n % 10)) && digit_val(digit_char(n % 10)) == n % 10);
        assert forall|i: int| 0 <= i < write_u64(n).len() implies is_digit(
            #[trigger] write_u64(n)[i],
        ) by {
            if i < write_u64(n / 10).len() {
                assert(write_u64(n)[i] == write_u64(n / 10)[i]);
            }
        }
        assert(write_u64(n).drop_last() =~= write_u64(n / 10));
        assert(write_u64(n).last() == digit_char(n % 10));
        vstd::arithmetic::div_mod::lemma_fundamental_div_mod(n as int, 10);
        assert(digits_val(write_u64(n)) == n);
    }
}

/// Parsing the text of a number, followed by anything that is not a digit,
/// yields the number.
proof fn lemma_parse_write_u64(n: u64, rest: Seq<char>)
    requires
        sep(rest),
    ensures
        parse_number(write_u64(n as nat) + rest) == Some((n, write_u64(n as nat).len())),
{
    let w = write_u64(n as nat);
    let s = w + rest;
    lemma_write_u64_digits(n as nat);
    assert forall|i: int| 0 <= i < w.len() implies is_digit(s[i]) by {
        assert(s[i] == w[i]);
    }
    if w.len() < s.len() {
        assert(s[w.len() as int] == rest[0]);
    }
    crate::json_parse::lemma_digits_len_is(s, w.len() as int);
    assert(s.take(w.len() as int) =~= w);
}

/// Parsing an escaped string body followed by its closing quote yields the
/// original characters.
proof fn lemma_parse_write_string(s: Seq<char>, rest: Seq<char>)
    ensures
        parse_string_body(escape_chars(s) + seq!['"'] + rest) == Some(
            (s, (escape_chars(s).len() + 1) as nat),
        ),
    decreases s.len(),
{
    let inp = escape_chars(s) + seq!['"'] + rest;
    if s.len() == 0 {
        assert(escape_chars(s) =~= Seq::<char>::empty());
        assert(inp[0] == '"');
        assert(parse_string_body(inp) == Some((Seq::<char>::empty(), 1nat)));
        assert(Seq::<char>::empty() =~= s);
    } else {
        lemma_parse_write_string(s.drop_first(), rest);
        let tail = escape_chars(s.drop_first()) + seq!['"'] + rest;
        if s[0] == '"' || s[0] == '\\' {
            assert(escape_char(s[0]) == seq!['\\', s[0]]);
            assert(inp[0] == '\\');
            assert(inp[1] == s[0]);
            assert(unescape_char(s[0]) == Some(s[0]));
            assert(inp.skip(2) =~= tail);
            assert(seq![s[0]] + s.drop_first() =~= s);
            assert(parse_string_body(inp) == Some((s, (escape_chars(s).len() + 1) as nat)));
        } else {
            assert(escape_char(s[0]) == seq![s[0]]);
            assert(inp[0] == s[0]);
            assert(inp.skip(1) =~= tail);
            assert(seq![s[0]] + s.drop_first() =~= s);
            assert(parse_string_body(inp) == Some((s, (escape_chars(s).len() + 1) as nat)));
        }
    }
}

/// The first character of a value's text: never whitespace and never one of
/// the delimiters that close a surrounding structure.
proof fn lemma_write_first(v: JVal)
    ensures
        write_jval(v).len() >= 1,
        !is_ws(write_jval(v)[0]),
        write_jval(v)[0] != ']',
        write_jval(v)[0] != '}',
        write_jval(v)[0] != ',',
        write_jval(v)[0] != ':',
{
    match v {
        JVal::UInt(n) => {
            lemma_write_u64_digits(n as nat);
            assert(is_digit(write_jval(v)[0]));
        },
        JVal::Str(s) => {
            assert(write_jval(v)[0] == '"');
        },
        JVal::Arr(a) => {
            assert(write_jval(v)[0] == '[');
        },
        JVal::Obj(o) => {
            assert(write_jval(v)[0] == '{');
        },
        _ => {},
    }
}

/// Parsing the canonical text of a value yields the value: the round-trip
/// law of the JSON layer. `rest` is whatever follows the text.
#[verifier::rlimit(100)]
pub proof fn lemma_parse_write_jval(v: JVal, rest: Seq<char>)
    requires
        sep(rest),
    ensures
        parse_jval(write_jval(v) + rest) == Some((v, write_jval(v).len())),
    decreases v,
{
    let w = write_jval(v);
    let s = w + rest;
    lemma_write_first(v);
    assert(s[0] == w[0]);
    crate::json_parse::lemma_skip_ws_none(s);
    assert(s.skip(0) =~= s);
    match v {
        JVal::Null => {
            assert(s[0] == 'n' && s[1] == 'u' && s[2] == 'l' && s[3] == 'l');
            assert(parse_jval(s) == Some((v, 4nat)));
        },
        JVal::Bool(b) => {
            if b {
                assert(s[0] == 't' && s[1] == 'r' && s[2] == 'u' && s[3] == 'e');
                assert(parse_jval(s) == Some((v, 4nat)));
            } else {
                assert(s[0] == 'f' && s[1] == 'a' && s[2] == 'l' && s[3] == 's' && s[4] == 'e');
                assert(parse_jval(s) == Some((v, 5nat)));
            }
        },
        JVal::UInt(n) => {
            lemma_write_u64_digits(n as nat);
            assert(write_u64(n as nat) + rest =~= s);
            lemma_parse_write_u64(n, rest);
            assert(parse_jval(s) == Some((v, w.len())));
        },
        JVal::Str(st) => {
            assert(s[0] == '"');
            assert(s.skip(1) =~= escape_chars(st) + seq!['"'] + rest);
            lemma_parse_write_string(st, rest);
            assert(parse_jval(s) == Some((v, w.len())));
        },
        JVal::Arr(a) => {
            assert(s[0] == '[');
            lemma_parse_write_arr_full(a, rest);
            assert(s.skip(1) =~= (write_arr(a) + seq![']']) + rest);
            assert(parse_arr_items(s.skip(1)) == Some((a, (write_arr(a).len() + 1) as nat)));
            assert(w.len() == 1 + write_arr(a).len() + 1);
            assert(parse_jval(s) == Some((v, w.len())));
        },
        JVal::Obj(o) => {
            assert(s[0] == '{');
            lemma_parse_write_obj_full(o, rest);
            assert(s.skip(1) =~= (write_obj(o) + seq!['}']) + rest);
            assert(parse_obj_items(s.skip(1)) == Some((o, (write_obj(o).len() + 1) as nat)));
            assert(w.len() == 1 + write_obj(o).len() + 1);
            assert(parse_jval(s) == Some((v, w.len())));
        },
    }
}

/// Parsing the members-and-bracket text of an array yields its members.
proof fn lemma_parse_write_arr_full(a: Seq<JVal>, rest: Seq<char>)
    requires
        sep(rest),
    ensures
        parse_arr_items((write_arr(a) + seq![']']) + rest) == Some(
            (a, (write_arr(a).len() + 1) as nat),
        ),
    decreases a,
{
    let u = (write_arr(a) + seq![']']) + rest;
    if a.len() == 0 {
        assert(u[0] == ']');
        crate::json_parse::lemma_skip_ws_none(u);
        assert(Seq::<JVal>::empty() =~= a);
        assert(parse_arr_items(u) == Some((a, 1nat)));
    } else {
        lemma_arr_decomp(a);
        let aa = write_jval(a[0]);
        let cc = write_arr_cont(a.drop_first());
        assert(write_arr(a) + seq![']'] == aa + cc);
        assert((aa + cc) + rest =~= aa + (cc + rest));
        assert(u == aa + (cc + rest));
        lemma_write_first(a[0]);
        assert(u[0] == aa[0]);
        crate::json_parse::lemma_skip_ws_none(u);
        lemma_arr_cont_first(a.drop_first(), rest);
        lemma_parse_write_jval(a[0], cc + rest);
        assert(parse_jval(u) == Some((a[0], aa.len())));
        assert(u.skip(aa.len() as int) =~= cc + rest);
        lemma_parse_arr_cont(a.drop_first(), rest);
        assert(parse_arr_cont(u.skip(aa.len() as int)) == Some((a.drop_first(), cc.len())));
        assert(seq![a[0]] + a.drop_first() =~= a);
        assert(write_arr(a).len() + 1 == aa.len() + cc.len());
        assert(parse_arr_items(u) == Some((a, (write_arr(a).len() + 1) as nat)));
    }
}

/// Parsing the members-and-brace text of an object yields its members.
#[verifier::rlimit(100)]
proof fn lemma_parse_write_obj_full(o: Seq<(Seq<char>, JVal)>, rest: Seq<char>)
    requires
        sep(rest),
    ensures
        parse_obj_items((write_obj(o) + seq!['}']) + rest) == Some(
            (o, (write_obj(o).len() + 1) as nat),
        ),
    decreases o,
{
    let u = (write_obj(o) + seq!['}']) + rest;
    if o.len() == 0 {
        assert(u[0] == '}');
        crate::json_parse::lemma_skip_ws_none(u);
        assert(Seq::<(Seq<char>, JVal)>::empty() =~= o);
        assert(parse_obj_items(u) == Some((o, 1nat)));
    } else {
        lemma_obj_decomp(o);
        let ff = field_text(o[0]);
        let cc = write_obj_cont(o.drop_first());
        assert(write_obj(o) + seq!['}'] == ff + cc);
        assert((ff + cc) + rest =~= ff + (cc + rest));
        assert(u == ff + (cc + rest));
        assert(u[0] == '"');
        crate::json_parse::lemma_skip_ws_none(u);
        lemma_obj_cont_first(o.drop_first(), rest);
        lemma_parse_obj_field(o[0], cc + rest);
        assert(parse_obj_field(u) == Some((o[0], ff.len())));
        assert(u.skip(ff.len() as int) =~= cc + rest);
        lemma_parse_obj_cont(o.drop_first(), rest);
        assert(parse_obj_cont(u.skip(ff.len() as int)) == Some((o.drop_first(), cc.len())));
        assert(seq![o[0]] + o.drop_first() =~= o);
        assert(write_obj(o).len() + 1 == ff.len() + cc.len());
        assert(parse_obj_items(u) == Some((o, (write_obj(o).len() + 1) as nat)));
    }
}

/// The closing text of an array starts with a comma or the bracket.
proof fn lemma_arr_cont_first(a: Seq<JVal>, rest: Seq<char>)
    ensures
        (write_arr_cont(a) + rest).len() >= 1,
        sep(write_arr_cont(a) + rest),
        !is_ws((write_arr_cont(a) + rest)[0]),
{
    if a.len() == 0 {
        assert((write_arr_cont(a) + rest)[0] == ']');
    } else {
        assert((write_arr_cont(a) + rest)[0] == ',');
    }
}

/// The closing text of an object starts with a comma or the brace.
proof fn lemma_obj_cont_first(o: Seq<(Seq<char>, JVal)>, rest: Seq<char>)
    ensures
        (write_obj_cont(o) + rest).len() >= 1,
        sep(write_obj_cont(o) + rest),
        !is_ws((write_obj_cont(o) + rest)[0]),
{
    if o.len() == 0 {
        assert((write_obj_cont(o) + rest)[0] == '}');
    } else {
        assert((write_obj_cont(o) + rest)[0] == ',');
    }
}

proof fn lemma_parse_arr_cont(a: Seq<JVal>, rest: Seq<char>)
    requires
        sep(rest),
    ensures
        parse_arr_cont(write_arr_cont(a) + rest) == Some((a, write_arr_cont(a).len())),
    decreases a,
{
    let s = write_arr_cont(a) + rest;
    lemma_arr_cont_first(a, rest);
    crate::json_parse::lemma_skip_ws_none(s);
    if a.len() == 0 {
        assert(s[0] == ']');
        assert(Seq::<JVal>::empty() =~= a);
        assert(parse_arr_cont(s) == Some((a, 1nat)));
    } else {
        assert(s[0] == ',');
        assert(s.skip(1) =~= write_jval(a[0]) + (write_arr_cont(a.drop_first()) + rest));
        lemma_arr_cont_first(a.drop_first(), rest);
        lemma_parse_write_jval(a[0], write_arr_cont(a.drop_first()) + rest);
        lemma_parse_arr_cont(a.drop_first(), rest);
        let n0 = write_jval(a[0]).len();
        assert(s.skip(1).skip(n0 as int) =~= write_arr_cont(a.drop_first()) + rest);
        assert(s.skip(1 + n0 as int) =~= write_arr_cont(a.drop_first()) + rest);
        assert(seq![a[0]] + a.drop_first() =~= a);
        lemma_write_first(a[0]);
        assert(write_arr_cont(a).len() == 1 + n0 + write_arr_cont(a.drop_first()).len());
        assert(parse_arr_cont(s) == Some((a, write_arr_cont(a).len())));
    }
}

proof fn lemma_parse_obj_field(f: (Seq<char>, JVal), rest: Seq<char>)
    requires
        sep(rest),
    ensures
        parse_obj_field(field_text(f) + rest) == Some((f, field_text(f).len())),
    decreases f,
{
    let s = field_text(f) + rest;
    assert(s[0] == '"');
    crate::json_parse::lemma_skip_ws_none(s);
    assert(s.skip(1) =~= escape_chars(f.0) + seq!['"'] + (seq![':'] + write_jval(f.1) + rest));
    lemma_parse_write_string(f.0, seq![':'] + write_jval(f.1) + rest);
    let kn = escape_chars(f.0).len() + 1;
    assert(parse_string_body(s.skip(1)) == Some((f.0, kn as nat)));
    assert(s.skip(1 + kn as int) =~= seq![':'] + write_jval(f.1) + rest);
    assert(s[1 + kn as int] == ':');
    crate::json_parse::lemma_skip_ws_none(s.skip(1 + kn as int));
    assert(s.skip(1 + kn as int + 1) =~= write_jval(f.1) + rest);
    lemma_parse_write_jval(f.1, rest);
    assert(parse_obj_field(s) == Some((f, field_text(f).len())));
}

#[verifier::rlimit(100)]
proof fn lemma_parse_obj_cont(o: Seq<(Seq<char>, JVal)>, rest: Seq<char>)
    requires
        sep(rest),
    ensures
        parse_obj_cont(write_obj_cont(o) + rest) == Some((o, write_obj_cont(o).len())),
    decreases o,
{
    let s = write_obj_cont(o) + rest;
    lemma_obj_cont_first(o, rest);
    crate::json_parse::lemma_skip_ws_none(s);
    if o.len() == 0 {
        assert(s[0] == '}');
        assert(Seq::<(Seq<char>, JVal)>::empty() =~= o);
        assert(parse_obj_cont(s) == Some((o, 1nat)));
    } else {
        assert(s[0] == ',');
        assert(s.skip(1) =~= field_text(o[0]) + (write_obj_cont(o.drop_first()) + rest));
        lemma_obj_cont_first(o.drop_first(), rest);
        lemma_parse_obj_field(o[0], write_obj_cont(o.drop_first()) + rest);
        lemma_parse_obj_cont(o.drop_first(), rest);
        let n0 = field_text(o[0]).len();
        assert(s.skip(1).skip(n0 as int) =~= write_obj_cont(o.drop_first()) + rest);
        assert(s.skip(1 + n0 as int) =~= write_obj_cont(o.drop_first()) + rest);
        assert(seq![o[0]] + o.drop_first() =~= o);
        assert(write_obj_cont(o).len() == 1 + n0 + write_obj_cont(o.drop_first()).len());
        assert(parse_obj_cont(s) == Some((o, write_obj_cont(o).len())));
    }
}

/// A document that holds exactly the canonical text of a value parses back
/// to the value.
pub proof fn lemma_parse_write_document(v: JVal)
    ensures
        parse_document(write_jval(v)) == Some(v),
{
    let w = write_jval(v);
    assert(w + Seq::<char>::empty() =~= w);
    assert(sep(Seq::<char>::empty()));
    lemma_parse_write_jval(v, Seq::empty());
    assert(w.skip(w.len() as int) =~= Seq::<char>::empty());
}

} // verus!
