use vstd::prelude::*;

verus! {

// ---------------------------------------------------------------------------
// The JSON values that the persisted formats of this crate are built from:
// the checkpoint file, the token cache and the tracker's reply bodies.
// Numbers are unsigned integers; that is all these formats carry.
// ---------------------------------------------------------------------------

/// The mathematical model of a JSON value.
pub enum JVal {
    Null,
    Bool(bool),
    UInt(u64),
    Str(Seq<char>),
    Arr(Seq<JVal>),
    Obj(Seq<(Seq<char>, JVal)>),
}

/// An executable JSON value.
pub enum JsonValue {
    Null,
    Bool(bool),
    UInt(u64),
    Str(String),
    Arr(Vec<JsonValue>),
    Obj(Vec<(String, JsonValue)>),
}

pub open spec fn jvals_view(s: Seq<JsonValue>) -> Seq<JVal>
    decreases s,
{
    if s.len() == 0 {
        Seq::empty()
    } else {
        jvals_view(s.drop_last()).push(jval_view(s.last()))
    }
}

pub open spec fn jobj_view(s: Seq<(String, JsonValue)>) -> Seq<(Seq<char>, JVal)>
    decreases s,
{
    if s.len() == 0 {
        Seq::empty()
    } else {
        jobj_view(s.drop_last()).push((s.last().0@, jval_view(s.last().1)))
    }
}

pub open spec fn jval_view(v: JsonValue) -> JVal
    decreases v,
{
    match v {
        JsonValue::Null => JVal::Null,
        JsonValue::Bool(b) => JVal::Bool(b),
        JsonValue::UInt(n) => JVal::UInt(n),
        JsonValue::Str(s) => JVal::Str(s@),
        JsonValue::Arr(a) => JVal::Arr(jvals_view(a@)),
        JsonValue::Obj(o) => JVal::Obj(jobj_view(o@)),
    }
}

impl View for JsonValue {
    type V = JVal;

    open spec fn view(&self) -> JVal {
        jval_view(*self)
    }
}

pub broadcast proof fn lemma_jvals_view(s: Seq<JsonValue>)
    ensures
        #[trigger] jvals_view(s).len() == s.len(),
        forall|i: int| 0 <= i < s.len() ==> jvals_view(s)[i] == jval_view(s[i]),
    decreases s,
{
    if s.len() > 0 {
        lemma_jvals_view(s.drop_last());
    }
}

pub broadcast proof fn lemma_jobj_view(s: Seq<(String, JsonValue)>)
    ensures
        #[trigger] jobj_view(s).len() == s.len(),
        forall|i: int|
            0 <= i < s.len() ==> jobj_view(s)[i] == (s[i].0@, jval_view(s[i].1)),
    decreases s,
{
    if s.len() > 0 {
        lemma_jobj_view(s.drop_last());
    }
}

// ---------------------------------------------------------------------------
// The canonical text of a value: what the writer emits. Compact, with `"`
// and `\` escaped inside strings and nothing else.
// ---------------------------------------------------------------------------

pub open spec fn escape_char(c: char) -> Seq<char> {
    if c == '"' || c == '\\' {
        seq!['\\', c]
    } else {
        seq![c]
    }
}

pub open spec fn escape_chars(s: Seq<char>) -> Seq<char>
    decreases s.len(),
{
    if s.len() == 0 {
        Seq::empty()
    } else {
        escape_char(s[0]) + escape_chars(s.drop_first())
    }
}

/// The text of a string value: the escaped contents between quotes.
pub open spec fn write_string(s: Seq<char>) -> Seq<char> {
    seq!['"'] + escape_chars(s) + seq!['"']
}

pub open spec fn digit_char(d: nat) -> char {
    if d == 0 {
        '0'
    } else if d == 1 {
        '1'
    } else if d == 2 {
        '2'
    } else if d == 3 {
        '3'
    } else if d == 4 {
        '4'
    } else if d == 5 {
        '5'
    } else if d == 6 {
        '6'
    } else if d == 7 {
        '7'
    } else if d == 8 {
        '8'
    } else {
        '9'
    }
}

/// The decimal text of a number, most significant digit first.
pub open spec fn write_u64(n: nat) -> Seq<char>
    decreases n,
{
    if n < 10 {
        seq![digit_char(n)]
    } else {
        write_u64(n / 10) + seq![digit_char(n % 10)]
    }
}

/// The canonical text of a value.
pub open spec fn write_jval(v: JVal) -> Seq<char>
    decreases v,
{
    match v {
        JVal::Null => seq!['n', 'u', 'l', 'l'],
        JVal::Bool(b) => if b {
            seq!['t', 'r', 'u', 'e']
        } else {
            seq!['f', 'a', 'l', 's', 'e']
        },
        JVal::UInt(n) => write_u64(n as nat),
        JVal::Str(s) => write_string(s),
        JVal::Arr(a) => seq!['['] + write_arr(a) + seq![']'],
        JVal::Obj(o) => seq!['{'] + write_obj(o) + seq!['}'],
    }
}

/// The comma-separated texts of array members.
pub open spec fn write_arr(a: Seq<JVal>) -> Seq<char>
    decreases a,
{
    if a.len() == 0 {
        Seq::empty()
    } else if a.len() == 1 {
        write_jval(a[0])
    } else {
        write_jval(a[0]) + seq![','] + write_arr(a.drop_first())
    }
}

/// The comma-separated `"key":value` texts of object members.
pub open spec fn write_obj(o: Seq<(Seq<char>, JVal)>) -> Seq<char>
    decreases o,
{
    if o.len() == 0 {
        Seq::empty()
    } else if o.len() == 1 {
        write_string(o[0].0) + seq![':'] + write_jval(o[0].1)
    } else {
        write_string(o[0].0) + seq![':'] + write_jval(o[0].1) + seq![','] + write_obj(
            o.drop_first(),
        )
    }
}

// ---------------------------------------------------------------------------
// The executable writer.
// ---------------------------------------------------------------------------

pub proof fn lemma_escape_push(s: Seq<char>, c: char)
    ensures
        escape_chars(s.push(c)) == escape_chars(s) + escape_char(c),
    decreases s.len(),
{
    if s.len() == 0 {
        assert(s.push(c)[0] == c);
        assert(s.push(c).drop_first() =~= Seq::<char>::empty());
        assert(escape_chars(s.push(c)) == escape_char(c) + escape_chars(Seq::<char>::empty()));
        assert(escape_chars(s.push(c)) =~= escape_chars(s) + escape_char(c));
    } else {
        assert(s.push(c)[0] == s[0]);
        assert(s.push(c).drop_first() =~= s.drop_first().push(c));
        lemma_escape_push(s.drop_first(), c);
        assert(escape_chars(s.push(c)) == escape_char(s[0]) + (escape_chars(s.drop_first())
            + escape_char(c)));
        assert(escape_chars(s.push(c)) =~= escape_chars(s) + escape_char(c));
    }
}

/// Relies on `Iterator::collect` for `String`: the collected string holds
/// exactly the characters of `v`, in order.
#[verifier::external_body]
pub(crate) fn chars_to_string(v: &Vec<char>) -> (r: String)
    ensures
        r@ == v@,
{
    v.iter().collect()
}

/// Relies on `str::chars` and `Iterator::collect`: the collected vector
/// holds exactly the characters of `s`, in order.
#[verifier::external_body]
pub(crate) fn string_to_chars(s: &str) -> (r: Vec<char>)
    ensures
        r@ == s@,
{
    s.chars().collect()
}

fn digit_of(d: u64) -> (c: char)
    requires
        d < 10,
    ensures
        c == digit_char(d as nat),
{
    if d == 0 {
        '0'
    } else if d == 1 {
        '1'
    } else if d == 2 {
        '2'
    } else if d == 3 {
        '3'
    } else if d == 4 {
        '4'
    } else if d == 5 {
        '5'
    } else if d == 6 {
        '6'
    } else if d == 7 {
        '7'
    } else if d == 8 {
        '8'
    } else {
        '9'
    }
}

fn append_u64(out: &mut Vec<char>, n: u64)
    ensures
        final(out)@ == old(out)@ + write_u64(n as nat),
    decreases n,
{
    if n < 10 {
        out.push(digit_of(n));
        assert(final(out)@ =~= old(out)@ + write_u64(n as nat));
    } else {
        append_u64(out, n / 10);
        out.push(digit_of(n % 10));
        assert(final(out)@ =~= old(out)@ + write_u64(n as nat));
    }
}

fn append_string(out: &mut Vec<char>, s: &String)
    ensures
        final(out)@ == old(out)@ + write_string(s@),
{
    let cs = string_to_chars(s.as_str());
    out.push('"');
    let mut i: usize = 0;
    proof {
        assert(escape_chars(cs@.take(0)) =~= Seq::<char>::empty());
        assert(out@ =~= old(out)@ + seq!['"'] + escape_chars(cs@.take(0)));
    }
    while i < cs.len()
        invariant
            0 <= i <= cs.len(),
            cs@ == s@,
            out@ == old(out)@ + seq!['"'] + escape_chars(cs@.take(i as int)),
        decreases cs.len() - i,
    {
        let c = cs[i];
        if c == '"' || c == '\\' {
            out.push('\\');
            out.push(c);
        } else {
            out.push(c);
        }
        proof {
            assert(cs@.take(i as int + 1) =~= cs@.take(i as int).push(cs@[i as int]));
            lemma_escape_push(cs@.take(i as int), cs@[i as int]);
            assert(out@ =~= old(out)@ + seq!['"'] + escape_chars(cs@.take(i as int + 1)));
        }
        i = i + 1;
    }
    out.push('"');
    proof {
        assert(cs@.take(cs@.len() as int) =~= cs@);
        assert(final(out)@ =~= old(out)@ + write_string(s@));
    }
}

/// Appends the canonical text of `v`.
pub fn append_jval(out: &mut Vec<char>, v: &JsonValue)
    ensures
        final(out)@ == old(out)@ + write_jval(v@),
    decreases *v,
{
    match v {
        JsonValue::Null => {
            out.push('n');
            out.push('u');
            out.push('l');
            out.push('l');
            assert(final(out)@ =~= old(out)@ + write_jval(v@));
        },
        JsonValue::Bool(b) => {
            if *b {
                out.push('t');
                out.push('r');
                out.push('u');
                out.push('e');
            } else {
                out.push('f');
                out.push('a');
                out.push('l');
                out.push('s');
                out.push('e');
            }
            assert(final(out)@ =~= old(out)@ + write_jval(v@));
        },
        JsonValue::UInt(n) => {
            append_u64(out, *n);
        },
        JsonValue::Str(s) => {
            append_string(out, s);
        },
        JsonValue::Arr(a) => {
            out.push('[');
            append_arr_items(out, a, 0);
            out.push(']');
            proof {
                lemma_jvals_view(a@);
                assert(jvals_view(a@).skip(0) =~= jvals_view(a@));
                assert(final(out)@ =~= old(out)@ + write_jval(v@));
            }
        },
        JsonValue::Obj(o) => {
            out.push('{');
            append_obj_items(out, o, 0);
            out.push('}');
            proof {
                lemma_jobj_view(o@);
                assert(jobj_view(o@).skip(0) =~= jobj_view(o@));
                assert(final(out)@ =~= old(out)@ + write_jval(v@));
            }
        },
    }
}

fn append_arr_items(out: &mut Vec<char>, a: &Vec<JsonValue>, from: usize)
    requires
        from <= a@.len(),
    ensures
        final(out)@ == old(out)@ + write_arr(jvals_view(a@).skip(from as int)),
    decreases *a, a@.len() - from,
{
    proof {
        lemma_jvals_view(a@);
    }
    if from == a.len() {
        assert(jvals_view(a@).skip(from as int) =~= Seq::<JVal>::empty());
        assert(final(out)@ =~= old(out)@ + write_arr(jvals_view(a@).skip(from as int)));
    } else {
        proof {
            assert(decreases_to!(*a => a@[from as int]));
        }
        append_jval(out, &a[from]);
        proof {
            assert(jvals_view(a@).skip(from as int)[0] == jval_view(a@[from as int]));
        }
        if from + 1 == a.len() {
            proof {
                assert(jvals_view(a@).skip(from as int).len() == 1);
                assert(final(out)@ =~= old(out)@ + write_arr(jvals_view(a@).skip(from as int)));
            }
        } else {
            out.push(',');
            append_arr_items(out, a, from + 1);
            proof {
                assert(jvals_view(a@).skip(from as int).drop_first() =~= jvals_view(a@).skip(
                    from as int + 1,
                ));
                assert(jvals_view(a@).skip(from as int).len() > 1);
                assert(final(out)@ =~= old(out)@ + write_arr(jvals_view(a@).skip(from as int)));
            }
        }
    }
}

fn append_obj_items(out: &mut Vec<char>, o: &Vec<(String, JsonValue)>, from: usize)
    requires
        from <= o@.len(),
    ensures
        final(out)@ == old(out)@ + write_obj(jobj_view(o@).skip(from as int)),
    decreases *o, o@.len() - from,
{
    proof {
        lemma_jobj_view(o@);
    }
    if from == o.len() {
        assert(jobj_view(o@).skip(from as int) =~= Seq::<(Seq<char>, JVal)>::empty());
        assert(final(out)@ =~= old(out)@ + write_obj(jobj_view(o@).skip(from as int)));
    } else {
        append_string(out, &o[from].0);
        out.push(':');
        proof {
            assert(decreases_to!(*o => o@[from as int]));
            assert(decreases_to!(o@[from as int] => o@[from as int].1));
        }
        append_jval(out, &o[from].1);
        proof {
            assert(jobj_view(o@).skip(from as int)[0] == (o@[from as int].0@, jval_view(
                o@[from as int].1,
            )));
        }
        if from + 1 == o.len() {
            proof {
                assert(jobj_view(o@).skip(from as int).len() == 1);
                assert(final(out)@ =~= old(out)@ + write_obj(jobj_view(o@).skip(from as int)));
            }
        } else {
            out.push(',');
            append_obj_items(out, o, from + 1);
            proof {
                assert(jobj_view(o@).skip(from as int).drop_first() =~= jobj_view(o@).skip(
                    from as int + 1,
                ));
                assert(jobj_view(o@).skip(from as int).len() > 1);
                assert(final(out)@ =~= old(out)@ + write_obj(jobj_view(o@).skip(from as int)));
            }
        }
    }
}

/// The canonical text of `v`, as characters.
pub fn jval_to_chars(v: &JsonValue) -> (r: Vec<char>)
    ensures
        r@ == write_jval(v@),
{
    let mut out: Vec<char> = Vec::new();
    append_jval(&mut out, v);
    proof {
        assert(out@ =~= write_jval(v@));
    }
    out
}

} // verus!
