use vstd::prelude::*;
use crate::strutil::{dec_chars, dec_chars_i64, hex_digit, push_char, str_eq, i64_to_dec, u64_to_dec};

verus! {

/// A JSON document: the library builds every wire payload as one of these and
/// serialises it itself, so the exact bytes of a response are specified.
pub enum JsonValue {
    Null,
    Bool(bool),
    Int(i64),
    UInt(u64),
    Str(String),
    Arr(Vec<JsonValue>),
    Obj(Vec<(String, JsonValue)>),
}

// ---------------------------------------------------------------------------
// The serialised form, specified character by character.
// ---------------------------------------------------------------------------

/// How a single character appears inside a JSON string literal.
pub open spec fn esc_char(c: char) -> Seq<char> {
    if c == '"' {
        seq!['\\', '"']
    } else if c == '\\' {
        seq!['\\', '\\']
    } else if c == '\n' {
        seq!['\\', 'n']
    } else if c == '\r' {
        seq!['\\', 'r']
    } else if c == '\t' {
        seq!['\\', 't']
    } else if (c as u32) == 8 {
        seq!['\\', 'b']
    } else if (c as u32) == 12 {
        seq!['\\', 'f']
    } else if (c as u32) < 32 {
        seq!['\\', 'u', '0', '0', hex_digit(((c as u32) >> 4u32) as int), hex_digit(
            ((c as u32) & 0xf) as int,
        )]
    } else {
        seq![c]
    }
}

pub open spec fn esc_seq(s: Seq<char>) -> Seq<char>
    decreases s.len(),
{
    if s.len() == 0 {
        Seq::empty()
    } else {
        esc_char(s[0]) + esc_seq(s.drop_first())
    }
}

/// A JSON string literal: quote, escaped characters, quote.
pub open spec fn json_str_chars(s: Seq<char>) -> Seq<char> {
    seq!['"'] + esc_seq(s) + seq!['"']
}

/// The serialised text of a value, exactly as the library emits it: no
/// whitespace, `,` and `:` separators, object fields in construction order.
pub open spec fn json_chars(v: JsonValue) -> Seq<char>
    decreases v,
{
    match v {
        JsonValue::Null => seq!['n', 'u', 'l', 'l'],
        JsonValue::Bool(b) => if b {
            seq!['t', 'r', 'u', 'e']
        } else {
            seq!['f', 'a', 'l', 's', 'e']
        },
        JsonValue::Int(i) => dec_chars_i64(i as int),
        JsonValue::UInt(u) => dec_chars(u as nat),
        JsonValue::Str(s) => json_str_chars(s@),
        JsonValue::Arr(items) => seq!['['] + json_arr_chars(items@) + seq![']'],
        JsonValue::Obj(fields) => seq!['{'] + json_obj_chars(fields@) + seq!['}'],
    }
}

pub open spec fn json_arr_chars(items: Seq<JsonValue>) -> Seq<char>
    decreases items,
{
    if items.len() == 0 {
        Seq::empty()
    } else if items.len() == 1 {
        json_chars(items[0])
    } else {
        json_chars(items[0]) + seq![','] + json_arr_chars(items.drop_first())
    }
}

pub open spec fn json_obj_chars(fields: Seq<(String, JsonValue)>) -> Seq<char>
    decreases fields,
{
    if fields.len() == 0 {
        Seq::empty()
    } else if fields.len() == 1 {
        json_member_chars(fields[0])
    } else {
        json_member_chars(fields[0]) + seq![','] + json_obj_chars(fields.drop_first())
    }
}

pub open spec fn json_member_chars(field: (String, JsonValue)) -> Seq<char>
    decreases field,
{
    json_str_chars(field.0@) + seq![':'] + json_chars(field.1)
}

/// The length in bytes of the serialised text of `v`.
pub open spec fn json_size(v: JsonValue) -> nat {
    vstd::utf8::encode_utf8(json_chars(v)).len()
}

// ---------------------------------------------------------------------------
// The executable serialiser.
// ---------------------------------------------------------------------------

proof fn lemma_esc_seq_push(s: Seq<char>, c: char)
    ensures
        esc_seq(s.push(c)) == esc_seq(s) + esc_char(c),
    decreases s.len(),
{
    if s.len() == 0 {
        assert(s.push(c)[0] == c);
        assert(s.push(c).drop_first() =~= Seq::<char>::empty());
        assert(esc_seq(Seq::<char>::empty()) =~= Seq::<char>::empty());
        assert(esc_seq(s.push(c)) =~= esc_char(c) + Seq::<char>::empty());
        assert(esc_char(c) + Seq::<char>::empty() =~= esc_char(c));
        assert(esc_seq(s) + esc_char(c) =~= esc_char(c));
    } else {
        assert(s.push(c).drop_first() =~= s.drop_first().push(c));
        lemma_esc_seq_push(s.drop_first(), c);
        assert(esc_seq(s.push(c)) =~= esc_seq(s) + esc_char(c));
    }
}

fn push_escaped(out: &mut String, c: char)
    ensures
        final(out)@ == old(out)@ + esc_char(c),
{
    let ghost start = out@;
    if c == '"' {
        push_char(out, '\\');
        push_char(out, '"');
    } else if c == '\\' {
        push_char(out, '\\');
        push_char(out, '\\');
    } else if c == '\n' {
        push_char(out, '\\');
        push_char(out, 'n');
    } else if c == '\r' {
        push_char(out, '\\');
        push_char(out, 'r');
    } else if c == '\t' {
        push_char(out, '\\');
        push_char(out, 't');
    } else if (c as u32) == 8 {
        push_char(out, '\\');
        push_char(out, 'b');
    } else if (c as u32) == 12 {
        push_char(out, '\\');
        push_char(out, 'f');
    } else if (c as u32) < 32 {
        push_char(out, '\\');
        push_char(out, 'u');
        push_char(out, '0');
        push_char(out, '0');
        let u: u32 = c as u32;
        let hi: u32 = u >> 4u32;
        let lo: u32 = u & 0xf;
        assert(u >> 4u32 < 10 && u & 0xf < 16) by (bit_vector)
            requires
                u < 32,
        ;
        let hc: char = (('0' as u8) + (hi as u8)) as char;
        let lc: char = if lo < 10 {
            (('0' as u8) + (lo as u8)) as char
        } else {
            (('a' as u8) + ((lo - 10) as u8)) as char
        };
        assert(hc == hex_digit(hi as int) && lc == hex_digit(lo as int));
        push_char(out, hc);
        push_char(out, lc);
    } else {
        push_char(out, c);
    }
    assert(final(out)@ =~= start + esc_char(c));
}

fn push_json_str(out: &mut String, s: &str)
    ensures
        final(out)@ == old(out)@ + json_str_chars(s@),
{
    let ghost start = out@;
    push_char(out, '"');
    let n = s.unicode_len();
    let mut i: usize = 0;
    proof {
        assert(esc_seq(s@.subrange(0, 0)) =~= Seq::<char>::empty());
        assert(out@ =~= start + seq!['"'] + esc_seq(s@.subrange(0, 0)));
    }
    while i < n
        invariant
            n == s@.len(),
            0 <= i <= n,
            out@ == start + seq!['"'] + esc_seq(s@.subrange(0, i as int)),
        decreases n - i,
    {
        let c = s.get_char(i);
        push_escaped(out, c);
        proof {
            assert(s@.subrange(0, i + 1) =~= s@.subrange(0, i as int).push(s@[i as int]));
            lemma_esc_seq_push(s@.subrange(0, i as int), s@[i as int]);
            assert(out@ =~= start + seq!['"'] + esc_seq(s@.subrange(0, i + 1)));
        }
        i = i + 1;
    }
    push_char(out, '"');
    proof {
        assert(s@.subrange(0, n as int) =~= s@);
        assert(final(out)@ =~= start + json_str_chars(s@));
    }
}

fn write_json(v: &JsonValue, out: &mut String)
    ensures
        final(out)@ == old(out)@ + json_chars(*v),
    decreases *v,
{
    let ghost start = out@;
    match v {
        JsonValue::Null => {
            push_char(out, 'n');
            push_char(out, 'u');
            push_char(out, 'l');
            push_char(out, 'l');
            assert(final(out)@ =~= start + json_chars(*v));
        },
        JsonValue::Bool(b) => {
            if *b {
                push_char(out, 't');
                push_char(out, 'r');
                push_char(out, 'u');
                push_char(out, 'e');
            } else {
                push_char(out, 'f');
                push_char(out, 'a');
                push_char(out, 'l');
                push_char(out, 's');
                push_char(out, 'e');
            }
            assert(final(out)@ =~= start + json_chars(*v));
        },
        JsonValue::Int(i) => {
            let d = i64_to_dec(*i);
            out.append(d.as_str());
        },
        JsonValue::UInt(u) => {
            let d = u64_to_dec(*u);
            out.append(d.as_str());
        },
        JsonValue::Str(s) => {
            push_json_str(out, s.as_str());
        },
        JsonValue::Arr(items) => {
            push_char(out, '[');
            let n = items.len();
            let mut i: usize = 0;
            proof {
                assert(out@ =~= start + seq!['['] + json_arr_chars(items@.subrange(0, 0)));
            }
            while i < n
                invariant
                    n == items@.len(),
                    0 <= i <= n,
                    *v == JsonValue::Arr(*items),
                    out@ == start + seq!['['] + json_arr_chars(items@.subrange(0, i as int)) + (
                    if 0 < i < n {
                        seq![',']
                    } else {
                        Seq::<char>::empty()
                    }),
                decreases n - i,
            {
                proof {
                    assert(*items == v->Arr_0);
                    assert(decreases_to!(*v => v->Arr_0));
                    assert(decreases_to!(*items => items@));
                    assert(decreases_to!(items@ => items@[i as int]));
                }
                let ghost before = out@;
                write_json(&items[i], out);
                proof {
                    lemma_json_arr_snoc(items@.subrange(0, i + 1));
                    assert(items@.subrange(0, i + 1).drop_last() =~= items@.subrange(0, i as int));
                    assert(items@.subrange(0, i + 1).last() == items@[i as int]);
                    assert(out@ =~= start + seq!['['] + json_arr_chars(items@.subrange(0, i + 1)));
                }
                if i + 1 < n {
                    push_char(out, ',');
                }
                i = i + 1;
            }
            push_char(out, ']');
            proof {
                assert(items@.subrange(0, n as int) =~= items@);
                assert(final(out)@ =~= start + json_chars(*v));
            }
        },
        JsonValue::Obj(fields) => {
            push_char(out, '{');
            let n = fields.len();
            let mut i: usize = 0;
            proof {
                assert(out@ =~= start + seq!['{'] + json_obj_chars(fields@.subrange(0, 0)));
            }
            while i < n
                invariant
                    n == fields@.len(),
                    0 <= i <= n,
                    *v == JsonValue::Obj(*fields),
                    out@ == start + seq!['{'] + json_obj_chars(fields@.subrange(0, i as int)) + (
                    if 0 < i < n {
                        seq![',']
                    } else {
                        Seq::<char>::empty()
                    }),
                decreases n - i,
            {
                push_json_str(out, fields[i].0.as_str());
                push_char(out, ':');
                proof {
                    assert(*fields == v->Obj_0);
                    assert(decreases_to!(*v => v->Obj_0));
                    assert(decreases_to!(*fields => fields@));
                    assert(decreases_to!(fields@ => fields@[i as int]));
                    assert(decreases_to!(fields@[i as int] => fields@[i as int].1));
                }
                write_json(&fields[i].1, out);
                proof {
                    lemma_json_obj_snoc(fields@.subrange(0, i + 1));
                    assert(fields@.subrange(0, i + 1).drop_last() =~= fields@.subrange(
                        0,
                        i as int,
                    ));
                    assert(fields@.subrange(0, i + 1).last() == fields@[i as int]);
                    assert(out@ =~= start + seq!['{'] + json_obj_chars(fields@.subrange(0, i + 1)));
                }
                if i + 1 < n {
                    push_char(out, ',');
                }
                i = i + 1;
            }
            push_char(out, '}');
            proof {
                assert(fields@.subrange(0, n as int) =~= fields@);
                assert(final(out)@ =~= start + json_chars(*v));
            }
        },
    }
}

proof fn lemma_json_arr_snoc(items: Seq<JsonValue>)
    requires
        items.len() >= 1,
    ensures
        json_arr_chars(items) == json_arr_chars(items.drop_last()) + (if items.len() > 1 {
            seq![',']
        } else {
            Seq::<char>::empty()
        }) + json_chars(items.last()),
    decreases items.len(),
{
    if items.len() == 1 {
        assert(json_arr_chars(items.drop_last()) =~= Seq::<char>::empty());
        assert(json_arr_chars(items) =~= json_arr_chars(items.drop_last()) + Seq::<char>::empty()
            + json_chars(items.last()));
    } else {
        lemma_json_arr_snoc(items.drop_first());
        assert(items.drop_first().drop_last() =~= items.drop_last().drop_first());
        assert(items.drop_first().last() == items.last());
        if items.len() == 2 {
            assert(json_arr_chars(items.drop_last()) == json_chars(items[0]));
            assert(json_arr_chars(items) =~= json_arr_chars(items.drop_last()) + seq![',']
                + json_chars(items.last()));
        } else {
            assert(json_arr_chars(items.drop_last()) == json_chars(items[0]) + seq![',']
                + json_arr_chars(items.drop_last().drop_first()));
            assert(json_arr_chars(items) =~= json_arr_chars(items.drop_last()) + seq![',']
                + json_chars(items.last()));
        }
    }
}

proof fn lemma_json_obj_snoc(fields: Seq<(String, JsonValue)>)
    requires
        fields.len() >= 1,
    ensures
        json_obj_chars(fields) == json_obj_chars(fields.drop_last()) + (if fields.len() > 1 {
            seq![',']
        } else {
            Seq::<char>::empty()
        }) + json_member_chars(fields.last()),
    decreases fields.len(),
{
    if fields.len() == 1 {
        assert(json_obj_chars(fields.drop_last()) =~= Seq::<char>::empty());
        assert(json_obj_chars(fields) =~= json_obj_chars(fields.drop_last()) + Seq::<char>::empty()
            + json_member_chars(fields.last()));
    } else {
        lemma_json_obj_snoc(fields.drop_first());
        assert(fields.drop_first().drop_last() =~= fields.drop_last().drop_first());
        assert(fields.drop_first().last() == fields.last());
        if fields.len() == 2 {
            assert(json_obj_chars(fields.drop_last()) == json_member_chars(fields[0]));
            assert(json_obj_chars(fields) =~= json_obj_chars(fields.drop_last()) + seq![',']
                + json_member_chars(fields.last()));
        } else {
            assert(json_obj_chars(fields.drop_last()) == json_member_chars(fields[0]) + seq![',']
                + json_obj_chars(fields.drop_last().drop_first()));
            assert(json_obj_chars(fields) =~= json_obj_chars(fields.drop_last()) + seq![',']
                + json_member_chars(fields.last()));
        }
    }
}

/// Serialise a value to its JSON text.
pub fn to_json_string(v: &JsonValue) -> (r: String)
    ensures
        r@ == json_chars(*v),
{
    let mut out = String::new();
    write_json(v, &mut out);
    out
}

/// The serialised byte size of a value, as `str::len` reports it.
pub fn measure_json(v: &JsonValue) -> (r: usize)
    ensures
        r == vstd::utf8::encode_utf8(json_chars(*v)).len() as usize,
{
    let s = to_json_string(v);
    s.as_str().len()
}

// ---------------------------------------------------------------------------
// Field access on object values.
// ---------------------------------------------------------------------------

/// The value of the first field named `key`, if any.
pub open spec fn obj_lookup(fields: Seq<(String, JsonValue)>, key: Seq<char>) -> Option<JsonValue>
    decreases fields.len(),
{
    if fields.len() == 0 {
        Option::None
    } else if fields[0].0@ == key {
        Option::Some(fields[0].1)
    } else {
        obj_lookup(fields.drop_first(), key)
    }
}

/// A key absent from every field makes the lookup fail.
pub proof fn lemma_lookup_absent(fields: Seq<(String, JsonValue)>, key: Seq<char>)
    requires
        forall|i: int| 0 <= i < fields.len() ==> (#[trigger] fields[i]).0@ != key,
    ensures
        obj_lookup(fields, key) is None,
    decreases fields.len(),
{
    if fields.len() > 0 {
        assert(fields[0].0@ != key);
        assert(forall|i: int|
            0 <= i < fields.drop_first().len() ==> (#[trigger] fields.drop_first()[i]).0@ != key
                && fields.drop_first()[i] == fields[i + 1]);
        lemma_lookup_absent(fields.drop_first(), key);
    }
}

/// The first field named `key` decides the lookup.
pub proof fn lemma_lookup_at(fields: Seq<(String, JsonValue)>, key: Seq<char>, at: int)
    requires
        0 <= at < fields.len(),
        fields[at].0@ == key,
        forall|i: int| 0 <= i < at ==> (#[trigger] fields[i]).0@ != key,
    ensures
        obj_lookup(fields, key) == Option::Some(fields[at].1),
    decreases at,
{
    if at > 0 {
        assert(fields[0].0@ != key);
        assert(forall|i: int|
            0 <= i < fields.drop_first().len() ==> fields.drop_first()[i] == fields[i + 1]);
        lemma_lookup_at(fields.drop_first(), key, at - 1);
    }
}

/// Field lookup on a JSON value: `None` unless `v` is an object with the field.
pub open spec fn spec_get(v: JsonValue, key: Seq<char>) -> Option<JsonValue> {
    match v {
        JsonValue::Obj(fields) => obj_lookup(fields@, key),
        _ => Option::None,
    }
}

impl JsonValue {
    /// Look up a field of an object value by name.
    pub fn get(&self, key: &str) -> (r: Option<&JsonValue>)
        ensures
            match r {
                Option::Some(x) => spec_get(*self, key@) == Option::Some(*x),
                Option::None => spec_get(*self, key@) is None,
            },
    {
        match self {
            JsonValue::Obj(fields) => {
                let n = fields.len();
                let mut i: usize = 0;
                assert(fields@.subrange(0, n as int) =~= fields@);
                while i < n
                    invariant
                        n == fields@.len(),
                        0 <= i <= n,
                        *self is Obj && self->Obj_0 == *fields,
                        obj_lookup(fields@, key@) == obj_lookup(
                            fields@.subrange(i as int, n as int),
                            key@,
                        ),
                    decreases n - i,
                {
                    assert(fields@.subrange(i as int, n as int)[0] == fields@[i as int]);
                    if str_eq(fields[i].0.as_str(), key) {
                        assert(obj_lookup(fields@.subrange(i as int, n as int), key@)
                            == Option::Some(fields@[i as int].1));
                        assert(*self is Obj && self->Obj_0 == *fields);
                        return Option::Some(&fields[i].1);
                    }
                    assert(fields@.subrange(i as int, n as int).drop_first() =~= fields@.subrange(
                        i + 1,
                        n as int,
                    ));
                    i = i + 1;
                }
                Option::None
            },
            _ => Option::None,
        }
    }

    /// The string content, when this is a string value.
    pub fn as_str(&self) -> (r: Option<&String>)
        ensures
            match r {
                Option::Some(s) => *self == JsonValue::Str(*s),
                Option::None => !(*self is Str),
            },
    {
        match self {
            JsonValue::Str(s) => Option::Some(s),
            _ => Option::None,
        }
    }

    pub fn as_bool(&self) -> (r: Option<bool>)
        ensures
            match r {
                Option::Some(b) => *self == JsonValue::Bool(b),
                Option::None => !(*self is Bool),
            },
    {
        match self {
            JsonValue::Bool(b) => Option::Some(*b),
            _ => Option::None,
        }
    }

    /// The numeric content as a u64, when this is a non-negative number.
    pub fn as_u64(&self) -> (r: Option<u64>)
        ensures
            match r {
                Option::Some(u) => *self == JsonValue::UInt(u) || (*self == JsonValue::Int(
                    u as i64,
                ) && u <= i64::MAX),
                Option::None => !(*self is UInt) && (*self is Int ==> self->Int_0 < 0),
            },
    {
        match self {
            JsonValue::UInt(u) => Option::Some(*u),
            JsonValue::Int(i) => {
                if *i >= 0 {
                    Option::Some(*i as u64)
                } else {
                    Option::None
                }
            },
            _ => Option::None,
        }
    }

    /// A string-valued field of an object, cloned out.
    pub fn get_str(&self, key: &str) -> (r: Option<String>)
        ensures
            match r {
                Option::Some(s) => spec_get(*self, key@) == Option::Some(JsonValue::Str(s)),
                Option::None => match spec_get(*self, key@) {
                    Option::Some(x) => !(x is Str),
                    Option::None => true,
                },
            },
    {
        match self.get(key) {
            Option::Some(v) => match v.as_str() {
                Option::Some(s) => Option::Some(s.clone()),
                Option::None => Option::None,
            },
            Option::None => Option::None,
        }
    }
}

/// Build a string value from a string slice.
pub fn jstr(s: &str) -> (r: JsonValue)
    ensures
        r is Str && r->Str_0@ == s@,
{
    JsonValue::Str(s.to_owned())
}

} // verus!
