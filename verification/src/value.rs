use vstd::prelude::*;

use crate::text::{hex_digit_char, hex_digit_to_char, i64_to_string, int_digits, push_char};

verus! {

// ---------------------------------------------------------------------------
// Parameter values
// ---------------------------------------------------------------------------

/// A business or public parameter value: a closed sum of everything the
/// protocol can carry. Every value is flattened to a string before it is
/// signed, by one canonical stringification (`flat_chars`); structured
/// values are embedded as JSON text.
pub enum ParamValue {
    Null,
    Bool(bool),
    Int(i64),
    Str(String),
    Array(Vec<ParamValue>),
    Object(Vec<(String, ParamValue)>),
}

impl ParamValue {
    /// Whether this is the absent marker.
    pub fn is_null(&self) -> (r: bool)
        ensures
            r == (*self is Null),
    {
        match self {
            ParamValue::Null => true,
            _ => false,
        }
    }

    /// Whether this payload carries nothing: the absent marker itself, or
    /// an object every one of whose members is absent. Such a payload is
    /// omitted from a request entirely.
    pub fn is_absent(&self) -> (r: bool)
        ensures
            r == payload_absent(*self),
    {
        match self {
            ParamValue::Null => true,
            ParamValue::Object(fields) => {
                let n = fields.len();
                let mut i: usize = 0;
                while i < n
                    invariant
                        i <= n,
                        n == fields@.len(),
                        self == &ParamValue::Object(*fields),
                        !has_live_member(fields@.take(i as int)),
                    decreases n - i,
                {
                    if !fields[i].1.is_null() {
                        proof {
                            assert(!(fields@[i as int].1 is Null));
                            assert(has_live_member(fields@));
                        }
                        return false;
                    }
                    proof {
                        assert forall|k: int|
                            #![trigger fields@.take(i + 1)[k]]
                            0 <= k < i + 1 implies fields@.take(i + 1)[k].1 is Null by {
                            if k < i {
                                assert(fields@.take(i as int)[k].1 is Null);
                            }
                        }
                    }
                    i = i + 1;
                }
                proof {
                    assert(fields@.take(n as int) =~= fields@);
                }
                true
            },
            _ => false,
        }
    }
}

/// Whether some member of an object carries a value (is not the absent
/// marker).
pub open spec fn has_live_member(s: Seq<(String, ParamValue)>) -> bool {
    exists|i: int| 0 <= i < s.len() && !(s[i].1 is Null)
}

/// Whether a payload carries nothing: the absent marker itself, or an
/// object every one of whose members is absent.
pub open spec fn payload_absent(v: ParamValue) -> bool {
    v is Null || (v matches ParamValue::Object(fields) && !has_live_member(fields@))
}

// ---------------------------------------------------------------------------
// JSON text
// ---------------------------------------------------------------------------

/// How one character appears inside a JSON string literal: quote and
/// backslash are escaped, control characters take their short escape or the
/// `\u00XX` form, and everything else stands as itself.
pub open spec fn json_escape_char(c: char) -> Seq<char> {
    if c == '"' {
        seq!['\\', '"']
    } else if c == '\\' {
        seq!['\\', '\\']
    } else if c == '\x08' {
        seq!['\\', 'b']
    } else if c == '\x0c' {
        seq!['\\', 'f']
    } else if c == '\n' {
        seq!['\\', 'n']
    } else if c == '\r' {
        seq!['\\', 'r']
    } else if c == '\t' {
        seq!['\\', 't']
    } else if (c as u32) < 0x20 {
        seq!['\\', 'u', '0', '0', hex_digit_char((c as u32 / 16) as nat), hex_digit_char(
            (c as u32 % 16) as nat,
        )]
    } else {
        seq![c]
    }
}

/// A whole character sequence escaped for a JSON string literal.
pub open spec fn json_escaped(s: Seq<char>) -> Seq<char>
    decreases s.len(),
{
    if s.len() == 0 {
        Seq::empty()
    } else {
        json_escaped(s.drop_last()) + json_escape_char(s.last())
    }
}

/// The characters `true` or `false`.
pub open spec fn bool_chars(b: bool) -> Seq<char> {
    if b {
        seq!['t', 'r', 'u', 'e']
    } else {
        seq!['f', 'a', 'l', 's', 'e']
    }
}

/// The JSON text of a value. Array elements and object members appear in
/// the order they are held in.
pub open spec fn json_chars(v: ParamValue) -> Seq<char>
    decreases v,
{
    match v {
        ParamValue::Null => seq!['n', 'u', 'l', 'l'],
        ParamValue::Bool(b) => bool_chars(b),
        ParamValue::Int(n) => int_digits(n as int),
        ParamValue::Str(s) => seq!['"'] + json_escaped(s@) + seq!['"'],
        ParamValue::Array(items) => seq!['['] + json_array_chars(items@) + seq![']'],
        ParamValue::Object(fields) => seq!['{'] + json_object_chars(fields@) + seq!['}'],
    }
}

/// The elements of a JSON array, joined with commas.
pub open spec fn json_array_chars(s: Seq<ParamValue>) -> Seq<char>
    decreases s,
{
    if s.len() == 0 {
        Seq::empty()
    } else if s.len() == 1 {
        json_chars(s.last())
    } else {
        json_array_chars(s.drop_last()) + seq![','] + json_chars(s.last())
    }
}

/// One `"key":value` member of a JSON object.
pub open spec fn json_member_chars(m: (String, ParamValue)) -> Seq<char>
    decreases m,
{
    seq!['"'] + json_escaped(m.0@) + seq!['"', ':'] + json_chars(m.1)
}

/// The members of a JSON object that carry a value, joined with commas; a
/// member whose value is the absent marker is omitted, never rendered as a
/// literal null.
pub open spec fn json_object_chars(s: Seq<(String, ParamValue)>) -> Seq<char>
    decreases s,
{
    if s.len() == 0 {
        Seq::empty()
    } else if s.last().1 is Null {
        json_object_chars(s.drop_last())
    } else if !has_live_member(s.drop_last()) {
        json_member_chars(s.last())
    } else {
        json_object_chars(s.drop_last()) + seq![','] + json_member_chars(s.last())
    }
}

/// An object none of whose members carries a value renders as nothing.
proof fn lemma_object_chars_no_live(s: Seq<(String, ParamValue)>)
    requires
        !has_live_member(s),
    ensures
        json_object_chars(s) == Seq::<char>::empty(),
    decreases s.len(),
{
    if s.len() > 0 {
        assert(s.last().1 is Null) by {
            if !(s.last().1 is Null) {
                assert(!(s[s.len() - 1].1 is Null));
            }
        }
        assert(!has_live_member(s.drop_last())) by {
            if has_live_member(s.drop_last()) {
                let w = choose|w: int|
                    #![trigger s.drop_last()[w]]
                    0 <= w < s.drop_last().len() && !(s.drop_last()[w].1 is Null);
                assert(!(s[w].1 is Null));
            }
        }
        lemma_object_chars_no_live(s.drop_last());
    }
}

/// Law (null suppression inside payloads): a member whose value is the
/// absent marker contributes nothing to an object's JSON text.
pub proof fn lemma_null_member_dropped(s: Seq<(String, ParamValue)>, m: (String, ParamValue))
    requires
        m.1 is Null,
    ensures
        json_object_chars(s.push(m)) == json_object_chars(s),
{
    assert(s.push(m).drop_last() =~= s);
}

/// The string a value contributes to the signed parameter set: booleans and
/// numbers in their decimal form, strings as they stand (unquoted), arrays
/// and objects as JSON text, and the absent marker as the empty string —
/// callers omit such a field rather than render it.
pub open spec fn flat_chars(v: ParamValue) -> Seq<char> {
    match v {
        ParamValue::Null => Seq::empty(),
        ParamValue::Bool(b) => bool_chars(b),
        ParamValue::Int(n) => int_digits(n as int),
        ParamValue::Str(s) => s@,
        ParamValue::Array(_) => json_chars(v),
        ParamValue::Object(_) => json_chars(v),
    }
}

// ---------------------------------------------------------------------------
// Rendering
// ---------------------------------------------------------------------------

fn push_escaped_char(r: &mut String, c: char)
    ensures
        final(r)@ == old(r)@ + json_escape_char(c),
{
    if c == '"' {
        push_char(r, '\\');
        push_char(r, '"');
    } else if c == '\\' {
        push_char(r, '\\');
        push_char(r, '\\');
    } else if c == '\x08' {
        push_char(r, '\\');
        push_char(r, 'b');
    } else if c == '\x0c' {
        push_char(r, '\\');
        push_char(r, 'f');
    } else if c == '\n' {
        push_char(r, '\\');
        push_char(r, 'n');
    } else if c == '\r' {
        push_char(r, '\\');
        push_char(r, 'r');
    } else if c == '\t' {
        push_char(r, '\\');
        push_char(r, 't');
    } else if (c as u32) < 0x20 {
        push_char(r, '\\');
        push_char(r, 'u');
        push_char(r, '0');
        push_char(r, '0');
        let code = c as u32;
        let hi = hex_digit_to_char((code / 16) as u8);
        let lo = hex_digit_to_char((code % 16) as u8);
        push_char(r, hi);
        push_char(r, lo);
    } else {
        push_char(r, c);
    }
    proof {
        assert(r@ =~= old(r)@ + json_escape_char(c));
    }
}

/// Appends `s` escaped for a JSON string literal.
fn append_escaped(r: &mut String, s: &str)
    ensures
        final(r)@ == old(r)@ + json_escaped(s@),
{
    let n = s.unicode_len();
    let mut i: usize = 0;
    while i < n
        invariant
            i <= n,
            n == s@.len(),
            r@ == old(r)@ + json_escaped(s@.take(i as int)),
        decreases n - i,
    {
        let c = s.get_char(i);
        push_escaped_char(r, c);
        proof {
            assert(s@.take(i + 1).drop_last() =~= s@.take(i as int));
            assert(s@.take(i + 1).last() == s@[i as int]);
            assert(r@ =~= old(r)@ + json_escaped(s@.take(i + 1)));
        }
        i = i + 1;
    }
    proof {
        assert(s@.take(n as int) =~= s@);
    }
}

/// Appends the JSON text of a value.
pub fn append_json(r: &mut String, v: &ParamValue)
    ensures
        final(r)@ == old(r)@ + json_chars(*v),
    decreases *v,
{
    match v {
        ParamValue::Null => {
            r.append("null");
            proof {
                reveal_strlit("null");
                assert(r@ =~= old(r)@ + json_chars(*v));
            }
        },
        ParamValue::Bool(b) => {
            if *b {
                r.append("true");
            } else {
                r.append("false");
            }
            proof {
                reveal_strlit("true");
                reveal_strlit("false");
                assert(r@ =~= old(r)@ + json_chars(*v));
            }
        },
        ParamValue::Int(n) => {
            let t = i64_to_string(*n);
            r.append(t.as_str());
            proof {
                assert(r@ =~= old(r)@ + json_chars(*v));
            }
        },
        ParamValue::Str(s) => {
            push_char(r, '"');
            append_escaped(r, s.as_str());
            push_char(r, '"');
            proof {
                assert(r@ =~= old(r)@ + json_chars(*v));
            }
        },
        ParamValue::Array(items) => {
            push_char(r, '[');
            let ghost base = r@;
            let n = items.len();
            let mut i: usize = 0;
            proof {
                assert(json_array_chars(items@.take(0)) =~= Seq::<char>::empty());
            }
            while i < n
                invariant
                    i <= n,
                    n == items@.len(),
                    v == &ParamValue::Array(*items),
                    r@ == base + json_array_chars(items@.take(i as int)),
                decreases n - i,
            {
                if i > 0 {
                    push_char(r, ',');
                }
                proof {
                    assert(decreases_to!(*v => (*v)->Array_0));
                    assert((*v)->Array_0 == *items);
                    assert(decreases_to!(*items => items@));
                    assert(decreases_to!(items@ => items@[i as int]));
                    assert(decreases_to!(*v => items@[i as int]));
                }
                append_json(r, &items[i]);
                proof {
                    assert(items@.take(i + 1).drop_last() =~= items@.take(i as int));
                    assert(items@.take(i + 1).last() == items@[i as int]);
                    assert(r@ =~= base + json_array_chars(items@.take(i + 1)));
                }
                i = i + 1;
            }
            push_char(r, ']');
            proof {
                assert(items@.take(n as int) =~= items@);
                assert(r@ =~= old(r)@ + json_chars(*v));
            }
        },
        ParamValue::Object(fields) => {
            push_char(r, '{');
            let ghost base = r@;
            let n = fields.len();
            let mut i: usize = 0;
            let mut emitted = false;
            proof {
                assert(json_object_chars(fields@.take(0)) =~= Seq::<char>::empty());
            }
            while i < n
                invariant
                    i <= n,
                    n == fields@.len(),
                    v == &ParamValue::Object(*fields),
                    emitted == has_live_member(fields@.take(i as int)),
                    r@ == base + json_object_chars(fields@.take(i as int)),
                decreases n - i,
            {
                proof {
                    assert(fields@.take(i + 1).drop_last() =~= fields@.take(i as int));
                    assert(fields@.take(i + 1).last() == fields@[i as int]);
                }
                if fields[i].1.is_null() {
                    // an absent member is omitted, never rendered as null
                    proof {
                        assert(has_live_member(fields@.take(i + 1)) == has_live_member(
                            fields@.take(i as int),
                        )) by {
                            if has_live_member(fields@.take(i + 1)) && !has_live_member(
                                fields@.take(i as int),
                            ) {
                                let w = choose|w: int|
                                    #![trigger fields@.take(i + 1)[w]]
                                    0 <= w < i + 1 && !(fields@.take(i + 1)[w].1 is Null);
                                if w < i {
                                    assert(!(fields@.take(i as int)[w].1 is Null));
                                }
                            }
                            if has_live_member(fields@.take(i as int)) {
                                let w = choose|w: int|
                                    #![trigger fields@.take(i as int)[w]]
                                    0 <= w < i && !(fields@.take(i as int)[w].1 is Null);
                                assert(!(fields@.take(i + 1)[w].1 is Null));
                            }
                        }
                        assert(r@ =~= base + json_object_chars(fields@.take(i + 1)));
                    }
                    i = i + 1;
                    continue ;
                }
                if emitted {
                    push_char(r, ',');
                }
                push_char(r, '"');
                append_escaped(r, fields[i].0.as_str());
                push_char(r, '"');
                push_char(r, ':');
                proof {
                    assert(decreases_to!(*v => (*v)->Object_0));
                    assert((*v)->Object_0 == *fields);
                    assert(decreases_to!(*fields => fields@));
                    assert(decreases_to!(fields@ => fields@[i as int]));
                    assert(decreases_to!(fields@[i as int] => fields@[i as int].1));
                    assert(decreases_to!(*v => fields@[i as int].1));
                }
                append_json(r, &fields[i].1);
                proof {
                    assert(json_member_chars(fields@[i as int]) == seq!['"'] + json_escaped(
                        fields@[i as int].0@,
                    ) + seq!['"', ':'] + json_chars(fields@[i as int].1));
                    assert(r@ =~= base + json_object_chars(fields@.take(i as int)) + (if emitted {
                        seq![',']
                    } else {
                        Seq::<char>::empty()
                    }) + json_member_chars(fields@[i as int]));
                    if !emitted {
                        lemma_object_chars_no_live(fields@.take(i as int));
                    }
                    assert(r@ =~= base + json_object_chars(fields@.take(i + 1)));
                    assert(!(fields@.take(i + 1)[i as int].1 is Null));
                    assert(has_live_member(fields@.take(i + 1)));
                }
                emitted = true;
                i = i + 1;
            }
            push_char(r, '}');
            proof {
                assert(fields@.take(n as int) =~= fields@);
                assert(r@ =~= old(r)@ + json_chars(*v));
            }
        },
    }
}

/// The JSON text of a value, as a fresh string.
pub fn json_string(v: &ParamValue) -> (r: String)
    ensures
        r@ == json_chars(*v),
{
    let mut r = String::new();
    append_json(&mut r, v);
    proof {
        assert(r@ =~= json_chars(*v));
    }
    r
}

/// The string a value contributes to the signed parameter set.
pub fn flat_string(v: &ParamValue) -> (r: String)
    ensures
        r@ == flat_chars(*v),
{
    match v {
        ParamValue::Null => String::new(),
        ParamValue::Bool(b) => {
            let r = if *b {
                "true".to_owned()
            } else {
                "false".to_owned()
            };
            proof {
                reveal_strlit("true");
                reveal_strlit("false");
                assert(r@ =~= flat_chars(*v));
            }
            r
        },
        ParamValue::Int(n) => i64_to_string(*n),
        ParamValue::Str(s) => s.clone(),
        ParamValue::Array(_) => json_string(v),
        ParamValue::Object(_) => json_string(v),
    }
}

} // verus!
