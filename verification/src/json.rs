//! The crate's own model of JSON values, their exact text serialization, and
//! the parse boundary to `serde_json`.
//!
//! JSON-RPC envelopes and payloads are held as [`JsonValue`]; the logic of the
//! library inspects and builds these plain values, so it can be verified.
//! Serialization to text is verified against [`spec_json_text`]; parsing of
//! text is done by `serde_json` behind trusted wrappers.

use vstd::prelude::*;

verus! {

/// A JSON value, as the library models it.
///
/// `UInt` holds every non-negative integer on the wire; `Int` holds the
/// negative ones; `NumText` carries the literal text of a number that fits
/// neither (a fraction or exponent form), so it can be re-emitted unchanged.
#[derive(Debug, PartialEq)]
pub enum JsonValue {
    Null,
    Bool(bool),
    UInt(u64),
    Int(i64),
    NumText(String),
    Str(String),
    Arr(Vec<JsonValue>),
    Obj(Vec<(String, JsonValue)>),
}

/// A JSON object: key/value pairs, as `serde_json` hands them out, with the
/// keys unique and in ascending order.
pub type JsonObject = Vec<(String, JsonValue)>;

// ------------------------------------------------------------------
// Decimal digits
// ------------------------------------------------------------------

/// The character for the decimal digit `d` (`0 <= d < 10`).
pub open spec fn dec_digit(d: int) -> char {
    ((48 + d) as u8) as char
}

/// The decimal text of the non-negative integer `n`, most significant first.
pub open spec fn spec_u64_digits(n: int) -> Seq<char>
    decreases n,
{
    if n < 10 {
        seq![dec_digit(n)]
    } else {
        spec_u64_digits(n / 10).push(dec_digit(n % 10))
    }
}

/// The decimal text of the integer `i`, with a leading `-` when negative.
pub open spec fn spec_i64_digits(i: int) -> Seq<char> {
    if i < 0 {
        seq!['-'] + spec_u64_digits(-i)
    } else {
        spec_u64_digits(i)
    }
}

// ------------------------------------------------------------------
// String escaping
// ------------------------------------------------------------------

/// The lowercase hexadecimal digit for `d` (`0 <= d < 16`).
pub open spec fn hex_digit(d: int) -> char {
    if d < 10 {
        dec_digit(d)
    } else {
        ((87 + d) as u8) as char
    }
}

/// How one character is written inside a JSON string: the two-character
/// escapes of the JSON grammar, `\u00xx` for the other control characters,
/// and every other character unchanged.
pub open spec fn spec_escape_char(c: char) -> Seq<char> {
    if c == '"' {
        seq!['\\', '"']
    } else if c == '\\' {
        seq!['\\', '\\']
    } else if c == '\u{8}' {
        seq!['\\', 'b']
    } else if c == '\u{9}' {
        seq!['\\', 't']
    } else if c == '\u{a}' {
        seq!['\\', 'n']
    } else if c == '\u{c}' {
        seq!['\\', 'f']
    } else if c == '\u{d}' {
        seq!['\\', 'r']
    } else if (c as int) < 32 {
        seq!['\\', 'u', '0', '0', hex_digit(c as int / 16), hex_digit(c as int % 16)]
    } else {
        seq![c]
    }
}

/// The escaped form of the first `n` characters of `s`.
pub open spec fn spec_escape_prefix(s: Seq<char>, n: int) -> Seq<char>
    decreases n,
{
    if n <= 0 {
        Seq::empty()
    } else {
        spec_escape_prefix(s, n - 1) + spec_escape_char(s[n - 1])
    }
}

/// The JSON string literal for `s`: quoted and escaped.
pub open spec fn spec_quoted(s: Seq<char>) -> Seq<char> {
    seq!['"'] + spec_escape_prefix(s, s.len() as int) + seq!['"']
}

// ------------------------------------------------------------------
// JSON text of a value
// ------------------------------------------------------------------

/// The exact (compact) JSON text of a value.
pub open spec fn spec_json_text(v: JsonValue) -> Seq<char>
    decreases v, 0int,
{
    match v {
        JsonValue::Null => seq!['n', 'u', 'l', 'l'],
        JsonValue::Bool(b) => if b {
            seq!['t', 'r', 'u', 'e']
        } else {
            seq!['f', 'a', 'l', 's', 'e']
        },
        JsonValue::UInt(n) => spec_u64_digits(n as int),
        JsonValue::Int(i) => spec_i64_digits(i as int),
        JsonValue::NumText(t) => t@,
        JsonValue::Str(s) => spec_quoted(s@),
        JsonValue::Arr(items) => seq!['['] + spec_arr_text(items@) + seq![']'],
        JsonValue::Obj(fields) => seq!['{'] + spec_obj_text(fields@) + seq!['}'],
    }
}

/// The comma-separated JSON text of the array items.
pub open spec fn spec_arr_text(items: Seq<JsonValue>) -> Seq<char>
    decreases items, 1int,
{
    if items.len() == 0 {
        Seq::empty()
    } else if items.len() == 1 {
        spec_json_text(items.last())
    } else {
        spec_arr_text(items.drop_last()) + seq![','] + spec_json_text(items.last())
    }
}

/// The comma-separated `"key":value` JSON text of the object fields.
pub open spec fn spec_obj_text(fields: Seq<(String, JsonValue)>) -> Seq<char>
    decreases fields, 1int,
{
    if fields.len() == 0 {
        Seq::empty()
    } else if fields.len() == 1 {
        spec_quoted(fields.last().0@) + seq![':'] + spec_json_text(fields.last().1)
    } else {
        spec_obj_text(fields.drop_last()) + seq![','] + spec_quoted(fields.last().0@) + seq![':']
            + spec_json_text(fields.last().1)
    }
}

// ------------------------------------------------------------------
// The serializer
// ------------------------------------------------------------------

/// Appends the decimal digits of `n` to `out`.
pub(crate) fn push_u64_digits(n: u64, out: &mut Vec<char>)
    ensures
        final(out)@ == old(out)@ + spec_u64_digits(n as int),
    decreases n,
{
    if n < 10 {
        out.push(((48 + n) as u8) as char);
    } else {
        push_u64_digits(n / 10, out);
        out.push(((48 + n % 10) as u8) as char);
    }
}

/// Appends the decimal digits of `i`, with a leading `-` when negative.
pub(crate) fn push_i64_digits(i: i64, out: &mut Vec<char>)
    ensures
        final(out)@ == old(out)@ + spec_i64_digits(i as int),
{
    if i >= 0 {
        push_u64_digits(i as u64, out);
    } else {
        out.push('-');
        let magnitude: u64 = if i == i64::MIN {
            9223372036854775808u64
        } else {
            (-i) as u64
        };
        push_u64_digits(magnitude, out);
    }
}

/// Appends the escaped form of one character of a JSON string.
fn push_escaped_char(c: char, out: &mut Vec<char>)
    ensures
        final(out)@ == old(out)@ + spec_escape_char(c),
{
    if c == '"' {
        out.push('\\');
        out.push('"');
    } else if c == '\\' {
        out.push('\\');
        out.push('\\');
    } else if c == '\u{8}' {
        out.push('\\');
        out.push('b');
    } else if c == '\u{9}' {
        out.push('\\');
        out.push('t');
    } else if c == '\u{a}' {
        out.push('\\');
        out.push('n');
    } else if c == '\u{c}' {
        out.push('\\');
        out.push('f');
    } else if c == '\u{d}' {
        out.push('\\');
        out.push('r');
    } else if (c as u32) < 32 {
        out.push('\\');
        out.push('u');
        out.push('0');
        out.push('0');
        let hi = (c as u32) / 16;
        let lo = (c as u32) % 16;
        out.push(if hi < 10 { ((48 + hi) as u8) as char } else { ((87 + hi) as u8) as char });
        out.push(if lo < 10 { ((48 + lo) as u8) as char } else { ((87 + lo) as u8) as char });
    } else {
        out.push(c);
    }
}

/// Appends the JSON string literal (quoted, escaped) for `s`.
pub(crate) fn push_quoted(s: &str, out: &mut Vec<char>)
    ensures
        final(out)@ == old(out)@ + spec_quoted(s@),
{
    let ghost out0 = out@;
    out.push('"');
    let len = s.unicode_len();
    let mut i: usize = 0;
    while i < len
        invariant
            len == s@.len(),
            i <= len,
            out@ == out0 + seq!['"'] + spec_escape_prefix(s@, i as int),
        decreases len - i,
    {
        let c = s.get_char(i);
        push_escaped_char(c, out);
        i = i + 1;
    }
    out.push('"');
    proof {
        assert(out@ =~= out0 + spec_quoted(s@));
    }
}

/// Appends the exact JSON text of `v` to `out`.
pub fn write_json(v: &JsonValue, out: &mut Vec<char>)
    ensures
        final(out)@ == old(out)@ + spec_json_text(*v),
    decreases *v, 0int,
{
    let ghost out0 = out@;
    match v {
        JsonValue::Null => {
            out.push('n');
            out.push('u');
            out.push('l');
            out.push('l');
            proof {
                assert(out@ =~= out0 + spec_json_text(*v));
            }
        },
        JsonValue::Bool(b) => {
            if *b {
                out.push('t');
                out.push('r');
                out.push('u');
                out.push('e');
            } else {
                out.push('f');
                out.push('a');
                out.push('l');
                out.push('s');
                out.push('e');
            }
            proof {
                assert(out@ =~= out0 + spec_json_text(*v));
            }
        },
        JsonValue::UInt(n) => {
            push_u64_digits(*n, out);
        },
        JsonValue::Int(i) => {
            push_i64_digits(*i, out);
        },
        JsonValue::NumText(t) => {
            push_str_chars(t.as_str(), out);
        },
        JsonValue::Str(s) => {
            push_quoted(s.as_str(), out);
        },
        JsonValue::Arr(items) => {
            proof {
                assert(v->Arr_0 == *items);
                assert(decreases_to!(*v => v->Arr_0));
            }
            write_arr_items(items, out);
            proof {
                assert(out@ =~= out0 + spec_json_text(*v));
            }
        },
        JsonValue::Obj(fields) => {
            proof {
                assert(v->Obj_0 == *fields);
                assert(decreases_to!(*v => v->Obj_0));
            }
            write_obj_fields(fields, out);
            proof {
                assert(out@ =~= out0 + spec_json_text(*v));
            }
        },
    }
}


/// Appends `[`, the comma-separated items, and `]`.
pub(crate) fn write_arr_items(items: &Vec<JsonValue>, out: &mut Vec<char>)
    ensures
        final(out)@ == old(out)@ + seq!['['] + spec_arr_text(items@) + seq![']'],
    decreases *items, 1int,
{
    let ghost out0 = out@;
    out.push('[');
    let n = items.len();
    let mut i: usize = 0;
    while i < n
        invariant
            n == items@.len(),
            i <= n,
            out@ == out0 + seq!['['] + spec_arr_text(items@.take(i as int)),
        decreases n - i,
    {
        if i > 0 {
            out.push(',');
        }
        proof {
            assert(decreases_to!(*items => items@));
            assert(decreases_to!(items@ => items@[i as int]));
        }
        write_json(&items[i], out);
        proof {
            assert(items@.take(i + 1 as int).drop_last() =~= items@.take(i as int));
            assert(items@.take(i + 1 as int).last() == items@[i as int]);
        }
        i = i + 1;
    }
    out.push(']');
    proof {
        assert(items@.take(n as int) =~= items@);
        assert(out@ =~= out0 + seq!['['] + spec_arr_text(items@) + seq![']']);
    }
}

/// Appends `{`, the comma-separated `"key":value` fields, and `}`.
pub(crate) fn write_obj_fields(fields: &Vec<(String, JsonValue)>, out: &mut Vec<char>)
    ensures
        final(out)@ == old(out)@ + seq!['{'] + spec_obj_text(fields@) + seq!['}'],
    decreases *fields, 1int,
{
    let ghost out0 = out@;
    out.push('{');
    let n = fields.len();
    let mut i: usize = 0;
    while i < n
        invariant
            n == fields@.len(),
            i <= n,
            out@ == out0 + seq!['{'] + spec_obj_text(fields@.take(i as int)),
        decreases n - i,
    {
        if i > 0 {
            out.push(',');
        }
        push_quoted(fields[i].0.as_str(), out);
        out.push(':');
        proof {
            assert(decreases_to!(*fields => fields@));
            assert(decreases_to!(fields@ => fields@[i as int]));
            assert(decreases_to!(fields@[i as int] => fields@[i as int].1));
        }
        write_json(&fields[i].1, out);
        proof {
            assert(fields@.take(i + 1 as int).drop_last() =~= fields@.take(i as int));
            assert(fields@.take(i + 1 as int).last() == fields@[i as int]);
        }
        i = i + 1;
    }
    out.push('}');
    proof {
        assert(fields@.take(n as int) =~= fields@);
        assert(out@ =~= out0 + seq!['{'] + spec_obj_text(fields@) + seq!['}']);
    }
}

/// Appends the characters of `s` to `out`, unchanged.
pub(crate) fn push_str_chars(s: &str, out: &mut Vec<char>)
    ensures
        final(out)@ == old(out)@ + s@,
{
    let len = s.unicode_len();
    let mut i: usize = 0;
    while i < len
        invariant
            len == s@.len(),
            i <= len,
            out@ == old(out)@ + s@.take(i as int),
        decreases len - i,
    {
        let c = s.get_char(i);
        out.push(c);
        i = i + 1;
    }
    proof {
        assert(s@.take(len as int) =~= s@);
    }
}

/// Relies on `String: FromIterator<char>`: collecting an iterator of
/// characters yields the string of exactly those characters, in order.
#[verifier::external_body]
pub(crate) fn chars_to_string(chars: &Vec<char>) -> (r: String)
    ensures
        r@ == chars@,
{
    chars.iter().collect()
}

/// The exact JSON text of `v`, as a `String`.
pub fn json_to_string(v: &JsonValue) -> (r: String)
    ensures
        r@ == spec_json_text(*v),
{
    let mut out: Vec<char> = Vec::new();
    write_json(v, &mut out);
    chars_to_string(&out)
}

// ------------------------------------------------------------------
// Strings as keys
// ------------------------------------------------------------------

/// Lexicographic order on character sequences; on UTF-8 text it agrees with
/// the byte order `String` uses.
pub open spec fn spec_str_lt(a: Seq<char>, b: Seq<char>) -> bool
    decreases a.len(),
{
    if b.len() == 0 {
        false
    } else if a.len() == 0 {
        true
    } else if (a[0] as int) < (b[0] as int) {
        true
    } else if (a[0] as int) > (b[0] as int) {
        false
    } else {
        spec_str_lt(a.drop_first(), b.drop_first())
    }
}

/// Whether `a` orders strictly before `b`.
pub fn str_lt(a: &str, b: &str) -> (r: bool)
    ensures
        r == spec_str_lt(a@, b@),
{
    let a_len = a.unicode_len();
    let b_len = b.unicode_len();
    let mut i: usize = 0;
    proof {
        assert(a@.skip(0) =~= a@);
        assert(b@.skip(0) =~= b@);
    }
    loop
        invariant
            a_len == a@.len(),
            b_len == b@.len(),
            i <= a_len,
            i <= b_len,
            spec_str_lt(a@, b@) == spec_str_lt(a@.skip(i as int), b@.skip(i as int)),
        decreases a_len - i,
    {
        if i == b_len {
            return false;
        }
        if i == a_len {
            return true;
        }
        let ca = a.get_char(i);
        let cb = b.get_char(i);
        if (ca as u32) < (cb as u32) {
            return true;
        }
        if (ca as u32) > (cb as u32) {
            return false;
        }
        proof {
            assert(a@.skip(i as int).drop_first() =~= a@.skip(i + 1 as int));
            assert(b@.skip(i as int).drop_first() =~= b@.skip(i + 1 as int));
        }
        i = i + 1;
    }
}

/// Whether `a` and `b` hold the same characters.
pub fn str_eq(a: &str, b: &str) -> (r: bool)
    ensures
        r == (a@ == b@),
{
    let a_len = a.unicode_len();
    let b_len = b.unicode_len();
    if a_len != b_len {
        return false;
    }
    let mut i: usize = 0;
    while i < a_len
        invariant
            a_len == a@.len(),
            a_len == b@.len(),
            i <= a_len,
            forall|j: int| 0 <= j < i ==> a@[j] == b@[j],
        decreases a_len - i,
    {
        if (a.get_char(i) as u32) != (b.get_char(i) as u32) {
            return false;
        }
        i = i + 1;
    }
    proof {
        assert(a@ =~= b@);
    }
    true
}

// ------------------------------------------------------------------
// Object lookup and insertion
// ------------------------------------------------------------------

/// The value at `key` in `fields`, taking the first match.
pub open spec fn spec_obj_lookup(fields: Seq<(String, JsonValue)>, key: Seq<char>) -> Option<
    JsonValue,
>
    decreases fields.len(),
{
    if fields.len() == 0 {
        Option::None
    } else if fields[0].0@ == key {
        Option::Some(fields[0].1)
    } else {
        spec_obj_lookup(fields.drop_first(), key)
    }
}

/// `fields` with `(key, value)` inserted in ascending key order, replacing an
/// equal key; the order `BTreeMap`-backed JSON objects keep.
pub open spec fn spec_obj_insert(
    fields: Seq<(String, JsonValue)>,
    key: String,
    value: JsonValue,
) -> Seq<(String, JsonValue)>
    decreases fields.len(),
{
    if fields.len() == 0 {
        seq![(key, value)]
    } else if spec_str_lt(key@, fields[0].0@) {
        seq![(key, value)] + fields
    } else if key@ == fields[0].0@ {
        seq![(key, value)] + fields.drop_first()
    } else {
        seq![fields[0]] + spec_obj_insert(fields.drop_first(), key, value)
    }
}

/// Inserts `(key, value)` into the object, keeping keys in ascending order
/// and replacing an equal key, as a map would.
pub fn json_object_insert(obj: JsonObject, key: String, value: JsonValue) -> (r: JsonObject)
    ensures
        r@ == spec_obj_insert(obj@, key, value),
    decreases obj@.len(),
{
    let mut obj = obj;
    if obj.len() == 0 {
        obj.push((key, value));
        proof {
            assert(obj@ =~= spec_obj_insert(Seq::empty(), key, value));
        }
        obj
    } else if str_lt(key.as_str(), obj[0].0.as_str()) {
        let ghost fields0 = obj@;
        obj.insert(0, (key, value));
        proof {
            assert(obj@ =~= seq![(key, value)] + fields0);
        }
        obj
    } else if str_eq(key.as_str(), obj[0].0.as_str()) {
        let ghost fields0 = obj@;
        let _ = obj.remove(0);
        obj.insert(0, (key, value));
        proof {
            assert(obj@ =~= seq![(key, value)] + fields0.drop_first());
        }
        obj
    } else {
        let ghost fields0 = obj@;
        let head = obj.remove(0);
        proof {
            assert(obj@ =~= fields0.drop_first());
        }
        let mut rest = json_object_insert(obj, key, value);
        rest.insert(0, head);
        proof {
            assert(rest@ =~= seq![fields0[0]] + spec_obj_insert(fields0.drop_first(), key, value));
        }
        rest
    }
}

// ------------------------------------------------------------------
// Parsing text: the serde_json boundary
// ------------------------------------------------------------------

#[verifier::external_type_specification]
#[verifier::external_body]
pub struct ExSerdeValue(serde_json::Value);

/// What `serde_json::from_str::<serde_json::Value>` yields on `text`: `Err`
/// carries the diagnostic message. The result depends on the text alone.
pub uninterp spec fn serde_json_parse(text: Seq<char>) -> Result<serde_json::Value, String>;

/// The library's model of a parsed `serde_json::Value`: the same tree over
/// plain values. The model depends on the value alone.
pub uninterp spec fn serde_value_model(v: serde_json::Value) -> JsonValue;

/// Relies on `serde_json::from_str::<serde_json::Value>`: parses the text as
/// JSON, or reports a diagnostic; the outcome is a function of the text.
#[verifier::external_body]
fn serde_parse_value(text: &str) -> (r: Result<serde_json::Value, String>)
    ensures
        r == serde_json_parse(text@),
{
    match serde_json::from_str::<serde_json::Value>(text) {
        Ok(v) => Ok(v),
        Err(e) => Err(e.to_string()),
    }
}

/// Relies on `serde_json::Value` and `serde_json::Number` (`as_u64`, `as_i64`,
/// `to_string`): each variant is moved, one for one, into the library's model;
/// a number is a non-negative integer, a negative integer, or its literal text.
#[verifier::external_body]
fn serde_value_to_json(v: serde_json::Value) -> (r: JsonValue)
    ensures
        r == serde_value_model(v),
{
    match v {
        serde_json::Value::Null => JsonValue::Null,
        serde_json::Value::Bool(b) => JsonValue::Bool(b),
        serde_json::Value::Number(n) => match (n.as_u64(), n.as_i64()) {
            (Some(u), _) => JsonValue::UInt(u),
            (_, Some(i)) => JsonValue::Int(i),
            _ => JsonValue::NumText(n.to_string()),
        },
        serde_json::Value::String(s) => JsonValue::Str(s),
        serde_json::Value::Array(a) => JsonValue::Arr(a.into_iter().map(serde_value_to_json).collect()),
        serde_json::Value::Object(m) => JsonValue::Obj(
            m.into_iter().map(|(k, w)| (k, serde_value_to_json(w))).collect(),
        ),
    }
}

/// What parsing JSON text into the library's model yields.
pub open spec fn spec_parse_json(text: Seq<char>) -> Result<JsonValue, String> {
    match serde_json_parse(text) {
        Ok(v) => Ok(serde_value_model(v)),
        Err(e) => Err(e),
    }
}

/// Parses JSON text into the library's model of the value, or reports the
/// parser's diagnostic message.
pub fn parse_json(text: &str) -> (r: Result<JsonValue, String>)
    ensures
        r == spec_parse_json(text@),
{
    match serde_parse_value(text) {
        Ok(v) => Ok(serde_value_to_json(v)),
        Err(e) => Err(e),
    }
}

} // verus!
