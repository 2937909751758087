//! The JSON values that the two protocols exchange, and the framing helpers
//! used to read and write them.
use vstd::prelude::*;
use crate::text::push_char;

verus! {

/// A JSON value as the protocol logic reads it.
///
/// Numbers keep their value when they are integers that fit in 64 bits; any
/// other number is kept only as being a number.
#[derive(Debug, PartialEq)]
pub enum Json {
    Null,
    Bool(bool),
    /// A non-negative integer.
    UInt(u64),
    /// A negative integer.
    NegInt(i64),
    /// A number with a fraction or an exponent, or out of the 64-bit range.
    Float,
    Str(String),
    Array(Vec<Json>),
    /// The members of an object, keys unique, in the order the parser gave them.
    Object(Vec<(String, Json)>),
}

/// The value of the first member of `ms` whose key is `key`.
pub open spec fn lookup(ms: Seq<(String, Json)>, key: Seq<char>) -> Option<Json>
    decreases ms.len(),
{
    if ms.len() == 0 {
        None
    } else if ms[0].0@ == key {
        Some(ms[0].1)
    } else {
        lookup(ms.subrange(1, ms.len() as int), key)
    }
}

impl Json {
    /// The member `key` of an object; `None` for a missing member or a value
    /// that is not an object.
    pub open spec fn field(self, key: Seq<char>) -> Option<Json> {
        match self {
            Json::Object(ms) => lookup(ms@, key),
            _ => None,
        }
    }

    /// Looks up the member `key` of an object.
    pub fn get(&self, key: &str) -> (r: Option<&Json>)
        ensures
            opt_ref(r) == self.field(key@),
    {
        match self {
            Json::Object(ms) => match position(ms, key) {
                Some(k) => Some(&ms[k].1),
                None => None,
            },
            _ => None,
        }
    }

    /// Takes the member `key` out of an object, giving up the rest.
    pub fn take(self, key: &str) -> (r: Option<Json>)
        ensures
            r == self.field(key@),
    {
        match self {
            Json::Object(ms) => {
                let mut ms = ms;
                match position(&ms, key) {
                    Some(k) => {
                        let (_, v) = ms.remove(k);
                        Some(v)
                    },
                    None => None,
                }
            },
            _ => None,
        }
    }
}

/// The index of the first member of `ms` whose key is `key`.
fn position(ms: &Vec<(String, Json)>, key: &str) -> (r: Option<usize>)
    ensures
        match r {
            Some(k) => k < ms@.len() && lookup(ms@, key@) == Some(ms@[k as int].1),
            None => lookup(ms@, key@) is None,
        },
{
    let wanted = key.to_owned();
    let mut i: usize = 0;
    assert(ms@.subrange(0, ms@.len() as int) =~= ms@);
    while i < ms.len()
        invariant
            i <= ms@.len(),
            wanted@ == key@,
            lookup(ms@, key@) == lookup(ms@.subrange(i as int, ms@.len() as int), key@),
        decreases ms.len() - i,
    {
        let ghost rest = ms@.subrange(i as int, ms@.len() as int);
        assert(rest.subrange(1, rest.len() as int) =~= ms@.subrange(i + 1, ms@.len() as int));
        assert(rest[0] == ms@[i as int]);
        if ms[i].0 == wanted {
            return Some(i);
        }
        i = i + 1;
    }
    None
}

/// A member that must be present and hold a string.
pub open spec fn req_str(j: Option<Json>) -> Option<String> {
    match j {
        Some(Json::Str(t)) => Some(t),
        _ => None,
    }
}

/// A member that may be absent or null, or else holds a string; `None` when
/// it holds anything else.
pub open spec fn opt_str(j: Option<Json>) -> Option<Option<String>> {
    match j {
        None => Some(None),
        Some(Json::Null) => Some(None),
        Some(Json::Str(t)) => Some(Some(t)),
        _ => None,
    }
}

/// A member that must be present and hold an integer below `bound`.
pub open spec fn req_uint(j: Option<Json>, bound: int) -> Option<u64> {
    match j {
        Some(Json::UInt(n)) => if n < bound {
            Some(n)
        } else {
            None
        },
        _ => None,
    }
}

/// A member that may be absent or null, or else holds an integer below
/// `bound`; `None` when it holds anything else.
pub open spec fn opt_uint(j: Option<Json>, bound: int) -> Option<Option<u64>> {
    match j {
        None => Some(None),
        Some(Json::Null) => Some(None),
        Some(Json::UInt(n)) => if n < bound {
            Some(Some(n))
        } else {
            None
        },
        _ => None,
    }
}

/// Reads a member that must hold a string.
pub fn required_str(j: Option<&Json>) -> (r: Option<String>)
    ensures
        r == req_str(opt_ref(j)),
{
    match j {
        Some(Json::Str(t)) => Some(t.clone()),
        _ => None,
    }
}

/// Reads a member that may be absent or null, or else holds a string.
pub fn optional_str(j: Option<&Json>) -> (r: Option<Option<String>>)
    ensures
        r == opt_str(opt_ref(j)),
{
    match j {
        None => Some(None),
        Some(Json::Null) => Some(None),
        Some(Json::Str(t)) => Some(Some(t.clone())),
        _ => None,
    }
}

/// Reads a member that must hold an integer below `bound`.
pub fn required_uint(j: Option<&Json>, bound: u128) -> (r: Option<u64>)
    ensures
        r == req_uint(opt_ref(j), bound as int),
{
    match j {
        Some(Json::UInt(n)) => if (*n as u128) < bound {
            Some(*n)
        } else {
            None
        },
        _ => None,
    }
}

/// Reads a member that may be absent or null, or else holds an integer below
/// `bound`.
pub fn optional_uint(j: Option<&Json>, bound: u128) -> (r: Option<Option<u64>>)
    ensures
        r == opt_uint(opt_ref(j), bound as int),
{
    match j {
        None => Some(None),
        Some(Json::Null) => Some(None),
        Some(Json::UInt(n)) => if (*n as u128) < bound {
            Some(Some(*n))
        } else {
            None
        },
        _ => None,
    }
}

/// The deepest nesting of arrays and objects that is rebuilt.
pub const MAX_NESTING: usize = 128;

#[verifier::external_type_specification]
#[verifier::external_body]
pub struct ExJsonValue(serde_json::Value);

/// One level of a parsed document: the kind of a value, with its children
/// still in the parser's representation.
enum ValueShape {
    Null,
    Bool(bool),
    UInt(u64),
    NegInt(i64),
    Float,
    Str(String),
    Array(Vec<serde_json::Value>),
    Object(Vec<(String, serde_json::Value)>),
}

/// Relies on the variants of serde_json::Value and on serde_json::Number's
/// as_u64 and as_i64 to tell integers apart; the members of an object come in
/// the order of serde_json::Map::iter.
#[verifier::external_body]
fn shape_of(v: &serde_json::Value) -> ValueShape {
    match v {
        serde_json::Value::Null => ValueShape::Null,
        serde_json::Value::Bool(b) => ValueShape::Bool(*b),
        serde_json::Value::Number(n) => match (n.as_u64(), n.as_i64()) {
            (Some(u), _) => ValueShape::UInt(u),
            (None, Some(i)) => ValueShape::NegInt(i),
            _ => ValueShape::Float,
        },
        serde_json::Value::String(t) => ValueShape::Str(t.clone()),
        serde_json::Value::Array(a) => ValueShape::Array(a.clone()),
        serde_json::Value::Object(m) => ValueShape::Object(m.iter().map(|(k, x)| (k.clone(), x.clone())).collect()),
    }
}

/// Rebuilds a parsed value as a `Json`, descending at most `depth` levels of
/// arrays and objects.
fn json_from_value(v: &serde_json::Value, depth: usize) -> (r: Option<Json>)
    decreases depth,
{
    match shape_of(v) {
        ValueShape::Null => Some(Json::Null),
        ValueShape::Bool(b) => Some(Json::Bool(b)),
        ValueShape::UInt(n) => Some(Json::UInt(n)),
        ValueShape::NegInt(n) => Some(Json::NegInt(n)),
        ValueShape::Float => Some(Json::Float),
        ValueShape::Str(t) => Some(Json::Str(t)),
        ValueShape::Array(items) => {
            if depth == 0 {
                return None;
            }
            let mut out: Vec<Json> = Vec::new();
            let mut i: usize = 0;
            while i < items.len()
                invariant
                    i <= items@.len(),
                    depth > 0,
                decreases items.len() - i,
            {
                match json_from_value(&items[i], depth - 1) {
                    Some(j) => out.push(j),
                    None => return None,
                }
                i = i + 1;
            }
            Some(Json::Array(out))
        },
        ValueShape::Object(members) => {
            if depth == 0 {
                return None;
            }
            let mut out: Vec<(String, Json)> = Vec::new();
            let mut i: usize = 0;
            while i < members.len()
                invariant
                    i <= members@.len(),
                    depth > 0,
                decreases members.len() - i,
            {
                match json_from_value(&members[i].1, depth - 1) {
                    Some(j) => out.push((members[i].0.clone(), j)),
                    None => return None,
                }
                i = i + 1;
            }
            Some(Json::Object(out))
        },
    }
}

/// The document that the whole text `s` holds, as serde_json parses it, each
/// value rebuilt one for one as a `Json`; `None` when `s` is not one JSON
/// document.
pub uninterp spec fn parsed(s: Seq<char>) -> Option<Json>;

/// Relies on serde_json::from_str: parses a whole text as one JSON document,
/// which is rebuilt one for one as a `Json` (serde_json nests at most 127
/// arrays and objects, within the rebuilding's reach). The result depends on
/// the text alone.
#[verifier::external_body]
pub fn parse_json(text: &str) -> (r: Option<Json>)
    ensures
        r == parsed(text@),
{
    match serde_json::from_str::<serde_json::Value>(text) {
        Ok(v) => json_from_value(&v, MAX_NESTING),
        Err(_) => None,
    }
}

/// The lower-case hexadecimal digit for `d`.
pub open spec fn hex_digit(d: nat) -> char {
    if d < 10 { digit(d) } else if d == 10 { 'a' } else if d == 11 { 'b' } else if d == 12 { 'c' }
    else if d == 13 { 'd' } else if d == 14 { 'e' } else { 'f' }
}

/// How character `c` is written inside a JSON string literal: quote and
/// backslash escaped, control characters by their short escape or as
/// `\u00XX`, every other character as itself.
pub open spec fn escaped_char(c: char) -> Seq<char> {
    let n = c as u32;
    if c == '"' {
        seq!['\\', '"']
    } else if c == '\\' {
        seq!['\\', '\\']
    } else if n == 8 {
        seq!['\\', 'b']
    } else if n == 9 {
        seq!['\\', 't']
    } else if n == 10 {
        seq!['\\', 'n']
    } else if n == 12 {
        seq!['\\', 'f']
    } else if n == 13 {
        seq!['\\', 'r']
    } else if n < 32 {
        seq!['\\', 'u', '0', '0', hex_digit((n / 16) as nat), hex_digit((n % 16) as nat)]
    } else {
        seq![c]
    }
}

/// The characters of `s`, each written as inside a JSON string literal.
pub open spec fn escaped(s: Seq<char>) -> Seq<char>
    decreases s.len(),
{
    if s.len() == 0 {
        Seq::empty()
    } else {
        escaped(s.drop_last()) + escaped_char(s.last())
    }
}

/// The JSON string literal for `s`, as serde_json writes it.
pub open spec fn quoted(s: Seq<char>) -> Seq<char> {
    seq!['"'] + escaped(s) + seq!['"']
}

/// Relies on serde_json::to_string: writes `s` as a JSON string literal,
/// escaped as its format_escaped_str does. Writing a string into memory
/// cannot fail.
#[verifier::external_body]
pub fn quote(s: &str) -> (r: String)
    ensures
        r@ == quoted(s@),
{
    serde_json::to_string(s).unwrap_or_default()
}

/// The decimal digit for `d`.
pub open spec fn digit(d: nat) -> char {
    if d == 0 { '0' } else if d == 1 { '1' } else if d == 2 { '2' } else if d == 3 { '3' }
    else if d == 4 { '4' } else if d == 5 { '5' } else if d == 6 { '6' } else if d == 7 { '7' }
    else if d == 8 { '8' } else { '9' }
}

/// `n` written in decimal, without leading zeros.
pub open spec fn decimal(n: nat) -> Seq<char>
    decreases n,
{
    if n < 10 {
        seq![digit(n)]
    } else {
        decimal(n / 10).push(digit(n % 10))
    }
}

/// The decimal digit character for `d`.
pub fn digit_char(d: u64) -> (r: char)
    requires
        d < 10,
    ensures
        r == digit(d as nat),
{
    if d == 0 { '0' } else if d == 1 { '1' } else if d == 2 { '2' } else if d == 3 { '3' }
    else if d == 4 { '4' } else if d == 5 { '5' } else if d == 6 { '6' } else if d == 7 { '7' }
    else if d == 8 { '8' } else { '9' }
}

/// Appends the decimal digits of `n` to `out`.
fn push_decimal(n: u64, out: &mut String)
    ensures
        final(out)@ == old(out)@ + decimal(n as nat),
    decreases n,
{
    if n >= 10 {
        push_decimal(n / 10, out);
    }
    push_char(out, digit_char(n % 10));
    assert(final(out)@ =~= old(out)@ + decimal(n as nat));
}

/// The decimal digits of `n`, without leading zeros.
pub fn decimal_text(n: u64) -> (r: String)
    ensures
        r@ == decimal(n as nat),
{
    let mut r = String::new();
    push_decimal(n, &mut r);
    assert(r@ =~= decimal(n as nat));
    r
}

/// The value behind an optional reference.
pub open spec fn opt_ref(r: Option<&Json>) -> Option<Json> {
    match r {
        Some(j) => Some(*j),
        None => None,
    }
}

} // verus!
