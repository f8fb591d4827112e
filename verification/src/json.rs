use vstd::prelude::*;

verus! {

/// What the JSON document `text` holds at the JSON Pointer `pointer`
/// (RFC 6901), as serde_json reads them: `None` when `text` is not JSON or
/// nothing is there, `Some(Some(s))` when a string `s` is there, and
/// `Some(None)` when some other value is there.
pub uninterp spec fn json_pointer_value(text: Seq<char>, pointer: Seq<char>) -> Option<
    Option<Seq<char>>,
>;

/// The view of a lookup result.
pub open spec fn lookup_view(r: Option<Option<String>>) -> Option<Option<Seq<char>>> {
    match r {
        None => None,
        Some(None) => Some(None),
        Some(Some(s)) => Some(Some(s@)),
    }
}

/// The string at `pointer` in `text`, if a string is there.
pub open spec fn json_str(text: Seq<char>, pointer: Seq<char>) -> Option<Seq<char>> {
    match json_pointer_value(text, pointer) {
        Some(Some(s)) => Some(s),
        _ => None,
    }
}

/// Parses `text` with `serde_json::from_str::<serde_json::Value>` and looks
/// `pointer` up with `serde_json::Value::pointer`, telling a string apart from
/// other values with `Value::as_str`. The contract only names the result
/// (`json_pointer_value`): JSON parsing is left to serde_json and not restated.
#[verifier::external_body]
pub(crate) fn json_lookup(text: &str, pointer: &str) -> (r: Option<Option<String>>)
    ensures
        lookup_view(r) == json_pointer_value(text@, pointer@),
{
    let v: serde_json::Value = serde_json::from_str(text).ok()?;
    let found = v.pointer(pointer)?;
    Some(found.as_str().map(|s| s.to_string()))
}

/// The string at `pointer` in `text`, if a string is there.
pub fn json_string(text: &str, pointer: &str) -> (r: Option<String>)
    ensures
        match r {
            Some(s) => json_str(text@, pointer@) == Some(s@),
            None => json_str(text@, pointer@) is None,
        },
{
    match json_lookup(text, pointer) {
        Some(Some(s)) => Some(s),
        _ => None,
    }
}

/// What serde_json reads at `pointer` in `text` as an unsigned integer
/// (`Value::as_u64`): `None` when `text` is not JSON or nothing is there,
/// `Some(Some(n))` when a whole number that fits in a `u64` is there, and
/// `Some(None)` when some other value is there.
pub uninterp spec fn json_pointer_u64(text: Seq<char>, pointer: Seq<char>) -> Option<Option<u64>>;

/// What serde_json reads at `pointer` in `text` as a boolean
/// (`Value::as_bool`), in the same three cases.
pub uninterp spec fn json_pointer_bool(text: Seq<char>, pointer: Seq<char>) -> Option<Option<bool>>;

/// The length of the array serde_json reads at `pointer` in `text`
/// (`Value::as_array`), in the same three cases.
pub uninterp spec fn json_pointer_array_len(text: Seq<char>, pointer: Seq<char>) -> Option<
    Option<nat>,
>;

/// Parses `text` with `serde_json::from_str::<serde_json::Value>`, looks
/// `pointer` up with `Value::pointer` and reads what is there with
/// `Value::as_u64`. The contract only names the result.
#[verifier::external_body]
pub(crate) fn json_u64_lookup(text: &str, pointer: &str) -> (r: Option<Option<u64>>)
    ensures
        r == json_pointer_u64(text@, pointer@),
{
    let v: serde_json::Value = serde_json::from_str(text).ok()?;
    let found = v.pointer(pointer)?;
    Some(found.as_u64())
}

/// As `json_u64_lookup`, reading what is there with `Value::as_bool`.
#[verifier::external_body]
pub(crate) fn json_bool_lookup(text: &str, pointer: &str) -> (r: Option<Option<bool>>)
    ensures
        r == json_pointer_bool(text@, pointer@),
{
    let v: serde_json::Value = serde_json::from_str(text).ok()?;
    let found = v.pointer(pointer)?;
    Some(found.as_bool())
}

/// As `json_u64_lookup`, reading the length of the array there with
/// `Value::as_array`.
#[verifier::external_body]
pub(crate) fn json_array_len_lookup(text: &str, pointer: &str) -> (r: Option<Option<usize>>)
    ensures
        match r {
            None => json_pointer_array_len(text@, pointer@) is None,
            Some(None) => json_pointer_array_len(text@, pointer@) == Some(None::<nat>),
            Some(Some(n)) => json_pointer_array_len(text@, pointer@) == Some(Some(n as nat)),
        },
{
    let v: serde_json::Value = serde_json::from_str(text).ok()?;
    let found = v.pointer(pointer)?;
    Some(found.as_array().map(|a| a.len()))
}

} // verus!
