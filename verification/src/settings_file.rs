use vstd::prelude::*;

verus! {

/// A TOML value; the library carries it through without looking inside.
#[verifier::external_type_specification]
#[verifier::external_body]
pub struct ExTomlValue(toml::Value);

/// The document `toml::from_str::<toml::Value>` reads from `text`, if it
/// reads.
pub uninterp spec fn toml_parsed(text: Seq<char>) -> Option<toml::Value>;

/// The entries of `v` when it is a table (`toml::Value::Table`), by key.
pub uninterp spec fn toml_entries(v: toml::Value) -> Option<Map<Seq<char>, toml::Value>>;

/// The text `toml::to_string_pretty` writes for `v`, if it does not fail.
pub uninterp spec fn toml_pretty(v: toml::Value) -> Option<Seq<char>>;

/// `toml::from_str::<toml::Value>`.
#[verifier::external_body]
fn parse_toml(text: &str) -> (r: Option<toml::Value>)
    ensures
        r == toml_parsed(text@),
{
    toml::from_str(text).ok()
}

/// `toml::Value::Table` holding a new, empty `toml::Table`.
#[verifier::external_body]
fn empty_toml_table() -> (v: toml::Value)
    ensures
        toml_entries(v) == Some(Map::<Seq<char>, toml::Value>::empty()),
{
    toml::Value::Table(toml::Table::new())
}

/// `toml::Table::insert` on `doc` when it is a table: `key` is bound to
/// `value`, replacing what it was bound to. Any other value is left as it is.
#[verifier::external_body]
fn toml_insert(doc: &mut toml::Value, key: &str, value: toml::Value)
    ensures
        match toml_entries(*old(doc)) {
            Some(m) => toml_entries(*final(doc)) == Some(m.insert(key@, value)),
            None => *final(doc) == *old(doc),
        },
{
    if let toml::Value::Table(t) = doc {
        t.insert(key.to_string(), value);
    }
}

/// `toml::Table::remove` on `doc` when it is a table: `key` is unbound. Any
/// other value is left as it is.
#[verifier::external_body]
fn toml_remove(doc: &mut toml::Value, key: &str)
    ensures
        match toml_entries(*old(doc)) {
            Some(m) => toml_entries(*final(doc)) == Some(m.remove(key@)),
            None => *final(doc) == *old(doc),
        },
{
    if let toml::Value::Table(t) = doc {
        t.remove(key);
    }
}

/// `toml::to_string_pretty`; the contract only names the text.
#[verifier::external_body]
fn toml_pretty_text(doc: &toml::Value) -> (r: Option<String>)
    ensures
        match r {
            Some(s) => toml_pretty(*doc) == Some(s@),
            None => toml_pretty(*doc) is None,
        },
{
    toml::to_string_pretty(doc).ok()
}

pub open spec fn text_of(r: Option<String>) -> Option<Seq<char>> {
    match r {
        Some(s) => Some(s@),
        None => None,
    }
}

/// The document a settings file held: what its text reads as; nothing when
/// there was no file.
pub open spec fn document_before(current: Option<Seq<char>>) -> Option<toml::Value> {
    match current {
        Some(t) => toml_parsed(t),
        None => None,
    }
}

/// The settings a file held, by key: those of the table it reads as, none
/// when there was no file or it does not read; `None` when it reads as
/// something other than a table.
pub open spec fn settings_before(current: Option<Seq<char>>) -> Option<Map<Seq<char>, toml::Value>> {
    match document_before(current) {
        Some(d) => toml_entries(d),
        None => Some(Map::empty()),
    }
}

/// The new text of the settings file `config.toml` with `key` set to
/// `value`, every other key kept: the pretty TOML text of a table holding the
/// file's settings (none when `current` is absent or does not read) with
/// `key` bound to `value`. `None` when that text cannot be written. A
/// document that is not a table is written back unchanged.
pub fn with_setting(current: Option<&str>, key: &str, value: toml::Value) -> (r: Option<String>)
    ensures
        match settings_before(
            match current {
                Some(t) => Some(t@),
                None => None,
            },
        ) {
            Some(m) => exists|doc: toml::Value|
                #[trigger] toml_entries(doc) == Some(m.insert(key@, value)) && text_of(r)
                    == toml_pretty(doc),
            None => text_of(r) == toml_pretty(
                document_before(
                    match current {
                        Some(t) => Some(t@),
                        None => None,
                    },
                )->0,
            ),
        },
{
    let mut doc = match current {
        Some(t) => match parse_toml(t) {
            Some(d) => d,
            None => empty_toml_table(),
        },
        None => empty_toml_table(),
    };
    let ghost before = doc;
    toml_insert(&mut doc, key, value);
    let r = toml_pretty_text(&doc);
    proof {
        if toml_entries(before) is Some {
            assert(toml_entries(doc) == Some(toml_entries(before)->0.insert(key@, value)));
        }
    }
    r
}

/// The new text of the settings file `config.toml` without `key`: `None`
/// when `current` does not read as TOML (the file is then left alone) or the
/// text cannot be written; else the pretty TOML text of its table with `key`
/// removed, every other key kept. A document that is not a table is written
/// back unchanged.
pub fn without_setting(current: &str, key: &str) -> (r: Option<String>)
    ensures
        match toml_parsed(current@) {
            None => r is None,
            Some(d) => match toml_entries(d) {
                Some(m) => exists|doc: toml::Value|
                    #[trigger] toml_entries(doc) == Some(m.remove(key@)) && text_of(r)
                        == toml_pretty(doc),
                None => text_of(r) == toml_pretty(d),
            },
        },
{
    let mut doc = match parse_toml(current) {
        Some(d) => d,
        None => {
            return None;
        },
    };
    toml_remove(&mut doc, key);
    toml_pretty_text(&doc)
}

} // verus!
