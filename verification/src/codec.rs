use vstd::prelude::*;
use toml::Value;
use crate::value::{TomlValue, TomlTable, Model, m_wf, vmodel};

verus! {

#[verifier::external_type_specification]
#[verifier::external_body]
pub struct ExTomlValue(toml::Value);

/// The model of the document that the TOML parser yields for these bytes,
/// or `None` where they do not parse as a TOML document.
pub uninterp spec fn toml_doc(bytes: Seq<u8>) -> Option<Model>;

/// The text that the TOML serializer renders for a value of this model, or
/// `None` where the value cannot be laid out as a TOML document.
pub uninterp spec fn toml_text(v: Model) -> Option<Seq<char>>;

/// Carries a parsed `toml::Value` over into the library's own value, one
/// variant at a time. Relies on the variants of `toml::Value`, with a float
/// or a datetime carried as its displayed text; the tables behind
/// `toml::value::Table` map each key to one value, so the result is
/// well-formed.
#[verifier::external_body]
fn of_toml(v: toml::Value) -> (r: TomlValue)
    ensures
        m_wf(vmodel(r)),
{
    match v {
        Value::String(s) => TomlValue::Str(s),
        Value::Integer(i) => TomlValue::Int(i),
        Value::Boolean(b) => TomlValue::Bool(b),
        Value::Float(x) => TomlValue::Flo(x.to_string()),
        Value::Datetime(d) => TomlValue::Date(d.to_string()),
        Value::Array(a) => TomlValue::Arr(a.into_iter().map(of_toml).collect()),
        Value::Table(t) => TomlValue::Tab(
            TomlTable { entries: t.into_iter().map(|(k, w)| (k, of_toml(w))).collect() },
        ),
    }
}

/// Carries a library value back into a `toml::Value`, one variant at a time.
/// Relies on the variants of `toml::Value`; the text held for a float or a
/// datetime is read back by `str::parse` and `toml::value::Datetime`'s
/// `FromStr`.
#[verifier::external_body]
fn to_toml(v: TomlValue) -> toml::Value {
    match v {
        TomlValue::Str(s) => Value::String(s),
        TomlValue::Int(i) => Value::Integer(i),
        TomlValue::Bool(b) => Value::Boolean(b),
        TomlValue::Flo(t) => Value::Float(t.parse().unwrap_or_default()),
        TomlValue::Date(t) => match t.parse::<toml::value::Datetime>() {
            Ok(d) => Value::Datetime(d),
            Err(_) => Value::String(t),
        },
        TomlValue::Arr(a) => Value::Array(a.into_iter().map(to_toml).collect()),
        TomlValue::Tab(t) => Value::Table(
            t.entries.into_iter().map(|(k, w)| (k, to_toml(w))).collect(),
        ),
    }
}

/// Parses a TOML document. Relies on `toml::from_slice`: the parse is a
/// function of the bytes alone, and the tables it yields map each key to
/// one value. The result need not be a table: a document whose sole
/// top-level key is the crate's private datetime marker parses as a bare
/// datetime, so callers that need a table test for one.
/// The parse and the conversion recurse on nesting depth, so a
/// pathologically nested document can exhaust the stack.
#[verifier::external_body]
pub fn parse_toml(bytes: &[u8]) -> (r: Option<TomlValue>)
    ensures
        (r is Some) == (toml_doc(bytes@) is Some),
        r matches Some(v) ==> Some(v@) == toml_doc(bytes@) && m_wf(v@),
{
    match toml::from_slice::<toml::Value>(bytes) {
        Ok(v) => Some(of_toml(v)),
        Err(_) => None,
    }
}

/// Renders a value as TOML text. Relies on `toml::to_string`: the rendering
/// is a function of the value alone. The serializer and the conversion
/// recurse on nesting depth, so a pathologically nested value can exhaust
/// the stack.
#[verifier::external_body]
pub fn render_toml(v: TomlValue) -> (r: Option<String>)
    ensures
        (r is Some) == (toml_text(v@) is Some),
        r matches Some(s) ==> Some(s@) == toml_text(v@),
{
    toml::to_string(&to_toml(v)).ok()
}

} // verus!
