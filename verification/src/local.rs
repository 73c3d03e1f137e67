//! The commands that work on the local database: the bank filter of the list
//! commands, and the metadata commands' input, confirmations and validation.

use vstd::prelude::*;
use vstd::string::*;
use crate::config::{Config, ConfigError, bank_keys, resolved_bank_index};
use crate::text::{concat2, join_spec, str_eq};
use crate::time::text_result;

verus! {

/// Resolves `--bank`, when given, to the name and country of the configured
/// bank, which the list commands filter by.
pub fn resolve_filter_bank(config: &Config, bank_arg: Option<&str>) -> (res: Result<Option<(String, String)>, ConfigError>)
    ensures
        match bank_arg {
            None => res matches Ok(None),
            Some(key) => match resolved_bank_index(*config, Some(key@)) {
                Some(i) => res matches Ok(Some(pair)) && pair.0@ == config.bank@[i].1.name@ && pair.1@
                    == config.bank@[i].1.country@,
                None => res matches Err(ConfigError::BankNotFound { name: m, available: a }) && m@ == key@ && a@
                    == join_spec(bank_keys(*config), ", "@),
            },
        },
{
    match bank_arg {
        Some(key) => match config.resolve_bank(Some(key)) {
            Ok((_name, bank)) => Ok(Some((bank.name.clone(), bank.country.clone()))),
            Err(e) => Err(e),
        },
        None => Ok(None),
    }
}

/// Where the JSON text of a metadata or schema argument is read from.
pub enum JsonSource {
    /// Standard input.
    Stdin,
    /// The file at this path.
    File(String),
    /// The argument itself.
    Inline(String),
}

/// Where to read the JSON of an argument from: standard input for `-` or
/// no argument, the file it names when such a file exists (`exists` says
/// whether it does), else the argument itself.
pub fn json_source(arg: Option<String>, exists: bool) -> (res: JsonSource)
    ensures
        match arg {
            None => res is Stdin,
            Some(s) => if s@ == "-"@ {
                res is Stdin
            } else if exists {
                res matches JsonSource::File(p) && p@ == s@
            } else {
                res matches JsonSource::Inline(t) && t@ == s@
            },
        },
{
    match arg {
        Some(s) => {
            if str_eq(s.as_str(), "-") {
                JsonSource::Stdin
            } else if exists {
                JsonSource::File(s)
            } else {
                JsonSource::Inline(s)
            }
        },
        None => JsonSource::Stdin,
    }
}

/// Whether a metadata command must ask before it goes on: when it would
/// replace or delete something that exists and `--yes` was not given.
pub fn needs_confirmation(existing: bool, yes: bool) -> (res: bool)
    ensures
        res == (existing && !yes),
{
    existing && !yes
}

/// The questions a metadata command asks before it goes on.
#[derive(Clone, Copy, Debug, PartialEq, Eq, Structural)]
pub enum Confirmation {
    /// Before a schema replaces the stored one.
    ReplaceSchema,
    /// Before the stored schema is deleted.
    DeleteSchema,
    /// Before metadata replaces a record's metadata.
    ReplaceMetadata,
    /// Before a record's metadata is deleted.
    DeleteMetadata,
}

impl Confirmation {
    /// The question's text.
    pub open spec fn prompt_spec(self) -> Seq<char> {
        match self {
            Confirmation::ReplaceSchema =>
                "Warning: a schema is already set. All future metadata must\nconform to the new schema. Existing metadata may become\ninvalid.\n\nOverwrite? [y/N] "@,
            Confirmation::DeleteSchema =>
                "Warning: deleting the schema will remove validation for future metadata.\nContinue? [y/N] "@,
            Confirmation::ReplaceMetadata => "Warning: metadata already exists for this record. Overwrite? [y/N] "@,
            Confirmation::DeleteMetadata => "Warning: this will permanently delete the metadata. Continue? [y/N] "@,
        }
    }

    /// The question's text.
    pub fn prompt(&self) -> (res: &'static str)
        ensures
            res@ == self.prompt_spec(),
    {
        match self {
            Confirmation::ReplaceSchema =>
                "Warning: a schema is already set. All future metadata must\nconform to the new schema. Existing metadata may become\ninvalid.\n\nOverwrite? [y/N] ",
            Confirmation::DeleteSchema =>
                "Warning: deleting the schema will remove validation for future metadata.\nContinue? [y/N] ",
            Confirmation::ReplaceMetadata => "Warning: metadata already exists for this record. Overwrite? [y/N] ",
            Confirmation::DeleteMetadata => "Warning: this will permanently delete the metadata. Continue? [y/N] ",
        }
    }
}

/// Whether `c` has the Unicode property White_Space, as `char::is_whitespace`
/// asks: the controls U+0009 to U+000D, the space, U+0085, the no-break
/// space, U+1680, U+2000 to U+200A, the line and paragraph separators,
/// U+202F, U+205F and U+3000.
pub open spec fn is_white_space(c: char) -> bool {
    let n = c as u32;
    ||| 0x9 <= n <= 0xd
    ||| n == 0x20
    ||| n == 0x85
    ||| n == 0xa0
    ||| n == 0x1680
    ||| 0x2000 <= n <= 0x200a
    ||| n == 0x2028
    ||| n == 0x2029
    ||| n == 0x202f
    ||| n == 0x205f
    ||| n == 0x3000
}

/// How many whitespace characters `s` starts with.
pub open spec fn leading_white_space(s: Seq<char>) -> nat
    decreases s.len(),
{
    if s.len() > 0 && is_white_space(s[0]) {
        1 + leading_white_space(s.skip(1))
    } else {
        0
    }
}

/// How many whitespace characters `s` ends with.
pub open spec fn trailing_white_space(s: Seq<char>) -> nat
    decreases s.len(),
{
    if s.len() > 0 && is_white_space(s.last()) {
        1 + trailing_white_space(s.drop_last())
    } else {
        0
    }
}

/// What `str::trim` returns for `s`: `s` without the whitespace at its start
/// and at its end.
pub open spec fn trimmed(s: Seq<char>) -> Seq<char> {
    let rest = s.skip(leading_white_space(s) as int);
    rest.take(rest.len() - trailing_white_space(rest))
}

/// What `str::to_lowercase` returns for `s`.
pub uninterp spec fn lowercased(s: Seq<char>) -> Seq<char>;

/// Calls `str::trim`, which drops the characters with the Unicode property
/// White_Space at both ends; the contract claims that the result is that.
#[verifier::external_body]
pub(crate) fn trim_text(s: &str) -> (res: &str)
    ensures
        res@ == trimmed(s@),
{
    s.trim()
}

/// Calls `str::to_lowercase`; the contract claims only that the result is the
/// named one.
#[verifier::external_body]
pub(crate) fn lowercase_text(s: &str) -> (res: String)
    ensures
        res@ == lowercased(s@),
{
    s.to_lowercase()
}

/// Whether an answer to a question confirms: `y` or `yes`, in any case,
/// with whitespace around it.
pub fn answer_confirms(answer: &str) -> (res: bool)
    ensures
        res == (lowercased(trimmed(answer@)) == "y"@ || lowercased(trimmed(answer@)) == "yes"@),
{
    let t = trim_text(answer);
    let lower = lowercase_text(t);
    str_eq(lower.as_str(), "y") || str_eq(lower.as_str(), "yes")
}

/// The text of an error that ends a metadata command.
pub open spec fn not_confirmed_message(interactive: bool) -> Seq<char> {
    if interactive {
        "Operation cancelled."@
    } else {
        "Use --yes to confirm non-interactively."@
    }
}

/// The error that ends a metadata command whose question was not confirmed:
/// when there is no terminal to ask on, or when the answer declines.
pub fn not_confirmed(interactive: bool) -> (res: String)
    ensures
        res@ == not_confirmed_message(interactive),
{
    if interactive {
        "Operation cancelled.".to_owned()
    } else {
        "Use --yes to confirm non-interactively.".to_owned()
    }
}

/// What a metadata command reports when it is done.
#[derive(Clone, Copy, Debug, PartialEq, Eq, Structural)]
pub enum MetadataNotice {
    /// A schema was stored.
    SchemaSaved,
    /// There is no schema to show.
    NoSchema,
    /// The schema was deleted.
    SchemaDeleted,
    /// Metadata was stored.
    MetadataSaved,
    /// The record has no metadata to show.
    NoMetadata,
    /// The record's metadata was deleted.
    MetadataDeleted,
}

impl MetadataNotice {
    /// The report's text.
    pub open spec fn text_spec(self) -> Seq<char> {
        match self {
            MetadataNotice::SchemaSaved => "Metadata schema saved successfully."@,
            MetadataNotice::NoSchema => "No metadata schema set."@,
            MetadataNotice::SchemaDeleted => "Metadata schema deleted."@,
            MetadataNotice::MetadataSaved => "Metadata saved."@,
            MetadataNotice::NoMetadata => "No metadata found."@,
            MetadataNotice::MetadataDeleted => "Metadata deleted."@,
        }
    }

    /// The report's text.
    pub fn text(&self) -> (res: &'static str)
        ensures
            res@ == self.text_spec(),
    {
        match self {
            MetadataNotice::SchemaSaved => "Metadata schema saved successfully.",
            MetadataNotice::NoSchema => "No metadata schema set.",
            MetadataNotice::SchemaDeleted => "Metadata schema deleted.",
            MetadataNotice::MetadataSaved => "Metadata saved.",
            MetadataNotice::NoMetadata => "No metadata found.",
            MetadataNotice::MetadataDeleted => "Metadata deleted.",
        }
    }
}

#[verifier::external_type_specification]
#[verifier::external_body]
pub struct ExJsonValue(serde_json::Value);

/// What `jsonschema::validator_for` reports of `schema`: `None` where the
/// schema compiles, else the text of its error. With the crate's default
/// features off it fetches no outside reference, so this depends on the
/// schema alone.
pub uninterp spec fn schema_compile_error(schema: serde_json::Value) -> Option<Seq<char>>;

/// What `jsonschema::validate` reports of `instance` against `schema`:
/// `None` where the instance conforms, else the text of the first violation.
pub uninterp spec fn schema_violation(schema: serde_json::Value, instance: serde_json::Value) -> Option<Seq<char>>;

/// Calls `jsonschema::validator_for`, which compiles a JSON Schema; the
/// contract claims that it fails exactly where the named report holds an
/// error, and that the error's text is that report.
#[verifier::external_body]
fn compile_schema(schema: &serde_json::Value) -> (res: Result<(), String>)
    ensures
        match schema_compile_error(*schema) {
            None => res is Ok,
            Some(e) => res matches Err(m) && m@ == e,
        },
{
    jsonschema::validator_for(schema).map(|_| ()).map_err(|e| e.to_string())
}

/// Calls `jsonschema::validate`, which compiles `schema` and checks
/// `instance` against it (it panics on a schema that does not compile, which
/// `requires` leaves out); the contract claims that it fails exactly where the
/// named report holds a violation, and that the error's text is that report.
#[verifier::external_body]
fn first_violation(schema: &serde_json::Value, instance: &serde_json::Value) -> (res: Result<(), String>)
    requires
        schema_compile_error(*schema) is None,
    ensures
        match schema_violation(*schema, *instance) {
            None => res is Ok,
            Some(e) => res matches Err(m) && m@ == e,
        },
{
    jsonschema::validate(schema, instance).map_err(|e| e.to_string())
}

/// The answer to a schema whose compilation gave `compiled`.
pub open spec fn schema_check_spec(compiled: Result<(), Seq<char>>) -> Result<(), Seq<char>> {
    match compiled {
        Ok(()) => Ok(()),
        Err(e) => Err("Invalid JSON Schema definition: "@ + e),
    }
}

/// The answer to metadata checked against a stored schema whose compilation
/// gave `compiled` and whose check of the metadata gave `checked`.
pub open spec fn instance_check_spec(compiled: Result<(), Seq<char>>, checked: Result<(), Seq<char>>) -> Result<(), Seq<char>> {
    match compiled {
        Err(e) => Err("Invalid stored schema: "@ + e),
        Ok(()) => match checked {
            Ok(()) => Ok(()),
            Err(e) => Err("Metadata does not conform to the schema:\n"@ + e),
        },
    }
}

/// The report of a compilation, as a result.
pub open spec fn report_result(report: Option<Seq<char>>) -> Result<(), Seq<char>> {
    match report {
        None => Ok(()),
        Some(e) => Err(e),
    }
}

/// The answer to a schema whose compilation gave `compiled`: accepted, or
/// the reason behind `Invalid JSON Schema definition: `.
pub fn schema_check_result(compiled: Result<(), String>) -> (res: Result<(), String>)
    ensures
        text_result(res) == schema_check_spec(text_result(compiled)),
{
    match compiled {
        Ok(()) => Ok(()),
        Err(e) => Err(concat2("Invalid JSON Schema definition: ", e.as_str())),
    }
}

/// The answer to metadata checked against a stored schema: `compiled` is
/// what compiling the schema gave, `checked` what checking the metadata gave
/// (read only where the schema compiled).
pub fn instance_check_result(compiled: Result<(), String>, checked: Result<(), String>) -> (res: Result<(), String>)
    ensures
        text_result(res) == instance_check_spec(text_result(compiled), text_result(checked)),
{
    match compiled {
        Err(e) => Err(concat2("Invalid stored schema: ", e.as_str())),
        Ok(()) => match checked {
            Ok(()) => Ok(()),
            Err(e) => Err(concat2("Metadata does not conform to the schema:\n", e.as_str())),
        },
    }
}

/// Accepts `value` as a JSON Schema, or gives the reason it is not one,
/// behind `Invalid JSON Schema definition: `.
pub fn validate_json_schema(value: &serde_json::Value) -> (res: Result<(), String>)
    ensures
        text_result(res) == schema_check_spec(report_result(schema_compile_error(*value))),
{
    let compiled = compile_schema(value);
    schema_check_result(compiled)
}

/// Accepts metadata that follows the stored schema, or gives the reason:
/// behind `Invalid stored schema: ` when the schema does not compile, behind
/// `Metadata does not conform to the schema:` and a line break when the
/// metadata violates it.
pub fn validate_instance(instance: &serde_json::Value, schema: &serde_json::Value) -> (res: Result<(), String>)
    ensures
        text_result(res) == instance_check_spec(
            report_result(schema_compile_error(*schema)),
            report_result(schema_violation(*schema, *instance)),
        ),
{
    match compile_schema(schema) {
        Err(e) => instance_check_result(Err(e), Ok(())),
        Ok(()) => {
            let checked = first_violation(schema, instance);
            instance_check_result(Ok(()), checked)
        },
    }
}

} // verus!
