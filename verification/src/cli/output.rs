//! How a command's result is reported: the output format, the JSON values
//! that results carry, and the result itself with its human lines.

use vstd::prelude::*;

use crate::cli::admin::opt_text;
use crate::text::push_str;

verus! {

/// The JSON value of `serde_json`, which a command result carries through
/// to the JSON output.
#[verifier::external_type_specification]
#[verifier::external_body]
pub struct ExJsonValue(serde_json::Value);

/// What `serde_json::Value::Bool` holds for a flag.
pub uninterp spec fn json_bool_value(b: bool) -> serde_json::Value;

/// What `serde_json::Value::String` holds for a text.
pub uninterp spec fn json_text_value(s: Seq<char>) -> serde_json::Value;

/// What `serde_json::Value::from` gives for an integer: a JSON number.
pub uninterp spec fn json_int_value(n: int) -> serde_json::Value;

/// What `serde_json::Value::from` gives for an optional text: `null` for
/// none, the JSON string for some.
pub uninterp spec fn json_opt_text_value(o: Option<Seq<char>>) -> serde_json::Value;

/// What `serde_json::Value::Array` holds for its items, in order.
pub uninterp spec fn json_array_value(items: Seq<serde_json::Value>) -> serde_json::Value;

/// What `serde_json::Value::Object` holds for an object collected from its
/// keys and values, taken pairwise.
pub uninterp spec fn json_object_value(keys: Seq<Seq<char>>, values: Seq<serde_json::Value>) -> serde_json::Value;

/// Builds a JSON flag with `serde_json::Value::Bool`. Claimed: the value is
/// `json_bool_value` of the flag.
#[verifier::external_body]
pub(crate) fn json_bool(b: bool) -> (v: serde_json::Value)
    ensures
        v == json_bool_value(b),
{
    serde_json::Value::Bool(b)
}

/// Builds a JSON string with `serde_json::Value::String`. Claimed: the value
/// is `json_text_value` of the text.
#[verifier::external_body]
pub(crate) fn json_text(s: String) -> (v: serde_json::Value)
    ensures
        v == json_text_value(s@),
{
    serde_json::Value::String(s)
}

/// Builds a JSON number with `serde_json::Value::from`. Claimed: the value
/// is `json_int_value` of the integer.
#[verifier::external_body]
pub(crate) fn json_int(n: i64) -> (v: serde_json::Value)
    ensures
        v == json_int_value(n as int),
{
    serde_json::Value::from(n)
}

/// Builds `null` or a JSON string with `serde_json::Value::from`. Claimed:
/// the value is `json_opt_text_value` of the optional text, and for some
/// text it is the JSON string of it (the impl converts the text itself).
#[verifier::external_body]
pub(crate) fn json_opt_text(o: Option<String>) -> (v: serde_json::Value)
    ensures
        v == json_opt_text_value(opt_text(o)),
        o matches Some(s) ==> v == json_text_value(s@),
{
    serde_json::Value::from(o)
}

/// Builds a JSON array with `serde_json::Value::Array`. Claimed: the value
/// is `json_array_value` of the items.
#[verifier::external_body]
pub(crate) fn json_array(items: Vec<serde_json::Value>) -> (v: serde_json::Value)
    ensures
        v == json_array_value(items@),
{
    serde_json::Value::Array(items)
}

/// Builds a JSON object with `serde_json::Value::Object`, collecting a
/// `serde_json::Map` from the keys paired with the values. Claimed: the
/// value is `json_object_value` of the keys' texts and the values.
#[verifier::external_body]
pub(crate) fn json_object(keys: Vec<String>, values: Vec<serde_json::Value>) -> (v: serde_json::Value)
    requires
        keys@.len() == values@.len(),
    ensures
        v == json_object_value(keys@.map_values(|k: String| k@), values@),
{
    serde_json::Value::Object(keys.into_iter().zip(values).collect())
}

/// A JSON object with the named fields, the values taken in the keys' order.
pub fn json_fields(keys: Vec<&str>, values: Vec<serde_json::Value>) -> (v: serde_json::Value)
    requires
        keys@.len() == values@.len(),
    ensures
        v == json_object_value(keys@.map_values(|k: &str| k@), values@),
{
    let mut names: Vec<String> = Vec::new();
    let mut i: usize = 0;
    while i < keys.len()
        invariant
            i <= keys@.len(),
            names@.map_values(|k: String| k@) == keys@.subrange(0, i as int).map_values(|k: &str| k@),
        decreases keys@.len() - i,
    {
        let name = keys[i].to_string();
        proof {
            assert(names@.push(name).map_values(|k: String| k@) =~= names@.map_values(|k: String| k@).push(name@));
            assert(keys@.subrange(0, i + 1).map_values(|k: &str| k@) =~= keys@.subrange(0, i as int).map_values(
                |k: &str| k@,
            ).push(keys@[i as int]@));
        }
        names.push(name);
        i = i + 1;
    }
    assert(keys@.subrange(0, i as int) =~= keys@);
    assert(names@.len() == names@.map_values(|k: String| k@).len());
    json_object(names, values)
}

/// The JSON array of texts.
pub open spec fn json_texts_value(items: Seq<String>) -> serde_json::Value {
    json_array_value(items.map_values(|t: String| json_text_value(t@)))
}

/// A JSON array of the texts, in order.
pub fn json_texts(items: &Vec<String>) -> (v: serde_json::Value)
    ensures
        v == json_texts_value(items@),
{
    let mut values: Vec<serde_json::Value> = Vec::new();
    let mut i: usize = 0;
    while i < items.len()
        invariant
            i <= items@.len(),
            values@ == items@.subrange(0, i as int).map_values(|t: String| json_text_value(t@)),
        decreases items@.len() - i,
    {
        values.push(json_text(items[i].clone()));
        proof {
            assert(items@.subrange(0, i + 1).map_values(|t: String| json_text_value(t@)) =~= items@.subrange(
                0,
                i as int,
            ).map_values(|t: String| json_text_value(t@)).push(json_text_value(items@[i as int]@)));
        }
        i = i + 1;
    }
    assert(items@.subrange(0, i as int) =~= items@);
    json_array(values)
}

/// How results and errors are written.
#[derive(Debug, Clone, Copy, PartialEq, Eq, Structural)]
pub enum OutputFormat {
    Human,
    Json,
}

impl Default for OutputFormat {
    fn default() -> (f: OutputFormat)
        ensures
            f == OutputFormat::Human,
    {
        OutputFormat::Human
    }
}

/// The output flag that every subcommand takes.
#[derive(Debug, Clone, Copy)]
pub struct OutputArgs {
    pub output: OutputFormat,
}

/// What a command reports: lines for a person, data for a program, and
/// whether any part of it failed.
pub struct CommandResult {
    pub human: Vec<String>,
    pub data: serde_json::Value,
    pub failed: bool,
}

/// The lines, each ended by a newline.
pub open spec fn lines_text(lines: Seq<String>) -> Seq<char>
    decreases lines.len(),
{
    if lines.len() == 0 {
        Seq::empty()
    } else {
        lines_text(lines.drop_last()) + lines.last()@ + "\n"@
    }
}

impl CommandResult {
    /// A result that did not fail.
    pub fn success(human: Vec<String>, data: serde_json::Value) -> (r: CommandResult)
        ensures
            r.human@ == human@,
            r.data == data,
            !r.failed,
    {
        CommandResult { human, data, failed: false }
    }

    /// A result whose rows may report failures.
    pub fn rows(human: Vec<String>, data: serde_json::Value, failed: bool) -> (r: CommandResult)
        ensures
            r.human@ == human@,
            r.data == data,
            r.failed == failed,
    {
        CommandResult { human, data, failed }
    }

    /// What the human format writes: each line and a newline.
    pub fn human_text(&self) -> (text: String)
        ensures
            text@ == lines_text(self.human@),
    {
        let mut text = String::new();
        let mut i: usize = 0;
        while i < self.human.len()
            invariant
                i <= self.human@.len(),
                text@ == lines_text(self.human@.subrange(0, i as int)),
            decreases self.human@.len() - i,
        {
            proof {
                let prefix = self.human@.subrange(0, i + 1);
                assert(prefix.drop_last() =~= self.human@.subrange(0, i as int));
            }
            push_str(&mut text, self.human[i].as_str());
            push_str(&mut text, "\n");
            i = i + 1;
        }
        assert(self.human@.subrange(0, i as int) =~= self.human@);
        text
    }
}

/// What the JSON format writes for a result: `{"data": <data>}`.
pub open spec fn success_json_value(data: serde_json::Value) -> serde_json::Value {
    json_object_value(seq!["data"@], seq![data])
}

/// The JSON that the JSON format writes for a result's data.
pub fn success_json(data: serde_json::Value) -> (v: serde_json::Value)
    ensures
        v == success_json_value(data),
{
    let keys = vec!["data"];
    let fields = vec![data];
    assert(keys@.map_values(|k: &str| k@) =~= seq!["data"@]);
    assert(fields@ =~= seq![data]);
    json_fields(keys, fields)
}

/// What the JSON format writes for an error:
/// `{"error": {"code": <code>, "message": <message>}}`.
pub open spec fn error_json_value(code: i32, message: Seq<char>) -> serde_json::Value {
    json_object_value(
        seq!["error"@],
        seq![json_object_value(seq!["code"@, "message"@], seq![json_int_value(code as int), json_text_value(message)])],
    )
}

/// The JSON that the JSON format writes for an error with its exit code.
pub fn error_json(code: i32, message: &str) -> (v: serde_json::Value)
    ensures
        v == error_json_value(code, message@),
{
    let inner_keys = vec!["code", "message"];
    let inner_fields = vec![json_int(code as i64), json_text(message.to_string())];
    assert(inner_keys@.map_values(|k: &str| k@) =~= seq!["code"@, "message"@]);
    assert(inner_fields@ =~= seq![json_int_value(code as int), json_text_value(message@)]);
    let inner = json_fields(inner_keys, inner_fields);
    let keys = vec!["error"];
    let fields = vec![inner];
    assert(keys@.map_values(|k: &str| k@) =~= seq!["error"@]);
    assert(fields@ =~= seq![inner]);
    json_fields(keys, fields)
}

/// The line that the human format writes for an error.
pub fn error_line(message: &str) -> (line: String)
    ensures
        line@ == "krabka: "@ + message@,
{
    let mut line = String::new();
    push_str(&mut line, "krabka: ");
    push_str(&mut line, message);
    line
}

} // verus!
