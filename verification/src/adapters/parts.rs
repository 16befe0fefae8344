//! Conversion between message parts and the input and output of modules.

use vstd::prelude::*;
use vstd::string::*;

use crate::adapters::schema::{root_type, SchemaConverter};
use crate::codec::{json_of_text, json_result, json_text, parse_text, print};
use crate::json::{string, Json, JsonV};
use crate::text::{join, owned, str_eq};
use crate::types::{part_views, Artifact, ArtifactV, Part, PartV};

verus! {

/// The parts that show a module's result: a string as text, an object as data,
/// nothing for `null`, and anything else as its JSON text.
pub open spec fn result_parts(result: JsonV) -> Seq<PartV> {
    match result {
        JsonV::Str(s) => seq![PartV::Text(s)],
        JsonV::Object(_) => seq![PartV::Data(result)],
        JsonV::Null => seq![],
        _ => seq![PartV::Text(json_text(result))],
    }
}

/// What a text is as input where an object is wanted, once it was read as JSON.
pub open spec fn parsed_input(parsed: Result<JsonV, Seq<char>>) -> Result<JsonV, Seq<char>> {
    match parsed {
        Ok(v) => Ok(v),
        Err(e) => Err("TextPart text is not valid JSON: "@ + e),
    }
}

/// The module input that the parts of a message stand for.
pub open spec fn input_of(parts: Seq<PartV>, schema: Option<JsonV>) -> Result<JsonV, Seq<char>> {
    if parts.len() == 0 {
        Err("Message must contain at least one Part"@)
    } else if parts.len() > 1 {
        Err("Multiple parts are not supported; expected exactly one Part"@)
    } else {
        match parts[0] {
            PartV::Data(d) => Ok(d),
            PartV::Text(t) => if root_type(schema) == "object"@ {
                parsed_input(json_of_text(t))
            } else {
                Ok(JsonV::Str(t))
            },
            _ => Err("FilePart is not supported"@),
        }
    }
}

/// Converts between message parts and module data.
#[derive(Debug, Clone, Copy)]
pub struct PartConverter {
    schema_converter: SchemaConverter,
}

impl PartConverter {
    /// What schemas are read with.
    pub closed spec fn reader(&self) -> SchemaConverter {
        self.schema_converter
    }

    /// A converter that reads schemas with `schema_converter`.
    pub fn new(schema_converter: SchemaConverter) -> (r: PartConverter)
        ensures
            r.reader() == schema_converter,
    {
        PartConverter { schema_converter }
    }

    /// The parts that show a module's result.
    pub fn convert_result(&self, result: &Json) -> (r: Vec<Part>)
        ensures
            part_views(r@) == result_parts(result@),
    {
        let mut out: Vec<Part> = Vec::new();
        match result {
            Json::Str(s) => out.push(Part::text(s.as_str())),
            Json::Object(_) => out.push(Part::data(result.copy())),
            Json::Null => {},
            _ => out.push(Part::text(print(result).as_str())),
        }
        assert(part_views(out@) =~= result_parts(result@));
        out
    }

    /// The artifact that holds a module's result.
    pub fn output_to_parts(&self, result: &Json, task_id: &str) -> (r: Artifact)
        ensures
            r@ == output_artifact(result@, task_id@),
    {
        Artifact::new(join("art-", task_id).as_str(), self.convert_result(result))
    }

    /// The module input that the parts of a message stand for. There must be
    /// exactly one part; a text is read as JSON where the schema wants an object.
    pub fn parts_to_input(&self, parts: &Vec<Part>, input_schema: Option<&Json>) -> (r: Result<
        Json,
        String,
    >)
        ensures
            json_result(r) == input_of(part_views(parts@), crate::json::opt_ref(input_schema)),
    {
        if parts.len() == 0 {
            return Err(owned("Message must contain at least one Part"));
        }
        if parts.len() > 1 {
            return Err(owned("Multiple parts are not supported; expected exactly one Part"));
        }
        assert(part_views(parts@)[0] == parts[0]@);
        match &parts[0] {
            Part::Data { data } => Ok(data.copy()),
            Part::Text { text } => {
                if str_eq(self.schema_converter.detect_root_type(input_schema), "object") {
                    read_text_input(parse_text(text.as_str()))
                } else {
                    Ok(string(text.as_str()))
                }
            },
            _ => Err(owned("FilePart is not supported")),
        }
    }
}

/// The artifact that holds a module's result.
pub open spec fn output_artifact(result: JsonV, task_id: Seq<char>) -> ArtifactV {
    ArtifactV { artifact_id: "art-"@ + task_id, parts: result_parts(result), name: None }
}

/// The input that a text part stands for, once its text was read as JSON.
pub fn read_text_input(parsed: Result<Json, String>) -> (r: Result<Json, String>)
    ensures
        json_result(r) == parsed_input(json_result(parsed)),
{
    match parsed {
        Ok(v) => Ok(v),
        Err(e) => Err(join("TextPart text is not valid JSON: ", e.as_str())),
    }
}

/// A message whose one part is data is handed to the module as that data,
/// whatever the schema.
pub proof fn data_passes_through(data: JsonV, schema: Option<JsonV>)
    ensures
        input_of(seq![PartV::Data(data)], schema) == Ok::<_, Seq<char>>(data),
{
}

/// Only one part makes input: none or several are refused.
pub proof fn one_part_is_wanted(parts: Seq<PartV>, schema: Option<JsonV>)
    ensures
        parts.len() != 1 ==> input_of(parts, schema) is Err,
{
}

/// A result shown as data comes back as the same input, and so does one shown
/// as the text of a string where no object is wanted.
pub proof fn shown_result_reads_back(result: JsonV, schema: Option<JsonV>)
    requires
        result is Object || (result is Str && root_type(schema) != "object"@),
    ensures
        input_of(result_parts(result), schema) == Ok::<_, Seq<char>>(result),
{
}

/// A result is shown by what it is: a string as its text, an object as data, `null`
/// by nothing, and any other value as its JSON text, in one part.
pub proof fn results_are_shown_by_their_kind(result: JsonV)
    ensures
        result matches JsonV::Str(s) ==> result_parts(result) == seq![PartV::Text(s)],
        result is Object ==> result_parts(result) == seq![PartV::Data(result)],
        result is Null <==> result_parts(result).len() == 0,
        result is Bool || result is Number || result is Array ==> result_parts(result) == seq![
            PartV::Text(json_text(result)),
        ],
{
}

/// The artifact of a task's result is named after the task, and shows the result.
pub proof fn artifacts_are_named_after_their_tasks(
    result: JsonV,
    other: JsonV,
    task_id: Seq<char>,
    other_id: Seq<char>,
)
    ensures
        output_artifact(result, task_id).artifact_id == "art-"@ + task_id,
        output_artifact(result, task_id).parts == result_parts(result),
        output_artifact(result, task_id).name is None,
        output_artifact(result, task_id).artifact_id == output_artifact(
            other,
            other_id,
        ).artifact_id <==> task_id == other_id,
{
    let a = output_artifact(result, task_id).artifact_id;
    let b = output_artifact(other, other_id).artifact_id;
    assert(a.skip("art-"@.len() as int) =~= task_id);
    assert(b.skip("art-"@.len() as int) =~= other_id);
}

/// A text is read as JSON where the schema wants an object: where its type is
/// `object`, or where it lists properties and its type is not `string`. Elsewhere it
/// is a string as it stands. A text that is then no JSON is refused, and so is a
/// file.
pub proof fn texts_are_read_where_objects_are_wanted(
    t: Seq<char>,
    p: PartV,
    schema: Option<JsonV>,
    wants_object: bool,
)
    requires
        wants_object <==> (schema matches Some(s) && (s.text_at("type"@) == Some("object"@) || (
        s.get("properties"@) is Some && s.text_at("type"@) != Some("string"@)))),
    ensures
        !wants_object ==> input_of(seq![PartV::Text(t)], schema) == Ok::<_, Seq<char>>(
            JsonV::Str(t),
        ),
        wants_object ==> (json_of_text(t) matches Ok(v) ==> input_of(seq![PartV::Text(t)], schema)
            == Ok::<_, Seq<char>>(v)),
        wants_object ==> (json_of_text(t) matches Err(e) ==> input_of(seq![PartV::Text(t)], schema)
            == Err::<JsonV, _>("TextPart text is not valid JSON: "@ + e)),
        p is FileUrl || p is FileRaw ==> input_of(seq![p], schema) == Err::<JsonV, _>(
            "FilePart is not supported"@,
        ),
{
    reveal_strlit("object");
    reveal_strlit("string");
    reveal_strlit("unknown");
    assert("object"@.len() == 6 && "object"@[0] == 'o');
    assert("string"@.len() == 6 && "string"@[0] == 's');
    assert("unknown"@.len() == 7);
}

} // verus!
