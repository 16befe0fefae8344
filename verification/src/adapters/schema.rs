//! JSON Schemas of modules, made fit for A2A.

use vstd::prelude::*;

use crate::codec::{json_of_value, value_of_json, well_formed};
use crate::json::{
    fields, find, insert, insert_then_get, inserted, member, model_of, object, position,
    position_found, put, remove, remove_then_get, removed, string, Json, JsonV,
};
use crate::text::str_eq;

verus! {

/// What `deep_resolve_refs` makes of a schema whose references point into `doc`.
pub uninterp spec fn refs_resolved(schema: JsonV, doc: JsonV, depth: nat) -> JsonV;

/// `apcore_toolkit::deep_resolve_refs`: the schema with its local references
/// replaced by what they point to in `doc`, cut off below sixteen levels. It
/// depends on its three arguments alone.
#[verifier::external_body]
fn resolve_refs(schema: &Json, doc: &Json, depth: usize) -> (r: Json)
    ensures
        r@ == refs_resolved(schema@, doc@, depth as nat),
        well_formed(r@),
{
    let schema = value_of_json(schema);
    let doc = value_of_json(doc);
    json_of_value(apcore_toolkit::deep_resolve_refs(&schema, &doc, depth))
}

/// The root type of a schema: what its `type` says, or an object where it lists
/// properties.
pub open spec fn root_type(schema: Option<JsonV>) -> Seq<char> {
    match schema {
        None => "unknown"@,
        Some(s) => if s.text_at("type"@) == Some("string"@) {
            "string"@
        } else if s.text_at("type"@) == Some("object"@) {
            "object"@
        } else if s.get("properties"@) is Some {
            "object"@
        } else {
            "unknown"@
        },
    }
}

/// The schema of an object of which nothing is known.
pub open spec fn any_object() -> JsonV {
    JsonV::Object(
        seq![("type"@, JsonV::Str("object"@)), ("properties"@, JsonV::Object(seq![]))],
    )
}

/// The schema with `type` set to `object` where it says nothing else, or lists
/// properties and yet says something else.
pub open spec fn object_typed(schema: JsonV) -> JsonV {
    match schema {
        JsonV::Object(m) => if member(m, "type"@) is None || (member(m, "properties"@) is Some
            && schema.text_at("type"@) != Some("object"@)) {
            JsonV::Object(inserted(m, "type"@, JsonV::Str("object"@)))
        } else {
            schema
        },
        _ => any_object(),
    }
}

/// The members without any of the name `key`.
pub open spec fn stripped(m: Seq<(Seq<char>, JsonV)>, key: Seq<char>) -> Seq<(Seq<char>, JsonV)>
    decreases m.len(),
{
    if position(m, key) < m.len() {
        stripped(removed(m, key), key)
    } else {
        m
    }
}

/// A schema whose references are resolved, without its definitions and with an
/// object as its type.
pub open spec fn finished(resolved: JsonV) -> JsonV {
    object_typed(
        match resolved {
            JsonV::Object(m) => JsonV::Object(stripped(m, "$defs"@)),
            _ => resolved,
        },
    )
}

/// The schema that A2A shows for `schema`.
pub open spec fn converted(schema: JsonV) -> JsonV {
    if schema !is Object || schema->Object_0.len() == 0 {
        any_object()
    } else if schema.get("$defs"@) is Some {
        finished(refs_resolved(schema, schema, 0))
    } else {
        object_typed(schema)
    }
}

fn any_object_schema() -> (r: Json)
    ensures
        r@ == any_object(),
{
    let mut m: Vec<(String, Json)> = Vec::new();
    put(&mut m, "type", string("object"));
    let none: Vec<(String, Json)> = Vec::new();
    assert(fields(none@) =~= seq![]);
    put(&mut m, "properties", object(none));
    assert(fields(m@) =~= any_object()->Object_0);
    object(m)
}

/// Converts the input and output schemas of modules.
#[derive(Debug, Clone, Copy)]
pub struct SchemaConverter;

impl Default for SchemaConverter {
    fn default() -> (r: SchemaConverter)
        ensures
            r == SchemaConverter,
    {
        SchemaConverter
    }
}

impl SchemaConverter {
    /// A converter.
    pub fn new() -> (r: SchemaConverter)
        ensures
            r == SchemaConverter,
    {
        SchemaConverter
    }

    /// Convert an input schema.
    pub fn convert_input_schema(&self, schema: &Json) -> (r: Json)
        ensures
            r@ == converted(schema@),
            r@ is Object,
            r@.get("type"@) is Some,
            r@.get("properties"@) is Some ==> r@.text_at("type"@) == Some("object"@),
            r@.get("$defs"@) is None,
            converted(r@) == r@,
            well_formed(schema@) ==> well_formed(r@),
    {
        self.convert_schema(schema)
    }

    /// Convert an output schema.
    pub fn convert_output_schema(&self, schema: &Json) -> (r: Json)
        ensures
            r@ == converted(schema@),
            r@ is Object,
            r@.get("type"@) is Some,
            r@.get("properties"@) is Some ==> r@.text_at("type"@) == Some("object"@),
            r@.get("$defs"@) is None,
            converted(r@) == r@,
            well_formed(schema@) ==> well_formed(r@),
    {
        self.convert_schema(schema)
    }

    /// `"string"`, `"object"` or `"unknown"`: the root type of a schema.
    pub fn detect_root_type(&self, schema: Option<&Json>) -> (r: &'static str)
        ensures
            r@ == root_type(crate::json::opt_ref(schema)),
    {
        let s: &Json = match schema {
            Some(s) => s,
            None => {
                return "unknown";
            },
        };
        if let Some(t) = s.get_str("type") {
            if str_eq(t, "string") {
                return "string";
            }
            if str_eq(t, "object") {
                return "object";
            }
        }
        if s.get("properties").is_some() {
            "object"
        } else {
            "unknown"
        }
    }

    fn convert_schema(&self, schema: &Json) -> (r: Json)
        ensures
            r@ == converted(schema@),
            r@ is Object,
            r@.get("type"@) is Some,
            r@.get("properties"@) is Some ==> r@.text_at("type"@) == Some("object"@),
            r@.get("$defs"@) is None,
            converted(r@) == r@,
            well_formed(schema@) ==> well_formed(r@),
    {
        proof {
            model_of(*schema);
            converting_again_changes_nothing(schema@);
            any_object_is_well_formed();
            if well_formed(schema@) {
                object_typed_is_well_formed(schema@);
            }
        }
        let empty: bool = match schema {
            Json::Object(m) => m.len() == 0,
            _ => true,
        };
        if empty {
            return any_object_schema();
        }
        if schema.get("$defs").is_some() {
            finish_schema(resolve_refs(schema, schema, 0))
        } else {
            let mut out: Json = schema.copy();
            ensure_object_type(&mut out);
            out
        }
    }
}

/// Drop the definitions of a schema whose references are resolved, and give it
/// an object as its type.
pub fn finish_schema(resolved: Json) -> (r: Json)
    ensures
        r@ == finished(resolved@),
        r@ is Object,
        r@.get("type"@) is Some,
        r@.get("properties"@) is Some ==> r@.text_at("type"@) == Some("object"@),
        r@.get("$defs"@) is None,
        converted(r@) == r@,
        well_formed(resolved@) ==> well_formed(r@),
{
    proof {
        model_of(resolved);
    }
    let mut out: Json = match resolved {
        Json::Object(m) => {
            let mut m = m;
            let ghost all = fields(m@);
            while find(&m, "$defs").is_some()
                invariant
                    stripped(fields(m@), "$defs"@) == stripped(all, "$defs"@),
                decreases fields(m@).len(),
            {
                proof {
                    position_found(fields(m@), "$defs"@);
                }
                remove(&mut m, "$defs");
            }
            proof {
                position_found(fields(m@), "$defs"@);
            }
            object(m)
        },
        other => other,
    };
    ensure_object_type(&mut out);
    proof {
        finished_stays(resolved@);
        if well_formed(resolved@) {
            finished_is_well_formed(resolved@);
        }
    }
    out
}

/// Ensure that the root of a schema declares an object.
fn ensure_object_type(schema: &mut Json)
    ensures
        final(schema)@ == object_typed(old(schema)@),
{
    proof {
        model_of(*schema);
    }
    let mut taken: Json = Json::Null;
    std::mem::swap(schema, &mut taken);
    *schema = match taken {
        Json::Object(m) => {
            let mut m = m;
            let untyped: bool = match find(&m, "type") {
                None => true,
                Some(i) => {
                    let says_object: bool = match m[i].1.as_str() {
                        Some(t) => str_eq(t, "object"),
                        None => false,
                    };
                    find(&m, "properties").is_some() && !says_object
                },
            };
            if untyped {
                insert(&mut m, "type", string("object"));
            }
            object(m)
        },
        _ => any_object_schema(),
    };
}

proof fn defs_is_no_keyword()
    ensures
        "$defs"@ != "type"@,
        "$defs"@ != "properties"@,
        "type"@ != "properties"@,
{
    reveal_strlit("$defs");
    reveal_strlit("type");
    reveal_strlit("properties");
    assert("$defs"@[0] == '$');
    assert("type"@[0] == 't');
    assert("properties"@[0] == 'p');
}

proof fn any_object_is_typed()
    ensures
        any_object().get("type"@) == Some(JsonV::Str("object"@)),
        any_object().get("$defs"@) is None,
{
    defs_is_no_keyword();
    reveal_with_fuel(member, 4);
}

/// Whatever the schema, the result declares a type, and where it lists properties
/// it declares an object.
pub proof fn object_typed_has_type(schema: JsonV)
    ensures
        object_typed(schema) is Object,
        object_typed(schema).get("type"@) is Some,
        object_typed(schema).get("properties"@) is Some ==> object_typed(schema).text_at("type"@)
            == Some("object"@),
{
    any_object_is_typed();
    defs_is_no_keyword();
    if schema is Object {
        insert_then_get(schema->Object_0, "type"@, JsonV::Str("object"@), "type"@);
        insert_then_get(schema->Object_0, "type"@, JsonV::Str("object"@), "properties"@);
    }
}

/// A schema that declares its type is left as it is.
proof fn object_typed_stays(schema: JsonV)
    ensures
        object_typed(object_typed(schema)) == object_typed(schema),
        object_typed(schema)->Object_0.len() > 0,
{
    object_typed_has_type(schema);
}

proof fn none_is_left(m: Seq<(Seq<char>, JsonV)>, key: Seq<char>)
    ensures
        member(stripped(m, key), key) is None,
    decreases m.len(),
{
    position_found(m, key);
    if position(m, key) < m.len() {
        none_is_left(removed(m, key), key);
    }
}

proof fn finished_stays(resolved: JsonV)
    ensures
        finished(resolved) is Object,
        finished(resolved).get("type"@) is Some,
        finished(resolved).get("properties"@) is Some ==> finished(resolved).text_at("type"@)
            == Some("object"@),
        finished(resolved).get("$defs"@) is None,
        converted(finished(resolved)) == finished(resolved),
{
    defs_is_no_keyword();
    any_object_is_typed();
    let without = match resolved {
        JsonV::Object(m) => JsonV::Object(stripped(m, "$defs"@)),
        _ => resolved,
    };
    object_typed_has_type(without);
    object_typed_stays(without);
    if let JsonV::Object(m) = resolved {
        none_is_left(m, "$defs"@);
        insert_then_get(stripped(m, "$defs"@), "type"@, JsonV::Str("object"@), "$defs"@);
    }
}

proof fn any_object_is_well_formed()
    ensures
        well_formed(any_object()),
{
    defs_is_no_keyword();
    reveal_with_fuel(well_formed, 3);
}

proof fn object_typed_is_well_formed(schema: JsonV)
    requires
        well_formed(schema),
    ensures
        well_formed(object_typed(schema)),
{
    any_object_is_well_formed();
    if let JsonV::Object(m) = schema {
        let r = inserted(m, "type"@, JsonV::Str("object"@));
        insert_then_get(m, "type"@, JsonV::Str("object"@), "type"@);
        assert forall|i: int| 0 <= i < r.len() implies well_formed((#[trigger] r[i]).1) by {
            if i < m.len() {
                assert(well_formed(m[i].1));
            }
        }
    }
}

proof fn stripped_is_well_formed(m: Seq<(Seq<char>, JsonV)>, key: Seq<char>)
    requires
        well_formed(JsonV::Object(m)),
    ensures
        well_formed(JsonV::Object(stripped(m, key))),
    decreases m.len(),
{
    if position(m, key) < m.len() {
        let r = removed(m, key);
        remove_then_get(m, key, key);
        assert forall|i: int| 0 <= i < r.len() implies well_formed((#[trigger] r[i]).1) by {
            assert(well_formed(m[i].1) && well_formed(m[m.len() - 1].1));
        }
        stripped_is_well_formed(r, key);
    }
}

proof fn finished_is_well_formed(resolved: JsonV)
    requires
        well_formed(resolved),
    ensures
        well_formed(finished(resolved)),
{
    any_object_is_well_formed();
    match resolved {
        JsonV::Object(m) => {
            stripped_is_well_formed(m, "$defs"@);
            object_typed_is_well_formed(JsonV::Object(stripped(m, "$defs"@)));
        },
        _ => {},
    }
}

/// A converted schema is an object that declares its type and has no definitions.
/// Where it lists properties, its type is `object`. A schema that is empty or is
/// no object becomes the schema of any object. Converting a converted schema
/// changes nothing.
pub proof fn converting_again_changes_nothing(schema: JsonV)
    ensures
        converted(converted(schema)) == converted(schema),
        converted(schema) is Object,
        converted(schema).get("type"@) is Some,
        converted(schema).get("$defs"@) is None,
        converted(schema).get("properties"@) is Some ==> converted(schema).text_at("type"@) == Some(
            "object"@,
        ),
        schema !is Object || schema->Object_0.len() == 0 ==> converted(schema) == any_object(),
{
    defs_is_no_keyword();
    any_object_is_typed();
    object_typed_has_type(any_object());
    object_typed_stays(any_object());
    object_typed_has_type(schema);
    object_typed_stays(schema);
    finished_stays(refs_resolved(schema, schema, 0));
    if schema is Object {
        insert_then_get(schema->Object_0, "type"@, JsonV::Str("object"@), "$defs"@);
    }
}

/// The root of a schema is what its type says, an object where it lists properties
/// and says nothing of the kind, and unknown otherwise.
pub proof fn roots_are_told_by_type_and_properties(s: JsonV)
    ensures
        root_type(None) == "unknown"@,
        root_type(Some(s)) == "string"@ <==> s.text_at("type"@) == Some("string"@),
        root_type(Some(s)) == "object"@ <==> s.text_at("type"@) == Some("object"@) || (s.get(
            "properties"@,
        ) is Some && s.text_at("type"@) != Some("string"@)),
        root_type(Some(s)) == "unknown"@ || root_type(Some(s)) == "string"@ || root_type(Some(s))
            == "object"@,
{
    reveal_strlit("object");
    reveal_strlit("string");
    reveal_strlit("unknown");
    assert("object"@.len() == 6 && "object"@[0] == 'o');
    assert("string"@.len() == 6 && "string"@[0] == 's');
    assert("unknown"@.len() == 7);
}

/// A schema without definitions keeps all it says but for its type, which becomes
/// `object` where it has none or lists properties; a type of its own stays where no
/// properties are listed.
pub proof fn schemas_keep_what_they_say(schema: JsonV, key: Seq<char>)
    requires
        schema is Object,
        schema->Object_0.len() > 0,
        schema.get("$defs"@) is None,
    ensures
        key != "type"@ ==> converted(schema).get(key) == schema.get(key),
        schema.get("properties"@) is None && schema.get("type"@) is Some ==> converted(schema)
            == schema,
        schema.text_at("type"@) == Some("object"@) ==> converted(schema) == schema,
        schema.get("properties"@) is Some || schema.get("type"@) is None ==> converted(
            schema,
        ).text_at("type"@) == Some("object"@),
{
    insert_then_get(schema->Object_0, "type"@, JsonV::Str("object"@), key);
    insert_then_get(schema->Object_0, "type"@, JsonV::Str("object"@), "type"@);
}

/// A schema with definitions becomes what it says with its references resolved,
/// without the definitions, and typed as any other.
pub proof fn definitions_are_taken_out(schema: JsonV, key: Seq<char>)
    requires
        schema.get("$defs"@) is Some,
        refs_resolved(schema, schema, 0) is Object,
        well_formed(refs_resolved(schema, schema, 0)),
        key != "type"@,
        key != "$defs"@,
    ensures
        converted(schema).get("$defs"@) is None,
        converted(schema).get(key) == refs_resolved(schema, schema, 0).get(key),
{
    let m = refs_resolved(schema, schema, 0)->Object_0;
    stripping_keeps_the_rest(m, "$defs"@, key);
    insert_then_get(stripped(m, "$defs"@), "type"@, JsonV::Str("object"@), key);
    converting_again_changes_nothing(schema);
}

proof fn stripping_keeps_the_rest(m: Seq<(Seq<char>, JsonV)>, key: Seq<char>, other: Seq<char>)
    requires
        crate::json::distinct(m),
        other != key,
    ensures
        member(stripped(m, key), other) == member(m, other),
    decreases m.len(),
{
    if position(m, key) < m.len() {
        remove_then_get(m, key, other);
        remove_then_get(m, key, key);
        stripping_keeps_the_rest(removed(m, key), key, other);
    }
}

/// What is no schema, or an empty one, becomes one that any object meets: its type
/// is `object`, and it lists no properties.
pub proof fn no_schema_is_that_of_any_object(schema: JsonV)
    requires
        schema !is Object || schema->Object_0.len() == 0,
    ensures
        converted(schema).text_at("type"@) == Some("object"@),
        converted(schema).get("properties"@) matches Some(JsonV::Object(m)) && m.len() == 0,
        converted(schema)->Object_0.len() == 2,
{
    defs_is_no_keyword();
    crate::json::member_at(any_object()->Object_0, "type"@, 0);
    crate::json::member_at(any_object()->Object_0, "properties"@, 1);
}

} // verus!
