//! Reading the wire form back: which JSON values are messages, statuses,
//! artifacts and tasks, and what is wrong with those that are not.
//!
//! A structure is read from an object, whose unknown members are ignored, or
//! from an array that holds its fields in order. A field that may be left out
//! may also be `null` where it is optional.

use vstd::prelude::*;
use vstd::string::*;

use crate::json::{
    clone_fields, fields, find, items, member, member_at, model_of, put, Json, JsonNumber, JsonV, NumberV,
};
use crate::text::{decimal, join, numeral, opt_view, owned, str_eq};
use crate::types::{
    artifact_json, artifact_views, artifacts_json, message_json, message_views, messages_json,
    opt_member, opt_text, part_json, part_views, parts_json, role_name, state_name, status_json,
    task_json, Artifact, ArtifactV, Message, MessageV, Part, PartV, Role, Task, TaskState,
    TaskStatus, TaskStatusV, TaskV,
};

verus! {

/// What Rust's `Debug` formatting of a string with the characters `s` prints.
pub uninterp spec fn debug_quoted(s: Seq<char>) -> Seq<char>;

/// `format!("{:?}")` of a string: its quoted and escaped form, which depends on
/// the string alone.
#[verifier::external_body]
pub(crate) fn debug_text(s: &str) -> (r: String)
    ensures
        r@ == debug_quoted(s@),
{
    format!("{:?}", s)
}

/// How an error names the value it found.
pub open spec fn found(v: JsonV) -> Seq<char> {
    match v {
        JsonV::Null => "null"@,
        JsonV::Bool(b) => if b {
            "boolean `true`"@
        } else {
            "boolean `false`"@
        },
        JsonV::Number(NumberV::PosInt(n)) => "integer `"@ + numeral(n) + "`"@,
        JsonV::Number(NumberV::NegInt(n)) => "integer `"@ + signed_numeral(n) + "`"@,
        JsonV::Number(NumberV::Float(t)) => "floating point `"@ + t + "`"@,
        JsonV::Str(s) => "string "@ + debug_quoted(s),
        JsonV::Array(_) => "sequence"@,
        JsonV::Object(_) => "map"@,
    }
}

/// The decimal numeral of an integer, with a minus sign where it is negative.
pub open spec fn signed_numeral(n: int) -> Seq<char> {
    if n >= 0 {
        numeral(n as nat)
    } else {
        "-"@ + numeral((-n) as nat)
    }
}

/// The decimal numeral of an integer, with a minus sign where it is negative.
pub fn signed_decimal(n: i64) -> (r: String)
    ensures
        r@ == signed_numeral(n as int),
{
    if n >= 0 {
        decimal(n as u64)
    } else {
        let m: u64 = if n == i64::MIN {
            9223372036854775808u64
        } else {
            (-n) as u64
        };
        join("-", decimal(m).as_str())
    }
}

fn quoted(prefix: &str, body: &str) -> (r: String)
    ensures
        r@ == prefix@ + body@ + "`"@,
{
    let mut out: String = join(prefix, body);
    out.append("`");
    out
}

fn describe(v: &Json) -> (r: String)
    ensures
        r@ == found(v@),
{
    match v {
        Json::Null => owned("null"),
        Json::Bool(b) => if *b {
            owned("boolean `true`")
        } else {
            owned("boolean `false`")
        },
        Json::Number(JsonNumber::PosInt(n)) => quoted("integer `", decimal(*n).as_str()),
        Json::Number(JsonNumber::NegInt(n)) => quoted("integer `", signed_decimal(*n).as_str()),
        Json::Number(JsonNumber::Float(t)) => quoted("floating point `", t.as_str()),
        Json::Str(s) => join("string ", debug_text(s.as_str()).as_str()),
        Json::Array(_) => owned("sequence"),
        Json::Object(_) => owned("map"),
    }
}

/// The error for a value of the wrong type.
pub open spec fn invalid_type(v: JsonV, expected: Seq<char>) -> Seq<char> {
    "invalid type: "@ + found(v) + ", expected "@ + expected
}

fn type_error(v: &Json, expected: &str) -> (r: String)
    ensures
        r@ == invalid_type(v@, expected@),
{
    let mut out: String = join("invalid type: ", describe(v).as_str());
    out.append(", expected ");
    out.append(expected);
    out
}

/// The error for an array of the wrong length.
pub open spec fn invalid_length(n: nat, expected: Seq<char>) -> Seq<char> {
    "invalid length "@ + numeral(n) + ", expected "@ + expected
}

fn length_error(n: usize, expected: &str) -> (r: String)
    ensures
        r@ == invalid_length(n as nat, expected@),
{
    let mut out: String = join("invalid length ", decimal(n as u64).as_str());
    out.append(", expected ");
    out.append(expected);
    out
}

/// The error for a field that is not there.
pub open spec fn missing_field(name: Seq<char>) -> Seq<char> {
    "missing field `"@ + name + "`"@
}

/// The error for a name that no variant has.
pub open spec fn unknown_variant(name: Seq<char>, expected: Seq<char>) -> Seq<char> {
    "unknown variant `"@ + name + "`, expected one of "@ + expected
}

fn variant_error(name: &str, expected: &str) -> (r: String)
    ensures
        r@ == unknown_variant(name@, expected@),
{
    let mut out: String = join("unknown variant `", name);
    out.append("`, expected one of ");
    out.append(expected);
    out
}

/// What a reading gives: a value, or the text that says what is wrong.
pub type Read<T> = Result<T, Seq<char>>;

/// A string.
pub open spec fn read_string(v: JsonV) -> Read<Seq<char>> {
    match v {
        JsonV::Str(s) => Ok(s),
        _ => Err(invalid_type(v, "a string"@)),
    }
}

/// A string or `null`.
pub open spec fn read_opt_string(v: JsonV) -> Read<Option<Seq<char>>> {
    match v {
        JsonV::Null => Ok(None),
        JsonV::Str(s) => Ok(Some(s)),
        _ => Err(invalid_type(v, "a string"@)),
    }
}

/// The error a reading ends in, if it does.
pub open spec fn failure<T>(r: Read<T>) -> Option<Seq<char>> {
    match r {
        Ok(_) => None,
        Err(e) => Some(e),
    }
}

/// What an executable reading denotes.
pub open spec fn string_result(r: Result<String, String>) -> Read<Seq<char>> {
    match r {
        Ok(s) => Ok(s@),
        Err(e) => Err(e@),
    }
}

fn get_string(v: &Json) -> (r: Result<String, String>)
    ensures
        string_result(r) == read_string(v@),
{
    match v {
        Json::Str(s) => Ok(s.clone()),
        _ => Err(type_error(v, "a string")),
    }
}

fn get_opt_string(v: &Json) -> (r: Result<Option<String>, String>)
    ensures
        match r {
            Ok(s) => read_opt_string(v@) == Ok::<_, Seq<char>>(opt_view(s)),
            Err(e) => read_opt_string(v@) == Err::<Option<Seq<char>>, _>(e@),
        },
{
    match v {
        Json::Null => Ok(None),
        Json::Str(s) => Ok(Some(s.clone())),
        _ => Err(type_error(v, "a string")),
    }
}

/// The role that a name spells: its wire name, or its short lower-case name.
pub open spec fn role_named(s: Seq<char>) -> Option<Role> {
    if s == "ROLE_UNSPECIFIED"@ {
        Some(Role::Unspecified)
    } else if s == "ROLE_USER"@ || s == "user"@ {
        Some(Role::User)
    } else if s == "ROLE_AGENT"@ || s == "agent"@ {
        Some(Role::Agent)
    } else {
        None
    }
}

/// The state that a name spells.
pub open spec fn state_named(s: Seq<char>) -> Option<TaskState> {
    if s == "TASK_STATE_SUBMITTED"@ {
        Some(TaskState::Submitted)
    } else if s == "TASK_STATE_WORKING"@ {
        Some(TaskState::Working)
    } else if s == "TASK_STATE_COMPLETED"@ {
        Some(TaskState::Completed)
    } else if s == "TASK_STATE_FAILED"@ {
        Some(TaskState::Failed)
    } else if s == "TASK_STATE_CANCELED"@ {
        Some(TaskState::Canceled)
    } else if s == "TASK_STATE_INPUT_REQUIRED"@ {
        Some(TaskState::InputRequired)
    } else if s == "TASK_STATE_REJECTED"@ {
        Some(TaskState::Rejected)
    } else {
        None
    }
}

fn role_of(s: &str) -> (r: Option<Role>)
    ensures
        r == role_named(s@),
{
    if str_eq(s, "ROLE_UNSPECIFIED") {
        Some(Role::Unspecified)
    } else if str_eq(s, "ROLE_USER") || str_eq(s, "user") {
        Some(Role::User)
    } else if str_eq(s, "ROLE_AGENT") || str_eq(s, "agent") {
        Some(Role::Agent)
    } else {
        None
    }
}

fn state_of(s: &str) -> (r: Option<TaskState>)
    ensures
        r == state_named(s@),
{
    if str_eq(s, "TASK_STATE_SUBMITTED") {
        Some(TaskState::Submitted)
    } else if str_eq(s, "TASK_STATE_WORKING") {
        Some(TaskState::Working)
    } else if str_eq(s, "TASK_STATE_COMPLETED") {
        Some(TaskState::Completed)
    } else if str_eq(s, "TASK_STATE_FAILED") {
        Some(TaskState::Failed)
    } else if str_eq(s, "TASK_STATE_CANCELED") {
        Some(TaskState::Canceled)
    } else if str_eq(s, "TASK_STATE_INPUT_REQUIRED") {
        Some(TaskState::InputRequired)
    } else if str_eq(s, "TASK_STATE_REJECTED") {
        Some(TaskState::Rejected)
    } else {
        None
    }
}

/// The role names an error lists.
pub const ROLE_NAMES: &'static str = "`ROLE_UNSPECIFIED`, `ROLE_USER`, `ROLE_AGENT`";

/// The state names an error lists.
pub const STATE_NAMES: &'static str = "`TASK_STATE_SUBMITTED`, `TASK_STATE_WORKING`, `TASK_STATE_COMPLETED`, `TASK_STATE_FAILED`, `TASK_STATE_CANCELED`, `TASK_STATE_INPUT_REQUIRED`, `TASK_STATE_REJECTED`";

/// An enumeration is read from a name, or from an object whose one member has
/// that name and the value `null`.
pub open spec fn read_named<T>(
    v: JsonV,
    named: spec_fn(Seq<char>) -> Option<T>,
    names: Seq<char>,
) -> Read<T> {
    match v {
        JsonV::Str(s) => match named(s) {
            Some(x) => Ok(x),
            None => Err(unknown_variant(s, names)),
        },
        JsonV::Object(m) => if m.len() != 1 {
            Err("invalid value: map, expected map with a single key"@)
        } else {
            match named(m[0].0) {
                Some(x) => if m[0].1 is Null {
                    Ok(x)
                } else {
                    Err(invalid_type(m[0].1, "unit"@))
                },
                None => Err(unknown_variant(m[0].0, names)),
            }
        },
        _ => Err(invalid_type(v, "string or map"@)),
    }
}

/// A role.
pub open spec fn read_role(v: JsonV) -> Read<Role> {
    read_named(v, |s: Seq<char>| role_named(s), ROLE_NAMES@)
}

/// A task state.
pub open spec fn read_state(v: JsonV) -> Read<TaskState> {
    read_named(v, |s: Seq<char>| state_named(s), STATE_NAMES@)
}

fn get_role(v: &Json) -> (r: Result<Role, String>)
    ensures
        match r {
            Ok(x) => read_role(v@) == Ok::<_, Seq<char>>(x),
            Err(e) => read_role(v@) == Err::<Role, _>(e@),
        },
{
    proof {
        model_of(*v);
    }
    match v {
        Json::Str(s) => match role_of(s.as_str()) {
            Some(x) => Ok(x),
            None => Err(variant_error(s.as_str(), ROLE_NAMES)),
        },
        Json::Object(m) => {
            if m.len() != 1 {
                return Err(owned("invalid value: map, expected map with a single key"));
            }
            match role_of(m[0].0.as_str()) {
                Some(x) => if m[0].1.is_null() {
                    Ok(x)
                } else {
                    Err(type_error(&m[0].1, "unit"))
                },
                None => Err(variant_error(m[0].0.as_str(), ROLE_NAMES)),
            }
        },
        _ => Err(type_error(v, "string or map")),
    }
}

fn get_state(v: &Json) -> (r: Result<TaskState, String>)
    ensures
        match r {
            Ok(x) => read_state(v@) == Ok::<_, Seq<char>>(x),
            Err(e) => read_state(v@) == Err::<TaskState, _>(e@),
        },
{
    proof {
        model_of(*v);
    }
    match v {
        Json::Str(s) => match state_of(s.as_str()) {
            Some(x) => Ok(x),
            None => Err(variant_error(s.as_str(), STATE_NAMES)),
        },
        Json::Object(m) => {
            if m.len() != 1 {
                return Err(owned("invalid value: map, expected map with a single key"));
            }
            match state_of(m[0].0.as_str()) {
                Some(x) => if m[0].1.is_null() {
                    Ok(x)
                } else {
                    Err(type_error(&m[0].1, "unit"))
                },
                None => Err(variant_error(m[0].0.as_str(), STATE_NAMES)),
            }
        },
        _ => Err(type_error(v, "string or map")),
    }
}

/// A part: the first of text, data, URL and raw content that an object holds in
/// a usable form.
pub open spec fn read_part(v: JsonV) -> Read<PartV> {
    if let Some(t) = v.text_at("text"@) {
        Ok(PartV::Text(t))
    } else if let Some(d) = v.get("data"@) {
        Ok(PartV::Data(d))
    } else if let Some(u) = v.text_at("url"@) {
        Ok(PartV::FileUrl(u))
    } else if let Some(r) = v.text_at("raw"@) {
        Ok(PartV::FileRaw(r))
    } else {
        Err("data did not match any variant of untagged enum Part"@)
    }
}

impl Part {
    /// Read a part.
    pub fn from_json(v: &Json) -> (r: Result<Part, String>)
        ensures
            match r {
                Ok(p) => read_part(v@) == Ok::<_, Seq<char>>(p@),
                Err(e) => read_part(v@) == Err::<PartV, _>(e@),
            },
    {
        if let Some(t) = v.get_str("text") {
            return Ok(Part::text(t));
        }
        if let Some(d) = v.get("data") {
            return Ok(Part::data(d.copy()));
        }
        if let Some(u) = v.get_str("url") {
            return Ok(Part::FileUrl { url: owned(u) });
        }
        if let Some(x) = v.get_str("raw") {
            return Ok(Part::FileRaw { raw: owned(x) });
        }
        Err(owned("data did not match any variant of untagged enum Part"))
    }
}

/// The items of a list, read in order up to the first that fails.
pub open spec fn read_each<T>(s: Seq<JsonV>, read: spec_fn(JsonV) -> Read<T>) -> Read<Seq<T>>
    decreases s.len(),
{
    if s.len() == 0 {
        Ok(Seq::empty())
    } else {
        match read_each(s.drop_last(), read) {
            Err(e) => Err(e),
            Ok(done) => match read(s.last()) {
                Ok(x) => Ok(done.push(x)),
                Err(e) => Err(e),
            },
        }
    }
}

/// A list whose items are read one by one.
pub open spec fn read_list<T>(v: JsonV, read: spec_fn(JsonV) -> Read<T>) -> Read<Seq<T>> {
    match v {
        JsonV::Array(s) => read_each(s, read),
        _ => Err(invalid_type(v, "a sequence"@)),
    }
}

/// A list of parts.
pub open spec fn read_parts(v: JsonV) -> Read<Seq<PartV>> {
    read_list(v, |x: JsonV| read_part(x))
}

/// A failure among the first items is the failure of the whole list.
proof fn read_each_fails_early<T>(s: Seq<JsonV>, n: int, read: spec_fn(JsonV) -> Read<T>)
    requires
        0 <= n <= s.len(),
        read_each(s.take(n), read) is Err,
    ensures
        read_each(s, read) is Err,
        read_each(s, read)->Err_0 == read_each(s.take(n), read)->Err_0,
    decreases s.len(),
{
    if n < s.len() {
        assert(s.drop_last().take(n) =~= s.take(n));
        read_each_fails_early(s.drop_last(), n, read);
    } else {
        assert(s.take(n) =~= s);
    }
}

fn get_parts(v: &Json) -> (r: Result<Vec<Part>, String>)
    ensures
        match r {
            Ok(p) => read_parts(v@) == Ok::<_, Seq<char>>(part_views(p@)),
            Err(e) => read_parts(v@) == Err::<Seq<PartV>, _>(e@),
        },
{
    proof {
        model_of(*v);
    }
    let ghost read = |x: JsonV| read_part(x);
    match v {
        Json::Array(s) => {
            let mut out: Vec<Part> = Vec::new();
            let mut i: usize = 0;
            let ghost all = items(s@);
            assert(all.take(0) =~= Seq::empty());
            assert(part_views(out@) =~= Seq::empty());
            while i < s.len()
                invariant
                    i <= s.len(),
                    all == items(s@),
                    v@ == JsonV::Array(all),
                    read == (|x: JsonV| read_part(x)),
                    read_each(all.take(i as int), read) == Ok::<_, Seq<char>>(part_views(out@)),
                decreases s.len() - i,
            {
                assert(all.take(i + 1).drop_last() =~= all.take(i as int));
                assert(all.take(i + 1).last() == s[i as int]@);
                match Part::from_json(&s[i]) {
                    Ok(p) => {
                        let ghost prev = out@;
                        out.push(p);
                        assert(part_views(out@) =~= part_views(prev).push(p@));
                    },
                    Err(e) => {
                        proof {
                            read_each_fails_early(all, i + 1, read);
                        }
                        return Err(e);
                    },
                }
                i += 1;
            }
            assert(all.take(i as int) =~= all);
            Ok(out)
        },
        _ => Err(type_error(v, "a sequence")),
    }
}

/// The members a structure is read from: those of an object, or the items of an
/// array under the names of the fields in order.
pub open spec fn entries(v: JsonV, names: Seq<Seq<char>>) -> Option<Seq<(Seq<char>, JsonV)>> {
    match v {
        JsonV::Object(m) => Some(m),
        JsonV::Array(s) => Some(
            Seq::new(
                if s.len() < names.len() {
                    s.len()
                } else {
                    names.len()
                },
                |i: int| (names[i], s[i]),
            ),
        ),
        _ => None,
    }
}

/// The error of the first member that cannot be read.
pub open spec fn first_failure(
    m: Seq<(Seq<char>, JsonV)>,
    check: spec_fn(Seq<char>, JsonV) -> Option<Seq<char>>,
) -> Option<Seq<char>>
    decreases m.len(),
{
    if m.len() == 0 {
        None
    } else {
        match check(m[0].0, m[0].1) {
            Some(e) => Some(e),
            None => first_failure(m.skip(1), check),
        }
    }
}

/// The first of `required` that has no member.
pub open spec fn first_missing(
    m: Seq<(Seq<char>, JsonV)>,
    required: Seq<Seq<char>>,
) -> Option<int>
    decreases required.len(),
{
    if required.len() == 0 {
        None
    } else {
        match first_missing(m, required.drop_last()) {
            Some(i) => Some(i),
            None => if member(m, required.last()) is None {
                Some(required.len() - 1)
            } else {
                None
            },
        }
    }
}

/// What keeps `v` from being read as the structure `name`: it is neither object
/// nor array, a member cannot be read, a required field is missing, or an array
/// has items left over. The required fields come first among the fields.
pub open spec fn structure_error(
    v: JsonV,
    name: Seq<char>,
    full: Seq<char>,
    names: Seq<Seq<char>>,
    required: Seq<Seq<char>>,
    check: spec_fn(Seq<char>, JsonV) -> Option<Seq<char>>,
) -> Option<Seq<char>> {
    match entries(v, names) {
        None => Some(invalid_type(v, name)),
        Some(m) => match first_failure(m, check) {
            Some(e) => Some(e),
            None => match first_missing(m, required) {
                Some(i) => if v is Object {
                    Some(missing_field(required[i]))
                } else {
                    Some(invalid_length(i as nat, full))
                },
                None => if v is Array && v->Array_0.len() > names.len() {
                    Some(invalid_length(v->Array_0.len(), "fewer elements in array"@))
                } else {
                    None
                },
            },
        },
    }
}

/// The characters of each name.
pub open spec fn name_views(names: Seq<&'static str>) -> Seq<Seq<char>> {
    names.map_values(|s: &'static str| s@)
}

fn entries_of(v: &Json, names: &Vec<&'static str>) -> (r: Option<Vec<(String, Json)>>)
    ensures
        match r {
            Some(m) => entries(v@, name_views(names@)) == Some(fields(m@)),
            None => entries(v@, name_views(names@)) is None,
        },
{
    proof {
        model_of(*v);
    }
    match v {
        Json::Object(m) => Some(clone_fields(m)),
        Json::Array(s) => {
            let mut out: Vec<(String, Json)> = Vec::new();
            let mut i: usize = 0;
            while i < s.len() && i < names.len()
                invariant
                    i <= s.len(),
                    i <= names.len(),
                    out.len() == i,
                    forall|k: int|
                        0 <= k < i ==> (#[trigger] fields(out@)[k]) == (names[k]@, s[k]@),
                decreases s.len() - i,
            {
                let ghost prev = out@;
                put(&mut out, names[i], s[i].copy());
                assert(fields(out@).len() == fields(prev).len() + 1);
                assert(forall|k: int| 0 <= k < i ==> fields(out@)[k] == fields(prev)[k]);
                i += 1;
            }
            assert(fields(out@) =~= entries(v@, name_views(names@))->0);
            Some(out)
        },
        _ => None,
    }
}

/// Where no member fails, the member of a name does not.
proof fn checked_member(
    m: Seq<(Seq<char>, JsonV)>,
    check: spec_fn(Seq<char>, JsonV) -> Option<Seq<char>>,
    key: Seq<char>,
)
    requires
        first_failure(m, check) is None,
        member(m, key) is Some,
    ensures
        check(key, member(m, key)->0) is None,
    decreases m.len(),
{
    if m[0].0 != key {
        checked_member(m.skip(1), check, key);
    }
}

/// Where nothing is missing, each required name has a member.
proof fn none_missing(m: Seq<(Seq<char>, JsonV)>, required: Seq<Seq<char>>, i: int)
    requires
        first_missing(m, required) is None,
        0 <= i < required.len(),
    ensures
        member(m, required[i]) is Some,
    decreases required.len(),
{
    if i < required.len() - 1 {
        none_missing(m, required.drop_last(), i);
        assert(required.drop_last()[i] == required[i]);
    }
}

proof fn missing_early(m: Seq<(Seq<char>, JsonV)>, required: Seq<Seq<char>>, n: int)
    requires
        0 <= n < required.len(),
        first_missing(m, required.take(n)) is None,
        member(m, required[n]) is None,
    ensures
        first_missing(m, required) == Some(n),
    decreases required.len(),
{
    if n < required.len() - 1 {
        assert(required.drop_last().take(n) =~= required.take(n));
        missing_early(m, required.drop_last(), n);
    } else {
        assert(required.drop_last() =~= required.take(n));
    }
}

proof fn failure_step(
    m: Seq<(Seq<char>, JsonV)>,
    n: int,
    check: spec_fn(Seq<char>, JsonV) -> Option<Seq<char>>,
)
    requires
        0 <= n < m.len(),
        forall|i: int| 0 <= i < n ==> check((#[trigger] m[i]).0, m[i].1) is None,
    ensures
        check(m[n].0, m[n].1) is Some ==> first_failure(m, check) == check(m[n].0, m[n].1),
    decreases m.len(),
{
    if n > 0 {
        assert(check(m[0].0, m[0].1) is None);
        assert forall|i: int| 0 <= i < n - 1 implies check(
            (#[trigger] m.skip(1)[i]).0,
            m.skip(1)[i].1,
        ) is None by {
            assert(m.skip(1)[i] == m[i + 1]);
        }
        failure_step(m.skip(1), n - 1, check);
        assert(m.skip(1)[n - 1] == m[n]);
    }
}

proof fn no_failure(
    m: Seq<(Seq<char>, JsonV)>,
    check: spec_fn(Seq<char>, JsonV) -> Option<Seq<char>>,
)
    requires
        forall|i: int| 0 <= i < m.len() ==> check((#[trigger] m[i]).0, m[i].1) is None,
    ensures
        first_failure(m, check) is None,
    decreases m.len(),
{
    if m.len() > 0 {
        assert(check(m[0].0, m[0].1) is None);
        assert forall|i: int| 0 <= i < m.skip(1).len() implies check(
            (#[trigger] m.skip(1)[i]).0,
            m.skip(1)[i].1,
        ) is None by {
            assert(m.skip(1)[i] == m[i + 1]);
        }
        no_failure(m.skip(1), check);
    }
}

fn scan<F: Fn(&str, &Json) -> Option<String>>(
    m: &Vec<(String, Json)>,
    f: F,
    Ghost(check): Ghost<spec_fn(Seq<char>, JsonV) -> Option<Seq<char>>>,
) -> (r: Option<String>)
    requires
        forall|k: &str, v: &Json| f.requires((k, v)),
        forall|k: &str, v: &Json, r: Option<String>|
            #[trigger] f.ensures((k, v), r) ==> opt_view(r) == check(k@, v@),
    ensures
        opt_view(r) == first_failure(fields(m@), check),
{
    let mut i: usize = 0;
    while i < m.len()
        invariant
            i <= m.len(),
            forall|k: &str, v: &Json| f.requires((k, v)),
            forall|k: &str, v: &Json, r: Option<String>|
                #[trigger] f.ensures((k, v), r) ==> opt_view(r) == check(k@, v@),
            forall|j: int|
                0 <= j < i ==> check((#[trigger] fields(m@)[j]).0, fields(m@)[j].1) is None,
        decreases m.len() - i,
    {
        let e: Option<String> = f(m[i].0.as_str(), &m[i].1);
        assert(fields(m@)[i as int] == (m[i as int].0@, m[i as int].1@));
        if e.is_some() {
            proof {
                failure_step(fields(m@), i as int, check);
            }
            return e;
        }
        i += 1;
    }
    proof {
        no_failure(fields(m@), check);
    }
    None
}

fn read_entries<F: Fn(&str, &Json) -> Option<String>>(
    v: &Json,
    name: &str,
    full: &str,
    names: &Vec<&'static str>,
    required: usize,
    f: F,
    Ghost(check): Ghost<spec_fn(Seq<char>, JsonV) -> Option<Seq<char>>>,
) -> (r: Result<Vec<(String, Json)>, String>)
    requires
        required <= names.len(),
        forall|k: &str, v: &Json| f.requires((k, v)),
        forall|k: &str, v: &Json, r: Option<String>|
            #[trigger] f.ensures((k, v), r) ==> opt_view(r) == check(k@, v@),
    ensures
        ({
            let all = name_views(names@);
            let problem = structure_error(
                v@,
                name@,
                full@,
                all,
                all.take(required as int),
                check,
            );
            match r {
                Ok(m) => problem is None && entries(v@, all) == Some(fields(m@)),
                Err(e) => problem == Some(e@),
            }
        }),
{
    let ghost all = name_views(names@);
    let ghost need = all.take(required as int);
    let m: Vec<(String, Json)> = match entries_of(v, names) {
        Some(m) => m,
        None => {
            return Err(type_error(v, name));
        },
    };
    if let Some(e) = scan(&m, f, Ghost(check)) {
        return Err(e);
    }
    let mut i: usize = 0;
    assert(need.take(0) =~= Seq::empty());
    while i < required
        invariant
            i <= required <= names.len(),
            all == name_views(names@),
            need == all.take(required as int),
            entries(v@, all) == Some(fields(m@)),
            first_failure(fields(m@), check) is None,
            first_missing(fields(m@), need.take(i as int)) is None,
        decreases required - i,
    {
        assert(need[i as int] == names[i as int]@);
        if find(&m, names[i]).is_none() {
            proof {
                missing_early(fields(m@), need, i as int);
                model_of(*v);
            }
            if let Json::Object(_) = v {
                return Err(quoted("missing field `", names[i]));
            }
            return Err(length_error(i, full));
        }
        assert(need.take(i + 1).drop_last() =~= need.take(i as int));
        assert(need.take(i + 1).last() == need[i as int]);
        i += 1;
    }
    assert(need.take(i as int) =~= need);
    proof {
        model_of(*v);
    }
    if let Json::Array(s) = v {
        if s.len() > names.len() {
            return Err(length_error(s.len(), "fewer elements in array"));
        }
    }
    Ok(m)
}

/// The fields of a message in order, the required ones first.
pub open spec fn message_names() -> Seq<Seq<char>> {
    seq!["messageId"@, "role"@, "parts"@, "contextId"@, "taskId"@, "metadata"@]
}

/// What keeps a member of a message from being read.
pub open spec fn message_check(key: Seq<char>, v: JsonV) -> Option<Seq<char>> {
    if key == "messageId"@ {
        failure(read_string(v))
    } else if key == "role"@ {
        failure(read_role(v))
    } else if key == "parts"@ {
        failure(read_parts(v))
    } else if key == "contextId"@ || key == "taskId"@ {
        failure(read_opt_string(v))
    } else {
        None
    }
}

/// An optional string field.
pub open spec fn opt_string_of(m: Seq<(Seq<char>, JsonV)>, key: Seq<char>) -> Option<Seq<char>> {
    match member(m, key) {
        Some(v) => read_opt_string(v)->Ok_0,
        None => None,
    }
}

/// An optional field of any type; `null` counts as left out.
pub open spec fn opt_value_of(m: Seq<(Seq<char>, JsonV)>, key: Seq<char>) -> Option<JsonV> {
    match member(m, key) {
        Some(JsonV::Null) => None,
        Some(v) => Some(v),
        None => None,
    }
}

/// What keeps `v` from being a message.
pub open spec fn message_error(v: JsonV) -> Option<Seq<char>> {
    structure_error(
        v,
        "struct Message"@,
        "struct Message with 6 elements"@,
        message_names(),
        message_names().take(3),
        |k: Seq<char>, x: JsonV| message_check(k, x),
    )
}

/// A message.
pub open spec fn read_message(v: JsonV) -> Read<MessageV> {
    match message_error(v) {
        Some(e) => Err(e),
        None => {
            let m = entries(v, message_names())->0;
            Ok(
                MessageV {
                    message_id: read_string(member(m, "messageId"@)->0)->Ok_0,
                    role: read_role(member(m, "role"@)->0)->Ok_0,
                    parts: read_parts(member(m, "parts"@)->0)->Ok_0,
                    context_id: opt_string_of(m, "contextId"@),
                    task_id: opt_string_of(m, "taskId"@),
                    metadata: opt_value_of(m, "metadata"@),
                },
            )
        },
    }
}

fn err_of<T>(r: Result<T, String>) -> (e: Option<String>)
    ensures
        match r {
            Ok(_) => e is None,
            Err(x) => e == Some(x),
        },
{
    match r {
        Ok(_) => None,
        Err(x) => Some(x),
    }
}

fn check_message(key: &str, v: &Json) -> (r: Option<String>)
    ensures
        opt_view(r) == message_check(key@, v@),
{
    if str_eq(key, "messageId") {
        err_of(get_string(v))
    } else if str_eq(key, "role") {
        err_of(get_role(v))
    } else if str_eq(key, "parts") {
        err_of(get_parts(v))
    } else if str_eq(key, "contextId") || str_eq(key, "taskId") {
        err_of(get_opt_string(v))
    } else {
        None
    }
}

fn opt_string_at(m: &Vec<(String, Json)>, key: &str) -> (r: Option<String>)
    requires
        member(fields(m@), key@) matches Some(v) ==> read_opt_string(v) is Ok,
    ensures
        opt_view(r) == opt_string_of(fields(m@), key@),
{
    match find(m, key) {
        Some(i) => match get_opt_string(&m[i].1) {
            Ok(s) => s,
            Err(_) => None,
        },
        None => None,
    }
}

fn opt_value_at(m: &Vec<(String, Json)>, key: &str) -> (r: Option<Json>)
    ensures
        crate::json::opt(r) == opt_value_of(fields(m@), key@),
{
    match find(m, key) {
        Some(i) => if m[i].1.is_null() {
            None
        } else {
            Some(m[i].1.copy())
        },
        None => None,
    }
}

/// A readable value at `key`: its position among the members.
fn at(m: &Vec<(String, Json)>, key: &str) -> (r: usize)
    requires
        member(fields(m@), key@) is Some,
    ensures
        r < m.len(),
        member(fields(m@), key@) == Some(m[r as int].1@),
{
    match find(m, key) {
        Some(i) => i,
        None => 0,
    }
}

impl Message {
    /// Read a message.
    pub fn from_json(v: &Json) -> (r: Result<Message, String>)
        ensures
            match r {
                Ok(m) => read_message(v@) == Ok::<_, Seq<char>>(m@),
                Err(e) => read_message(v@) == Err::<MessageV, _>(e@),
            },
    {
        let mut names: Vec<&'static str> = Vec::new();
        names.push("messageId");
        names.push("role");
        names.push("parts");
        names.push("contextId");
        names.push("taskId");
        names.push("metadata");
        assert(name_views(names@) =~= message_names());
        let ghost check = |k: Seq<char>, x: JsonV| message_check(k, x);
        let m: Vec<(String, Json)> = match read_entries(
            v,
            "struct Message",
            "struct Message with 6 elements",
            &names,
            3,
            check_message,
            Ghost(check),
        ) {
            Ok(m) => m,
            Err(e) => {
                return Err(e);
            },
        };
        proof {
            let f = fields(m@);
            let need = message_names().take(3);
            none_missing(f, need, 0);
            none_missing(f, need, 1);
            none_missing(f, need, 2);
            assert(need[0] == "messageId"@ && need[1] == "role"@ && need[2] == "parts"@);
            checked_member(f, check, "messageId"@);
            checked_member(f, check, "role"@);
            checked_member(f, check, "parts"@);
            if member(f, "contextId"@) is Some {
                checked_member(f, check, "contextId"@);
            }
            if member(f, "taskId"@) is Some {
                checked_member(f, check, "taskId"@);
            }
            message_keys_differ();
        }
        let message_id: String = match get_string(&m[at(&m, "messageId")].1) {
            Ok(s) => s,
            Err(e) => {
                return Err(e);
            },
        };
        let role: Role = match get_role(&m[at(&m, "role")].1) {
            Ok(x) => x,
            Err(e) => {
                return Err(e);
            },
        };
        let parts: Vec<Part> = match get_parts(&m[at(&m, "parts")].1) {
            Ok(p) => p,
            Err(e) => {
                return Err(e);
            },
        };
        Ok(
            Message {
                message_id,
                role,
                parts,
                context_id: opt_string_at(&m, "contextId"),
                task_id: opt_string_at(&m, "taskId"),
                metadata: opt_value_at(&m, "metadata"),
            },
        )
    }
}

proof fn message_keys_differ()
    ensures
        "messageId"@ != "role"@,
        "messageId"@ != "parts"@,
        "messageId"@ != "contextId"@,
        "messageId"@ != "taskId"@,
        "messageId"@ != "metadata"@,
        "role"@ != "parts"@,
        "role"@ != "contextId"@,
        "role"@ != "taskId"@,
        "role"@ != "metadata"@,
        "parts"@ != "contextId"@,
        "parts"@ != "taskId"@,
        "parts"@ != "metadata"@,
        "contextId"@ != "taskId"@,
        "contextId"@ != "metadata"@,
        "taskId"@ != "metadata"@,
{
    reveal_strlit("messageId");
    reveal_strlit("role");
    reveal_strlit("parts");
    reveal_strlit("contextId");
    reveal_strlit("taskId");
    reveal_strlit("metadata");
    assert("messageId"@[0] == 'm' && "messageId"@.len() == 9);
    assert("role"@[0] == 'r');
    assert("parts"@[0] == 'p');
    assert("contextId"@[0] == 'c');
    assert("taskId"@[0] == 't');
    assert("metadata"@[0] == 'm' && "metadata"@.len() == 8);
}

/// The fields of a status in order, the required ones first.
pub open spec fn status_names() -> Seq<Seq<char>> {
    seq!["state"@, "message"@, "timestamp"@]
}

/// A message or `null`.
pub open spec fn read_opt_message(v: JsonV) -> Read<Option<MessageV>> {
    if v is Null {
        Ok(None)
    } else {
        match read_message(v) {
            Ok(m) => Ok(Some(m)),
            Err(e) => Err(e),
        }
    }
}

/// What keeps a member of a status from being read.
pub open spec fn status_check(key: Seq<char>, v: JsonV) -> Option<Seq<char>> {
    if key == "state"@ {
        failure(read_state(v))
    } else if key == "message"@ {
        failure(read_opt_message(v))
    } else if key == "timestamp"@ {
        failure(read_opt_string(v))
    } else {
        None
    }
}

/// What keeps `v` from being a status.
pub open spec fn status_error(v: JsonV) -> Option<Seq<char>> {
    structure_error(
        v,
        "struct TaskStatus"@,
        "struct TaskStatus with 3 elements"@,
        status_names(),
        status_names().take(1),
        |k: Seq<char>, x: JsonV| status_check(k, x),
    )
}

/// A status.
pub open spec fn read_status(v: JsonV) -> Read<TaskStatusV> {
    match status_error(v) {
        Some(e) => Err(e),
        None => {
            let m = entries(v, status_names())->0;
            Ok(
                TaskStatusV {
                    state: read_state(member(m, "state"@)->0)->Ok_0,
                    message: match member(m, "message"@) {
                        Some(x) => read_opt_message(x)->Ok_0,
                        None => None,
                    },
                    timestamp: opt_string_of(m, "timestamp"@),
                },
            )
        },
    }
}

fn get_opt_message(v: &Json) -> (r: Result<Option<Message>, String>)
    ensures
        match r {
            Ok(Some(m)) => read_opt_message(v@) == Ok::<_, Seq<char>>(Some(m@)),
            Ok(None) => read_opt_message(v@) == Ok::<_, Seq<char>>(None::<MessageV>),
            Err(e) => read_opt_message(v@) == Err::<Option<MessageV>, _>(e@),
        },
{
    if v.is_null() {
        return Ok(None);
    }
    match Message::from_json(v) {
        Ok(m) => Ok(Some(m)),
        Err(e) => Err(e),
    }
}

fn check_status(key: &str, v: &Json) -> (r: Option<String>)
    ensures
        opt_view(r) == status_check(key@, v@),
{
    if str_eq(key, "state") {
        err_of(get_state(v))
    } else if str_eq(key, "message") {
        err_of(get_opt_message(v))
    } else if str_eq(key, "timestamp") {
        err_of(get_opt_string(v))
    } else {
        None
    }
}

proof fn status_keys_differ()
    ensures
        "state"@ != "message"@,
        "state"@ != "timestamp"@,
        "message"@ != "timestamp"@,
{
    reveal_strlit("state");
    reveal_strlit("message");
    reveal_strlit("timestamp");
    assert("state"@[0] == 's');
    assert("message"@[0] == 'm');
    assert("timestamp"@[0] == 't');
}

impl TaskStatus {
    /// Read a status.
    pub fn from_json(v: &Json) -> (r: Result<TaskStatus, String>)
        ensures
            match r {
                Ok(s) => read_status(v@) == Ok::<_, Seq<char>>(s@),
                Err(e) => read_status(v@) == Err::<TaskStatusV, _>(e@),
            },
    {
        let mut names: Vec<&'static str> = Vec::new();
        names.push("state");
        names.push("message");
        names.push("timestamp");
        assert(name_views(names@) =~= status_names());
        let ghost check = |k: Seq<char>, x: JsonV| status_check(k, x);
        let m: Vec<(String, Json)> = match read_entries(
            v,
            "struct TaskStatus",
            "struct TaskStatus with 3 elements",
            &names,
            1,
            check_status,
            Ghost(check),
        ) {
            Ok(m) => m,
            Err(e) => {
                return Err(e);
            },
        };
        proof {
            let f = fields(m@);
            none_missing(f, status_names().take(1), 0);
            assert(status_names().take(1)[0] == "state"@);
            checked_member(f, check, "state"@);
            if member(f, "message"@) is Some {
                checked_member(f, check, "message"@);
            }
            if member(f, "timestamp"@) is Some {
                checked_member(f, check, "timestamp"@);
            }
            status_keys_differ();
        }
        let state: TaskState = match get_state(&m[at(&m, "state")].1) {
            Ok(x) => x,
            Err(e) => {
                return Err(e);
            },
        };
        let message: Option<Message> = match find(&m, "message") {
            Some(i) => match get_opt_message(&m[i].1) {
                Ok(x) => x,
                Err(e) => {
                    return Err(e);
                },
            },
            None => None,
        };
        Ok(TaskStatus { state, message, timestamp: opt_string_at(&m, "timestamp") })
    }
}

/// The fields of an artifact in order, the required ones first.
pub open spec fn artifact_names() -> Seq<Seq<char>> {
    seq!["artifactId"@, "parts"@, "name"@]
}

/// What keeps a member of an artifact from being read.
pub open spec fn artifact_check(key: Seq<char>, v: JsonV) -> Option<Seq<char>> {
    if key == "artifactId"@ {
        failure(read_string(v))
    } else if key == "parts"@ {
        failure(read_parts(v))
    } else if key == "name"@ {
        failure(read_opt_string(v))
    } else {
        None
    }
}

/// What keeps `v` from being an artifact.
pub open spec fn artifact_error(v: JsonV) -> Option<Seq<char>> {
    structure_error(
        v,
        "struct Artifact"@,
        "struct Artifact with 3 elements"@,
        artifact_names(),
        artifact_names().take(2),
        |k: Seq<char>, x: JsonV| artifact_check(k, x),
    )
}

/// An artifact.
pub open spec fn read_artifact(v: JsonV) -> Read<ArtifactV> {
    match artifact_error(v) {
        Some(e) => Err(e),
        None => {
            let m = entries(v, artifact_names())->0;
            Ok(
                ArtifactV {
                    artifact_id: read_string(member(m, "artifactId"@)->0)->Ok_0,
                    parts: read_parts(member(m, "parts"@)->0)->Ok_0,
                    name: opt_string_of(m, "name"@),
                },
            )
        },
    }
}

fn check_artifact(key: &str, v: &Json) -> (r: Option<String>)
    ensures
        opt_view(r) == artifact_check(key@, v@),
{
    if str_eq(key, "artifactId") {
        err_of(get_string(v))
    } else if str_eq(key, "parts") {
        err_of(get_parts(v))
    } else if str_eq(key, "name") {
        err_of(get_opt_string(v))
    } else {
        None
    }
}

proof fn artifact_keys_differ()
    ensures
        "artifactId"@ != "parts"@,
        "artifactId"@ != "name"@,
        "parts"@ != "name"@,
{
    reveal_strlit("artifactId");
    reveal_strlit("parts");
    reveal_strlit("name");
    assert("artifactId"@[0] == 'a');
    assert("parts"@[0] == 'p');
    assert("name"@[0] == 'n');
}

impl Artifact {
    /// Read an artifact.
    pub fn from_json(v: &Json) -> (r: Result<Artifact, String>)
        ensures
            match r {
                Ok(a) => read_artifact(v@) == Ok::<_, Seq<char>>(a@),
                Err(e) => read_artifact(v@) == Err::<ArtifactV, _>(e@),
            },
    {
        let mut names: Vec<&'static str> = Vec::new();
        names.push("artifactId");
        names.push("parts");
        names.push("name");
        assert(name_views(names@) =~= artifact_names());
        let ghost check = |k: Seq<char>, x: JsonV| artifact_check(k, x);
        let m: Vec<(String, Json)> = match read_entries(
            v,
            "struct Artifact",
            "struct Artifact with 3 elements",
            &names,
            2,
            check_artifact,
            Ghost(check),
        ) {
            Ok(m) => m,
            Err(e) => {
                return Err(e);
            },
        };
        proof {
            let f = fields(m@);
            let need = artifact_names().take(2);
            none_missing(f, need, 0);
            none_missing(f, need, 1);
            assert(need[0] == "artifactId"@ && need[1] == "parts"@);
            checked_member(f, check, "artifactId"@);
            checked_member(f, check, "parts"@);
            if member(f, "name"@) is Some {
                checked_member(f, check, "name"@);
            }
            artifact_keys_differ();
        }
        let artifact_id: String = match get_string(&m[at(&m, "artifactId")].1) {
            Ok(s) => s,
            Err(e) => {
                return Err(e);
            },
        };
        let parts: Vec<Part> = match get_parts(&m[at(&m, "parts")].1) {
            Ok(p) => p,
            Err(e) => {
                return Err(e);
            },
        };
        Ok(Artifact { artifact_id, parts, name: opt_string_at(&m, "name") })
    }
}

/// A list of artifacts.
pub open spec fn read_artifacts(v: JsonV) -> Read<Seq<ArtifactV>> {
    read_list(v, |x: JsonV| read_artifact(x))
}

fn get_artifacts(v: &Json) -> (r: Result<Vec<Artifact>, String>)
    ensures
        match r {
            Ok(p) => read_artifacts(v@) == Ok::<_, Seq<char>>(artifact_views(p@)),
            Err(e) => read_artifacts(v@) == Err::<Seq<ArtifactV>, _>(e@),
        },
{
    proof {
        model_of(*v);
    }
    let ghost read = |x: JsonV| read_artifact(x);
    match v {
        Json::Array(s) => {
            let mut out: Vec<Artifact> = Vec::new();
            let mut i: usize = 0;
            let ghost all = items(s@);
            assert(all.take(0) =~= Seq::empty());
            assert(artifact_views(out@) =~= Seq::empty());
            while i < s.len()
                invariant
                    i <= s.len(),
                    all == items(s@),
                    v@ == JsonV::Array(all),
                    read == (|x: JsonV| read_artifact(x)),
                    read_each(all.take(i as int), read) == Ok::<_, Seq<char>>(artifact_views(out@)),
                decreases s.len() - i,
            {
                assert(all.take(i + 1).drop_last() =~= all.take(i as int));
                assert(all.take(i + 1).last() == s[i as int]@);
                match Artifact::from_json(&s[i]) {
                    Ok(p) => {
                        let ghost prev = out@;
                        out.push(p);
                        assert(artifact_views(out@) =~= artifact_views(prev).push(p@));
                    },
                    Err(e) => {
                        proof {
                            read_each_fails_early(all, i + 1, read);
                        }
                        return Err(e);
                    },
                }
                i += 1;
            }
            assert(all.take(i as int) =~= all);
            Ok(out)
        },
        _ => Err(type_error(v, "a sequence")),
    }
}

/// A list of messages.
pub open spec fn read_messages(v: JsonV) -> Read<Seq<MessageV>> {
    read_list(v, |x: JsonV| read_message(x))
}

fn get_messages(v: &Json) -> (r: Result<Vec<Message>, String>)
    ensures
        match r {
            Ok(p) => read_messages(v@) == Ok::<_, Seq<char>>(message_views(p@)),
            Err(e) => read_messages(v@) == Err::<Seq<MessageV>, _>(e@),
        },
{
    proof {
        model_of(*v);
    }
    let ghost read = |x: JsonV| read_message(x);
    match v {
        Json::Array(s) => {
            let mut out: Vec<Message> = Vec::new();
            let mut i: usize = 0;
            let ghost all = items(s@);
            assert(all.take(0) =~= Seq::empty());
            assert(message_views(out@) =~= Seq::empty());
            while i < s.len()
                invariant
                    i <= s.len(),
                    all == items(s@),
                    v@ == JsonV::Array(all),
                    read == (|x: JsonV| read_message(x)),
                    read_each(all.take(i as int), read) == Ok::<_, Seq<char>>(message_views(out@)),
                decreases s.len() - i,
            {
                assert(all.take(i + 1).drop_last() =~= all.take(i as int));
                assert(all.take(i + 1).last() == s[i as int]@);
                match Message::from_json(&s[i]) {
                    Ok(p) => {
                        let ghost prev = out@;
                        out.push(p);
                        assert(message_views(out@) =~= message_views(prev).push(p@));
                    },
                    Err(e) => {
                        proof {
                            read_each_fails_early(all, i + 1, read);
                        }
                        return Err(e);
                    },
                }
                i += 1;
            }
            assert(all.take(i as int) =~= all);
            Ok(out)
        },
        _ => Err(type_error(v, "a sequence")),
    }
}

/// The fields of a task in order, the required ones first.
pub open spec fn task_names() -> Seq<Seq<char>> {
    seq!["id"@, "contextId"@, "status"@, "artifacts"@, "history"@]
}

/// What keeps a member of a task from being read.
pub open spec fn task_check(key: Seq<char>, v: JsonV) -> Option<Seq<char>> {
    if key == "id"@ || key == "contextId"@ {
        failure(read_string(v))
    } else if key == "status"@ {
        failure(read_status(v))
    } else if key == "artifacts"@ {
        failure(read_artifacts(v))
    } else if key == "history"@ {
        failure(read_messages(v))
    } else {
        None
    }
}

/// What keeps `v` from being a task.
pub open spec fn task_error(v: JsonV) -> Option<Seq<char>> {
    structure_error(
        v,
        "struct Task"@,
        "struct Task with 5 elements"@,
        task_names(),
        task_names().take(3),
        |k: Seq<char>, x: JsonV| task_check(k, x),
    )
}

/// A task.
pub open spec fn read_task(v: JsonV) -> Read<TaskV> {
    match task_error(v) {
        Some(e) => Err(e),
        None => {
            let m = entries(v, task_names())->0;
            Ok(
                TaskV {
                    id: read_string(member(m, "id"@)->0)->Ok_0,
                    context_id: read_string(member(m, "contextId"@)->0)->Ok_0,
                    status: read_status(member(m, "status"@)->0)->Ok_0,
                    artifacts: match member(m, "artifacts"@) {
                        Some(x) => read_artifacts(x)->Ok_0,
                        None => Seq::empty(),
                    },
                    history: match member(m, "history"@) {
                        Some(x) => read_messages(x)->Ok_0,
                        None => Seq::empty(),
                    },
                },
            )
        },
    }
}

fn check_task(key: &str, v: &Json) -> (r: Option<String>)
    ensures
        opt_view(r) == task_check(key@, v@),
{
    if str_eq(key, "id") || str_eq(key, "contextId") {
        err_of(get_string(v))
    } else if str_eq(key, "status") {
        err_of(TaskStatus::from_json(v))
    } else if str_eq(key, "artifacts") {
        err_of(get_artifacts(v))
    } else if str_eq(key, "history") {
        err_of(get_messages(v))
    } else {
        None
    }
}

proof fn task_keys_differ()
    ensures
        "id"@ != "contextId"@,
        "id"@ != "status"@,
        "id"@ != "artifacts"@,
        "id"@ != "history"@,
        "contextId"@ != "status"@,
        "contextId"@ != "artifacts"@,
        "contextId"@ != "history"@,
        "status"@ != "artifacts"@,
        "status"@ != "history"@,
        "artifacts"@ != "history"@,
{
    reveal_strlit("id");
    reveal_strlit("contextId");
    reveal_strlit("status");
    reveal_strlit("artifacts");
    reveal_strlit("history");
    assert("id"@[0] == 'i');
    assert("contextId"@[0] == 'c');
    assert("status"@[0] == 's');
    assert("artifacts"@[0] == 'a');
    assert("history"@[0] == 'h');
}

impl Task {
    /// Read a task.
    pub fn from_json(v: &Json) -> (r: Result<Task, String>)
        ensures
            match r {
                Ok(t) => read_task(v@) == Ok::<_, Seq<char>>(t@),
                Err(e) => read_task(v@) == Err::<TaskV, _>(e@),
            },
    {
        let mut names: Vec<&'static str> = Vec::new();
        names.push("id");
        names.push("contextId");
        names.push("status");
        names.push("artifacts");
        names.push("history");
        assert(name_views(names@) =~= task_names());
        let ghost check = |k: Seq<char>, x: JsonV| task_check(k, x);
        let m: Vec<(String, Json)> = match read_entries(
            v,
            "struct Task",
            "struct Task with 5 elements",
            &names,
            3,
            check_task,
            Ghost(check),
        ) {
            Ok(m) => m,
            Err(e) => {
                return Err(e);
            },
        };
        proof {
            let f = fields(m@);
            let need = task_names().take(3);
            none_missing(f, need, 0);
            none_missing(f, need, 1);
            none_missing(f, need, 2);
            assert(need[0] == "id"@ && need[1] == "contextId"@ && need[2] == "status"@);
            checked_member(f, check, "id"@);
            checked_member(f, check, "contextId"@);
            checked_member(f, check, "status"@);
            if member(f, "artifacts"@) is Some {
                checked_member(f, check, "artifacts"@);
            }
            if member(f, "history"@) is Some {
                checked_member(f, check, "history"@);
            }
            task_keys_differ();
        }
        let id: String = match get_string(&m[at(&m, "id")].1) {
            Ok(s) => s,
            Err(e) => {
                return Err(e);
            },
        };
        let context_id: String = match get_string(&m[at(&m, "contextId")].1) {
            Ok(s) => s,
            Err(e) => {
                return Err(e);
            },
        };
        let status: TaskStatus = match TaskStatus::from_json(&m[at(&m, "status")].1) {
            Ok(s) => s,
            Err(e) => {
                return Err(e);
            },
        };
        let artifacts: Vec<Artifact> = match find(&m, "artifacts") {
            Some(i) => match get_artifacts(&m[i].1) {
                Ok(x) => x,
                Err(e) => {
                    return Err(e);
                },
            },
            None => Vec::new(),
        };
        let history: Vec<Message> = match find(&m, "history") {
            Some(i) => match get_messages(&m[i].1) {
                Ok(x) => x,
                Err(e) => {
                    return Err(e);
                },
            },
            None => Vec::new(),
        };
        let r = Task { id, context_id, status, artifacts, history };
        assert(r@ =~= read_task(v@)->Ok_0);
        Ok(r)
    }
}

/// The member of a name in two lists of members, one after the other.
proof fn member_append(a: Seq<(Seq<char>, JsonV)>, b: Seq<(Seq<char>, JsonV)>, key: Seq<char>)
    ensures
        member(a + b, key) == (if member(a, key) is Some {
            member(a, key)
        } else {
            member(b, key)
        }),
    decreases a.len(),
{
    if a.len() == 0 {
        assert(a + b =~= b);
    } else {
        assert((a + b).skip(1) =~= a.skip(1) + b);
        if a[0].0 != key {
            member_append(a.skip(1), b, key);
        }
    }
}

proof fn failure_append(
    a: Seq<(Seq<char>, JsonV)>,
    b: Seq<(Seq<char>, JsonV)>,
    check: spec_fn(Seq<char>, JsonV) -> Option<Seq<char>>,
)
    ensures
        first_failure(a + b, check) == (if first_failure(a, check) is Some {
            first_failure(a, check)
        } else {
            first_failure(b, check)
        }),
    decreases a.len(),
{
    if a.len() == 0 {
        assert(a + b =~= b);
    } else {
        assert((a + b).skip(1) =~= a.skip(1) + b);
        failure_append(a.skip(1), b, check);
    }
}

/// Reading every item of a written list gives the list back.
proof fn read_each_written<T>(
    s: Seq<T>,
    write: spec_fn(T) -> JsonV,
    read: spec_fn(JsonV) -> Read<T>,
)
    requires
        forall|i: int| 0 <= i < s.len() ==> read(write(#[trigger] s[i])) == Ok::<T, Seq<char>>(s[i]),
    ensures
        read_each(s.map_values(write), read) == Ok::<_, Seq<char>>(s),
    decreases s.len(),
{
    let w = s.map_values(write);
    if s.len() > 0 {
        assert forall|i: int| 0 <= i < s.drop_last().len() implies read(
            write(#[trigger] s.drop_last()[i]),
        ) == Ok::<T, Seq<char>>(s.drop_last()[i]) by {
            assert(s.drop_last()[i] == s[i]);
        }
        read_each_written(s.drop_last(), write, read);
        assert(w.drop_last() =~= s.drop_last().map_values(write));
        assert(w.last() == write(s[s.len() - 1]));
        assert(s.drop_last().push(s.last()) =~= s);
    } else {
        assert(w =~= Seq::empty());
        assert(s =~= Seq::empty());
    }
}

/// Reading a written part gives the part back.
pub proof fn part_round_trip(p: PartV)
    ensures
        read_part(part_json(p)) == Ok::<_, Seq<char>>(p),
{
    reveal_with_fuel(member, 3);
    reveal_strlit("text");
    reveal_strlit("data");
    reveal_strlit("url");
    reveal_strlit("raw");
    assert("text"@[0] == 't');
    assert("data"@[0] == 'd');
    assert("url"@[0] == 'u');
    assert("raw"@[0] == 'r');
}

proof fn parts_round_trip(s: Seq<PartV>)
    ensures
        read_parts(parts_json(s)) == Ok::<_, Seq<char>>(s),
{
    let write = |p: PartV| part_json(p);
    let read = |x: JsonV| read_part(x);
    assert forall|i: int| 0 <= i < s.len() implies read(write(#[trigger] s[i])) == Ok::<
        PartV,
        Seq<char>,
    >(s[i]) by {
        part_round_trip(s[i]);
    }
    read_each_written(s, write, read);
}

/// Reading a written role gives the role back.
pub proof fn role_round_trip(r: Role)
    ensures
        read_role(JsonV::Str(role_name(r))) == Ok::<_, Seq<char>>(r),
{
    reveal_strlit("ROLE_UNSPECIFIED");
    reveal_strlit("ROLE_USER");
    reveal_strlit("ROLE_AGENT");
    reveal_strlit("user");
    reveal_strlit("agent");
    assert("ROLE_UNSPECIFIED"@.len() == 16);
    assert("ROLE_USER"@.len() == 9);
    assert("ROLE_AGENT"@.len() == 10);
    assert("user"@.len() == 4);
    assert("agent"@.len() == 5);
}

/// Reading a written state gives the state back.
pub proof fn state_round_trip(s: TaskState)
    ensures
        read_state(JsonV::Str(state_name(s))) == Ok::<_, Seq<char>>(s),
{
    reveal_strlit("TASK_STATE_SUBMITTED");
    reveal_strlit("TASK_STATE_WORKING");
    reveal_strlit("TASK_STATE_COMPLETED");
    reveal_strlit("TASK_STATE_FAILED");
    reveal_strlit("TASK_STATE_CANCELED");
    reveal_strlit("TASK_STATE_INPUT_REQUIRED");
    reveal_strlit("TASK_STATE_REJECTED");
    assert("TASK_STATE_SUBMITTED"@[11] == 'S');
    assert("TASK_STATE_WORKING"@[11] == 'W');
    assert("TASK_STATE_COMPLETED"@[11] == 'C' && "TASK_STATE_COMPLETED"@[12] == 'O');
    assert("TASK_STATE_FAILED"@[11] == 'F');
    assert("TASK_STATE_CANCELED"@[11] == 'C' && "TASK_STATE_CANCELED"@[12] == 'A');
    assert("TASK_STATE_INPUT_REQUIRED"@[11] == 'I');
    assert("TASK_STATE_REJECTED"@[11] == 'R');
}

/// Metadata of `null` is written, but read back as no metadata.
pub open spec fn writable(m: MessageV) -> bool {
    m.metadata != Some(JsonV::Null)
}

/// Reading a written message gives the message back.
pub proof fn message_round_trip(m: MessageV)
    requires
        writable(m),
    ensures
        read_message(message_json(m)) == Ok::<_, Seq<char>>(m),
{
    let v = message_json(m);
    let a = seq![
        ("messageId"@, JsonV::Str(m.message_id)),
        ("role"@, JsonV::Str(role_name(m.role))),
        ("parts"@, parts_json(m.parts)),
    ];
    let b = opt_member("contextId"@, opt_text(m.context_id));
    let c = opt_member("taskId"@, opt_text(m.task_id));
    let d = opt_member("metadata"@, m.metadata);
    let all = a + b + c + d;
    let check = |k: Seq<char>, x: JsonV| message_check(k, x);
    message_keys_differ();
    parts_round_trip(m.parts);
    role_round_trip(m.role);
    assert forall|key: Seq<char>| member(all, key) == (if member(a, key) is Some {
        member(a, key)
    } else if member(b, key) is Some {
        member(b, key)
    } else if member(c, key) is Some {
        member(c, key)
    } else {
        member(d, key)
    }) by {
        member_append(a + b + c, d, key);
        member_append(a + b, c, key);
        member_append(a, b, key);
    }
    reveal_with_fuel(member, 5);
    reveal_with_fuel(first_failure, 5);
    assert(first_failure(a, check) is None);
    failure_append(a + b + c, d, check);
    failure_append(a + b, c, check);
    failure_append(a, b, check);
    assert(first_failure(all, check) is None);
    let need = message_names().take(3);
    assert(need =~= seq!["messageId"@, "role"@, "parts"@]);
    assert(member(all, "messageId"@) == Some(JsonV::Str(m.message_id)));
    assert(member(all, "role"@) == Some(JsonV::Str(role_name(m.role))));
    assert(member(all, "parts"@) == Some(parts_json(m.parts)));
    assert(member(all, "contextId"@) == opt_text(m.context_id));
    assert(member(all, "taskId"@) == opt_text(m.task_id));
    assert(member(all, "metadata"@) == m.metadata);
    reveal_with_fuel(first_missing, 4);
    assert(need.drop_last() =~= seq!["messageId"@, "role"@]);
    assert(need.drop_last().drop_last() =~= seq!["messageId"@]);
    assert(need.drop_last().drop_last().drop_last() =~= seq![]);
    assert(first_missing(all, need) is None);
    assert(message_error(v) is None);
}

/// Reading a written status gives the status back.
pub proof fn status_round_trip(s: TaskStatusV)
    requires
        s.message matches Some(m) ==> writable(m),
    ensures
        read_status(status_json(s)) == Ok::<_, Seq<char>>(s),
{
    let v = status_json(s);
    let a = seq![("state"@, JsonV::Str(state_name(s.state)))];
    let mv = match s.message {
        Some(m) => Some(message_json(m)),
        None => None,
    };
    let b = opt_member("message"@, mv);
    let c = opt_member("timestamp"@, opt_text(s.timestamp));
    let all = a + b + c;
    let check = |k: Seq<char>, x: JsonV| status_check(k, x);
    status_keys_differ();
    state_round_trip(s.state);
    if let Some(m) = s.message {
        message_round_trip(m);
    }
    assert forall|key: Seq<char>| member(all, key) == (if member(a, key) is Some {
        member(a, key)
    } else if member(b, key) is Some {
        member(b, key)
    } else {
        member(c, key)
    }) by {
        member_append(a + b, c, key);
        member_append(a, b, key);
    }
    reveal_with_fuel(member, 3);
    reveal_with_fuel(first_failure, 3);
    failure_append(a + b, c, check);
    failure_append(a, b, check);
    assert(first_failure(all, check) is None);
    let need = status_names().take(1);
    assert(need =~= seq!["state"@]);
    assert(need.drop_last() =~= seq![]);
    reveal_with_fuel(first_missing, 2);
    assert(member(all, "state"@) == Some(JsonV::Str(state_name(s.state))));
    assert(member(all, "message"@) == mv);
    assert(member(all, "timestamp"@) == opt_text(s.timestamp));
    assert(status_error(v) is None);
}

/// Reading a written artifact gives the artifact back.
pub proof fn artifact_round_trip(x: ArtifactV)
    ensures
        read_artifact(artifact_json(x)) == Ok::<_, Seq<char>>(x),
{
    let v = artifact_json(x);
    let a = seq![("artifactId"@, JsonV::Str(x.artifact_id)), ("parts"@, parts_json(x.parts))];
    let b = opt_member("name"@, opt_text(x.name));
    let all = a + b;
    let check = |k: Seq<char>, y: JsonV| artifact_check(k, y);
    artifact_keys_differ();
    parts_round_trip(x.parts);
    assert forall|key: Seq<char>| member(all, key) == (if member(a, key) is Some {
        member(a, key)
    } else {
        member(b, key)
    }) by {
        member_append(a, b, key);
    }
    reveal_with_fuel(member, 4);
    reveal_with_fuel(first_failure, 4);
    failure_append(a, b, check);
    assert(first_failure(all, check) is None);
    let need = artifact_names().take(2);
    assert(need =~= seq!["artifactId"@, "parts"@]);
    assert(need.drop_last() =~= seq!["artifactId"@]);
    assert(need.drop_last().drop_last() =~= seq![]);
    reveal_with_fuel(first_missing, 3);
    assert(member(all, "artifactId"@) == Some(JsonV::Str(x.artifact_id)));
    assert(member(all, "parts"@) == Some(parts_json(x.parts)));
    assert(member(all, "name"@) == opt_text(x.name));
    assert(artifact_error(v) is None);
}

/// Reading a written task gives the task back.
pub proof fn task_round_trip(t: TaskV)
    requires
        t.status.message matches Some(m) ==> writable(m),
        forall|i: int| 0 <= i < t.history.len() ==> writable(#[trigger] t.history[i]),
    ensures
        read_task(task_json(t)) == Ok::<_, Seq<char>>(t),
{
    let v = task_json(t);
    let all = v->Object_0;
    let check = |k: Seq<char>, y: JsonV| task_check(k, y);
    task_keys_differ();
    status_round_trip(t.status);
    let write_a = |a: ArtifactV| artifact_json(a);
    let read_a = |x: JsonV| read_artifact(x);
    assert forall|i: int| 0 <= i < t.artifacts.len() implies read_a(
        write_a(#[trigger] t.artifacts[i]),
    ) == Ok::<ArtifactV, Seq<char>>(t.artifacts[i]) by {
        artifact_round_trip(t.artifacts[i]);
    }
    read_each_written(t.artifacts, write_a, read_a);
    let write_m = |m: MessageV| message_json(m);
    let read_m = |x: JsonV| read_message(x);
    assert forall|i: int| 0 <= i < t.history.len() implies read_m(write_m(#[trigger] t.history[i]))
        == Ok::<MessageV, Seq<char>>(t.history[i]) by {
        message_round_trip(t.history[i]);
    }
    read_each_written(t.history, write_m, read_m);
    assert(all.len() == 5);
    assert(all[0] == ("id"@, JsonV::Str(t.id)));
    assert(all[1] == ("contextId"@, JsonV::Str(t.context_id)));
    assert(all[2] == ("status"@, status_json(t.status)));
    assert(all[3] == ("artifacts"@, artifacts_json(t.artifacts)));
    assert(all[4] == ("history"@, messages_json(t.history)));
    member_at(all, "id"@, 0);
    member_at(all, "contextId"@, 1);
    member_at(all, "status"@, 2);
    member_at(all, "artifacts"@, 3);
    member_at(all, "history"@, 4);
    assert forall|i: int| 0 <= i < all.len() implies check((#[trigger] all[i]).0, all[i].1) is None by {
        assert(i == 0 || i == 1 || i == 2 || i == 3 || i == 4);
    }
    no_failure(all, check);
    let need = task_names().take(3);
    assert(need =~= seq!["id"@, "contextId"@, "status"@]);
    assert(need.drop_last() =~= seq!["id"@, "contextId"@]);
    assert(need.drop_last().drop_last() =~= seq!["id"@]);
    assert(need.drop_last().drop_last().drop_last() =~= seq![]);
    reveal_with_fuel(first_missing, 4);
    assert(first_missing(all, need) is None);
    assert(task_error(v) is None);
}

proof fn read_each_reads_each<T>(s: Seq<JsonV>, read: spec_fn(JsonV) -> Read<T>, i: int)
    requires
        read_each(s, read) is Ok,
        0 <= i < s.len(),
    ensures
        read_each(s, read)->Ok_0.len() == s.len(),
        read(s[i]) == Ok::<T, Seq<char>>(read_each(s, read)->Ok_0[i]),
    decreases s.len(),
{
    if s.len() > 1 {
        let front = s.drop_last();
        if i < front.len() {
            read_each_reads_each(front, read, i);
            assert(front[i] == s[i]);
        } else {
            read_each_reads_each(front, read, 0);
        }
    } else {
        assert(s.drop_last() =~= Seq::empty());
        assert(read_each(s.drop_last(), read) == Ok::<Seq<T>, Seq<char>>(Seq::empty()));
    }
}

proof fn read_each_counts<T>(s: Seq<JsonV>, read: spec_fn(JsonV) -> Read<T>)
    requires
        read_each(s, read) is Ok,
    ensures
        read_each(s, read)->Ok_0.len() == s.len(),
{
    if s.len() > 0 {
        read_each_reads_each(s, read, 0);
    }
}

/// A message that is read has the fields of its object: the string under each
/// name, the parts under `parts` one by one, and no context, task or metadata
/// where there is none, or `null`.
pub proof fn read_messages_have_their_fields(v: JsonV, m: MessageV)
    requires
        v is Object,
        read_message(v) == Ok::<_, Seq<char>>(m),
    ensures
        v.text_at("messageId"@) == Some(m.message_id),
        v.get("role"@) matches Some(r) && read_role(r) == Ok::<_, Seq<char>>(m.role),
        v.get("parts"@) matches Some(JsonV::Array(s)) && s.len() == m.parts.len() && forall|i: int|
            0 <= i < s.len() ==> read_part(s[i]) == Ok::<_, Seq<char>>(#[trigger] m.parts[i]),
        m.context_id == v.text_at("contextId"@),
        m.task_id == v.text_at("taskId"@),
        m.metadata == (match v.get("metadata"@) {
            None | Some(JsonV::Null) => None,
            Some(x) => Some(x),
        }),
{
    let f = v->Object_0;
    let check = |k: Seq<char>, x: JsonV| message_check(k, x);
    let need = message_names().take(3);
    none_missing(f, need, 0);
    none_missing(f, need, 1);
    none_missing(f, need, 2);
    assert(need[0] == "messageId"@ && need[1] == "role"@ && need[2] == "parts"@);
    message_keys_differ();
    checked_member(f, check, "messageId"@);
    checked_member(f, check, "role"@);
    checked_member(f, check, "parts"@);
    if member(f, "contextId"@) is Some {
        checked_member(f, check, "contextId"@);
    }
    if member(f, "taskId"@) is Some {
        checked_member(f, check, "taskId"@);
    }
    let read = |x: JsonV| read_part(x);
    let s = member(f, "parts"@)->0->Array_0;
    read_each_counts(s, read);
    assert forall|i: int| 0 <= i < s.len() implies read_part(s[i]) == Ok::<_, Seq<char>>(
        #[trigger] m.parts[i],
    ) by {
        read_each_reads_each(s, read, i);
    }
}

/// A written message has a member for each of its fields, in this form, and none
/// for the fields it does not have.
pub proof fn written_messages_have_their_fields(m: MessageV)
    ensures
        message_json(m).text_at("messageId"@) == Some(m.message_id),
        message_json(m).text_at("role"@) == Some(role_name(m.role)),
        message_json(m).get("parts"@) matches Some(JsonV::Array(s)) && s.len() == m.parts.len()
            && forall|i: int| 0 <= i < s.len() ==> s[i] == part_json(#[trigger] m.parts[i]),
        message_json(m).text_at("contextId"@) == m.context_id,
        message_json(m).text_at("taskId"@) == m.task_id,
        message_json(m).get("metadata"@) == m.metadata,
{
    let a = seq![
        ("messageId"@, JsonV::Str(m.message_id)),
        ("role"@, JsonV::Str(role_name(m.role))),
        ("parts"@, parts_json(m.parts)),
    ];
    let b = opt_member("contextId"@, opt_text(m.context_id));
    let c = opt_member("taskId"@, opt_text(m.task_id));
    let d = opt_member("metadata"@, m.metadata);
    let all = a + b + c + d;
    message_keys_differ();
    assert forall|key: Seq<char>| member(all, key) == (if member(a, key) is Some {
        member(a, key)
    } else if member(b, key) is Some {
        member(b, key)
    } else if member(c, key) is Some {
        member(c, key)
    } else {
        member(d, key)
    }) by {
        member_append(a + b + c, d, key);
        member_append(a + b, c, key);
        member_append(a, b, key);
    }
    reveal_with_fuel(member, 5);
    assert(member(all, "messageId"@) == Some(JsonV::Str(m.message_id)));
    assert(member(all, "role"@) == Some(JsonV::Str(role_name(m.role))));
    assert(member(all, "parts"@) == Some(parts_json(m.parts)));
    assert(member(all, "contextId"@) == opt_text(m.context_id));
    assert(member(all, "taskId"@) == opt_text(m.task_id));
    assert(member(all, "metadata"@) == m.metadata);
}

/// A written status has its state by name, and its message and its time where it
/// has them.
pub proof fn written_statuses_have_their_fields(s: TaskStatusV)
    ensures
        status_json(s).text_at("state"@) == Some(state_name(s.state)),
        status_json(s).get("message"@) == (match s.message {
            Some(m) => Some(message_json(m)),
            None => None,
        }),
        status_json(s).text_at("timestamp"@) == s.timestamp,
{
    let a = seq![("state"@, JsonV::Str(state_name(s.state)))];
    let b = opt_member(
        "message"@,
        match s.message {
            Some(m) => Some(message_json(m)),
            None => None,
        },
    );
    let c = opt_member("timestamp"@, opt_text(s.timestamp));
    status_keys_differ();
    assert forall|key: Seq<char>| member(a + b + c, key) == (if member(a, key) is Some {
        member(a, key)
    } else if member(b, key) is Some {
        member(b, key)
    } else {
        member(c, key)
    }) by {
        member_append(a + b, c, key);
        member_append(a, b, key);
    }
    reveal_with_fuel(member, 3);
    assert(member(a + b + c, "timestamp"@) == opt_text(s.timestamp));
    assert(member(a + b + c, "state"@) == Some(JsonV::Str(state_name(s.state))));
}

/// A written artifact has its id and its parts, and its name where it has one.
pub proof fn written_artifacts_have_their_fields(x: ArtifactV)
    ensures
        artifact_json(x).text_at("artifactId"@) == Some(x.artifact_id),
        artifact_json(x).get("parts"@) matches Some(JsonV::Array(s)) && s.len() == x.parts.len()
            && forall|i: int| 0 <= i < s.len() ==> s[i] == part_json(#[trigger] x.parts[i]),
        artifact_json(x).text_at("name"@) == x.name,
{
    let a = seq![("artifactId"@, JsonV::Str(x.artifact_id)), ("parts"@, parts_json(x.parts))];
    let b = opt_member("name"@, opt_text(x.name));
    artifact_keys_differ();
    assert forall|key: Seq<char>| member(a + b, key) == (if member(a, key) is Some {
        member(a, key)
    } else {
        member(b, key)
    }) by {
        member_append(a, b, key);
    }
    reveal_with_fuel(member, 4);
    assert(member(a, "artifactId"@) == Some(JsonV::Str(x.artifact_id)));
    assert(member(a, "parts"@) == Some(parts_json(x.parts)));
    assert(member(a + b, "name"@) == opt_text(x.name));
}

/// A written task has its id, its conversation, its status, and its artifacts and
/// messages one by one.
pub proof fn written_tasks_have_their_fields(t: TaskV)
    ensures
        task_json(t).text_at("id"@) == Some(t.id),
        task_json(t).text_at("contextId"@) == Some(t.context_id),
        task_json(t).get("status"@) == Some(status_json(t.status)),
        task_json(t).get("artifacts"@) matches Some(JsonV::Array(s)) && s.len() == t.artifacts.len()
            && forall|i: int| 0 <= i < s.len() ==> s[i] == artifact_json(#[trigger] t.artifacts[i]),
        task_json(t).get("history"@) matches Some(JsonV::Array(s)) && s.len() == t.history.len()
            && forall|i: int| 0 <= i < s.len() ==> s[i] == message_json(#[trigger] t.history[i]),
{
    task_keys_differ();
    let m = task_json(t)->Object_0;
    member_at(m, "id"@, 0);
    member_at(m, "contextId"@, 1);
    member_at(m, "status"@, 2);
    member_at(m, "artifacts"@, 3);
    member_at(m, "history"@, 4);
}

/// A status that is read has the fields of its object.
pub proof fn read_statuses_have_their_fields(v: JsonV, s: TaskStatusV)
    requires
        v is Object,
        read_status(v) == Ok::<_, Seq<char>>(s),
    ensures
        v.get("state"@) matches Some(x) && read_state(x) == Ok::<_, Seq<char>>(s.state),
        match v.get("message"@) {
            None | Some(JsonV::Null) => s.message is None,
            Some(x) => s.message is Some && read_message(x) == Ok::<_, Seq<char>>(s.message->0),
        },
        s.timestamp == v.text_at("timestamp"@),
{
    let f = v->Object_0;
    let check = |k: Seq<char>, x: JsonV| status_check(k, x);
    let need = status_names().take(1);
    none_missing(f, need, 0);
    assert(need[0] == "state"@);
    status_keys_differ();
    checked_member(f, check, "state"@);
    if member(f, "message"@) is Some {
        checked_member(f, check, "message"@);
    }
    if member(f, "timestamp"@) is Some {
        checked_member(f, check, "timestamp"@);
    }
}

/// An artifact that is read has the fields of its object.
pub proof fn read_artifacts_have_their_fields(v: JsonV, a: ArtifactV)
    requires
        v is Object,
        read_artifact(v) == Ok::<_, Seq<char>>(a),
    ensures
        v.text_at("artifactId"@) == Some(a.artifact_id),
        v.get("parts"@) matches Some(JsonV::Array(s)) && s.len() == a.parts.len() && forall|i: int|
            0 <= i < s.len() ==> read_part(s[i]) == Ok::<_, Seq<char>>(#[trigger] a.parts[i]),
        a.name == v.text_at("name"@),
{
    let f = v->Object_0;
    let check = |k: Seq<char>, x: JsonV| artifact_check(k, x);
    let need = artifact_names().take(2);
    none_missing(f, need, 0);
    none_missing(f, need, 1);
    assert(need[0] == "artifactId"@ && need[1] == "parts"@);
    artifact_keys_differ();
    checked_member(f, check, "artifactId"@);
    checked_member(f, check, "parts"@);
    if member(f, "name"@) is Some {
        checked_member(f, check, "name"@);
    }
    let read = |x: JsonV| read_part(x);
    let s = member(f, "parts"@)->0->Array_0;
    read_each_counts(s, read);
    assert forall|i: int| 0 <= i < s.len() implies read_part(s[i]) == Ok::<_, Seq<char>>(
        #[trigger] a.parts[i],
    ) by {
        read_each_reads_each(s, read, i);
    }
}

/// A task that is read has the fields of its object, and no artifacts or messages
/// where its object has none.
pub proof fn read_tasks_have_their_fields(v: JsonV, t: TaskV)
    requires
        v is Object,
        read_task(v) == Ok::<_, Seq<char>>(t),
    ensures
        v.text_at("id"@) == Some(t.id),
        v.text_at("contextId"@) == Some(t.context_id),
        v.get("status"@) matches Some(x) && read_status(x) == Ok::<_, Seq<char>>(t.status),
        match v.get("artifacts"@) {
            Some(x) => x is Array && x->Array_0.len() == t.artifacts.len() && forall|i: int|
                0 <= i < t.artifacts.len() ==> read_artifact(x->Array_0[i]) == Ok::<_, Seq<char>>(
                    #[trigger] t.artifacts[i],
                ),
            None => t.artifacts.len() == 0,
        },
        match v.get("history"@) {
            Some(x) => x is Array && x->Array_0.len() == t.history.len() && forall|i: int|
                0 <= i < t.history.len() ==> read_message(x->Array_0[i]) == Ok::<_, Seq<char>>(
                    #[trigger] t.history[i],
                ),
            None => t.history.len() == 0,
        },
{
    let f = v->Object_0;
    let check = |k: Seq<char>, x: JsonV| task_check(k, x);
    let need = task_names().take(3);
    none_missing(f, need, 0);
    none_missing(f, need, 1);
    none_missing(f, need, 2);
    assert(need[0] == "id"@ && need[1] == "contextId"@ && need[2] == "status"@);
    task_keys_differ();
    checked_member(f, check, "id"@);
    checked_member(f, check, "contextId"@);
    checked_member(f, check, "status"@);
    if let Some(x) = member(f, "artifacts"@) {
        checked_member(f, check, "artifacts"@);
        let read = |y: JsonV| read_artifact(y);
        let s = x->Array_0;
        read_each_counts(s, read);
        assert forall|i: int| 0 <= i < s.len() implies read_artifact(s[i]) == Ok::<_, Seq<char>>(
            #[trigger] t.artifacts[i],
        ) by {
            read_each_reads_each(s, read, i);
        }
    }
    if let Some(x) = member(f, "history"@) {
        checked_member(f, check, "history"@);
        let read = |y: JsonV| read_message(y);
        let s = x->Array_0;
        read_each_counts(s, read);
        assert forall|i: int| 0 <= i < s.len() implies read_message(s[i]) == Ok::<_, Seq<char>>(
            #[trigger] t.history[i],
        ) by {
            read_each_reads_each(s, read, i);
        }
    }
}

/// A role and a state are read from their names, and from no other text. The short
/// names of the two parties are names too.
pub proof fn roles_and_states_are_read_from_their_names(s: Seq<char>)
    ensures
        read_role(JsonV::Str(s)) == Ok::<_, Seq<char>>(Role::User) <==> s == "ROLE_USER"@ || s
            == "user"@,
        read_role(JsonV::Str(s)) == Ok::<_, Seq<char>>(Role::Agent) <==> s == "ROLE_AGENT"@ || s
            == "agent"@,
        read_role(JsonV::Str(s)) == Ok::<_, Seq<char>>(Role::Unspecified) <==> s
            == "ROLE_UNSPECIFIED"@,
        forall|x: TaskState|
            read_state(JsonV::Str(s)) == Ok::<_, Seq<char>>(x) <==> s == #[trigger] state_name(x),
{
    role_round_trip(Role::User);
    role_round_trip(Role::Agent);
    role_round_trip(Role::Unspecified);
    reveal_strlit("user");
    reveal_strlit("agent");
    reveal_strlit("ROLE_UNSPECIFIED");
    reveal_strlit("ROLE_USER");
    reveal_strlit("ROLE_AGENT");
    assert("user"@.len() == 4);
    assert("agent"@.len() == 5);
    assert("ROLE_UNSPECIFIED"@.len() == 16);
    assert("ROLE_USER"@.len() == 9);
    assert("ROLE_AGENT"@.len() == 10);
    assert forall|x: TaskState| read_state(JsonV::Str(s)) == Ok::<_, Seq<char>>(x) <==> s
        == #[trigger] state_name(x) by {
        state_round_trip(x);
    }
}

/// A part is what the first of its members `text`, `data`, `url` and `raw` says,
/// where `text`, `url` and `raw` are strings; a value with none of them is no part.
pub proof fn parts_are_told_by_their_members(v: JsonV)
    ensures
        v.text_at("text"@) matches Some(t) ==> read_part(v) == Ok::<_, Seq<char>>(PartV::Text(t)),
        v.text_at("text"@) is None ==> (v.get("data"@) matches Some(d) ==> read_part(v) == Ok::<
            _,
            Seq<char>,
        >(PartV::Data(d))),
        v.text_at("text"@) is None && v.get("data"@) is None ==> (v.text_at("url"@) matches Some(u)
            ==> read_part(v) == Ok::<_, Seq<char>>(PartV::FileUrl(u))),
        v.text_at("text"@) is None && v.get("data"@) is None && v.text_at("url"@) is None ==> (
        v.text_at("raw"@) matches Some(r) ==> read_part(v) == Ok::<_, Seq<char>>(PartV::FileRaw(r))),
        v.text_at("text"@) is None && v.get("data"@) is None && v.text_at("url"@) is None
            && v.text_at("raw"@) is None ==> read_part(v) == Err::<PartV, _>(
            "data did not match any variant of untagged enum Part"@,
        ),
{
}

proof fn each_is_read<T>(s: Seq<JsonV>, read: spec_fn(JsonV) -> Read<T>)
    requires
        forall|i: int| 0 <= i < s.len() ==> read(#[trigger] s[i]) is Ok,
    ensures
        read_each(s, read) is Ok,
    decreases s.len(),
{
    if s.len() > 0 {
        assert forall|i: int| 0 <= i < s.drop_last().len() implies read(
            #[trigger] s.drop_last()[i],
        ) is Ok by {
            assert(s.drop_last()[i] == s[i]);
        }
        each_is_read(s.drop_last(), read);
        assert(read(s[s.len() - 1]) is Ok);
    }
}

proof fn member_of_distinct(m: Seq<(Seq<char>, JsonV)>, i: int)
    requires
        crate::json::distinct(m),
        0 <= i < m.len(),
    ensures
        member(m, m[i].0) == Some(m[i].1),
{
    assert forall|j: int| 0 <= j < i implies (#[trigger] m[j]).0 != m[i].0 by {
        assert(m[j].0 != m[i].0);
    }
    member_at(m, m[i].0, i);
}

/// A string, or nothing, stands under `key`.
pub open spec fn string_or_none(v: JsonV, key: Seq<char>) -> bool {
    match v.get(key) {
        None | Some(JsonV::Null) | Some(JsonV::Str(_)) => true,
        _ => false,
    }
}

/// Whatever stands under `key` is a list of parts.
pub open spec fn parts_or_none(v: JsonV, key: Seq<char>) -> bool {
    match v.get(key) {
        None => true,
        Some(JsonV::Array(s)) => forall|i: int|
            0 <= i < s.len() ==> read_part(#[trigger] s[i]) is Ok,
        _ => false,
    }
}

/// A message whose members have their types is read as soon as it has an id, a role
/// and parts, and is refused for the first of these that it lacks. What else it
/// holds does not count.
pub proof fn messages_need_id_role_and_parts(v: JsonV)
    requires
        v is Object,
        crate::json::distinct(v->Object_0),
        v.get("messageId"@) matches Some(x) ==> x is Str,
        v.get("role"@) matches Some(x) ==> read_role(x) is Ok,
        parts_or_none(v, "parts"@),
        string_or_none(v, "contextId"@),
        string_or_none(v, "taskId"@),
    ensures
        read_message(v) is Ok <==> v.get("messageId"@) is Some && v.get("role"@) is Some && v.get(
            "parts"@,
        ) is Some,
        v.get("messageId"@) is None ==> read_message(v) == Err::<MessageV, _>(
            "missing field `"@ + "messageId"@ + "`"@,
        ),
        v.get("messageId"@) is Some && v.get("role"@) is None ==> read_message(v) == Err::<
            MessageV,
            _,
        >("missing field `"@ + "role"@ + "`"@),
        v.get("messageId"@) is Some && v.get("role"@) is Some && v.get("parts"@) is None
            ==> read_message(v) == Err::<MessageV, _>("missing field `"@ + "parts"@ + "`"@),
{
    let f = v->Object_0;
    let check = |k: Seq<char>, x: JsonV| message_check(k, x);
    message_keys_differ();
    assert forall|i: int| 0 <= i < f.len() implies check((#[trigger] f[i]).0, f[i].1) is None by {
        member_of_distinct(f, i);
        if f[i].0 == "parts"@ {
            each_is_read(f[i].1->Array_0, |x: JsonV| read_part(x));
        }
    }
    no_failure(f, check);
    let need = message_names().take(3);
    assert(need =~= seq!["messageId"@, "role"@, "parts"@]);
    assert(need.drop_last() =~= seq!["messageId"@, "role"@]);
    assert(need.drop_last().drop_last() =~= seq!["messageId"@]);
    assert(need.drop_last().drop_last().drop_last() =~= seq![]);
    reveal_with_fuel(first_missing, 4);
}

/// A status whose members have their types is read as soon as it has a state.
pub proof fn statuses_need_a_state(v: JsonV)
    requires
        v is Object,
        crate::json::distinct(v->Object_0),
        v.get("state"@) matches Some(x) ==> read_state(x) is Ok,
        v.get("message"@) matches Some(x) ==> x is Null || read_message(x) is Ok,
        string_or_none(v, "timestamp"@),
    ensures
        read_status(v) is Ok <==> v.get("state"@) is Some,
        v.get("state"@) is None ==> read_status(v) == Err::<TaskStatusV, _>(
            "missing field `"@ + "state"@ + "`"@,
        ),
{
    let f = v->Object_0;
    let check = |k: Seq<char>, x: JsonV| status_check(k, x);
    status_keys_differ();
    assert forall|i: int| 0 <= i < f.len() implies check((#[trigger] f[i]).0, f[i].1) is None by {
        member_of_distinct(f, i);
    }
    no_failure(f, check);
    let need = status_names().take(1);
    assert(need =~= seq!["state"@]);
    assert(need.drop_last() =~= seq![]);
    reveal_with_fuel(first_missing, 2);
}

/// An artifact whose members have their types is read as soon as it has an id and
/// parts.
pub proof fn artifacts_need_id_and_parts(v: JsonV)
    requires
        v is Object,
        crate::json::distinct(v->Object_0),
        v.get("artifactId"@) matches Some(x) ==> x is Str,
        parts_or_none(v, "parts"@),
        string_or_none(v, "name"@),
    ensures
        read_artifact(v) is Ok <==> v.get("artifactId"@) is Some && v.get("parts"@) is Some,
        v.get("artifactId"@) is None ==> read_artifact(v) == Err::<ArtifactV, _>(
            "missing field `"@ + "artifactId"@ + "`"@,
        ),
        v.get("artifactId"@) is Some && v.get("parts"@) is None ==> read_artifact(v) == Err::<
            ArtifactV,
            _,
        >("missing field `"@ + "parts"@ + "`"@),
{
    let f = v->Object_0;
    let check = |k: Seq<char>, x: JsonV| artifact_check(k, x);
    artifact_keys_differ();
    assert forall|i: int| 0 <= i < f.len() implies check((#[trigger] f[i]).0, f[i].1) is None by {
        member_of_distinct(f, i);
        if f[i].0 == "parts"@ {
            each_is_read(f[i].1->Array_0, |x: JsonV| read_part(x));
        }
    }
    no_failure(f, check);
    let need = artifact_names().take(2);
    assert(need =~= seq!["artifactId"@, "parts"@]);
    assert(need.drop_last() =~= seq!["artifactId"@]);
    assert(need.drop_last().drop_last() =~= seq![]);
    reveal_with_fuel(first_missing, 3);
}

/// A task whose members have their types is read as soon as it has an id, a
/// conversation and a status.
pub proof fn tasks_need_id_context_and_status(v: JsonV)
    requires
        v is Object,
        crate::json::distinct(v->Object_0),
        v.get("id"@) matches Some(x) ==> x is Str,
        v.get("contextId"@) matches Some(x) ==> x is Str,
        v.get("status"@) matches Some(x) ==> read_status(x) is Ok,
        v.get("artifacts"@) matches Some(x) ==> x is Array && forall|i: int|
            0 <= i < x->Array_0.len() ==> read_artifact(#[trigger] x->Array_0[i]) is Ok,
        v.get("history"@) matches Some(x) ==> x is Array && forall|i: int|
            0 <= i < x->Array_0.len() ==> read_message(#[trigger] x->Array_0[i]) is Ok,
    ensures
        read_task(v) is Ok <==> v.get("id"@) is Some && v.get("contextId"@) is Some && v.get(
            "status"@,
        ) is Some,
        v.get("id"@) is None ==> read_task(v) == Err::<TaskV, _>("missing field `"@ + "id"@ + "`"@),
        v.get("id"@) is Some && v.get("contextId"@) is None ==> read_task(v) == Err::<TaskV, _>(
            "missing field `"@ + "contextId"@ + "`"@,
        ),
        v.get("id"@) is Some && v.get("contextId"@) is Some && v.get("status"@) is None
            ==> read_task(v) == Err::<TaskV, _>("missing field `"@ + "status"@ + "`"@),
{
    let f = v->Object_0;
    let check = |k: Seq<char>, x: JsonV| task_check(k, x);
    task_keys_differ();
    assert forall|i: int| 0 <= i < f.len() implies check((#[trigger] f[i]).0, f[i].1) is None by {
        member_of_distinct(f, i);
        if f[i].0 == "artifacts"@ {
            each_is_read(f[i].1->Array_0, |x: JsonV| read_artifact(x));
        }
        if f[i].0 == "history"@ {
            each_is_read(f[i].1->Array_0, |x: JsonV| read_message(x));
        }
    }
    no_failure(f, check);
    let need = task_names().take(3);
    assert(need =~= seq!["id"@, "contextId"@, "status"@]);
    assert(need.drop_last() =~= seq!["id"@, "contextId"@]);
    assert(need.drop_last().drop_last() =~= seq!["id"@]);
    assert(need.drop_last().drop_last().drop_last() =~= seq![]);
    reveal_with_fuel(first_missing, 4);
}

/// Values under names, in order.
pub open spec fn named_values(names: Seq<Seq<char>>, values: Seq<JsonV>) -> JsonV {
    JsonV::Object(Seq::new(values.len(), |i: int| (names[i], values[i])))
}

/// What is given as a list is read as the object with the same values under the
/// names of the fields, in their order.
pub proof fn lists_are_read_by_position(s: Seq<JsonV>)
    ensures
        3 <= s.len() <= 6 ==> read_message(JsonV::Array(s)) == read_message(
            named_values(
                seq!["messageId"@, "role"@, "parts"@, "contextId"@, "taskId"@, "metadata"@],
                s,
            ),
        ),
        1 <= s.len() <= 3 ==> read_status(JsonV::Array(s)) == read_status(
            named_values(seq!["state"@, "message"@, "timestamp"@], s),
        ),
        2 <= s.len() <= 3 ==> read_artifact(JsonV::Array(s)) == read_artifact(
            named_values(seq!["artifactId"@, "parts"@, "name"@], s),
        ),
        3 <= s.len() <= 5 ==> read_task(JsonV::Array(s)) == read_task(
            named_values(seq!["id"@, "contextId"@, "status"@, "artifacts"@, "history"@], s),
        ),
{
    let v = JsonV::Array(s);
    message_keys_differ();
    status_keys_differ();
    artifact_keys_differ();
    task_keys_differ();
    if 3 <= s.len() <= 6 {
        let o = named_values(message_names(), s);
        assert(entries(v, message_names())->0 =~= o->Object_0);
        let need = message_names().take(3);
        assert(need =~= seq!["messageId"@, "role"@, "parts"@]);
        all_present(o->Object_0, need);
    }
    if 1 <= s.len() <= 3 {
        let o = named_values(status_names(), s);
        assert(entries(v, status_names())->0 =~= o->Object_0);
        let need = status_names().take(1);
        assert(need =~= seq!["state"@]);
        all_present(o->Object_0, need);
    }
    if 2 <= s.len() <= 3 {
        let o = named_values(artifact_names(), s);
        assert(entries(v, artifact_names())->0 =~= o->Object_0);
        let need = artifact_names().take(2);
        assert(need =~= seq!["artifactId"@, "parts"@]);
        all_present(o->Object_0, need);
    }
    if 3 <= s.len() <= 5 {
        let o = named_values(task_names(), s);
        assert(entries(v, task_names())->0 =~= o->Object_0);
        let need = task_names().take(3);
        assert(need =~= seq!["id"@, "contextId"@, "status"@]);
        all_present(o->Object_0, need);
    }
}

proof fn all_present(m: Seq<(Seq<char>, JsonV)>, required: Seq<Seq<char>>)
    requires
        required.len() <= m.len(),
        forall|i: int| 0 <= i < required.len() ==> (#[trigger] required[i]) == m[i].0,
    ensures
        first_missing(m, required) is None,
    decreases required.len(),
{
    if required.len() > 0 {
        let front = required.drop_last();
        assert forall|i: int| 0 <= i < front.len() implies (#[trigger] front[i]) == m[i].0 by {
            assert(front[i] == required[i]);
        }
        all_present(m, front);
        crate::json::position_found(m, required.last());
        assert(required[required.len() - 1] == m[required.len() - 1].0);
    }
}

/// What is neither an object nor a list is no message, status, artifact or task.
pub proof fn plain_values_are_no_structures(v: JsonV)
    requires
        v !is Object,
        v !is Array,
    ensures
        read_message(v) == Err::<MessageV, _>(
            "invalid type: "@ + found(v) + ", expected "@ + "struct Message"@,
        ),
        read_status(v) == Err::<TaskStatusV, _>(
            "invalid type: "@ + found(v) + ", expected "@ + "struct TaskStatus"@,
        ),
        read_artifact(v) == Err::<ArtifactV, _>(
            "invalid type: "@ + found(v) + ", expected "@ + "struct Artifact"@,
        ),
        read_task(v) == Err::<TaskV, _>(
            "invalid type: "@ + found(v) + ", expected "@ + "struct Task"@,
        ),
        v is Null ==> found(v) == "null"@,
        v == JsonV::Bool(true) ==> found(v) == "boolean `true`"@,
        v == JsonV::Bool(false) ==> found(v) == "boolean `false`"@,
{
}

/// The numeral of a negative number is that of its opposite behind a minus sign.
pub proof fn negative_numerals_have_a_sign(n: nat)
    ensures
        signed_numeral(n as int) == numeral(n),
        n > 0 ==> signed_numeral(-n) == "-"@ + numeral(n),
{
}

/// A role or state may also stand as the one name of an object, with `null` under
/// it, and then reads as the name alone does.
pub proof fn names_may_stand_in_an_object(s: Seq<char>, x: JsonV)
    ensures
        read_role(JsonV::Object(seq![(s, JsonV::Null)])) == read_role(JsonV::Str(s)),
        read_state(JsonV::Object(seq![(s, JsonV::Null)])) == read_state(JsonV::Str(s)),
        !(x is Null) ==> read_role(JsonV::Object(seq![(s, x)])) is Err && read_state(
            JsonV::Object(seq![(s, x)]),
        ) is Err,
        !(x is Str) && !(x is Object) ==> read_role(x) is Err && read_state(x) is Err,
        x is Object && x->Object_0.len() != 1 ==> read_role(x) is Err && read_state(x) is Err,
{
}

/// A list that is too short, or too long, for what it should hold is refused by its
/// length.
pub proof fn lists_have_their_lengths(s: Seq<JsonV>)
    ensures
        s.len() == 0 ==> read_message(JsonV::Array(s)) == Err::<MessageV, _>(
            "invalid length "@ + numeral(0) + ", expected "@ + "struct Message with 6 elements"@,
        ),
        s.len() == 0 ==> read_status(JsonV::Array(s)) == Err::<TaskStatusV, _>(
            "invalid length "@ + numeral(0) + ", expected "@ + "struct TaskStatus with 3 elements"@,
        ),
        s.len() == 0 ==> read_artifact(JsonV::Array(s)) == Err::<ArtifactV, _>(
            "invalid length "@ + numeral(0) + ", expected "@ + "struct Artifact with 3 elements"@,
        ),
        s.len() == 0 ==> read_task(JsonV::Array(s)) == Err::<TaskV, _>(
            "invalid length "@ + numeral(0) + ", expected "@ + "struct Task with 5 elements"@,
        ),
        s.len() > 6 ==> read_message(JsonV::Array(s)) is Err,
        s.len() > 3 ==> read_status(JsonV::Array(s)) is Err && read_artifact(JsonV::Array(s)) is Err,
        s.len() > 5 ==> read_task(JsonV::Array(s)) is Err,
        s.len() < 3 ==> read_message(JsonV::Array(s)) is Err && read_task(JsonV::Array(s)) is Err,
        s.len() < 2 ==> read_artifact(JsonV::Array(s)) is Err,
{
    let v = JsonV::Array(s);
    message_keys_differ();
    status_keys_differ();
    artifact_keys_differ();
    task_keys_differ();
    reveal_with_fuel(first_missing, 4);
    let m = entries(v, message_names())->0;
    let need = message_names().take(3);
    assert(need =~= seq!["messageId"@, "role"@, "parts"@]);
    assert(need.drop_last() =~= seq!["messageId"@, "role"@]);
    assert(need.drop_last().drop_last() =~= seq!["messageId"@]);
    assert(need.drop_last().drop_last().drop_last() =~= seq![]);
    if s.len() < 3 {
        crate::json::member_absent(m, "parts"@);
    }
    let need = status_names().take(1);
    assert(need =~= seq!["state"@]);
    assert(need.drop_last() =~= seq![]);
    let m = entries(v, artifact_names())->0;
    let need = artifact_names().take(2);
    assert(need =~= seq!["artifactId"@, "parts"@]);
    assert(need.drop_last() =~= seq!["artifactId"@]);
    assert(need.drop_last().drop_last() =~= seq![]);
    if s.len() < 2 {
        crate::json::member_absent(m, "parts"@);
    }
    let m = entries(v, task_names())->0;
    let need = task_names().take(3);
    assert(need =~= seq!["id"@, "contextId"@, "status"@]);
    assert(need.drop_last() =~= seq!["id"@, "contextId"@]);
    assert(need.drop_last().drop_last() =~= seq!["id"@]);
    assert(need.drop_last().drop_last().drop_last() =~= seq![]);
    if s.len() < 3 {
        crate::json::member_absent(m, "status"@);
    }
}

/// A value of another type than its place wants is refused by what it is and by what
/// was wanted.
pub proof fn other_types_are_refused(v: JsonV, s: Seq<char>)
    ensures
        !(v is Str) ==> read_string(v) == Err::<Seq<char>, _>(
            "invalid type: "@ + found(v) + ", expected "@ + "a string"@,
        ),
        !(v is Str) && !(v is Null) ==> read_opt_string(v) == Err::<Option<Seq<char>>, _>(
            "invalid type: "@ + found(v) + ", expected "@ + "a string"@,
        ),
        !(v is Array) ==> read_parts(v) == Err::<Seq<PartV>, _>(
            "invalid type: "@ + found(v) + ", expected "@ + "a sequence"@,
        ),
        read_role(JsonV::Str(s)) is Err ==> read_role(JsonV::Str(s)) == Err::<Role, _>(
            "unknown variant `"@ + s + "`, expected one of "@ + ROLE_NAMES@,
        ),
        read_state(JsonV::Str(s)) is Err ==> read_state(JsonV::Str(s)) == Err::<TaskState, _>(
            "unknown variant `"@ + s + "`, expected one of "@ + STATE_NAMES@,
        ),
        read_opt_string(JsonV::Null) == Ok::<_, Seq<char>>(None::<Seq<char>>),
        read_string(JsonV::Str(s)) == Ok::<_, Seq<char>>(s),
{
}

/// What is found in place of a value is told by its kind, and a number or a string by
/// itself too.
pub proof fn what_is_found_is_told(v: JsonV)
    ensures
        v matches JsonV::Number(NumberV::PosInt(n)) ==> found(v) == "integer `"@ + numeral(n)
            + "`"@,
        v matches JsonV::Number(NumberV::NegInt(n)) ==> found(v) == "integer `"@ + signed_numeral(n)
            + "`"@,
        v matches JsonV::Number(NumberV::Float(t)) ==> found(v) == "floating point `"@ + t + "`"@,
        v matches JsonV::Str(s) ==> found(v) == "string "@ + debug_quoted(s),
        v is Array ==> found(v) == "sequence"@,
        v is Object ==> found(v) == "map"@,
{
}

} // verus!
