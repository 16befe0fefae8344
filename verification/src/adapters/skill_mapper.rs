//! Modules as A2A skills.

use vstd::prelude::*;
use vstd::string::*;

use crate::adapters::agent_card::{AgentSkill, SkillV};
use crate::adapters::schema::{root_type, SchemaConverter};
use crate::json::{find, items, member, model_of, Json, JsonV};
use crate::modules::{DescriptorV, ModuleAnnotations, ModuleDescriptor};
use crate::text::{
    chars_of, clone_strings, contains_str, is_white, owned, slice, str_eq, trim_right, views, white,
};

verus! {

/// Whether `char::is_alphanumeric` holds.
pub uninterp spec fn char_alphanumeric(c: char) -> bool;

/// `char::is_alphanumeric`: whether a character is a letter or a number by
/// Unicode. Of the ASCII characters it is the letters and digits.
#[verifier::external_body]
fn is_alphanumeric(c: char) -> (r: bool)
    ensures
        r == char_alphanumeric(c),
        c <= '\u{7f}' ==> r == (('0' <= c && c <= '9') || ('A' <= c && c <= 'Z') || ('a' <= c && c
            <= 'z')),
{
    c.is_alphanumeric()
}

/// What `char::to_uppercase` gives.
pub uninterp spec fn char_upper(c: char) -> Seq<char>;

/// `char::to_uppercase`: the upper-case form of a character, which may be more
/// than one character. An ASCII lower-case letter has the letter thirty-two
/// places before it; any other ASCII character is its own.
#[verifier::external_body]
fn to_uppercase(c: char) -> (r: String)
    ensures
        r@ == char_upper(c),
        'a' <= c && c <= 'z' ==> r@ == seq![((c as u32 - 32) as u32) as char],
        c <= '\u{7f}' && !('a' <= c && c <= 'z') ==> r@ == seq![c],
{
    c.to_uppercase().collect()
}

/// An id as far as it was read: the words made of it, and whether the next
/// character begins a word.
pub open spec fn humanized_so_far(id: Seq<char>) -> (Seq<char>, bool)
    decreases id.len(),
{
    if id.len() == 0 {
        (Seq::empty(), true)
    } else {
        let (out, at_boundary) = humanized_so_far(id.drop_last());
        let c = id.last();
        if c == '.' || c == '_' {
            if out.len() > 0 && out.last() != ' ' {
                (out.push(' '), true)
            } else {
                (out, true)
            }
        } else if char_alphanumeric(c) {
            if at_boundary {
                (out + char_upper(c), false)
            } else {
                (out.push(c), false)
            }
        } else {
            (out.push(c), true)
        }
    }
}

/// A module id as words: dots and underscores become single spaces, and each
/// word begins in upper case.
pub open spec fn humanized(id: Seq<char>) -> Seq<char> {
    trim_right(humanized_so_far(id).0)
}

/// An ASCII character.
pub open spec fn ascii(c: char) -> bool {
    c <= '\u{7f}'
}

/// A text of ASCII characters.
pub open spec fn ascii_text(s: Seq<char>) -> bool {
    forall|i: int| 0 <= i < s.len() ==> ascii(#[trigger] s[i])
}

/// An ASCII letter in lower case.
pub open spec fn ascii_small(c: char) -> bool {
    'a' <= c && c <= 'z'
}

/// An ASCII letter or digit.
pub open spec fn ascii_alphanumeric(c: char) -> bool {
    ('0' <= c && c <= '9') || ('A' <= c && c <= 'Z') || ascii_small(c)
}

/// A character with an ASCII letter in upper case.
pub open spec fn ascii_upper(c: char) -> char {
    if ascii_small(c) {
        ((c as u32 - 32) as u32) as char
    } else {
        c
    }
}

/// An ASCII id as far as it was read: the words made of it, and whether the next
/// character begins a word.
pub open spec fn words_so_far(id: Seq<char>) -> (Seq<char>, bool)
    decreases id.len(),
{
    if id.len() == 0 {
        (Seq::empty(), true)
    } else {
        let (out, at_boundary) = words_so_far(id.drop_last());
        let c = id.last();
        if c == '.' || c == '_' {
            if out.len() > 0 && out.last() != ' ' {
                (out.push(' '), true)
            } else {
                (out, true)
            }
        } else if ascii_alphanumeric(c) && at_boundary {
            (out.push(ascii_upper(c)), false)
        } else {
            (out.push(c), !ascii_alphanumeric(c))
        }
    }
}

/// An ASCII id as words.
pub open spec fn words(id: Seq<char>) -> Seq<char> {
    trim_right(words_so_far(id).0)
}

/// A module id as words: dots and underscores become single spaces, and each
/// word begins in upper case. Other punctuation stays, and begins a word.
pub fn humanize_id(id: &str) -> (r: String)
    ensures
        r@ == humanized(id@),
        ascii_text(id@) ==> r@ == words(id@),
{
    let cs: Vec<char> = chars_of(id);
    let mut out: Vec<char> = Vec::new();
    let mut at_boundary: bool = true;
    let mut i: usize = 0;
    assert(cs@.take(0) =~= Seq::empty());
    while i < cs.len()
        invariant
            i <= cs.len(),
            cs@ == id@,
            (out@, at_boundary) == humanized_so_far(cs@.take(i as int)),
            ascii_text(id@) ==> (out@, at_boundary) == words_so_far(cs@.take(i as int)),
        decreases cs.len() - i,
    {
        let c: char = cs[i];
        assert(cs@.take(i + 1).drop_last() =~= cs@.take(i as int));
        assert(cs@.take(i + 1).last() == c);
        if c == '.' || c == '_' {
            if out.len() > 0 && out[out.len() - 1] != ' ' {
                out.push(' ');
            }
            at_boundary = true;
        } else if is_alphanumeric(c) {
            if at_boundary {
                let mut up: Vec<char> = chars_of(to_uppercase(c).as_str());
                let ghost before = out@;
                out.append(&mut up);
                assert(out@ =~= before + char_upper(c));
                assert(ascii(c) ==> before + char_upper(c) =~= before.push(ascii_upper(c)));
            } else {
                out.push(c);
            }
            at_boundary = false;
        } else {
            out.push(c);
            at_boundary = true;
        }
        i += 1;
    }
    assert(cs@.take(i as int) =~= id@);
    let ghost full = out@;
    let mut hi: usize = out.len();
    assert(full.subrange(0, hi as int) =~= full);
    while hi > 0 && white(out[hi - 1])
        invariant
            hi <= out.len(),
            out@ == full,
            trim_right(full.subrange(0, hi as int)) == trim_right(full),
        decreases hi,
    {
        assert(full.subrange(0, hi as int).drop_last() =~= full.subrange(0, hi - 1));
        hi -= 1;
    }
    slice(&out, 0, hi)
}

/// ASCII text without dots and underscores, in which no run of letters and
/// digits begins in lower case.
pub open spec fn titled(s: Seq<char>) -> bool {
    &&& ascii_text(s)
    &&& !s.contains('.')
    &&& !s.contains('_')
    &&& forall|i: int|
        0 <= i < s.len() && ascii_small(#[trigger] s[i]) ==> i > 0 && ascii_alphanumeric(s[i - 1])
}

/// A text without a leading space and without two spaces in a row.
pub open spec fn single_spaced(s: Seq<char>) -> bool {
    forall|i: int|
        0 <= i < s.len() && #[trigger] s[i] == ' ' ==> i > 0 && s[i - 1] != ' '
}

/// The letters and digits of an ASCII text, in order, the letters in upper case.
pub open spec fn letters(s: Seq<char>) -> Seq<char>
    decreases s.len(),
{
    if s.len() == 0 {
        Seq::empty()
    } else if ascii_alphanumeric(s.last()) {
        letters(s.drop_last()).push(ascii_upper(s.last()))
    } else {
        letters(s.drop_last())
    }
}

/// An ASCII id reads as words: nothing is left of dots and underscores, no
/// whitespace stands at the end, no run of letters and digits begins in lower
/// case, and the letters and digits are those of the id, in order, but for their
/// case. An id without spaces has no space at the front and no two in a row.
/// Words stay as they are when they are taken for an id once more.
pub proof fn ids_read_as_words(id: Seq<char>)
    requires
        ascii_text(id),
    ensures
        titled(words(id)),
        words(id).len() > 0 ==> !is_white(words(id).last()),
        letters(words(id)) == letters(id),
        !id.contains(' ') ==> single_spaced(words(id)),
        words(words(id)) == words(id),
{
    let out = words_so_far(id).0;
    words_are_titled(id);
    trimmed_is_prefix(out);
    let w = words(id);
    assert forall|i: int| 0 <= i < w.len() implies w[i] == #[trigger] out[i] by {}
    assert(!w.contains('.')) by {
        if w.contains('.') {
            let k = choose|k: int| 0 <= k < w.len() && w[k] == '.';
            assert(out[k] == '.');
        }
    }
    assert(!w.contains('_')) by {
        if w.contains('_') {
            let k = choose|k: int| 0 <= k < w.len() && w[k] == '_';
            assert(out[k] == '_');
        }
    }
    assert(titled(w)) by {
        assert forall|i: int| 0 <= i < w.len() implies ascii(#[trigger] w[i]) by {
            assert(ascii(out[i]));
        }
        assert forall|i: int| 0 <= i < w.len() && ascii_small(#[trigger] w[i]) implies i > 0
            && ascii_alphanumeric(w[i - 1]) by {
            assert(ascii_small(out[i]));
        }
    }
    trimmed_has_the_letters(out);
    if !id.contains(' ') {
        assert(single_spaced(w)) by {
            assert forall|i: int| 0 <= i < w.len() && #[trigger] w[i] == ' ' implies i > 0 && w[i
                - 1] != ' ' by {
                assert(out[i] == ' ');
            }
        }
    }
    titled_stays(w);
}

proof fn words_are_titled(id: Seq<char>)
    requires
        ascii_text(id),
    ensures
        titled(words_so_far(id).0),
        !words_so_far(id).1 ==> words_so_far(id).0.len() > 0 && ascii_alphanumeric(
            words_so_far(id).0.last(),
        ),
        letters(words_so_far(id).0) == letters(id),
        !id.contains(' ') ==> single_spaced(words_so_far(id).0),
    decreases id.len(),
{
    if id.len() > 0 {
        let front = id.drop_last();
        let c = id.last();
        assert(ascii(id[id.len() - 1]));
        assert forall|i: int| 0 <= i < front.len() implies ascii(#[trigger] front[i]) by {
            assert(ascii(id[i]));
        }
        words_are_titled(front);
        let out = words_so_far(front).0;
        let next = words_so_far(id).0;
        if !id.contains(' ') {
            assert(!front.contains(' ')) by {
                if front.contains(' ') {
                    let k = choose|k: int| 0 <= k < front.len() && front[k] == ' ';
                    assert(id[k] == ' ');
                }
            }
            assert(c != ' ') by {
                assert(id.contains(id[id.len() - 1]));
            }
        }
        if next.len() > out.len() {
            let x = next.last();
            assert(next =~= out.push(x));
            assert(next.drop_last() =~= out);
            assert(!out.contains('.') && !out.contains('_'));
            assert forall|i: int| 0 <= i < next.len() implies next[i] != '.' && next[i] != '_'
                && ascii(#[trigger] next[i]) by {
                if i < out.len() {
                    assert(next[i] == out[i]);
                    assert(out.contains(out[i]));
                    assert(ascii(out[i]));
                }
            }
            assert forall|i: int| 0 <= i < next.len() && ascii_small(#[trigger] next[i]) implies i
                > 0 && ascii_alphanumeric(next[i - 1]) by {
                if i < out.len() {
                    assert(ascii_small(out[i]));
                }
            }
            if !id.contains(' ') {
                assert forall|i: int| 0 <= i < next.len() && #[trigger] next[i] == ' ' implies i > 0
                    && next[i - 1] != ' ' by {
                    if i < out.len() {
                        assert(out[i] == ' ');
                    }
                }
            }
        }
    }
}

proof fn trimmed_is_prefix(s: Seq<char>)
    ensures
        trim_right(s).len() <= s.len(),
        trim_right(s) == s.take(trim_right(s).len() as int),
        trim_right(s).len() > 0 ==> !is_white(trim_right(s).last()),
    decreases s.len(),
{
    if s.len() > 0 && is_white(s.last()) {
        trimmed_is_prefix(s.drop_last());
        let n = trim_right(s).len() as int;
        assert(s.drop_last().take(n) =~= s.take(n));
    } else {
        assert(s.take(s.len() as int) =~= s);
    }
}

proof fn trimmed_has_the_letters(s: Seq<char>)
    ensures
        letters(trim_right(s)) == letters(s),
    decreases s.len(),
{
    if s.len() > 0 && is_white(s.last()) {
        trimmed_has_the_letters(s.drop_last());
    }
}

proof fn titled_stays(s: Seq<char>)
    requires
        titled(s),
    ensures
        words_so_far(s) == (s, s.len() == 0 || !ascii_alphanumeric(s.last())),
    decreases s.len(),
{
    if s.len() == 0 {
        assert(s =~= Seq::empty());
    } else {
        let front = s.drop_last();
        let n = s.len() - 1;
        assert(titled(front)) by {
            assert forall|i: int| 0 <= i < front.len() implies ascii(#[trigger] front[i])
                && front[i] != '.' && front[i] != '_' by {
                assert(ascii(s[i]));
                assert(s.contains(s[i]));
            }
            assert forall|i: int| 0 <= i < front.len() && ascii_small(#[trigger] front[i]) implies i
                > 0 && ascii_alphanumeric(front[i - 1]) by {
                assert(ascii_small(s[i]));
            }
        }
        titled_stays(front);
        assert(s.contains(s[n]));
        assert(front.push(s[n]) =~= s);
    }
}

/// A string that stands under `key` and is not empty.
pub open spec fn filled(v: JsonV, key: Seq<char>) -> Option<Seq<char>> {
    match v.text_at(key) {
        Some(s) => if s.len() > 0 {
            Some(s)
        } else {
            None
        },
        None => None,
    }
}

/// A string that stands under `key` and is not empty.
fn str_field(value: &Json, key: &str) -> (r: Option<String>)
    ensures
        crate::text::opt_view(r) == filled(value@, key@),
{
    match value.get_str(key) {
        Some(s) => if s.is_empty() {
            None
        } else {
            Some(owned(s))
        },
        None => None,
    }
}

/// The display overlay of a module: the one in its metadata, or its own.
pub open spec fn display_of(d: DescriptorV) -> JsonV {
    match member(d.metadata, "display"@) {
        Some(v) => v,
        None => match d.display {
            Some(v) => v,
            None => JsonV::Null,
        },
    }
}

/// The part of a display overlay that is meant for A2A.
pub open spec fn a2a_of(display: JsonV) -> JsonV {
    match display.get("a2a"@) {
        Some(v) => v,
        None => JsonV::Null,
    }
}

/// A display field: what the overlay says for A2A, or what it says in general.
pub open spec fn shown(display: JsonV, key: Seq<char>) -> Option<Seq<char>> {
    match filled(a2a_of(display), key) {
        Some(s) => Some(s),
        None => filled(display, key),
    }
}

fn shown_field(display: &Json, key: &str) -> (r: Option<String>)
    ensures
        crate::text::opt_view(r) == shown(display@, key@),
{
    if let Some(a2a) = display.get("a2a") {
        if let Some(s) = str_field(a2a, key) {
            return Some(s);
        }
    }
    str_field(display, key)
}

/// The strings among the items of a list.
pub open spec fn strings_in(s: Seq<JsonV>) -> Seq<Seq<char>>
    decreases s.len(),
{
    if s.len() == 0 {
        Seq::empty()
    } else {
        match s.last() {
            JsonV::Str(x) => strings_in(s.drop_last()).push(x),
            _ => strings_in(s.drop_last()),
        }
    }
}

pub fn collect_strings(v: &Vec<Json>) -> (r: Vec<String>)
    ensures
        views(r@) == strings_in(items(v@)),
{
    let mut out: Vec<String> = Vec::new();
    let mut i: usize = 0;
    let ghost all = items(v@);
    assert(all.take(0) =~= Seq::empty());
    assert(views(out@) =~= Seq::empty());
    while i < v.len()
        invariant
            i <= v.len(),
            all == items(v@),
            views(out@) == strings_in(all.take(i as int)),
        decreases v.len() - i,
    {
        assert(all.take(i + 1).drop_last() =~= all.take(i as int));
        assert(all.take(i + 1).last() == v[i as int]@);
        if let Some(s) = v[i].as_str() {
            let ghost prev = out@;
            out.push(owned(s));
            assert(views(out@) =~= views(prev).push(s@));
        }
        i += 1;
    }
    assert(all.take(i as int) =~= all);
    out
}

/// The tags of a skill before its annotations are added: those of the display
/// overlay where it has any, those of the module otherwise.
pub open spec fn plain_tags(d: DescriptorV) -> Seq<Seq<char>> {
    match display_of(d).get("tags"@) {
        Some(JsonV::Array(s)) => if strings_in(s).len() > 0 {
            strings_in(s)
        } else {
            d.tags
        },
        _ => d.tags,
    }
}

/// The tags with one more where it is set and not there yet.
pub open spec fn with_tag(tags: Seq<Seq<char>>, tag: Seq<char>, set: bool) -> Seq<Seq<char>> {
    if set && !tags.contains(tag) {
        tags.push(tag)
    } else {
        tags
    }
}

/// The tags with one for each annotation that is set, in a fixed order.
pub open spec fn annotated(tags: Seq<Seq<char>>, a: Option<ModuleAnnotations>) -> Seq<Seq<char>> {
    match a {
        None => tags,
        Some(a) => with_tag(
            with_tag(
                with_tag(
                    with_tag(tags, "apcore:readonly"@, a.readonly),
                    "apcore:destructive"@,
                    a.destructive,
                ),
                "apcore:idempotent"@,
                a.idempotent,
            ),
            "apcore:requires-approval"@,
            a.requires_approval,
        ),
    }
}

fn add_tag(tags: &mut Vec<String>, tag: &str, set: bool)
    ensures
        views(final(tags)@) == with_tag(views(old(tags)@), tag@, set),
{
    if set && !contains_str(tags, tag) {
        tags.push(owned(tag));
        assert(views(tags@) =~= views(old(tags)@).push(tag@));
    }
}

/// Append a tag for each annotation that is set, in a fixed order. An annotation
/// that is not set leaves no tag: absence asserts nothing.
fn append_annotation_tags(tags: &mut Vec<String>, descriptor: &ModuleDescriptor)
    ensures
        views(final(tags)@) == annotated(views(old(tags)@), descriptor.annotations),
{
    match descriptor.annotations {
        None => {},
        Some(a) => {
            add_tag(tags, "apcore:readonly", a.readonly);
            add_tag(tags, "apcore:destructive", a.destructive);
            add_tag(tags, "apcore:idempotent", a.idempotent);
            add_tag(tags, "apcore:requires-approval", a.requires_approval);
        },
    }
}

/// A schema that says nothing: `null` or an empty object.
pub open spec fn no_schema(s: JsonV) -> bool {
    s is Null || (s is Object && s->Object_0.len() == 0)
}

fn is_no_schema(s: &Json) -> (r: bool)
    ensures
        r == no_schema(s@),
{
    proof {
        model_of(*s);
    }
    match s {
        Json::Null => true,
        Json::Object(m) => m.len() == 0,
        _ => false,
    }
}

/// The media types a skill takes.
pub open spec fn input_modes(schema: JsonV) -> Seq<Seq<char>> {
    if no_schema(schema) {
        seq!["text/plain"@]
    } else if root_type(Some(schema)) == "string"@ {
        seq!["application/json"@, "text/plain"@]
    } else {
        seq!["application/json"@]
    }
}

/// The media types a skill gives.
pub open spec fn output_modes(schema: JsonV) -> Seq<Seq<char>> {
    if no_schema(schema) {
        seq!["text/plain"@]
    } else {
        seq!["application/json"@]
    }
}

/// The strings that are not empty.
pub open spec fn nonempty(s: Seq<Seq<char>>) -> Seq<Seq<char>>
    decreases s.len(),
{
    if s.len() == 0 {
        Seq::empty()
    } else if s.last().len() > 0 {
        nonempty(s.drop_last()).push(s.last())
    } else {
        nonempty(s.drop_last())
    }
}

/// The titles a skill shows: of the first ten examples, those that have one.
pub open spec fn shown_examples(titles: Seq<Seq<char>>) -> Seq<Seq<char>> {
    nonempty(
        if titles.len() <= 10 {
            titles
        } else {
            titles.take(10)
        },
    )
}

/// The name of a skill.
pub open spec fn skill_name(id: Seq<char>, d: DescriptorV) -> Seq<char> {
    match shown(display_of(d), "alias"@) {
        Some(s) => s,
        None => humanized(id),
    }
}

/// The description of a skill.
pub open spec fn skill_description(d: DescriptorV, description: Seq<char>) -> Seq<char> {
    let base = match shown(display_of(d), "description"@) {
        Some(s) => s,
        None => description,
    };
    match shown(display_of(d), "guidance"@) {
        Some(g) => base + "\n\nGuidance: "@ + g,
        None => base,
    }
}

/// The skill that a module is shown as.
pub open spec fn skill_of(id: Seq<char>, d: DescriptorV, description: Seq<char>) -> SkillV {
    SkillV {
        id,
        name: skill_name(id, d),
        description: skill_description(d, description),
        tags: annotated(plain_tags(d), d.annotations),
        examples: shown_examples(d.examples),
        input_modes: input_modes(d.input_schema),
        output_modes: output_modes(d.output_schema),
        security_requirements: Seq::empty(),
    }
}

/// Maps modules to skills.
#[derive(Debug, Clone, Copy)]
pub struct SkillMapper {
    schema_converter: SchemaConverter,
}

impl SkillMapper {
    /// A mapper.
    pub fn new() -> (r: SkillMapper) {
        SkillMapper { schema_converter: SchemaConverter::new() }
    }

    /// The skill that a module is shown as. `description` is used where the
    /// display overlay says nothing else.
    pub fn to_skill(
        &self,
        module_id: &str,
        descriptor: &ModuleDescriptor,
        description: &str,
    ) -> (r: AgentSkill)
        ensures
            r@ == skill_of(module_id@, descriptor@, description@),
            ascii_text(module_id@) && shown(display_of(descriptor@), "alias"@) is None ==> r.name@
                == words(module_id@),
    {
        let display: Json = match find(&descriptor.metadata, "display") {
            Some(i) => descriptor.metadata[i].1.copy(),
            None => match &descriptor.display {
                Some(v) => v.copy(),
                None => Json::Null,
            },
        };
        assert(display@ == display_of(descriptor@));
        let name: String = match shown_field(&display, "alias") {
            Some(s) => s,
            None => humanize_id(module_id),
        };
        let mut text: String = match shown_field(&display, "description") {
            Some(s) => s,
            None => owned(description),
        };
        if let Some(guidance) = shown_field(&display, "guidance") {
            text.append("\n\nGuidance: ");
            text.append(guidance.as_str());
        }
        let mut tags: Vec<String> = Self::base_tags(&display, descriptor);
        append_annotation_tags(&mut tags, descriptor);
        let security_requirements: Vec<Json> = Vec::new();
        assert(items(security_requirements@) =~= Seq::empty());
        AgentSkill {
            id: owned(module_id),
            name,
            description: text,
            tags,
            examples: self.build_examples(descriptor),
            input_modes: self.compute_input_modes(descriptor),
            output_modes: self.compute_output_modes(descriptor),
            security_requirements,
        }
    }

    fn base_tags(display: &Json, descriptor: &ModuleDescriptor) -> (r: Vec<String>)
        requires
            display@ == display_of(descriptor@),
        ensures
            views(r@) == plain_tags(descriptor@),
    {
        if let Some(t) = display.get("tags") {
            proof {
                model_of(*t);
            }
            if let Json::Array(a) = t {
                let found: Vec<String> = collect_strings(a);
                if found.len() > 0 {
                    assert(views(found@).len() > 0);
                    return found;
                }
                assert(views(found@).len() == 0);
            }
        }
        clone_strings(&descriptor.tags)
    }

    /// The media types a skill takes.
    fn compute_input_modes(&self, descriptor: &ModuleDescriptor) -> (r: Vec<String>)
        ensures
            views(r@) == input_modes(descriptor@.input_schema),
    {
        let mut out: Vec<String> = Vec::new();
        if is_no_schema(&descriptor.input_schema) {
            out.push(owned("text/plain"));
        } else {
            out.push(owned("application/json"));
            if str_eq(
                self.schema_converter.detect_root_type(Some(&descriptor.input_schema)),
                "string",
            ) {
                out.push(owned("text/plain"));
            }
        }
        assert(views(out@) =~= input_modes(descriptor@.input_schema));
        out
    }

    /// The media types a skill gives.
    fn compute_output_modes(&self, descriptor: &ModuleDescriptor) -> (r: Vec<String>)
        ensures
            views(r@) == output_modes(descriptor@.output_schema),
    {
        let mut out: Vec<String> = Vec::new();
        if is_no_schema(&descriptor.output_schema) {
            out.push(owned("text/plain"));
        } else {
            out.push(owned("application/json"));
        }
        assert(views(out@) =~= output_modes(descriptor@.output_schema));
        out
    }

    /// The titles of the first ten examples, without the empty ones.
    fn build_examples(&self, descriptor: &ModuleDescriptor) -> (r: Vec<String>)
        ensures
            views(r@) == shown_examples(descriptor@.examples),
    {
        let n: usize = if descriptor.examples.len() <= 10 {
            descriptor.examples.len()
        } else {
            10
        };
        let ghost all = views(descriptor.examples@);
        let mut out: Vec<String> = Vec::new();
        let mut i: usize = 0;
        assert(all.take(0) =~= Seq::empty());
        assert(views(out@) =~= Seq::empty());
        while i < n
            invariant
                i <= n <= descriptor.examples.len(),
                all == views(descriptor.examples@),
                views(out@) == nonempty(all.take(i as int)),
            decreases n - i,
        {
            assert(all.take(i + 1).drop_last() =~= all.take(i as int));
            assert(all.take(i + 1).last() == descriptor.examples[i as int]@);
            if !descriptor.examples[i].as_str().is_empty() {
                let ghost prev = out@;
                out.push(descriptor.examples[i].clone());
                assert(views(out@) =~= views(prev).push(descriptor.examples[i as int]@));
            }
            i += 1;
        }
        assert(n == all.len() ==> all.take(n as int) =~= all);
        out
    }
}

/// Each annotation that is set has its tag on the skill, and a tag that the
/// module did not bring is there only for an annotation that is set.
pub proof fn annotations_are_tagged(
    id: Seq<char>,
    d: DescriptorV,
    description: Seq<char>,
    a: ModuleAnnotations,
)
    requires
        d.annotations == Some(a),
    ensures
        ({
            let tags = skill_of(id, d, description).tags;
            let own = plain_tags(d);
            &&& tags.contains("apcore:readonly"@) <==> a.readonly || own.contains(
                "apcore:readonly"@,
            )
            &&& tags.contains("apcore:destructive"@) <==> a.destructive || own.contains(
                "apcore:destructive"@,
            )
            &&& tags.contains("apcore:idempotent"@) <==> a.idempotent || own.contains(
                "apcore:idempotent"@,
            )
            &&& tags.contains("apcore:requires-approval"@) <==> a.requires_approval
                || own.contains("apcore:requires-approval"@)
        }),
{
    reveal_strlit("apcore:readonly");
    reveal_strlit("apcore:destructive");
    reveal_strlit("apcore:idempotent");
    reveal_strlit("apcore:requires-approval");
    assert("apcore:readonly"@.len() == 15);
    assert("apcore:destructive"@.len() == 18);
    assert("apcore:idempotent"@.len() == 17);
    assert("apcore:requires-approval"@.len() == 24);
    let t0 = plain_tags(d);
    let t1 = with_tag(t0, "apcore:readonly"@, a.readonly);
    let t2 = with_tag(t1, "apcore:destructive"@, a.destructive);
    let t3 = with_tag(t2, "apcore:idempotent"@, a.idempotent);
    assert forall|x: Seq<char>| #[trigger] t1.contains(x) <==> t0.contains(x) || (a.readonly && x
        == "apcore:readonly"@) by {
        with_tag_holds(t0, "apcore:readonly"@, a.readonly, x);
    }
    assert forall|x: Seq<char>| #[trigger] t2.contains(x) <==> t1.contains(x) || (a.destructive && x
        == "apcore:destructive"@) by {
        with_tag_holds(t1, "apcore:destructive"@, a.destructive, x);
    }
    assert forall|x: Seq<char>| #[trigger] t3.contains(x) <==> t2.contains(x) || (a.idempotent && x
        == "apcore:idempotent"@) by {
        with_tag_holds(t2, "apcore:idempotent"@, a.idempotent, x);
    }
    let t4 = with_tag(t3, "apcore:requires-approval"@, a.requires_approval);
    assert forall|x: Seq<char>| #[trigger] t4.contains(x) <==> t3.contains(x) || (a.requires_approval
        && x == "apcore:requires-approval"@) by {
        with_tag_holds(t3, "apcore:requires-approval"@, a.requires_approval, x);
    }
}

proof fn with_tag_holds(tags: Seq<Seq<char>>, tag: Seq<char>, set: bool, x: Seq<char>)
    ensures
        with_tag(tags, tag, set).contains(x) <==> tags.contains(x) || (set && x == tag),
{
    let r = with_tag(tags, tag, set);
    if set && !tags.contains(tag) {
        assert(r[r.len() - 1] == tag);
        if tags.contains(x) {
            let i = choose|i: int| 0 <= i < tags.len() && tags[i] == x;
            assert(r[i] == x);
        }
        if r.contains(x) {
            let i = choose|i: int| 0 <= i < r.len() && r[i] == x;
            if i < tags.len() {
                assert(tags[i] == x);
            }
        }
    }
}

/// The strings that are picked out of a list are those that stand in it.
pub proof fn strings_are_picked_out(s: Seq<JsonV>, x: Seq<char>)
    ensures
        strings_in(s).contains(x) <==> s.contains(JsonV::Str(x)),
    decreases s.len(),
{
    if s.len() > 0 {
        let front = s.drop_last();
        strings_are_picked_out(front, x);
        let a = strings_in(front);
        let b = strings_in(s);
        assert(s[s.len() - 1] == s.last());
        if front.contains(JsonV::Str(x)) {
            let k = choose|k: int| 0 <= k < front.len() && front[k] == JsonV::Str(x);
            assert(s[k] == JsonV::Str(x));
        }
        if s.contains(JsonV::Str(x)) && s.last() != JsonV::Str(x) {
            let k = choose|k: int| 0 <= k < s.len() && s[k] == JsonV::Str(x);
            assert(front[k] == JsonV::Str(x));
        }
        if s.last() is Str {
            let y = s.last()->Str_0;
            assert(b =~= a.push(y));
            assert(b[b.len() - 1] == y);
            if a.contains(x) {
                let k = choose|k: int| 0 <= k < a.len() && a[k] == x;
                assert(b[k] == x);
            }
            if b.contains(x) && x != y {
                let k = choose|k: int| 0 <= k < b.len() && b[k] == x;
                assert(a[k] == x);
            }
        }
    }
}

/// The overlay that is shown: the one in a module's metadata, and its own only
/// where there is none.
pub proof fn metadata_overlays_come_first(d: DescriptorV, overlay: JsonV)
    ensures
        member(d.metadata, "display"@) == Some(overlay) ==> display_of(d) == overlay,
        member(d.metadata, "display"@) is None && d.display == Some(overlay) ==> display_of(d)
            == overlay,
{
}

/// What an overlay says for A2A is what a skill shows, whatever the overlay says in
/// general: a string under `alias` in `a2a` that is not empty is the name, one
/// under `description` is the description, and one under `guidance` stands behind
/// it.
pub proof fn what_is_meant_for_a2a_is_shown(
    id: Seq<char>,
    d: DescriptorV,
    description: Seq<char>,
    display: JsonV,
    a2a: JsonV,
    s: Seq<char>,
)
    requires
        display_of(d) == display,
        display.get("a2a"@) == Some(a2a),
        s.len() > 0,
    ensures
        a2a.text_at("alias"@) == Some(s) ==> skill_of(id, d, description).name == s,
        a2a.text_at("description"@) == Some(s) ==> s.is_prefix_of(
            skill_of(id, d, description).description,
        ),
        a2a.text_at("description"@) == Some(s) && says_nothing(a2a, "guidance"@) && says_nothing(
            display,
            "guidance"@,
        ) ==> skill_of(id, d, description).description == s,
        a2a.text_at("guidance"@) == Some(s) ==> ends_in(
            skill_of(id, d, description).description,
            "\n\nGuidance: "@ + s,
        ),
{
    let r = skill_of(id, d, description).description;
    if a2a.text_at("description"@) == Some(s) {
        assert(s =~= r.subrange(0, s.len() as int));
    }
    if a2a.text_at("guidance"@) == Some(s) {
        let base = match shown(display, "description"@) {
            Some(b) => b,
            None => description,
        };
        assert(r =~= base + ("\n\nGuidance: "@ + s));
        assert(r.subrange(base.len() as int, r.len() as int) =~= "\n\nGuidance: "@ + s);
    }
}

/// No string stands under `key`, or an empty one.
pub open spec fn says_nothing(v: JsonV, key: Seq<char>) -> bool {
    match v.text_at(key) {
        Some(s) => s.len() == 0,
        None => true,
    }
}

/// `tail` ends `s`.
pub open spec fn ends_in(s: Seq<char>, tail: Seq<char>) -> bool {
    exists|k: int| 0 <= k <= s.len() && #[trigger] s.subrange(k, s.len() as int) == tail
}

/// What an overlay says in general is shown where it says nothing for A2A, and the
/// module's own words where it says nothing at all: its id as words for the name,
/// its description for the description.
pub proof fn what_is_said_in_general_is_shown_next(
    id: Seq<char>,
    d: DescriptorV,
    description: Seq<char>,
    display: JsonV,
    s: Seq<char>,
)
    requires
        display_of(d) == display,
        s.len() > 0,
    ensures
        ({
            let a2a = match display.get("a2a"@) {
                Some(v) => v,
                None => JsonV::Null,
            };
            let skill = skill_of(id, d, description);
            &&& says_nothing(a2a, "alias"@) && display.text_at("alias"@) == Some(s) ==> skill.name
                == s
            &&& says_nothing(a2a, "alias"@) && says_nothing(display, "alias"@) ==> skill.name
                == humanized(id)
            &&& says_nothing(a2a, "guidance"@) && says_nothing(display, "guidance"@) ==> {
                &&& says_nothing(a2a, "description"@) && display.text_at("description"@) == Some(s)
                    ==> skill.description == s
                &&& says_nothing(a2a, "description"@) && says_nothing(display, "description"@)
                    ==> skill.description == description
            }
            &&& says_nothing(a2a, "guidance"@) && display.text_at("guidance"@) == Some(s)
                && says_nothing(a2a, "description"@) && says_nothing(display, "description"@)
                ==> skill.description == description + "\n\nGuidance: "@ + s
        }),
{
}

/// A skill has the id of its module, and asks for no security of its own.
pub proof fn skills_have_the_ids_of_their_modules(
    id: Seq<char>,
    d: DescriptorV,
    description: Seq<char>,
)
    ensures
        skill_of(id, d, description).id == id,
        skill_of(id, d, description).security_requirements.len() == 0,
{
}

/// The tags of a skill begin with those that its overlay lists, and with those of
/// the module where the overlay lists none; behind them stand only the tags of its
/// annotations.
pub proof fn overlay_tags_come_first(
    id: Seq<char>,
    d: DescriptorV,
    description: Seq<char>,
    list: Seq<JsonV>,
    tag: Seq<char>,
)
    ensures
        ({
            let tags = skill_of(id, d, description).tags;
            let marked = tag == "apcore:readonly"@ || tag == "apcore:destructive"@ || tag
                == "apcore:idempotent"@ || tag == "apcore:requires-approval"@;
            &&& display_of(d).get("tags"@) == Some(JsonV::Array(list)) && (exists|x: Seq<char>|
                #[trigger] list.contains(JsonV::Str(x))) ==> {
                &&& list.contains(JsonV::Str(tag)) ==> tags.contains(tag)
                &&& tags.contains(tag) && !marked ==> list.contains(JsonV::Str(tag))
                &&& d.annotations is None ==> tags == strings_in(list)
            }
            &&& !(display_of(d).get("tags"@) matches Some(JsonV::Array(l)) && exists|x: Seq<char>|
                #[trigger] l.contains(JsonV::Str(x))) ==> {
                &&& d.tags.contains(tag) ==> tags.contains(tag)
                &&& tags.contains(tag) && !marked ==> d.tags.contains(tag)
                &&& d.annotations is None ==> tags == d.tags
            }
        }),
{
    let own = plain_tags(d);
    if let Some(JsonV::Array(l)) = display_of(d).get("tags"@) {
        strings_are_picked_out(l, tag);
        if exists|x: Seq<char>| #[trigger] l.contains(JsonV::Str(x)) {
            let x = choose|x: Seq<char>| #[trigger] l.contains(JsonV::Str(x));
            strings_are_picked_out(l, x);
        } else if strings_in(l).len() > 0 {
            strings_are_picked_out(l, strings_in(l)[0]);
            assert(strings_in(l).contains(strings_in(l)[0]));
            assert(l.contains(JsonV::Str(strings_in(l)[0])));
        }
    }
    if let Some(a) = d.annotations {
        let t1 = with_tag(own, "apcore:readonly"@, a.readonly);
        let t2 = with_tag(t1, "apcore:destructive"@, a.destructive);
        let t3 = with_tag(t2, "apcore:idempotent"@, a.idempotent);
        with_tag_holds(own, "apcore:readonly"@, a.readonly, tag);
        with_tag_holds(t1, "apcore:destructive"@, a.destructive, tag);
        with_tag_holds(t2, "apcore:idempotent"@, a.idempotent, tag);
        with_tag_holds(t3, "apcore:requires-approval"@, a.requires_approval, tag);
    }
}

/// The tags of annotations stand behind the others, in a fixed order: those that a
/// skill has before its annotations are added keep their places.
pub proof fn annotations_are_added_behind(tags: Seq<Seq<char>>, a: ModuleAnnotations)
    ensures
        tags.is_prefix_of(annotated(tags, Some(a))),
        !tags.contains("apcore:readonly"@) && a.readonly ==> annotated(tags, Some(a))[tags.len()
            as int] == "apcore:readonly"@,
{
    let t1 = with_tag(tags, "apcore:readonly"@, a.readonly);
    let t2 = with_tag(t1, "apcore:destructive"@, a.destructive);
    let t3 = with_tag(t2, "apcore:idempotent"@, a.idempotent);
    let t4 = annotated(tags, Some(a));
    assert forall|i: int| 0 <= i < tags.len() implies t4[i] == tags[i] by {
        assert(t1[i] == tags[i]);
        assert(t2[i] == t1[i]);
        assert(t3[i] == t2[i]);
    }
    assert(tags =~= t4.subrange(0, tags.len() as int));
}

/// What a skill takes and gives: plain text where there is no schema, JSON where
/// there is one, and text besides where the input is a string.
pub proof fn modes_follow_the_schemas(id: Seq<char>, d: DescriptorV, description: Seq<char>)
    ensures
        ({
            let skill = skill_of(id, d, description);
            let nothing_in = d.input_schema is Null || d.input_schema == JsonV::Object(
                Seq::<(Seq<char>, JsonV)>::empty(),
            );
            let nothing_out = d.output_schema is Null || d.output_schema == JsonV::Object(
                Seq::<(Seq<char>, JsonV)>::empty(),
            );
            &&& skill.input_modes.contains("application/json"@) <==> !nothing_in
            &&& skill.input_modes.contains("text/plain"@) <==> nothing_in
                || d.input_schema.text_at("type"@) == Some("string"@)
            &&& skill.output_modes.contains("application/json"@) <==> !nothing_out
            &&& skill.output_modes.contains("text/plain"@) <==> nothing_out
        }),
{
    reveal_strlit("application/json");
    reveal_strlit("text/plain");
    assert("application/json"@.len() == 16);
    assert("text/plain"@.len() == 10);
    reveal_strlit("string");
    reveal_strlit("object");
    reveal_strlit("unknown");
    assert("string"@.len() == 6 && "string"@[0] == 's');
    assert("object"@.len() == 6 && "object"@[0] == 'o');
    assert("unknown"@.len() == 7);
    if d.input_schema is Object && d.input_schema->Object_0.len() == 0 {
        assert(d.input_schema->Object_0 =~= Seq::<(Seq<char>, JsonV)>::empty());
    }
    if d.output_schema is Object && d.output_schema->Object_0.len() == 0 {
        assert(d.output_schema->Object_0 =~= Seq::<(Seq<char>, JsonV)>::empty());
    }
    let skill = skill_of(id, d, description);
    assert(skill.input_modes.len() > 0 && skill.output_modes.len() == 1);
    assert(skill.input_modes[0] == "application/json"@ || skill.input_modes[0] == "text/plain"@);
    assert(skill.output_modes[0] == "application/json"@ || skill.output_modes[0] == "text/plain"@);
    if skill.input_modes.len() > 1 {
        assert(skill.input_modes[1] == "text/plain"@);
    }
}

/// A skill shows, of the first ten examples of its module, exactly those with a
/// title, in their order.
pub proof fn examples_with_a_title_are_shown(
    id: Seq<char>,
    d: DescriptorV,
    description: Seq<char>,
    title: Seq<char>,
)
    ensures
        skill_of(id, d, description).examples.contains(title) <==> title.len() > 0 && exists|i: int|
            0 <= i < d.examples.len() && i < 10 && #[trigger] d.examples[i] == title,
        skill_of(id, d, description).examples.len() <= 10,
        (forall|i: int| 0 <= i < d.examples.len() ==> (#[trigger] d.examples[i]).len() > 0)
            && d.examples.len() <= 10 ==> skill_of(id, d, description).examples == d.examples,
{
    let first = if d.examples.len() <= 10 {
        d.examples
    } else {
        d.examples.take(10)
    };
    nonempty_are_kept(first, title);
    if first.contains(title) {
        let k = choose|k: int| 0 <= k < first.len() && first[k] == title;
        assert(d.examples[k] == title);
    }
    if exists|i: int| 0 <= i < d.examples.len() && i < 10 && #[trigger] d.examples[i] == title {
        let i = choose|i: int|
            0 <= i < d.examples.len() && i < 10 && #[trigger] d.examples[i] == title;
        assert(first[i] == title);
    }
}

proof fn nonempty_are_kept(s: Seq<Seq<char>>, x: Seq<char>)
    ensures
        nonempty(s).contains(x) <==> x.len() > 0 && s.contains(x),
        nonempty(s).len() <= s.len(),
        (forall|i: int| 0 <= i < s.len() ==> (#[trigger] s[i]).len() > 0) ==> nonempty(s) == s,
    decreases s.len(),
{
    if s.len() > 0 {
        let front = s.drop_last();
        nonempty_are_kept(front, x);
        let a = nonempty(front);
        let b = nonempty(s);
        assert(s[s.len() - 1] == s.last());
        if forall|i: int| 0 <= i < s.len() ==> (#[trigger] s[i]).len() > 0 {
            assert forall|i: int| 0 <= i < front.len() implies (#[trigger] front[i]).len() > 0 by {
                assert(front[i] == s[i]);
            }
            assert(front.push(s.last()) =~= s);
        }
        if front.contains(x) {
            let k = choose|k: int| 0 <= k < front.len() && front[k] == x;
            assert(s[k] == x);
        }
        if s.contains(x) && s.last() != x {
            let k = choose|k: int| 0 <= k < s.len() && s[k] == x;
            assert(front[k] == x);
        }
        if s.last().len() > 0 {
            assert(b[b.len() - 1] == s.last());
            if a.contains(x) {
                let k = choose|k: int| 0 <= k < a.len() && a[k] == x;
                assert(b[k] == x);
            }
            if b.contains(x) && x != s.last() {
                let k = choose|k: int| 0 <= k < b.len() && b[k] == x;
                assert(a[k] == x);
            }
        }
    } else {
        assert(nonempty(s) =~= s);
    }
}

/// A letter or digit behind another is shown as it is; the first one behind an
/// underscore or a full stop is shown large, behind a space.
pub proof fn words_begin_large(id: Seq<char>, c: char, d: char)
    requires
        ascii_alphanumeric(c),
        ascii_alphanumeric(d),
    ensures
        words(id.push(c).push(d)) == words(id.push(c)).push(d),
        words(id.push(c).push('_').push(d)) == words(id.push(c)).push(' ').push(ascii_upper(d)),
        words(id.push(c).push('.').push(d)) == words(id.push(c)).push(' ').push(ascii_upper(d)),
        words(seq![d]) == seq![ascii_upper(d)],
{
    let one = id.push(c);
    let (out, b) = words_so_far(one);
    assert(one.drop_last() =~= id && one.last() == c);
    assert(c != '.' && c != '_' && d != '.' && d != '_');
    assert(!b && out.len() > 0 && !is_white(out.last()));
    assert(words(one) == out);
    let two = one.push(d);
    assert(two.drop_last() =~= one);
    assert(words_so_far(two) == (out.push(d), false));
    assert(!is_white(d) && !is_white(ascii_upper(d)));
    let u = one.push('_');
    assert(u.drop_last() =~= one);
    assert(words_so_far(u) == (out.push(' '), true));
    assert(u.push(d).drop_last() =~= u);
    assert(words_so_far(u.push(d)).0 == out.push(' ').push(ascii_upper(d)));
    let p = one.push('.');
    assert(p.drop_last() =~= one);
    assert(words_so_far(p) == (out.push(' '), true));
    assert(p.push(d).drop_last() =~= p);
    assert(words_so_far(p.push(d)).0 == out.push(' ').push(ascii_upper(d)));
    let s = seq![d];
    assert(s.drop_last() =~= Seq::empty());
    assert(words_so_far(s.drop_last()) == (Seq::<char>::empty(), true));
    assert(words_so_far(s).0 =~= seq![ascii_upper(d)]);
}

/// The large letter of a small one stands as far in the alphabet; any other
/// character stays.
pub proof fn small_letters_have_large_ones(c: char)
    ensures
        'a' <= c <= 'z' ==> ascii_upper(c) as int - 'A' as int == c as int - 'a' as int,
        !('a' <= c <= 'z') ==> ascii_upper(c) == c,
        ascii_alphanumeric(c) <==> '0' <= c <= '9' || 'A' <= c <= 'Z' || 'a' <= c <= 'z',
{
}

/// The strings of a list come out in their order, and nothing else does.
pub proof fn strings_keep_their_order(a: Seq<JsonV>, b: Seq<JsonV>, x: JsonV)
    ensures
        strings_in(a + b) == strings_in(a) + strings_in(b),
        x matches JsonV::Str(s) ==> strings_in(seq![x]) == seq![s],
        !(x is Str) ==> strings_in(seq![x]).len() == 0,
    decreases b.len(),
{
    let one = seq![x];
    assert(one.drop_last() =~= Seq::empty());
    assert(strings_in(one.drop_last()) =~= Seq::empty());
    assert(x matches JsonV::Str(s) ==> strings_in(one) =~= seq![s]);
    if b.len() > 0 {
        strings_keep_their_order(a, b.drop_last(), x);
        assert((a + b).drop_last() =~= a + b.drop_last());
        assert((a + b).last() == b.last());
        assert(strings_in(a + b) =~= strings_in(a) + strings_in(b));
    } else {
        assert(a + b =~= a);
        assert(strings_in(a + b) =~= strings_in(a) + strings_in(b));
    }
}

/// The titles that are shown come in their order.
pub proof fn titles_keep_their_order(titles: Seq<Seq<char>>, x: Seq<char>)
    ensures
        x.len() > 0 ==> nonempty(titles.push(x)) == nonempty(titles).push(x),
        x.len() == 0 ==> nonempty(titles.push(x)) == nonempty(titles),
        titles.len() <= 10 ==> shown_examples(titles) == nonempty(titles),
        titles.len() >= 10 ==> shown_examples(titles) == nonempty(titles.take(10)),
{
    assert(titles.push(x).drop_last() =~= titles);
    if titles.len() == 10 {
        assert(titles.take(10) =~= titles);
    }
}

/// What annotations say is added as tags behind the module's own, in a fixed order.
pub proof fn annotations_are_added_in_order(tags: Seq<Seq<char>>, a: ModuleAnnotations)
    requires
        !tags.contains("apcore:readonly"@),
        !tags.contains("apcore:destructive"@),
        !tags.contains("apcore:idempotent"@),
        !tags.contains("apcore:requires-approval"@),
    ensures
        annotated(tags, None) == tags,
        annotated(tags, Some(a)) == tags + (if a.readonly {
            seq!["apcore:readonly"@]
        } else {
            seq![]
        }) + (if a.destructive {
            seq!["apcore:destructive"@]
        } else {
            seq![]
        }) + (if a.idempotent {
            seq!["apcore:idempotent"@]
        } else {
            seq![]
        }) + (if a.requires_approval {
            seq!["apcore:requires-approval"@]
        } else {
            seq![]
        }),
{
    reveal_strlit("apcore:readonly");
    reveal_strlit("apcore:destructive");
    reveal_strlit("apcore:idempotent");
    reveal_strlit("apcore:requires-approval");
    assert("apcore:readonly"@.len() == 15);
    assert("apcore:destructive"@.len() == 18);
    assert("apcore:idempotent"@.len() == 17);
    assert("apcore:requires-approval"@.len() == 24);
    let t1 = with_tag(tags, "apcore:readonly"@, a.readonly);
    with_tag_holds(tags, "apcore:readonly"@, a.readonly, "apcore:destructive"@);
    let t2 = with_tag(t1, "apcore:destructive"@, a.destructive);
    with_tag_holds(tags, "apcore:readonly"@, a.readonly, "apcore:idempotent"@);
    with_tag_holds(t1, "apcore:destructive"@, a.destructive, "apcore:idempotent"@);
    let t3 = with_tag(t2, "apcore:idempotent"@, a.idempotent);
    with_tag_holds(tags, "apcore:readonly"@, a.readonly, "apcore:requires-approval"@);
    with_tag_holds(t1, "apcore:destructive"@, a.destructive, "apcore:requires-approval"@);
    with_tag_holds(t2, "apcore:idempotent"@, a.idempotent, "apcore:requires-approval"@);
    assert(t1 =~= tags + (if a.readonly {
        seq!["apcore:readonly"@]
    } else {
        seq![]
    }));
    assert(t2 =~= t1 + (if a.destructive {
        seq!["apcore:destructive"@]
    } else {
        seq![]
    }));
    assert(t3 =~= t2 + (if a.idempotent {
        seq!["apcore:idempotent"@]
    } else {
        seq![]
    }));
    assert(annotated(tags, Some(a)) =~= t3 + (if a.requires_approval {
        seq!["apcore:requires-approval"@]
    } else {
        seq![]
    }));
}

/// What is shown of an id that is not of ASCII letters alone follows the same rule:
/// a letter or digit behind another is shown as it is, and the first one behind an
/// underscore or a full stop is shown large, behind a space.
pub proof fn names_begin_large(id: Seq<char>, c: char, d: char)
    requires
        char_alphanumeric(c),
        char_alphanumeric(d),
        c != '.' && c != '_' && !is_white(c),
        d != '.' && d != '_' && !is_white(d),
        char_upper(c).len() > 0 && !is_white(char_upper(c).last()),
        char_upper(d).len() > 0 && !is_white(char_upper(d).last()),
    ensures
        humanized(id.push(c).push(d)) == humanized(id.push(c)).push(d),
        humanized(id.push(c).push('_').push(d)) == humanized(id.push(c)).push(' ') + char_upper(d),
        humanized(id.push(c).push('.').push(d)) == humanized(id.push(c)).push(' ') + char_upper(d),
        humanized(seq![d]) == char_upper(d),
{
    let one = id.push(c);
    let (out, b) = humanized_so_far(one);
    assert(one.drop_last() =~= id && one.last() == c);
    assert(!b && out.len() > 0 && !is_white(out.last()));
    assert(humanized(one) == out);
    let two = one.push(d);
    assert(two.drop_last() =~= one);
    assert(humanized_so_far(two) == (out.push(d), false));
    let u = one.push('_');
    assert(u.drop_last() =~= one);
    assert(humanized_so_far(u) == (out.push(' '), true));
    assert(u.push(d).drop_last() =~= u);
    assert(humanized_so_far(u.push(d)).0 == out.push(' ') + char_upper(d));
    let p = one.push('.');
    assert(p.drop_last() =~= one);
    assert(humanized_so_far(p) == (out.push(' '), true));
    assert(p.push(d).drop_last() =~= p);
    assert(humanized_so_far(p.push(d)).0 == out.push(' ') + char_upper(d));
    assert((out.push(' ') + char_upper(d)).last() == char_upper(d).last());
    let s = seq![d];
    assert(s.drop_last() =~= Seq::empty());
    assert(humanized_so_far(s.drop_last()) == (Seq::<char>::empty(), true));
    assert(humanized_so_far(s).0 =~= char_upper(d));
}

} // verus!
