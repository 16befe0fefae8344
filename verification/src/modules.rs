//! What the protocol adapter reads of an apcore module, and of the registry
//! that lists the modules.

use vstd::prelude::*;
use vstd::string::*;

use crate::codec::json_of_value;
use crate::json::{fields, Json, JsonV};
use crate::text::views;

verus! {

/// The behaviour a module asserts of itself.
#[derive(Debug, Clone, Copy)]
pub struct ModuleAnnotations {
    pub readonly: bool,
    pub destructive: bool,
    pub idempotent: bool,
    pub requires_approval: bool,
}

/// What is known of a module.
#[derive(Debug)]
pub struct ModuleDescriptor {
    pub description: String,
    pub input_schema: Json,
    pub output_schema: Json,
    pub tags: Vec<String>,
    pub annotations: Option<ModuleAnnotations>,
    /// The titles of the examples, in order.
    pub examples: Vec<String>,
    pub metadata: Vec<(String, Json)>,
    pub display: Option<Json>,
}

/// What a descriptor denotes.
#[verifier::ext_equal]
pub struct DescriptorV {
    pub description: Seq<char>,
    pub input_schema: JsonV,
    pub output_schema: JsonV,
    pub tags: Seq<Seq<char>>,
    pub annotations: Option<ModuleAnnotations>,
    pub examples: Seq<Seq<char>>,
    pub metadata: Seq<(Seq<char>, JsonV)>,
    pub display: Option<JsonV>,
}

impl View for ModuleDescriptor {
    type V = DescriptorV;

    open spec fn view(&self) -> DescriptorV {
        DescriptorV {
            description: self.description@,
            input_schema: self.input_schema@,
            output_schema: self.output_schema@,
            tags: views(self.tags@),
            annotations: self.annotations,
            examples: views(self.examples@),
            metadata: fields(self.metadata@),
            display: crate::json::opt(self.display),
        }
    }
}

/// A listed module: its id, and its descriptor where the registry has one.
#[derive(Debug)]
pub struct ModuleEntry {
    pub id: String,
    pub descriptor: Option<ModuleDescriptor>,
}

/// What a listed module denotes.
#[verifier::ext_equal]
pub struct EntryV {
    pub id: Seq<char>,
    pub descriptor: Option<DescriptorV>,
}

impl View for ModuleEntry {
    type V = EntryV;

    open spec fn view(&self) -> EntryV {
        EntryV {
            id: self.id@,
            descriptor: opt_descriptor(self.descriptor),
        }
    }
}

/// What an optional descriptor denotes.
pub open spec fn opt_descriptor(d: Option<ModuleDescriptor>) -> Option<DescriptorV> {
    match d {
        Some(d) => Some(d@),
        None => None,
    }
}

/// The order of strings, by their first differing character.
pub open spec fn text_le(a: Seq<char>, b: Seq<char>) -> bool
    decreases a.len(),
{
    if a.len() == 0 {
        true
    } else if b.len() == 0 || a[0] != b[0] {
        b.len() > 0 && a[0] < b[0]
    } else {
        text_le(a.drop_first(), b.drop_first())
    }
}

/// Strings in order.
pub open spec fn sorted(s: Seq<Seq<char>>) -> bool {
    forall|i: int, j: int| 0 <= i <= j < s.len() ==> text_le(#[trigger] s[i], #[trigger] s[j])
}

/// What a list of modules denotes.
pub open spec fn entry_views(s: Seq<ModuleEntry>) -> Seq<EntryV> {
    s.map_values(|e: ModuleEntry| e@)
}

/// The ids of a list of modules.
pub open spec fn entry_ids(s: Seq<EntryV>) -> Seq<Seq<char>> {
    s.map_values(|e: EntryV| e.id)
}

/// apcore's registry, whose contents may change between two calls.
#[verifier::external_type_specification]
#[verifier::external_body]
pub struct ExRegistry(apcore::registry::registry::Registry);

/// That `Registry::list` without filters gave these ids. It may give others at
/// another time.
pub uninterp spec fn registry_listed(
    registry: apcore::registry::registry::Registry,
    ids: Seq<Seq<char>>,
) -> bool;

/// That `Registry::get_definition` gave this descriptor for an id, or none. It
/// may give another at another time.
pub uninterp spec fn registry_defined(
    registry: apcore::registry::registry::Registry,
    id: Seq<char>,
    descriptor: Option<DescriptorV>,
) -> bool;

/// Modules as a registry listed them: each once, in the order of their ids,
/// each with the descriptor that the registry gave for it.
pub open spec fn registered(
    registry: apcore::registry::registry::Registry,
    modules: Seq<EntryV>,
) -> bool {
    &&& registry_listed(registry, entry_ids(modules))
    &&& entry_ids(modules).no_duplicates()
    &&& sorted(entry_ids(modules))
    &&& forall|i: int|
        0 <= i < modules.len() ==> registry_defined(
            registry,
            (#[trigger] modules[i]).id,
            modules[i].descriptor,
        )
}

/// `Registry::list` without filters: the ids of the public modules, each once,
/// in order. Which modules there are is up to the registry at the time of the
/// call.
#[verifier::external_body]
fn module_ids(registry: &apcore::registry::registry::Registry) -> (r: Vec<String>)
    ensures
        registry_listed(*registry, views(r@)),
        views(r@).no_duplicates(),
        sorted(views(r@)),
{
    registry.list(None, None, None)
}

/// `Registry::get_definition`: the descriptor of a module, field by field, or
/// nothing where the registry has none or reports an error. It is up to the
/// registry at the time of the call.
#[verifier::external_body]
fn definition(registry: &apcore::registry::registry::Registry, id: &str) -> (r: Option<
    ModuleDescriptor,
>)
    ensures
        registry_defined(*registry, id@, opt_descriptor(r)),
{
    let d = registry.get_definition(id).ok().flatten()?;
    let annotations = d.annotations.map(|a| ModuleAnnotations {
        readonly: a.readonly,
        destructive: a.destructive,
        idempotent: a.idempotent,
        requires_approval: a.requires_approval,
    });
    let (input_schema, output_schema) = (json_of_value(d.input_schema), json_of_value(d.output_schema));
    let examples = d.examples.into_iter().map(|e| e.title).collect();
    let metadata = d.metadata.into_iter().map(|(k, v)| (k, json_of_value(v))).collect();
    let display = d.display.map(json_of_value);
    Some(ModuleDescriptor { description: d.description, input_schema, output_schema, tags: d.tags, annotations, examples, metadata, display })
}

/// The public modules of a registry with their descriptors, each once.
pub fn registered_modules(registry: &apcore::registry::registry::Registry) -> (r: Vec<ModuleEntry>)
    ensures
        registered(*registry, entry_views(r@)),
{
    let ids: Vec<String> = module_ids(registry);
    let mut out: Vec<ModuleEntry> = Vec::new();
    let mut i: usize = 0;
    while i < ids.len()
        invariant
            i <= ids.len(),
            out.len() == i,
            forall|k: int|
                0 <= k < i ==> (#[trigger] out[k]).id@ == ids[k]@ && registry_defined(
                    *registry,
                    out[k].id@,
                    opt_descriptor(out[k].descriptor),
                ),
        decreases ids.len() - i,
    {
        let id: String = ids[i].clone();
        let descriptor: Option<ModuleDescriptor> = definition(registry, id.as_str());
        out.push(ModuleEntry { id, descriptor });
        i += 1;
    }
    assert(entry_ids(entry_views(out@)) =~= views(ids@));
    out
}

/// The order of strings is that of their first differing characters, and a string
/// comes before those that go on where it ends.
pub proof fn strings_are_in_the_order_of_their_characters(
    s: Seq<char>,
    a: char,
    b: char,
    x: Seq<char>,
    y: Seq<char>,
)
    ensures
        text_le(s, s + x),
        x.len() > 0 ==> !text_le(s + x, s),
        a < b ==> text_le(s.push(a) + x, s.push(b) + y) && !text_le(s.push(b) + y, s.push(a) + x),
    decreases s.len(),
{
    if s.len() > 0 {
        let t = s.drop_first();
        strings_are_in_the_order_of_their_characters(t, a, b, x, y);
        assert((s + x).drop_first() =~= t + x);
        assert((s.push(a) + x).drop_first() =~= t.push(a) + x);
        assert((s.push(b) + y).drop_first() =~= t.push(b) + y);
        assert((s + x)[0] == s[0]);
    } else {
        assert((s + x) =~= x);
    }
}

/// What a registry lists is listed with its own descriptors.
pub proof fn listed_modules_are_those_of_the_registry(
    registry: apcore::registry::registry::Registry,
    modules: Seq<EntryV>,
    i: int,
    j: int,
)
    requires
        registered(registry, modules),
        0 <= i < modules.len(),
        0 <= j < modules.len(),
    ensures
        registry_defined(registry, modules[i].id, modules[i].descriptor),
        i != j ==> modules[i].id != modules[j].id,
        i <= j ==> text_le(modules[i].id, modules[j].id),
        registry_listed(registry, entry_ids(modules)),
{
    let ids = entry_ids(modules);
    assert(ids[i] == modules[i].id && ids[j] == modules[j].id);
}

} // verus!
