//! The Agent Card: what an agent tells of itself.

use vstd::prelude::*;
use vstd::string::*;

use crate::adapters::skill_mapper::{skill_of, SkillMapper};
use crate::json::{
    array, clone_items, fields, items, model_of, object, put, string, Json, JsonV,
};
use crate::modules::{entry_ids, entry_views, registered, registered_modules, EntryV, ModuleEntry};
use crate::text::{clone_strings, owned, str_eq, trim, trimmed, views};
use crate::types::{opt_member, put_opt};

verus! {

/// A skill on an Agent Card.
#[derive(Debug)]
pub struct AgentSkill {
    pub id: String,
    pub name: String,
    pub description: String,
    pub tags: Vec<String>,
    pub examples: Vec<String>,
    pub input_modes: Vec<String>,
    pub output_modes: Vec<String>,
    pub security_requirements: Vec<Json>,
}

/// What a skill denotes.
#[verifier::ext_equal]
pub struct SkillV {
    pub id: Seq<char>,
    pub name: Seq<char>,
    pub description: Seq<char>,
    pub tags: Seq<Seq<char>>,
    pub examples: Seq<Seq<char>>,
    pub input_modes: Seq<Seq<char>>,
    pub output_modes: Seq<Seq<char>>,
    pub security_requirements: Seq<JsonV>,
}

impl View for AgentSkill {
    type V = SkillV;

    open spec fn view(&self) -> SkillV {
        SkillV {
            id: self.id@,
            name: self.name@,
            description: self.description@,
            tags: views(self.tags@),
            examples: views(self.examples@),
            input_modes: views(self.input_modes@),
            output_modes: views(self.output_modes@),
            security_requirements: items(self.security_requirements@),
        }
    }
}

/// The JSON form of a list of strings.
pub open spec fn strings_json(s: Seq<Seq<char>>) -> JsonV {
    JsonV::Array(s.map_values(|x: Seq<char>| JsonV::Str(x)))
}

/// The JSON form of a list of strings.
pub fn strings_to_json(v: &Vec<String>) -> (r: Json)
    ensures
        r@ == strings_json(views(v@)),
{
    let mut out: Vec<Json> = Vec::new();
    let mut i: usize = 0;
    while i < v.len()
        invariant
            i <= v.len(),
            out.len() == i,
            forall|k: int| 0 <= k < i ==> (#[trigger] out[k])@ == JsonV::Str(v[k]@),
        decreases v.len() - i,
    {
        out.push(string(v[i].as_str()));
        i += 1;
    }
    assert(items(out@) =~= strings_json(views(v@))->Array_0);
    array(out)
}

/// The JSON form of a skill.
pub open spec fn skill_json(s: SkillV) -> JsonV {
    JsonV::Object(
        seq![
            ("id"@, JsonV::Str(s.id)),
            ("name"@, JsonV::Str(s.name)),
            ("description"@, JsonV::Str(s.description)),
            ("tags"@, strings_json(s.tags)),
            ("examples"@, strings_json(s.examples)),
            ("inputModes"@, strings_json(s.input_modes)),
            ("outputModes"@, strings_json(s.output_modes)),
            ("securityRequirements"@, JsonV::Array(s.security_requirements)),
        ],
    )
}

impl AgentSkill {
    /// The JSON form of the skill.
    pub fn to_json(&self) -> (r: Json)
        ensures
            r@ == skill_json(self@),
    {
        let mut m: Vec<(String, Json)> = Vec::new();
        put(&mut m, "id", string(self.id.as_str()));
        put(&mut m, "name", string(self.name.as_str()));
        put(&mut m, "description", string(self.description.as_str()));
        put(&mut m, "tags", strings_to_json(&self.tags));
        put(&mut m, "examples", strings_to_json(&self.examples));
        put(&mut m, "inputModes", strings_to_json(&self.input_modes));
        put(&mut m, "outputModes", strings_to_json(&self.output_modes));
        put(&mut m, "securityRequirements", array(clone_items(&self.security_requirements)));
        assert(fields(m@) =~= skill_json(self@)->Object_0);
        object(m)
    }

    /// A copy of the skill.
    pub fn copy(&self) -> (r: AgentSkill)
        ensures
            r@ == self@,
    {
        AgentSkill {
            id: self.id.clone(),
            name: self.name.clone(),
            description: self.description.clone(),
            tags: clone_strings(&self.tags),
            examples: clone_strings(&self.examples),
            input_modes: clone_strings(&self.input_modes),
            output_modes: clone_strings(&self.output_modes),
            security_requirements: clone_items(&self.security_requirements),
        }
    }
}

/// One endpoint of an agent.
#[derive(Debug)]
pub struct AgentInterface {
    pub url: String,
    pub protocol_binding: String,
    pub protocol_version: String,
    pub tenant: String,
}

/// What an endpoint denotes.
#[verifier::ext_equal]
pub struct InterfaceV {
    pub url: Seq<char>,
    pub protocol_binding: Seq<char>,
    pub protocol_version: Seq<char>,
    pub tenant: Seq<char>,
}

impl View for AgentInterface {
    type V = InterfaceV;

    open spec fn view(&self) -> InterfaceV {
        InterfaceV {
            url: self.url@,
            protocol_binding: self.protocol_binding@,
            protocol_version: self.protocol_version@,
            tenant: self.tenant@,
        }
    }
}

/// The JSON form of an endpoint.
pub open spec fn interface_json(i: InterfaceV) -> JsonV {
    JsonV::Object(
        seq![
            ("url"@, JsonV::Str(i.url)),
            ("protocolBinding"@, JsonV::Str(i.protocol_binding)),
            ("protocolVersion"@, JsonV::Str(i.protocol_version)),
            ("tenant"@, JsonV::Str(i.tenant)),
        ],
    )
}

impl AgentInterface {
    /// The JSON form of the endpoint.
    pub fn to_json(&self) -> (r: Json)
        ensures
            r@ == interface_json(self@),
    {
        let mut m: Vec<(String, Json)> = Vec::new();
        put(&mut m, "url", string(self.url.as_str()));
        put(&mut m, "protocolBinding", string(self.protocol_binding.as_str()));
        put(&mut m, "protocolVersion", string(self.protocol_version.as_str()));
        put(&mut m, "tenant", string(self.tenant.as_str()));
        assert(fields(m@) =~= interface_json(self@)->Object_0);
        object(m)
    }

    /// A copy of the endpoint.
    pub fn copy(&self) -> (r: AgentInterface)
        ensures
            r@ == self@,
    {
        AgentInterface {
            url: self.url.clone(),
            protocol_binding: self.protocol_binding.clone(),
            protocol_version: self.protocol_version.clone(),
            tenant: self.tenant.clone(),
        }
    }
}

/// What an agent can do beyond answering a message.
#[derive(Debug)]
pub struct AgentCapabilities {
    pub streaming: bool,
    pub push_notifications: bool,
    pub extensions: Vec<Json>,
    pub extended_agent_card: bool,
}

/// What the capabilities denote.
#[verifier::ext_equal]
pub struct CapabilitiesV {
    pub streaming: bool,
    pub push_notifications: bool,
    pub extensions: Seq<JsonV>,
    pub extended_agent_card: bool,
}

impl View for AgentCapabilities {
    type V = CapabilitiesV;

    open spec fn view(&self) -> CapabilitiesV {
        CapabilitiesV {
            streaming: self.streaming,
            push_notifications: self.push_notifications,
            extensions: items(self.extensions@),
            extended_agent_card: self.extended_agent_card,
        }
    }
}

/// The JSON form of the capabilities.
pub open spec fn capabilities_json(c: CapabilitiesV) -> JsonV {
    JsonV::Object(
        seq![
            ("streaming"@, JsonV::Bool(c.streaming)),
            ("pushNotifications"@, JsonV::Bool(c.push_notifications)),
            ("extensions"@, JsonV::Array(c.extensions)),
            ("extendedAgentCard"@, JsonV::Bool(c.extended_agent_card)),
        ],
    )
}

impl AgentCapabilities {
    /// The JSON form of the capabilities.
    pub fn to_json(&self) -> (r: Json)
        ensures
            r@ == capabilities_json(self@),
    {
        let mut m: Vec<(String, Json)> = Vec::new();
        put(&mut m, "streaming", Json::Bool(self.streaming));
        put(&mut m, "pushNotifications", Json::Bool(self.push_notifications));
        put(&mut m, "extensions", array(clone_items(&self.extensions)));
        put(&mut m, "extendedAgentCard", Json::Bool(self.extended_agent_card));
        assert(fields(m@) =~= capabilities_json(self@)->Object_0);
        object(m)
    }

    /// A copy of the capabilities.
    pub fn copy(&self) -> (r: AgentCapabilities)
        ensures
            r@ == self@,
    {
        AgentCapabilities {
            streaming: self.streaming,
            push_notifications: self.push_notifications,
            extensions: clone_items(&self.extensions),
            extended_agent_card: self.extended_agent_card,
        }
    }
}

/// An Agent Card.
#[derive(Debug)]
pub struct AgentCard {
    pub name: String,
    pub description: String,
    pub version: String,
    pub supported_interfaces: Vec<AgentInterface>,
    pub provider: Option<Json>,
    pub capabilities: AgentCapabilities,
    pub skills: Vec<AgentSkill>,
    pub default_input_modes: Vec<String>,
    pub default_output_modes: Vec<String>,
    pub security_schemes: Json,
    pub security_requirements: Vec<Json>,
    pub signatures: Vec<Json>,
}

/// What an Agent Card denotes.
#[verifier::ext_equal]
pub struct CardV {
    pub name: Seq<char>,
    pub description: Seq<char>,
    pub version: Seq<char>,
    pub supported_interfaces: Seq<InterfaceV>,
    pub provider: Option<JsonV>,
    pub capabilities: CapabilitiesV,
    pub skills: Seq<SkillV>,
    pub default_input_modes: Seq<Seq<char>>,
    pub default_output_modes: Seq<Seq<char>>,
    pub security_schemes: JsonV,
    pub security_requirements: Seq<JsonV>,
    pub signatures: Seq<JsonV>,
}

/// What a list of skills denotes.
pub open spec fn skill_views(s: Seq<AgentSkill>) -> Seq<SkillV> {
    s.map_values(|x: AgentSkill| x@)
}

/// What a list of endpoints denotes.
pub open spec fn interface_views(s: Seq<AgentInterface>) -> Seq<InterfaceV> {
    s.map_values(|x: AgentInterface| x@)
}

impl View for AgentCard {
    type V = CardV;

    open spec fn view(&self) -> CardV {
        CardV {
            name: self.name@,
            description: self.description@,
            version: self.version@,
            supported_interfaces: interface_views(self.supported_interfaces@),
            provider: crate::json::opt(self.provider),
            capabilities: self.capabilities@,
            skills: skill_views(self.skills@),
            default_input_modes: views(self.default_input_modes@),
            default_output_modes: views(self.default_output_modes@),
            security_schemes: self.security_schemes@,
            security_requirements: items(self.security_requirements@),
            signatures: items(self.signatures@),
        }
    }
}

/// The JSON form of a list of skills.
pub open spec fn skills_json(s: Seq<SkillV>) -> JsonV {
    JsonV::Array(s.map_values(|x: SkillV| skill_json(x)))
}

/// The JSON form of an Agent Card.
pub open spec fn card_json(c: CardV) -> JsonV {
    JsonV::Object(
        seq![
            ("name"@, JsonV::Str(c.name)),
            ("description"@, JsonV::Str(c.description)),
            ("version"@, JsonV::Str(c.version)),
            (
                "supportedInterfaces"@,
                JsonV::Array(c.supported_interfaces.map_values(|x: InterfaceV| interface_json(x))),
            ),
        ] + opt_member("provider"@, c.provider) + seq![
            ("capabilities"@, capabilities_json(c.capabilities)),
            ("skills"@, skills_json(c.skills)),
            ("defaultInputModes"@, strings_json(c.default_input_modes)),
            ("defaultOutputModes"@, strings_json(c.default_output_modes)),
            ("securitySchemes"@, c.security_schemes),
            ("securityRequirements"@, JsonV::Array(c.security_requirements)),
            ("signatures"@, JsonV::Array(c.signatures)),
        ],
    )
}

fn skills_to_json(v: &Vec<AgentSkill>) -> (r: Json)
    ensures
        r@ == skills_json(skill_views(v@)),
{
    let mut out: Vec<Json> = Vec::new();
    let mut i: usize = 0;
    while i < v.len()
        invariant
            i <= v.len(),
            out.len() == i,
            forall|k: int| 0 <= k < i ==> (#[trigger] out[k])@ == skill_json(v[k]@),
        decreases v.len() - i,
    {
        out.push(v[i].to_json());
        i += 1;
    }
    assert(items(out@) =~= skills_json(skill_views(v@))->Array_0);
    array(out)
}

fn interfaces_to_json(v: &Vec<AgentInterface>) -> (r: Json)
    ensures
        r@ == JsonV::Array(interface_views(v@).map_values(|x: InterfaceV| interface_json(x))),
{
    let mut out: Vec<Json> = Vec::new();
    let mut i: usize = 0;
    while i < v.len()
        invariant
            i <= v.len(),
            out.len() == i,
            forall|k: int| 0 <= k < i ==> (#[trigger] out[k])@ == interface_json(v[k]@),
        decreases v.len() - i,
    {
        out.push(v[i].to_json());
        i += 1;
    }
    assert(items(out@) =~= interface_views(v@).map_values(|x: InterfaceV| interface_json(x)));
    array(out)
}

impl AgentCard {
    /// The JSON form of the card.
    pub fn to_json(&self) -> (r: Json)
        ensures
            r@ == card_json(self@),
    {
        let mut m: Vec<(String, Json)> = Vec::new();
        put(&mut m, "name", string(self.name.as_str()));
        put(&mut m, "description", string(self.description.as_str()));
        put(&mut m, "version", string(self.version.as_str()));
        put(&mut m, "supportedInterfaces", interfaces_to_json(&self.supported_interfaces));
        put_opt(&mut m, "provider", crate::json::clone_opt(&self.provider));
        put(&mut m, "capabilities", self.capabilities.to_json());
        put(&mut m, "skills", skills_to_json(&self.skills));
        put(&mut m, "defaultInputModes", strings_to_json(&self.default_input_modes));
        put(&mut m, "defaultOutputModes", strings_to_json(&self.default_output_modes));
        put(&mut m, "securitySchemes", self.security_schemes.copy());
        put(&mut m, "securityRequirements", array(clone_items(&self.security_requirements)));
        put(&mut m, "signatures", array(clone_items(&self.signatures)));
        assert(fields(m@) =~= card_json(self@)->Object_0);
        object(m)
    }

    /// A copy of the card.
    pub fn copy(&self) -> (r: AgentCard)
        ensures
            r@ == self@,
    {
        let mut skills: Vec<AgentSkill> = Vec::new();
        let mut i: usize = 0;
        while i < self.skills.len()
            invariant
                i <= self.skills.len(),
                skills.len() == i,
                forall|k: int| 0 <= k < i ==> (#[trigger] skills[k])@ == self.skills[k]@,
            decreases self.skills.len() - i,
        {
            skills.push(self.skills[i].copy());
            i += 1;
        }
        let mut interfaces: Vec<AgentInterface> = Vec::new();
        let mut j: usize = 0;
        while j < self.supported_interfaces.len()
            invariant
                j <= self.supported_interfaces.len(),
                interfaces.len() == j,
                forall|k: int|
                    0 <= k < j ==> (#[trigger] interfaces[k])@ == self.supported_interfaces[k]@,
            decreases self.supported_interfaces.len() - j,
        {
            interfaces.push(self.supported_interfaces[j].copy());
            j += 1;
        }
        let r = AgentCard {
            name: self.name.clone(),
            description: self.description.clone(),
            version: self.version.clone(),
            supported_interfaces: interfaces,
            provider: crate::json::clone_opt(&self.provider),
            capabilities: self.capabilities.copy(),
            skills,
            default_input_modes: clone_strings(&self.default_input_modes),
            default_output_modes: clone_strings(&self.default_output_modes),
            security_schemes: self.security_schemes.copy(),
            security_requirements: clone_items(&self.security_requirements),
            signatures: clone_items(&self.signatures),
        };
        assert(r@ =~= self@);
        r
    }
}

/// A security scheme as A2A spells it: an HTTP scheme under its own key, any
/// other as an empty object.
pub open spec fn a2a_scheme(scheme: JsonV) -> JsonV {
    if scheme.text_at("type"@) == Some("http"@) {
        let name = match scheme.text_at("scheme"@) {
            Some(s) => s,
            None => "bearer"@,
        };
        let format = match scheme.text_at("bearerFormat"@) {
            Some(f) => if f.len() > 0 {
                Some(JsonV::Str(f))
            } else {
                None
            },
            None => None,
        };
        JsonV::Object(
            seq![
                (
                    "httpAuthSecurityScheme"@,
                    JsonV::Object(
                        seq![("scheme"@, JsonV::Str(name))] + opt_member("bearerFormat"@, format),
                    ),
                ),
            ],
        )
    } else {
        JsonV::Object(seq![])
    }
}

/// Named security schemes as A2A spells them.
pub open spec fn a2a_schemes(schemes: Option<JsonV>) -> JsonV {
    match schemes {
        Some(JsonV::Object(m)) => JsonV::Object(
            m.map_values(|x: (Seq<char>, JsonV)| (x.0, a2a_scheme(x.1))),
        ),
        _ => JsonV::Object(seq![]),
    }
}

/// A security scheme as A2A spells it.
fn to_a2a_security_scheme(scheme: &Json) -> (r: Json)
    ensures
        r@ == a2a_scheme(scheme@),
{
    let mut outer: Vec<(String, Json)> = Vec::new();
    let is_http: bool = match scheme.get_str("type") {
        Some(t) => str_eq(t, "http"),
        None => false,
    };
    if is_http {
        let mut http: Vec<(String, Json)> = Vec::new();
        match scheme.get_str("scheme") {
            Some(s) => put(&mut http, "scheme", string(s)),
            None => put(&mut http, "scheme", string("bearer")),
        }
        match scheme.get_str("bearerFormat") {
            Some(f) => if !f.is_empty() {
                put(&mut http, "bearerFormat", string(f));
            },
            None => {},
        }
        assert(fields(http@) =~= a2a_scheme(scheme@)->Object_0[0].1->Object_0);
        put(&mut outer, "httpAuthSecurityScheme", object(http));
    }
    assert(fields(outer@) =~= a2a_scheme(scheme@)->Object_0);
    object(outer)
}

/// Named security schemes as A2A spells them; none gives an empty object.
pub fn to_a2a_security_schemes(schemes: Option<&Json>) -> (r: Json)
    ensures
        r@ == a2a_schemes(crate::json::opt_ref(schemes)),
{
    let mut out: Vec<(String, Json)> = Vec::new();
    if let Some(s) = schemes {
        proof {
            model_of(*s);
        }
        if let Json::Object(m) = s {
            let mut i: usize = 0;
            while i < m.len()
                invariant
                    i <= m.len(),
                    out.len() == i,
                    forall|k: int|
                        0 <= k < i ==> (#[trigger] fields(out@)[k]) == (
                            m[k].0@,
                            a2a_scheme(m[k].1@),
                        ),
                decreases m.len() - i,
            {
                let ghost prev = out@;
                put(&mut out, m[i].0.as_str(), to_a2a_security_scheme(&m[i].1));
                assert(fields(out@).len() == fields(prev).len() + 1);
                assert(forall|k: int| 0 <= k < i ==> fields(out@)[k] == fields(prev)[k]);
                i += 1;
            }
        }
    }
    assert(fields(out@) =~= a2a_schemes(crate::json::opt_ref(schemes))->Object_0);
    object(out)
}

/// A module that an Agent Card shows: one with a descriptor that says
/// something of it.
pub open spec fn is_shown(e: EntryV) -> bool {
    e.descriptor matches Some(d) && trimmed(d.description).len() > 0
}

/// The skills of the modules that an Agent Card shows, in their order.
pub open spec fn skills_of(modules: Seq<EntryV>) -> Seq<SkillV>
    decreases modules.len(),
{
    if modules.len() == 0 {
        Seq::empty()
    } else {
        let rest = skills_of(modules.drop_last());
        let e = modules.last();
        if is_shown(e) {
            rest.push(skill_of(e.id, e.descriptor->0, e.descriptor->0.description))
        } else {
            rest
        }
    }
}

/// The Agent Card of an agent with the given modules.
pub open spec fn card_of(
    modules: Seq<EntryV>,
    name: Seq<char>,
    description: Seq<char>,
    version: Seq<char>,
    url: Seq<char>,
    capabilities: CapabilitiesV,
    security_schemes: Option<JsonV>,
) -> CardV {
    CardV {
        name,
        description,
        version,
        supported_interfaces: seq![
            InterfaceV {
                url,
                protocol_binding: "JSONRPC"@,
                protocol_version: "1.0"@,
                tenant: Seq::empty(),
            },
        ],
        provider: None,
        capabilities,
        skills: skills_of(modules),
        default_input_modes: seq!["text/plain"@, "application/json"@],
        default_output_modes: seq!["text/plain"@, "application/json"@],
        security_schemes: a2a_schemes(security_schemes),
        security_requirements: Seq::empty(),
        signatures: Seq::empty(),
    }
}

/// Builds Agent Cards and keeps the last one.
#[derive(Debug)]
pub struct AgentCardBuilder {
    skill_mapper: SkillMapper,
    cache: Option<AgentCard>,
}

impl AgentCardBuilder {
    /// The card that was built last and not given up since.
    pub closed spec fn cached(&self) -> Option<CardV> {
        match self.cache {
            Some(c) => Some(c@),
            None => None,
        }
    }

    /// What modules are made skills with.
    pub closed spec fn mapper(&self) -> SkillMapper {
        self.skill_mapper
    }

    /// A builder that has built nothing.
    pub fn new(skill_mapper: SkillMapper) -> (r: AgentCardBuilder)
        ensures
            r.mapper() == skill_mapper,
            r.cached() is None,
    {
        AgentCardBuilder { skill_mapper, cache: None }
    }

    /// Build the card of an agent whose modules a registry lists, and keep it.
    pub fn build(
        &mut self,
        registry: &apcore::registry::registry::Registry,
        name: &str,
        description: &str,
        version: &str,
        url: &str,
        capabilities: AgentCapabilities,
        security_schemes: Option<&Json>,
    ) -> (r: AgentCard)
        ensures
            final(self).mapper() == old(self).mapper(),
            final(self).cached() == Some(r@),
            exists|modules: Seq<EntryV>|
                registered(*registry, modules) && r@ == #[trigger] card_of(
                    modules,
                    name@,
                    description@,
                    version@,
                    url@,
                    capabilities@,
                    crate::json::opt_ref(security_schemes),
                ),
    {
        let modules: Vec<ModuleEntry> = registered_modules(registry);
        self.build_from(
            &modules,
            name,
            description,
            version,
            url,
            capabilities,
            security_schemes,
        )
    }

    /// Build the card of an agent with the given modules, and keep it.
    pub fn build_from(
        &mut self,
        modules: &Vec<ModuleEntry>,
        name: &str,
        description: &str,
        version: &str,
        url: &str,
        capabilities: AgentCapabilities,
        security_schemes: Option<&Json>,
    ) -> (r: AgentCard)
        ensures
            r@ == card_of(
                entry_views(modules@),
                name@,
                description@,
                version@,
                url@,
                capabilities@,
                crate::json::opt_ref(security_schemes),
            ),
            final(self).mapper() == old(self).mapper(),
            final(self).cached() == Some(r@),
    {
        let skills: Vec<AgentSkill> = self.map_skills(modules);
        let mut interfaces: Vec<AgentInterface> = Vec::new();
        interfaces.push(
            AgentInterface {
                url: owned(url),
                protocol_binding: owned("JSONRPC"),
                protocol_version: owned("1.0"),
                tenant: String::new(),
            },
        );
        let security_requirements: Vec<Json> = Vec::new();
        let signatures: Vec<Json> = Vec::new();
        let card = AgentCard {
            name: owned(name),
            description: owned(description),
            version: owned(version),
            supported_interfaces: interfaces,
            provider: None,
            capabilities,
            skills,
            default_input_modes: default_modes(),
            default_output_modes: default_modes(),
            security_schemes: to_a2a_security_schemes(security_schemes),
            security_requirements,
            signatures,
        };
        assert(card@ =~= card_of(
            entry_views(modules@),
            name@,
            description@,
            version@,
            url@,
            capabilities@,
            crate::json::opt_ref(security_schemes),
        )) by {
            reveal_strlit("");
            assert(interface_views(interfaces@) =~= seq![
                InterfaceV {
                    url: url@,
                    protocol_binding: "JSONRPC"@,
                    protocol_version: "1.0"@,
                    tenant: Seq::empty(),
                },
            ]) by {
                assert(interfaces[0]@.tenant =~= Seq::empty());
            }
        }
        self.cache = Some(card.copy());
        card
    }

    fn map_skills(&self, modules: &Vec<ModuleEntry>) -> (r: Vec<AgentSkill>)
        ensures
            skill_views(r@) == skills_of(entry_views(modules@)),
    {
        let mut out: Vec<AgentSkill> = Vec::new();
        let mut i: usize = 0;
        let ghost all = entry_views(modules@);
        assert(all.take(0) =~= Seq::empty());
        assert(skill_views(out@) =~= Seq::empty());
        while i < modules.len()
            invariant
                i <= modules.len(),
                all == entry_views(modules@),
                skill_views(out@) == skills_of(all.take(i as int)),
            decreases modules.len() - i,
        {
            assert(all.take(i + 1).drop_last() =~= all.take(i as int));
            assert(all.take(i + 1).last() == modules[i as int]@);
            if let Some(d) = &modules[i].descriptor {
                if !trim(d.description.as_str()).as_str().is_empty() {
                    let ghost prev = out@;
                    let skill = self.skill_mapper.to_skill(
                        modules[i].id.as_str(),
                        d,
                        d.description.as_str(),
                    );
                    out.push(skill);
                    assert(skill_views(out@) =~= skill_views(prev).push(skill@));
                }
            }
            i += 1;
        }
        assert(all.take(i as int) =~= all);
        out
    }

    /// The card for callers that are known: the same as `base_card`.
    pub fn build_extended(&self, base_card: &AgentCard) -> (r: AgentCard)
        ensures
            r@ == base_card@,
    {
        base_card.copy()
    }

    /// The card that was kept, or else one built from the registry.
    pub fn get_cached_or_build(
        &mut self,
        registry: &apcore::registry::registry::Registry,
        name: &str,
        description: &str,
        version: &str,
        url: &str,
        capabilities: AgentCapabilities,
        security_schemes: Option<&Json>,
    ) -> (r: AgentCard)
        ensures
            final(self).mapper() == old(self).mapper(),
            final(self).cached() == Some(r@),
            old(self).cached() matches Some(c) ==> r@ == c,
            old(self).cached() is None ==> exists|modules: Seq<EntryV>|
                registered(*registry, modules) && r@ == #[trigger] card_of(
                    modules,
                    name@,
                    description@,
                    version@,
                    url@,
                    capabilities@,
                    crate::json::opt_ref(security_schemes),
                ),
    {
        if let Some(c) = &self.cache {
            return c.copy();
        }
        self.build(registry, name, description, version, url, capabilities, security_schemes)
    }

    /// Give up the card that was kept.
    pub fn invalidate_cache(&mut self)
        ensures
            final(self).mapper() == old(self).mapper(),
            final(self).cached() is None,
    {
        self.cache = None;
    }
}

fn default_modes() -> (r: Vec<String>)
    ensures
        views(r@) == seq!["text/plain"@, "application/json"@],
{
    let mut out: Vec<String> = Vec::new();
    out.push(owned("text/plain"));
    out.push(owned("application/json"));
    assert(views(out@) =~= seq!["text/plain"@, "application/json"@]);
    out
}

/// The ids of a list of skills.
pub open spec fn skill_ids(s: Seq<SkillV>) -> Seq<Seq<char>> {
    s.map_values(|x: SkillV| x.id)
}

/// A card shows a module exactly when it has a descriptor with a description
/// that is not blank.
pub proof fn card_shows_described_modules(modules: Seq<EntryV>, id: Seq<char>)
    ensures
        skill_ids(skills_of(modules)).contains(id) <==> exists|i: int|
            0 <= i < modules.len() && is_shown(#[trigger] modules[i]) && modules[i].id == id,
    decreases modules.len(),
{
    if modules.len() > 0 {
        let rest = modules.drop_last();
        card_shows_described_modules(rest, id);
        let a = skill_ids(skills_of(rest));
        let b = skill_ids(skills_of(modules));
        let e = modules.last();
        if is_shown(e) {
            assert(b =~= a.push(e.id));
            assert(b[b.len() - 1] == e.id);
            if a.contains(id) {
                let k = choose|k: int| 0 <= k < a.len() && a[k] == id;
                assert(b[k] == id);
            }
            if b.contains(id) && e.id != id {
                let k = choose|k: int| 0 <= k < b.len() && b[k] == id;
                assert(a[k] == id);
            }
        }
        if exists|i: int| 0 <= i < rest.len() && is_shown(#[trigger] rest[i]) && rest[i].id == id {
            let i = choose|i: int|
                0 <= i < rest.len() && is_shown(#[trigger] rest[i]) && rest[i].id == id;
            assert(modules[i] == rest[i]);
        }
        if exists|i: int|
            0 <= i < modules.len() && is_shown(#[trigger] modules[i]) && modules[i].id == id {
            let i = choose|i: int|
                0 <= i < modules.len() && is_shown(#[trigger] modules[i]) && modules[i].id == id;
            if i < rest.len() {
                assert(rest[i] == modules[i]);
            }
        }
    }
}

/// Where no module is listed twice, no skill is shown twice.
pub proof fn card_shows_each_module_once(modules: Seq<EntryV>)
    requires
        entry_ids(modules).no_duplicates(),
    ensures
        skill_ids(skills_of(modules)).no_duplicates(),
    decreases modules.len(),
{
    if modules.len() > 0 {
        let rest = modules.drop_last();
        assert(entry_ids(rest) =~= entry_ids(modules).drop_last());
        assert forall|i: int, j: int|
            0 <= i < entry_ids(rest).len() && 0 <= j < entry_ids(rest).len() && i
                != j implies entry_ids(rest)[i] != entry_ids(rest)[j] by {
            assert(entry_ids(modules)[i] != entry_ids(modules)[j]);
        }
        card_shows_each_module_once(rest);
        let e = modules.last();
        let a = skill_ids(skills_of(rest));
        let b = skill_ids(skills_of(modules));
        if is_shown(e) {
            assert(b =~= a.push(e.id));
            card_shows_described_modules(rest, e.id);
            if a.contains(e.id) {
                let i = choose|i: int|
                    0 <= i < rest.len() && is_shown(#[trigger] rest[i]) && rest[i].id == e.id;
                assert(entry_ids(modules)[i] == entry_ids(modules)[modules.len() - 1]);
            }
        }
    }
}

/// The members of a card that is written: each has its own, and none but the
/// provider may be missing.
pub proof fn cards_carry_their_fields(c: CardV)
    ensures
        ({
            let j = card_json(c);
            &&& j is Object
            &&& j.text_at("name"@) == Some(c.name)
            &&& j.text_at("description"@) == Some(c.description)
            &&& j.text_at("version"@) == Some(c.version)
            &&& j.get("supportedInterfaces"@) matches Some(JsonV::Array(s)) && s.len()
                == c.supported_interfaces.len() && forall|i: int|
                0 <= i < s.len() ==> s[i] == interface_json(#[trigger] c.supported_interfaces[i])
            &&& j.get("provider"@) == c.provider
            &&& j.get("capabilities"@) == Some(capabilities_json(c.capabilities))
            &&& j.get("skills"@) matches Some(JsonV::Array(s)) && s.len() == c.skills.len()
                && forall|i: int| 0 <= i < s.len() ==> s[i] == skill_json(#[trigger] c.skills[i])
            &&& j.get("defaultInputModes"@) == Some(strings_json(c.default_input_modes))
            &&& j.get("defaultOutputModes"@) == Some(strings_json(c.default_output_modes))
            &&& j.get("securitySchemes"@) == Some(c.security_schemes)
            &&& j.get("securityRequirements"@) == Some(JsonV::Array(c.security_requirements))
            &&& j.get("signatures"@) == Some(JsonV::Array(c.signatures))
        }),
{
    reveal_strlit("name");
    reveal_strlit("description");
    reveal_strlit("version");
    reveal_strlit("supportedInterfaces");
    reveal_strlit("provider");
    reveal_strlit("capabilities");
    reveal_strlit("skills");
    reveal_strlit("defaultInputModes");
    reveal_strlit("defaultOutputModes");
    reveal_strlit("securitySchemes");
    reveal_strlit("securityRequirements");
    reveal_strlit("signatures");
    assert("name"@.len() == 4);
    assert("description"@.len() == 11);
    assert("version"@.len() == 7);
    assert("supportedInterfaces"@.len() == 19);
    assert("provider"@.len() == 8);
    assert("capabilities"@.len() == 12);
    assert("skills"@.len() == 6);
    assert("defaultInputModes"@.len() == 17);
    assert("defaultOutputModes"@.len() == 18);
    assert("securitySchemes"@.len() == 15);
    assert("securityRequirements"@.len() == 20);
    assert("signatures"@.len() == 10);
    let m = card_json(c)->Object_0;
    let p: int = if c.provider is Some {
        1
    } else {
        0
    };
    crate::json::member_at(m, "name"@, 0);
    crate::json::member_at(m, "description"@, 1);
    crate::json::member_at(m, "version"@, 2);
    crate::json::member_at(m, "supportedInterfaces"@, 3);
    assert(m[4 + p] == ("capabilities"@, capabilities_json(c.capabilities)));
    assert(m[5 + p] == ("skills"@, skills_json(c.skills)));
    assert(m[6 + p] == ("defaultInputModes"@, strings_json(c.default_input_modes)));
    assert(m[7 + p] == ("defaultOutputModes"@, strings_json(c.default_output_modes)));
    assert(m[8 + p] == ("securitySchemes"@, c.security_schemes));
    assert(m[9 + p] == ("securityRequirements"@, JsonV::Array(c.security_requirements)));
    assert(m[10 + p] == ("signatures"@, JsonV::Array(c.signatures)));
    assert(m.len() == 11 + p);
    if let Some(x) = c.provider {
        assert(m[4] == ("provider"@, x));
        crate::json::member_at(m, "provider"@, 4);
    } else {
        crate::json::member_absent(m, "provider"@);
    }
    crate::json::member_at(m, "capabilities"@, 4 + p);
    crate::json::member_at(m, "skills"@, 5 + p);
    crate::json::member_at(m, "defaultInputModes"@, 6 + p);
    crate::json::member_at(m, "defaultOutputModes"@, 7 + p);
    crate::json::member_at(m, "securitySchemes"@, 8 + p);
    crate::json::member_at(m, "securityRequirements"@, 9 + p);
    crate::json::member_at(m, "signatures"@, 10 + p);
}

/// The members of a skill, an endpoint and the capabilities that are written.
pub proof fn what_a_card_lists_carries_its_fields(s: SkillV, i: InterfaceV, c: CapabilitiesV)
    ensures
        ({
            let j = skill_json(s);
            &&& j.text_at("id"@) == Some(s.id)
            &&& j.text_at("name"@) == Some(s.name)
            &&& j.text_at("description"@) == Some(s.description)
            &&& j.get("tags"@) == Some(strings_json(s.tags))
            &&& j.get("examples"@) == Some(strings_json(s.examples))
            &&& j.get("inputModes"@) == Some(strings_json(s.input_modes))
            &&& j.get("outputModes"@) == Some(strings_json(s.output_modes))
            &&& j.get("securityRequirements"@) == Some(JsonV::Array(s.security_requirements))
        }),
        ({
            let j = interface_json(i);
            &&& j.text_at("url"@) == Some(i.url)
            &&& j.text_at("protocolBinding"@) == Some(i.protocol_binding)
            &&& j.text_at("protocolVersion"@) == Some(i.protocol_version)
            &&& j.text_at("tenant"@) == Some(i.tenant)
        }),
        ({
            let j = capabilities_json(c);
            &&& j.get("streaming"@) == Some(JsonV::Bool(c.streaming))
            &&& j.get("pushNotifications"@) == Some(JsonV::Bool(c.push_notifications))
            &&& j.get("extensions"@) == Some(JsonV::Array(c.extensions))
            &&& j.get("extendedAgentCard"@) == Some(JsonV::Bool(c.extended_agent_card))
        }),
{
    reveal_strlit("id");
    reveal_strlit("name");
    reveal_strlit("description");
    reveal_strlit("tags");
    reveal_strlit("examples");
    reveal_strlit("inputModes");
    reveal_strlit("outputModes");
    reveal_strlit("securityRequirements");
    assert("id"@.len() == 2);
    assert("name"@.len() == 4 && "name"@[0] == 'n');
    assert("description"@.len() == 11 && "description"@[0] == 'd');
    assert("tags"@.len() == 4 && "tags"@[0] == 't');
    assert("examples"@.len() == 8);
    assert("inputModes"@.len() == 10);
    assert("outputModes"@.len() == 11 && "outputModes"@[0] == 'o');
    assert("securityRequirements"@.len() == 20);
    reveal_strlit("url");
    reveal_strlit("protocolBinding");
    reveal_strlit("protocolVersion");
    reveal_strlit("tenant");
    assert("url"@.len() == 3);
    assert("protocolBinding"@.len() == 15 && "protocolBinding"@[8] == 'B');
    assert("protocolVersion"@.len() == 15 && "protocolVersion"@[8] == 'V');
    assert("tenant"@.len() == 6);
    reveal_strlit("streaming");
    reveal_strlit("pushNotifications");
    reveal_strlit("extensions");
    reveal_strlit("extendedAgentCard");
    assert("streaming"@.len() == 9);
    assert("pushNotifications"@.len() == 17 && "pushNotifications"@[0] == 'p');
    assert("extensions"@.len() == 10);
    assert("extendedAgentCard"@.len() == 17 && "extendedAgentCard"@[0] == 'e');
    let m = skill_json(s)->Object_0;
    crate::json::member_at(m, "id"@, 0);
    crate::json::member_at(m, "name"@, 1);
    crate::json::member_at(m, "description"@, 2);
    crate::json::member_at(m, "tags"@, 3);
    crate::json::member_at(m, "examples"@, 4);
    crate::json::member_at(m, "inputModes"@, 5);
    crate::json::member_at(m, "outputModes"@, 6);
    crate::json::member_at(m, "securityRequirements"@, 7);
    let n = interface_json(i)->Object_0;
    crate::json::member_at(n, "url"@, 0);
    crate::json::member_at(n, "protocolBinding"@, 1);
    crate::json::member_at(n, "protocolVersion"@, 2);
    crate::json::member_at(n, "tenant"@, 3);
    let o = capabilities_json(c)->Object_0;
    crate::json::member_at(o, "streaming"@, 0);
    crate::json::member_at(o, "pushNotifications"@, 1);
    crate::json::member_at(o, "extensions"@, 2);
    crate::json::member_at(o, "extendedAgentCard"@, 3);
}

/// A list of strings is written as the list of those strings, in order.
pub proof fn string_lists_are_written_in_order(s: Seq<Seq<char>>)
    ensures
        strings_json(s) matches JsonV::Array(v) && v.len() == s.len() && forall|i: int|
            0 <= i < s.len() ==> v[i] == JsonV::Str(#[trigger] s[i]),
{
}

/// The card of an agent shows what it was built from: its name, its description,
/// its version, one endpoint at its URL that speaks JSON-RPC under version 1.0,
/// and its capabilities. It takes and gives text and JSON.
pub proof fn cards_show_what_they_are_built_from(
    modules: Seq<EntryV>,
    name: Seq<char>,
    description: Seq<char>,
    version: Seq<char>,
    url: Seq<char>,
    capabilities: CapabilitiesV,
    security_schemes: Option<JsonV>,
)
    ensures
        ({
            let c = card_of(
                modules,
                name,
                description,
                version,
                url,
                capabilities,
                security_schemes,
            );
            &&& c.name == name && c.description == description && c.version == version
            &&& c.supported_interfaces.len() == 1 && c.supported_interfaces[0].url == url
            &&& c.supported_interfaces[0].protocol_binding == "JSONRPC"@
            &&& c.supported_interfaces[0].protocol_version == "1.0"@
            &&& c.supported_interfaces[0].tenant.len() == 0
            &&& c.capabilities == capabilities
            &&& c.provider is None && c.signatures.len() == 0 && c.security_requirements.len() == 0
            &&& c.default_input_modes == seq!["text/plain"@, "application/json"@]
            &&& c.default_output_modes == c.default_input_modes
        }),
{
}

/// A module is shown as the skill that its descriptor makes of it, in the order in
/// which the modules are listed: each skill of a card belongs to a module whose
/// description is not blank, and has that module's id.
pub proof fn skills_are_those_of_the_modules(modules: Seq<EntryV>, j: int) -> (i: int)
    requires
        0 <= j < skills_of(modules).len(),
    ensures
        0 <= i < modules.len(),
        j <= i,
        modules[i].descriptor matches Some(d) && !crate::text::blank(d.description)
            && skills_of(modules)[j] == skill_of(modules[i].id, d, d.description),
        skills_of(modules)[j].id == modules[i].id,
    decreases modules.len(),
{
    let n = modules.len() - 1;
    let rest = modules.drop_last();
    if is_shown(modules.last()) && j == skills_of(rest).len() {
        skills_are_no_more_than_modules(rest);
        crate::text::blank_is_trimmed_empty(modules[n].descriptor->0.description);
        n
    } else {
        let i = skills_are_those_of_the_modules(rest, j);
        assert(rest[i] == modules[i]);
        i
    }
}

proof fn skills_are_no_more_than_modules(modules: Seq<EntryV>)
    ensures
        skills_of(modules).len() <= modules.len(),
    decreases modules.len(),
{
    if modules.len() > 0 {
        skills_are_no_more_than_modules(modules.drop_last());
    }
}

/// Every module with a description that is not blank is shown, as the skill that
/// its descriptor makes of it.
pub proof fn described_modules_are_shown(modules: Seq<EntryV>, i: int) -> (j: int)
    requires
        0 <= i < modules.len(),
        modules[i].descriptor matches Some(d) && !crate::text::blank(d.description),
    ensures
        0 <= j < skills_of(modules).len(),
        skills_of(modules)[j] == skill_of(
            modules[i].id,
            modules[i].descriptor->0,
            modules[i].descriptor->0.description,
        ),
    decreases modules.len(),
{
    let rest = modules.drop_last();
    if i == rest.len() {
        crate::text::blank_is_trimmed_empty(modules[i].descriptor->0.description);
        assert(modules.last() == modules[i]);
        skills_of(rest).len() as int
    } else {
        assert(rest[i] == modules[i]);
        described_modules_are_shown(rest, i)
    }
}

/// A card names the security schemes of the authenticator, in their order. A
/// scheme of type `http` is shown as such, by its scheme, which is `bearer` where
/// it says none, and with its format where it has one; any other as an empty
/// object.
pub proof fn security_schemes_are_named(m: Seq<(Seq<char>, JsonV)>, i: int)
    requires
        0 <= i < m.len(),
    ensures
        a2a_schemes(Some(JsonV::Object(m))) matches JsonV::Object(s) && s.len() == m.len()
            && s[i].0 == m[i].0 && ({
            let shown = s[i].1;
            let given = m[i].1;
            if given.text_at("type"@) == Some("http"@) {
                &&& shown matches JsonV::Object(o) && o.len() == 1
                &&& shown.get("httpAuthSecurityScheme"@) matches Some(h) && h.text_at("scheme"@)
                    == Some(
                    match given.text_at("scheme"@) {
                        Some(x) => x,
                        None => "bearer"@,
                    },
                ) && h.text_at("bearerFormat"@) == (match given.text_at("bearerFormat"@) {
                    Some(f) => if f.len() > 0 {
                        Some(f)
                    } else {
                        None
                    },
                    None => None,
                })
            } else {
                shown == JsonV::Object(Seq::<(Seq<char>, JsonV)>::empty())
            }
        }),
{
    reveal_strlit("scheme");
    reveal_strlit("bearerFormat");
    assert("scheme"@.len() == 6);
    assert("bearerFormat"@.len() == 12);
    let given = m[i].1;
    if given.text_at("type"@) == Some("http"@) {
        let o = a2a_scheme(given)->Object_0;
        crate::json::member_at(o, "httpAuthSecurityScheme"@, 0);
        let h = o[0].1->Object_0;
        crate::json::member_at(h, "scheme"@, 0);
        if h.len() > 1 {
            assert(h[1].0 == "bearerFormat"@);
            crate::json::member_at(h, "bearerFormat"@, 1);
        } else {
            crate::json::member_absent(h, "bearerFormat"@);
        }
    } else {
        assert(a2a_scheme(given)->Object_0 =~= Seq::<(Seq<char>, JsonV)>::empty());
    }
}

/// Without an object of schemes a card shows none.
pub proof fn no_schemes_are_shown_as_none(schemes: Option<JsonV>)
    ensures
        !(schemes is Some && schemes->0 is Object) ==> a2a_schemes(schemes) == JsonV::Object(
            Seq::<(Seq<char>, JsonV)>::empty(),
        ),
{
    assert(seq![] =~= Seq::<(Seq<char>, JsonV)>::empty());
}

} // verus!
