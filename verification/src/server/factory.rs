//! What a server is made of: its card, what of it is shown to whom, and what it
//! knows of its skills.

use vstd::prelude::*;
use vstd::string::*;

use crate::adapters::agent_card::{
    card_json, card_of, is_shown, AgentCapabilities, AgentCard, AgentCardBuilder, CapabilitiesV,
    CardV,
};
use crate::adapters::skill_mapper::SkillMapper;
use crate::json::{
    array, clone_fields, fields, insert, inserted, items, model_of, object, put, string, unsigned,
    Json, JsonV, NumberV,
};
use crate::modules::{entry_ids, entry_views, registered, registered_modules, EntryV, ModuleEntry};
use crate::server::cards::{asked, public_card, public_of, without_system, FilteredCard};
use crate::server::executor::{Access, ApCoreAgentExecutor};
use crate::server::handlers::AppState;
use crate::text::{chars_of, opt_view, owned, slice, trim, views};

verus! {

/// What a server is made from.
pub struct CreateOptions {
    pub executor: ApCoreAgentExecutor,
    pub name: String,
    pub description: String,
    pub version: String,
    pub url: String,
    /// The security schemes of the authenticator, where there is one.
    pub auth: Option<Option<Json>>,
    pub explorer: bool,
    pub explorer_prefix: String,
}

impl CreateOptions {
    /// No authenticator, and no Explorer.
    pub fn new(
        executor: ApCoreAgentExecutor,
        name: &str,
        description: &str,
        version: &str,
        url: &str,
    ) -> (r: CreateOptions)
        ensures
            r.executor == executor,
            r.name@ == name@,
            r.description@ == description@,
            r.version@ == version@,
            r.url@ == url@,
            r.auth is None,
            !r.explorer,
            r.explorer_prefix@ == "/explorer"@,
    {
        CreateOptions {
            executor,
            name: owned(name),
            description: owned(description),
            version: owned(version),
            url: owned(url),
            auth: None,
            explorer: false,
            explorer_prefix: owned("/explorer"),
        }
    }

    /// Authenticate callers, and show the authenticator's security schemes.
    pub fn with_auth(self, security_schemes: Option<Json>) -> (r: CreateOptions)
        ensures
            r == (CreateOptions { auth: Some(security_schemes), ..self }),
    {
        let mut r = self;
        r.auth = Some(security_schemes);
        r
    }

    /// Serve the Explorer under a prefix, or not.
    pub fn with_explorer(self, enabled: bool, prefix: &str) -> (r: CreateOptions)
        ensures
            r.explorer == enabled,
            r.explorer_prefix@ == prefix@,
            r.executor == self.executor,
            r.name == self.name,
            r.description == self.description,
            r.version == self.version,
            r.url == self.url,
            r.auth == self.auth,
    {
        let mut r = self;
        r.explorer = enabled;
        r.explorer_prefix = owned(prefix);
        r
    }
}

/// What a server can do: it streams, and has an extended card where it
/// authenticates callers.
pub open spec fn server_capabilities(authenticates: bool) -> CapabilitiesV {
    CapabilitiesV {
        streaming: true,
        push_notifications: false,
        extensions: Seq::empty(),
        extended_agent_card: authenticates,
    }
}

/// The security schemes that a card shows.
pub open spec fn schemes_of(auth: Option<Option<Json>>) -> Option<JsonV> {
    match auth {
        Some(Some(s)) => Some(s@),
        _ => None,
    }
}

/// The module says that its calls need an approval.
pub open spec fn asks_approval(e: EntryV) -> bool {
    e.descriptor matches Some(d) && (d.annotations matches Some(a) && a.requires_approval)
}

/// The ids of the shown modules that say their calls need an approval.
pub open spec fn gated_ids(modules: Seq<EntryV>) -> Seq<Seq<char>>
    decreases modules.len(),
{
    if modules.len() == 0 {
        Seq::empty()
    } else {
        let rest = gated_ids(modules.drop_last());
        let e = modules.last();
        if is_shown(e) && asks_approval(e) {
            rest.push(e.id)
        } else {
            rest
        }
    }
}

/// The input schemas that are objects, by module.
pub open spec fn object_schemas(modules: Seq<EntryV>, shown_only: bool) -> Seq<
    (Seq<char>, JsonV),
>
    decreases modules.len(),
{
    if modules.len() == 0 {
        Seq::empty()
    } else {
        let rest = object_schemas(modules.drop_last(), shown_only);
        let e = modules.last();
        if (!shown_only || is_shown(e)) && (e.descriptor matches Some(d)
            && d.input_schema is Object) {
            inserted(rest, e.id, e.descriptor->0.input_schema)
        } else {
            rest
        }
    }
}

/// The card of the Explorer: with the input schemas of its skills, where there
/// are any.
pub open spec fn explorer_json(card: JsonV, schemas: Seq<(Seq<char>, JsonV)>) -> JsonV {
    match card {
        JsonV::Object(m) => if schemas.len() > 0 {
            JsonV::Object(inserted(m, "_inputSchemas"@, JsonV::Object(schemas)))
        } else {
            card
        },
        _ => card,
    }
}

/// `s` without the slashes at its end.
pub open spec fn without_trailing_slashes(s: Seq<char>) -> Seq<char>
    decreases s.len(),
{
    if s.len() > 0 && s.last() == '/' {
        without_trailing_slashes(s.drop_last())
    } else {
        s
    }
}

/// `s` without the slashes at its end.
pub fn trim_trailing_slashes(s: &str) -> (r: String)
    ensures
        r@ == without_trailing_slashes(s@),
{
    let cs: Vec<char> = chars_of(s);
    let mut hi: usize = cs.len();
    assert(cs@.subrange(0, hi as int) =~= s@);
    while hi > 0 && cs[hi - 1] == '/'
        invariant
            hi <= cs.len(),
            without_trailing_slashes(cs@.subrange(0, hi as int)) == without_trailing_slashes(s@),
        decreases hi,
    {
        assert(cs@.subrange(0, hi as int).drop_last() =~= cs@.subrange(0, hi - 1));
        hi -= 1;
    }
    slice(&cs, 0, hi)
}

/// A server that is ready to be wired up.
pub struct ServerPlan {
    pub state: AppState,
    pub card: AgentCard,
    /// The paths that need no authentication, where callers are authenticated.
    pub auth_exempt: Option<Vec<String>>,
    /// The path of the Explorer, where it is served.
    pub explorer_path: Option<String>,
}

/// The paths that need no authentication: discovery and health.
pub open spec fn exempt_paths() -> Seq<Seq<char>> {
    seq!["/.well-known/agent-card.json"@, "/.well-known/agent.json"@, "/health"@]
}

fn exempt_path_list() -> (r: Vec<String>)
    ensures
        views(r@) == exempt_paths(),
{
    let mut v: Vec<String> = Vec::new();
    v.push(owned("/.well-known/agent-card.json"));
    v.push(owned("/.well-known/agent.json"));
    v.push(owned("/health"));
    assert(views(v@) =~= exempt_paths());
    v
}

/// The card that a server with the given modules has.
pub open spec fn server_card(modules: Seq<EntryV>, opts: CreateOptions) -> CardV {
    card_of(
        modules,
        opts.name@,
        opts.description@,
        opts.version@,
        opts.url@,
        server_capabilities(opts.auth is Some),
        schemes_of(opts.auth),
    )
}

/// The plan is that of a server with the given modules.
pub open spec fn plan_of(p: ServerPlan, modules: Seq<EntryV>, opts: CreateOptions) -> bool {
    let card = server_card(modules, opts);
    let json = card_json(card);
    &&& p.state.wf()
    &&& p.card@ == card
    &&& p.state.executor == opts.executor
    &&& views(p.state.skill_ids@) == entry_ids(modules)
    &&& fields(p.state.input_schemas@) == object_schemas(modules, false)
    &&& opts.executor.rules() is None ==> p.state.agent_card@ == public_of(
        json,
        None,
        gated_ids(modules),
    )
    &&& opts.executor.rules() is Some ==> exists|answers: Seq<Access>|
        asked(opts.executor.rules(), None, without_system(json), answers) && p.state.agent_card@
            == #[trigger] public_of(json, Some(answers), gated_ids(modules))
    &&& p.state.extended_card is Some <==> opts.auth is Some
    &&& p.state.extended_card matches Some(c) ==> c.whole() == json && c.copies().len() == 0
    &&& p.state.explorer_card.whole() == explorer_json(json, object_schemas(modules, true))
    &&& p.state.explorer_card.copies().len() == 0
    &&& p.auth_exempt is Some <==> opts.auth is Some
    &&& p.auth_exempt matches Some(v) ==> views(v@) == exempt_paths()
    &&& opt_view(p.explorer_path) == (if opts.explorer {
        Some(without_trailing_slashes(opts.explorer_prefix@))
    } else {
        None
    })
}

fn collect_gated(modules: &Vec<ModuleEntry>) -> (r: Vec<String>)
    ensures
        views(r@) == gated_ids(entry_views(modules@)),
{
    let ghost all = entry_views(modules@);
    let mut out: Vec<String> = Vec::new();
    let mut i: usize = 0;
    assert(all.take(0) =~= Seq::empty());
    assert(views(out@) =~= Seq::empty());
    while i < modules.len()
        invariant
            i <= modules.len(),
            all == entry_views(modules@),
            views(out@) == gated_ids(all.take(i as int)),
        decreases modules.len() - i,
    {
        assert(all.take(i + 1).drop_last() =~= all.take(i as int));
        assert(all.take(i + 1).last() == modules[i as int]@);
        if let Some(d) = &modules[i].descriptor {
            let asks: bool = match d.annotations {
                Some(a) => a.requires_approval,
                None => false,
            };
            if asks && !trim(d.description.as_str()).as_str().is_empty() {
                let ghost prev = out@;
                out.push(modules[i].id.clone());
                assert(views(out@) =~= views(prev).push(modules[i as int].id@));
            }
        }
        i += 1;
    }
    assert(all.take(i as int) =~= all);
    out
}

fn collect_schemas(modules: &Vec<ModuleEntry>, shown_only: bool) -> (r: Vec<(String, Json)>)
    ensures
        fields(r@) == object_schemas(entry_views(modules@), shown_only),
{
    let ghost all = entry_views(modules@);
    let mut out: Vec<(String, Json)> = Vec::new();
    let mut i: usize = 0;
    assert(all.take(0) =~= Seq::empty());
    assert(fields(out@) =~= Seq::empty());
    while i < modules.len()
        invariant
            i <= modules.len(),
            all == entry_views(modules@),
            fields(out@) == object_schemas(all.take(i as int), shown_only),
        decreases modules.len() - i,
    {
        assert(all.take(i + 1).drop_last() =~= all.take(i as int));
        assert(all.take(i + 1).last() == modules[i as int]@);
        if let Some(d) = &modules[i].descriptor {
            if !shown_only || !trim(d.description.as_str()).as_str().is_empty() {
                if let Json::Object(_) = &d.input_schema {
                    insert(&mut out, modules[i].id.as_str(), d.input_schema.copy());
                }
            }
        }
        i += 1;
    }
    assert(all.take(i as int) =~= all);
    out
}

fn collect_ids(modules: &Vec<ModuleEntry>) -> (r: Vec<String>)
    ensures
        views(r@) == entry_ids(entry_views(modules@)),
{
    let mut out: Vec<String> = Vec::new();
    let mut i: usize = 0;
    while i < modules.len()
        invariant
            i <= modules.len(),
            out.len() == i,
            forall|k: int| 0 <= k < i ==> (#[trigger] out[k])@ == modules[k].id@,
        decreases modules.len() - i,
    {
        out.push(modules[i].id.clone());
        i += 1;
    }
    assert(views(out@) =~= entry_ids(entry_views(modules@)));
    out
}

fn with_schemas(card: &Json, schemas: Vec<(String, Json)>) -> (r: Json)
    ensures
        r@ == explorer_json(card@, fields(schemas@)),
{
    proof {
        model_of(*card);
        assert(fields(schemas@).len() == schemas@.len());
    }
    match card {
        Json::Object(m) => {
            if schemas.len() == 0 {
                return card.copy();
            }
            let mut out: Vec<(String, Json)> = clone_fields(m);
            insert(&mut out, "_inputSchemas", object(schemas));
            object(out)
        },
        _ => card.copy(),
    }
}

/// Makes servers.
pub struct A2AServerFactory {
    agent_card_builder: AgentCardBuilder,
}

impl A2AServerFactory {
    /// The card of the server that was made last.
    pub closed spec fn last_card(&self) -> Option<CardV> {
        self.agent_card_builder.cached()
    }

    /// A factory that has made nothing.
    pub fn new() -> (r: A2AServerFactory)
        ensures
            r.last_card() is None,
    {
        A2AServerFactory { agent_card_builder: AgentCardBuilder::new(SkillMapper::new()) }
    }

    /// A server with the modules that a registry lists.
    pub fn create(
        &mut self,
        registry: &apcore::registry::registry::Registry,
        opts: CreateOptions,
    ) -> (r: ServerPlan)
        ensures
            exists|modules: Seq<EntryV>|
                registered(*registry, modules) && #[trigger] plan_of(r, modules, opts),
            final(self).last_card() == Some(r.card@),
    {
        let modules: Vec<ModuleEntry> = registered_modules(registry);
        self.create_from(&modules, opts)
    }

    /// A server with the given modules.
    pub fn create_from(&mut self, modules: &Vec<ModuleEntry>, opts: CreateOptions) -> (r: ServerPlan)
        ensures
            plan_of(r, entry_views(modules@), opts),
            final(self).last_card() == Some(r.card@),
    {
        let authenticates: bool = opts.auth.is_some();
        let extensions: Vec<Json> = Vec::new();
        let capabilities = AgentCapabilities {
            streaming: true,
            push_notifications: false,
            extensions,
            extended_agent_card: authenticates,
        };
        assert(capabilities@ =~= server_capabilities(opts.auth is Some));
        let schemes: Option<&Json> = match &opts.auth {
            Some(Some(s)) => Some(s),
            _ => None,
        };
        let card: AgentCard = self.agent_card_builder.build_from(
            modules,
            opts.name.as_str(),
            opts.description.as_str(),
            opts.version.as_str(),
            opts.url.as_str(),
            capabilities,
            schemes,
        );
        let json: Json = card.to_json();
        let gated: Vec<String> = collect_gated(modules);
        let public: Json = public_card(&json, &opts.executor, &gated);
        let explorer: Json = with_schemas(&json, collect_schemas(modules, true));
        let explorer_path: Option<String> = if opts.explorer {
            Some(trim_trailing_slashes(opts.explorer_prefix.as_str()))
        } else {
            None
        };
        let extended_card: Option<FilteredCard> = if authenticates {
            Some(FilteredCard::new(json))
        } else {
            None
        };
        let auth_exempt: Option<Vec<String>> = if authenticates {
            Some(exempt_path_list())
        } else {
            None
        };
        ServerPlan {
            state: AppState {
                executor: opts.executor,
                skill_ids: collect_ids(modules),
                input_schemas: collect_schemas(modules, false),
                agent_card: public,
                extended_card,
                explorer_card: FilteredCard::new(explorer),
            },
            card,
            auth_exempt,
            explorer_path,
        }
    }
}

impl Default for A2AServerFactory {
    fn default() -> (r: A2AServerFactory)
        ensures
            r.last_card() is None,
    {
        A2AServerFactory::new()
    }
}

/// A server advertises an extended card exactly when it serves one.
pub proof fn advertised_is_served(p: ServerPlan, modules: Seq<EntryV>, opts: CreateOptions)
    requires
        plan_of(p, modules, opts),
    ensures
        p.card@.capabilities.extended_agent_card <==> p.state.extended_card is Some,
        p.card@.capabilities.extended_agent_card <==> p.auth_exempt is Some,
{
}

/// The body of a health check.
pub open spec fn health_json() -> JsonV {
    JsonV::Object(seq![("status"@, JsonV::Str("healthy"@))])
}

/// The body of a health check.
pub fn health() -> (r: Json)
    ensures
        r@ == health_json(),
{
    let mut m: Vec<(String, Json)> = Vec::new();
    put(&mut m, "status", string("healthy"));
    assert(fields(m@) =~= health_json()->Object_0);
    object(m)
}

/// The body of the answer where there is no extended card; its status is 404.
pub open spec fn no_extended_card_json() -> JsonV {
    JsonV::Object(seq![("error"@, JsonV::Str("Extended agent card is not configured"@))])
}

/// The body of the answer where there is no extended card; its status is 404.
pub fn no_extended_card() -> (r: Json)
    ensures
        r@ == no_extended_card_json(),
{
    let mut m: Vec<(String, Json)> = Vec::new();
    put(&mut m, "error", string("Extended agent card is not configured"));
    assert(fields(m@) =~= no_extended_card_json()->Object_0);
    object(m)
}

/// The defaults of the configuration namespace.
pub open spec fn namespace_defaults_json() -> JsonV {
    JsonV::Object(
        seq![
            ("execution_timeout"@, JsonV::Number(NumberV::PosInt(300))),
            ("cors_origins"@, JsonV::Array(seq![])),
            ("explorer"@, JsonV::Bool(false)),
            ("metrics"@, JsonV::Bool(false)),
            ("push_notifications"@, JsonV::Bool(false)),
        ],
    )
}

/// The defaults of the configuration namespace.
pub fn namespace_defaults() -> (r: Json)
    ensures
        r@ == namespace_defaults_json(),
{
    let none: Vec<Json> = Vec::new();
    assert(items(none@) =~= seq![]);
    let mut m: Vec<(String, Json)> = Vec::new();
    put(&mut m, "execution_timeout", unsigned(300));
    put(&mut m, "cors_origins", array(none));
    put(&mut m, "explorer", Json::Bool(false));
    put(&mut m, "metrics", Json::Bool(false));
    put(&mut m, "push_notifications", Json::Bool(false));
    assert(fields(m@) =~= namespace_defaults_json()->Object_0);
    object(m)
}

/// A server tells on its card what it does: that it streams exactly where
/// `message/stream` is a method that it answers, that it has an extended card
/// exactly where it authenticates callers, and nothing of push notifications or
/// extensions.
pub proof fn what_is_answered_is_told(p: ServerPlan, modules: Seq<EntryV>, opts: CreateOptions)
    requires
        plan_of(p, modules, opts),
    ensures
        p.card@.capabilities.streaming <==> crate::server::handlers::method_named(
            "message/stream"@,
        ) is Some,
        p.card@.capabilities.streaming,
        !p.card@.capabilities.push_notifications,
        p.card@.capabilities.extensions.len() == 0,
        p.card@.capabilities.extended_agent_card <==> opts.auth is Some,
{
    crate::server::handlers::methods_have_their_names("message/stream"@);
}

/// Whichever card a caller reads, public, extended or that of the Explorer, tells
/// the same name, version, endpoint, capabilities and security schemes: all that a
/// card tells but its skills.
pub proof fn every_card_tells_the_same(
    p: ServerPlan,
    modules: Seq<EntryV>,
    opts: CreateOptions,
    key: Seq<char>,
)
    requires
        plan_of(p, modules, opts),
        key != "skills"@,
        key != "_inputSchemas"@,
    ensures
        p.state.agent_card@.get(key) == card_json(p.card@).get(key),
        p.state.extended_card matches Some(c) ==> c.whole().get(key) == card_json(p.card@).get(key),
        p.state.explorer_card.whole().get(key) == card_json(p.card@).get(key),
        key == "capabilities"@ ==> (p.state.agent_card@.get(key) matches Some(c) && c.get(
            "streaming"@,
        ) == Some(JsonV::Bool(true)) && c.get("extendedAgentCard"@) == Some(
            JsonV::Bool(opts.auth is Some),
        )),
        key == "name"@ ==> p.state.agent_card@.text_at(key) == Some(opts.name@),
        key == "description"@ ==> p.state.agent_card@.text_at(key) == Some(opts.description@),
        key == "version"@ ==> p.state.agent_card@.text_at(key) == Some(opts.version@),
        key == "supportedInterfaces"@ ==> (p.state.agent_card@.get(key) matches Some(
            JsonV::Array(s),
        ) && s.len() == 1 && s[0].text_at("url"@) == Some(opts.url@)),
{
    let card = server_card(modules, opts);
    let json = card_json(card);
    crate::adapters::agent_card::cards_carry_their_fields(card);
    crate::adapters::agent_card::what_a_card_lists_carries_its_fields(
        card.skills[0],
        card.supported_interfaces[0],
        card.capabilities,
    );
    if opts.executor.rules() is Some {
        let answers = choose|answers: Seq<Access>|
            asked(opts.executor.rules(), None, without_system(json), answers)
                && p.state.agent_card@ == #[trigger] public_of(json, Some(answers), gated_ids(modules));
        crate::server::cards::public_cards_keep_the_rest(json, Some(answers), gated_ids(modules), key);
    } else {
        crate::server::cards::public_cards_keep_the_rest(json, None, gated_ids(modules), key);
    }
    let schemas = object_schemas(modules, true);
    crate::json::insert_then_get(
        json->Object_0,
        "_inputSchemas"@,
        JsonV::Object(schemas),
        key,
    );
}

/// The card of the Explorer carries, besides, the input schemas of the shown
/// modules, and no such member where there are none.
pub proof fn the_explorer_shows_input_schemas(card: JsonV, schemas: Seq<(Seq<char>, JsonV)>)
    requires
        card is Object,
    ensures
        schemas.len() > 0 ==> explorer_json(card, schemas).get("_inputSchemas"@) == Some(
            JsonV::Object(schemas),
        ),
        schemas.len() == 0 ==> explorer_json(card, schemas) == card,
{
    crate::json::insert_then_get(
        card->Object_0,
        "_inputSchemas"@,
        JsonV::Object(schemas),
        "_inputSchemas"@,
    );
}

/// The input schema of a module is kept where it is an object, and of two modules
/// with one id that of the later.
pub proof fn input_schemas_are_those_of_the_modules(
    modules: Seq<EntryV>,
    shown_only: bool,
    id: Seq<char>,
)
    requires
        entry_ids(modules).no_duplicates(),
    ensures
        crate::json::member(object_schemas(modules, shown_only), id) matches Some(s)
            ==> exists|i: int|
            0 <= i < modules.len() && (#[trigger] modules[i]).id == id && (modules[i].descriptor
                matches Some(d) && d.input_schema == s && s is Object && (shown_only
                ==> !crate::text::blank(d.description))),
        forall|i: int|
            0 <= i < modules.len() && (#[trigger] modules[i]).id == id && (modules[i].descriptor
                matches Some(d) && d.input_schema is Object && (shown_only ==> !crate::text::blank(
                d.description,
            ))) ==> crate::json::member(object_schemas(modules, shown_only), id) == Some(
                modules[i].descriptor->0.input_schema,
            ),
    decreases modules.len(),
{
    if modules.len() > 0 {
        let rest = modules.drop_last();
        let e = modules.last();
        let n = modules.len() - 1;
        assert(entry_ids(rest) =~= entry_ids(modules).drop_last());
        assert forall|i: int, j: int|
            0 <= i < entry_ids(rest).len() && 0 <= j < entry_ids(rest).len() && i
                != j implies entry_ids(rest)[i] != entry_ids(rest)[j] by {
            assert(entry_ids(modules)[i] != entry_ids(modules)[j]);
        }
        input_schemas_are_those_of_the_modules(rest, shown_only, id);
        if let Some(d) = e.descriptor {
            crate::text::blank_is_trimmed_empty(d.description);
            crate::json::insert_then_get(
                object_schemas(rest, shown_only),
                e.id,
                d.input_schema,
                id,
            );
        }
        assert(modules[n] == e);
        assert forall|i: int| 0 <= i < n implies #[trigger] modules[i] == rest[i] by {}
        assert forall|i: int| 0 <= i < n && e.id == id implies (#[trigger] modules[i]).id != id by {
            assert(entry_ids(modules)[i] != entry_ids(modules)[n]);
        }
        if let Some(s) = crate::json::member(object_schemas(modules, shown_only), id) {
            if crate::json::member(object_schemas(rest, shown_only), id) == Some(s) && exists|
                i: int,
            |
                0 <= i < rest.len() && (#[trigger] rest[i]).id == id && (rest[i].descriptor
                    matches Some(d) && d.input_schema == s && s is Object && (shown_only
                    ==> !crate::text::blank(d.description))) {
                let i = choose|i: int|
                    0 <= i < rest.len() && (#[trigger] rest[i]).id == id && (rest[i].descriptor
                        matches Some(d) && d.input_schema == s && s is Object && (shown_only
                        ==> !crate::text::blank(d.description)));
                assert(modules[i] == rest[i]);
            }
        }
    }
}

/// The skills that are kept from the public card by the word of their modules are
/// those of the shown modules whose annotations ask for an approval.
pub proof fn gated_skills_are_those_that_ask(modules: Seq<EntryV>, id: Seq<char>)
    ensures
        gated_ids(modules).contains(id) <==> exists|i: int|
            0 <= i < modules.len() && (#[trigger] modules[i]).id == id && (modules[i].descriptor
                matches Some(d) && !crate::text::blank(d.description) && (d.annotations matches Some(
                a,
            ) && a.requires_approval)),
    decreases modules.len(),
{
    if modules.len() > 0 {
        let rest = modules.drop_last();
        let e = modules.last();
        let n = modules.len() - 1;
        gated_skills_are_those_that_ask(rest, id);
        if let Some(d) = e.descriptor {
            crate::text::blank_is_trimmed_empty(d.description);
        }
        let a = gated_ids(rest);
        let b = gated_ids(modules);
        assert(modules[n] == e);
        assert forall|i: int| 0 <= i < n implies #[trigger] modules[i] == rest[i] by {}
        if is_shown(e) && asks_approval(e) {
            assert(b[b.len() - 1] == e.id);
            if a.contains(id) {
                let k = choose|k: int| 0 <= k < a.len() && a[k] == id;
                assert(b[k] == id);
            }
            if b.contains(id) && id != e.id {
                let k = choose|k: int| 0 <= k < b.len() && b[k] == id;
                assert(a[k] == id);
            }
        }
        if exists|i: int|
            0 <= i < rest.len() && (#[trigger] rest[i]).id == id && (rest[i].descriptor matches Some(
                d,
            ) && !crate::text::blank(d.description) && (d.annotations matches Some(x)
                && x.requires_approval)) {
            let i = choose|i: int|
                0 <= i < rest.len() && (#[trigger] rest[i]).id == id && (rest[i].descriptor
                    matches Some(d) && !crate::text::blank(d.description) && (d.annotations
                    matches Some(x) && x.requires_approval));
            assert(modules[i] == rest[i]);
        }
        if exists|i: int|
            0 <= i < modules.len() && (#[trigger] modules[i]).id == id && (modules[i].descriptor
                matches Some(d) && !crate::text::blank(d.description) && (d.annotations matches Some(
                x,
            ) && x.requires_approval)) {
            let i = choose|i: int|
                0 <= i < modules.len() && (#[trigger] modules[i]).id == id && (
                modules[i].descriptor matches Some(d) && !crate::text::blank(d.description) && (
                d.annotations matches Some(x) && x.requires_approval));
            if i < n {
                assert(rest[i] == modules[i]);
            }
        }
    }
}

/// A server knows every listed module as a skill, shown or not, and shows the
/// skills of the described ones on its card.
pub proof fn servers_know_their_modules(
    p: ServerPlan,
    modules: Seq<EntryV>,
    opts: CreateOptions,
    i: int,
)
    requires
        plan_of(p, modules, opts),
        0 <= i < modules.len(),
    ensures
        views(p.state.skill_ids@)[i] == modules[i].id,
        views(p.state.skill_ids@).len() == modules.len(),
        modules[i].descriptor matches Some(d) && !crate::text::blank(d.description) ==> exists|
            j: int,
        |
            0 <= j < p.card@.skills.len() && (#[trigger] p.card@.skills[j]).id == modules[i].id,
{
    if modules[i].descriptor is Some && !crate::text::blank(modules[i].descriptor->0.description) {
        let j = crate::adapters::agent_card::described_modules_are_shown(modules, i);
        assert(p.card@.skills[j].id == modules[i].id);
    }
}

/// The paths that need no authentication are those of discovery and health; the
/// path at which messages are taken is not among them.
pub proof fn discovery_and_health_are_open(path: Seq<char>)
    ensures
        exempt_paths().contains(path) <==> path == "/.well-known/agent-card.json"@ || path
            == "/.well-known/agent.json"@ || path == "/health"@,
        !crate::auth::middleware::exempt("/"@, exempt_paths()),
        crate::auth::middleware::exempt("/health"@, exempt_paths()),
        crate::auth::middleware::exempt("/.well-known/agent-card.json"@, exempt_paths()),
{
    reveal_strlit("/.well-known/agent-card.json");
    reveal_strlit("/.well-known/agent.json");
    reveal_strlit("/health");
    reveal_strlit("/");
    assert("/.well-known/agent-card.json"@.len() == 28);
    assert("/.well-known/agent.json"@.len() == 23);
    assert("/health"@.len() == 7);
    assert("/"@.len() == 1);
    let e = exempt_paths();
    assert(e[0] == "/.well-known/agent-card.json"@ && e[1] == "/.well-known/agent.json"@ && e[2]
        == "/health"@ && e.len() == 3);
    assert(e[2].is_prefix_of("/health"@));
    assert(e[0].is_prefix_of("/.well-known/agent-card.json"@));
}

/// Slashes at the end of a text are taken off, all of them and nothing else.
pub proof fn only_trailing_slashes_are_taken_off(s: Seq<char>)
    ensures
        without_trailing_slashes(s).is_prefix_of(s),
        without_trailing_slashes(s).len() > 0 ==> without_trailing_slashes(s).last() != '/',
        forall|i: int|
            without_trailing_slashes(s).len() <= i < s.len() ==> #[trigger] s[i] == '/',
    decreases s.len(),
{
    if s.len() > 0 && s.last() == '/' {
        only_trailing_slashes_are_taken_off(s.drop_last());
        let t = without_trailing_slashes(s);
        assert(t =~= s.subrange(0, t.len() as int));
        assert forall|i: int| t.len() <= i < s.len() implies #[trigger] s[i] == '/' by {
            if i < s.len() - 1 {
                assert(s.drop_last()[i] == s[i]);
            }
        }
    } else {
        assert(s =~= s.subrange(0, s.len() as int));
    }
}

/// A health check is answered with `healthy` under `status`.
pub proof fn health_is_told()
    ensures
        health_json().text_at("status"@) == Some("healthy"@),
        no_extended_card_json().text_at("error"@) == Some("Extended agent card is not configured"@),
{
    crate::json::member_at(health_json()->Object_0, "status"@, 0);
    crate::json::member_at(no_extended_card_json()->Object_0, "error"@, 0);
}

/// The namespace of the configuration begins with what an agent does where nothing
/// else is said: calls of at most three hundred seconds, no origins, no Explorer,
/// no metrics and no push notifications.
pub proof fn the_namespace_begins_with_the_defaults()
    ensures
        ({
            let d = namespace_defaults_json();
            &&& d.get("execution_timeout"@) == Some(JsonV::Number(NumberV::PosInt(300)))
            &&& d.get("cors_origins"@) == Some(JsonV::Array(Seq::<JsonV>::empty()))
            &&& d.get("explorer"@) == Some(JsonV::Bool(false))
            &&& d.get("metrics"@) == Some(JsonV::Bool(false))
            &&& d.get("push_notifications"@) == Some(JsonV::Bool(false))
        }),
{
    reveal_strlit("execution_timeout");
    reveal_strlit("cors_origins");
    reveal_strlit("explorer");
    reveal_strlit("metrics");
    reveal_strlit("push_notifications");
    assert("execution_timeout"@.len() == 17);
    assert("cors_origins"@.len() == 12);
    assert("explorer"@.len() == 8);
    assert("metrics"@.len() == 7);
    assert("push_notifications"@.len() == 18);
    let m = namespace_defaults_json()->Object_0;
    assert(seq![] =~= Seq::<JsonV>::empty());
    crate::json::member_at(m, "execution_timeout"@, 0);
    crate::json::member_at(m, "cors_origins"@, 1);
    crate::json::member_at(m, "explorer"@, 2);
    crate::json::member_at(m, "metrics"@, 3);
    crate::json::member_at(m, "push_notifications"@, 4);
}

/// An Explorer is served exactly where it is asked for, under its prefix without
/// the slashes at its end; and only where callers are authenticated are there
/// paths that need no authentication.
pub proof fn plans_serve_what_was_asked_for(
    p: ServerPlan,
    modules: Seq<EntryV>,
    opts: CreateOptions,
)
    requires
        plan_of(p, modules, opts),
    ensures
        p.explorer_path is Some <==> opts.explorer,
        p.explorer_path matches Some(path) ==> path@.is_prefix_of(opts.explorer_prefix@) && (
        path@.len() > 0 ==> path@.last() != '/'),
        p.auth_exempt is Some <==> opts.auth is Some,
        p.state.extended_card is Some <==> opts.auth is Some,
        p.state.executor == opts.executor,
        p.card@.security_schemes == (match opts.auth {
            Some(Some(s)) => crate::adapters::agent_card::a2a_schemes(Some(s@)),
            _ => JsonV::Object(Seq::<(Seq<char>, JsonV)>::empty()),
        }),
{
    only_trailing_slashes_are_taken_off(opts.explorer_prefix@);
    crate::adapters::agent_card::no_schemes_are_shown_as_none(None);
}

} // verus!
