//! The configuration of an agent, and what follows from it.

use vstd::prelude::*;
use vstd::string::*;

use crate::adapters::parts::PartConverter;
use crate::adapters::schema::SchemaConverter;
use crate::client::client::{header_fault, header_ok};
use crate::json::Json;
use crate::modules::{entry_views, registered, registered_modules, EntryV, ModuleEntry};
use crate::server::executor::ApCoreAgentExecutor;
use crate::server::factory::{plan_of, A2AServerFactory, CreateOptions, ServerPlan};
use crate::text::{
    chars_of, clone_strings, decimal, join, numeral, owned, str_eq, trim, trimmed, views,
};
use crate::wire::{debug_quoted, debug_text};

verus! {

/// The version of this crate.
pub const VERSION: &'static str = "0.4.4";

/// Why an agent cannot be served.
#[derive(Debug)]
pub enum APCoreA2AError {
    /// There is no module to serve.
    EmptyRegistry,
    /// The server failed.
    Server(String),
}

/// What such an error denotes.
#[verifier::ext_equal]
pub enum AgentErrorV {
    EmptyRegistry,
    Server(Seq<char>),
}

impl View for APCoreA2AError {
    type V = AgentErrorV;

    open spec fn view(&self) -> AgentErrorV {
        match self {
            APCoreA2AError::EmptyRegistry => AgentErrorV::EmptyRegistry,
            APCoreA2AError::Server(m) => AgentErrorV::Server(m@),
        }
    }
}

/// What such an error says.
pub open spec fn agent_error_text(e: AgentErrorV) -> Seq<char> {
    match e {
        AgentErrorV::EmptyRegistry => "no modules found in registry"@,
        AgentErrorV::Server(m) => "server error: "@ + m,
    }
}

impl APCoreA2AError {
    /// What the error says.
    pub fn message(&self) -> (r: String)
        ensures
            r@ == agent_error_text(self@),
    {
        match self {
            APCoreA2AError::EmptyRegistry => owned("no modules found in registry"),
            APCoreA2AError::Server(m) => join("server error: ", m.as_str()),
        }
    }
}

/// The configuration of an agent.
#[derive(Debug)]
pub struct APCoreA2AConfig {
    pub name: String,
    pub description: String,
    pub version: String,
    /// The host to bind, which need not be the one that is published.
    pub host: String,
    /// The port to bind.
    pub port: u16,
    /// The endpoint that the Agent Card shows; blank to derive it from host and
    /// port.
    pub url: String,
    /// How long a call may take, in seconds.
    pub execution_timeout: u64,
    pub explorer: bool,
    pub metrics: bool,
    /// Whether the runtime's management modules are registered.
    pub sys_modules: bool,
    /// The origins that browsers may call from; none for no such calls.
    pub cors_origins: Vec<String>,
    /// Whether the reason of a refusal is told.
    pub disclose_refusal_reason: bool,
}

/// What a configuration denotes.
#[verifier::ext_equal]
pub struct ConfigV {
    pub name: Seq<char>,
    pub description: Seq<char>,
    pub version: Seq<char>,
    pub host: Seq<char>,
    pub port: u16,
    pub url: Seq<char>,
    pub execution_timeout: u64,
    pub explorer: bool,
    pub metrics: bool,
    pub sys_modules: bool,
    pub cors_origins: Seq<Seq<char>>,
    pub disclose_refusal_reason: bool,
}

impl View for APCoreA2AConfig {
    type V = ConfigV;

    open spec fn view(&self) -> ConfigV {
        ConfigV {
            name: self.name@,
            description: self.description@,
            version: self.version@,
            host: self.host@,
            port: self.port,
            url: self.url@,
            execution_timeout: self.execution_timeout,
            explorer: self.explorer,
            metrics: self.metrics,
            sys_modules: self.sys_modules,
            cors_origins: views(self.cors_origins@),
            disclose_refusal_reason: self.disclose_refusal_reason,
        }
    }
}

/// The configuration where nothing else is said.
pub open spec fn default_config() -> ConfigV {
    ConfigV {
        name: "apcore-a2a"@,
        description: "apcore A2A agent"@,
        version: VERSION@,
        host: "0.0.0.0"@,
        port: 8000,
        url: "http://localhost:8000"@,
        execution_timeout: 300,
        explorer: false,
        metrics: false,
        sys_modules: false,
        cors_origins: Seq::empty(),
        disclose_refusal_reason: false,
    }
}

impl Default for APCoreA2AConfig {
    fn default() -> (r: APCoreA2AConfig)
        ensures
            r@ == default_config(),
    {
        let r = APCoreA2AConfig {
            name: owned("apcore-a2a"),
            description: owned("apcore A2A agent"),
            version: owned(VERSION),
            host: owned("0.0.0.0"),
            port: 8000,
            url: owned("http://localhost:8000"),
            execution_timeout: 300,
            explorer: false,
            metrics: false,
            sys_modules: false,
            cors_origins: Vec::new(),
            disclose_refusal_reason: false,
        };
        assert(r@ =~= default_config());
        r
    }
}

impl APCoreA2AConfig {
    /// A copy of the configuration.
    pub fn copy(&self) -> (r: APCoreA2AConfig)
        ensures
            r@ == self@,
    {
        APCoreA2AConfig {
            name: self.name.clone(),
            description: self.description.clone(),
            version: self.version.clone(),
            host: self.host.clone(),
            port: self.port,
            url: self.url.clone(),
            execution_timeout: self.execution_timeout,
            explorer: self.explorer,
            metrics: self.metrics,
            sys_modules: self.sys_modules,
            cors_origins: clone_strings(&self.cors_origins),
            disclose_refusal_reason: self.disclose_refusal_reason,
        }
    }
}

impl Clone for APCoreA2AConfig {
    fn clone(&self) -> (r: Self)
        ensures
            r@ == self@,
    {
        self.copy()
    }
}

/// A configured agent.
#[derive(Debug)]
pub struct APCoreA2A {
    config: APCoreA2AConfig,
}

impl View for APCoreA2A {
    type V = ConfigV;

    closed spec fn view(&self) -> ConfigV {
        self.config@
    }
}

/// A configuration in the making.
#[derive(Debug)]
pub struct APCoreA2ABuilder {
    config: APCoreA2AConfig,
}

impl View for APCoreA2ABuilder {
    type V = ConfigV;

    closed spec fn view(&self) -> ConfigV {
        self.config@
    }
}

/// The endpoint at a host and a port.
pub open spec fn endpoint(host: Seq<char>, port: u16) -> Seq<char> {
    "http://"@ + host + ":"@ + numeral(port as nat)
}

fn endpoint_of(host: &str, port: u16) -> (r: String)
    ensures
        r@ == endpoint(host@, port),
{
    let mut out: String = join("http://", host);
    out.append(":");
    out.append(decimal(port as u64).as_str());
    out
}

impl APCoreA2ABuilder {
    /// A builder that begins with the default configuration.
    pub fn new() -> (r: APCoreA2ABuilder)
        ensures
            r@ == default_config(),
    {
        APCoreA2ABuilder { config: APCoreA2AConfig::default() }
    }

    /// Set the agent's name.
    pub fn name(self, name: &str) -> (r: APCoreA2ABuilder)
        ensures
            r@ == (ConfigV { name: name@, ..self@ }),
    {
        let mut r = self;
        r.config.name = owned(name);
        r
    }

    /// Set the agent's description.
    pub fn description(self, desc: &str) -> (r: APCoreA2ABuilder)
        ensures
            r@ == (ConfigV { description: desc@, ..self@ }),
    {
        let mut r = self;
        r.config.description = owned(desc);
        r
    }

    /// Set the endpoint that the Agent Card shows. It does not change what the
    /// server binds.
    pub fn url(self, url: &str) -> (r: APCoreA2ABuilder)
        ensures
            r@ == (ConfigV { url: url@, ..self@ }),
    {
        let mut r = self;
        r.config.url = owned(url);
        r
    }

    /// Set the host to bind.
    pub fn host(self, host: &str) -> (r: APCoreA2ABuilder)
        ensures
            r@ == (ConfigV { host: host@, ..self@ }),
    {
        let mut r = self;
        r.config.host = owned(host);
        r
    }

    /// Set the port to bind.
    pub fn port(self, port: u16) -> (r: APCoreA2ABuilder)
        ensures
            r@ == (ConfigV { port, ..self@ }),
    {
        let mut r = self;
        r.config.port = port;
        r
    }

    /// Set whether the reason of a refusal is told.
    pub fn disclose_refusal_reason(self, disclose: bool) -> (r: APCoreA2ABuilder)
        ensures
            r@ == (ConfigV { disclose_refusal_reason: disclose, ..self@ }),
    {
        let mut r = self;
        r.config.disclose_refusal_reason = disclose;
        r
    }

    /// Set the host and the port to bind, and show the endpoint there.
    pub fn bind(self, host: &str, port: u16) -> (r: APCoreA2ABuilder)
        ensures
            r@ == (ConfigV { host: host@, port, url: endpoint(host@, port), ..self@ }),
    {
        let mut r = self;
        r.config.host = owned(host);
        r.config.port = port;
        r.config.url = endpoint_of(host, port);
        r
    }

    /// The configured agent.
    pub fn build(self) -> (r: APCoreA2A)
        ensures
            r@ == self@,
    {
        APCoreA2A { config: self.config }
    }
}

impl Default for APCoreA2ABuilder {
    fn default() -> (r: APCoreA2ABuilder)
        ensures
            r@ == default_config(),
    {
        APCoreA2ABuilder::new()
    }
}

impl APCoreA2A {
    /// A builder that begins with the default configuration.
    pub fn builder() -> (r: APCoreA2ABuilder)
        ensures
            r@ == default_config(),
    {
        APCoreA2ABuilder::new()
    }

    /// The agent's configuration.
    pub fn config(&self) -> (r: &APCoreA2AConfig)
        ensures
            r@ == self@,
    {
        &self.config
    }
}

/// The endpoint that an Agent Card shows: the configured one, or the one at the
/// bound host and port where none is configured.
pub open spec fn published(c: ConfigV) -> Seq<char> {
    if trimmed(c.url).len() == 0 {
        endpoint(c.host, c.port)
    } else {
        c.url
    }
}

/// The endpoint that an Agent Card shows.
pub fn published_url(config: &APCoreA2AConfig) -> (r: String)
    ensures
        r@ == published(config@),
{
    if trim(config.url.as_str()).as_str().is_empty() {
        endpoint_of(config.host.as_str(), config.port)
    } else {
        config.url.clone()
    }
}

/// The socket to bind. An IPv6 host is put into brackets.
pub open spec fn socket(host: Seq<char>, port: u16) -> Seq<char> {
    (if host.contains(':') && host[0] != '[' {
        "["@ + host + "]"@
    } else {
        host
    }) + ":"@ + numeral(port as nat)
}

/// The socket to bind, from host and port alone: what the Agent Card shows has
/// no part in it. A blank host is refused.
pub fn bind_addr(config: &APCoreA2AConfig) -> (r: Result<String, APCoreA2AError>)
    ensures
        match r {
            Ok(s) => trimmed(config@.host).len() > 0 && s@ == socket(config@.host, config@.port),
            Err(e) => trimmed(config@.host).len() == 0 && e@ == AgentErrorV::Server(
                "config.host is empty; set it to a bind address such as \"127.0.0.1\" or \"0.0.0.0\""@,
            ),
        },
{
    if trim(config.host.as_str()).as_str().is_empty() {
        return Err(
            APCoreA2AError::Server(
                owned(
                    "config.host is empty; set it to a bind address such as \"127.0.0.1\" or \"0.0.0.0\"",
                ),
            ),
        );
    }
    let cs: Vec<char> = chars_of(config.host.as_str());
    let mut colon: bool = false;
    let mut i: usize = 0;
    while i < cs.len()
        invariant
            i <= cs.len(),
            colon <==> exists|k: int| 0 <= k < i && cs@[k] == ':',
        decreases cs.len() - i,
    {
        if cs[i] == ':' {
            colon = true;
        }
        i += 1;
    }
    assert(colon <==> config@.host.contains(':'));
    let mut out: String = if colon && cs[0] != '[' {
        join(join("[", config.host.as_str()).as_str(), "]")
    } else {
        config.host.clone()
    };
    out.append(":");
    out.append(decimal(config.port as u64).as_str());
    Ok(out)
}

/// Whether a server that binds `host` can be reached from elsewhere with nothing
/// to authenticate its callers, which deserves a warning.
pub fn warn_on_unauthenticated_public_bind(host: &str, has_auth: bool) -> (r: bool)
    ensures
        r == (!has_auth && host@ != "127.0.0.1"@ && host@ != "::1"@ && host@ != "[::1]"@ && host@
            != "localhost"@),
{
    let loopback: bool = str_eq(host, "127.0.0.1") || str_eq(host, "::1") || str_eq(host, "[::1]")
        || str_eq(host, "localhost");
    !loopback && !has_auth
}

/// The error for a socket that cannot be bound.
pub fn bind_failure(config: &APCoreA2AConfig, addr: &str, err: &str) -> (r: APCoreA2AError)
    ensures
        r@ == AgentErrorV::Server(
            "failed to bind "@ + addr@ + " (host="@ + debug_quoted(config@.host) + ", port="@
                + numeral(config@.port as nat) + "): "@ + err@,
        ),
{
    let mut out: String = join("failed to bind ", addr);
    out.append(" (host=");
    out.append(debug_text(config.host.as_str()).as_str());
    out.append(", port=");
    out.append(decimal(config.port as u64).as_str());
    out.append("): ");
    out.append(err);
    APCoreA2AError::Server(out)
}

/// The origins that may stand in a header.
pub open spec fn usable_origins(origins: Seq<Seq<char>>) -> Seq<Seq<char>>
    decreases origins.len(),
{
    if origins.len() == 0 {
        Seq::empty()
    } else if header_ok(origins.last()) {
        usable_origins(origins.drop_last()).push(origins.last())
    } else {
        usable_origins(origins.drop_last())
    }
}

/// The origins that browsers may call from, without those that cannot stand in a
/// header; nothing where none is configured.
pub fn allowed_origins(origins: &Vec<String>) -> (r: Option<Vec<String>>)
    ensures
        match r {
            Some(v) => origins@.len() > 0 && views(v@) == usable_origins(views(origins@)),
            None => origins@.len() == 0,
        },
{
    if origins.len() == 0 {
        return None;
    }
    let ghost all = views(origins@);
    let mut out: Vec<String> = Vec::new();
    let mut i: usize = 0;
    assert(all.take(0) =~= Seq::empty());
    assert(views(out@) =~= Seq::empty());
    while i < origins.len()
        invariant
            i <= origins.len(),
            all == views(origins@),
            views(out@) == usable_origins(all.take(i as int)),
        decreases origins.len() - i,
    {
        assert(all.take(i + 1).drop_last() =~= all.take(i as int));
        assert(all.take(i + 1).last() == origins[i as int]@);
        if header_fault(origins[i].as_str()).is_none() {
            let ghost prev = out@;
            out.push(origins[i].clone());
            assert(views(out@) =~= views(prev).push(origins[i as int]@));
        }
        i += 1;
    }
    assert(all.take(i as int) =~= all);
    Some(out)
}

/// What a server is made from, by the configuration.
pub open spec fn options_for(
    o: CreateOptions,
    c: ConfigV,
    auth: Option<Option<Json>>,
    rules: Option<std::sync::Arc<apcore::acl::ACL>>,
) -> bool {
    &&& o.name@ == c.name
    &&& o.description@ == c.description
    &&& o.version@ == c.version
    &&& o.url@ == published(c)
    &&& o.auth == auth
    &&& o.explorer == c.explorer
    &&& o.explorer_prefix@ == "/explorer"@
    &&& o.executor.timeout() == c.execution_timeout
    &&& o.executor.discloses() == c.disclose_refusal_reason
    &&& o.executor.rules() == rules
}

/// The plan is that of a server with the given modules, by the configuration.
pub open spec fn planned(
    p: ServerPlan,
    modules: Seq<EntryV>,
    c: ConfigV,
    auth: Option<Option<Json>>,
    rules: Option<std::sync::Arc<apcore::acl::ACL>>,
) -> bool {
    exists|o: CreateOptions| options_for(o, c, auth, rules) && #[trigger] plan_of(p, modules, o)
}

/// A registry without modules cannot be served.
pub fn require_modules(modules: &Vec<ModuleEntry>) -> (r: Result<(), APCoreA2AError>)
    ensures
        r is Ok <==> modules@.len() > 0,
        r matches Err(e) ==> e@ == AgentErrorV::EmptyRegistry,
{
    if modules.len() == 0 {
        Err(APCoreA2AError::EmptyRegistry)
    } else {
        Ok(())
    }
}

/// The server for the modules that a registry lists. `auth` holds the security
/// schemes of the authenticator, where there is one.
pub fn build_server(
    registry: &apcore::registry::registry::Registry,
    config: &APCoreA2AConfig,
    auth: Option<Option<Json>>,
    rules: Option<std::sync::Arc<apcore::acl::ACL>>,
) -> (r: Result<ServerPlan, APCoreA2AError>)
    ensures
        match r {
            Ok(p) => exists|modules: Seq<EntryV>|
                modules.len() > 0 && registered(*registry, modules) && #[trigger] planned(
                    p,
                    modules,
                    config@,
                    auth,
                    rules,
                ),
            Err(e) => e@ == AgentErrorV::EmptyRegistry && registered(*registry, Seq::empty()),
        },
{
    let modules: Vec<ModuleEntry> = registered_modules(registry);
    assert(entry_views(modules@).len() == modules@.len());
    assert(modules@.len() == 0 ==> entry_views(modules@) =~= Seq::empty());
    build_server_from(&modules, config, auth, rules)
}

/// The server for the given modules.
pub fn build_server_from(
    modules: &Vec<ModuleEntry>,
    config: &APCoreA2AConfig,
    auth: Option<Option<Json>>,
    rules: Option<std::sync::Arc<apcore::acl::ACL>>,
) -> (r: Result<ServerPlan, APCoreA2AError>)
    ensures
        match r {
            Ok(p) => modules@.len() > 0 && planned(p, entry_views(modules@), config@, auth, rules),
            Err(e) => modules@.len() == 0 && e@ == AgentErrorV::EmptyRegistry,
        },
{
    match require_modules(modules) {
        Ok(_) => {},
        Err(e) => {
            return Err(e);
        },
    }
    let executor = ApCoreAgentExecutor::new(
        PartConverter::new(SchemaConverter::new()),
        config.execution_timeout,
    ).with_disclose_refusal_reason(config.disclose_refusal_reason).with_acl(rules);
    let url: String = published_url(config);
    let opts = CreateOptions::new(
        executor,
        config.name.as_str(),
        config.description.as_str(),
        config.version.as_str(),
        url.as_str(),
    ).with_explorer(config.explorer, "/explorer");
    let opts = match auth {
        Some(s) => opts.with_auth(s),
        None => opts,
    };
    assert(options_for(opts, config@, auth, rules));
    let mut factory = A2AServerFactory::new();
    Ok(factory.create_from(modules, opts))
}

/// An agent that is configured no further listens everywhere on port 8000, is
/// shown at that port of the local host, lets a call take five minutes, and has
/// everything else switched off.
pub proof fn agents_begin_with_the_defaults()
    ensures
        ({
            let c = default_config();
            &&& c.port == 8000 && c.host == "0.0.0.0"@
            &&& c.url == "http://localhost:8000"@
            &&& c.name == "apcore-a2a"@ && c.version == VERSION@
            &&& c.execution_timeout == 300
            &&& !c.explorer && !c.metrics && !c.sys_modules && !c.disclose_refusal_reason
            &&& c.cors_origins.len() == 0
            &&& published(c) == c.url
        }),
{
    reveal_strlit("http://localhost:8000");
    let url = default_config().url;
    assert(url[0] == 'h');
    assert(!crate::text::is_white(url[0]));
    crate::text::blank_is_trimmed_empty(url);
}

/// The card shows the configured endpoint as it stands; where none is configured, or
/// a blank one, it shows the bound host and port.
pub proof fn cards_show_the_configured_endpoint(c: ConfigV)
    ensures
        crate::text::blank(c.url) ==> published(c) == "http://"@ + c.host + ":"@ + numeral(
            c.port as nat,
        ),
        !crate::text::blank(c.url) ==> published(c) == c.url,
        published(ConfigV { url: endpoint(c.host, c.port), ..c }) == "http://"@ + c.host + ":"@
            + numeral(c.port as nat),
{
    crate::text::blank_is_trimmed_empty(c.url);
    let url = endpoint(c.host, c.port);
    reveal_strlit("http://");
    assert(url[0] == 'h');
    assert(!crate::text::is_white(url[0]));
    crate::text::blank_is_trimmed_empty(url);
}

/// The socket is the host and the port; a host with colons stands in brackets, which
/// it may bring itself.
pub proof fn sockets_are_host_and_port(host: Seq<char>, port: u16)
    ensures
        !host.contains(':') ==> socket(host, port) == host + ":"@ + numeral(port as nat),
        host.contains(':') && host[0] != '[' ==> socket(host, port) == "["@ + host + "]"@ + ":"@
            + numeral(port as nat),
        host.contains(':') && host[0] == '[' ==> socket(host, port) == host + ":"@ + numeral(
            port as nat,
        ),
        host.contains(':') && host[0] != '[' ==> socket(host, port) == socket(
            "["@ + host + "]"@,
            port,
        ),
{
    if host.contains(':') && host[0] != '[' {
        reveal_strlit("[");
        let b = "["@ + host + "]"@;
        let k = choose|k: int| 0 <= k < host.len() && host[k] == ':';
        assert(b[k + 1] == ':');
        assert(b[0] == '[');
    }
}

/// The origins that may call are those configured that can stand in a header, in
/// their order.
pub proof fn origins_are_those_that_can_stand_in_a_header(origins: Seq<Seq<char>>, x: Seq<char>)
    ensures
        usable_origins(origins).contains(x) <==> origins.contains(x) && header_ok(x),
        usable_origins(origins.push(x)) == (if header_ok(x) {
            usable_origins(origins).push(x)
        } else {
            usable_origins(origins)
        }),
        (forall|i: int| 0 <= i < origins.len() ==> header_ok(#[trigger] origins[i]))
            ==> usable_origins(origins) == origins,
    decreases origins.len(),
{
    assert(origins.push(x).drop_last() =~= origins);
    if origins.len() > 0 {
        let front = origins.drop_last();
        let last = origins.last();
        origins_are_those_that_can_stand_in_a_header(front, x);
        assert(front.push(last) =~= origins);
        let u = usable_origins(front);
        if u.contains(x) {
            let k = choose|k: int| 0 <= k < u.len() && u[k] == x;
            assert(u.push(last)[k] == x);
            let j = choose|j: int| 0 <= j < front.len() && front[j] == x;
            assert(origins[j] == x);
        }
        if last == x {
            assert(origins[origins.len() - 1] == x);
            assert(u.push(last)[u.len() as int] == x);
        }
        if origins.contains(x) && last != x {
            let j = choose|j: int| 0 <= j < origins.len() && origins[j] == x;
            assert(front[j] == x);
        }
        if usable_origins(origins).contains(x) && !u.contains(x) {
            let k = choose|k: int|
                0 <= k < usable_origins(origins).len() && usable_origins(origins)[k] == x;
            if k < u.len() {
                assert(u[k] == x);
            }
        }
        if forall|i: int| 0 <= i < origins.len() ==> header_ok(#[trigger] origins[i]) {
            assert forall|i: int| 0 <= i < front.len() implies header_ok(#[trigger] front[i]) by {
                assert(front[i] == origins[i]);
            }
            assert(header_ok(origins[origins.len() - 1]));
        }
    }
}

/// A server is what its agent is configured to be: its card shows the configured
/// name, description, version and endpoint, its calls may take the configured time,
/// a refusal is told as configured and decided by the given rules, and the explorer
/// is there where it is switched on.
pub proof fn servers_are_as_configured(
    p: ServerPlan,
    modules: Seq<EntryV>,
    c: ConfigV,
    auth: Option<Option<Json>>,
    rules: Option<std::sync::Arc<apcore::acl::ACL>>,
)
    requires
        planned(p, modules, c, auth, rules),
    ensures
        p.card@.name == c.name,
        p.card@.description == c.description,
        p.card@.version == c.version,
        p.card@.supported_interfaces.len() == 1 && p.card@.supported_interfaces[0].url == published(c),
        p.card@.capabilities.extended_agent_card <==> auth is Some,
        p.state.extended_card is Some <==> auth is Some,
        p.auth_exempt is Some <==> auth is Some,
        p.state.executor.timeout() == c.execution_timeout,
        p.state.executor.discloses() == c.disclose_refusal_reason,
        p.state.executor.rules() == rules,
        crate::text::opt_view(p.explorer_path) == (if c.explorer {
            Some("/explorer"@)
        } else {
            None
        }),
        views(p.state.skill_ids@) == crate::modules::entry_ids(modules),
{
    let o = choose|o: CreateOptions|
        options_for(o, c, auth, rules) && #[trigger] plan_of(p, modules, o);
    reveal_strlit("/explorer");
    let e = "/explorer"@;
    assert(e.last() == 'r');
    assert(crate::server::factory::without_trailing_slashes(e) == e);
}

/// What stops a server is told.
pub proof fn agent_failures_are_told(e: AgentErrorV)
    ensures
        e is EmptyRegistry ==> agent_error_text(e) == "no modules found in registry"@,
        e matches AgentErrorV::Server(m) ==> agent_error_text(e) == "server error: "@ + m,
{
}

} // verus!
