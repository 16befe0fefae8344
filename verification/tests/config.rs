//! The configuration of an agent.

use apcore_a2a::apcore_a2a::{
    allowed_origins, bind_failure, published_url, warn_on_unauthenticated_public_bind,
};
use apcore_a2a::cli::Cli;
use apcore_a2a::{bind_addr, APCoreA2A, APCoreA2AConfig, APCoreA2AError};

#[test]
fn a_loopback_bind_is_never_widened_to_every_interface() {
    let config = APCoreA2AConfig {
        host: "127.0.0.1".to_string(),
        port: 18999,
        url: "127.0.0.1:18999".to_string(),
        ..Default::default()
    };
    assert_eq!(bind_addr(&config).unwrap(), "127.0.0.1:18999");
}

#[test]
fn hosts_of_every_kind_are_bound() {
    let addr = |host: &str| {
        bind_addr(&APCoreA2AConfig { host: host.to_string(), port: 80, ..Default::default() })
            .map_err(|e| e.message())
    };
    assert_eq!(addr("::1").unwrap(), "[::1]:80");
    assert_eq!(addr("[::1]").unwrap(), "[::1]:80");
    assert_eq!(addr("localhost").unwrap(), "localhost:80");
    assert_eq!(
        addr("  ").unwrap_err(),
        "server error: config.host is empty; set it to a bind address such as \"127.0.0.1\" or \"0.0.0.0\""
    );
}

#[test]
fn the_published_endpoint() {
    let config = APCoreA2AConfig {
        host: "127.0.0.1".to_string(),
        port: 18999,
        url: String::new(),
        ..Default::default()
    };
    assert_eq!(published_url(&config), "http://127.0.0.1:18999");
    assert_eq!(published_url(&APCoreA2AConfig::default()), "http://localhost:8000");
}

#[test]
fn the_builder_sets_what_it_is_told() {
    let a = APCoreA2A::builder()
        .name("n")
        .description("d")
        .url("u")
        .host("h")
        .port(1)
        .disclose_refusal_reason(true)
        .build();
    let c = a.config();
    assert_eq!((c.name.as_str(), c.description.as_str(), c.url.as_str()), ("n", "d", "u"));
    assert_eq!((c.host.as_str(), c.port), ("h", 1));
    assert!(c.disclose_refusal_reason);
    let b = APCoreA2A::builder().bind("10.0.0.1", 65535).build();
    assert_eq!(b.config().url, "http://10.0.0.1:65535");
    assert_eq!(b.config().host, "10.0.0.1");
    assert_eq!(b.config().execution_timeout, 300);
    assert_eq!(b.config().name, "apcore-a2a");
}

#[test]
fn an_open_port_deserves_a_warning() {
    assert!(warn_on_unauthenticated_public_bind("0.0.0.0", false));
    assert!(!warn_on_unauthenticated_public_bind("0.0.0.0", true));
    for host in ["127.0.0.1", "::1", "[::1]", "localhost"] {
        assert!(!warn_on_unauthenticated_public_bind(host, false), "{host}");
    }
}

#[test]
fn origins_that_fit_into_a_header() {
    assert!(allowed_origins(&vec![]).is_none());
    assert_eq!(
        allowed_origins(&vec!["http://a".into(), "bad\n".into(), "http://b".into()]),
        Some(vec!["http://a".to_string(), "http://b".to_string()])
    );
}

#[test]
fn errors_of_the_agent() {
    assert_eq!(APCoreA2AError::EmptyRegistry.message(), "no modules found in registry");
    let config = APCoreA2AConfig { host: "a\"b".into(), port: 8, ..Default::default() };
    assert_eq!(
        bind_failure(&config, "a\"b:8", "boom").message(),
        "server error: failed to bind a\"b:8 (host=\"a\\\"b\", port=8): boom"
    );
}

#[test]
fn the_command_line_names_the_agent_and_its_endpoint() {
    let mut cli = Cli::default();
    assert_eq!(cli.extensions_dir, "./extensions");
    cli.name = "n".into();
    cli.url = "http://u".into();
    cli.port = 9;
    let c = cli.config();
    assert_eq!((c.name.as_str(), c.url.as_str(), c.port), ("n", "http://u", 8000));
}
