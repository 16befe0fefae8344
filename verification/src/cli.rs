//! The command line of the server.

use vstd::prelude::*;
use vstd::string::*;

use crate::apcore_a2a::{default_config, APCoreA2AConfig, ConfigV};
use crate::text::owned;

verus! {

/// What the command line says.
#[derive(Debug)]
pub struct Cli {
    pub extensions_dir: String,
    pub name: String,
    pub url: String,
    pub port: u16,
}

impl Default for Cli {
    fn default() -> (r: Cli)
        ensures
            r.extensions_dir@ == "./extensions"@,
            r.name@ == "apcore-a2a"@,
            r.url@ == "http://localhost:8000"@,
            r.port == 8000,
    {
        Cli {
            extensions_dir: owned("./extensions"),
            name: owned("apcore-a2a"),
            url: owned("http://localhost:8000"),
            port: 8000,
        }
    }
}

impl Cli {
    /// The configuration that the command line stands for: its name and its URL,
    /// and the default for everything else.
    pub fn config(&self) -> (r: APCoreA2AConfig)
        ensures
            r@ == (ConfigV { name: self.name@, url: self.url@, ..default_config() }),
    {
        let mut r = APCoreA2AConfig::default();
        r.name = self.name.clone();
        r.url = self.url.clone();
        r
    }
}

} // verus!
