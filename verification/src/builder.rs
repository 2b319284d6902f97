//! Client builder shared by the async and blocking clients.
use vstd::prelude::*;

use crate::config::{Config, ConfigV, DEFAULT_BASE_URL};
use crate::text::owned;

verus! {

/// Builder for async and blocking clients: it collects a [`Config`].
#[derive(Debug, Clone)]
pub struct ClientBuilder {
    /// The configuration collected so far.
    pub config: Config,
}

/// The configuration a finished builder hands to a client: an empty base
/// URL is replaced by the OnlineSim default, everything else is kept.
pub open spec fn finished(c: ConfigV) -> ConfigV {
    if c.base_url.len() == 0 {
        ConfigV { base_url: DEFAULT_BASE_URL@, ..c }
    } else {
        c
    }
}

impl ClientBuilder {
    /// Create a new builder with defaults (`lang = "en"`, OnlineSim base URL).
    pub fn new() -> (r: Self)
        ensures
            r.config@ == (ConfigV {
                apikey: None,
                lang: "en"@,
                dev_id: None,
                oauth: None,
                base_url: DEFAULT_BASE_URL@,
            }),
    {
        ClientBuilder { config: Config::new_default() }
    }

    /// Set API key.
    pub fn apikey(self, apikey: &str) -> (r: Self)
        ensures
            r.config@ == (ConfigV { apikey: Some(apikey@), ..self.config@ }),
    {
        let mut b = self;
        b.config.apikey = Some(owned(apikey));
        b
    }

    /// Set language (`lang` parameter).
    pub fn lang(self, lang: &str) -> (r: Self)
        ensures
            r.config@ == (ConfigV { lang: lang@, ..self.config@ }),
    {
        let mut b = self;
        b.config.lang = owned(lang);
        b
    }

    /// Set developer id.
    pub fn dev_id(self, dev_id: i64) -> (r: Self)
        ensures
            r.config@ == (ConfigV { dev_id: Some(dev_id), ..self.config@ }),
    {
        let mut b = self;
        b.config.dev_id = Some(dev_id);
        b
    }

    /// Set OAuth bearer token for OnlineSim endpoints.
    pub fn oauth(self, oauth: &str) -> (r: Self)
        ensures
            r.config@ == (ConfigV { oauth: Some(oauth@), ..self.config@ }),
    {
        let mut b = self;
        b.config.oauth = Some(owned(oauth));
        b
    }

    /// Override OnlineSim base URL (default `https://onlinesim.host/api/`).
    pub fn base_url(self, base_url: &str) -> (r: Self)
        ensures
            r.config@ == (ConfigV { base_url: base_url@, ..self.config@ }),
    {
        let mut b = self;
        b.config.base_url = owned(base_url);
        b
    }

    /// The configuration a client is built from.
    pub fn finish_config(self) -> (r: Config)
        ensures
            r@ == finished(self.config@),
    {
        let mut config = self.config;
        if config.base_url.as_str().is_empty() {
            config.base_url = owned(DEFAULT_BASE_URL);
        }
        config
    }
}

} // verus!
