//! Shared client configuration.
use vstd::prelude::*;

use crate::text::owned;

verus! {

/// Default OnlineSim API base URL.
pub const DEFAULT_BASE_URL: &'static str = "https://onlinesim.host/api/";

/// Default country dial code used by API helpers.
pub const DEFAULT_COUNTRY: i64 = 7;

/// Browser-like User-Agent sent with every request.
pub const USER_AGENT: &'static str = "Mozilla/5.0 (Macintosh; Intel Mac OS X 10_15_5) AppleWebKit/537.36 (KHTML, like Gecko) Chrome/84.0.4147.89 Safari/537.36";

/// Configuration shared by HTTP transports and API modules.
#[derive(Debug, Clone)]
pub struct Config {
    /// API key (`apikey` query/body parameter).
    pub apikey: Option<String>,
    /// Language code (`lang`), default `"en"`.
    pub lang: String,
    /// Optional developer id (`dev_id`).
    pub dev_id: Option<i64>,
    /// Optional OAuth bearer token for OnlineSim endpoints.
    pub oauth: Option<String>,
    /// OnlineSim API base URL.
    pub base_url: String,
}

/// The abstract content of a [`Config`].
pub struct ConfigV {
    pub apikey: Option<Seq<char>>,
    pub lang: Seq<char>,
    pub dev_id: Option<i64>,
    pub oauth: Option<Seq<char>>,
    pub base_url: Seq<char>,
}

/// The view of an optional string.
pub open spec fn opt_view(o: Option<String>) -> Option<Seq<char>> {
    match o {
        Some(s) => Some(s@),
        None => None,
    }
}

impl View for Config {
    type V = ConfigV;

    open spec fn view(&self) -> ConfigV {
        ConfigV {
            apikey: opt_view(self.apikey),
            lang: self.lang@,
            dev_id: self.dev_id,
            oauth: opt_view(self.oauth),
            base_url: self.base_url@,
        }
    }
}

/// An optional string, copied.
pub fn clone_opt_string(o: &Option<String>) -> (r: Option<String>)
    ensures
        opt_view(r) == opt_view(*o),
{
    match o {
        Some(s) => Some(s.clone()),
        None => None,
    }
}

impl Config {
    /// The defaults: no key, `lang = "en"`, no developer id, no OAuth token,
    /// the OnlineSim base URL.
    pub fn new_default() -> (r: Config)
        ensures
            r@ == (ConfigV {
                apikey: None,
                lang: "en"@,
                dev_id: None,
                oauth: None,
                base_url: DEFAULT_BASE_URL@,
            }),
    {
        Config {
            apikey: None,
            lang: owned("en"),
            dev_id: None,
            oauth: None,
            base_url: owned(DEFAULT_BASE_URL),
        }
    }

    /// A copy of this configuration.
    pub fn copy(&self) -> (r: Config)
        ensures
            r@ == self@,
    {
        Config {
            apikey: clone_opt_string(&self.apikey),
            lang: self.lang.clone(),
            dev_id: self.dev_id,
            oauth: clone_opt_string(&self.oauth),
            base_url: self.base_url.clone(),
        }
    }
}

impl Default for Config {
    fn default() -> (r: Config)
        ensures
            r@ == (ConfigV {
                apikey: None,
                lang: "en"@,
                dev_id: None,
                oauth: None,
                base_url: DEFAULT_BASE_URL@,
            }),
    {
        Config::new_default()
    }
}

} // verus!
