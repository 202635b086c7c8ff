//! The declarative description of a load test.

use crate::client::{parse_url, url_parse};
use crate::text::{has_prefix, starts_with, str_eq};
use vstd::prelude::*;

verus! {

/// The HTTP method that every request of a test is sent with.
#[derive(Debug, Clone, Copy, PartialEq, Eq, Structural)]
pub enum HttpMethod {
    GET,
    POST,
    PUT,
    DELETE,
    PATCH,
    HEAD,
    OPTIONS,
}

/// The upper-case name of a method, as it is written on the wire.
pub open spec fn method_name(method: HttpMethod) -> Seq<char> {
    match method {
        HttpMethod::GET => "GET"@,
        HttpMethod::POST => "POST"@,
        HttpMethod::PUT => "PUT"@,
        HttpMethod::DELETE => "DELETE"@,
        HttpMethod::PATCH => "PATCH"@,
        HttpMethod::HEAD => "HEAD"@,
        HttpMethod::OPTIONS => "OPTIONS"@,
    }
}

impl HttpMethod {
    /// The upper-case name of the method.
    pub fn as_str(&self) -> (name: &'static str)
        ensures
            name@ == method_name(*self),
    {
        match self {
            HttpMethod::GET => "GET",
            HttpMethod::POST => "POST",
            HttpMethod::PUT => "PUT",
            HttpMethod::DELETE => "DELETE",
            HttpMethod::PATCH => "PATCH",
            HttpMethod::HEAD => "HEAD",
            HttpMethod::OPTIONS => "OPTIONS",
        }
    }
}

} // verus!

verus! {

/// `serde_json::Value`: a JSON document. It is carried through to its
/// encoder; nothing of its content is known here.
#[verifier::external_type_specification]
#[verifier::external_body]
pub struct ExJsonValue(serde_json::Value);

/// The body that every request of a test carries.
#[derive(Debug)]
pub enum Body {
    /// A JSON document, sent in its compact encoding.
    Json(serde_json::Value),
    /// An XML document, sent as it is written.
    Xml(String),
}

/// How the requests of a test authenticate.
#[derive(Debug)]
pub enum Auth {
    /// No authentication; on the wire this is the type `None`.
    NoAuth,
    Basic { username: String, password: String },
    Bearer { token: String },
    /// A key under a name of the operator's choice; `add_to` is `"header"` or
    /// `"query"`.
    ApiKey { key_name: String, key_value: String, add_to: String },
}

/// One load test, as the operator describes it.
#[derive(Debug)]
pub struct DslConfig {
    pub name: String,
    pub target: String,
    pub method: HttpMethod,
    /// The number of workers.
    pub concurrency: u64,
    /// The length of the test in seconds.
    pub duration: u64,
    /// The time allowed to one request, in milliseconds.
    pub timeout_ms: Option<u64>,
    pub body: Option<Body>,
    pub auth: Option<Auth>,
    /// Pairs appended to the query of the target, in this order.
    pub query_params: Option<Vec<(String, String)>>,
    /// Headers sent with every request, in this order.
    pub headers: Option<Vec<(String, String)>>,
}

/// The time allowed to one request where the operator names none.
pub const DEFAULT_TIMEOUT_MS: u64 = 5000;

impl DslConfig {
    /// The time allowed to one request, in milliseconds.
    pub open spec fn spec_timeout_ms(&self) -> u64 {
        match self.timeout_ms {
            Some(ms) => ms,
            None => DEFAULT_TIMEOUT_MS,
        }
    }

    /// The time allowed to one request, in milliseconds: the operator's, or
    /// the default.
    #[verifier::when_used_as_spec(spec_timeout_ms)]
    pub fn effective_timeout_ms(&self) -> (ms: u64)
        ensures
            ms == self.spec_timeout_ms(),
    {
        match self.timeout_ms {
            Some(ms) => ms,
            None => DEFAULT_TIMEOUT_MS,
        }
    }
}


/// Why a description is none of a test that can be run.
#[derive(Debug, Clone, Copy, PartialEq, Eq, Structural)]
pub enum ConfigError {
    /// No worker is asked for.
    ZeroConcurrency,
    /// The test has no length.
    ZeroDuration,
    /// The target is no absolute URL.
    InvalidTarget,
    /// The target is a URL of another scheme than `http` or `https`.
    UnsupportedScheme,
    /// An API key is to go elsewhere than into a header or the query.
    UnknownKeyLocation,
}

/// Whether a URL, as `Url::parse` writes it, has the scheme `http` or
/// `https`.
pub open spec fn is_http_url(url: Seq<char>) -> bool {
    has_prefix(url, "http://"@) || has_prefix(url, "https://"@)
}

/// Whether an API key, if there is one, goes into a header or the query.
pub open spec fn key_location_known(auth: &Option<Auth>) -> bool {
    match auth {
        Some(Auth::ApiKey { add_to, .. }) => add_to@ == "header"@ || add_to@ == "query"@,
        _ => true,
    }
}

impl DslConfig {
    /// What is wrong with the description, the first of these deciding: no
    /// worker, no length, a target that is no absolute URL, a target of
    /// another scheme than `http` or `https`, an API key for an unknown
    /// place.
    pub open spec fn verdict(&self) -> Result<(), ConfigError> {
        if self.concurrency == 0 {
            Err(ConfigError::ZeroConcurrency)
        } else if self.duration == 0 {
            Err(ConfigError::ZeroDuration)
        } else {
            match url_parse(self.target@) {
                Err(_) => Err(ConfigError::InvalidTarget),
                Ok(url) => if !is_http_url(url) {
                    Err(ConfigError::UnsupportedScheme)
                } else if !key_location_known(&self.auth) {
                    Err(ConfigError::UnknownKeyLocation)
                } else {
                    Ok(())
                },
            }
        }
    }

    /// The description is one of a test that can be run.
    pub open spec fn valid(&self) -> bool {
        self.verdict() is Ok
    }

    /// Holds the description against what a test needs.
    pub fn check(&self) -> (r: Result<(), ConfigError>)
        ensures
            r == self.verdict(),
    {
        if self.concurrency == 0 {
            return Err(ConfigError::ZeroConcurrency);
        }
        if self.duration == 0 {
            return Err(ConfigError::ZeroDuration);
        }
        let url = match parse_url(self.target.as_str()) {
            Ok(url) => url,
            Err(_) => {
                return Err(ConfigError::InvalidTarget);
            },
        };
        if !starts_with(url.as_str(), "http://") && !starts_with(url.as_str(), "https://") {
            return Err(ConfigError::UnsupportedScheme);
        }
        if let Some(Auth::ApiKey { add_to, .. }) = &self.auth {
            if !str_eq(add_to.as_str(), "header") && !str_eq(add_to.as_str(), "query") {
                return Err(ConfigError::UnknownKeyLocation);
            }
        }
        Ok(())
    }
}

/// A test without workers or without length is refused.
pub proof fn lemma_zero_concurrency_or_duration_is_refused(config: &DslConfig)
    requires
        config.concurrency == 0 || config.duration == 0,
    ensures
        !config.valid(),
{
}

/// The method that a name stands for; names are upper case.
pub open spec fn method_of(name: Seq<char>) -> Option<HttpMethod> {
    if name == "GET"@ {
        Some(HttpMethod::GET)
    } else if name == "POST"@ {
        Some(HttpMethod::POST)
    } else if name == "PUT"@ {
        Some(HttpMethod::PUT)
    } else if name == "DELETE"@ {
        Some(HttpMethod::DELETE)
    } else if name == "PATCH"@ {
        Some(HttpMethod::PATCH)
    } else if name == "HEAD"@ {
        Some(HttpMethod::HEAD)
    } else if name == "OPTIONS"@ {
        Some(HttpMethod::OPTIONS)
    } else {
        None
    }
}

impl HttpMethod {
    /// The method that a name stands for.
    pub fn from_name(name: &str) -> (method: Option<HttpMethod>)
        ensures
            method == method_of(name@),
    {
        if str_eq(name, "GET") {
            Some(HttpMethod::GET)
        } else if str_eq(name, "POST") {
            Some(HttpMethod::POST)
        } else if str_eq(name, "PUT") {
            Some(HttpMethod::PUT)
        } else if str_eq(name, "DELETE") {
            Some(HttpMethod::DELETE)
        } else if str_eq(name, "PATCH") {
            Some(HttpMethod::PATCH)
        } else if str_eq(name, "HEAD") {
            Some(HttpMethod::HEAD)
        } else if str_eq(name, "OPTIONS") {
            Some(HttpMethod::OPTIONS)
        } else {
            None
        }
    }
}

/// Writing a method as its name and reading the name gives the method back.
pub proof fn lemma_method_name_round_trip(method: HttpMethod)
    ensures
        method_of(method_name(method)) == Some(method),
{
    reveal_strlit("GET");
    reveal_strlit("POST");
    reveal_strlit("PUT");
    reveal_strlit("DELETE");
    reveal_strlit("PATCH");
    reveal_strlit("HEAD");
    reveal_strlit("OPTIONS");
    match method {
        HttpMethod::GET => {},
        HttpMethod::POST => {
            assert("POST"@.len() != "GET"@.len());
        },
        HttpMethod::PUT => {
            assert("PUT"@[0] != "GET"@[0]);
            assert("PUT"@.len() != "POST"@.len());
        },
        HttpMethod::DELETE => {
            assert("DELETE"@.len() != "GET"@.len());
            assert("DELETE"@.len() != "POST"@.len());
            assert("DELETE"@.len() != "PUT"@.len());
        },
        HttpMethod::PATCH => {
            assert("PATCH"@.len() != "GET"@.len());
            assert("PATCH"@.len() != "POST"@.len());
            assert("PATCH"@.len() != "PUT"@.len());
            assert("PATCH"@.len() != "DELETE"@.len());
        },
        HttpMethod::HEAD => {
            assert("HEAD"@.len() != "GET"@.len());
            assert("HEAD"@[0] != "POST"@[0]);
            assert("HEAD"@.len() != "PUT"@.len());
            assert("HEAD"@.len() != "DELETE"@.len());
            assert("HEAD"@.len() != "PATCH"@.len());
        },
        HttpMethod::OPTIONS => {
            assert("OPTIONS"@.len() != "GET"@.len());
            assert("OPTIONS"@.len() != "POST"@.len());
            assert("OPTIONS"@.len() != "PUT"@.len());
            assert("OPTIONS"@.len() != "DELETE"@.len());
            assert("OPTIONS"@.len() != "PATCH"@.len());
            assert("OPTIONS"@.len() != "HEAD"@.len());
        },
    }
}

} // verus!
