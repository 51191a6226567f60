//! The settings of the gateway, and how the given ones are checked.

use crate::headers::is_visible_text;
use crate::text::{same_text, text_view};
use vstd::prelude::*;
use vstd::string::*;

verus! {

/// Where the gateway listens unless told otherwise.
pub const DEFAULT_LISTEN: &'static str = "0.0.0.0:8080";

/// Seconds of silence, unless told otherwise, after which a heartbeat is sent.
pub const DEFAULT_HEARTBEAT_INTERVAL: u64 = 60;

/// Seconds, unless told otherwise, in which a connection to the upstream has to come about.
pub const DEFAULT_CONNECT_TIMEOUT: u64 = 10;

/// Seconds, unless told otherwise, that open connections get to finish at shutdown.
pub const DEFAULT_SHUTDOWN_TIMEOUT: u64 = 30;

/// Bytes of a request body, unless told otherwise, that are read ahead to look into it.
pub const DEFAULT_MAX_PROBE_BODY: usize = 33554432;

/// The settings as they were given.
#[derive(Debug, Clone)]
pub struct Config {
    /// The address to listen on.
    pub listen: String,
    /// The base address of the upstream, such as `http://host:port`.
    pub upstream: String,
    /// Seconds of silence after which a heartbeat is sent.
    pub heartbeat_interval: u64,
    /// Seconds in which a connection to the upstream has to come about.
    pub connect_timeout: u64,
    /// Seconds that open connections get to finish at shutdown.
    pub shutdown_timeout: u64,
    /// Bytes of a request body that are read ahead to look into it.
    pub max_probe_body: usize,
}

/// The settings, checked.
#[derive(Debug, Clone)]
pub struct ResolvedConfig {
    /// The address to listen on.
    pub listen: String,
    /// The base address of the upstream.
    pub upstream: String,
    /// The host, and the port if given, of the upstream.
    pub upstream_authority: String,
    /// Seconds of silence after which a heartbeat is sent.
    pub heartbeat_interval: u64,
    /// Seconds in which a connection to the upstream has to come about.
    pub connect_timeout: u64,
    /// Seconds that open connections get to finish at shutdown.
    pub shutdown_timeout: u64,
    /// Bytes of a request body that are read ahead to look into it.
    pub max_probe_body: usize,
}

/// The parts of a URI that a base address is judged by.
pub struct UriParts {
    /// The scheme, if the URI has one.
    pub scheme: Option<String>,
    /// The host, and the port if given, if the URI has them.
    pub authority: Option<String>,
    /// The path, which may be empty.
    pub path: String,
}

/// What the `http` crate reads a text as: the scheme, the authority and the path of a URI, or
/// the text of the error where it is none.
pub uninterp spec fn parsed_uri(text: Seq<char>) -> Result<
    (Option<Seq<char>>, Option<Seq<char>>, Seq<char>),
    Seq<char>,
>;

/// The texts of the parts of a URI, or of the error.
pub open spec fn uri_view(parts: Result<UriParts, String>) -> Result<
    (Option<Seq<char>>, Option<Seq<char>>, Seq<char>),
    Seq<char>,
> {
    match parts {
        Ok(p) => Ok((text_view(p.scheme), text_view(p.authority), p.path@)),
        Err(e) => Err(e@),
    }
}

/// `http::Uri`'s `from_str`, `scheme_str`, `authority` and `path`, and the text of the error. An
/// authority is made of visible ASCII characters.
#[verifier::external_body]
fn parse_uri(text: &str) -> (res: Result<UriParts, String>)
    ensures
        uri_view(res) == parsed_uri(text@),
        res matches Ok(p) ==> (p.authority matches Some(a) ==> is_visible_text(a@)),
{
    match text.parse::<http::Uri>() {
        Ok(uri) => Ok(
            UriParts {
                scheme: uri.scheme_str().map(|s| s.to_owned()),
                authority: uri.authority().map(|a| a.as_str().to_owned()),
                path: uri.path().to_owned(),
            },
        ),
        Err(e) => Err(e.to_string()),
    }
}

/// What is wrong with the base address `upstream`, which was read as `parts`: it has to be a URI
/// with the scheme `http`, a host, and no path.
pub open spec fn upstream_problem(
    upstream: Seq<char>,
    parts: Result<(Option<Seq<char>>, Option<Seq<char>>, Seq<char>), Seq<char>>,
) -> Option<Seq<char>> {
    match parts {
        Err(e) => Some("invalid --upstream `"@ + upstream + "`: "@ + e),
        Ok((scheme, authority, path)) => if scheme != Some("http"@) {
            Some(
                "--upstream must use `http://` scheme, got `"@ + (match scheme {
                    Some(s) => s,
                    None => "(none)"@,
                }) + "`"@,
            )
        } else if authority is None {
            Some("--upstream missing authority (host[:port])"@)
        } else if path != "/"@ && path.len() > 0 {
            Some("--upstream must not carry a path; got `"@ + path + "`"@)
        } else {
            None
        },
    }
}

/// Checks the base address `upstream`, which was read as `parts`, and gives its authority.
pub fn check_upstream(upstream: &str, parts: Result<UriParts, String>) -> (res: Result<
    String,
    String,
>)
    ensures
        match res {
            Ok(authority) => {
                &&& upstream_problem(upstream@, uri_view(parts)) is None
                &&& parts matches Ok(p) && p.authority == Some(authority)
            },
            Err(e) => upstream_problem(upstream@, uri_view(parts)) == Some(e@),
        },
{
    let parts = match parts {
        Ok(p) => p,
        Err(e) => {
            let mut s = "invalid --upstream `".to_owned();
            s.append(upstream);
            s.append("`: ");
            s.append(e.as_str());
            return Err(s);
        },
    };
    let scheme = match &parts.scheme {
        Some(s) => s.as_str(),
        None => {
            let mut s = "--upstream must use `http://` scheme, got `".to_owned();
            s.append("(none)");
            s.append("`");
            return Err(s);
        },
    };
    if !same_text(scheme, "http") {
        let mut s = "--upstream must use `http://` scheme, got `".to_owned();
        s.append(scheme);
        s.append("`");
        return Err(s);
    }
    let authority = match parts.authority {
        Some(a) => a,
        None => return Err("--upstream missing authority (host[:port])".to_owned()),
    };
    if !same_text(parts.path.as_str(), "/") && !parts.path.as_str().is_empty() {
        let mut s = "--upstream must not carry a path; got `".to_owned();
        s.append(parts.path.as_str());
        s.append("`");
        return Err(s);
    }
    Ok(authority)
}

impl ResolvedConfig {
    /// The authority of the upstream can stand in a header field.
    pub open spec fn wf(self) -> bool {
        is_visible_text(self.upstream_authority@)
    }

    /// Checks the settings. Where they cannot be used, the error says why.
    pub fn parse(cfg: Config) -> (res: Result<Self, String>)
        ensures
            match res {
                Ok(r) => {
                    &&& upstream_problem(cfg.upstream@, parsed_uri(cfg.upstream@)) is None
                    &&& parsed_uri(cfg.upstream@) matches Ok((_, authority, _))
                        && authority == Some(r.upstream_authority@)
                    &&& r.wf()
                    &&& r.listen == cfg.listen
                    &&& r.upstream == cfg.upstream
                    &&& r.heartbeat_interval == cfg.heartbeat_interval
                    &&& r.connect_timeout == cfg.connect_timeout
                    &&& r.shutdown_timeout == cfg.shutdown_timeout
                    &&& r.max_probe_body == cfg.max_probe_body
                },
                Err(e) => upstream_problem(cfg.upstream@, parsed_uri(cfg.upstream@)) == Some(e@),
            },
    {
        let parts = parse_uri(cfg.upstream.as_str());
        match check_upstream(cfg.upstream.as_str(), parts) {
            Ok(authority) => Ok(
                ResolvedConfig {
                    listen: cfg.listen,
                    upstream: cfg.upstream,
                    upstream_authority: authority,
                    heartbeat_interval: cfg.heartbeat_interval,
                    connect_timeout: cfg.connect_timeout,
                    shutdown_timeout: cfg.shutdown_timeout,
                    max_probe_body: cfg.max_probe_body,
                },
            ),
            Err(e) => Err(e),
        }
    }
}

} // verus!
