//! Laws of the settings, the accept loop and the sampler.

use crate::config::{upstream_problem, uri_view, ResolvedConfig, UriParts};
use crate::headers::is_visible_text;
use crate::pprof::{next_step_of, DumpStep, SAMPLE_HZ};
use crate::server::{accept_step_of, AcceptEvent, AcceptStep};
use crate::text::text_view;
use vstd::prelude::*;

verus! {

/// A base address can be used if and only if it is a URI with the scheme `http` and an authority
/// and without a path.
pub proof fn usable_base_addresses(
    upstream: Seq<char>,
    parts: Result<(Option<Seq<char>>, Option<Seq<char>>, Seq<char>), Seq<char>>,
)
    ensures
        upstream_problem(upstream, parts) is None <==> {
            &&& parts matches Ok((scheme, authority, path))
            &&& scheme == Some("http"@)
            &&& authority is Some
            &&& path.len() == 0 || path == seq!['/']
        },
{
    reveal_strlit("/");
    assert("/"@ =~= seq!['/']);
}

/// What is said of a base address that cannot be used: the first thing that is wrong with it, with
/// the words that were found.
pub proof fn words_for_unusable_base_addresses(
    upstream: Seq<char>,
    error: Seq<char>,
    scheme: Seq<char>,
    authority: Option<Seq<char>>,
    path: Seq<char>,
)
    ensures
        upstream_problem(upstream, Err(error)) == Some(
            "invalid --upstream `"@ + upstream + "`: "@ + error,
        ),
        upstream_problem(upstream, Ok((None, authority, path))) == Some(
            "--upstream must use `http://` scheme, got `"@ + "(none)"@ + "`"@,
        ),
        scheme != "http"@ ==> upstream_problem(upstream, Ok((Some(scheme), authority, path)))
            == Some("--upstream must use `http://` scheme, got `"@ + scheme + "`"@),
        upstream_problem(upstream, Ok((Some("http"@), None, path))) == Some(
            "--upstream missing authority (host[:port])"@,
        ),
        authority is Some && path.len() > 0 && path != "/"@ ==> upstream_problem(
            upstream,
            Ok((Some("http"@), authority, path)),
        ) == Some("--upstream must not carry a path; got `"@ + path + "`"@),
{
}

/// The parts of a URI stand for their texts, and an error for its own.
pub proof fn parts_of_uris(parts: UriParts, error: String)
    ensures
        uri_view(Ok(parts)) == Ok::<
            (Option<Seq<char>>, Option<Seq<char>>, Seq<char>),
            Seq<char>,
        >((text_view(parts.scheme), text_view(parts.authority), parts.path@)),
        uri_view(Err(error)) == Err::<
            (Option<Seq<char>>, Option<Seq<char>>, Seq<char>),
            Seq<char>,
        >(error@),
{
}

/// Checked settings hold an authority of visible ASCII characters, spaces and tabs.
pub proof fn authorities_are_visible(cfg: ResolvedConfig)
    ensures
        cfg.wf() <==> forall|i: int|
            0 <= i < cfg.upstream_authority@.len() ==> (32 <= (
            #[trigger] cfg.upstream_authority@[i]) as int <= 126 || cfg.upstream_authority@[i]
                == '\t'),
{
    let s = cfg.upstream_authority@;
    if cfg.wf() {
        assert(is_visible_text(s));
    }
}

/// A connection is served, a failure to accept is followed by a rest of a tenth of a second, and
/// only a request to shut down ends the accepting, after which open connections get the given
/// time.
pub proof fn accepting(event: AcceptEvent, timeout: u64, seconds: u64)
    ensures
        accept_step_of(event, timeout) == AcceptStep::Serve <==> event == AcceptEvent::Accepted,
        accept_step_of(event, timeout) == AcceptStep::Rest(100) <==> event == AcceptEvent::Failed,
        accept_step_of(event, timeout) == AcceptStep::Drain(seconds) <==> event
            == AcceptEvent::ShutdownRequested && seconds == timeout,
{
}

/// A request for a report leads to a report; a profile is written whenever there is a report and a
/// directory, whether or not the flame graph was; and every report ends in waiting.
pub proof fn reporting(graph_written: bool, profile_written: bool)
    ensures
        next_step_of(DumpStep::Await, true) == DumpStep::BuildReport,
        next_step_of(DumpStep::BuildReport, true) == DumpStep::MakeDirectory,
        next_step_of(DumpStep::BuildReport, false) == DumpStep::Await,
        next_step_of(DumpStep::MakeDirectory, true) == DumpStep::WriteGraph,
        next_step_of(DumpStep::MakeDirectory, false) == DumpStep::Await,
        next_step_of(DumpStep::WriteGraph, graph_written) == DumpStep::WriteProfile,
        next_step_of(DumpStep::WriteProfile, profile_written) == DumpStep::Await,
        SAMPLE_HZ == 99,
{
}

} // verus!
