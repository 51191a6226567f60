//! Settings, the accept loop and the sampler.

use keep_sse::config::{
    check_upstream, Config, ResolvedConfig, UriParts, DEFAULT_CONNECT_TIMEOUT,
    DEFAULT_HEARTBEAT_INTERVAL, DEFAULT_LISTEN, DEFAULT_MAX_PROBE_BODY, DEFAULT_SHUTDOWN_TIMEOUT,
};
use keep_sse::pprof::{dump_dir, enabled, next_step, report_names, DumpStep};
use keep_sse::server::{accept_step, AcceptEvent, AcceptStep};

fn with_upstream(upstream: &str) -> Config {
    Config {
        listen: "0.0.0.0:8080".to_string(),
        upstream: upstream.to_string(),
        heartbeat_interval: 1,
        connect_timeout: 2,
        shutdown_timeout: 3,
        max_probe_body: 4,
    }
}

fn error_of(upstream: &str) -> String {
    match ResolvedConfig::parse(with_upstream(upstream)) {
        Ok(_) => panic!("{upstream} was accepted"),
        Err(e) => e,
    }
}

#[test]
fn base_addresses_that_can_be_used() {
    for (upstream, authority) in [
        ("http://localhost:11434", "localhost:11434"),
        ("http://localhost:11434/", "localhost:11434"),
        ("HTTP://model.test", "model.test"),
        ("http://[::1]:80", "[::1]:80"),
        ("http://model.test?x=1", "model.test"),
    ] {
        let cfg = match ResolvedConfig::parse(with_upstream(upstream)) {
            Ok(cfg) => cfg,
            Err(e) => panic!("{upstream}: {e}"),
        };
        assert_eq!(cfg.upstream_authority, authority);
        assert_eq!(cfg.upstream, upstream);
        assert_eq!(cfg.listen, "0.0.0.0:8080");
        assert_eq!(cfg.heartbeat_interval, 1);
        assert_eq!(cfg.connect_timeout, 2);
        assert_eq!(cfg.shutdown_timeout, 3);
        assert_eq!(cfg.max_probe_body, 4);
    }
}

#[test]
fn base_addresses_that_cannot_be_used() {
    assert_eq!(
        error_of("https://model.test"),
        "--upstream must use `http://` scheme, got `https`"
    );
    assert_eq!(
        error_of("model.test:80"),
        "--upstream must use `http://` scheme, got `(none)`"
    );
    assert_eq!(
        error_of("/v1"),
        "--upstream must use `http://` scheme, got `(none)`"
    );
    assert_eq!(
        error_of("http://model.test/v1"),
        "--upstream must not carry a path; got `/v1`"
    );
    assert_eq!(
        error_of("http://mo del"),
        "invalid --upstream `http://mo del`: invalid uri character"
    );
    assert_eq!(error_of(""), "invalid --upstream ``: empty string");
}

#[test]
fn parts_of_a_base_address_are_judged_in_turn() {
    let parts = |scheme: Option<&str>, authority: Option<&str>, path: &str| {
        Ok(UriParts {
            scheme: scheme.map(str::to_string),
            authority: authority.map(str::to_string),
            path: path.to_string(),
        })
    };
    assert_eq!(
        check_upstream("u", parts(Some("http"), Some("h"), "")),
        Ok("h".to_string())
    );
    assert_eq!(
        check_upstream("u", parts(Some("http"), None, "/x")),
        Err("--upstream missing authority (host[:port])".to_string())
    );
    assert_eq!(
        check_upstream("u", parts(Some("ftp"), None, "/x")),
        Err("--upstream must use `http://` scheme, got `ftp`".to_string())
    );
    assert_eq!(
        check_upstream("u", Err("why".to_string())),
        Err("invalid --upstream `u`: why".to_string())
    );
}

#[test]
fn settings_unless_told_otherwise() {
    assert_eq!(DEFAULT_LISTEN, "0.0.0.0:8080");
    assert_eq!(DEFAULT_HEARTBEAT_INTERVAL, 60);
    assert_eq!(DEFAULT_CONNECT_TIMEOUT, 10);
    assert_eq!(DEFAULT_SHUTDOWN_TIMEOUT, 30);
    assert_eq!(DEFAULT_MAX_PROBE_BODY, 32 * 1024 * 1024);
}

#[test]
fn accept_loop() {
    assert_eq!(accept_step(AcceptEvent::Accepted, 30), AcceptStep::Serve);
    assert_eq!(accept_step(AcceptEvent::Failed, 30), AcceptStep::Rest(100));
    assert_eq!(
        accept_step(AcceptEvent::ShutdownRequested, 30),
        AcceptStep::Drain(30)
    );
}

#[test]
fn sampler_runs_only_when_asked() {
    assert!(enabled(Some("1")));
    assert!(!enabled(Some("0")));
    assert!(!enabled(Some("true")));
    assert!(!enabled(Some("")));
    assert!(!enabled(None));
    assert_eq!(dump_dir(None), "/tmp");
    assert_eq!(dump_dir(Some("/var/tmp")), "/var/tmp");
}

#[test]
fn reports_are_named_by_the_time() {
    assert_eq!(
        report_names(1751700000),
        (
            "keep-sse-1751700000.svg".to_string(),
            "keep-sse-1751700000.pb".to_string()
        )
    );
    assert_eq!(report_names(0).0, "keep-sse-0.svg");
    assert_eq!(report_names(u64::MAX).1, "keep-sse-18446744073709551615.pb");
}

#[test]
fn reports_come_to_an_end() {
    assert_eq!(next_step(DumpStep::Await, true), DumpStep::BuildReport);
    assert_eq!(next_step(DumpStep::BuildReport, false), DumpStep::Await);
    assert_eq!(next_step(DumpStep::MakeDirectory, false), DumpStep::Await);
    assert_eq!(next_step(DumpStep::WriteGraph, false), DumpStep::WriteProfile);
    for outcomes in 0..16u32 {
        let mut step = DumpStep::BuildReport;
        let mut steps = 0;
        while step != DumpStep::Await {
            step = next_step(step, outcomes >> steps & 1 == 1);
            steps += 1;
            assert!(steps <= 4);
        }
    }
}
