//! Component-level checks: the variable extractor, the matcher, the
//! benchmark and certificate checks, the dry sender, and the small
//! string utilities.
use service_policy_kit::bench::Bench;
use service_policy_kit::cert::{Cert, CertObservation};
use service_policy_kit::data::{
    Benchmark, Cause, CertificateDetail, CheckResult, Context, Interaction, ReporterOutput,
    Request, Response, Sender, VarInfo,
};
use service_policy_kit::reporters::Reporter;
use service_policy_kit::matcher::RegexMatcher;
use service_policy_kit::sender::DrySender;
use service_policy_kit::table::Dict;
use service_policy_kit::vars::extract;

fn bare_request(uri: &str) -> Request {
    Request {
        id: None,
        desc: None,
        uri: uri.to_string(),
        params: None,
        timeout_ms: None,
        method: Some("GET".to_string()),
        basic_auth: None,
        aws_auth: None,
        headers: None,
        form: None,
        body: None,
        uri_list: None,
        vars_command: None,
        vars: None,
    }
}

fn bare_response() -> Response {
    Response { request_id: None, headers: None, status_code: None, body: None, vars: None }
}

fn info(kind: &str, from: &str, expr: Option<&str>, default: Option<&str>) -> VarInfo {
    VarInfo {
        expr: expr.map(|e| e.to_string()),
        kind: kind.to_string(),
        from: from.to_string(),
        default: default.map(|d| d.to_string()),
    }
}

fn test_infos() -> Dict<VarInfo> {
    let mut infos: Dict<VarInfo> = Dict::new();
    infos.insert("auth".to_string(), info("regex", "/body", Some("Auth (.*)"), None));
    infos.insert(
        "person_name".to_string(),
        info("json", "/body/person/name", Some("(.*)"), None),
    );
    infos.insert(
        "token".to_string(),
        info("regex", "/headers/Authentication/0", Some("Bearer (.*)"), Some("")),
    );
    infos.insert(
        "body_default".to_string(),
        info("regex", "body", Some("(.*)"), Some("meh-body")),
    );
    infos.insert(
        "headers_default".to_string(),
        info("regex", "/headers/Foobar", Some("(.*)"), Some("meh-headers")),
    );
    infos
}

#[test]
fn test_vars() {
    let infos = test_infos();

    let mut resp = bare_response();
    resp.body = Some("{\"person\":{\"name\":\"joe\"}}".to_string());
    resp.status_code = Some("200".to_string());
    resp.headers = Some(Dict::new());
    let vars = extract(&resp, &infos).unwrap();
    assert_eq!(vars.get("person_name").unwrap().as_str(), "joe", "person_name");

    let mut resp = bare_response();
    resp.body = Some("Auth 1337".to_string());
    resp.status_code = Some("200".to_string());
    resp.headers = Some(Dict::new());
    let vars = extract(&resp, &infos).unwrap();
    assert_eq!(vars.get("auth").unwrap().as_str(), "1337", "auth");

    let mut headers: Dict<Vec<String>> = Dict::new();
    headers.insert(
        "Authentication".to_string(),
        vec!["Bearer 000foobar000".to_string()],
    );
    let mut resp = bare_response();
    resp.body = Some("hello world".to_string());
    resp.status_code = Some("200".to_string());
    resp.headers = Some(headers);
    let vars = extract(&resp, &infos).unwrap();
    assert_eq!(vars.get("token").unwrap().as_str(), "000foobar000", "token");
    assert_eq!(vars.get("body_default").unwrap().as_str(), "meh-body", "body_default");
    assert_eq!(vars.get("headers_default").unwrap().as_str(), "meh-headers", "headers_default");
}

#[test]
fn extracted_vars_match_when_recorded_back() {
    let mut infos: Dict<VarInfo> = Dict::new();
    infos.insert("auth".to_string(), info("regex", "/body", Some("Auth (.*)"), None));
    let mut wire = bare_response();
    wire.body = Some("Auth 1337".to_string());
    let extracted = extract(&wire, &infos).unwrap();
    let mut wire2 = bare_response();
    wire2.body = Some("Auth 1337".to_string());
    wire2.vars = Some(extracted);
    let mut recorded = bare_response();
    let mut rec_vars: Dict<String> = Dict::new();
    rec_vars.insert("auth".to_string(), "1337".to_string());
    recorded.vars = Some(rec_vars);
    let matcher = RegexMatcher::new("content");
    let violations = matcher.is_match(&wire2, Some(&recorded)).unwrap();
    assert_eq!(violations.len(), 0);
}

#[test]
fn header_matching_is_case_insensitive_on_recorded_keys() {
    let matcher = RegexMatcher::new("content");
    let mut wire_headers: Dict<Vec<String>> = Dict::new();
    wire_headers.insert("content-type".to_string(), vec!["text/plain".to_string()]);
    let mut wire = bare_response();
    wire.headers = Some(wire_headers);

    for key in ["Content-Type", "content-type", "CONTENT-TYPE"] {
        let mut rec_headers: Dict<Vec<String>> = Dict::new();
        rec_headers.insert(key.to_string(), vec!["text/.*".to_string()]);
        let mut rec = bare_response();
        rec.headers = Some(rec_headers);
        let violations = matcher.is_match(&wire, Some(&rec)).unwrap();
        assert_eq!(violations.len(), 0, "key case {}", key);
    }

    let mut rec_headers: Dict<Vec<String>> = Dict::new();
    rec_headers.insert("X-Missing".to_string(), vec![".*".to_string()]);
    let mut rec = bare_response();
    rec.headers = Some(rec_headers);
    let violations = matcher.is_match(&wire, Some(&rec)).unwrap();
    assert_eq!(violations.len(), 1);
    assert_eq!(violations[0].on.clone().unwrap(), "x-missing");
}

#[test]
fn missing_recorded_response_is_a_single_finding() {
    let matcher = RegexMatcher::new("content");
    let wire = bare_response();
    let violations = matcher.is_match(&wire, None).unwrap();
    assert_eq!(violations.len(), 1);
    assert!(matches!(violations[0].cause, Cause::RecordedMissing));
    assert_eq!(violations[0].subject, "response");
}

#[test]
fn matcher_rejects_bad_recorded_pattern() {
    let matcher = RegexMatcher::new("content");
    let mut wire = bare_response();
    wire.body = Some("anything".to_string());
    let mut rec = bare_response();
    rec.body = Some("(".to_string());
    assert!(matcher.is_match(&wire, Some(&rec)).is_err());
}

/// A transport that takes a fixed time to answer.
struct SlowSender {
    delay_ms: u64,
}

impl Sender for SlowSender {
    fn send(&self, interaction: &Interaction) -> Result<Response, String> {
        let start = std::time::Instant::now();
        while (start.elapsed().as_millis() as u64) < self.delay_ms {}
        let mut r = bare_response();
        r.request_id = Some(interaction.request.get_id());
        r.status_code = Some("200".to_string());
        r.body = Some("ok".to_string());
        Ok(r)
    }
}

fn bench_interaction(times: u64, p95_ms: u64) -> Interaction {
    Interaction {
        request: bare_request("http://h/x"),
        response: None,
        invalid: None,
        examples: None,
        benchmark: Some(Benchmark {
            times,
            avg_ms: 1_000_000,
            p95_ms,
            p99_ms: 1_000_000,
            time_ms: 1_000_000_000,
        }),
        cert: None,
    }
}

#[test]
fn benchmark_over_budget_reports_p95() {
    let sender = SlowSender { delay_ms: 50 };
    let bench = Bench::new(&sender);
    let mut ctx = Context::new();
    let result = bench.perform(&mut ctx, &bench_interaction(5, 10));
    assert!(result.error.is_none());
    assert_eq!(result.violations.len(), 1);
    assert_eq!(result.violations[0].subject, "p95");
    assert_eq!(result.violations[0].recorded, "10");
    let wire: u64 = result.violations[0].wire.clone().unwrap().parse().unwrap();
    assert!(wire >= 50, "measured p95 was {}", wire);
}

#[test]
fn benchmark_with_zero_samples_is_an_error() {
    let sender = SlowSender { delay_ms: 0 };
    let bench = Bench::new(&sender);
    let mut ctx = Context::new();
    let result = bench.perform(&mut ctx, &bench_interaction(0, 10));
    assert!(result.error.is_some());
    assert_eq!(result.violations.len(), 0);
}

#[test]
fn benchmark_without_benchmark_is_invalid_check() {
    let sender = SlowSender { delay_ms: 0 };
    let bench = Bench::new(&sender);
    let mut ctx = Context::new();
    let mut inter = bench_interaction(1, 10);
    inter.benchmark = None;
    let result = bench.perform(&mut ctx, &inter);
    assert_eq!(result.error.clone().unwrap(), "Invalid check");
    assert_eq!(result.duration, Some(0));
}

fn cert_interaction(max_days: u64, issuer: Option<&str>, subject: Option<&str>) -> Interaction {
    Interaction {
        request: bare_request("https://h/x"),
        response: None,
        invalid: None,
        examples: None,
        benchmark: None,
        cert: Some(CertificateDetail {
            max_days,
            subject: subject.map(|s| s.to_string()),
            issuer: issuer.map(|s| s.to_string()),
        }),
    }
}

fn observation(not_after_unix: i64) -> CertObservation {
    CertObservation {
        not_after_unix,
        not_after_repr: "2031-01-01T00:00:00Z".to_string(),
        issuer: "CN=Example Root CA".to_string(),
        subject: "CN=example.com".to_string(),
    }
}

#[test]
fn certificate_expiring_within_budget_is_a_violation() {
    let cert = Cert::new();
    let now: i64 = 1_700_000_000;
    let ten_days: i64 = 10 * 86400;
    let inter = cert_interaction(30, None, None);
    let result = cert.evaluate(&inter, Ok(observation(now + ten_days)), now, 7);
    assert!(result.error.is_none());
    assert_eq!(result.violations.len(), 1);
    assert_eq!(result.violations[0].subject, "expiry");
    assert_eq!(
        result.violations[0].wire.clone().unwrap(),
        "2031-01-01T00:00:00Z, (10 days left)"
    );
    assert_eq!(result.violations[0].recorded, "> 30 days");
}

#[test]
fn certificate_with_ample_time_and_matching_names_passes() {
    let cert = Cert::new();
    let now: i64 = 1_700_000_000;
    let year: i64 = 365 * 86400;
    let inter = cert_interaction(30, Some("Example Root"), Some("example\\.com"));
    let result = cert.evaluate(&inter, Ok(observation(now + year)), now, 3);
    assert!(result.error.is_none());
    assert_eq!(result.violations.len(), 0);
}

#[test]
fn certificate_issuer_mismatch_is_a_violation() {
    let cert = Cert::new();
    let now: i64 = 1_700_000_000;
    let year: i64 = 365 * 86400;
    let inter = cert_interaction(30, Some("Another Authority"), None);
    let result = cert.evaluate(&inter, Ok(observation(now + year)), now, 3);
    assert_eq!(result.violations.len(), 1);
    assert_eq!(result.violations[0].subject, "issuer");
    assert_eq!(result.violations[0].wire.clone().unwrap(), "CN=Example Root CA");
}

#[test]
fn certificate_connection_failure_is_an_error_finding() {
    let cert = Cert::new();
    let inter = cert_interaction(30, None, None);
    let result = cert.evaluate(&inter, Err("connection refused".to_string()), 0, 2);
    assert_eq!(result.violations.len(), 1);
    assert!(matches!(result.violations[0].cause, Cause::Error));
    assert_eq!(result.violations[0].wire.clone().unwrap(), "error: connection refused");
}

#[test]
fn certificate_check_without_cert_is_invalid() {
    let cert = Cert::new();
    let mut inter = cert_interaction(30, None, None);
    inter.cert = None;
    let result = cert.evaluate(&inter, Err("unused".to_string()), 0, 0);
    assert_eq!(result.error.clone().unwrap(), "Invalid check");
    assert_eq!(result.duration, Some(0));
}

#[test]
fn dry_sender_replays_examples_and_falls_back() {
    let dry = DrySender::new("ok");
    let mut examples: Dict<Response> = Dict::new();
    let mut ex = bare_response();
    ex.status_code = Some("201".to_string());
    ex.body = Some("hello".to_string());
    examples.insert("ok".to_string(), ex);
    let mut req = bare_request("http://h/x");
    req.id = Some("sample".to_string());
    let inter = Interaction {
        request: req,
        response: None,
        invalid: None,
        examples: Some(examples),
        benchmark: None,
        cert: None,
    };
    let replayed = dry.send(&inter).unwrap();
    assert_eq!(replayed.status_code.unwrap(), "201");
    assert_eq!(replayed.body.unwrap(), "hello");

    let other = DrySender::new("absent");
    let canned = other.send(&inter).unwrap();
    assert_eq!(canned.status_code.unwrap(), "200");
    assert_eq!(canned.body.unwrap(), "{ \"ok\": true }");
    assert_eq!(canned.request_id.unwrap(), "sample");
}

/// A sink that counts the events it sees.
struct CountingSink {
    starts: usize,
    reports: usize,
    ends: usize,
}

impl ReporterOutput for CountingSink {
    fn start(&mut self, _interaction: &Interaction) {
        self.starts += 1;
    }

    fn report(&mut self, _interaction: &Interaction, _check_result: &CheckResult) {
        self.reports += 1;
    }

    fn end(&mut self, _interactions: &[Interaction], _results: &[CheckResult]) {
        self.ends += 1;
    }
}

#[test]
fn reporter_fans_events_out_to_every_sink() {
    let sinks = vec![
        CountingSink { starts: 0, reports: 0, ends: 0 },
        CountingSink { starts: 0, reports: 0, ends: 0 },
    ];
    let mut reporter = Reporter::new(sinks);
    let inter = Interaction {
        request: bare_request("http://h/x"),
        response: None,
        invalid: None,
        examples: None,
        benchmark: None,
        cert: None,
    };
    reporter.start(&inter);
    reporter.start(&inter);
    reporter.end(&[], &[]);
    for sink in &reporter.outputs {
        assert_eq!(sink.starts, 2);
        assert_eq!(sink.reports, 0);
        assert_eq!(sink.ends, 1);
    }
}

#[test]
fn header_entry_needs_every_recorded_pattern_matched() {
    let matcher = RegexMatcher::new("content");
    let mut wire_headers: Dict<Vec<String>> = Dict::new();
    wire_headers.insert("content-type".to_string(), vec!["text/plain".to_string()]);
    let mut wire = bare_response();
    wire.headers = Some(wire_headers);

    let mut rec_headers: Dict<Vec<String>> = Dict::new();
    rec_headers.insert(
        "Content-Type".to_string(),
        vec!["text/.*".to_string(), "charset=.*".to_string()],
    );
    let mut rec = bare_response();
    rec.headers = Some(rec_headers);
    let violations = matcher.is_match(&wire, Some(&rec)).unwrap();
    assert_eq!(violations.len(), 1, "one pattern unmatched fails the entry");
    assert_eq!(violations[0].on.clone().unwrap(), "content-type");

    let mut wire_headers: Dict<Vec<String>> = Dict::new();
    wire_headers.insert(
        "content-type".to_string(),
        vec!["text/plain".to_string(), "charset=utf-8".to_string()],
    );
    let mut wire = bare_response();
    wire.headers = Some(wire_headers);
    let mut rec_headers: Dict<Vec<String>> = Dict::new();
    rec_headers.insert(
        "Content-Type".to_string(),
        vec!["text/.*".to_string(), "charset=.*".to_string()],
    );
    let mut rec = bare_response();
    rec.headers = Some(rec_headers);
    let violations = matcher.is_match(&wire, Some(&rec)).unwrap();
    assert_eq!(violations.len(), 0, "each pattern matched by some value passes");
}

#[test]
fn json_extraction_with_empty_pointer_normalizes_the_body() {
    let mut infos: Dict<VarInfo> = Dict::new();
    infos.insert("whole".to_string(), info("json", "", None, None));
    let mut resp = bare_response();
    resp.body = Some("{ \"a\" : 1 }".to_string());
    resp.status_code = Some("200".to_string());
    let vars = extract(&resp, &infos).unwrap();
    assert_eq!(
        vars.get("whole").unwrap().as_str(),
        "{\"body\":{\"a\":1},\"headers\":null,\"status\":\"200\"}"
    );
}

#[test]
fn array_indexes_with_leading_zeros_fall_back_to_the_default() {
    let mut infos: Dict<VarInfo> = Dict::new();
    infos.insert(
        "padded".to_string(),
        info("regex", "/headers/Authentication/00", None, Some("d")),
    );
    infos.insert(
        "plain".to_string(),
        info("regex", "/headers/Authentication/0", None, Some("d")),
    );
    let mut headers: Dict<Vec<String>> = Dict::new();
    headers.insert("Authentication".to_string(), vec!["x".to_string()]);
    let mut resp = bare_response();
    resp.headers = Some(headers);
    let vars = extract(&resp, &infos).unwrap();
    assert_eq!(vars.get("padded").unwrap().as_str(), "d");
    assert_eq!(vars.get("plain").unwrap().as_str(), "x");
}
