//! End-to-end scenarios: chained interactions, JSON extraction,
//! defaults, the invalid-response guard, flip polarity, and the
//! aggregate verdict.
use service_policy_kit::content::ContentCheck;
use service_policy_kit::data::{
    Context, Interaction, Param, Request, Response, Sender, VarInfo, Violation,
};
use service_policy_kit::sender::DrySender;
use service_policy_kit::reporters::NullReporter;
use service_policy_kit::runner::SequenceRunner;
use service_policy_kit::table::Dict;

/// A transport that answers by looking the URI up in a routing table,
/// after the placeholders have been substituted.
struct RouteSender {
    routes: Vec<(String, String, String)>,
}

impl RouteSender {
    fn new(routes: &[(&str, &str, &str)]) -> Self {
        RouteSender {
            routes: routes
                .iter()
                .map(|(p, s, b)| (p.to_string(), s.to_string(), b.to_string()))
                .collect(),
        }
    }
}

impl Sender for RouteSender {
    fn send(&self, interaction: &Interaction) -> Result<Response, String> {
        for (path, status, body) in &self.routes {
            if interaction.request.uri.ends_with(path.as_str()) {
                return Ok(Response {
                    request_id: Some(interaction.request.get_id()),
                    headers: None,
                    status_code: Some(status.clone()),
                    body: Some(body.clone()),
                    vars: None,
                });
            }
        }
        Err(format!("no route for {}", interaction.request.uri))
    }
}

fn bare_request(uri: &str) -> Request {
    Request {
        id: None,
        desc: None,
        uri: uri.to_string(),
        params: None,
        timeout_ms: None,
        method: Some("GET".to_string()),
        basic_auth: None,
        aws_auth: None,
        headers: None,
        form: None,
        body: None,
        uri_list: None,
        vars_command: None,
        vars: None,
    }
}

fn bare_response() -> Response {
    Response { request_id: None, headers: None, status_code: None, body: None, vars: None }
}

fn interaction_of(request: Request, response: Option<Response>) -> Interaction {
    Interaction { request, response, invalid: None, examples: None, benchmark: None, cert: None }
}

fn var_info(kind: &str, from: &str, expr: Option<&str>, default: Option<&str>) -> VarInfo {
    VarInfo {
        expr: expr.map(|e| e.to_string()),
        kind: kind.to_string(),
        from: from.to_string(),
        default: default.map(|d| d.to_string()),
    }
}

fn simple_sequence() -> Vec<Interaction> {
    let mut vars: Dict<VarInfo> = Dict::new();
    vars.insert(
        "next".to_string(),
        var_info("regex", "/body", Some("next: (.*)"), None),
    );
    let mut req1 = bare_request("http://{{host}}/one");
    req1.vars = Some(vars);
    let mut resp1 = bare_response();
    resp1.body = Some("next: two".to_string());
    let mut resp2 = bare_response();
    resp2.body = Some("three".to_string());
    vec![
        interaction_of(req1, Some(resp1)),
        interaction_of(bare_request("http://{{host}}/{{next}}"), Some(resp2)),
    ]
}

fn run_seq(sender: &RouteSender, sequence: &Vec<Interaction>, flip: bool) -> (bool, Vec<Violation>) {
    let mut ctx = Context::new();
    ctx.vars_bag.insert("host".to_string(), "testhost".to_string());
    let runner = SequenceRunner::new(sender, flip);
    let mut reporter = NullReporter {};
    let report = runner.run(&mut ctx, sequence, &mut reporter);
    let mut violations = vec![];
    for r in &report.results {
        for v in &r.violations {
            violations.push(v.clone());
        }
    }
    (report.ok, violations)
}

#[test]
fn test_passing_interaction_with_vars() {
    let sender = RouteSender::new(&[("/one", "200", "next: two"), ("/two", "200", "three")]);
    let (ok, violations) = run_seq(&sender, &simple_sequence(), false);
    assert_eq!(violations.len(), 0);
    assert!(ok);
}

#[test]
fn test_failing_interaction_with_vars() {
    let sender = RouteSender::new(&[("/one", "200", "next: two"), ("/two", "200", "four")]);
    let (_, violations) = run_seq(&sender, &simple_sequence(), false);
    assert_eq!(violations[0].wire.clone().unwrap(), "four");
    assert_eq!(violations[0].recorded, "three");
}

fn json_sequence(from: &str, default: Option<&str>, expected2: &str) -> Vec<Interaction> {
    let mut vars: Dict<VarInfo> = Dict::new();
    vars.insert("name".to_string(), var_info("json", from, Some("(.*)"), default));
    let mut req1 = bare_request("http://{{host}}/api");
    req1.vars = Some(vars);
    let mut resp2 = bare_response();
    resp2.body = Some(expected2.to_string());
    vec![
        interaction_of(req1, Some(bare_response())),
        interaction_of(bare_request("http://{{host}}/{{name}}"), Some(resp2)),
    ]
}

#[test]
fn test_json_api() {
    let sender = RouteSender::new(&[
        ("/api", "200", "{\"person\":{\"name\":\"joe\"}}"),
        ("/joe", "200", "hello, joe"),
    ]);
    let seq = json_sequence("/body/person/name", None, "hello, joe");
    let (ok, violations) = run_seq(&sender, &seq, false);
    println!("{:?}", violations);
    assert_eq!(violations.len(), 0);
    assert!(ok);
}

#[test]
fn test_with_default_vars() {
    let sender = RouteSender::new(&[
        ("/api", "200", "{\"person\":{\"pickup\":\"phone\"}}"),
        ("/armstrong", "200", "hello, erlang"),
    ]);
    let seq = json_sequence("/body/person/name", Some("armstrong"), "hello, erlang");
    let (ok, violations) = run_seq(&sender, &seq, false);
    println!("{:?}", violations);
    assert_eq!(violations.len(), 0);
    assert!(ok);
}

fn status_sequence(expectations: &[(&str, &str)]) -> Vec<Interaction> {
    expectations
        .iter()
        .map(|(path, status)| {
            let mut resp = bare_response();
            resp.status_code = Some(status.to_string());
            interaction_of(bare_request(&format!("http://{{{{host}}}}{}", path)), Some(resp))
        })
        .collect()
}

#[test]
fn test_runner_return_status_no_violations() {
    let sender = RouteSender::new(&[("/api/ok", "200", "")]);
    let seq = status_sequence(&[("/api/ok", "200")]);
    let (ok, _) = run_seq(&sender, &seq, false);
    assert_eq!(ok, true);
}

#[test]
fn test_runner_return_status_with_violations() {
    let sender = RouteSender::new(&[("/api/ok", "400", "")]);
    let seq = status_sequence(&[("/api/ok", "200")]);
    let (ok, _) = run_seq(&sender, &seq, false);
    assert_eq!(ok, false);
}

#[test]
fn test_runner_return_status_with_some_violations() {
    let sender = RouteSender::new(&[("/api/ok", "200", ""), ("/api/error", "200", "")]);
    let seq = status_sequence(&[("/api/ok", "200"), ("/api/error", "500")]);
    let (ok, _) = run_seq(&sender, &seq, false);
    assert_eq!(ok, false);
}

#[test]
fn test_runner_flip_return_status_no_violations() {
    let sender = RouteSender::new(&[("/api/ok", "200", "")]);
    let seq = status_sequence(&[("/api/ok", "200")]);
    let (ok, _) = run_seq(&sender, &seq, true);
    assert_eq!(ok, false);
}

#[test]
fn test_runner_flip_return_status_with_violations() {
    let sender = RouteSender::new(&[("/api/ok", "400", "")]);
    let seq = status_sequence(&[("/api/ok", "200")]);
    let (ok, _) = run_seq(&sender, &seq, true);
    assert_eq!(ok, true);
}

#[test]
fn test_runner_flip_return_status_with_some_violations() {
    let sender = RouteSender::new(&[("/api/ok", "200", ""), ("/api/error", "200", "")]);
    let seq = status_sequence(&[("/api/ok", "200"), ("/api/error", "500")]);
    let (ok, _) = run_seq(&sender, &seq, true);
    assert_eq!(ok, false);
}

#[test]
fn empty_sequence_is_ok_under_both_polarities() {
    let sender = RouteSender::new(&[]);
    let seq: Vec<Interaction> = vec![];
    let (ok_normal, _) = run_seq(&sender, &seq, false);
    let (ok_flip, _) = run_seq(&sender, &seq, true);
    assert!(ok_normal);
    assert!(ok_flip);
}

#[test]
fn invalid_response_guard_reports_error() {
    let sender = RouteSender::new(&[("/guarded", "200", "banned")]);
    let mut expected = bare_response();
    expected.body = Some("ok".to_string());
    let mut invalid = bare_response();
    invalid.body = Some("banned".to_string());
    let mut inter = interaction_of(bare_request("http://{{host}}/guarded"), Some(expected));
    inter.invalid = Some(invalid);
    let seq = vec![inter];
    let mut ctx = Context::new();
    ctx.vars_bag.insert("host".to_string(), "testhost".to_string());
    let runner = SequenceRunner::new(&sender, false);
    let mut reporter = NullReporter {};
    let report = runner.run(&mut ctx, &seq, &mut reporter);
    assert_eq!(report.ok, false);
    assert_eq!(report.results[0].error.clone().unwrap(), "matched invalid response");
    assert_eq!(report.results[0].violations.len(), 0);
}

#[test]
fn interaction_without_expectations_is_invalid_check() {
    let sender = RouteSender::new(&[]);
    let inter = interaction_of(bare_request("http://somewhere/x"), None);
    let mut ctx = Context::new();
    let check = ContentCheck::new(&sender);
    let result = check.perform(&mut ctx, &inter);
    assert_eq!(result.error.clone().unwrap(), "Invalid check");
    assert_eq!(result.duration, Some(0));
    assert_eq!(result.violations.len(), 0);
}

#[test]
fn bad_recorded_regex_is_an_error_not_a_pass() {
    let sender = RouteSender::new(&[("/x", "200", "anything")]);
    let mut resp = bare_response();
    resp.body = Some("(".to_string());
    let seq = vec![interaction_of(bare_request("http://{{host}}/x"), Some(resp))];
    let (ok, violations) = run_seq(&sender, &seq, false);
    assert_eq!(ok, false);
    assert_eq!(violations.len(), 0);
}

#[test]
fn missing_params_fail_the_step_with_a_report() {
    let sender = RouteSender::new(&[("/x", "200", "")]);
    let mut req = bare_request("http://h/x");
    req.params = Some(vec![Param {
        name: "token".to_string(),
        desc: "the access token".to_string(),
    }]);
    let inter = interaction_of(req, Some(bare_response()));
    let mut ctx = Context::new();
    let err = inter.ensure_requirements(&ctx).unwrap_err();
    assert_eq!(err, "Missing required params:\nname: token\ndescription: the access token\n");
    ctx.vars_bag.insert("token".to_string(), "t".to_string());
    assert!(inter.ensure_requirements(&ctx).is_ok());
}

#[test]
fn context_absorbs_extracted_vars_and_response() {
    let sender = RouteSender::new(&[("/one", "200", "next: two")]);
    let mut vars: Dict<VarInfo> = Dict::new();
    vars.insert("next".to_string(), var_info("regex", "/body", Some("next: (.*)"), None));
    let mut req = bare_request("http://{{host}}/one");
    req.id = Some("step-one".to_string());
    req.vars = Some(vars);
    let inter = interaction_of(req, Some(bare_response()));
    let mut ctx = Context::new();
    ctx.vars_bag.insert("host".to_string(), "testhost".to_string());
    let resp = inter.send_with_context(&sender, &mut ctx).unwrap();
    assert_eq!(resp.vars.as_ref().unwrap().get("next").unwrap().as_str(), "two");
    assert_eq!(ctx.vars_bag.get("next").unwrap().as_str(), "two");
    let saved = ctx.response_bag.get("step-one").unwrap();
    assert_eq!(saved.body.as_ref().unwrap().as_str(), "next: two");
}

#[test]
fn failed_vars_command_leaves_bindings_empty() {
    let sender = RouteSender::new(&[("/one", "200", "fine")]);
    let mut req = bare_request("http://{{host}}/one");
    req.vars_command = Some("this-binary-does-not-exist-anywhere".to_string());
    let mut resp = bare_response();
    resp.body = Some("fine".to_string());
    let seq = vec![interaction_of(req, Some(resp))];
    let (ok, violations) = run_seq(&sender, &seq, false);
    assert!(ok);
    assert_eq!(violations.len(), 0);
}

#[test]
fn deterministic_runs_agree() {
    let dry = DrySender::new("ok");
    let mut resp = bare_response();
    resp.body = Some("ok: true".to_string());
    let seq = vec![interaction_of(bare_request("http://h/x"), Some(resp))];
    let run_once = || {
        let mut ctx = Context::new();
        let runner = SequenceRunner::new(&dry, false);
        let mut reporter = NullReporter {};
        let report = runner.run(&mut ctx, &seq, &mut reporter);
        report
            .results
            .iter()
            .flat_map(|r| r.violations.clone())
            .map(|v| format!("{:?}", v))
            .collect::<Vec<_>>()
    };
    assert_eq!(run_once(), run_once());
}
