//! Unit checks of the verified building blocks: substitution, the JSON
//! emitter, rendering and identifiers.
use service_policy_kit::discovery::OpenAPI;
use service_policy_kit::data::{
    AWSAuth, BasicAuth, Benchmark, CertificateDetail, Context, Interaction, Request, Response,
};
use service_policy_kit::jsonio::vars_command_message_exec;
use service_policy_kit::render::render_with_vars;
use service_policy_kit::table::Dict;
use service_policy_kit::text::{lower_str, replace_str, u64_to_string};

fn bare_request(uri: &str) -> Request {
    Request {
        id: None,
        desc: None,
        uri: uri.to_string(),
        params: None,
        timeout_ms: None,
        method: None,
        basic_auth: None,
        aws_auth: None,
        headers: None,
        form: None,
        body: None,
        uri_list: None,
        vars_command: None,
        vars: None,
    }
}

#[test]
fn substitution_replaces_each_placeholder() {
    let mut binds: Dict<String> = Dict::new();
    binds.insert("host".to_string(), "example.com".to_string());
    binds.insert("q".to_string(), "verus".to_string());
    let out = render_with_vars(
        "http://{{host}}/search?q={{q}}&again={{q}}".to_string(),
        &binds,
        "{{var}}",
    );
    assert_eq!(out, "http://example.com/search?q=verus&again=verus");
}

#[test]
fn substitution_honours_custom_braces() {
    let mut binds: Dict<String> = Dict::new();
    binds.insert("name".to_string(), "joe".to_string());
    let out = render_with_vars("hello %name%".to_string(), &binds, "%var%");
    assert_eq!(out, "hello joe");
}

#[test]
fn substitution_is_idempotent_without_placeholders() {
    let mut binds: Dict<String> = Dict::new();
    binds.insert("host".to_string(), "example.com".to_string());
    let once = render_with_vars("http://{{host}}/a".to_string(), &binds, "{{var}}");
    let twice = render_with_vars(once.clone(), &binds, "{{var}}");
    assert_eq!(once, twice);
    assert_eq!(once, "http://example.com/a");
}

#[test]
fn replace_matches_std_semantics() {
    assert_eq!(replace_str("aaa", "a", "bb"), "bbbbbb");
    assert_eq!(replace_str("a-b-c", "-", "+"), "a+b+c");
    assert_eq!(replace_str("none here", "xyz", "!"), "none here");
    assert_eq!(replace_str("aaa", "aa", "b"), "ba");
    assert_eq!("aaa".replace("aa", "b"), replace_str("aaa", "aa", "b"));
    assert_eq!("ab".replace("", "-"), replace_str("ab", "", "-"));
}

#[test]
fn lower_str_folds_ascii_only() {
    assert_eq!(lower_str("Content-TYPE"), "content-type");
    assert_eq!(lower_str("abc123"), "abc123");
}

#[test]
fn u64_rendering_is_decimal() {
    assert_eq!(u64_to_string(0), "0");
    assert_eq!(u64_to_string(907), "907");
    assert_eq!(u64_to_string(u64::MAX), format!("{}", u64::MAX));
}

#[test]
fn request_ids_default() {
    let mut req = bare_request("http://h/x");
    assert_eq!(req.get_id(), "request");
    req.id = Some("step".to_string());
    assert_eq!(req.get_id(), "step");
    req.desc = Some("fetch".to_string());
    assert_eq!(req.get_desc(), "fetch (http://h/x)");
}

#[test]
fn vars_command_message_is_exact_json() {
    let mut req = bare_request("http://h/one");
    req.id = Some("a \"quoted\" id".to_string());
    req.timeout_ms = Some(250);
    let responses: Dict<Response> = Dict::new();
    let msg = vars_command_message_exec(&req, &responses);
    assert_eq!(
        msg,
        "{\"request\":{\"id\":\"a \\\"quoted\\\" id\",\"uri\":\"http://h/one\",\"timeout_ms\":250},\"responses\":{}}"
    );
}

#[test]
fn vars_command_message_lists_responses() {
    let req = bare_request("http://h/one");
    let mut responses: Dict<Response> = Dict::new();
    responses.insert(
        "first".to_string(),
        Response {
            request_id: Some("first".to_string()),
            headers: None,
            status_code: Some("200".to_string()),
            body: Some("line\nbreak".to_string()),
            vars: None,
        },
    );
    let msg = vars_command_message_exec(&req, &responses);
    assert_eq!(
        msg,
        "{\"request\":{\"uri\":\"http://h/one\"},\"responses\":{\"first\":{\"request_id\":\"first\",\"status_code\":\"200\",\"body\":\"line\\nbreak\"}}}"
    );
}

#[test]
fn context_starts_empty() {
    let ctx = Context::new();
    assert!(!ctx.vars_bag.contains_key("anything"));
    assert_eq!(ctx.response_bag.len(), 0);
}

#[test]
fn interaction_types_name_the_checks_it_drives() {
    let mut inter = Interaction {
        request: bare_request("http://h/x"),
        response: None,
        invalid: None,
        examples: None,
        benchmark: None,
        cert: None,
    };
    assert_eq!(inter.types(), Vec::<&str>::new());
    inter.benchmark = Some(Benchmark { times: 1, avg_ms: 1, p95_ms: 1, p99_ms: 1, time_ms: 1 });
    inter.response = Some(Response {
        request_id: None,
        headers: None,
        status_code: None,
        body: None,
        vars: None,
    });
    inter.cert = Some(CertificateDetail { max_days: 1, subject: None, issuer: None });
    assert_eq!(inter.types(), vec!["benchmark", "verify", "cert"]);
}

#[test]
fn preparation_renders_each_templated_field_and_leaves_form_alone() {
    let mut headers: Dict<Vec<String>> = Dict::new();
    headers.insert("Authorization".to_string(), vec!["Bearer {{key}}".to_string()]);
    let mut form: Dict<String> = Dict::new();
    form.insert("q".to_string(), "{{key}}".to_string());
    let mut req = bare_request("http://{{host}}/q");
    req.basic_auth = Some(BasicAuth {
        user: "{{user}}".to_string(),
        password: Some("{{pass}}".to_string()),
    });
    req.aws_auth = Some(AWSAuth {
        region: Some("{{region}}".to_string()),
        service: "s3".to_string(),
        key: "{{key}}".to_string(),
        secret: "{{pass}}".to_string(),
        token: Some("{{key}}-token".to_string()),
        endpoint: Some("http://{{host}}/aws".to_string()),
    });
    req.headers = Some(headers);
    req.form = Some(form);
    req.body = Some("payload {{key}}".to_string());
    req.uri_list = Some(vec!["http://{{host}}/a".to_string(), "http://{{host}}/b".to_string()]);
    let inter = Interaction {
        request: req,
        response: None,
        invalid: None,
        examples: None,
        benchmark: None,
        cert: None,
    };
    let mut ctx = Context::new();
    ctx.vars_bag.insert("host".to_string(), "example.com".to_string());
    ctx.vars_bag.insert("key".to_string(), "K1".to_string());
    ctx.vars_bag.insert("user".to_string(), "alice".to_string());
    ctx.vars_bag.insert("pass".to_string(), "SECRET-REDACTED".to_string());
    ctx.vars_bag.insert("region".to_string(), "eu-west-1".to_string());
    let prepared = inter.prepare_with(&mut ctx).unwrap();
    let p = &prepared.request;
    assert_eq!(p.uri, "http://example.com/q");
    assert_eq!(p.basic_auth.as_ref().unwrap().user, "alice");
    assert_eq!(
        p.basic_auth.as_ref().unwrap().password.as_ref().unwrap(),
        "SECRET-REDACTED"
    );
    let aws = p.aws_auth.as_ref().unwrap();
    assert_eq!(aws.region.as_ref().unwrap(), "eu-west-1");
    assert_eq!(aws.key, "K1");
    assert_eq!(aws.token.as_ref().unwrap(), "K1-token");
    assert_eq!(aws.endpoint.as_ref().unwrap(), "http://example.com/aws");
    let hs = p.headers.as_ref().unwrap();
    assert_eq!(hs.get("Authorization").unwrap()[0], "Bearer K1");
    assert_eq!(p.form.as_ref().unwrap().get("q").unwrap().as_str(), "{{key}}");
    assert_eq!(p.body.as_ref().unwrap(), "payload K1");
    assert_eq!(
        p.uri_list.as_ref().unwrap(),
        &vec!["http://example.com/a".to_string(), "http://example.com/b".to_string()]
    );
}

#[test]
fn discovery_plans_one_interaction_per_endpoint() {
    let planner = OpenAPI::new(Dict::new());
    let endpoints = vec![
        ("/pets".to_string(), "get".to_string()),
        ("/pets".to_string(), "post".to_string()),
    ];
    let plan = planner.plan(&endpoints);
    assert_eq!(plan.len(), 2);
    assert_eq!(plan[0].request.uri, "http://{{host}}/pets");
    assert_eq!(plan[0].request.method.as_ref().unwrap(), "get");
    assert_eq!(
        plan[0].response.as_ref().unwrap().status_code.as_ref().unwrap(),
        "200"
    );
    assert_eq!(plan[1].request.method.as_ref().unwrap(), "post");
}
