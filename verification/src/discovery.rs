//! Interaction discovery: turn a list of endpoints found in a service
//! description into a sequence of interactions, one per path, each
//! expecting a plain success.  Reading the description itself happens
//! outside the library; this module plans from plain values.
use vstd::prelude::*;

use crate::data::{Interaction, InteractionView, Request, RequestView, Response, ResponseView};
use crate::table::Dict;

verus! {

/// The interaction planned for one endpoint: the path appended to a
/// templated host, the discovered verb, and a `200` expectation.
pub open spec fn planned_interaction(path: Seq<char>, verb: Seq<char>) -> InteractionView {
    InteractionView {
        request: RequestView {
            id: None,
            desc: None,
            uri: "http://{{host}}"@ + path,
            params: None,
            timeout_ms: None,
            method: Some(verb),
            basic_auth: None,
            aws_auth: None,
            headers: None,
            form: None,
            body: None,
            uri_list: None,
            vars_command: None,
            vars: None,
        },
        response: Some(
            ResponseView {
                request_id: None,
                headers: None,
                status_code: Some("200"@),
                body: None,
                vars: None,
            },
        ),
        invalid: None,
        examples: None,
        benchmark: None,
        cert: None,
    }
}

/// The whole plan, endpoint by endpoint.
pub open spec fn plan_spec(endpoints: Seq<(Seq<char>, Seq<char>)>) -> Seq<InteractionView> {
    endpoints.map_values(|e: (Seq<char>, Seq<char>)| planned_interaction(e.0, e.1))
}

/// The discovery planner.
pub struct OpenAPI {
    pub opts: Dict<String>,
}

impl OpenAPI {
    /// A planner under the given options.
    pub fn new(opts: Dict<String>) -> (r: Self)
        ensures
            r.opts@ == opts@,
    {
        OpenAPI { opts }
    }

    /// One interaction per endpoint, each a `(path, verb)` pair.
    #[verifier::loop_isolation(false)]
    pub fn plan(&self, endpoints: &Vec<(String, String)>) -> (r: Vec<Interaction>)
        ensures
            r.deep_view() == plan_spec(endpoints.deep_view()),
    {
        let mut out: Vec<Interaction> = Vec::new();
        let mut i: usize = 0;
        while i < endpoints.len()
            invariant
                i <= endpoints@.len(),
                out.deep_view() == plan_spec(endpoints.deep_view().subrange(0, i as int)),
            decreases endpoints@.len() - i,
        {
            let e = &endpoints[i];
            let mut uri = "http://{{host}}".to_owned();
            uri.append(e.0.as_str());
            let inter = Interaction {
                request: Request {
                    id: None,
                    desc: None,
                    uri,
                    params: None,
                    timeout_ms: None,
                    method: Some(e.1.clone()),
                    basic_auth: None,
                    aws_auth: None,
                    headers: None,
                    form: None,
                    body: None,
                    uri_list: None,
                    vars_command: None,
                    vars: None,
                },
                response: Some(
                    Response {
                        request_id: None,
                        headers: None,
                        status_code: Some("200".to_owned()),
                        body: None,
                        vars: None,
                    },
                ),
                invalid: None,
                examples: None,
                benchmark: None,
                cert: None,
            };
            let ghost iv = inter.deep_view();
            let ghost prev = out.deep_view();
            out.push(inter);
            i = i + 1;
            proof {
                assert(iv == planned_interaction(
                    endpoints.deep_view()[i - 1].0,
                    endpoints.deep_view()[i - 1].1,
                ));
                assert(out.deep_view() =~= prev.push(iv));
                assert(out.deep_view() =~= plan_spec(endpoints.deep_view().subrange(0, i as int)));
            }
        }
        proof {
            assert(endpoints.deep_view().subrange(0, endpoints.deep_view().len() as int)
                =~= endpoints.deep_view());
        }
        out
    }
}

} // verus!
