//! What happens to an interaction before and during a send: required
//! bindings are checked, the optional vars command is consulted, the
//! request is rendered from the merged bindings, the wire response is
//! enriched with extracted variables, and the context is updated.
use vstd::prelude::*;

use crate::data::{
    context_wf, spec_get_id, spec_save_pairs, AWSAuth, AWSAuthView, BasicAuth, BasicAuthView,
    Context, ContextView, Interaction, InteractionView, ParamView, Request, RequestView, Response,
    ResponseView, Sender,
};
use crate::jsonio::vars_command_message_exec;
use crate::render::{render_with_vars, spec_render};
use crate::shell::run_command_capture;
use crate::table::{dict_has, dict_get, dict_put, dict_uniq, Dict, DupView};
use crate::text::{sep_join, join_strings};
use crate::vars::{extract, extract_pairs};

verus! {

/// The brace pattern in force: the configured one, or `{{var}}`.
pub open spec fn fmt_of(c: ContextView) -> Seq<char> {
    match c.var_braces {
        Some(f) => f,
        None => "{{var}}"@,
    }
}

/// A request with every templated field rendered under the bindings.
pub open spec fn rendered_request(
    r: RequestView,
    binds: Seq<(Seq<char>, Seq<char>)>,
    fmt: Seq<char>,
) -> RequestView {
    RequestView {
        uri: spec_render(r.uri, binds, fmt),
        uri_list: match r.uri_list {
            Some(us) => Some(us.map_values(|u: Seq<char>| spec_render(u, binds, fmt))),
            None => None,
        },
        basic_auth: match r.basic_auth {
            Some(b) => Some(
                BasicAuthView {
                    user: spec_render(b.user, binds, fmt),
                    password: match b.password {
                        Some(p) => Some(spec_render(p, binds, fmt)),
                        None => None,
                    },
                },
            ),
            None => None,
        },
        aws_auth: match r.aws_auth {
            Some(a) => Some(
                AWSAuthView {
                    region: match a.region {
                        Some(rg) => Some(spec_render(rg, binds, fmt)),
                        None => None,
                    },
                    service: spec_render(a.service, binds, fmt),
                    key: spec_render(a.key, binds, fmt),
                    secret: spec_render(a.secret, binds, fmt),
                    token: match a.token {
                        Some(t) => Some(spec_render(t, binds, fmt)),
                        None => None,
                    },
                    endpoint: match a.endpoint {
                        Some(e) => Some(spec_render(e, binds, fmt)),
                        None => None,
                    },
                },
            ),
            None => None,
        },
        headers: match r.headers {
            Some(hs) => Some(
                hs.map_values(
                    |p: (Seq<char>, Seq<Seq<char>>)|
                        (p.0, p.1.map_values(|v: Seq<char>| spec_render(v, binds, fmt))),
                ),
            ),
            None => None,
        },
        body: match r.body {
            Some(b) => Some(spec_render(b, binds, fmt)),
            None => None,
        },
        ..r
    }
}

/// An interaction whose request has been rendered.
pub open spec fn prepared_interaction(
    i: InteractionView,
    binds: Seq<(Seq<char>, Seq<char>)>,
    fmt: Seq<char>,
) -> InteractionView {
    InteractionView { request: rendered_request(i.request, binds, fmt), ..i }
}

/// Every prerequisite name is bound in the context.
pub open spec fn params_ok(r: RequestView, binds: Seq<(Seq<char>, Seq<char>)>) -> bool {
    r.params matches Some(ps) ==> forall|i: int|
        0 <= i < ps.len() ==> dict_has(binds, (#[trigger] ps[i]).name)
}

/// The report line for one missing prerequisite.
pub open spec fn param_msg(p: ParamView) -> Seq<char> {
    "name: "@ + p.name + "\ndescription: "@ + p.desc + "\n"@
}

/// The report lines for the missing prerequisites, in order.
pub open spec fn missing_items(ps: Seq<ParamView>, binds: Seq<(Seq<char>, Seq<char>)>) -> Seq<
    Seq<char>,
>
    decreases ps.len(),
{
    if ps.len() == 0 {
        Seq::<Seq<char>>::empty()
    } else {
        (if !dict_has(binds, ps[0].name) {
            seq![param_msg(ps[0])]
        } else {
            Seq::<Seq<char>>::empty()
        }) + missing_items(ps.drop_first(), binds)
    }
}

/// The whole missing-prerequisites message.
pub open spec fn missing_message(ps: Seq<ParamView>, binds: Seq<(Seq<char>, Seq<char>)>) -> Seq<
    char,
> {
    "Missing required params:\n"@ + sep_join(missing_items(ps, binds), "\n"@)
}

/// The wire response with the extracted variables attached.
pub open spec fn attach_vars_spec(
    w: ResponseView,
    vars: Option<Seq<(Seq<char>, crate::data::VarInfoView)>>,
) -> ResponseView {
    match vars {
        None => w,
        Some(infos) => ResponseView { vars: Some(extract_pairs(w, infos)), ..w },
    }
}

/// The context after a response is saved into it: extracted variables
/// merged into the bindings, and the response filed under its id.
pub open spec fn saved_ctx(ctx: ContextView, resp: ResponseView) -> ContextView {
    ContextView {
        vars: match resp.vars {
            Some(vs) => spec_save_pairs(ctx.vars, vs),
            None => ctx.vars,
        },
        responses: match resp.request_id {
            Some(id) => dict_put(ctx.responses, id, resp),
            None => ctx.responses,
        },
        var_braces: ctx.var_braces,
    }
}

impl Interaction {
    /// Which checks this interaction drives.
    pub fn types(&self) -> (r: Vec<&'static str>)
        ensures
            r.deep_view() == types_spec(self@),
    {
        let mut v: Vec<&'static str> = Vec::new();
        if self.benchmark.is_some() {
            v.push("benchmark");
        }
        if self.response.is_some() {
            v.push("verify");
        }
        if self.cert.is_some() {
            v.push("cert");
        }
        proof {
            assert(v.deep_view() =~= types_spec(self@));
        }
        v
    }

    /// Check that every name under `request.params` is bound; the error
    /// aggregates the missing names with their descriptions.
    #[verifier::loop_isolation(false)]
    pub fn ensure_requirements(&self, context: &Context) -> (r: Result<(), String>)
        ensures
            r is Ok <==> params_ok(self@.request, context@.vars),
            r matches Err(e) ==> self@.request.params matches Some(ps) && e@ == missing_message(
                ps,
                context@.vars,
            ),
    {
        match &self.request.params {
            None => Ok(()),
            Some(params) => {
                let ghost ps = self@.request.params.unwrap();
                let ghost binds = context@.vars;
                let mut items: Vec<String> = Vec::new();
                let n = params.len();
                let mut i: usize = 0;
                proof {
                    assert(ps.skip(0) =~= ps);
                }
                while i < n
                    invariant
                        i <= ps.len(),
                        n == ps.len(),
                        params.deep_view() == ps,
                        missing_items(ps, binds) == items.deep_view() + missing_items(
                            ps.skip(i as int),
                            binds,
                        ),
                        items.deep_view().len() == 0 <==> (forall|j: int|
                            0 <= j < i ==> dict_has(binds, (#[trigger] ps[j]).name)),
                    decreases n - i,
                {
                    proof {
                        assert(ps.skip(i as int)[0] == ps[i as int]);
                        assert(ps.skip(i as int).drop_first() =~= ps.skip(i as int + 1));
                    }
                    let p = &params[i];
                    if !context.vars_bag.contains_key(p.name.as_str()) {
                        let mut msg = "name: ".to_owned();
                        msg.append(p.name.as_str());
                        msg.append("\ndescription: ");
                        msg.append(p.desc.as_str());
                        msg.append("\n");
                        let ghost mv = msg@;
                        let ghost prev = items.deep_view();
                        items.push(msg);
                        proof {
                            assert(mv =~= param_msg(ps[i as int]));
                            assert(items.deep_view() =~= prev.push(mv));
                            assert(items.deep_view() + missing_items(ps.skip(i as int + 1), binds)
                                =~= prev + (seq![param_msg(ps[i as int])] + missing_items(
                                ps.skip(i as int + 1),
                                binds,
                            )));
                        }
                    } else {
                        proof {
                            assert(Seq::<Seq<char>>::empty() + missing_items(
                                ps.skip(i as int + 1),
                                binds,
                            ) =~= missing_items(ps.skip(i as int + 1), binds));
                        }
                    }
                    i = i + 1;
                }
                proof {
                    assert(ps.skip(n as int) =~= Seq::<ParamView>::empty());
                    assert(items.deep_view() + Seq::<Seq<char>>::empty() =~= items.deep_view());
                }
                if items.len() == 0 {
                    return Ok(());
                }
                let mut msg = "Missing required params:\n".to_owned();
                msg.append(join_strings(&items, "\n").as_str());
                proof {
                    assert(msg@ =~= missing_message(ps, binds));
                }
                Err(msg)
            },
        }
    }

    /// A copy of this interaction with its request rendered: bindings
    /// from the optional vars command first, the context's bindings
    /// written over them, and every templated field substituted.
    #[verifier::loop_isolation(false)]
    pub fn prepare_with(&self, context: &mut Context) -> (r: Result<Interaction, String>)
        requires
            context_wf(old(context)@),
        ensures
            final(context)@ == old(context)@,
            r is Ok <==> params_ok(self@.request, old(context)@.vars),
            r matches Err(e) ==> self@.request.params matches Some(ps) && e@ == missing_message(
                ps,
                old(context)@.vars,
            ),
            r matches Ok(p) ==> exists|cmd_pairs: Seq<(Seq<char>, Seq<char>)>|
                #[trigger] dict_uniq(cmd_pairs) && p@ == prepared_interaction(
                    self@,
                    spec_save_pairs(cmd_pairs, old(context)@.vars),
                    fmt_of(old(context)@),
                ),
            self@.request.vars_command is None ==> (r matches Ok(p) ==> p@
                == prepared_interaction(
                self@,
                old(context)@.vars,
                fmt_of(old(context)@),
            )),
    {
        self.ensure_requirements(context)?;
        let fmtstring: String = match &context.config.var_braces {
            Some(f) => f.clone(),
            None => "{{var}}".to_owned(),
        };
        proof {
            assert(fmtstring@ == fmt_of(old(context)@));
        }
        let mut binds: Dict<String> = match &self.request.vars_command {
            Some(cmd) => get_vars_from_cmd(cmd.as_str(), &self.request, &context.response_bag),
            None => Dict::new(),
        };
        let ghost cmd_pairs = binds@;
        let n = context.vars_bag.len();
        let mut i: usize = 0;
        proof {
            assert(old(context)@.vars.skip(0) =~= old(context)@.vars);
        }
        while i < n
            invariant
                i <= old(context)@.vars.len(),
                n == old(context)@.vars.len(),
                context@ == old(context)@,
                binds.wf(),
                spec_save_pairs(cmd_pairs, old(context)@.vars) == spec_save_pairs(
                    binds@,
                    old(context)@.vars.skip(i as int),
                ),
            decreases n - i,
        {
            proof {
                assert(old(context)@.vars.skip(i as int)[0] == old(context)@.vars[i as int]);
                assert(old(context)@.vars.skip(i as int).drop_first() =~= old(
                    context,
                )@.vars.skip(i as int + 1));
                crate::table::lemma_put_props(
                    binds@,
                    old(context)@.vars[i as int].0,
                    old(context)@.vars[i as int].1,
                );
            }
            let k = context.vars_bag.key_at(i).clone();
            let v = context.vars_bag.val_at(i).clone();
            binds.insert(k, v);
            i = i + 1;
        }
        proof {
            assert(old(context)@.vars.skip(n as int) =~= Seq::<(Seq<char>, Seq<char>)>::empty());
            if self@.request.vars_command is None {
                assert(cmd_pairs =~= Seq::<(Seq<char>, Seq<char>)>::empty());
                crate::data::lemma_save_pairs_flat(
                    Seq::<(Seq<char>, Seq<char>)>::empty(),
                    old(context)@.vars,
                );
                assert(Seq::<(Seq<char>, Seq<char>)>::empty() + old(context)@.vars =~= old(
                    context,
                )@.vars);
            }
        }
        let req = &self.request;
        let prepared_request = Request {
            id: req.id.dup(),
            desc: req.desc.dup(),
            uri: render_with_vars(req.uri.clone(), &binds, fmtstring.as_str()),
            params: req.params.dup(),
            timeout_ms: req.timeout_ms,
            method: req.method.dup(),
            basic_auth: match &req.basic_auth {
                Some(b) => Some(
                    BasicAuth {
                        user: render_with_vars(b.user.clone(), &binds, fmtstring.as_str()),
                        password: match &b.password {
                            Some(p) => Some(
                                render_with_vars(p.clone(), &binds, fmtstring.as_str()),
                            ),
                            None => None,
                        },
                    },
                ),
                None => None,
            },
            aws_auth: match &req.aws_auth {
                Some(a) => Some(
                    AWSAuth {
                        region: match &a.region {
                            Some(rg) => Some(
                                render_with_vars(rg.clone(), &binds, fmtstring.as_str()),
                            ),
                            None => None,
                        },
                        service: render_with_vars(a.service.clone(), &binds, fmtstring.as_str()),
                        key: render_with_vars(a.key.clone(), &binds, fmtstring.as_str()),
                        secret: render_with_vars(a.secret.clone(), &binds, fmtstring.as_str()),
                        token: match &a.token {
                            Some(t) => Some(
                                render_with_vars(t.clone(), &binds, fmtstring.as_str()),
                            ),
                            None => None,
                        },
                        endpoint: match &a.endpoint {
                            Some(e) => Some(
                                render_with_vars(e.clone(), &binds, fmtstring.as_str()),
                            ),
                            None => None,
                        },
                    },
                ),
                None => None,
            },
            headers: match &req.headers {
                Some(hs) => Some(render_headers(hs, &binds, fmtstring.as_str())),
                None => None,
            },
            form: req.form.dup(),
            body: match &req.body {
                Some(b) => Some(render_with_vars(b.clone(), &binds, fmtstring.as_str())),
                None => None,
            },
            uri_list: match &req.uri_list {
                Some(us) => Some(render_list_vals(us, &binds, fmtstring.as_str())),
                None => None,
            },
            vars_command: req.vars_command.dup(),
            vars: req.vars.dup(),
        };
        let out = Interaction {
            request: prepared_request,
            response: self.response.dup(),
            invalid: self.invalid.dup(),
            examples: self.examples.dup(),
            benchmark: self.benchmark,
            cert: self.cert.dup(),
        };
        proof {
            let b = spec_save_pairs(cmd_pairs, old(context)@.vars);
            let f = fmt_of(old(context)@);
            assert(out@.request =~= rendered_request(self@.request, b, f));
            assert(out@ =~= prepared_interaction(self@, b, f));
            assert(dict_uniq(cmd_pairs) && out@ == prepared_interaction(
                self@,
                spec_save_pairs(cmd_pairs, old(context)@.vars),
                fmt_of(old(context)@),
            ));
        }
        Ok(out)
    }

    /// Perform the send and attach the extracted variables to the wire
    /// response.
    pub fn send<S: Sender>(&self, sender: &S) -> (r: Result<Response, String>)
        ensures
            r matches Ok(resp) ==> exists|w: ResponseView|
                resp@ == #[trigger] attach_vars_spec(w, self@.request.vars),
            r matches Ok(resp) ==> (self@.request.vars matches Some(infos) ==> (
            resp@.vars matches Some(vs) && dict_uniq(vs) && (forall|k: Seq<char>|
                #[trigger] dict_has(vs, k) == dict_has(infos, k)))),
            sender.is_deterministic() ==> (r matches Ok(resp) ==> sender.send_model(self@)
                matches Ok(w0) && resp@ == attach_vars_spec(w0, self@.request.vars)),
    {
        let resp = match sender.send(self) {
            Ok(resp) => resp,
            Err(e) => {
                return Err(e);
            },
        };
        match &self.request.vars {
            None => {
                proof {
                    assert(resp@ == attach_vars_spec(resp@, self@.request.vars));
                }
                Ok(resp)
            },
            Some(infos) => {
                let ghost w = resp@;
                let vs = match extract(&resp, infos) {
                    Ok(vs) => vs,
                    Err(e) => {
                        return Err(e);
                    },
                };
                proof {
                    crate::data::lemma_save_pairs_props(
                        Seq::<(Seq<char>, Seq<char>)>::empty(),
                        infos@.map_values(
                            |p: (Seq<char>, crate::data::VarInfoView)|
                                (p.0, crate::vars::extract_var_spec(w, p.1)),
                        ),
                    );
                }
                let mut r2 = resp;
                r2.vars = Some(vs);
                proof {
                    assert(r2@ == attach_vars_spec(w, self@.request.vars));
                }
                Ok(r2)
            },
        }
    }

    /// Prepare, send, and fold the outcome into the context: extracted
    /// variables join the bindings, and the response is filed under its
    /// request id.
    pub fn send_with_context<S: Sender>(&self, sender: &S, context: &mut Context) -> (r: Result<
        Response,
        String,
    >)
        requires
            context_wf(old(context)@),
        ensures
            context_wf(final(context)@),
            final(context)@.var_braces == old(context)@.var_braces,
            forall|k: Seq<char>|
                dict_has(old(context)@.vars, k) ==> dict_has(final(context)@.vars, k),
            r is Err ==> final(context)@ == old(context)@,
            r matches Ok(resp) ==> final(context)@ == saved_ctx(old(context)@, resp@),
            r matches Ok(resp) ==> (self@.request.vars matches Some(infos) ==> forall|
                k: Seq<char>,
            |
                dict_has(infos, k) ==> dict_has(final(context)@.vars, k)),
            r matches Ok(resp) ==> (resp@.request_id matches Some(id) ==> dict_get(
                final(context)@.responses,
                id,
            ) == Some(resp@)),
            r is Ok ==> params_ok(self@.request, old(context)@.vars),
            !params_ok(self@.request, old(context)@.vars) ==> (r matches Err(e)
                && (self@.request.params matches Some(ps) && e@ == missing_message(
                ps,
                old(context)@.vars,
            ))),
            (sender.is_deterministic() && self@.request.vars_command is None) ==> (r matches Ok(
                resp,
            ) ==> sender.send_model(
                prepared_interaction(self@, old(context)@.vars, fmt_of(old(context)@)),
            ) matches Ok(w0) && resp@ == attach_vars_spec(w0, self@.request.vars)),
    {
        let prepared = match self.prepare_with(context) {
            Ok(p) => p,
            Err(e) => {
                return Err(e);
            },
        };
        let resp = match prepared.send(sender) {
            Ok(resp) => resp,
            Err(e) => {
                return Err(e);
            },
        };
        proof {
            if self@.request.vars_command is Some {
                let cp = choose|cmd_pairs: Seq<(Seq<char>, Seq<char>)>|
                    #[trigger] dict_uniq(cmd_pairs) && prepared@ == prepared_interaction(
                        self@,
                        spec_save_pairs(cmd_pairs, old(context)@.vars),
                        fmt_of(old(context)@),
                    );
            }
            assert(prepared@.request.vars == self@.request.vars);
        }
        resp.save_vars(context);
        resp.save_response(context);
        proof {
            assert(final(context)@ =~= saved_ctx(old(context)@, resp@));
            if resp@.request_id is Some {
                crate::table::lemma_put_props(
                    old(context)@.responses,
                    resp@.request_id.unwrap(),
                    resp@,
                );
            }
        }
        Ok(resp)
    }
}

/// The tags of the checks an interaction drives.
pub open spec fn types_spec(i: InteractionView) -> Seq<Seq<char>> {
    (if i.benchmark is Some {
        seq!["benchmark"@]
    } else {
        Seq::<Seq<char>>::empty()
    }) + (if i.response is Some {
        seq!["verify"@]
    } else {
        Seq::<Seq<char>>::empty()
    }) + (if i.cert is Some {
        seq!["cert"@]
    } else {
        Seq::<Seq<char>>::empty()
    })
}

/// Consult a vars command: write the request and captured responses on
/// its standard input as JSON, read its standard output as a JSON
/// object of strings.  Any failure leaves the bindings empty.
pub fn get_vars_from_cmd(cmd: &str, request: &Request, responses: &Dict<Response>) -> (r: Dict<
    String,
>)
    ensures
        r.wf(),
{
    let message = vars_command_message_exec(request, responses);
    match run_command_capture(cmd, message.as_str()) {
        None => Dict::new(),
        Some(out) => match crate::jsonio::parse_string_map(out.as_str()) {
            None => Dict::new(),
            Some(pairs) => {
                let mut d: Dict<String> = Dict::new();
                let mut i: usize = 0;
                let n = pairs.len();
                while i < n
                    invariant
                        i <= pairs@.len(),
                        n == pairs@.len(),
                        d.wf(),
                    decreases n - i,
                {
                    proof {
                        crate::table::lemma_put_props(
                            d@,
                            pairs.deep_view()[i as int].0,
                            pairs.deep_view()[i as int].1,
                        );
                    }
                    let p = &pairs[i];
                    d.insert(p.0.clone(), p.1.clone());
                    i = i + 1;
                }
                d
            },
        },
    }
}

/// Render every value of a header table.
#[verifier::loop_isolation(false)]
fn render_headers(hs: &Dict<Vec<String>>, binds: &Dict<String>, fmt: &str) -> (r: Dict<
    Vec<String>,
>)
    ensures
        r@ == hs@.map_values(
            |p: (Seq<char>, Seq<Seq<char>>)|
                (p.0, p.1.map_values(|v: Seq<char>| spec_render(v, binds@, fmt@))),
        ),
        r.wf() == hs.wf(),
{
    let spec_map = Ghost(
        |p: (Seq<char>, Seq<Seq<char>>)|
            (p.0, p.1.map_values(|v: Seq<char>| spec_render(v, binds@, fmt@))),
    );
    let mut out: Dict<Vec<String>> = Dict::new();
    let ghost target = hs@.map_values(spec_map@);
    let n = hs.len();
    let mut i: usize = 0;
    while i < n
        invariant
            i <= hs@.len(),
            n == hs@.len(),
            out@ == hs@.subrange(0, i as int).map_values(spec_map@),
        decreases n - i,
    {
        let vals = render_list_vals(hs.val_at(i), binds, fmt);
        out.push_pair(hs.key_at(i).clone(), vals);
        i = i + 1;
        proof {
            assert(out@ =~= hs@.subrange(0, i as int).map_values(spec_map@));
        }
    }
    proof {
        assert(hs@.subrange(0, n as int) =~= hs@);
        assert(out@ =~= hs@.map_values(spec_map@));
        if hs.wf() {
            assert forall|j: int, l: int| 0 <= j < l < out@.len() implies out@[j].0 != out@[l].0 by {
                assert(out@[j].0 == hs@[j].0);
                assert(out@[l].0 == hs@[l].0);
            }
        }
        if out.wf() {
            assert forall|j: int, l: int| 0 <= j < l < hs@.len() implies hs@[j].0 != hs@[l].0 by {
                assert(out@[j].0 == hs@[j].0);
                assert(out@[l].0 == hs@[l].0);
            }
        }
    }
    out
}

/// Render every string of a list.
#[verifier::loop_isolation(false)]
fn render_list_vals(vs: &Vec<String>, binds: &Dict<String>, fmt: &str) -> (r: Vec<String>)
    ensures
        r.deep_view() == vs.deep_view().map_values(|v: Seq<char>| spec_render(v, binds@, fmt@)),
{
    let mut out: Vec<String> = Vec::new();
    let mut i: usize = 0;
    while i < vs.len()
        invariant
            i <= vs@.len(),
            out.deep_view() == vs.deep_view().subrange(0, i as int).map_values(
                |v: Seq<char>| spec_render(v, binds@, fmt@),
            ),
        decreases vs@.len() - i,
    {
        let rv = render_with_vars(vs[i].clone(), binds, fmt);
        let ghost rvv = rv@;
        let ghost prev = out.deep_view();
        out.push(rv);
        i = i + 1;
        proof {
            assert(out.deep_view() =~= prev.push(rvv));
            assert(out.deep_view() =~= vs.deep_view().subrange(0, i as int).map_values(
                |v: Seq<char>| spec_render(v, binds@, fmt@),
            ));
        }
    }
    proof {
        assert(vs.deep_view().subrange(0, vs.deep_view().len() as int) =~= vs.deep_view());
        assert(out.deep_view() =~= vs.deep_view().map_values(
            |v: Seq<char>| spec_render(v, binds@, fmt@),
        ));
    }
    out
}

} // verus!
