//! The interaction data model: requests, responses, expectations, the
//! per-sequence context, check results and violations.
use vstd::prelude::*;

use crate::table::{dict_has, dict_put, dict_uniq, Dict, DupView};

verus! {

/// Why a single check finding was raised.
#[derive(Debug, Clone, Copy, PartialEq, Eq, Structural)]
pub enum Cause {
    WireMissing,
    RecordedMissing,
    Mismatch,
    Error,
}

/// One field-level mismatch or missing-data finding.
#[derive(Debug, Clone)]
pub struct Violation {
    pub kind: String,
    pub cause: Cause,
    pub subject: String,
    pub on: Option<String>,
    pub wire: Option<String>,
    pub recorded: String,
}

/// Mathematical value of a `Violation`.
pub struct ViolationView {
    pub kind: Seq<char>,
    pub cause: Cause,
    pub subject: Seq<char>,
    pub on: Option<Seq<char>>,
    pub wire: Option<Seq<char>>,
    pub recorded: Seq<char>,
}

impl View for Violation {
    type V = ViolationView;

    open spec fn view(&self) -> ViolationView {
        ViolationView {
            kind: self.kind@,
            cause: self.cause,
            subject: self.subject@,
            on: match self.on {
                Some(ref s) => Some(s@),
                None => None,
            },
            wire: match self.wire {
                Some(ref s) => Some(s@),
                None => None,
            },
            recorded: self.recorded@,
        }
    }
}

impl DeepView for Violation {
    type V = ViolationView;

    open spec fn deep_view(&self) -> ViolationView {
        self@
    }
}

/// A required-variable prerequisite: a name the context must bind.
pub struct Param {
    pub name: String,
    pub desc: String,
}

/// Mathematical value of a `Param`.
pub struct ParamView {
    pub name: Seq<char>,
    pub desc: Seq<char>,
}

impl View for Param {
    type V = ParamView;

    open spec fn view(&self) -> ParamView {
        ParamView { name: self.name@, desc: self.desc@ }
    }
}

impl DeepView for Param {
    type V = ParamView;

    open spec fn deep_view(&self) -> ParamView {
        self@
    }
}

impl DupView for Param {
    fn dup(&self) -> (r: Self)
        ensures
            r.deep_view() == self.deep_view(),
    {
        Param { name: self.name.clone(), desc: self.desc.clone() }
    }
}

/// Basic-auth credentials; the values are templated.
pub struct BasicAuth {
    pub user: String,
    pub password: Option<String>,
}

/// Mathematical value of a `BasicAuth`.
pub struct BasicAuthView {
    pub user: Seq<char>,
    pub password: Option<Seq<char>>,
}

impl View for BasicAuth {
    type V = BasicAuthView;

    open spec fn view(&self) -> BasicAuthView {
        BasicAuthView { user: self.user@, password: self.password.deep_view() }
    }
}

impl DeepView for BasicAuth {
    type V = BasicAuthView;

    open spec fn deep_view(&self) -> BasicAuthView {
        self@
    }
}

impl DupView for BasicAuth {
    fn dup(&self) -> (r: Self)
        ensures
            r.deep_view() == self.deep_view(),
    {
        BasicAuth { user: self.user.clone(), password: self.password.dup() }
    }
}

/// AWS SigV4 signing material; service, key, secret and region are
/// templated.
pub struct AWSAuth {
    pub region: Option<String>,
    pub service: String,
    pub key: String,
    pub secret: String,
    pub token: Option<String>,
    pub endpoint: Option<String>,
}

/// Mathematical value of an `AWSAuth`.
pub struct AWSAuthView {
    pub region: Option<Seq<char>>,
    pub service: Seq<char>,
    pub key: Seq<char>,
    pub secret: Seq<char>,
    pub token: Option<Seq<char>>,
    pub endpoint: Option<Seq<char>>,
}

impl View for AWSAuth {
    type V = AWSAuthView;

    open spec fn view(&self) -> AWSAuthView {
        AWSAuthView {
            region: self.region.deep_view(),
            service: self.service@,
            key: self.key@,
            secret: self.secret@,
            token: self.token.deep_view(),
            endpoint: self.endpoint.deep_view(),
        }
    }
}

impl DeepView for AWSAuth {
    type V = AWSAuthView;

    open spec fn deep_view(&self) -> AWSAuthView {
        self@
    }
}

impl DupView for AWSAuth {
    fn dup(&self) -> (r: Self)
        ensures
            r.deep_view() == self.deep_view(),
    {
        AWSAuth {
            region: self.region.dup(),
            service: self.service.clone(),
            key: self.key.clone(),
            secret: self.secret.clone(),
            token: self.token.dup(),
            endpoint: self.endpoint.dup(),
        }
    }
}

/// How one variable is pulled out of a response: a JSON-pointer `from`
/// into the logical `{body, headers, status}` object, an optional capture
/// regex `expr`, and an optional `default`.
pub struct VarInfo {
    pub expr: Option<String>,
    pub kind: String,
    pub from: String,
    pub default: Option<String>,
}

/// Mathematical value of a `VarInfo`.
pub struct VarInfoView {
    pub expr: Option<Seq<char>>,
    pub kind: Seq<char>,
    pub from: Seq<char>,
    pub default: Option<Seq<char>>,
}

impl View for VarInfo {
    type V = VarInfoView;

    open spec fn view(&self) -> VarInfoView {
        VarInfoView {
            expr: self.expr.deep_view(),
            kind: self.kind@,
            from: self.from@,
            default: self.default.deep_view(),
        }
    }
}

impl DeepView for VarInfo {
    type V = VarInfoView;

    open spec fn deep_view(&self) -> VarInfoView {
        self@
    }
}

impl DupView for VarInfo {
    fn dup(&self) -> (r: Self)
        ensures
            r.deep_view() == self.deep_view(),
    {
        VarInfo {
            expr: self.expr.dup(),
            kind: self.kind.clone(),
            from: self.from.clone(),
            default: self.default.dup(),
        }
    }
}

/// One HTTP request to perform, plus extraction rules for its response.
pub struct Request {
    pub id: Option<String>,
    pub desc: Option<String>,
    pub uri: String,
    pub params: Option<Vec<Param>>,
    pub timeout_ms: Option<u64>,
    pub method: Option<String>,
    pub basic_auth: Option<BasicAuth>,
    pub aws_auth: Option<AWSAuth>,
    pub headers: Option<Dict<Vec<String>>>,
    pub form: Option<Dict<String>>,
    pub body: Option<String>,
    pub uri_list: Option<Vec<String>>,
    pub vars_command: Option<String>,
    pub vars: Option<Dict<VarInfo>>,
}

/// Mathematical value of a `Request`.
pub struct RequestView {
    pub id: Option<Seq<char>>,
    pub desc: Option<Seq<char>>,
    pub uri: Seq<char>,
    pub params: Option<Seq<ParamView>>,
    pub timeout_ms: Option<u64>,
    pub method: Option<Seq<char>>,
    pub basic_auth: Option<BasicAuthView>,
    pub aws_auth: Option<AWSAuthView>,
    pub headers: Option<Seq<(Seq<char>, Seq<Seq<char>>)>>,
    pub form: Option<Seq<(Seq<char>, Seq<char>)>>,
    pub body: Option<Seq<char>>,
    pub uri_list: Option<Seq<Seq<char>>>,
    pub vars_command: Option<Seq<char>>,
    pub vars: Option<Seq<(Seq<char>, VarInfoView)>>,
}

impl View for Request {
    type V = RequestView;

    open spec fn view(&self) -> RequestView {
        RequestView {
            id: self.id.deep_view(),
            desc: self.desc.deep_view(),
            uri: self.uri@,
            params: self.params.deep_view(),
            timeout_ms: self.timeout_ms,
            method: self.method.deep_view(),
            basic_auth: self.basic_auth.deep_view(),
            aws_auth: self.aws_auth.deep_view(),
            headers: self.headers.deep_view(),
            form: self.form.deep_view(),
            body: self.body.deep_view(),
            uri_list: self.uri_list.deep_view(),
            vars_command: self.vars_command.deep_view(),
            vars: self.vars.deep_view(),
        }
    }
}

impl DeepView for Request {
    type V = RequestView;

    open spec fn deep_view(&self) -> RequestView {
        self@
    }
}

impl DupView for Request {
    fn dup(&self) -> (r: Self)
        ensures
            r.deep_view() == self.deep_view(),
    {
        Request {
            id: self.id.dup(),
            desc: self.desc.dup(),
            uri: self.uri.clone(),
            params: self.params.dup(),
            timeout_ms: self.timeout_ms,
            method: self.method.dup(),
            basic_auth: self.basic_auth.dup(),
            aws_auth: self.aws_auth.dup(),
            headers: self.headers.dup(),
            form: self.form.dup(),
            body: self.body.dup(),
            uri_list: self.uri_list.dup(),
            vars_command: self.vars_command.dup(),
            vars: self.vars.dup(),
        }
    }
}

/// One observed or recorded HTTP response.
pub struct Response {
    pub request_id: Option<String>,
    pub headers: Option<Dict<Vec<String>>>,
    pub status_code: Option<String>,
    pub body: Option<String>,
    pub vars: Option<Dict<String>>,
}

/// Mathematical value of a `Response`.
pub struct ResponseView {
    pub request_id: Option<Seq<char>>,
    pub headers: Option<Seq<(Seq<char>, Seq<Seq<char>>)>>,
    pub status_code: Option<Seq<char>>,
    pub body: Option<Seq<char>>,
    pub vars: Option<Seq<(Seq<char>, Seq<char>)>>,
}

impl View for Response {
    type V = ResponseView;

    open spec fn view(&self) -> ResponseView {
        ResponseView {
            request_id: self.request_id.deep_view(),
            headers: self.headers.deep_view(),
            status_code: self.status_code.deep_view(),
            body: self.body.deep_view(),
            vars: self.vars.deep_view(),
        }
    }
}

impl DeepView for Response {
    type V = ResponseView;

    open spec fn deep_view(&self) -> ResponseView {
        self@
    }
}

impl DupView for Response {
    fn dup(&self) -> (r: Self)
        ensures
            r.deep_view() == self.deep_view(),
    {
        Response {
            request_id: self.request_id.dup(),
            headers: self.headers.dup(),
            status_code: self.status_code.dup(),
            body: self.body.dup(),
            vars: self.vars.dup(),
        }
    }
}

/// Latency budgets for a repeated-send benchmark.
#[derive(Clone, Copy, PartialEq, Eq, Structural, Debug)]
pub struct Benchmark {
    pub times: u64,
    pub avg_ms: u64,
    pub p95_ms: u64,
    pub p99_ms: u64,
    pub time_ms: u64,
}

/// What a served TLS certificate must look like.
pub struct CertificateDetail {
    pub max_days: u64,
    pub subject: Option<String>,
    pub issuer: Option<String>,
}

/// Mathematical value of a `CertificateDetail`.
pub struct CertificateDetailView {
    pub max_days: u64,
    pub subject: Option<Seq<char>>,
    pub issuer: Option<Seq<char>>,
}

impl View for CertificateDetail {
    type V = CertificateDetailView;

    open spec fn view(&self) -> CertificateDetailView {
        CertificateDetailView {
            max_days: self.max_days,
            subject: self.subject.deep_view(),
            issuer: self.issuer.deep_view(),
        }
    }
}

impl DeepView for CertificateDetail {
    type V = CertificateDetailView;

    open spec fn deep_view(&self) -> CertificateDetailView {
        self@
    }
}

impl DupView for CertificateDetail {
    fn dup(&self) -> (r: Self)
        ensures
            r.deep_view() == self.deep_view(),
    {
        CertificateDetail {
            max_days: self.max_days,
            subject: self.subject.dup(),
            issuer: self.issuer.dup(),
        }
    }
}

/// One declarative unit: a request plus optional expectations.
pub struct Interaction {
    pub request: Request,
    pub response: Option<Response>,
    pub invalid: Option<Response>,
    pub examples: Option<Dict<Response>>,
    pub benchmark: Option<Benchmark>,
    pub cert: Option<CertificateDetail>,
}

/// Mathematical value of an `Interaction`.
pub struct InteractionView {
    pub request: RequestView,
    pub response: Option<ResponseView>,
    pub invalid: Option<ResponseView>,
    pub examples: Option<Seq<(Seq<char>, ResponseView)>>,
    pub benchmark: Option<Benchmark>,
    pub cert: Option<CertificateDetailView>,
}

impl View for Interaction {
    type V = InteractionView;

    open spec fn view(&self) -> InteractionView {
        InteractionView {
            request: self.request@,
            response: self.response.deep_view(),
            invalid: self.invalid.deep_view(),
            examples: self.examples.deep_view(),
            benchmark: self.benchmark,
            cert: self.cert.deep_view(),
        }
    }
}

impl DeepView for Interaction {
    type V = InteractionView;

    open spec fn deep_view(&self) -> InteractionView {
        self@
    }
}

impl DupView for Interaction {
    fn dup(&self) -> (r: Self)
        ensures
            r.deep_view() == self.deep_view(),
    {
        Interaction {
            request: self.request.dup(),
            response: self.response.dup(),
            invalid: self.invalid.dup(),
            examples: self.examples.dup(),
            benchmark: self.benchmark,
            cert: self.cert.dup(),
        }
    }
}

/// An ordered list of interactions, as a sequence document holds them.
pub struct SequenceInteractions {
    pub http_interactions: Vec<Interaction>,
}

/// Placeholder pattern bounds, kept for callers that configure the
/// template delimiters as a pair.
pub struct PrepareOpts {
    pub var_placeholder_open: String,
    pub var_placeholder_close: String,
}

/// Per-sequence configuration: the placeholder pattern, which must
/// contain the literal token `var`.
pub struct Config {
    pub var_braces: Option<String>,
}

/// Mutable per-sequence state: named string bindings and captured
/// responses.
pub struct Context {
    pub vars_bag: Dict<String>,
    pub response_bag: Dict<Response>,
    pub config: Config,
}

/// Mathematical value of a `Context`.
pub struct ContextView {
    pub vars: Seq<(Seq<char>, Seq<char>)>,
    pub responses: Seq<(Seq<char>, ResponseView)>,
    pub var_braces: Option<Seq<char>>,
}

impl View for Context {
    type V = ContextView;

    open spec fn view(&self) -> ContextView {
        ContextView {
            vars: self.vars_bag@,
            responses: self.response_bag@,
            var_braces: self.config.var_braces.deep_view(),
        }
    }
}

/// Both context tables carry unique keys.
pub open spec fn context_wf(c: ContextView) -> bool {
    dict_uniq(c.vars) && dict_uniq(c.responses)
}

impl Context {
    /// An empty context: no bindings, no responses, default braces.
    pub fn new() -> (c: Self)
        ensures
            c@.vars == Seq::<(Seq<char>, Seq<char>)>::empty(),
            c@.responses == Seq::<(Seq<char>, ResponseView)>::empty(),
            c@.var_braces is None,
            context_wf(c@),
    {
        Context {
            vars_bag: Dict::new(),
            response_bag: Dict::new(),
            config: Config { var_braces: None },
        }
    }
}

impl Default for Context {
    fn default() -> (c: Context)
        ensures
            c@.vars == Seq::<(Seq<char>, Seq<char>)>::empty(),
            c@.responses == Seq::<(Seq<char>, ResponseView)>::empty(),
            c@.var_braces is None,
            context_wf(c@),
    {
        Context::new()
    }
}

/// Run-level options, as a runner configuration document carries them.
pub struct Runner {
    pub exit_on_failure: bool,
}

impl Default for Runner {
    fn default() -> (r: Runner)
        ensures
            r.exit_on_failure == false,
    {
        Runner { exit_on_failure: false }
    }
}

/// The outcome of running one check on one interaction.  Either some
/// violations were found, or an error is set, or the check passed.
pub struct CheckResult {
    pub request: Request,
    pub response: Option<Response>,
    pub violations: Vec<Violation>,
    pub duration: Option<u64>,
    pub error: Option<String>,
    pub kind: String,
}

/// Mathematical value of a `CheckResult`.
pub struct CheckResultView {
    pub request: RequestView,
    pub response: Option<ResponseView>,
    pub violations: Seq<ViolationView>,
    pub duration: Option<u64>,
    pub error: Option<Seq<char>>,
    pub kind: Seq<char>,
}

impl View for CheckResult {
    type V = CheckResultView;

    open spec fn view(&self) -> CheckResultView {
        CheckResultView {
            request: self.request@,
            response: self.response.deep_view(),
            violations: self.violations.deep_view(),
            duration: self.duration,
            error: self.error.deep_view(),
            kind: self.kind@,
        }
    }
}

impl DeepView for CheckResult {
    type V = CheckResultView;

    open spec fn deep_view(&self) -> CheckResultView {
        self@
    }
}

/// The shape of a result for a check invoked on an interaction that
/// lacks the check's prerequisite field: no response, no violations,
/// zero duration, and the given error text.
pub open spec fn is_error_shape(
    r: CheckResultView,
    kind: Seq<char>,
    request: RequestView,
    error: Seq<char>,
) -> bool {
    &&& r.kind == kind
    &&& r.request == request
    &&& r.response is None
    &&& r.violations == Seq::<ViolationView>::empty()
    &&& r.duration == Some(0u64)
    &&& r.error == Some(error)
}

impl CheckResult {
    /// A result carrying only an error, for a check that could not run.
    pub fn invalid_err(kind: &str, interaction: &Interaction, text: &str) -> (r: Self)
        ensures
            is_error_shape(r@, kind@, interaction@.request, text@),
    {
        let r = CheckResult {
            request: interaction.request.dup(),
            response: None,
            violations: Vec::new(),
            duration: Some(0),
            error: Some(text.to_owned()),
            kind: kind.to_owned(),
        };
        proof {
            assert(r.violations.deep_view() =~= Seq::<ViolationView>::empty());
        }
        r
    }

    /// The standard result for a check whose prerequisite field is
    /// absent from the interaction.
    pub fn invalid(kind: &str, interaction: &Interaction) -> (r: Self)
        ensures
            is_error_shape(r@, kind@, interaction@.request, "Invalid check"@),
    {
        Self::invalid_err(kind, interaction, "Invalid check")
    }
}

/// The key under which a request files its response: its `id`, or the
/// literal `request` when it has none.
pub open spec fn spec_get_id(r: RequestView) -> Seq<char> {
    match r.id {
        Some(id) => id,
        None => "request"@,
    }
}

impl Request {
    /// The identifier used in reports and as the response key.
    pub fn get_id(&self) -> (r: String)
        ensures
            r@ == spec_get_id(self@),
    {
        match &self.id {
            Some(id) => id.clone(),
            None => "request".to_owned(),
        }
    }

    /// Human-readable description: the `desc` field (or nothing)
    /// followed by the URI in parentheses.
    pub fn get_desc(&self) -> (r: String)
        ensures
            r@ == match self@.desc {
                Some(d) => d,
                None => Seq::<char>::empty(),
            } + " ("@ + self@.uri + ")"@,
    {
        let mut out: String = match &self.desc {
            Some(d) => d.clone(),
            None => String::new(),
        };
        out.append(" (");
        out.append(self.uri.as_str());
        out.append(")");
        out
    }
}

impl Response {
    /// Copy every extracted variable of this response into the context's
    /// bindings; existing bindings of other names survive.
    pub fn save_vars(&self, context: &mut Context)
        requires
            context_wf(old(context)@),
        ensures
            context_wf(final(context)@),
            final(context)@.responses == old(context)@.responses,
            final(context)@.var_braces == old(context)@.var_braces,
            final(context)@.vars == match self@.vars {
                Some(vs) => spec_save_pairs(old(context)@.vars, vs),
                None => old(context)@.vars,
            },
            forall|k: Seq<char>|
                #[trigger] dict_has(final(context)@.vars, k) == (dict_has(old(context)@.vars, k)
                    || (self@.vars matches Some(vs) && dict_has(vs, k))),
    {
        if let Some(vars) = &self.vars {
            let n = vars.len();
            let mut i: usize = 0;
            proof {
                lemma_save_pairs_props(old(context)@.vars, vars@);
                assert(vars@.skip(0) =~= vars@);
            }
            while i < n
                invariant
                    i <= vars@.len(),
                    n == vars@.len(),
                    dict_uniq(context.vars_bag@),
                    context@.responses == old(context)@.responses,
                    context@.var_braces == old(context)@.var_braces,
                    spec_save_pairs(old(context)@.vars, vars@) == spec_save_pairs(
                        context@.vars,
                        vars@.skip(i as int),
                    ),
                decreases vars@.len() - i,
            {
                let k = vars.key_at(i).clone();
                let v = vars.val_at(i).clone();
                proof {
                    assert(vars@.skip(i as int).drop_first() =~= vars@.skip(i as int + 1));
                    assert(vars@.skip(i as int)[0] == vars@[i as int]);
                }
                self_insert(context, k, v);
                i = i + 1;
            }
            proof {
                assert(vars@.skip(n as int) =~= Seq::<(Seq<char>, Seq<char>)>::empty());
                lemma_save_pairs_props(old(context)@.vars, vars@);
            }
        }
    }

    /// File this response in the context under its `request_id`, if it
    /// has one; a response without an id is not filed.
    pub fn save_response(&self, context: &mut Context)
        requires
            context_wf(old(context)@),
        ensures
            context_wf(final(context)@),
            final(context)@.vars == old(context)@.vars,
            final(context)@.var_braces == old(context)@.var_braces,
            final(context)@.responses == match self@.request_id {
                Some(id) => dict_put(old(context)@.responses, id, self@),
                None => old(context)@.responses,
            },
    {
        if let Some(request_id) = &self.request_id {
            proof {
                crate::table::lemma_put_props(context@.responses, request_id@, self@);
            }
            context.response_bag.insert(request_id.clone(), self.dup());
        }
    }
}

/// Insert one binding; a helper so the loop above can call through a
/// function boundary that keeps the borrow checker satisfied.
fn self_insert(context: &mut Context, k: String, v: String)
    requires
        dict_uniq(old(context)@.vars),
    ensures
        dict_uniq(final(context)@.vars),
        final(context)@.vars == dict_put(old(context)@.vars, k@, v@),
        final(context)@.responses == old(context)@.responses,
        final(context)@.var_braces == old(context)@.var_braces,
{
    proof {
        crate::table::lemma_put_props(context@.vars, k@, v@);
    }
    context.vars_bag.insert(k, v);
}

/// Fold a pair sequence into a binding table, front to back.
pub open spec fn spec_save_pairs(
    binds: Seq<(Seq<char>, Seq<char>)>,
    pairs: Seq<(Seq<char>, Seq<char>)>,
) -> Seq<(Seq<char>, Seq<char>)>
    decreases pairs.len(),
{
    if pairs.len() == 0 {
        binds
    } else {
        spec_save_pairs(dict_put(binds, pairs[0].0, pairs[0].1), pairs.drop_first())
    }
}

/// Folding pairs in keeps uniqueness, and the folded table carries a key
/// exactly when the original table or the pair sequence carries it.
pub proof fn lemma_save_pairs_props(
    binds: Seq<(Seq<char>, Seq<char>)>,
    pairs: Seq<(Seq<char>, Seq<char>)>,
)
    requires
        dict_uniq(binds),
    ensures
        dict_uniq(spec_save_pairs(binds, pairs)),
        forall|k: Seq<char>|
            #[trigger] dict_has(spec_save_pairs(binds, pairs), k) == (dict_has(binds, k)
                || dict_has(pairs, k)),
    decreases pairs.len(),
{
    if pairs.len() == 0 {
        assert forall|k: Seq<char>|
            #[trigger] dict_has(spec_save_pairs(binds, pairs), k) == (dict_has(binds, k)
                || dict_has(pairs, k)) by {
            if dict_has(pairs, k) {
                let i = choose|i: int| 0 <= i < pairs.len() && pairs[i].0 == k;
            }
        }
    } else {
        let binds2 = dict_put(binds, pairs[0].0, pairs[0].1);
        crate::table::lemma_put_props(binds, pairs[0].0, pairs[0].1);
        lemma_save_pairs_props(binds2, pairs.drop_first());
        let rest = pairs.drop_first();
        assert forall|k: Seq<char>|
            #[trigger] dict_has(spec_save_pairs(binds, pairs), k) == (dict_has(binds, k)
                || dict_has(pairs, k)) by {
            assert(dict_has(spec_save_pairs(binds2, rest), k) == (dict_has(binds2, k) || dict_has(
                rest,
                k,
            )));
            if dict_has(rest, k) {
                let i = choose|i: int| 0 <= i < rest.len() && rest[i].0 == k;
                assert(pairs[i + 1].0 == k);
            }
            if dict_has(pairs, k) && !dict_has(rest, k) {
                let i = choose|i: int| 0 <= i < pairs.len() && pairs[i].0 == k;
                if i > 0 {
                    assert(rest[i - 1].0 == k);
                }
                assert(k == pairs[0].0);
            }
        }
    }
}

/// Folding pairs whose keys are fresh appends them in order.
pub proof fn lemma_save_pairs_flat(
    acc: Seq<(Seq<char>, Seq<char>)>,
    pairs: Seq<(Seq<char>, Seq<char>)>,
)
    requires
        dict_uniq(acc + pairs),
    ensures
        spec_save_pairs(acc, pairs) == acc + pairs,
    decreases pairs.len(),
{
    if pairs.len() == 0 {
        assert(acc + pairs =~= acc);
    } else {
        let whole = acc + pairs;
        assert(!dict_has(acc, pairs[0].0)) by {
            if dict_has(acc, pairs[0].0) {
                let i = choose|i: int| 0 <= i < acc.len() && acc[i].0 == pairs[0].0;
                assert(whole[i] == acc[i]);
                assert(whole[acc.len() as int] == pairs[0]);
            }
        }
        crate::table::lemma_put_end(acc, pairs[0].0, pairs[0].1);
        let acc2 = acc.push(pairs[0]);
        assert(dict_put(acc, pairs[0].0, pairs[0].1) =~= acc2);
        assert(acc2 + pairs.drop_first() =~= acc + pairs);
        lemma_save_pairs_flat(acc2, pairs.drop_first());
        assert(spec_save_pairs(acc, pairs) == spec_save_pairs(acc2, pairs.drop_first()));
    }
}

/// The pluggable transport.  `send_model` names what a deterministic
/// implementation answers for a prepared interaction; a live network
/// transport leaves `is_deterministic` false and promises nothing.
pub trait Sender {
    /// Whether `send` is a pure function of the interaction.
    open spec fn is_deterministic(&self) -> bool {
        false
    }

    /// The answer a deterministic implementation gives.
    open spec fn send_model(&self, interaction: InteractionView) -> Result<ResponseView, Seq<char>> {
        Err(Seq::<char>::empty())
    }

    /// Perform the interaction's request and hand back the wire response.
    fn send(&self, interaction: &Interaction) -> (r: Result<Response, String>)
        ensures
            self.is_deterministic() ==> res_view(&r) == self.send_model(interaction@),
    ;
}

/// The view of a send outcome.
pub open spec fn res_view(r: &Result<Response, String>) -> Result<ResponseView, Seq<char>> {
    match r {
        Ok(resp) => Ok(resp@),
        Err(e) => Err(e@),
    }
}

/// A named check: one operation from context and interaction to a
/// result.
pub trait Check {
    /// The check's kind tag.
    fn name(&self) -> &'static str;

    /// Run the check once.
    fn perform(&self, context: &mut Context, interaction: &Interaction) -> CheckResult
        requires
            context_wf(old(context)@),
    ;
}

/// A sink for the runner's per-step events.
pub trait ReporterOutput {
    /// A step is about to run.
    fn start(&mut self, interaction: &Interaction);

    /// A step finished with the given result.
    fn report(&mut self, interaction: &Interaction, check_result: &CheckResult);

    /// The whole sequence finished.
    fn end(&mut self, interactions: &[Interaction], results: &[CheckResult]);
}

} // verus!
