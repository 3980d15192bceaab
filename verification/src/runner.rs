//! The sequence runner: drive the content check over an ordered list of
//! interactions, fan the per-step events out to a reporter, and compute
//! the aggregate verdict, optionally under flip polarity.
use vstd::prelude::*;

use crate::content::ContentCheck;
use crate::data::{
    context_wf, CheckResult, CheckResultView, Context, Interaction, InteractionView,
    ReporterOutput, Sender, ViolationView,
};
use crate::interact::{attach_vars_spec, fmt_of, prepared_interaction, saved_ctx};
use crate::matcher::match_violations;

verus! {

/// The aggregate outcome.  Normal mode asks each step for an empty
/// violation list and no error; flip mode asks each step for a
/// non-empty violation list, still with no error.
pub open spec fn ok_spec(results: Seq<CheckResultView>, flip: bool) -> bool {
    if flip {
        (forall|i: int| 0 <= i < results.len() ==> (#[trigger] results[i]).violations.len() > 0)
            && (forall|i: int| 0 <= i < results.len() ==> (#[trigger] results[i]).error is None)
    } else {
        (forall|i: int| 0 <= i < results.len() ==> (#[trigger] results[i]).violations.len() == 0)
            && (forall|i: int| 0 <= i < results.len() ==> (#[trigger] results[i]).error is None)
    }
}

/// What one successful content step yields for a deterministic sender:
/// the violations, and the context the step leaves behind.
pub open spec fn model_step<S: Sender>(s: &S, ctx: crate::data::ContextView, iv: InteractionView)
    -> (Seq<ViolationView>, crate::data::ContextView) {
    let prepared = prepared_interaction(iv, ctx.vars, fmt_of(ctx));
    match s.send_model(prepared) {
        Ok(w) => {
            let resp = attach_vars_spec(w, iv.request.vars);
            (match_violations("content"@, resp, iv.response), saved_ctx(ctx, resp))
        },
        Err(_) => (Seq::<ViolationView>::empty(), ctx),
    }
}

/// The violation lists an error-free run over a deterministic sender
/// yields, step by step.
pub open spec fn run_model<S: Sender>(
    s: &S,
    ctx: crate::data::ContextView,
    sequence: Seq<InteractionView>,
) -> Seq<Seq<ViolationView>>
    decreases sequence.len(),
{
    if sequence.len() == 0 {
        Seq::<Seq<ViolationView>>::empty()
    } else {
        let stepped = model_step(s, ctx, sequence[0]);
        seq![stepped.0] + run_model(s, stepped.1, sequence.drop_first())
    }
}

/// The violations of each result, in order.
pub open spec fn violations_of(results: Seq<CheckResultView>) -> Seq<Seq<ViolationView>> {
    results.map_values(|r: CheckResultView| r.violations)
}

/// No step names a vars command.
pub open spec fn no_vars_commands(sequence: Seq<InteractionView>) -> bool {
    forall|i: int|
        0 <= i < sequence.len() ==> (#[trigger] sequence[i]).request.vars_command is None
}

/// Every step ran without an error.
pub open spec fn all_error_free(results: Seq<CheckResultView>) -> bool {
    forall|i: int| 0 <= i < results.len() ==> (#[trigger] results[i]).error is None
}

/// The runner: a transport, the flip flag, and nothing else; sinks are
/// handed to `run` by the caller.
pub struct SequenceRunner<'a, S: Sender> {
    pub sender: &'a S,
    pub flip: bool,
}

/// The aggregate outcome of a run.
pub struct RunnerReport {
    pub ok: bool,
    pub results: Vec<CheckResult>,
}

impl<'a, S: Sender> SequenceRunner<'a, S> {
    /// A runner over the given transport.
    pub fn new(sender: &'a S, flip: bool) -> (r: Self)
        ensures
            r.sender == sender,
            r.flip == flip,
    {
        SequenceRunner { sender, flip }
    }

    /// Run the content check over every interaction in order, reporting
    /// each step, and aggregate the verdict.  An empty sequence is
    /// vacuously `ok`, under either polarity.  For a deterministic
    /// transport and a sequence without vars commands, an error-free
    /// run's violations are exactly `run_model`: the whole outcome is a
    /// function of the starting context and the sequence.
    #[verifier::loop_isolation(false)]
    pub fn run<R: ReporterOutput>(
        &self,
        context: &mut Context,
        sequence: &Vec<Interaction>,
        reporter: &mut R,
    ) -> (r: RunnerReport)
        requires
            context_wf(old(context)@),
        ensures
            context_wf(final(context)@),
            r.results@.len() == sequence@.len(),
            r.ok == ok_spec(r.results.deep_view(), self.flip),
            sequence@.len() == 0 ==> r.ok,
            (self.sender.is_deterministic() && no_vars_commands(sequence.deep_view())
                && all_error_free(r.results.deep_view())) ==> violations_of(
                r.results.deep_view(),
            ) == run_model(self.sender, old(context)@, sequence.deep_view()),
    {
        let ghost svs = sequence.deep_view();
        let mut results: Vec<CheckResult> = Vec::new();
        let n = sequence.len();
        let mut i: usize = 0;
        proof {
            assert(svs.skip(0) =~= svs);
        }
        while i < n
            invariant
                i <= svs.len(),
                n == svs.len(),
                context_wf(context@),
                results@.len() == i,
                (self.sender.is_deterministic() && no_vars_commands(svs) && all_error_free(
                    results.deep_view(),
                )) ==> run_model(self.sender, old(context)@, svs) == violations_of(
                    results.deep_view(),
                ) + run_model(self.sender, context@, svs.skip(i as int)),
            decreases n - i,
        {
            let interaction = &sequence[i];
            let checker = ContentCheck::new(self.sender);
            reporter.start(interaction);
            let ghost ctx_before = context@;
            let ghost results_before = results.deep_view();
            let res = checker.perform(context, interaction);
            reporter.report(interaction, &res);
            let ghost rv = res@;
            results.push(res);
            i = i + 1;
            proof {
                assert(results.deep_view() =~= results_before.push(rv));
                if self.sender.is_deterministic() && no_vars_commands(svs) && all_error_free(
                    results.deep_view(),
                ) {
                    assert(all_error_free(results_before)) by {
                        assert forall|j: int|
                            0 <= j < results_before.len() implies (#[trigger] results_before[j]).error
                            is None by {
                            assert(results.deep_view()[j] == results_before[j]);
                        }
                    }
                    assert(rv.error is None) by {
                        assert(results.deep_view()[i - 1] == rv);
                    }
                    assert(svs.skip(i - 1)[0] == svs[i - 1]);
                    assert(svs.skip(i - 1).drop_first() =~= svs.skip(i as int));
                    let stepped = model_step(self.sender, ctx_before, svs[i - 1]);
                    assert(rv.violations == stepped.0 && context@ == stepped.1) by {
                        assert(svs[i - 1].request.vars_command is None);
                    }
                    assert(violations_of(results.deep_view()) =~= violations_of(results_before)
                        + seq![rv.violations]);
                    assert(violations_of(results_before) + (seq![stepped.0] + run_model(
                        self.sender,
                        stepped.1,
                        svs.skip(i as int),
                    )) =~= (violations_of(results_before) + seq![rv.violations]) + run_model(
                        self.sender,
                        context@,
                        svs.skip(i as int),
                    ));
                }
            }
        }
        reporter.end(sequence.as_slice(), results.as_slice());
        let ok = if self.flip {
            all_violations_nonempty(&results) && no_errors(&results)
        } else {
            all_violations_empty(&results) && no_errors(&results)
        };
        proof {
            assert(svs.skip(n as int) =~= Seq::<InteractionView>::empty());
            assert(violations_of(results.deep_view()) + Seq::<Seq<ViolationView>>::empty()
                =~= violations_of(results.deep_view()));
        }
        RunnerReport { ok, results }
    }
}

/// Every result shows at least one violation.
fn all_violations_nonempty(results: &Vec<CheckResult>) -> (r: bool)
    ensures
        r == forall|i: int|
            0 <= i < results.deep_view().len() ==> (#[trigger] results.deep_view()[i]).violations.len()
                > 0,
{
    let mut i: usize = 0;
    while i < results.len()
        invariant
            i <= results@.len(),
            forall|j: int|
                0 <= j < i ==> (#[trigger] results.deep_view()[j]).violations.len() > 0,
        decreases results@.len() - i,
    {
        if results[i].violations.len() == 0 {
            proof {
                assert((results.deep_view()[i as int]).violations.len() == 0);
            }
            return false;
        }
        i = i + 1;
    }
    true
}

/// Every result shows no violations.
fn all_violations_empty(results: &Vec<CheckResult>) -> (r: bool)
    ensures
        r == forall|i: int|
            0 <= i < results.deep_view().len() ==> (#[trigger] results.deep_view()[i]).violations.len()
                == 0,
{
    let mut i: usize = 0;
    while i < results.len()
        invariant
            i <= results@.len(),
            forall|j: int|
                0 <= j < i ==> (#[trigger] results.deep_view()[j]).violations.len() == 0,
        decreases results@.len() - i,
    {
        if results[i].violations.len() > 0 {
            proof {
                assert((results.deep_view()[i as int]).violations.len() > 0);
            }
            return false;
        }
        i = i + 1;
    }
    true
}

/// Every result is free of errors.
fn no_errors(results: &Vec<CheckResult>) -> (r: bool)
    ensures
        r == all_error_free(results.deep_view()),
{
    let mut i: usize = 0;
    while i < results.len()
        invariant
            i <= results@.len(),
            forall|j: int| 0 <= j < i ==> (#[trigger] results.deep_view()[j]).error is None,
        decreases results@.len() - i,
    {
        if results[i].error.is_some() {
            proof {
                assert((results.deep_view()[i as int]).error is Some);
            }
            return false;
        }
        i = i + 1;
    }
    true
}

} // verus!
