//! The content check: prepare the request, send it, enrich and save the
//! response, guard against the invalid shape, and match the wire
//! response against the recorded one.
use vstd::prelude::*;

use crate::clock::{elapsed_ms, instant_now};
use crate::data::{
    context_wf, is_error_shape, Check, CheckResult, Context, Interaction, Sender,
};
use crate::interact::{attach_vars_spec, fmt_of, params_ok, prepared_interaction, saved_ctx};
use crate::matcher::{match_violations, patterns_ok, RegexMatcher};
use crate::table::{dict_has, DupView};

verus! {

/// The content check, bound to a transport.
pub struct ContentCheck<'a, S: Sender> {
    pub sender: &'a S,
}

impl<'a, S: Sender> ContentCheck<'a, S> {
    /// A content check using the given transport.
    pub fn new(sender: &'a S) -> (r: Self)
        ensures
            r.sender == sender,
    {
        ContentCheck { sender }
    }

    /// Run the check once.  The contract pins the whole outcome: an
    /// interaction without an expected response is an invalid check; a
    /// missing prerequisite or transport failure carries an error and
    /// no violations; on success the result holds the enriched wire
    /// response, the violations are exactly the matcher's verdict on
    /// it, the invalid shape did not match, and the context has
    /// absorbed the response.
    pub fn perform(&self, context: &mut Context, interaction: &Interaction) -> (r: CheckResult)
        requires
            context_wf(old(context)@),
        ensures
            context_wf(final(context)@),
            final(context)@.var_braces == old(context)@.var_braces,
            forall|k: Seq<char>|
                dict_has(old(context)@.vars, k) ==> dict_has(final(context)@.vars, k),
            r@.kind == "content"@,
            r@.request == interaction@.request,
            interaction@.response is None ==> is_error_shape(
                r@,
                "content"@,
                interaction@.request,
                "Invalid check"@,
            ) && final(context)@ == old(context)@,
            r@.error is Some ==> r@.violations == Seq::<crate::data::ViolationView>::empty()
                && r@.response is None,
            r@.duration is Some,
            interaction@.response matches Some(rec) ==> (r@.error is None ==> patterns_ok(rec)),
            interaction@.invalid matches Some(inv) ==> (r@.error is None ==> patterns_ok(inv)),
            (interaction@.response is Some && !params_ok(
                interaction@.request,
                old(context)@.vars,
            )) ==> r@.error is Some && final(context)@ == old(context)@,
            r@.error is None ==> (r@.response matches Some(resp) && r@.violations
                == match_violations("content"@, resp, interaction@.response) && (
            interaction@.invalid matches Some(inv) ==> match_violations(
                "content"@,
                resp,
                Some(inv),
            ).len() > 0) && final(context)@ == saved_ctx(old(context)@, resp) && (
            interaction@.request.vars matches Some(infos) ==> forall|k: Seq<char>|
                dict_has(infos, k) ==> dict_has(final(context)@.vars, k))),
            (self.sender.is_deterministic() && interaction@.request.vars_command is None
                && r@.error is None) ==> (self.sender.send_model(
                prepared_interaction(interaction@, old(context)@.vars, fmt_of(old(context)@)),
            ) matches Ok(w0) && r@.response == Some(
                attach_vars_spec(w0, interaction@.request.vars),
            )),
    {
        if interaction.response.is_none() {
            return CheckResult::invalid("content", interaction);
        }
        let start = instant_now();
        match interaction.send_with_context(self.sender, context) {
            Err(e) => CheckResult {
                kind: "content".to_owned(),
                request: interaction.request.dup(),
                response: None,
                violations: Vec::new(),
                duration: Some(elapsed_ms(&start)),
                error: Some(e),
            },
            Ok(resp) => {
                let matcher = RegexMatcher::new("content");
                match matcher.is_match(&resp, interaction.invalid.as_ref()) {
                    Err(e) => CheckResult {
                        kind: "content".to_owned(),
                        request: interaction.request.dup(),
                        response: None,
                        violations: Vec::new(),
                        duration: Some(elapsed_ms(&start)),
                        error: Some(e),
                    },
                    Ok(vs) => {
                        if vs.len() == 0 {
                            proof {
                                assert(vs.deep_view() =~= Seq::<
                                    crate::data::ViolationView,
                                >::empty());
                            }
                            return CheckResult::invalid_err(
                                "content",
                                interaction,
                                "matched invalid response",
                            );
                        }
                        match matcher.is_match(&resp, interaction.response.as_ref()) {
                            Err(e) => CheckResult {
                                kind: "content".to_owned(),
                                request: interaction.request.dup(),
                                response: None,
                                violations: Vec::new(),
                                duration: Some(elapsed_ms(&start)),
                                error: Some(e),
                            },
                            Ok(vs2) => CheckResult {
                                kind: "content".to_owned(),
                                request: interaction.request.dup(),
                                response: Some(resp),
                                violations: vs2,
                                duration: Some(elapsed_ms(&start)),
                                error: None,
                            },
                        }
                    },
                }
            },
        }
    }
}

impl<'a, S: Sender> Check for ContentCheck<'a, S> {
    fn name(&self) -> &'static str {
        "content"
    }

    fn perform(&self, context: &mut Context, interaction: &Interaction) -> CheckResult {
        self.perform(context, interaction)
    }
}

} // verus!
