//! Reporter fan-out: one handle that forwards each runner event to a
//! list of sinks, in order.  The sinks that render to a console or to
//! files live outside the library and implement `ReporterOutput`.
use vstd::prelude::*;

use crate::data::{CheckResult, Interaction, ReporterOutput};

verus! {

/// A sink that swallows every event.
pub struct NullReporter {}

impl ReporterOutput for NullReporter {
    fn start(&mut self, _interaction: &Interaction) {
    }

    fn report(&mut self, _interaction: &Interaction, _check_result: &CheckResult) {
    }

    fn end(&mut self, _interactions: &[Interaction], _results: &[CheckResult]) {
    }
}

/// A fan-out over a list of sinks of one kind.
pub struct Reporter<R> {
    pub outputs: Vec<R>,
}

impl<R: ReporterOutput> Reporter<R> {
    /// A fan-out over the given sinks.
    pub fn new(outputs: Vec<R>) -> (r: Self)
        ensures
            r.outputs@.len() == outputs@.len(),
    {
        Reporter { outputs }
    }

    /// Forward a start event to every sink.
    pub fn start(&mut self, inter: &Interaction) {
        let mut rest: Vec<R> = Vec::new();
        core::mem::swap(&mut rest, &mut self.outputs);
        let mut done: Vec<R> = Vec::new();
        while rest.len() > 0
            decreases rest@.len(),
        {
            let mut o = rest.remove(0);
            o.start(inter);
            done.push(o);
        }
        self.outputs = done;
    }

    /// Forward a step result to every sink.
    pub fn report(&mut self, inter: &Interaction, check_result: &CheckResult) {
        let mut rest: Vec<R> = Vec::new();
        core::mem::swap(&mut rest, &mut self.outputs);
        let mut done: Vec<R> = Vec::new();
        while rest.len() > 0
            decreases rest@.len(),
        {
            let mut o = rest.remove(0);
            o.report(inter, check_result);
            done.push(o);
        }
        self.outputs = done;
    }

    /// Forward the end event to every sink.
    pub fn end(&mut self, interactions: &[Interaction], results: &[CheckResult]) {
        let mut rest: Vec<R> = Vec::new();
        core::mem::swap(&mut rest, &mut self.outputs);
        let mut done: Vec<R> = Vec::new();
        while rest.len() > 0
            decreases rest@.len(),
        {
            let mut o = rest.remove(0);
            o.end(interactions, results);
            done.push(o);
        }
        self.outputs = done;
    }
}

impl<R: ReporterOutput> ReporterOutput for Reporter<R> {
    fn start(&mut self, interaction: &Interaction) {
        self.start(interaction)
    }

    fn report(&mut self, interaction: &Interaction, check_result: &CheckResult) {
        self.report(interaction, check_result)
    }

    fn end(&mut self, interactions: &[Interaction], results: &[CheckResult]) {
        self.end(interactions, results)
    }
}

} // verus!
