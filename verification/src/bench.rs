//! The latency benchmark check: send the prepared request `times` times,
//! record each elapsed millisecond count into a histogram, and compare
//! the measured p95, p99, mean and total against the budgets.
use vstd::prelude::*;
use vstd::multiset::Multiset;

use crate::clock::{elapsed_ms, instant_now};
use crate::data::{
    context_wf, is_error_shape, Benchmark, Cause, Check, CheckResult, Context, Interaction,
    Sender, Violation, ViolationView,
};
use crate::table::DupView;
use crate::text::{dec_digits, u64_to_string, string_of};

verus! {

#[verifier::external_type_specification]
#[verifier::external_body]
pub struct ExHistogram(histogram::Histogram);

/// The samples a histogram has counted.  A sample beyond the
/// histogram's range is still counted, though storing it reports an
/// error.
pub uninterp spec fn hist_samples(h: histogram::Histogram) -> Multiset<u64>;

/// Relies on `Histogram::new`: a fresh histogram counts no samples.
#[verifier::external_body]
fn hist_new() -> (h: histogram::Histogram)
    ensures
        hist_samples(h) == Multiset::<u64>::empty(),
{
    histogram::Histogram::new()
}

/// Relies on `Histogram::increment`: the sample joins the count (the
/// stored value is bucketed; a value beyond the histogram's range is
/// counted but answered with an error).
#[verifier::external_body]
fn hist_record(h: &mut histogram::Histogram, value: u64) -> (r: Result<(), String>)
    ensures
        hist_samples(*final(h)) == hist_samples(*old(h)).insert(value),
{
    match h.increment(value) {
        Ok(()) => Ok(()),
        Err(e) => Err(e.to_owned()),
    }
}

/// The value `Histogram::percentile` answers for a given sample count:
/// the buckets, totals and missed counters are all determined by the
/// multiset of values handed in, so the answer is a function of the
/// samples and the requested percent.
pub uninterp spec fn hist_percentile_of(samples: Multiset<u64>, percent: u8) -> u64;

/// The value `Histogram::mean` answers, a function of the samples.
pub uninterp spec fn hist_mean_of(samples: Multiset<u64>) -> u64;

/// Relies on `Histogram::percentile`: a histogram that counted no
/// samples answers with an error; otherwise the answer approximates the
/// requested percentile of the counted samples, and depends on them and
/// the percent alone.
#[verifier::external_body]
fn hist_percentile(h: &histogram::Histogram, percent: u8) -> (r: Result<u64, String>)
    ensures
        hist_samples(*h).len() == 0 ==> r is Err,
        r matches Ok(v) ==> v == hist_percentile_of(hist_samples(*h), percent),
{
    match h.percentile(percent.into()) {
        Ok(v) => Ok(v),
        Err(e) => Err(e.to_owned()),
    }
}

/// Relies on `Histogram::mean`: an error exactly on a histogram that
/// counted no samples, else an approximate mean that depends on the
/// counted samples alone.
#[verifier::external_body]
fn hist_mean(h: &histogram::Histogram) -> (r: Result<u64, String>)
    ensures
        r is Ok <==> hist_samples(*h).len() > 0,
        r matches Ok(v) ==> v == hist_mean_of(hist_samples(*h)),
{
    match h.mean() {
        Ok(v) => Ok(v),
        Err(e) => Err(e.to_owned()),
    }
}

/// One run's measured figures.
pub struct BenchMeasure {
    pub p95: u64,
    pub p99: u64,
    pub avg: u64,
    pub total: u128,
}

/// One budget violation.
pub open spec fn budget_violation(subject: Seq<char>, wire: Seq<char>, recorded: Seq<char>)
    -> ViolationView {
    ViolationView {
        kind: "bench"@,
        cause: Cause::Mismatch,
        subject,
        on: None,
        wire: Some(wire),
        recorded,
    }
}

/// The violations a measured run yields against the budgets, in the
/// order p95, p99, avg, time: one per budget exceeded.
pub open spec fn bench_violations(m: BenchMeasure, b: Benchmark) -> Seq<ViolationView> {
    (if m.p95 > b.p95_ms {
        seq![budget_violation("p95"@, dec_digits(m.p95 as nat), dec_digits(b.p95_ms as nat))]
    } else {
        Seq::<ViolationView>::empty()
    }) + (if m.p99 > b.p99_ms {
        seq![budget_violation("p99"@, dec_digits(m.p99 as nat), dec_digits(b.p99_ms as nat))]
    } else {
        Seq::<ViolationView>::empty()
    }) + (if m.avg > b.avg_ms {
        seq![budget_violation("avg"@, dec_digits(m.avg as nat), dec_digits(b.avg_ms as nat))]
    } else {
        Seq::<ViolationView>::empty()
    }) + (if m.total > b.time_ms {
        seq![budget_violation("time"@, dec_digits(m.total as nat), dec_digits(b.time_ms as nat))]
    } else {
        Seq::<ViolationView>::empty()
    })
}

/// Decimal rendering of a `u128`.
pub fn u128_to_string(n: u128) -> (r: String)
    ensures
        r@ == dec_digits(n as nat),
{
    let mut digits: Vec<char> = Vec::new();
    u128_digits(n, &mut digits);
    string_of(&digits)
}

/// Push the decimal digits of `n` onto `digits`.
fn u128_digits(n: u128, digits: &mut Vec<char>)
    ensures
        final(digits)@ == old(digits)@ + dec_digits(n as nat),
    decreases n,
{
    if n < 10 {
        let c = crate::text::digit_to_char(n as u64);
        digits.push(c);
        proof {
            assert(digits@ =~= old(digits)@ + dec_digits(n as nat));
        }
    } else {
        u128_digits(n / 10, digits);
        let c = crate::text::digit_to_char((n % 10) as u64);
        digits.push(c);
        proof {
            assert(digits@ =~= old(digits)@ + dec_digits(n as nat));
        }
    }
}

/// The latency benchmark check, bound to a transport.
pub struct Bench<'a, S: Sender> {
    pub sender: &'a S,
}

impl<'a, S: Sender> Bench<'a, S> {
    /// A benchmark check using the given transport.
    pub fn new(sender: &'a S) -> (r: Self)
        ensures
            r.sender == sender,
    {
        Bench { sender }
    }

    /// Run the benchmark once.  An interaction without a benchmark is
    /// an invalid check; a benchmark asking for no samples yields an
    /// error, never misleading empty violations; an error-free run's
    /// violations are exactly the budget comparisons for some measured
    /// figures.
    #[verifier::loop_isolation(false)]
    pub fn perform(&self, context: &mut Context, interaction: &Interaction) -> (r: CheckResult)
        requires
            context_wf(old(context)@),
        ensures
            context_wf(final(context)@),
            final(context)@ == old(context)@,
            r@.kind == "bench"@,
            interaction@.benchmark is None ==> is_error_shape(
                r@,
                "bench"@,
                interaction@.request,
                "Invalid check"@,
            ),
            r@.error is Some ==> r@.violations == Seq::<ViolationView>::empty(),
            r@.response is None,
            (interaction@.benchmark is Some && !crate::interact::params_ok(
                interaction@.request,
                old(context)@.vars,
            )) ==> r@.error is Some && r@.duration == Some(0u64),
            (interaction@.benchmark matches Some(b) && b.times == 0) ==> r@.error is Some,
            r@.error is None ==> (interaction@.benchmark matches Some(b) && exists|
                m: BenchMeasure,
            |
                r@.violations == #[trigger] bench_violations(m, b) && (exists|
                    samples: Multiset<u64>,
                |
                    samples.len() == b.times && m.p95 == #[trigger] hist_percentile_of(
                        samples,
                        95,
                    ) && m.p99 == hist_percentile_of(samples, 99) && m.avg == hist_mean_of(
                        samples,
                    ))),
    {
        let benchmark = match &interaction.benchmark {
            None => {
                return CheckResult::invalid("bench", interaction);
            },
            Some(b) => *b,
        };
        let prepared = match interaction.prepare_with(context) {
            Ok(p) => p,
            Err(e) => {
                return CheckResult {
                    kind: "bench".to_owned(),
                    request: interaction.request.dup(),
                    response: None,
                    violations: Vec::new(),
                    duration: Some(0),
                    error: Some(e),
                };
            },
        };
        let mut h = hist_new();
        let mut total: u128 = 0;
        let mut sent: u64 = 0;
        while sent < benchmark.times
            invariant
                context@ == old(context)@,
                sent <= benchmark.times,
                hist_samples(h).len() == sent as nat,
            decreases benchmark.times - sent,
        {
            let start = instant_now();
            match prepared.send(self.sender) {
                Ok(_) => {},
                Err(e) => {
                    return CheckResult {
                        kind: "bench".to_owned(),
                        request: interaction.request.dup(),
                        response: None,
                        violations: Vec::new(),
                        duration: Some(elapsed_ms(&start)),
                        error: Some(e),
                    };
                },
            }
            let ms = elapsed_ms(&start);
            match hist_record(&mut h, ms) {
                Ok(()) => {},
                Err(e) => {
                    return CheckResult {
                        kind: "bench".to_owned(),
                        request: interaction.request.dup(),
                        response: None,
                        violations: Vec::new(),
                        duration: Some(ms),
                        error: Some(e),
                    };
                },
            }
            if total <= u128::MAX - (ms as u128) {
                total = total + (ms as u128);
            } else {
                total = u128::MAX;
            }
            sent = sent + 1;
        }
        let p95 = match hist_percentile(&h, 95) {
            Ok(v) => v,
            Err(e) => {
                return CheckResult {
                    kind: "bench".to_owned(),
                    request: interaction.request.dup(),
                    response: None,
                    violations: Vec::new(),
                    duration: None,
                    error: Some(e),
                };
            },
        };
        let p99 = match hist_percentile(&h, 99) {
            Ok(v) => v,
            Err(e) => {
                return CheckResult {
                    kind: "bench".to_owned(),
                    request: interaction.request.dup(),
                    response: None,
                    violations: Vec::new(),
                    duration: None,
                    error: Some(e),
                };
            },
        };
        let avg = match hist_mean(&h) {
            Ok(v) => v,
            Err(e) => {
                return CheckResult {
                    kind: "bench".to_owned(),
                    request: interaction.request.dup(),
                    response: None,
                    violations: Vec::new(),
                    duration: None,
                    error: Some(e),
                };
            },
        };
        let ghost measured = BenchMeasure { p95, p99, avg, total };
        let mut violations: Vec<Violation> = Vec::new();
        if p95 > benchmark.p95_ms {
            violations.push(
                Violation {
                    kind: "bench".to_owned(),
                    cause: Cause::Mismatch,
                    subject: "p95".to_owned(),
                    on: None,
                    wire: Some(u64_to_string(p95)),
                    recorded: u64_to_string(benchmark.p95_ms),
                },
            );
        }
        if p99 > benchmark.p99_ms {
            violations.push(
                Violation {
                    kind: "bench".to_owned(),
                    cause: Cause::Mismatch,
                    subject: "p99".to_owned(),
                    on: None,
                    wire: Some(u64_to_string(p99)),
                    recorded: u64_to_string(benchmark.p99_ms),
                },
            );
        }
        if avg > benchmark.avg_ms {
            violations.push(
                Violation {
                    kind: "bench".to_owned(),
                    cause: Cause::Mismatch,
                    subject: "avg".to_owned(),
                    on: None,
                    wire: Some(u64_to_string(avg)),
                    recorded: u64_to_string(benchmark.avg_ms),
                },
            );
        }
        if total > benchmark.time_ms as u128 {
            violations.push(
                Violation {
                    kind: "bench".to_owned(),
                    cause: Cause::Mismatch,
                    subject: "time".to_owned(),
                    on: None,
                    wire: Some(u128_to_string(total)),
                    recorded: u64_to_string(benchmark.time_ms),
                },
            );
        }
        proof {
            assert(violations.deep_view() =~= bench_violations(measured, benchmark));
            assert(hist_samples(h).len() == benchmark.times);
        }
        CheckResult {
            kind: "bench".to_owned(),
            request: prepared.request.dup(),
            response: None,
            violations,
            duration: None,
            error: None,
        }
    }
}

impl<'a, S: Sender> Check for Bench<'a, S> {
    fn name(&self) -> &'static str {
        "bench"
    }

    fn perform(&self, context: &mut Context, interaction: &Interaction) -> CheckResult {
        self.perform(context, interaction)
    }
}

} // verus!
