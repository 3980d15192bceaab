//! The certificate check's decision logic.  Opening the TLS connection
//! and parsing the served certificate happen outside the library; what
//! comes back is an observation in plain values -- the expiry instant,
//! its rendering, and the RFC 4514 issuer and subject names -- and this
//! module turns it into a verdict.
use vstd::prelude::*;

use crate::data::{
    is_error_shape, Cause, CertificateDetailView, CheckResult, Interaction, Violation,
    ViolationView,
};
use crate::matcher::opt_to_seq;
use crate::rx::{regex_is_match, regex_match, regex_ok};
use crate::table::DupView;
use crate::text::{dec_digits, u64_to_string};

verus! {

/// What the caller observed of the served certificate.
pub struct CertObservation {
    pub not_after_unix: i64,
    pub not_after_repr: String,
    pub issuer: String,
    pub subject: String,
}

/// Mathematical value of a `CertObservation`.
pub struct CertObservationView {
    pub not_after_unix: i64,
    pub not_after_repr: Seq<char>,
    pub issuer: Seq<char>,
    pub subject: Seq<char>,
}

impl View for CertObservation {
    type V = CertObservationView;

    open spec fn view(&self) -> CertObservationView {
        CertObservationView {
            not_after_unix: self.not_after_unix,
            not_after_repr: self.not_after_repr@,
            issuer: self.issuer@,
            subject: self.subject@,
        }
    }
}

/// Whole days between two instants, truncated toward zero.
pub open spec fn days_between(later: int, earlier: int) -> int {
    let d = later - earlier;
    if d >= 0 {
        d / 86400
    } else {
        -((-d) / 86400)
    }
}

/// A signed count of days, rendered.
pub open spec fn render_days(n: int) -> Seq<char> {
    if n < 0 {
        "-"@ + dec_digits((-n) as nat)
    } else {
        dec_digits(n as nat)
    }
}

/// The certificate expires within the budgeted number of days.
pub open spec fn expires_too_soon(detail: CertificateDetailView, not_after: int, now: int) -> bool {
    not_after < now + detail.max_days * 86400
}

/// The expiry violation, if one is due.
pub open spec fn expiry_violation(
    detail: CertificateDetailView,
    obs: CertObservationView,
    now: int,
) -> Option<ViolationView> {
    if expires_too_soon(detail, obs.not_after_unix as int, now) {
        Some(
            ViolationView {
                kind: "cert"@,
                cause: Cause::Mismatch,
                subject: "expiry"@,
                on: None,
                wire: Some(
                    obs.not_after_repr + ", ("@ + render_days(
                        days_between(obs.not_after_unix as int, now),
                    ) + " days left)"@,
                ),
                recorded: "> "@ + dec_digits(detail.max_days as nat) + " days"@,
            },
        )
    } else {
        None
    }
}

/// A distinguished-name violation, if the pattern finds no match.
pub open spec fn dn_violation(subject: Seq<char>, expr: Seq<char>, dn: Seq<char>) -> Option<
    ViolationView,
> {
    if regex_match(expr, dn) {
        None
    } else {
        Some(
            ViolationView {
                kind: "cert"@,
                cause: Cause::Mismatch,
                subject,
                on: None,
                wire: Some(dn),
                recorded: expr,
            },
        )
    }
}

/// The verdict on an observed certificate: expiry first, then issuer,
/// then subject, one violation each at most.
pub open spec fn cert_violations(
    detail: CertificateDetailView,
    obs: CertObservationView,
    now: int,
) -> Seq<ViolationView> {
    opt_to_seq(expiry_violation(detail, obs, now)) + (match detail.issuer {
        Some(e) => opt_to_seq(dn_violation("issuer"@, e, obs.issuer)),
        None => Seq::<ViolationView>::empty(),
    }) + (match detail.subject {
        Some(e) => opt_to_seq(dn_violation("subject"@, e, obs.subject)),
        None => Seq::<ViolationView>::empty(),
    })
}

/// The single finding reported when the connection itself failed.
pub open spec fn error_violation_view(err: Seq<char>) -> ViolationView {
    ViolationView {
        kind: "cert"@,
        cause: Cause::Error,
        subject: "request"@,
        on: Some("response"@),
        wire: Some("error: "@ + err),
        recorded: Seq::<char>::empty(),
    }
}

/// The finding for a failed connection, built.
pub fn error_violation(err: &str) -> (r: Vec<Violation>)
    ensures
        r.deep_view() == seq![error_violation_view(err@)],
{
    let mut wire = "error: ".to_owned();
    wire.append(err);
    let v = Violation {
        kind: "cert".to_owned(),
        cause: Cause::Error,
        subject: "request".to_owned(),
        on: Some("response".to_owned()),
        wire: Some(wire),
        recorded: String::new(),
    };
    let mut out: Vec<Violation> = Vec::new();
    out.push(v);
    proof {
        assert(out.deep_view() =~= seq![error_violation_view(err@)]);
    }
    out
}

/// The certificate check.
pub struct Cert {}

impl Cert {
    /// The certificate check.
    pub fn new() -> (r: Self) {
        Cert {}
    }

    /// Judge an observation against the interaction's certificate
    /// expectations.  An interaction without them is an invalid check;
    /// a failed connection yields the single error finding; otherwise
    /// the verdict is exactly `cert_violations`, and a recorded pattern
    /// that does not compile surfaces as an error.
    pub fn evaluate(
        &self,
        interaction: &Interaction,
        observation: Result<CertObservation, String>,
        now_unix: i64,
        duration_ms: u64,
    ) -> (r: CheckResult)
        ensures
            r@.kind == "cert"@,
            r@.request == interaction@.request,
            interaction@.cert is None ==> is_error_shape(
                r@,
                "cert"@,
                interaction@.request,
                "Invalid check"@,
            ),
            interaction@.cert is Some ==> (observation matches Err(e) ==> (r@.violations == seq![
                error_violation_view(e@),
            ] && r@.error is None && r@.duration == Some(duration_ms))),
            interaction@.cert matches Some(d) ==> (observation matches Ok(o) ==> (r@.error
                is None ==> (r@.violations == cert_violations(d, o@, now_unix as int)
                && r@.duration == Some(duration_ms)))),
            interaction@.cert matches Some(d) ==> (observation is Ok ==> (
            d.issuer matches Some(ei) ==> (!regex_ok(ei) ==> r@.error is Some))),
            interaction@.cert matches Some(d) ==> (observation is Ok ==> ((
            d.issuer matches Some(ei) ==> regex_ok(ei)) ==> (d.subject matches Some(es) ==> (
            !regex_ok(es) ==> r@.error is Some)))),
            r@.error is Some ==> r@.violations == Seq::<ViolationView>::empty(),
    {
        let detail = match &interaction.cert {
            None => {
                return CheckResult::invalid("cert", interaction);
            },
            Some(d) => d,
        };
        let obs = match observation {
            Err(e) => {
                return CheckResult {
                    kind: "cert".to_owned(),
                    request: interaction.request.dup(),
                    response: None,
                    violations: error_violation(e.as_str()),
                    duration: Some(duration_ms),
                    error: None,
                };
            },
            Ok(o) => o,
        };
        let mut violations: Vec<Violation> = Vec::new();
        let too_soon: bool = (obs.not_after_unix as i128) < (now_unix as i128) + (
        detail.max_days as i128) * 86400;
        if too_soon {
            let days = days_left_exec(obs.not_after_unix, now_unix);
            let mut wire = obs.not_after_repr.clone();
            wire.append(", (");
            wire.append(days.as_str());
            wire.append(" days left)");
            let mut rec = "> ".to_owned();
            rec.append(u64_to_string(detail.max_days).as_str());
            rec.append(" days");
            violations.push(
                Violation {
                    kind: "cert".to_owned(),
                    cause: Cause::Mismatch,
                    subject: "expiry".to_owned(),
                    on: None,
                    wire: Some(wire),
                    recorded: rec,
                },
            );
        }
        if let Some(expr) = &detail.issuer {
            let m = match regex_is_match(expr.as_str(), obs.issuer.as_str()) {
                Ok(m) => m,
                Err(e) => {
                    return CheckResult {
                        kind: "cert".to_owned(),
                        request: interaction.request.dup(),
                        response: None,
                        violations: Vec::new(),
                        duration: Some(duration_ms),
                        error: Some(e),
                    };
                },
            };
            if !m {
                violations.push(
                    Violation {
                        kind: "cert".to_owned(),
                        cause: Cause::Mismatch,
                        subject: "issuer".to_owned(),
                        on: None,
                        wire: Some(obs.issuer.clone()),
                        recorded: expr.clone(),
                    },
                );
            }
        }
        if let Some(expr) = &detail.subject {
            let m = match regex_is_match(expr.as_str(), obs.subject.as_str()) {
                Ok(m) => m,
                Err(e) => {
                    return CheckResult {
                        kind: "cert".to_owned(),
                        request: interaction.request.dup(),
                        response: None,
                        violations: Vec::new(),
                        duration: Some(duration_ms),
                        error: Some(e),
                    };
                },
            };
            if !m {
                violations.push(
                    Violation {
                        kind: "cert".to_owned(),
                        cause: Cause::Mismatch,
                        subject: "subject".to_owned(),
                        on: None,
                        wire: Some(obs.subject.clone()),
                        recorded: expr.clone(),
                    },
                );
            }
        }
        proof {
            assert(violations.deep_view() =~= cert_violations(
                interaction@.cert.unwrap(),
                obs@,
                now_unix as int,
            ));
        }
        CheckResult {
            kind: "cert".to_owned(),
            request: interaction.request.dup(),
            response: None,
            violations,
            duration: Some(duration_ms),
            error: None,
        }
    }
}

/// The signed day count between the two instants, rendered.
fn days_left_exec(not_after: i64, now: i64) -> (r: String)
    ensures
        r@ == render_days(days_between(not_after as int, now as int)),
{
    let d: i128 = (not_after as i128) - (now as i128);
    if d >= 0 {
        let days = (d / 86400) as u128;
        let out = crate::bench::u128_to_string(days);
        proof {
            assert(days_between(not_after as int, now as int) == d as int / 86400);
        }
        out
    } else {
        let mag = (-d) as u128;
        let days = mag / 86400;
        let body = crate::bench::u128_to_string(days);
        if days == 0 {
            proof {
                assert(days_between(not_after as int, now as int) == 0);
            }
            body
        } else {
            let mut out = "-".to_owned();
            out.append(body.as_str());
            proof {
                assert(days_between(not_after as int, now as int) == -(((-(d as int))) / 86400));
            }
            out
        }
    }
}

} // verus!
