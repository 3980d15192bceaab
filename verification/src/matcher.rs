//! Field-by-field comparison of a wire response against a recorded
//! response.  Recorded fields are regular expressions; a comparison
//! yields at most one violation per field, in the order body, status,
//! headers, vars.  A recorded pattern that does not compile surfaces as
//! an error, never silently.
use vstd::prelude::*;

use crate::data::{Cause, Response, ResponseView, Violation, ViolationView};
use crate::rx::{regex_is_match, regex_match, regex_ok, regex_valid};
use crate::table::{dict_get, Dict};
use crate::text::{lower_seq, lower_str, sep_join, join_strings};

verus! {

/// A string wrapped in double quotes.
pub open spec fn quoted(s: Seq<char>) -> Seq<char> {
    "\""@ + s + "\""@
}

/// An optional string: quoted, or the word `None`.
pub open spec fn render_opt(s: Option<Seq<char>>) -> Seq<char> {
    match s {
        Some(v) => quoted(v),
        None => "None"@,
    }
}

/// A list of strings: quoted items, comma-separated, in brackets.
pub open spec fn render_list(vs: Seq<Seq<char>>) -> Seq<char> {
    "["@ + sep_join(vs.map_values(|v: Seq<char>| quoted(v)), ", "@) + "]"@
}

/// A header table: `key: [values]` entries, comma-separated, in braces.
pub open spec fn render_header_entries(hs: Seq<(Seq<char>, Seq<Seq<char>>)>) -> Seq<char> {
    "{"@ + sep_join(
        hs.map_values(|p: (Seq<char>, Seq<Seq<char>>)| quoted(p.0) + ": "@ + render_list(p.1)),
        ", "@,
    ) + "}"@
}

/// A variable table: `key: value` entries, comma-separated, in braces.
pub open spec fn render_var_entries(vs: Seq<(Seq<char>, Seq<char>)>) -> Seq<char> {
    "{"@ + sep_join(
        vs.map_values(|p: (Seq<char>, Seq<char>)| quoted(p.0) + ": "@ + quoted(p.1)),
        ", "@,
    ) + "}"@
}

/// An optional header table.
pub open spec fn render_opt_headers(h: Option<Seq<(Seq<char>, Seq<Seq<char>>)>>) -> Seq<char> {
    match h {
        Some(hs) => render_header_entries(hs),
        None => "None"@,
    }
}

/// An optional variable table.
pub open spec fn render_opt_vars(v: Option<Seq<(Seq<char>, Seq<char>)>>) -> Seq<char> {
    match v {
        Some(vs) => render_var_entries(vs),
        None => "None"@,
    }
}

/// A whole response, rendered for a report message.
pub open spec fn render_response(r: ResponseView) -> Seq<char> {
    "Response { request_id: "@ + render_opt(r.request_id) + ", status_code: "@ + render_opt(
        r.status_code,
    ) + ", body: "@ + render_opt(r.body) + ", headers: "@ + render_opt_headers(r.headers)
        + ", vars: "@ + render_opt_vars(r.vars) + " }"@
}

/// The violation a plain field comparison yields: nothing when no field
/// is recorded, `WireMissing` when the wire lacks a recorded field, and
/// `Mismatch` when the recorded pattern finds no match in the wire
/// value.
pub open spec fn field_violation(
    kind: Seq<char>,
    name: Seq<char>,
    wire: Option<Seq<char>>,
    rec: Option<Seq<char>>,
) -> Option<ViolationView> {
    match rec {
        None => None,
        Some(rv) => match wire {
            None => Some(
                ViolationView {
                    kind,
                    cause: Cause::WireMissing,
                    subject: name,
                    on: Some(name),
                    wire: None,
                    recorded: rv,
                },
            ),
            Some(wv) => if regex_match(rv, wv) {
                None
            } else {
                Some(
                    ViolationView {
                        kind,
                        cause: Cause::Mismatch,
                        subject: name,
                        on: Some(name),
                        wire: Some(wv),
                        recorded: rv,
                    },
                )
            },
        },
    }
}

/// One recorded pattern is satisfied: some wire value matches it.
pub open spec fn pattern_matched(pat: Seq<char>, wvs: Seq<Seq<char>>) -> bool {
    exists|j: int| 0 <= j < wvs.len() && regex_match(pat, #[trigger] wvs[j])
}

/// A recorded header entry is satisfied: the wire carries the
/// lower-cased key, and every recorded pattern is matched by at least
/// one wire value.
pub open spec fn header_entry_ok(
    wire: Seq<(Seq<char>, Seq<Seq<char>>)>,
    key_lower: Seq<char>,
    pats: Seq<Seq<char>>,
) -> bool {
    match dict_get(wire, key_lower) {
        None => false,
        Some(wvs) => forall|i: int| 0 <= i < pats.len() ==> pattern_matched(#[trigger] pats[i], wvs),
    }
}

/// The first recorded header entry the wire fails, walking the recorded
/// entries in order.
pub open spec fn first_bad_header(
    wire: Seq<(Seq<char>, Seq<Seq<char>>)>,
    rec: Seq<(Seq<char>, Seq<Seq<char>>)>,
) -> Option<(Seq<char>, Seq<Seq<char>>)>
    decreases rec.len(),
{
    if rec.len() == 0 {
        None
    } else if !header_entry_ok(wire, lower_seq(rec[0].0), rec[0].1) {
        Some(rec[0])
    } else {
        first_bad_header(wire, rec.drop_first())
    }
}

/// The violation the header comparison yields.
pub open spec fn headers_violation(
    kind: Seq<char>,
    wire: Option<Seq<(Seq<char>, Seq<Seq<char>>)>>,
    rec: Option<Seq<(Seq<char>, Seq<Seq<char>>)>>,
) -> Option<ViolationView> {
    match rec {
        None => None,
        Some(rh) => match wire {
            None => Some(
                ViolationView {
                    kind,
                    cause: Cause::WireMissing,
                    subject: "headers"@,
                    on: Some("all headers"@),
                    wire: None,
                    recorded: render_header_entries(rh),
                },
            ),
            Some(wh) => match first_bad_header(wh, rh) {
                None => None,
                Some(e) => Some(
                    ViolationView {
                        kind,
                        cause: Cause::Mismatch,
                        subject: "headers"@,
                        on: Some(lower_seq(e.0)),
                        wire: Some(
                            render_list(
                                match dict_get(wh, lower_seq(e.0)) {
                                    Some(wvs) => wvs,
                                    None => Seq::<Seq<char>>::empty(),
                                },
                            ),
                        ),
                        recorded: render_list(e.1),
                    },
                ),
            },
        },
    }
}

/// A recorded variable entry is satisfied: the wire carries the
/// lower-cased name, and the recorded pattern matches the wire value.
pub open spec fn var_entry_ok(
    wire: Seq<(Seq<char>, Seq<char>)>,
    key_lower: Seq<char>,
    pat: Seq<char>,
) -> bool {
    match dict_get(wire, key_lower) {
        None => false,
        Some(wv) => regex_match(pat, wv),
    }
}

/// The first recorded variable entry the wire fails.
pub open spec fn first_bad_var(
    wire: Seq<(Seq<char>, Seq<char>)>,
    rec: Seq<(Seq<char>, Seq<char>)>,
) -> Option<(Seq<char>, Seq<char>)>
    decreases rec.len(),
{
    if rec.len() == 0 {
        None
    } else if !var_entry_ok(wire, lower_seq(rec[0].0), rec[0].1) {
        Some(rec[0])
    } else {
        first_bad_var(wire, rec.drop_first())
    }
}

/// The violation the variable comparison yields.
pub open spec fn vars_violation(
    kind: Seq<char>,
    wire: Option<Seq<(Seq<char>, Seq<char>)>>,
    rec: Option<Seq<(Seq<char>, Seq<char>)>>,
) -> Option<ViolationView> {
    match rec {
        None => None,
        Some(rv) => match wire {
            None => Some(
                ViolationView {
                    kind,
                    cause: Cause::WireMissing,
                    subject: "vars"@,
                    on: Some("all vars"@),
                    wire: None,
                    recorded: render_var_entries(rv),
                },
            ),
            Some(wv) => match first_bad_var(wv, rv) {
                None => None,
                Some(e) => Some(
                    ViolationView {
                        kind,
                        cause: Cause::Mismatch,
                        subject: "vars"@,
                        on: Some(lower_seq(e.0)),
                        wire: Some(
                            quoted(
                                match dict_get(wv, lower_seq(e.0)) {
                                    Some(s) => s,
                                    None => Seq::<char>::empty(),
                                },
                            ),
                        ),
                        recorded: quoted(e.1),
                    },
                ),
            },
        },
    }
}

/// Zero or one violations, as a sequence.
pub open spec fn opt_to_seq(v: Option<ViolationView>) -> Seq<ViolationView> {
    match v {
        Some(x) => seq![x],
        None => Seq::<ViolationView>::empty(),
    }
}

/// The full verdict of a comparison: a single `RecordedMissing` when
/// nothing is recorded, else the per-field violations in the order
/// body, status, headers, vars.
pub open spec fn match_violations(
    kind: Seq<char>,
    wire: ResponseView,
    rec: Option<ResponseView>,
) -> Seq<ViolationView> {
    match rec {
        None => seq![
            ViolationView {
                kind,
                cause: Cause::RecordedMissing,
                subject: "response"@,
                on: None,
                wire: None,
                recorded: render_response(wire),
            },
        ],
        Some(r) => opt_to_seq(field_violation(kind, "body"@, wire.body, r.body)) + opt_to_seq(
            field_violation(kind, "status_code"@, wire.status_code, r.status_code),
        ) + opt_to_seq(headers_violation(kind, wire.headers, r.headers)) + opt_to_seq(
            vars_violation(kind, wire.vars, r.vars),
        ),
    }
}

/// Every pattern the recorded response carries compiles.
pub open spec fn patterns_ok(rec: ResponseView) -> bool {
    &&& (rec.body matches Some(b) ==> regex_ok(b))
    &&& (rec.status_code matches Some(s) ==> regex_ok(s))
    &&& (rec.headers matches Some(hs) ==> forall|i: int, j: int|
        0 <= i < hs.len() && 0 <= j < hs[i].1.len() ==> #[trigger] regex_ok(hs[i].1[j]))
    &&& (rec.vars matches Some(vs) ==> forall|i: int| 0 <= i < vs.len() ==> #[trigger] regex_ok(
        vs[i].1,
    ))
}

/// The regex-driven response matcher.
pub struct RegexMatcher {
    pub kind: String,
}

impl RegexMatcher {
    /// A matcher whose violations carry the given kind tag.
    pub fn new(kind: &str) -> (r: Self)
        ensures
            r.kind@ == kind@,
    {
        RegexMatcher { kind: kind.to_owned() }
    }

    /// Compare a wire response against a recorded one.  `Ok` carries
    /// exactly the violations `match_violations` names; a recorded
    /// pattern that does not compile yields an `Err` instead.
    pub fn is_match(&self, wire_response: &Response, recorded_response: Option<&Response>) -> (r:
        Result<Vec<Violation>, String>)
        ensures
            r matches Ok(vs) ==> vs.deep_view() == match_violations(
                self.kind@,
                wire_response@,
                recorded_response.deep_view(),
            ),
            recorded_response is None ==> r is Ok,
            (recorded_response matches Some(rec) && !patterns_ok(rec@)) ==> r is Err,
    {
        match recorded_response {
            None => {
                let v = Violation {
                    kind: self.kind.clone(),
                    cause: Cause::RecordedMissing,
                    subject: "response".to_owned(),
                    on: None,
                    wire: None,
                    recorded: render_response_exec(wire_response),
                };
                let mut vs: Vec<Violation> = Vec::new();
                vs.push(v);
                proof {
                    assert(vs.deep_view() =~= match_violations(
                        self.kind@,
                        wire_response@,
                        recorded_response.deep_view(),
                    ));
                }
                Ok(vs)
            },
            Some(rec) => {
                validate_response_patterns(rec)?;
                let v1 = self.match_field("body", &wire_response.body, &rec.body)?;
                let v2 = self.match_field("status_code", &wire_response.status_code,
                    &rec.status_code)?;
                let v3 = self.match_headers(&wire_response.headers, &rec.headers)?;
                let v4 = self.match_vars(&wire_response.vars, &rec.vars)?;
                let mut vs: Vec<Violation> = Vec::new();
                let ghost k = self.kind@;
                let ghost w = wire_response@;
                let ghost rr = rec@;
                push_opt(&mut vs, v1);
                push_opt(&mut vs, v2);
                push_opt(&mut vs, v3);
                push_opt(&mut vs, v4);
                proof {
                    assert(vs.deep_view() =~= opt_to_seq(field_violation(k, "body"@, w.body, rr.body))
                        + opt_to_seq(field_violation(k, "status_code"@, w.status_code, rr.status_code))
                        + opt_to_seq(headers_violation(k, w.headers, rr.headers)) + opt_to_seq(
                        vars_violation(k, w.vars, rr.vars),
                    ));
                }
                Ok(vs)
            },
        }
    }

    /// Compare one plain string field.
    fn match_field(&self, name: &str, wire_field: &Option<String>, recorded_field: &Option<
        String,
    >) -> (r: Result<Option<Violation>, String>)
        ensures
            r matches Ok(v) ==> v.deep_view() == field_violation(
                self.kind@,
                name@,
                wire_field.deep_view(),
                recorded_field.deep_view(),
            ),
    {
        match recorded_field {
            None => Ok(None),
            Some(rv) => match wire_field {
                None => Ok(
                    Some(
                        Violation {
                            kind: self.kind.clone(),
                            cause: Cause::WireMissing,
                            subject: name.to_owned(),
                            on: Some(name.to_owned()),
                            wire: None,
                            recorded: rv.clone(),
                        },
                    ),
                ),
                Some(wv) => {
                    let m = regex_is_match(rv.as_str(), wv.as_str())?;
                    if m {
                        Ok(None)
                    } else {
                        Ok(
                            Some(
                                Violation {
                                    kind: self.kind.clone(),
                                    cause: Cause::Mismatch,
                                    subject: name.to_owned(),
                                    on: Some(name.to_owned()),
                                    wire: Some(wv.clone()),
                                    recorded: rv.clone(),
                                },
                            ),
                        )
                    }
                },
            },
        }
    }

    /// Compare the header tables.
    fn match_headers(&self, wire_headers: &Option<Dict<Vec<String>>>, recorded_headers: &Option<
        Dict<Vec<String>>,
    >) -> (r: Result<Option<Violation>, String>)
        ensures
            r matches Ok(v) ==> v.deep_view() == headers_violation(
                self.kind@,
                wire_headers.deep_view(),
                recorded_headers.deep_view(),
            ),
    {
        match recorded_headers {
            None => Ok(None),
            Some(rh) => match wire_headers {
                None => Ok(
                    Some(
                        Violation {
                            kind: self.kind.clone(),
                            cause: Cause::WireMissing,
                            subject: "headers".to_owned(),
                            on: Some("all headers".to_owned()),
                            wire: None,
                            recorded: render_header_entries_exec(rh),
                        },
                    ),
                ),
                Some(wh) => {
                    let n = rh.len();
                    let mut i: usize = 0;
                    proof {
                        assert(rh@.skip(0) =~= rh@);
                    }
                    while i < n
                        invariant
                            i <= rh@.len(),
                            n == rh@.len(),
                            wire_headers.deep_view() == Some(wh@),
                            recorded_headers.deep_view() == Some(rh@),
                            first_bad_header(wh@, rh@) == first_bad_header(
                                wh@,
                                rh@.skip(i as int),
                            ),
                        decreases rh@.len() - i,
                    {
                        proof {
                            assert(rh@.skip(i as int)[0] == rh@[i as int]);
                            assert(rh@.skip(i as int).drop_first() =~= rh@.skip(i as int + 1));
                        }
                        let key_l = lower_str(rh.key_at(i).as_str());
                        let pats = rh.val_at(i);
                        let entry_ok: bool = match wh.get(key_l.as_str()) {
                            None => false,
                            Some(wvs) => all_patterns_matched(pats, wvs)?,
                        };
                        if !entry_ok {
                            let wire_text = match wh.get(key_l.as_str()) {
                                Some(wvs) => render_list_exec(wvs),
                                None => {
                                    let empty: Vec<String> = Vec::new();
                                    proof {
                                        assert(empty.deep_view() =~= Seq::<Seq<char>>::empty());
                                    }
                                    render_list_exec(&empty)
                                },
                            };
                            return Ok(
                                Some(
                                    Violation {
                                        kind: self.kind.clone(),
                                        cause: Cause::Mismatch,
                                        subject: "headers".to_owned(),
                                        on: Some(key_l),
                                        wire: Some(wire_text),
                                        recorded: render_list_exec(pats),
                                    },
                                ),
                            );
                        }
                        i = i + 1;
                    }
                    proof {
                        assert(rh@.skip(n as int) =~= Seq::<(Seq<char>, Seq<Seq<char>>)>::empty());
                    }
                    Ok(None)
                },
            },
        }
    }

    /// Compare the variable tables.
    fn match_vars(&self, wire_vars: &Option<Dict<String>>, recorded_vars: &Option<Dict<String>>) -> (r:
        Result<Option<Violation>, String>)
        ensures
            r matches Ok(v) ==> v.deep_view() == vars_violation(
                self.kind@,
                wire_vars.deep_view(),
                recorded_vars.deep_view(),
            ),
    {
        match recorded_vars {
            None => Ok(None),
            Some(rv) => match wire_vars {
                None => Ok(
                    Some(
                        Violation {
                            kind: self.kind.clone(),
                            cause: Cause::WireMissing,
                            subject: "vars".to_owned(),
                            on: Some("all vars".to_owned()),
                            wire: None,
                            recorded: render_var_entries_exec(rv),
                        },
                    ),
                ),
                Some(wv) => {
                    let n = rv.len();
                    let mut i: usize = 0;
                    proof {
                        assert(rv@.skip(0) =~= rv@);
                    }
                    while i < n
                        invariant
                            i <= rv@.len(),
                            n == rv@.len(),
                            wire_vars.deep_view() == Some(wv@),
                            recorded_vars.deep_view() == Some(rv@),
                            first_bad_var(wv@, rv@) == first_bad_var(wv@, rv@.skip(i as int)),
                        decreases rv@.len() - i,
                    {
                        proof {
                            assert(rv@.skip(i as int)[0] == rv@[i as int]);
                            assert(rv@.skip(i as int).drop_first() =~= rv@.skip(i as int + 1));
                        }
                        let key_l = lower_str(rv.key_at(i).as_str());
                        let pat = rv.val_at(i);
                        let entry_ok: bool = match wv.get(key_l.as_str()) {
                            None => false,
                            Some(w) => regex_is_match(pat.as_str(), w.as_str())?,
                        };
                        if !entry_ok {
                            let wire_text = match wv.get(key_l.as_str()) {
                                Some(w) => quoted_exec(w.as_str()),
                                None => {
                                    proof {
                                        reveal_strlit("");
                                        assert(""@ =~= Seq::<char>::empty());
                                    }
                                    quoted_exec("")
                                },
                            };
                            return Ok(
                                Some(
                                    Violation {
                                        kind: self.kind.clone(),
                                        cause: Cause::Mismatch,
                                        subject: "vars".to_owned(),
                                        on: Some(key_l),
                                        wire: Some(wire_text),
                                        recorded: quoted_exec(pat.as_str()),
                                    },
                                ),
                            );
                        }
                        i = i + 1;
                    }
                    proof {
                        assert(rv@.skip(n as int) =~= Seq::<(Seq<char>, Seq<char>)>::empty());
                    }
                    Ok(None)
                },
            },
        }
    }
}

/// Append an optional violation.
fn push_opt(vs: &mut Vec<Violation>, v: Option<Violation>)
    ensures
        final(vs).deep_view() == old(vs).deep_view() + opt_to_seq(v.deep_view()),
{
    let ghost pre = vs.deep_view();
    match v {
        Some(x) => {
            let ghost xv = x.deep_view();
            vs.push(x);
            proof {
                assert(vs.deep_view() =~= pre + opt_to_seq(Some(xv)));
            }
        },
        None => {
            proof {
                assert(vs.deep_view() =~= pre + opt_to_seq(None::<ViolationView>));
            }
        },
    }
}

/// Is every recorded pattern matched by at least one wire value?
fn all_patterns_matched(pats: &Vec<String>, wvs: &Vec<String>) -> (r: Result<bool, String>)
    ensures
        r matches Ok(b) ==> b == (forall|i: int|
            0 <= i < pats.deep_view().len() ==> pattern_matched(
                #[trigger] pats.deep_view()[i],
                wvs.deep_view(),
            )),
{
    let mut i: usize = 0;
    while i < pats.len()
        invariant
            i <= pats@.len(),
            forall|a: int|
                0 <= a < i ==> pattern_matched(#[trigger] pats.deep_view()[a], wvs.deep_view()),
        decreases pats@.len() - i,
    {
        let mut j: usize = 0;
        let mut this_one = false;
        while j < wvs.len() && !this_one
            invariant
                i < pats@.len(),
                j <= wvs@.len(),
                this_one ==> pattern_matched(pats.deep_view()[i as int], wvs.deep_view()),
                !this_one ==> forall|b: int|
                    0 <= b < j ==> !regex_match(pats.deep_view()[i as int], #[trigger] wvs.deep_view()[b]),
            decreases wvs@.len() - j,
        {
            let m = regex_is_match(pats[i].as_str(), wvs[j].as_str())?;
            if m {
                proof {
                    assert(regex_match(pats.deep_view()[i as int], wvs.deep_view()[j as int]));
                }
                this_one = true;
            }
            j = j + 1;
        }
        if !this_one {
            proof {
                assert(!pattern_matched(pats.deep_view()[i as int], wvs.deep_view()));
            }
            return Ok(false);
        }
        i = i + 1;
    }
    Ok(true)
}

/// Check that every pattern of a recorded response compiles.
#[verifier::loop_isolation(false)]
fn validate_response_patterns(rec: &Response) -> (r: Result<(), String>)
    ensures
        r is Ok <==> patterns_ok(rec@),
{
    if let Some(b) = &rec.body {
        regex_valid(b.as_str())?;
    }
    if let Some(s) = &rec.status_code {
        regex_valid(s.as_str())?;
    }
    if let Some(hs) = &rec.headers {
        let n = hs.len();
        let mut i: usize = 0;
        while i < n
            invariant
                i <= hs@.len(),
                n == hs@.len(),
                rec@.headers == Some(hs@),
                forall|a: int, b: int|
                    0 <= a < i && 0 <= b < hs@[a].1.len() ==> #[trigger] regex_ok(hs@[a].1[b]),
            decreases hs@.len() - i,
        {
            let pats = hs.val_at(i);
            let m = pats.len();
            let mut j: usize = 0;
            while j < m
                invariant
                    i < hs@.len(),
                    m == hs@[i as int].1.len(),
                    j <= m,
                    rec@.headers == Some(hs@),
                    pats.deep_view() == hs@[i as int].1,
                    forall|b: int| 0 <= b < j ==> #[trigger] regex_ok(hs@[i as int].1[b]),
                decreases m - j,
            {
                match regex_valid(pats[j].as_str()) {
                    Ok(_) => {},
                    Err(e) => {
                        proof {
                            assert(pats.deep_view()[j as int] == hs@[i as int].1[j as int]);
                            assert(!regex_ok(hs@[i as int].1[j as int]));
                            assert(!regex_ok(rec@.headers.unwrap()[i as int].1[j as int]));
                        }
                        return Err(e);
                    },
                }
                j = j + 1;
            }
            i = i + 1;
        }
    }
    if let Some(vs) = &rec.vars {
        let n = vs.len();
        let mut i: usize = 0;
        while i < n
            invariant
                i <= vs@.len(),
                n == vs@.len(),
                rec@.vars == Some(vs@),
                forall|a: int| 0 <= a < i ==> #[trigger] regex_ok(vs@[a].1),
            decreases vs@.len() - i,
        {
            match regex_valid(vs.val_at(i).as_str()) {
                Ok(_) => {},
                Err(e) => {
                    proof {
                        assert(!regex_ok(vs@[i as int].1));
                        assert(!regex_ok(rec@.vars.unwrap()[i as int].1));
                    }
                    return Err(e);
                },
            }
            i = i + 1;
        }
    }
    Ok(())
}

/// A string in double quotes.
fn quoted_exec(s: &str) -> (r: String)
    ensures
        r@ == quoted(s@),
{
    let mut out = "\"".to_owned();
    out.append(s);
    out.append("\"");
    out
}

/// An optional string field, rendered.
fn render_opt_exec(s: &Option<String>) -> (r: String)
    ensures
        r@ == render_opt(s.deep_view()),
{
    match s {
        Some(v) => quoted_exec(v.as_str()),
        None => "None".to_owned(),
    }
}

/// A list of strings, rendered.
fn render_list_exec(vs: &Vec<String>) -> (r: String)
    ensures
        r@ == render_list(vs.deep_view()),
{
    let mut items: Vec<String> = Vec::new();
    let mut i: usize = 0;
    while i < vs.len()
        invariant
            i <= vs@.len(),
            items.deep_view() == vs.deep_view().subrange(0, i as int).map_values(
                |v: Seq<char>| quoted(v),
            ),
        decreases vs@.len() - i,
    {
        let q = quoted_exec(vs[i].as_str());
        let ghost qv = q@;
        let ghost prev = items.deep_view();
        items.push(q);
        i = i + 1;
        proof {
            assert(items.deep_view() =~= prev.push(qv));
            assert(items.deep_view() =~= vs.deep_view().subrange(0, i as int).map_values(
                |v: Seq<char>| quoted(v),
            ));
        }
    }
    proof {
        assert(vs.deep_view().subrange(0, vs.deep_view().len() as int) =~= vs.deep_view());
        assert(items.deep_view() =~= vs.deep_view().map_values(|v: Seq<char>| quoted(v)));
    }
    let mut out = "[".to_owned();
    out.append(join_strings(&items, ", ").as_str());
    out.append("]");
    proof {
        assert(out@ =~= render_list(vs.deep_view()));
    }
    out
}

/// A header table, rendered.
#[verifier::loop_isolation(false)]
fn render_header_entries_exec(hs: &Dict<Vec<String>>) -> (r: String)
    ensures
        r@ == render_header_entries(hs@),
{
    let spec_map = Ghost(|p: (Seq<char>, Seq<Seq<char>>)| quoted(p.0) + ": "@ + render_list(p.1));
    let mut items: Vec<String> = Vec::new();
    let n = hs.len();
    let mut i: usize = 0;
    while i < n
        invariant
            i <= hs@.len(),
            n == hs@.len(),
            items.deep_view() == hs@.subrange(0, i as int).map_values(spec_map@),
        decreases hs@.len() - i,
    {
        let mut entry = quoted_exec(hs.key_at(i).as_str());
        entry.append(": ");
        entry.append(render_list_exec(hs.val_at(i)).as_str());
        let ghost ev = entry@;
        let ghost prev = items.deep_view();
        items.push(entry);
        i = i + 1;
        proof {
            assert(ev =~= spec_map@(hs@[i - 1]));
            assert(items.deep_view() =~= prev.push(ev));
            assert(items.deep_view() =~= hs@.subrange(0, i as int).map_values(spec_map@));
        }
    }
    proof {
        assert(hs@.subrange(0, hs@.len() as int) =~= hs@);
        assert(items.deep_view() =~= hs@.map_values(spec_map@));
        assert(hs@.map_values(spec_map@) =~= hs@.map_values(
            |p: (Seq<char>, Seq<Seq<char>>)| quoted(p.0) + ": "@ + render_list(p.1),
        ));
    }
    let mut out = "{".to_owned();
    out.append(join_strings(&items, ", ").as_str());
    out.append("}");
    proof {
        assert(out@ =~= render_header_entries(hs@));
    }
    out
}

/// A variable table, rendered.
#[verifier::loop_isolation(false)]
fn render_var_entries_exec(vs: &Dict<String>) -> (r: String)
    ensures
        r@ == render_var_entries(vs@),
{
    let spec_map = Ghost(|p: (Seq<char>, Seq<char>)| quoted(p.0) + ": "@ + quoted(p.1));
    let mut items: Vec<String> = Vec::new();
    let n = vs.len();
    let mut i: usize = 0;
    while i < n
        invariant
            i <= vs@.len(),
            n == vs@.len(),
            items.deep_view() == vs@.subrange(0, i as int).map_values(spec_map@),
        decreases vs@.len() - i,
    {
        let mut entry = quoted_exec(vs.key_at(i).as_str());
        entry.append(": ");
        entry.append(quoted_exec(vs.val_at(i).as_str()).as_str());
        let ghost ev = entry@;
        let ghost prev = items.deep_view();
        items.push(entry);
        i = i + 1;
        proof {
            assert(ev =~= spec_map@(vs@[i - 1]));
            assert(items.deep_view() =~= prev.push(ev));
            assert(items.deep_view() =~= vs@.subrange(0, i as int).map_values(spec_map@));
        }
    }
    proof {
        assert(vs@.subrange(0, vs@.len() as int) =~= vs@);
        assert(items.deep_view() =~= vs@.map_values(spec_map@));
        assert(vs@.map_values(spec_map@) =~= vs@.map_values(
            |p: (Seq<char>, Seq<char>)| quoted(p.0) + ": "@ + quoted(p.1),
        ));
    }
    let mut out = "{".to_owned();
    out.append(join_strings(&items, ", ").as_str());
    out.append("}");
    proof {
        assert(out@ =~= render_var_entries(vs@));
    }
    out
}

/// An optional header table, rendered.
fn render_opt_headers_exec(h: &Option<Dict<Vec<String>>>) -> (r: String)
    ensures
        r@ == render_opt_headers(h.deep_view()),
{
    match h {
        Some(hs) => render_header_entries_exec(hs),
        None => "None".to_owned(),
    }
}

/// An optional variable table, rendered.
fn render_opt_vars_exec(v: &Option<Dict<String>>) -> (r: String)
    ensures
        r@ == render_opt_vars(v.deep_view()),
{
    match v {
        Some(vs) => render_var_entries_exec(vs),
        None => "None".to_owned(),
    }
}

/// A whole response, rendered for a report message.
fn render_response_exec(resp: &Response) -> (r: String)
    ensures
        r@ == render_response(resp@),
{
    let mut out = "Response { request_id: ".to_owned();
    out.append(render_opt_exec(&resp.request_id).as_str());
    out.append(", status_code: ");
    out.append(render_opt_exec(&resp.status_code).as_str());
    out.append(", body: ");
    out.append(render_opt_exec(&resp.body).as_str());
    out.append(", headers: ");
    out.append(render_opt_headers_exec(&resp.headers).as_str());
    out.append(", vars: ");
    out.append(render_opt_vars_exec(&resp.vars).as_str());
    out.append(" }");
    proof {
        assert(out@ =~= render_response(resp@));
    }
    out
}

} // verus!
