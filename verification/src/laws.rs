//! Cross-cutting laws of the engine, stated and proved over the same
//! spec functions the public contracts use.
use vstd::prelude::*;

use crate::data::VarInfoView;
use crate::data::ResponseView;
use crate::matcher::{
    first_bad_header, first_bad_var, header_entry_ok, headers_violation, var_entry_ok,
    vars_violation,
};
use crate::rx::regex_match;
use crate::runner::run_model;
use crate::data::{ContextView, InteractionView, Sender};
use crate::table::{dict_get, dict_uniq, lemma_get_at};
use crate::text::lower_seq;
use crate::vars::extract_pairs;

verus! {

/// Renaming a recorded header key between upper and lower case does not
/// change what the comparison decides.  Recorded header tables whose
/// keys differ only in letter case, entry by entry, fail on the same
/// entry or on none, and with wire headers present they give one equal
/// violation.
pub proof fn lemma_header_match_case_blind(
    kind: Seq<char>,
    wire: Seq<(Seq<char>, Seq<Seq<char>>)>,
    rec1: Seq<(Seq<char>, Seq<Seq<char>>)>,
    rec2: Seq<(Seq<char>, Seq<Seq<char>>)>,
)
    requires
        rec1.len() == rec2.len(),
        forall|i: int|
            0 <= i < rec1.len() ==> lower_seq((#[trigger] rec1[i]).0) == lower_seq(rec2[i].0)
                && rec1[i].1 == rec2[i].1,
    ensures
        headers_violation(kind, Some(wire), Some(rec1)) == headers_violation(
            kind,
            Some(wire),
            Some(rec2),
        ),
{
    lemma_first_bad_case_blind(wire, rec1, rec2);
}

/// The first failing entry is at the same position under key renaming,
/// and carries the same lower-cased key and the same patterns.
proof fn lemma_first_bad_case_blind(
    wire: Seq<(Seq<char>, Seq<Seq<char>>)>,
    rec1: Seq<(Seq<char>, Seq<Seq<char>>)>,
    rec2: Seq<(Seq<char>, Seq<Seq<char>>)>,
)
    requires
        rec1.len() == rec2.len(),
        forall|i: int|
            0 <= i < rec1.len() ==> lower_seq((#[trigger] rec1[i]).0) == lower_seq(rec2[i].0)
                && rec1[i].1 == rec2[i].1,
    ensures
        match (first_bad_header(wire, rec1), first_bad_header(wire, rec2)) {
            (None, None) => true,
            (Some(e1), Some(e2)) => lower_seq(e1.0) == lower_seq(e2.0) && e1.1 == e2.1,
            _ => false,
        },
    decreases rec1.len(),
{
    if rec1.len() > 0 {
        assert(lower_seq(rec1[0].0) == lower_seq(rec2[0].0) && rec1[0].1 == rec2[0].1);
        if header_entry_ok(wire, lower_seq(rec1[0].0), rec1[0].1) {
            let r1 = rec1.drop_first();
            let r2 = rec2.drop_first();
            assert forall|i: int|
                0 <= i < r1.len() implies lower_seq((#[trigger] r1[i]).0) == lower_seq(r2[i].0)
                && r1[i].1 == r2[i].1 by {
                assert(r1[i] == rec1[i + 1]);
                assert(r2[i] == rec2[i + 1]);
            }
            lemma_first_bad_case_blind(wire, r1, r2);
        }
    }
}

/// Extract-then-match: variables pulled out of a response and recorded
/// back verbatim raise no vars-field violation, provided each name is
/// already lower case and each extracted value, read as a pattern,
/// matches itself.
pub proof fn lemma_extract_then_match(
    kind: Seq<char>,
    wire: ResponseView,
    infos: Seq<(Seq<char>, VarInfoView)>,
)
    ensures
        ({
            let vs = extract_pairs(wire, infos);
            (forall|i: int|
                0 <= i < vs.len() ==> (#[trigger] vs[i]).0 == lower_seq(vs[i].0) && regex_match(
                    vs[i].1,
                    vs[i].1,
                )) ==> vars_violation(kind, Some(vs), Some(vs)) is None
        }),
{
    let vs = extract_pairs(wire, infos);
    crate::data::lemma_save_pairs_props(
        Seq::<(Seq<char>, Seq<char>)>::empty(),
        infos.map_values(
            |p: (Seq<char>, VarInfoView)| (p.0, crate::vars::extract_var_spec(wire, p.1)),
        ),
    );
    if forall|i: int|
        0 <= i < vs.len() ==> (#[trigger] vs[i]).0 == lower_seq(vs[i].0) && regex_match(
            vs[i].1,
            vs[i].1,
        ) {
        lemma_vars_self_match(vs, 0);
        assert(vs.skip(0) =~= vs);
    }
}

/// A table whose entries all self-match fails none of its own entries.
proof fn lemma_vars_self_match(vs: Seq<(Seq<char>, Seq<char>)>, j: int)
    requires
        0 <= j <= vs.len(),
        dict_uniq(vs),
        forall|i: int|
            0 <= i < vs.len() ==> (#[trigger] vs[i]).0 == lower_seq(vs[i].0) && regex_match(
                vs[i].1,
                vs[i].1,
            ),
    ensures
        first_bad_var(vs, vs.skip(j)) is None,
    decreases vs.len() - j,
{
    if j < vs.len() {
        let k = vs[j].0;
        assert(vs.skip(j)[0] == vs[j]);
        assert forall|l: int| 0 <= l < j implies vs[l].0 != k by {}
        lemma_get_at(vs, k, j);
        assert(lower_seq(k) == k);
        assert(var_entry_ok(vs, lower_seq(vs[j].0), vs[j].1));
        assert(vs.skip(j).drop_first() =~= vs.skip(j + 1));
        lemma_vars_self_match(vs, j + 1);
    }
}

/// Determinism of a run: the violation lists an error-free run over a
/// deterministic sender produces are a function of the seeded context
/// and the sequence alone, so two such runs from equal contexts agree.
/// The runner's own contract ties its output to `run_model`.
pub proof fn lemma_runs_agree<S: Sender>(
    s: &S,
    c1: ContextView,
    c2: ContextView,
    sequence: Seq<InteractionView>,
)
    requires
        c1 == c2,
    ensures
        run_model(s, c1, sequence) == run_model(s, c2, sequence),
{
}

} // verus!
