//! Placeholder substitution: each binding's name is substituted into the
//! brace pattern in place of the token `var`, and the resulting literal
//! placeholder is replaced by the binding's value, once per binding, in
//! the table's insertion order.
use vstd::prelude::*;

use crate::table::Dict;
use crate::text::{occurs, replace_str, spec_replace, lemma_replace_absent};

verus! {

/// The literal placeholder a binding name forms under a brace pattern:
/// the pattern with every `var` token replaced by the name.
pub open spec fn placeholder(fmt: Seq<char>, name: Seq<char>) -> Seq<char> {
    spec_replace(fmt, "var"@, name)
}

/// Substitution of every binding into a text, front to back.
pub open spec fn spec_render(
    text: Seq<char>,
    binds: Seq<(Seq<char>, Seq<char>)>,
    fmt: Seq<char>,
) -> Seq<char>
    decreases binds.len(),
{
    if binds.len() == 0 {
        text
    } else {
        spec_render(
            spec_replace(text, placeholder(fmt, binds[0].0), binds[0].1),
            binds.drop_first(),
            fmt,
        )
    }
}

/// Substitute every binding of `vars` into `text`.
#[verifier::loop_isolation(false)]
pub fn render_with_vars(text: String, vars: &Dict<String>, fmtstring: &str) -> (r: String)
    ensures
        r@ == spec_render(text@, vars@, fmtstring@),
{
    let ghost t0 = text@;
    let mut acc = text;
    let n = vars.len();
    let mut i: usize = 0;
    proof {
        assert(vars@.skip(0) =~= vars@);
    }
    while i < n
        invariant
            i <= vars@.len(),
            n == vars@.len(),
            spec_render(t0, vars@, fmtstring@) == spec_render(
                acc@,
                vars@.skip(i as int),
                fmtstring@,
            ),
        decreases vars@.len() - i,
    {
        proof {
            assert(vars@.skip(i as int)[0] == vars@[i as int]);
            assert(vars@.skip(i as int).drop_first() =~= vars@.skip(i as int + 1));
        }
        let pat = replace_str(fmtstring, "var", vars.key_at(i).as_str());
        acc = replace_str(acc.as_str(), pat.as_str(), vars.val_at(i).as_str());
        i = i + 1;
    }
    proof {
        assert(vars@.skip(n as int) =~= Seq::<(Seq<char>, Seq<char>)>::empty());
    }
    acc
}

/// A text in which no binding's placeholder occurs is left unchanged by
/// substitution.  Placeholders are asked to be non-empty: an empty brace
/// pattern would make the substitution insert values everywhere.
pub proof fn lemma_render_unchanged(
    text: Seq<char>,
    binds: Seq<(Seq<char>, Seq<char>)>,
    fmt: Seq<char>,
)
    ensures
        (forall|i: int|
            0 <= i < binds.len() ==> (#[trigger] placeholder(fmt, binds[i].0)).len() > 0 && !occurs(
                text,
                placeholder(fmt, binds[i].0),
            )) ==> spec_render(text, binds, fmt) == text,
    decreases binds.len(),
{
    if binds.len() > 0 {
        if forall|i: int|
            0 <= i < binds.len() ==> (#[trigger] placeholder(fmt, binds[i].0)).len() > 0 && !occurs(
                text,
                placeholder(fmt, binds[i].0),
            ) {
            assert(placeholder(fmt, binds[0].0).len() > 0);
            lemma_replace_absent(text, placeholder(fmt, binds[0].0), binds[0].1);
            let rest = binds.drop_first();
            assert forall|i: int|
                0 <= i < rest.len() implies (#[trigger] placeholder(fmt, rest[i].0)).len() > 0
                && !occurs(text, placeholder(fmt, rest[i].0)) by {
                assert(rest[i] == binds[i + 1]);
            }
            lemma_render_unchanged(text, rest, fmt);
        }
    }
}

/// Substitution is idempotent on a result with no remaining
/// placeholders: rendering a second time changes nothing.
pub proof fn lemma_render_idempotent(
    text: Seq<char>,
    binds: Seq<(Seq<char>, Seq<char>)>,
    fmt: Seq<char>,
)
    ensures
        ({
            let once = spec_render(text, binds, fmt);
            (forall|i: int|
                0 <= i < binds.len() ==> (#[trigger] placeholder(fmt, binds[i].0)).len() > 0
                    && !occurs(once, placeholder(fmt, binds[i].0))) ==> spec_render(
                once,
                binds,
                fmt,
            ) == once
        }),
{
    let once = spec_render(text, binds, fmt);
    lemma_render_unchanged(once, binds, fmt);
}

} // verus!
