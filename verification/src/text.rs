//! Verified building blocks for the string work the engine does:
//! substring search, non-overlapping replacement, ASCII lower-casing
//! and decimal rendering of integers.
use vstd::prelude::*;

verus! {

/// The pattern `pat` occurs in `text` at position `i`.
pub open spec fn occurs_at(text: Seq<char>, pat: Seq<char>, i: int) -> bool {
    0 <= i && i + pat.len() <= text.len() && text.subrange(i, i + pat.len() as int) == pat
}

/// The pattern `pat` occurs somewhere in `text`.
pub open spec fn occurs(text: Seq<char>, pat: Seq<char>) -> bool {
    exists|i: int| occurs_at(text, pat, i)
}

/// Position of the leftmost occurrence of `pat` in `text`, if any.
pub open spec fn spec_find(text: Seq<char>, pat: Seq<char>) -> Option<int>
    decreases text.len(),
{
    if pat.len() > text.len() {
        None
    } else if text.subrange(0, pat.len() as int) == pat {
        Some(0int)
    } else if text.len() == 0 {
        None
    } else {
        match spec_find(text.drop_first(), pat) {
            Some(i) => Some(i + 1),
            None => None,
        }
    }
}

/// A found position lies in range and marks an occurrence, and no
/// occurrence lies to its left; a `None` means no occurrence at all.
pub proof fn lemma_find_props(text: Seq<char>, pat: Seq<char>)
    ensures
        match spec_find(text, pat) {
            Some(i) => occurs_at(text, pat, i) && (forall|j: int|
                0 <= j < i ==> !occurs_at(text, pat, j)),
            None => forall|j: int| !occurs_at(text, pat, j),
        },
    decreases text.len(),
{
    if pat.len() > text.len() {
        assert forall|j: int| !occurs_at(text, pat, j) by {}
    } else if text.subrange(0, pat.len() as int) == pat {
        assert(occurs_at(text, pat, 0));
    } else if text.len() == 0 {
        assert forall|j: int| !occurs_at(text, pat, j) by {
            if occurs_at(text, pat, j) {
                assert(j == 0);
            }
        }
    } else {
        lemma_find_props(text.drop_first(), pat);
        let rest = text.drop_first();
        assert forall|j: int| 0 <= j implies (occurs_at(text, pat, j + 1) == occurs_at(
            rest,
            pat,
            j,
        )) by {
            if j + pat.len() <= rest.len() {
                assert(rest.subrange(j, j + pat.len() as int) =~= text.subrange(
                    j + 1,
                    j + 1 + pat.len() as int,
                ));
            }
        }
        match spec_find(rest, pat) {
            Some(i) => {
                assert(occurs_at(rest, pat, i));
                assert(occurs_at(text, pat, i + 1));
                assert forall|j: int| 0 <= j < i + 1 implies !occurs_at(text, pat, j) by {
                    if j == 0 {
                        if occurs_at(text, pat, 0) {
                            assert(text.subrange(0, pat.len() as int) == pat);
                        }
                    } else {
                        assert(!occurs_at(rest, pat, j - 1));
                    }
                }
            },
            None => {
                assert forall|j: int| !occurs_at(text, pat, j) by {
                    if occurs_at(text, pat, j) {
                        if j == 0 {
                            assert(text.subrange(0, pat.len() as int) == pat);
                        } else {
                            assert(occurs_at(rest, pat, j - 1));
                        }
                    }
                }
            },
        }
    }
}

#[via_fn]
proof fn spec_replace_decreases(text: Seq<char>, pat: Seq<char>, sub: Seq<char>) {
    if pat.len() > 0 {
        lemma_find_props(text, pat);
    }
}

/// Replace every non-overlapping occurrence of `pat` in `text` by `sub`,
/// scanning left to right.  An empty pattern matches at every position,
/// as `str::replace` has it: `sub` is interleaved before every character
/// and once at the end.
pub open spec fn spec_replace(text: Seq<char>, pat: Seq<char>, sub: Seq<char>) -> Seq<char>
    decreases text.len(),
    via spec_replace_decreases
{
    if pat.len() == 0 {
        if text.len() == 0 {
            sub
        } else {
            sub + text.subrange(0, 1) + spec_replace(text.drop_first(), pat, sub)
        }
    } else {
        match spec_find(text, pat) {
            None => text,
            Some(i) => text.subrange(0, i) + sub + spec_replace(
                text.skip(i + pat.len() as int),
                pat,
                sub,
            ),
        }
    }
}

/// If a non-empty pattern does not occur in `text`, replacement leaves
/// `text` unchanged.
pub proof fn lemma_replace_absent(text: Seq<char>, pat: Seq<char>, sub: Seq<char>)
    requires
        pat.len() > 0,
        !occurs(text, pat),
    ensures
        spec_replace(text, pat, sub) == text,
{
    lemma_find_props(text, pat);
    if spec_find(text, pat) is Some {
        let i = spec_find(text, pat)->Some_0;
        assert(occurs_at(text, pat, i));
    }
}

/// ASCII upper-case letter.
pub open spec fn is_upper_ascii(c: char) -> bool {
    'A' <= c && c <= 'Z'
}

/// Lower-case one character: ASCII letters `A`..`Z` map to `a`..`z`,
/// all other characters stay as they are.
pub open spec fn lower_char(c: char) -> char {
    if is_upper_ascii(c) {
        (((c as u8) + 32) as char)
    } else {
        c
    }
}

/// ASCII lower-casing of a whole character sequence.
pub open spec fn lower_seq(s: Seq<char>) -> Seq<char> {
    s.map_values(|c: char| lower_char(c))
}

/// The character for one decimal digit.
pub open spec fn digit_char(d: int) -> char {
    if d == 0 {
        '0'
    } else if d == 1 {
        '1'
    } else if d == 2 {
        '2'
    } else if d == 3 {
        '3'
    } else if d == 4 {
        '4'
    } else if d == 5 {
        '5'
    } else if d == 6 {
        '6'
    } else if d == 7 {
        '7'
    } else if d == 8 {
        '8'
    } else {
        '9'
    }
}

/// Decimal rendering of a natural number, most significant digit first.
pub open spec fn dec_digits(n: nat) -> Seq<char>
    decreases n,
{
    if n < 10 {
        seq![digit_char(n as int)]
    } else {
        dec_digits(n / 10) + seq![digit_char((n % 10) as int)]
    }
}

/// Items joined with a separator between neighbours.
pub open spec fn sep_join(items: Seq<Seq<char>>, sep: Seq<char>) -> Seq<char>
    decreases items.len(),
{
    if items.len() == 0 {
        Seq::<char>::empty()
    } else if items.len() == 1 {
        items[0]
    } else {
        sep_join(items.drop_last(), sep) + sep + items.last()
    }
}

/// Relies on `String::push`: appends the given character to the string.
#[verifier::external_body]
pub fn push_char(s: &mut String, c: char)
    ensures
        final(s)@ == old(s)@.push(c),
{
    s.push(c);
}

/// The characters of a string slice, as a vector.
pub fn chars_of(s: &str) -> (v: Vec<char>)
    ensures
        v@ == s@,
{
    let n = s.unicode_len();
    let mut v: Vec<char> = Vec::new();
    let mut i: usize = 0;
    while i < n
        invariant
            i <= n,
            n == s@.len(),
            v@ == s@.subrange(0, i as int),
        decreases n - i,
    {
        v.push(s.get_char(i));
        i = i + 1;
        proof {
            assert(v@ =~= s@.subrange(0, i as int));
        }
    }
    proof {
        assert(v@ =~= s@);
    }
    v
}

/// A `String` holding exactly the given characters.
pub fn string_of(v: &Vec<char>) -> (s: String)
    ensures
        s@ == v@,
{
    let mut s = String::new();
    let mut i: usize = 0;
    while i < v.len()
        invariant
            i <= v@.len(),
            s@ == v@.subrange(0, i as int),
        decreases v@.len() - i,
    {
        push_char(&mut s, v[i]);
        i = i + 1;
        proof {
            assert(s@ =~= v@.subrange(0, i as int));
        }
    }
    proof {
        assert(s@ =~= v@);
    }
    s
}

/// String-slice equality, decided over the character views.
pub fn str_eq(a: &str, b: &str) -> (r: bool)
    ensures
        r == (a@ == b@),
{
    let sa = a.to_owned();
    let sb = b.to_owned();
    sa == sb
}

/// Does `pat` occur in `text` starting at `at`?
fn match_at(text: &Vec<char>, pat: &Vec<char>, at: usize) -> (r: bool)
    requires
        at + pat@.len() <= text@.len(),
    ensures
        r == (text@.subrange(at as int, at + pat@.len() as int) == pat@),
{
    let n = text.len();
    let mut k: usize = 0;
    while k < pat.len()
        invariant
            k <= pat@.len(),
            at + pat@.len() <= text@.len(),
            n == text@.len(),
            text@.subrange(at as int, at + k as int) == pat@.subrange(0, k as int),
        decreases pat@.len() - k,
    {
        if text[at + k] != pat[k] {
            proof {
                let l = text@.subrange(at as int, at + pat@.len() as int);
                assert(l[k as int] == text@[at + k]);
            }
            return false;
        }
        k = k + 1;
        proof {
            assert(text@.subrange(at as int, at + k as int) =~= pat@.subrange(0, k as int));
        }
    }
    proof {
        assert(text@.subrange(at as int, at + pat@.len() as int) =~= pat@);
        assert(pat@.subrange(0, pat@.len() as int) =~= pat@);
    }
    true
}

/// Leftmost occurrence of `pat` in `text` at or after `from`.
fn find_from(text: &Vec<char>, pat: &Vec<char>, from: usize) -> (r: Option<usize>)
    requires
        pat@.len() > 0,
        from <= text@.len(),
    ensures
        match r {
            Some(i) => from <= i && i + pat@.len() <= text@.len() && spec_find(
                text@.skip(from as int),
                pat@,
            ) == Some(i - from),
            None => spec_find(text@.skip(from as int), pat@) is None,
        },
    decreases text@.len() - from,
{
    let t = Ghost(text@.skip(from as int));
    if pat.len() > text.len() - from {
        proof {
            assert(t@.len() < pat@.len());
        }
        return None;
    }
    proof {
        assert(t@.subrange(0, pat@.len() as int) =~= text@.subrange(
            from as int,
            from + pat@.len() as int,
        ));
    }
    if match_at(text, pat, from) {
        proof {
            assert(t@.subrange(0, pat@.len() as int) == pat@);
        }
        return Some(from);
    }
    proof {
        assert(t@.drop_first() =~= text@.skip(from as int + 1));
    }
    match find_from(text, pat, from + 1) {
        Some(i) => Some(i),
        None => None,
    }
}

/// Append all of `add` to `out`.
fn push_all(out: &mut Vec<char>, add: &Vec<char>)
    ensures
        final(out)@ == old(out)@ + add@,
{
    let mut k: usize = 0;
    while k < add.len()
        invariant
            k <= add@.len(),
            out@ == old(out)@ + add@.subrange(0, k as int),
        decreases add@.len() - k,
    {
        out.push(add[k]);
        k = k + 1;
        proof {
            assert(out@ =~= old(out)@ + add@.subrange(0, k as int));
        }
    }
    proof {
        assert(out@ =~= old(out)@ + add@);
    }
}

/// Append `src[a..b]` to `out`.
pub fn push_range(out: &mut Vec<char>, src: &Vec<char>, a: usize, b: usize)
    requires
        a <= b <= src@.len(),
    ensures
        final(out)@ == old(out)@ + src@.subrange(a as int, b as int),
{
    let mut k: usize = a;
    while k < b
        invariant
            a <= k <= b <= src@.len(),
            out@ == old(out)@ + src@.subrange(a as int, k as int),
        decreases b - k,
    {
        out.push(src[k]);
        k = k + 1;
        proof {
            assert(out@ =~= old(out)@ + src@.subrange(a as int, k as int));
        }
    }
    proof {
        assert(out@ =~= old(out)@ + src@.subrange(a as int, b as int));
    }
}

/// Replacement, on character vectors.
fn replace_chars(text: &Vec<char>, pat: &Vec<char>, sub: &Vec<char>) -> (r: Vec<char>)
    ensures
        r@ == spec_replace(text@, pat@, sub@),
{
    let mut out: Vec<char> = Vec::new();
    proof {
        assert(text@.skip(0) =~= text@);
        assert(Seq::<char>::empty() + spec_replace(text@, pat@, sub@) =~= spec_replace(
            text@,
            pat@,
            sub@,
        ));
    }
    if pat.len() == 0 {
        let mut i: usize = 0;
        while i < text.len()
            invariant
                i <= text@.len(),
                pat@.len() == 0,
                spec_replace(text@, pat@, sub@) == out@ + spec_replace(
                    text@.skip(i as int),
                    pat@,
                    sub@,
                ),
            decreases text@.len() - i,
        {
            proof {
                let t = text@.skip(i as int);
                assert(t.len() > 0);
                assert(t.subrange(0, 1) =~= seq![text@[i as int]]);
                assert(t.drop_first() =~= text@.skip(i as int + 1));
                assert(out@ + (sub@ + t.subrange(0, 1) + spec_replace(
                    t.drop_first(),
                    pat@,
                    sub@,
                )) =~= (out@ + sub@ + seq![text@[i as int]]) + spec_replace(
                    text@.skip(i as int + 1),
                    pat@,
                    sub@,
                ));
            }
            push_all(&mut out, sub);
            out.push(text[i]);
            i = i + 1;
        }
        proof {
            assert(text@.skip(text@.len() as int) =~= Seq::<char>::empty());
        }
        push_all(&mut out, sub);
        return out;
    }
    let n = text.len();
    let mut from: usize = 0;
    loop
        invariant
            pat@.len() > 0,
            n == text@.len(),
            from <= text@.len(),
            spec_replace(text@, pat@, sub@) == out@ + spec_replace(
                text@.skip(from as int),
                pat@,
                sub@,
            ),
        decreases text@.len() - from,
    {
        match find_from(text, pat, from) {
            None => {
                proof {
                    assert(text@.skip(from as int).subrange(
                        0,
                        text@.skip(from as int).len() as int,
                    ) =~= text@.subrange(from as int, text@.len() as int));
                    assert(out@ + text@.skip(from as int) =~= out@ + text@.subrange(
                        from as int,
                        text@.len() as int,
                    ));
                }
                push_range(&mut out, text, from, text.len());
                return out;
            },
            Some(i) => {
                proof {
                    let t = text@.skip(from as int);
                    let j = i - from;
                    assert(t.subrange(0, j) =~= text@.subrange(from as int, i as int));
                    assert(t.skip(j + pat@.len() as int) =~= text@.skip(i + pat@.len() as int));
                    assert(out@ + (t.subrange(0, j) + sub@ + spec_replace(
                        t.skip(j + pat@.len() as int),
                        pat@,
                        sub@,
                    )) =~= (out@ + text@.subrange(from as int, i as int) + sub@) + spec_replace(
                        text@.skip(i + pat@.len() as int),
                        pat@,
                        sub@,
                    ));
                }
                push_range(&mut out, text, from, i);
                push_all(&mut out, sub);
                proof {
                    assert(i + pat@.len() <= text@.len());
                }
                from = i + pat.len();
            },
        }
    }
}

/// `str::replace`-style substitution on strings, against `spec_replace`.
pub fn replace_str(text: &str, pat: &str, sub: &str) -> (r: String)
    ensures
        r@ == spec_replace(text@, pat@, sub@),
{
    let tv = chars_of(text);
    let pv = chars_of(pat);
    let sv = chars_of(sub);
    let out = replace_chars(&tv, &pv, &sv);
    string_of(&out)
}

/// ASCII lower-casing of a string.
pub fn lower_str(s: &str) -> (r: String)
    ensures
        r@ == lower_seq(s@),
{
    let v = chars_of(s);
    let mut out: Vec<char> = Vec::new();
    let mut i: usize = 0;
    while i < v.len()
        invariant
            i <= v@.len(),
            v@ == s@,
            out@ == lower_seq(s@).subrange(0, i as int),
        decreases v@.len() - i,
    {
        let c = v[i];
        if 'A' <= c && c <= 'Z' {
            out.push((((c as u8) + 32) as char));
        } else {
            out.push(c);
        }
        i = i + 1;
        proof {
            assert(out@ =~= lower_seq(s@).subrange(0, i as int));
        }
    }
    proof {
        assert(out@ =~= lower_seq(s@));
    }
    string_of(&out)
}

/// Decimal rendering of a `u64`.
pub fn u64_to_string(n: u64) -> (r: String)
    ensures
        r@ == dec_digits(n as nat),
{
    let mut digits: Vec<char> = Vec::new();
    u64_digits(n, &mut digits);
    string_of(&digits)
}

/// Push the decimal digits of `n` onto `digits`.
fn u64_digits(n: u64, digits: &mut Vec<char>)
    ensures
        final(digits)@ == old(digits)@ + dec_digits(n as nat),
    decreases n,
{
    if n < 10 {
        let c = digit_to_char(n);
        digits.push(c);
        proof {
            assert(digits@ =~= old(digits)@ + dec_digits(n as nat));
        }
    } else {
        u64_digits(n / 10, digits);
        let c = digit_to_char(n % 10);
        digits.push(c);
        proof {
            assert(digits@ =~= old(digits)@ + dec_digits(n as nat));
        }
    }
}

/// Join strings with a separator between neighbours.
pub fn join_strings(items: &Vec<String>, sep: &str) -> (r: String)
    ensures
        r@ == sep_join(items.deep_view(), sep@),
{
    let mut acc = String::new();
    let mut i: usize = 0;
    while i < items.len()
        invariant
            i <= items@.len(),
            acc@ == sep_join(items.deep_view().subrange(0, i as int), sep@),
        decreases items@.len() - i,
    {
        proof {
            let pre = items.deep_view().subrange(0, i as int);
            let post = items.deep_view().subrange(0, i + 1);
            assert(post.drop_last() =~= pre);
            assert(post.last() == items.deep_view()[i as int]);
        }
        if i > 0 {
            acc.append(sep);
        }
        acc.append(items[i].as_str());
        i = i + 1;
    }
    proof {
        assert(items.deep_view().subrange(0, items.deep_view().len() as int) =~= items.deep_view());
    }
    acc
}

/// The character of one digit value.
pub fn digit_to_char(d: u64) -> (c: char)
    requires
        d < 10,
    ensures
        c == digit_char(d as int),
{
    if d == 0 {
        '0'
    } else if d == 1 {
        '1'
    } else if d == 2 {
        '2'
    } else if d == 3 {
        '3'
    } else if d == 4 {
        '4'
    } else if d == 5 {
        '5'
    } else if d == 6 {
        '6'
    } else if d == 7 {
        '7'
    } else if d == 8 {
        '8'
    } else {
        '9'
    }
}


#[via_fn]
proof fn split_char_decreases(s: Seq<char>, c: char) {
    lemma_find_props(s, seq![c]);
}

/// The segments of `s` between occurrences of `c`: one more segment
/// than there are separators, empty segments kept.
pub open spec fn split_char(s: Seq<char>, c: char) -> Seq<Seq<char>>
    decreases s.len(),
    via split_char_decreases
{
    match spec_find(s, seq![c]) {
        None => seq![s],
        Some(i) => seq![s.subrange(0, i)] + split_char(s.skip(i + 1), c),
    }
}

/// Split a string at every occurrence of `c`.
#[verifier::loop_isolation(false)]
pub fn split_str(s: &str, c: char) -> (r: Vec<String>)
    ensures
        r.deep_view() == split_char(s@, c),
{
    let tv = chars_of(s);
    let mut pv: Vec<char> = Vec::new();
    pv.push(c);
    proof {
        assert(pv@ =~= seq![c]);
    }
    let mut items: Vec<String> = Vec::new();
    let mut from: usize = 0;
    proof {
        assert(s@.skip(0) =~= s@);
        assert(Seq::<Seq<char>>::empty() + split_char(s@, c) =~= split_char(s@, c));
    }
    let n = tv.len();
    loop
        invariant
            n == tv@.len(),
            from <= tv@.len(),
            tv@ == s@,
            pv@ == seq![c],
            split_char(s@, c) == items.deep_view() + split_char(s@.skip(from as int), c),
        decreases tv@.len() - from,
    {
        match find_from(&tv, &pv, from) {
            None => {
                let mut seg: Vec<char> = Vec::new();
                push_range(&mut seg, &tv, from, tv.len());
                let segs = string_of(&seg);
                let ghost sv = segs@;
                let ghost prev = items.deep_view();
                items.push(segs);
                proof {
                    let t = s@.skip(from as int);
                    assert(t.subrange(0, t.len() as int) =~= t);
                    assert(sv =~= t);
                    assert(items.deep_view() =~= prev.push(sv));
                    assert(items.deep_view() =~= prev + seq![t]);
                }
                return items;
            },
            Some(i) => {
                let mut seg: Vec<char> = Vec::new();
                push_range(&mut seg, &tv, from, i);
                let segs = string_of(&seg);
                let ghost sv = segs@;
                let ghost prev = items.deep_view();
                items.push(segs);
                proof {
                    let t = s@.skip(from as int);
                    let j = i - from;
                    assert(t.subrange(0, j) =~= s@.subrange(from as int, i as int));
                    assert(sv =~= t.subrange(0, j));
                    assert(t.skip(j + 1) =~= s@.skip(i + 1));
                    assert(items.deep_view() =~= prev.push(sv));
                    assert(items.deep_view() + split_char(s@.skip(i + 1), c) =~= prev + (seq![
                        t.subrange(0, j),
                    ] + split_char(t.skip(j + 1), c)));
                }
                from = i + 1;
            },
        }
    }
}

/// A non-empty sequence of decimal digits.
pub open spec fn is_digit_seq(s: Seq<char>) -> bool {
    s.len() > 0 && forall|i: int| 0 <= i < s.len() ==> '0' <= #[trigger] s[i] <= '9'
}

/// The number the digits denote.
pub open spec fn digits_val(s: Seq<char>) -> int
    decreases s.len(),
{
    if s.len() == 0 {
        0
    } else {
        digits_val(s.drop_last()) * 10 + (s.last() as int - '0' as int)
    }
}

/// A digit string denotes a non-negative number.
pub proof fn lemma_digits_val_nonneg(s: Seq<char>)
    requires
        forall|i: int| 0 <= i < s.len() ==> '0' <= #[trigger] s[i] <= '9',
    ensures
        digits_val(s) >= 0,
    decreases s.len(),
{
    if s.len() > 0 {
        assert forall|i: int| 0 <= i < s.drop_last().len() implies '0' <= #[trigger] s.drop_last()[i]
            <= '9' by {
            assert(s.drop_last()[i] == s[i]);
        }
        lemma_digits_val_nonneg(s.drop_last());
    }
}

/// What a decimal token denotes, if it is one.  A leading zero is
/// refused, as RFC 6901 has it for array indexes.
pub open spec fn parse_index(s: Seq<char>) -> Option<int> {
    if is_digit_seq(s) && !(s.len() > 1 && s[0] == '0') {
        Some(digits_val(s))
    } else {
        None
    }
}

/// Parse a decimal token.  A value beyond `u64` range comes back as
/// `None`, as does anything that is not a plain digit string or that
/// starts with a superfluous zero.
#[verifier::loop_isolation(false)]
pub fn parse_index_u64(s: &str) -> (r: Option<u64>)
    ensures
        match r {
            Some(v) => parse_index(s@) == Some(v as int),
            None => parse_index(s@) is None || (parse_index(s@) matches Some(v) && v > u64::MAX),
        },
{
    let cs = chars_of(s);
    if cs.len() == 0 {
        return None;
    }
    if cs.len() > 1 && cs[0] == '0' {
        return None;
    }
    let mut v: u128 = 0;
    let mut i: usize = 0;
    while i < cs.len()
        invariant
            i <= cs@.len(),
            cs@ == s@,
            cs@.len() > 0,
            forall|j: int| 0 <= j < i ==> '0' <= #[trigger] s@[j] <= '9',
            digits_val(s@.subrange(0, i as int)) <= u64::MAX ==> v == digits_val(
                s@.subrange(0, i as int),
            ),
            digits_val(s@.subrange(0, i as int)) > u64::MAX ==> v > u64::MAX,
            v <= u128::MAX / 2,
        decreases cs@.len() - i,
    {
        let c = cs[i];
        if c < '0' || c > '9' {
            return None;
        }
        let d: u128 = ((c as u8) - 48) as u128;
        proof {
            let pre = s@.subrange(0, i as int);
            let post = s@.subrange(0, i + 1);
            assert(post.drop_last() =~= pre);
            assert(post.last() == s@[i as int]);
            lemma_digits_val_nonneg(pre);
        }
        if v <= 0xffff_ffff_ffff_ffffu128 {
            v = v * 10 + d;
        }
        i = i + 1;
    }
    proof {
        assert(s@.subrange(0, s@.len() as int) =~= s@);
        assert(is_digit_seq(s@));
    }
    if v <= 0xffff_ffff_ffff_ffffu128 {
        Some(v as u64)
    } else {
        None
    }
}

} // verus!
