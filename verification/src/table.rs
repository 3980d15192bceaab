//! An insertion-ordered association table from strings to values.
//!
//! The engine threads several name-to-value tables through a sequence
//! (variable bindings, captured responses, header maps).  The table keeps
//! its entries in insertion order, which makes every walk over it
//! deterministic, and it keeps keys unique.
use vstd::prelude::*;

verus! {

/// Some entry carries the key `k`.
pub open spec fn dict_has<T>(s: Seq<(Seq<char>, T)>, k: Seq<char>) -> bool {
    exists|i: int| 0 <= i < s.len() && s[i].0 == k
}

/// The value at the first entry carrying `k`, if any.
pub open spec fn dict_get<T>(s: Seq<(Seq<char>, T)>, k: Seq<char>) -> Option<T>
    decreases s.len(),
{
    if s.len() == 0 {
        None
    } else if s[0].0 == k {
        Some(s[0].1)
    } else {
        dict_get(s.drop_first(), k)
    }
}

/// Insert or overwrite: an existing entry keeps its position, a new key
/// goes to the end.
pub open spec fn dict_put<T>(s: Seq<(Seq<char>, T)>, k: Seq<char>, v: T) -> Seq<(Seq<char>, T)>
    decreases s.len(),
{
    if s.len() == 0 {
        seq![(k, v)]
    } else if s[0].0 == k {
        seq![(k, v)] + s.drop_first()
    } else {
        seq![s[0]] + dict_put(s.drop_first(), k, v)
    }
}

/// All keys distinct.
pub open spec fn dict_uniq<T>(s: Seq<(Seq<char>, T)>) -> bool {
    forall|i: int, j: int| 0 <= i < j < s.len() ==> s[i].0 != s[j].0
}

/// A lookup succeeds exactly on the keys the table carries.
pub proof fn lemma_get_has<T>(s: Seq<(Seq<char>, T)>, k: Seq<char>)
    ensures
        dict_get(s, k) is Some <==> dict_has(s, k),
    decreases s.len(),
{
    if s.len() == 0 {
    } else if s[0].0 == k {
        assert(dict_has(s, k));
    } else {
        lemma_get_has(s.drop_first(), k);
        let rest = s.drop_first();
        assert forall|i: int| 0 <= i < s.len() && s[i].0 == k implies dict_has(rest, k) by {
            assert(rest[i - 1] == s[i]);
        }
        if dict_has(rest, k) {
            let i = choose|i: int| 0 <= i < rest.len() && rest[i].0 == k;
            assert(s[i + 1].0 == k);
        }
    }
}

/// What `dict_put` does to lookups: the inserted key now maps to the new
/// value, every other key is untouched, and uniqueness is preserved.
pub proof fn lemma_put_props<T>(s: Seq<(Seq<char>, T)>, k: Seq<char>, v: T)
    requires
        dict_uniq(s),
    ensures
        dict_uniq(dict_put(s, k, v)),
        dict_get(dict_put(s, k, v), k) == Some(v),
        forall|k2: Seq<char>| k2 != k ==> dict_get(dict_put(s, k, v), k2) == dict_get(s, k2),
        forall|k2: Seq<char>| #[trigger] dict_has(dict_put(s, k, v), k2) == (k2 == k || dict_has(
            s,
            k2,
        )),
    decreases s.len(),
{
    let out = dict_put(s, k, v);
    if s.len() == 0 {
        assert(out.drop_first() =~= Seq::<(Seq<char>, T)>::empty());
        assert forall|k2: Seq<char>| k2 != k implies dict_get(out, k2) == dict_get(s, k2) by {
            assert(out[0].0 == k);
            assert(dict_get(out.drop_first(), k2) is None);
        }
        assert forall|k2: Seq<char>| #[trigger] dict_has(out, k2) == (k2 == k || dict_has(
            s,
            k2,
        )) by {
            if dict_has(out, k2) {
                let i = choose|i: int| 0 <= i < out.len() && out[i].0 == k2;
                assert(i == 0);
            }
            if k2 == k {
                assert(out[0].0 == k2);
            }
        }
    } else if s[0].0 == k {
        let rest = s.drop_first();
        assert(out =~= seq![(k, v)] + rest);
        assert forall|i: int| 0 <= i < rest.len() implies rest[i].0 != k by {
            assert(s[i + 1] == rest[i]);
        }
        assert(dict_uniq(rest)) by {
            assert forall|i: int, j: int| 0 <= i < j < rest.len() implies rest[i].0 != rest[j].0 by {
                assert(s[i + 1] == rest[i]);
                assert(s[j + 1] == rest[j]);
            }
        }
        assert(out.drop_first() =~= rest);
        assert forall|k2: Seq<char>| k2 != k implies dict_get(out, k2) == dict_get(s, k2) by {}
        assert forall|k2: Seq<char>| #[trigger] dict_has(out, k2) == (k2 == k || dict_has(
            s,
            k2,
        )) by {
            if dict_has(out, k2) {
                let i = choose|i: int| 0 <= i < out.len() && out[i].0 == k2;
                if i == 0 {
                } else {
                    assert(s[i].0 == k2);
                }
            }
            if k2 == k {
                assert(out[0].0 == k2);
            } else if dict_has(s, k2) {
                let i = choose|i: int| 0 <= i < s.len() && s[i].0 == k2;
                assert(i != 0);
                assert(out[i].0 == k2);
            }
        }
    } else {
        let rest = s.drop_first();
        assert(dict_uniq(rest)) by {
            assert forall|i: int, j: int| 0 <= i < j < rest.len() implies rest[i].0 != rest[j].0 by {
                assert(s[i + 1] == rest[i]);
                assert(s[j + 1] == rest[j]);
            }
        }
        lemma_put_props(rest, k, v);
        assert(out =~= seq![s[0]] + dict_put(rest, k, v));
        assert(out.drop_first() =~= dict_put(rest, k, v));
        assert forall|k2: Seq<char>| k2 != k implies dict_get(out, k2) == dict_get(s, k2) by {
            assert(out[0] == s[0]);
            if s[0].0 == k2 {
            } else {
                assert(dict_get(out, k2) == dict_get(dict_put(rest, k, v), k2));
                assert(dict_get(s, k2) == dict_get(rest, k2));
            }
        }
        assert(dict_uniq(out)) by {
            assert forall|i: int, j: int| 0 <= i < j < out.len() implies out[i].0 != out[j].0 by {
                if i == 0 {
                    assert(dict_has(dict_put(rest, k, v), out[j].0)) by {
                        assert(dict_put(rest, k, v)[j - 1] == out[j]);
                    }
                    if out[j].0 == s[0].0 {
                        assert(s[0].0 != k);
                        assert(dict_has(rest, s[0].0));
                        let m = choose|m: int| 0 <= m < rest.len() && rest[m].0 == s[0].0;
                        assert(s[m + 1].0 == s[0].0);
                    }
                } else {
                    assert(dict_put(rest, k, v)[i - 1] == out[i]);
                    assert(dict_put(rest, k, v)[j - 1] == out[j]);
                }
            }
        }
        assert forall|k2: Seq<char>| #[trigger] dict_has(out, k2) == (k2 == k || dict_has(
            s,
            k2,
        )) by {
            if dict_has(out, k2) {
                let i = choose|i: int| 0 <= i < out.len() && out[i].0 == k2;
                if i == 0 {
                    assert(s[0].0 == k2);
                } else {
                    assert(dict_put(rest, k, v)[i - 1] == out[i]);
                    assert(dict_has(dict_put(rest, k, v), k2));
                    if k2 != k && dict_has(rest, k2) {
                        let m = choose|m: int| 0 <= m < rest.len() && rest[m].0 == k2;
                        assert(s[m + 1].0 == k2);
                    }
                }
            } else {
                assert(out[0].0 == s[0].0);
                if k2 == k {
                    lemma_get_has(dict_put(rest, k, v), k2);
                    let m = choose|m: int|
                        0 <= m < dict_put(rest, k, v).len() && dict_put(rest, k, v)[m].0 == k2;
                    assert(out[m + 1].0 == k2);
                }
                if dict_has(s, k2) {
                    let i = choose|i: int| 0 <= i < s.len() && s[i].0 == k2;
                    if i == 0 {
                    } else {
                        assert(rest[i - 1].0 == k2);
                        assert(dict_has(rest, k2));
                        assert(dict_has(dict_put(rest, k, v), k2));
                        let m = choose|m: int|
                            0 <= m < dict_put(rest, k, v).len() && dict_put(rest, k, v)[m].0 == k2;
                        assert(out[m + 1].0 == k2);
                    }
                }
            }
        }
    }
}

/// Cloning that keeps the mathematical value: every type stored in a
/// table (and every type the engine copies while preparing a request)
/// implements this, and each implementation is verified.
pub trait DupView: DeepView + Sized {
    /// An equal copy, stated over the deep view.
    fn dup(&self) -> (r: Self)
        ensures
            r.deep_view() == self.deep_view(),
    ;
}

impl DupView for String {
    fn dup(&self) -> (r: Self)
        ensures
            r.deep_view() == self.deep_view(),
    {
        self.clone()
    }
}

impl<T: DupView> DupView for Vec<T> {
    fn dup(&self) -> (r: Self)
        ensures
            r.deep_view() == self.deep_view(),
    {
        let mut out: Vec<T> = Vec::new();
        let mut i: usize = 0;
        while i < self.len()
            invariant
                i <= self@.len(),
                out.deep_view() == self.deep_view().subrange(0, i as int),
            decreases self@.len() - i,
        {
            let d = self[i].dup();
            let ghost dv = d.deep_view();
            let ghost prev = out.deep_view();
            out.push(d);
            i = i + 1;
            proof {
                assert(out.deep_view() =~= prev.push(dv));
                assert(out.deep_view() =~= self.deep_view().subrange(0, i as int));
            }
        }
        proof {
            assert(out.deep_view() =~= self.deep_view());
        }
        out
    }
}

impl<T: DupView> DupView for Option<T> {
    fn dup(&self) -> (r: Self)
        ensures
            r.deep_view() == self.deep_view(),
    {
        match self {
            Some(v) => Some(v.dup()),
            None => None,
        }
    }
}

/// An insertion-ordered table from `String` keys to values, keys unique.
pub struct Dict<V> {
    entries: Vec<(String, V)>,
}

impl<V: DeepView> View for Dict<V> {
    type V = Seq<(Seq<char>, V::V)>;

    closed spec fn view(&self) -> Seq<(Seq<char>, V::V)> {
        self.entries.deep_view()
    }
}

impl<V: DeepView> DeepView for Dict<V> {
    type V = Seq<(Seq<char>, V::V)>;

    open spec fn deep_view(&self) -> Seq<(Seq<char>, V::V)> {
        self.view()
    }
}

impl<V: DeepView> Dict<V> {
    /// Keys are unique.
    pub open spec fn wf(&self) -> bool {
        dict_uniq(self@)
    }

    /// The empty table.
    pub fn new() -> (d: Self)
        ensures
            d@ == Seq::<(Seq<char>, V::V)>::empty(),
            d.wf(),
    {
        let d = Dict { entries: Vec::new() };
        proof {
            assert(d@ =~= Seq::<(Seq<char>, V::V)>::empty());
        }
        d
    }

    /// Number of entries.
    pub fn len(&self) -> (n: usize)
        ensures
            n == self@.len(),
    {
        self.entries.len()
    }

    /// The key of the entry at position `i`.
    pub fn key_at(&self, i: usize) -> (r: &String)
        requires
            i < self@.len(),
        ensures
            r@ == self@[i as int].0,
    {
        &self.entries[i].0
    }

    /// The value of the entry at position `i`.
    pub fn val_at(&self, i: usize) -> (r: &V)
        requires
            i < self@.len(),
        ensures
            r.deep_view() == self@[i as int].1,
    {
        &self.entries[i].1
    }

    /// Position of the entry carrying key `k`, if any.
    fn position(&self, k: &str) -> (r: Option<usize>)
        ensures
            match r {
                Some(i) => i < self@.len() && self@[i as int].0 == k@ && (forall|j: int|
                    0 <= j < i ==> self@[j].0 != k@),
                None => !dict_has(self@, k@),
            },
    {
        let mut i: usize = 0;
        while i < self.entries.len()
            invariant
                i <= self@.len(),
                forall|j: int| 0 <= j < i ==> self@[j].0 != k@,
            decreases self@.len() - i,
        {
            if crate::text::str_eq(self.entries[i].0.as_str(), k) {
                return Some(i);
            }
            i = i + 1;
        }
        None
    }

    /// Does the table carry key `k`?
    pub fn contains_key(&self, k: &str) -> (r: bool)
        ensures
            r == dict_has(self@, k@),
    {
        match self.position(k) {
            Some(_) => true,
            None => false,
        }
    }

    /// The value bound to `k`, if any.
    pub fn get<'a>(&'a self, k: &str) -> (r: Option<&'a V>)
        ensures
            match r {
                Some(v) => dict_get(self@, k@) == Some(v.deep_view()),
                None => dict_get(self@, k@) is None,
            },
    {
        proof {
            lemma_get_has(self@, k@);
        }
        match self.position(k) {
            Some(i) => {
                proof {
                    lemma_get_at(self@, k@, i as int);
                }
                Some(&self.entries[i].1)
            },
            None => None,
        }
    }

    /// Append an entry at the end, whatever keys are present.
    pub fn push_pair(&mut self, k: String, v: V)
        ensures
            final(self)@ == old(self)@.push((k@, v.deep_view())),
    {
        self.entries.push((k, v));
        proof {
            assert(self@ =~= old(self)@.push((k@, v.deep_view())));
        }
    }

    /// Bind `k` to `v`, overwriting any earlier binding of `k`.
    pub fn insert(&mut self, k: String, v: V)
        requires
            old(self).wf(),
        ensures
            final(self)@ == dict_put(old(self)@, k@, v.deep_view()),
            final(self).wf(),
    {
        proof {
            lemma_put_props(self@, k@, v.deep_view());
        }
        match self.position(k.as_str()) {
            Some(i) => {
                proof {
                    lemma_put_at(self@, k@, v.deep_view(), i as int);
                }
                self.entries.set(i, (k, v));
                proof {
                    assert(self@ =~= old(self)@.update(
                        i as int,
                        (k@, v.deep_view()),
                    ));
                }
            },
            None => {
                proof {
                    lemma_put_end(self@, k@, v.deep_view());
                }
                self.entries.push((k, v));
                proof {
                    assert(self@ =~= old(self)@.push((k@, v.deep_view())));
                }
            },
        }
    }
}

impl<V: DupView> Dict<V> {
    /// An equal copy of the table.
    pub fn duplicate(&self) -> (r: Self)
        ensures
            r@ == self@,
            r.wf() == self.wf(),
    {
        let mut out: Vec<(String, V)> = Vec::new();
        let mut i: usize = 0;
        while i < self.entries.len()
            invariant
                i <= self.entries@.len(),
                out.deep_view() == self.entries.deep_view().subrange(0, i as int),
            decreases self.entries@.len() - i,
        {
            let p = &self.entries[i];
            let e = (p.0.clone(), p.1.dup());
            let ghost ev = e.deep_view();
            let ghost prev = out.deep_view();
            out.push(e);
            i = i + 1;
            proof {
                assert(ev == self.entries@[i - 1].deep_view());
                assert(out.deep_view() =~= prev.push(ev));
                assert(out.deep_view() =~= self.entries.deep_view().subrange(0, i as int));
            }
        }
        proof {
            assert(out.deep_view() =~= self.entries.deep_view());
        }
        Dict { entries: out }
    }
}

impl<V: DupView> DupView for Dict<V> {
    fn dup(&self) -> (r: Self)
        ensures
            r.deep_view() == self.deep_view(),
    {
        self.duplicate()
    }
}

/// At a position carrying `k` in a unique-key table, the lookup answers
/// with that position's value.
pub proof fn lemma_get_at<T>(s: Seq<(Seq<char>, T)>, k: Seq<char>, i: int)
    requires
        0 <= i < s.len(),
        s[i].0 == k,
        forall|j: int| 0 <= j < i ==> s[j].0 != k,
    ensures
        dict_get(s, k) == Some(s[i].1),
    decreases s.len(),
{
    if i == 0 {
    } else {
        let rest = s.drop_first();
        assert forall|j: int| 0 <= j < i - 1 implies rest[j].0 != k by {
            assert(rest[j] == s[j + 1]);
        }
        lemma_get_at(rest, k, i - 1);
    }
}

/// Overwriting at the position that carries `k` is a positional update.
proof fn lemma_put_at<T>(s: Seq<(Seq<char>, T)>, k: Seq<char>, v: T, i: int)
    requires
        0 <= i < s.len(),
        s[i].0 == k,
        forall|j: int| 0 <= j < i ==> s[j].0 != k,
    ensures
        dict_put(s, k, v) == s.update(i, (k, v)),
    decreases s.len(),
{
    if i == 0 {
        assert(dict_put(s, k, v) =~= s.update(0, (k, v)));
    } else {
        let rest = s.drop_first();
        assert forall|j: int| 0 <= j < i - 1 implies rest[j].0 != k by {
            assert(rest[j] == s[j + 1]);
        }
        lemma_put_at(rest, k, v, i - 1);
        assert(dict_put(s, k, v) =~= s.update(i, (k, v)));
    }
}

/// Inserting an absent key appends at the end.
pub proof fn lemma_put_end<T>(s: Seq<(Seq<char>, T)>, k: Seq<char>, v: T)
    requires
        !dict_has(s, k),
    ensures
        dict_put(s, k, v) == s.push((k, v)),
    decreases s.len(),
{
    if s.len() == 0 {
        assert(dict_put(s, k, v) =~= s.push((k, v)));
    } else {
        assert(s[0].0 != k);
        let rest = s.drop_first();
        assert(!dict_has(rest, k)) by {
            if dict_has(rest, k) {
                let i = choose|i: int| 0 <= i < rest.len() && rest[i].0 == k;
                assert(s[i + 1].0 == k);
            }
        }
        lemma_put_end(rest, k, v);
        assert(dict_put(s, k, v) =~= s.push((k, v)));
    }
}

} // verus!
