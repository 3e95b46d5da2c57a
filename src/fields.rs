use vstd::prelude::*;

verus! {

/// A list of named text fields, as characters.
pub type FieldsView = Seq<(Seq<char>, Seq<char>)>;

/// The characters of each name and value of `v`.
pub open spec fn pairs_view(v: Seq<(String, String)>) -> FieldsView {
    Seq::new(v.len(), |i: int| (v[i].0@, v[i].1@))
}

/// The value of the first field named `k`.
pub open spec fn field<V>(f: Seq<(Seq<char>, V)>, k: Seq<char>) -> Option<V>
    decreases f.len(),
{
    if f.len() == 0 {
        None
    } else if f[0].0 == k {
        Some(f[0].1)
    } else {
        field(f.drop_first(), k)
    }
}

/// `f` with the first field named `k` set to `v`, or with `(k, v)` added at
/// the end when there is none.
pub open spec fn put<V>(f: Seq<(Seq<char>, V)>, k: Seq<char>, v: V) -> Seq<(Seq<char>, V)>
    decreases f.len(),
{
    if f.len() == 0 {
        seq![(k, v)]
    } else if f[0].0 == k {
        f.update(0, (k, v))
    } else {
        seq![f[0]] + put(f.drop_first(), k, v)
    }
}

/// The fields of `s` put one after another: a later field with a name seen
/// before replaces the value and keeps the first position.
pub open spec fn last_wins<V>(s: Seq<(Seq<char>, V)>) -> Seq<(Seq<char>, V)>
    decreases s.len(),
{
    if s.len() == 0 {
        seq![]
    } else {
        put(last_wins(s.drop_last()), s.last().0, s.last().1)
    }
}

/// The fields of `s` whose name was not seen before them.
pub open spec fn first_wins(s: FieldsView) -> FieldsView
    decreases s.len(),
{
    if s.len() == 0 {
        seq![]
    } else {
        let m = first_wins(s.drop_last());
        if field(m, s.last().0) is Some {
            m
        } else {
            m.push(s.last())
        }
    }
}

/// No two fields share a name.
pub open spec fn names_unique<V>(f: Seq<(Seq<char>, V)>) -> bool {
    forall|i: int, j: int| 0 <= i < j < f.len() ==> f[i].0 != f[j].0
}

/// The looked-up value is that of the first field with the name.
pub proof fn lemma_field_at<V>(f: Seq<(Seq<char>, V)>, k: Seq<char>, i: int)
    requires
        0 <= i <= f.len(),
        forall|j: int| 0 <= j < i ==> f[j].0 != k,
    ensures
        i < f.len() && f[i].0 == k ==> field(f, k) == Some(f[i].1),
        i == f.len() ==> field(f, k) is None,
    decreases i,
{
    if i > 0 {
        lemma_field_at(f.drop_first(), k, i - 1);
    } else if f.len() > 0 && f[0].0 != k {
        if i == f.len() {
        }
    }
}

/// Putting at the first field named `k`, or past the end.
pub proof fn lemma_put_at<V>(f: Seq<(Seq<char>, V)>, k: Seq<char>, v: V, i: int)
    requires
        0 <= i <= f.len(),
        forall|j: int| 0 <= j < i ==> f[j].0 != k,
        i < f.len() ==> f[i].0 == k,
    ensures
        i < f.len() ==> put(f, k, v) == f.update(i, (k, v)),
        i == f.len() ==> put(f, k, v) == f.push((k, v)),
    decreases i,
{
    if i > 0 {
        lemma_put_at(f.drop_first(), k, v, i - 1);
        if i < f.len() {
            assert(put(f, k, v) =~= f.update(i, (k, v)));
        } else {
            assert(put(f, k, v) =~= f.push((k, v)));
        }
    } else if f.len() == 0 {
        assert(put(f, k, v) =~= f.push((k, v)));
    }
}

/// After a put, the name holds the new value and every other name keeps its own.
pub proof fn lemma_put_field<V>(f: Seq<(Seq<char>, V)>, k: Seq<char>, v: V, q: Seq<char>)
    ensures
        field(put(f, k, v), q) == if q == k { Some(v) } else { field(f, q) },
    decreases f.len(),
{
    if f.len() > 0 && f[0].0 != k {
        lemma_put_field(f.drop_first(), k, v, q);
        let p = seq![f[0]] + put(f.drop_first(), k, v);
        assert(p[0] == f[0]);
        assert(p.drop_first() =~= put(f.drop_first(), k, v));
        assert(put(f, k, v) == p);
    } else if f.len() > 0 {
        let p = f.update(0, (k, v));
        assert(p[0] == (k, v));
        assert(p.drop_first() =~= f.drop_first());
        assert(put(f, k, v) == p);
    } else {
        let p = seq![(k, v)];
        assert(p.drop_first() =~= Seq::<(Seq<char>, V)>::empty());
        assert(put(f, k, v) == p);
        assert(field(p.drop_first(), q) is None);
    }
}

/// The value of the last field of `s` named `k`.
pub open spec fn last_value<V>(s: Seq<(Seq<char>, V)>, k: Seq<char>) -> Option<V>
    decreases s.len(),
{
    if s.len() == 0 {
        None
    } else if s.last().0 == k {
        Some(s.last().1)
    } else {
        last_value(s.drop_last(), k)
    }
}

/// Collecting with `last_wins` keeps, for each name, its last value.
pub proof fn lemma_last_wins_field<V>(s: Seq<(Seq<char>, V)>, k: Seq<char>)
    ensures
        field(last_wins(s), k) == last_value(s, k),
    decreases s.len(),
{
    if s.len() > 0 {
        lemma_last_wins_field(s.drop_last(), k);
        lemma_put_field(last_wins(s.drop_last()), s.last().0, s.last().1, k);
    }
}

proof fn lemma_last_value_concat<V>(s: Seq<(Seq<char>, V)>, t: Seq<(Seq<char>, V)>, k: Seq<char>)
    ensures
        last_value(s + t, k) == if last_value(t, k) is Some {
            last_value(t, k)
        } else {
            last_value(s, k)
        },
    decreases t.len(),
{
    if t.len() == 0 {
        assert(s + t =~= s);
    } else {
        assert((s + t).drop_last() =~= s + t.drop_last());
        assert((s + t).last() == t.last());
        lemma_last_value_concat(s, t.drop_last(), k);
    }
}

proof fn lemma_last_value_in<V>(s: Seq<(Seq<char>, V)>, k: Seq<char>)
    ensures
        last_value(s, k) is Some ==> exists|i: int| 0 <= i < s.len() && #[trigger] s[i].0 == k,
    decreases s.len(),
{
    if s.len() > 0 && s.last().0 != k {
        lemma_last_value_in(s.drop_last(), k);
        if last_value(s, k) is Some {
            let i = choose|i: int| 0 <= i < s.len() - 1 && #[trigger] s.drop_last()[i].0 == k;
            assert(s[i].0 == k);
        }
    } else if s.len() > 0 {
        assert(s[s.len() - 1].0 == k);
    }
}

/// When no name occurs in both `s` and `t`, the order of the two groups of
/// pairs does not change what `last_wins` gives for any name.
pub proof fn lemma_last_wins_order_free<V>(s: Seq<(Seq<char>, V)>, t: Seq<(Seq<char>, V)>, k: Seq<char>)
    requires
        forall|i: int, j: int| 0 <= i < s.len() && 0 <= j < t.len() ==> #[trigger] s[i].0 != #[trigger] t[j].0,
    ensures
        field(last_wins(s + t), k) == field(last_wins(t + s), k),
{
    lemma_last_wins_field(s + t, k);
    lemma_last_wins_field(t + s, k);
    lemma_last_value_concat(s, t, k);
    lemma_last_value_concat(t, s, k);
    lemma_last_value_in(s, k);
    lemma_last_value_in(t, k);
}

/// Setting a field keeps the names distinct.
pub proof fn lemma_put_names_unique<V>(f: Seq<(Seq<char>, V)>, k: Seq<char>, v: V)
    requires
        names_unique(f),
    ensures
        names_unique(put(f, k, v)),
    decreases f.len(),
{
    if f.len() > 0 && f[0].0 != k {
        lemma_put_names_unique(f.drop_first(), k, v);
        let p = seq![f[0]] + put(f.drop_first(), k, v);
        assert forall|i: int, j: int| 0 <= i < j < p.len() implies p[i].0 != p[j].0 by {
            if i == 0 {
                lemma_put_field(f.drop_first(), k, v, f[0].0);
                if p[j].0 == f[0].0 {
                    lemma_put_field(f.drop_first(), k, v, f[0].0);
                    lemma_field_index(put(f.drop_first(), k, v), f[0].0, j - 1);
                    lemma_field_some(f.drop_first(), f[0].0);
                }
            }
        }
        assert(put(f, k, v) == p);
    } else if f.len() > 0 {
        assert(f.update(0, (k, v)) == put(f, k, v));
    }
}

proof fn lemma_field_index<V>(f: Seq<(Seq<char>, V)>, k: Seq<char>, i: int)
    requires
        0 <= i < f.len(),
        f[i].0 == k,
    ensures
        field(f, k) is Some,
    decreases i,
{
    if i > 0 && f[0].0 != k {
        lemma_field_index(f.drop_first(), k, i - 1);
    }
}

proof fn lemma_field_some<V>(f: Seq<(Seq<char>, V)>, k: Seq<char>)
    ensures
        field(f, k) is Some ==> exists|i: int| 0 <= i < f.len() && #[trigger] f[i].0 == k,
    decreases f.len(),
{
    if f.len() > 0 && f[0].0 != k {
        lemma_field_some(f.drop_first(), k);
        if field(f, k) is Some {
            let i = choose|i: int| 0 <= i < f.len() - 1 && #[trigger] f.drop_first()[i].0 == k;
            assert(f[i + 1].0 == k);
        }
    } else if f.len() > 0 {
        assert(f[0].0 == k);
    }
}

/// Collecting fields whose names are distinct with `first_wins`, as the
/// request parser collects headers, gives them back unchanged.
pub proof fn lemma_first_wins_unique(f: FieldsView)
    requires
        names_unique(f),
    ensures
        first_wins(f) == f,
    decreases f.len(),
{
    if f.len() > 0 {
        let d = f.drop_last();
        assert(names_unique(d));
        lemma_first_wins_unique(d);
        lemma_field_some(d, f.last().0);
        if field(d, f.last().0) is Some {
            let i = choose|i: int| 0 <= i < d.len() && #[trigger] d[i].0 == f.last().0;
            assert(f[i].0 == f[f.len() - 1].0);
        }
        assert(d.push(f.last()) =~= f);
    }
}

/// The position of the first pair of `v` named `k`.
pub fn field_index(v: &Vec<(String, String)>, k: &String) -> (r: Option<usize>)
    ensures
        match r {
            Some(i) => i < v@.len() && v@[i as int].0@ == k@ && forall|j: int|
                0 <= j < i ==> v@[j].0@ != k@,
            None => forall|j: int| 0 <= j < v@.len() ==> v@[j].0@ != k@,
        },
{
    let mut i: usize = 0;
    while i < v.len()
        invariant
            i <= v@.len(),
            forall|j: int| 0 <= j < i ==> v@[j].0@ != k@,
        decreases v@.len() - i,
    {
        if v[i].0 == *k {
            return Some(i);
        }
        i = i + 1;
    }
    None
}

/// The value of the first pair of `v` named `k`.
pub fn get_field(v: &Vec<(String, String)>, k: &String) -> (r: Option<String>)
    ensures
        r matches Some(s) ==> field(pairs_view(v@), k@) == Some(s@),
        r is None ==> field(pairs_view(v@), k@) is None,
{
    let found = field_index(v, k);
    proof {
        let f = pairs_view(v@);
        match found {
            Some(i) => lemma_field_at(f, k@, i as int),
            None => lemma_field_at(f, k@, f.len() as int),
        }
    }
    match found {
        Some(i) => Some(v[i].1.clone()),
        None => None,
    }
}

/// Sets the first pair named `k` to value `val`, or adds the pair at the
/// end; gives back the value that was replaced.
pub fn put_field(v: &mut Vec<(String, String)>, k: String, val: String) -> (r: Option<String>)
    ensures
        pairs_view(final(v)@) == put(pairs_view(old(v)@), k@, val@),
        r matches Some(s) ==> field(pairs_view(old(v)@), k@) == Some(s@),
        r is None ==> field(pairs_view(old(v)@), k@) is None,
{
    let found = field_index(v, &k);
    let ghost f = pairs_view(v@);
    let ghost kv = k@;
    let ghost vv = val@;
    match found {
        Some(i) => {
            proof {
                lemma_field_at(f, kv, i as int);
                lemma_put_at(f, kv, vv, i as int);
            }
            let old_value = v[i].1.clone();
            v.set(i, (k, val));
            assert(pairs_view(v@) =~= f.update(i as int, (kv, vv)));
            Some(old_value)
        },
        None => {
            proof {
                lemma_field_at(f, kv, f.len() as int);
                lemma_put_at(f, kv, vv, f.len() as int);
            }
            v.push((k, val));
            assert(pairs_view(v@) =~= f.push((kv, vv)));
            None
        },
    }
}

} // verus!
