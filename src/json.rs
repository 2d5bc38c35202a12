//! A structured value in the shape of a JSON document, with its
//! mathematical model.

use vstd::prelude::*;

verus! {

/// A structured value: what an operation that this engine does not know,
/// or a property that it does not interpret, carries unchanged.
///
/// Numbers that are neither a non-negative nor a negative 64-bit integer
/// are kept as their decimal text.
#[derive(Debug, PartialEq)]
pub enum Json {
    Null,
    Bool(bool),
    UInt(u64),
    Int(i64),
    Float(String),
    Str(String),
    Array(Vec<Json>),
    Object(Vec<(String, Json)>),
}

/// The model of a [`Json`] value.
pub enum JsonV {
    Null,
    Bool(bool),
    UInt(u64),
    Int(i64),
    Float(Seq<char>),
    Str(Seq<char>),
    Array(Seq<JsonV>),
    Object(Seq<(Seq<char>, JsonV)>),
}

impl Json {
    pub open spec fn view(&self) -> JsonV
        decreases self,
    {
        match self {
            Json::Null => JsonV::Null,
            Json::Bool(b) => JsonV::Bool(*b),
            Json::UInt(n) => JsonV::UInt(*n),
            Json::Int(n) => JsonV::Int(*n),
            Json::Float(t) => JsonV::Float(t@),
            Json::Str(s) => JsonV::Str(s@),
            Json::Array(v) => JsonV::Array(values_view(v@)),
            Json::Object(m) => JsonV::Object(entries_view(m@)),
        }
    }
}

/// The models of a sequence of values.
pub open spec fn values_view(s: Seq<Json>) -> Seq<JsonV>
    decreases s,
{
    if s.len() == 0 {
        seq![]
    } else {
        values_view(s.drop_last()).push(s.last().view())
    }
}

/// The models of the entries of an object.
pub open spec fn entries_view(s: Seq<(String, Json)>) -> Seq<(Seq<char>, JsonV)>
    decreases s,
{
    if s.len() == 0 {
        seq![]
    } else {
        entries_view(s.drop_last()).push((s.last().0@, s.last().1.view()))
    }
}

/// The value under `k` in the entries of an object: that of the first entry
/// with that name.
pub open spec fn lookup(es: Seq<(Seq<char>, JsonV)>, k: Seq<char>) -> Option<JsonV>
    decreases es.len(),
{
    if es.len() == 0 {
        None
    } else if es[0].0 == k {
        Some(es[0].1)
    } else {
        lookup(es.drop_first(), k)
    }
}

pub proof fn lemma_values_view(s: Seq<Json>)
    ensures
        values_view(s).len() == s.len(),
        forall|i: int| 0 <= i < s.len() ==> #[trigger] values_view(s)[i] == s[i].view(),
    decreases s.len(),
{
    if s.len() > 0 {
        lemma_values_view(s.drop_last());
    }
}

pub proof fn lemma_entries_view(s: Seq<(String, Json)>)
    ensures
        entries_view(s).len() == s.len(),
        forall|i: int|
            0 <= i < s.len() ==> #[trigger] entries_view(s)[i] == (s[i].0@, s[i].1.view()),
    decreases s.len(),
{
    if s.len() > 0 {
        lemma_entries_view(s.drop_last());
    }
}

/// A lookup in two runs of entries finds the first run's entry if it has one.
pub proof fn lemma_lookup_concat(a: Seq<(Seq<char>, JsonV)>, b: Seq<(Seq<char>, JsonV)>, k: Seq<char>)
    ensures
        lookup(a + b, k) == (match lookup(a, k) {
            Some(v) => Some(v),
            None => lookup(b, k),
        }),
    decreases a.len(),
{
    if a.len() > 0 {
        assert((a + b).drop_first() =~= a.drop_first() + b);
        lemma_lookup_concat(a.drop_first(), b, k);
    } else {
        assert(a + b =~= b);
    }
}

impl Json {
    /// A copy of the value.
    pub fn deep_clone(&self) -> (r: Json)
        ensures
            r@ == self@,
        decreases self,
    {
        match self {
            Json::Null => Json::Null,
            Json::Bool(b) => Json::Bool(*b),
            Json::UInt(n) => Json::UInt(*n),
            Json::Int(n) => Json::Int(*n),
            Json::Float(t) => Json::Float(t.clone()),
            Json::Str(s) => Json::Str(s.clone()),
            Json::Array(v) => Json::Array(clone_values(v)),
            Json::Object(m) => Json::Object(clone_entries(m)),
        }
    }
}

/// A copy of a sequence of values.
pub fn clone_values(v: &Vec<Json>) -> (r: Vec<Json>)
    ensures
        values_view(r@) == values_view(v@),
    decreases v,
{
    let mut r: Vec<Json> = Vec::new();
    let mut i: usize = 0;
    while i < v.len()
        invariant
            i <= v.len(),
            values_view(r@) == values_view(v@.subrange(0, i as int)),
        decreases v.len() - i,
    {
        proof {
            assert(decreases_to!(v => v[i as int]));
        }
        let c = v[i].deep_clone();
        let ghost r0 = r@;
        r.push(c);
        proof {
            assert(v@.subrange(0, i + 1).drop_last() =~= v@.subrange(0, i as int));
            assert(r@.drop_last() =~= r0);
        }
        i = i + 1;
    }
    assert(v@.subrange(0, v.len() as int) =~= v@);
    r
}

/// A copy of the entries of an object.
pub fn clone_entries(m: &Vec<(String, Json)>) -> (r: Vec<(String, Json)>)
    ensures
        entries_view(r@) == entries_view(m@),
    decreases m,
{
    let mut r: Vec<(String, Json)> = Vec::new();
    let mut i: usize = 0;
    while i < m.len()
        invariant
            i <= m.len(),
            entries_view(r@) == entries_view(m@.subrange(0, i as int)),
        decreases m.len() - i,
    {
        proof {
            assert(decreases_to!(m => m[i as int]));
            assert(decreases_to!(m[i as int] => m[i as int].1));
        }
        let k = m[i].0.clone();
        let c = m[i].1.deep_clone();
        let ghost r0 = r@;
        r.push((k, c));
        proof {
            assert(m@.subrange(0, i + 1).drop_last() =~= m@.subrange(0, i as int));
            assert(r@.drop_last() =~= r0);
        }
        i = i + 1;
    }
    assert(m@.subrange(0, m.len() as int) =~= m@);
    r
}

/// Whether a name is the text `lit`.
pub fn name_is(k: &String, lit: &str) -> (r: bool)
    ensures
        r == (k@ == lit@),
{
    let l = lit.to_owned();
    *k == l
}

/// The position of the entry that holds the value under `key` in the
/// entries of an object.
pub fn object_find(m: &Vec<(String, Json)>, key: &str) -> (r: Option<usize>)
    ensures
        match r {
            Some(i) => i < m@.len() && lookup(entries_view(m@), key@) == Some(m@[i as int].1@),
            None => lookup(entries_view(m@), key@) is None,
        },
{
    let ghost es = entries_view(m@);
    proof {
        lemma_entries_view(m@);
        assert(es.subrange(0, es.len() as int) =~= es);
    }
    let mut i: usize = 0;
    while i < m.len()
        invariant
            i <= m.len(),
            es == entries_view(m@),
            es.len() == m@.len(),
            forall|j: int| 0 <= j < m@.len() ==> #[trigger] es[j] == (m@[j].0@, m@[j].1.view()),
            lookup(es, key@) == lookup(es.subrange(i as int, es.len() as int), key@),
        decreases m.len() - i,
    {
        let ghost rest = es.subrange(i as int, es.len() as int);
        assert(rest[0] == es[i as int]);
        if name_is(&m[i].0, key) {
            return Some(i);
        }
        assert(rest.drop_first() =~= es.subrange(i + 1, es.len() as int));
        i = i + 1;
    }
    None
}

/// Appends the entry `(k, v)`.
pub fn push_entry(es: &mut Vec<(String, Json)>, k: &str, v: Json)
    ensures
        entries_view(final(es)@) == entries_view(old(es)@).push((k@, v@)),
{
    let ghost e0 = es@;
    es.push((k.to_owned(), v));
    assert(es@.drop_last() =~= e0);
}

/// Appends copies of the entries of `more`.
pub fn append_entries(es: &mut Vec<(String, Json)>, more: &Vec<(String, Json)>)
    ensures
        entries_view(final(es)@) == entries_view(old(es)@) + entries_view(more@),
{
    let ghost start = entries_view(es@);
    proof {
        lemma_entries_view(more@);
        assert(entries_view(more@.subrange(0, 0)) =~= Seq::<(Seq<char>, JsonV)>::empty());
        assert(start + Seq::<(Seq<char>, JsonV)>::empty() =~= start);
    }
    let mut i: usize = 0;
    while i < more.len()
        invariant
            i <= more@.len(),
            entries_view(es@) == start + entries_view(more@.subrange(0, i as int)),
        decreases more.len() - i,
    {
        let ghost e0 = es@;
        let k = more[i].0.clone();
        let v = more[i].1.deep_clone();
        es.push((k, v));
        proof {
            assert(es@.drop_last() =~= e0);
            assert(more@.subrange(0, i + 1).drop_last() =~= more@.subrange(0, i as int));
            assert(entries_view(more@.subrange(0, i + 1)) == entries_view(more@.subrange(0, i as int)).push(
                (more@[i as int].0@, more@[i as int].1@),
            ));
            assert(start + entries_view(more@.subrange(0, i + 1)) =~= (start + entries_view(
                more@.subrange(0, i as int),
            )).push((more@[i as int].0@, more@[i as int].1@)));
        }
        i = i + 1;
    }
    assert(more@.subrange(0, more@.len() as int) =~= more@);
}

} // verus!
