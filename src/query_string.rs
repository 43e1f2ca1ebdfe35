//! Query strings: `key=value` pairs joined by `&`.
//!
//! A fragment without `=` carries no value and is skipped. Repeated keys
//! gather their values in the order they appear. Nothing is percent-decoded.
use vstd::prelude::*;

use crate::text::{find_char, first_index_of, str_eq};

verus! {

/// A key's values, in the order they appear.
pub type Values = Seq<Seq<char>>;

/// All values bound to one key.
#[derive(Debug, PartialEq, Eq)]
pub enum Value {
    Single(String),
    Multiple(Vec<String>),
}

impl View for Value {
    type V = Values;

    open spec fn view(&self) -> Values {
        match self {
            Value::Single(s) => seq![s@],
            Value::Multiple(v) => v@.map_values(|x: String| x@),
        }
    }
}

/// A key with one value holds it as `Single`, a key with more as `Multiple`.
pub open spec fn shape_ok(v: Value) -> bool {
    match v {
        Value::Single(_) => true,
        Value::Multiple(all) => all@.len() >= 2,
    }
}

/// Every value of `entries` has its shape.
pub open spec fn shapes_ok(entries: Seq<(String, Value)>) -> bool {
    forall|i: int| 0 <= i < entries.len() ==> shape_ok(#[trigger] entries[i].1)
}

/// The pieces of `s` between its `&` separators (one piece more than separators).
pub open spec fn fragments(s: Seq<char>) -> Seq<Seq<char>>
    decreases s.len(),
{
    if s.len() == 0 {
        seq![Seq::empty()]
    } else {
        let p = fragments(s.drop_last());
        if s.last() == '&' {
            p.push(Seq::empty())
        } else {
            p.update(p.len() - 1, p.last().push(s.last()))
        }
    }
}

/// A fragment split at its first `=` into key and value; `None` without `=`.
pub open spec fn pair_of(f: Seq<char>) -> Option<(Seq<char>, Seq<char>)> {
    match first_index_of(f, '=') {
        Some(i) => Some((f.subrange(0, i), f.subrange(i + 1, f.len() as int))),
        None => None,
    }
}

/// Whether `es` binds `k`.
pub open spec fn has_key(es: Seq<(Seq<char>, Values)>, k: Seq<char>) -> bool {
    exists|i: int| 0 <= i < es.len() && es[i].0 == k
}

/// Binds `v` to `k` in `es`: appended to the values of `k` if bound, else a new last entry.
pub open spec fn insert_entry(es: Seq<(Seq<char>, Values)>, k: Seq<char>, v: Seq<char>) -> Seq<
    (Seq<char>, Values),
> {
    if has_key(es, k) {
        let i = choose|i: int| 0 <= i < es.len() && es[i].0 == k;
        es.update(i, (k, es[i].1.push(v)))
    } else {
        es.push((k, seq![v]))
    }
}

/// The entries that a run of fragments binds, in order of first appearance.
pub open spec fn entries_of(frags: Seq<Seq<char>>) -> Seq<(Seq<char>, Values)>
    decreases frags.len(),
{
    if frags.len() == 0 {
        Seq::empty()
    } else {
        let es = entries_of(frags.drop_last());
        match pair_of(frags.last()) {
            Some((k, v)) => insert_entry(es, k, v),
            None => es,
        }
    }
}

/// The entries of a query string.
pub open spec fn parse_query(s: Seq<char>) -> Seq<(Seq<char>, Values)> {
    entries_of(fragments(s))
}

/// No key is bound twice, and every key has at least one value.
pub open spec fn entries_wf(es: Seq<(Seq<char>, Values)>) -> bool {
    &&& forall|i: int, j: int| 0 <= i < es.len() && 0 <= j < es.len() && es[i].0 == es[j].0 ==> i == j
    &&& forall|i: int| 0 <= i < es.len() ==> es[i].1.len() >= 1
}

/// The values bound to `k`, if any.
pub open spec fn lookup(es: Seq<(Seq<char>, Values)>, k: Seq<char>) -> Option<Values> {
    if has_key(es, k) {
        Some(es[choose|i: int| 0 <= i < es.len() && es[i].0 == k].1)
    } else {
        None
    }
}

/// A mapping from each key of a query string to its values.
pub struct QueryString {
    entries: Vec<(String, Value)>,
}

impl QueryString {
    /// Each key is bound once, to at least one value.
    #[verifier::type_invariant]
    spec fn inv(self) -> bool {
        &&& entries_wf(self.entries@.map_values(|e: (String, Value)| entry_view(e)))
        &&& shapes_ok(self.entries@)
    }
}

/// An entry as values: its key and the values bound to it.
pub open spec fn entry_view(e: (String, Value)) -> (Seq<char>, Values) {
    (e.0@, e.1@)
}

impl View for QueryString {
    type V = Seq<(Seq<char>, Values)>;

    closed spec fn view(&self) -> Seq<(Seq<char>, Values)> {
        self.entries@.map_values(|e: (String, Value)| entry_view(e))
    }
}

/// Binding a value keeps the keys unique and every key bound.
pub proof fn lemma_insert_entry_wf(es: Seq<(Seq<char>, Values)>, k: Seq<char>, v: Seq<char>)
    requires
        entries_wf(es),
    ensures
        entries_wf(insert_entry(es, k, v)),
        has_key(insert_entry(es, k, v), k),
{
    let r = insert_entry(es, k, v);
    if has_key(es, k) {
        let i = choose|i: int| 0 <= i < es.len() && es[i].0 == k;
        assert(r[i].0 == k);
    } else {
        assert(r[es.len() as int].0 == k);
    }
}

/// The entries of any run of fragments bind each key once.
pub proof fn lemma_entries_of_wf(frags: Seq<Seq<char>>)
    ensures
        entries_wf(entries_of(frags)),
    decreases frags.len(),
{
    if frags.len() > 0 {
        lemma_entries_of_wf(frags.drop_last());
        let es = entries_of(frags.drop_last());
        if let Some((k, v)) = pair_of(frags.last()) {
            lemma_insert_entry_wf(es, k, v);
        }
    }
}

/// Every query string binds each key once, with at least one value.
pub proof fn lemma_parse_query_wf(s: Seq<char>)
    ensures
        entries_wf(parse_query(s)),
{
    lemma_entries_of_wf(fragments(s));
}

/// Binding a value to a key that is already bound appends it to that key's values;
/// binding it to a new key gives that key exactly this value.
pub proof fn lemma_insert_accumulates(es: Seq<(Seq<char>, Values)>, k: Seq<char>, v: Seq<char>)
    requires
        entries_wf(es),
    ensures
        lookup(insert_entry(es, k, v), k) == Some(
            match lookup(es, k) {
                Some(vs) => vs.push(v),
                None => seq![v],
            },
        ),
{
    let r = insert_entry(es, k, v);
    lemma_insert_entry_wf(es, k, v);
    if has_key(es, k) {
        let i = choose|i: int| 0 <= i < es.len() && es[i].0 == k;
        assert(r[i].0 == k);
        let j = choose|j: int| 0 <= j < r.len() && r[j].0 == k;
        assert(j == i);
    } else {
        let n = es.len() as int;
        assert(r[n].0 == k);
        let j = choose|j: int| 0 <= j < r.len() && r[j].0 == k;
        assert(j == n);
    }
}

/// Binding a value keeps every value already bound to every key.
proof fn lemma_insert_keeps(
    es: Seq<(Seq<char>, Values)>,
    k: Seq<char>,
    v: Seq<char>,
    k2: Seq<char>,
    v2: Seq<char>,
)
    requires
        entries_wf(es),
        lookup(es, k2) matches Some(vs) && vs.contains(v2),
    ensures
        lookup(insert_entry(es, k, v), k2) matches Some(vs) && vs.contains(v2),
{
    if k == k2 {
        lemma_insert_accumulates(es, k, v);
        let vs = lookup(es, k).unwrap();
        let w = choose|w: int| 0 <= w < vs.len() && vs[w] == v2;
        assert(vs.push(v)[w] == v2);
    } else {
        let r = insert_entry(es, k, v);
        lemma_insert_entry_wf(es, k, v);
        let i = choose|i: int| 0 <= i < es.len() && es[i].0 == k2;
        assert(r[i] == es[i]);
        let j = choose|j: int| 0 <= j < r.len() && r[j].0 == k2;
        assert(j == i);
    }
}

/// Every fragment that holds a pair has its value among the values of its key.
pub proof fn lemma_entries_of_reflects(frags: Seq<Seq<char>>, i: int)
    requires
        0 <= i < frags.len(),
        pair_of(frags[i]) is Some,
    ensures
        ({
            let (k, v) = pair_of(frags[i]).unwrap();
            lookup(entries_of(frags), k) matches Some(vs) && vs.contains(v)
        }),
    decreases frags.len(),
{
    let (k, v) = pair_of(frags[i]).unwrap();
    let es = entries_of(frags.drop_last());
    lemma_entries_of_wf(frags.drop_last());
    if i == frags.len() - 1 {
        lemma_insert_accumulates(es, k, v);
        let vs = lookup(insert_entry(es, k, v), k).unwrap();
        assert(vs[vs.len() - 1] == v);
    } else {
        assert(frags.drop_last()[i] == frags[i]);
        lemma_entries_of_reflects(frags.drop_last(), i);
        if let Some((k2, v2)) = pair_of(frags.last()) {
            lemma_insert_keeps(es, k2, v2, k, v);
        }
    }
}

/// Every `key=value` fragment of a query string is reflected in its entries.
pub proof fn lemma_parse_query_reflects(s: Seq<char>, i: int)
    requires
        0 <= i < fragments(s).len(),
        pair_of(fragments(s)[i]) is Some,
    ensures
        ({
            let (k, v) = pair_of(fragments(s)[i]).unwrap();
            lookup(parse_query(s), k) matches Some(vs) && vs.contains(v)
        }),
{
    lemma_entries_of_reflects(fragments(s), i);
}

/// The position at which `entries` binds `key`, if any.
fn position_of(entries: &Vec<(String, Value)>, key: &str) -> (r: Option<usize>)
    ensures
        r matches Some(i) ==> i < entries@.len() && entries@[i as int].0@ == key@,
        r is None ==> forall|i: int| 0 <= i < entries@.len() ==> entries@[i].0@ != key@,
{
    let mut i: usize = 0;
    while i < entries.len()
        invariant
            i <= entries@.len(),
            forall|j: int| 0 <= j < i ==> entries@[j].0@ != key@,
        decreases entries@.len() - i,
    {
        if str_eq(entries[i].0.as_str(), key) {
            return Some(i);
        }
        i = i + 1;
    }
    None
}

/// Adds `value` to the values already bound to a key.
fn with_value(old: Value, value: String) -> (r: Value)
    requires
        shape_ok(old),
    ensures
        r@ == old@.push(value@),
        r is Multiple,
        shape_ok(r),
{
    match old {
        Value::Single(first) => {
            let all = vec![first, value];
            assert(all@.len() == 2);
            let r = Value::Multiple(all);
            assert(r@ =~= seq![first@].push(value@));
            r
        },
        Value::Multiple(mut all) => {
            let ghost before = all@;
            all.push(value);
            let r = Value::Multiple(all);
            assert(r@ =~= before.map_values(|x: String| x@).push(value@));
            r
        },
    }
}

/// Binds `value` to `key` in `entries`.
fn insert_pair(entries: &mut Vec<(String, Value)>, key: &str, value: &str)
    requires
        entries_wf(old(entries)@.map_values(|e: (String, Value)| entry_view(e))),
        shapes_ok(old(entries)@),
    ensures
        shapes_ok(final(entries)@),
        final(entries)@.map_values(|e: (String, Value)| entry_view(e)) == insert_entry(
            old(entries)@.map_values(|e: (String, Value)| entry_view(e)),
            key@,
            value@,
        ),
{
    let ghost es = entries@.map_values(|e: (String, Value)| entry_view(e));
    match position_of(entries, key) {
        Some(i) => {
            assert(es[i as int].0 == key@);
            assert(has_key(es, key@));
            assert(shape_ok(entries@[i as int].1));
            let (k, v) = entries.remove(i);
            let nv = with_value(v, value.to_owned());
            entries.insert(i, (k, nv));
            proof {
                assert forall|j: int| 0 <= j < entries@.len() implies shape_ok(#[trigger] entries@[j].1) by {
                    if j != i {
                        assert(entries@[j] == old(entries)@[j]);
                    }
                }
                let c = choose|c: int| 0 <= c < es.len() && es[c].0 == key@;
                assert(c == i);
                assert(entries@.map_values(|e: (String, Value)| entry_view(e)) =~= es.update(
                    i as int,
                    (key@, es[i as int].1.push(value@)),
                ));
            }
        },
        None => {
            assert(!has_key(es, key@));
            entries.push((key.to_owned(), Value::Single(value.to_owned())));
            assert forall|j: int| 0 <= j < entries@.len() implies shape_ok(#[trigger] entries@[j].1) by {
                if j < entries@.len() - 1 {
                    assert(entries@[j] == old(entries)@[j]);
                }
            }
            assert(entries@.map_values(|e: (String, Value)| entry_view(e)) =~= es.push(
                (key@, seq![value@]),
            ));
        },
    }
}

/// Adds the pair that fragment `f` holds, if it holds one.
fn add_fragment(entries: &mut Vec<(String, Value)>, f: &str)
    requires
        entries_wf(old(entries)@.map_values(|e: (String, Value)| entry_view(e))),
        shapes_ok(old(entries)@),
    ensures
        shapes_ok(final(entries)@),
        final(entries)@.map_values(|e: (String, Value)| entry_view(e)) == match pair_of(f@) {
            Some((k, v)) => insert_entry(
                old(entries)@.map_values(|e: (String, Value)| entry_view(e)),
                k,
                v,
            ),
            None => old(entries)@.map_values(|e: (String, Value)| entry_view(e)),
        },
{
    if let Some(i) = find_char(f, '=') {
        let n = f.unicode_len();
        let key = f.substring_char(0, i);
        let value = f.substring_char(i + 1, n);
        insert_pair(entries, key, value);
    }
}

impl QueryString {
    /// Parses the text after `?` in a request path.
    pub fn from_str(s: &str) -> (r: QueryString)
        ensures
            r@ == parse_query(s@),
            entries_wf(r@),
    {
        let mut entries: Vec<(String, Value)> = Vec::new();
        let n = s.unicode_len();
        let mut start: usize = 0;
        let mut i: usize = 0;
        let ghost done: Seq<Seq<char>> = Seq::empty();
        assert(s@.subrange(0, 0) =~= Seq::<char>::empty());
        assert(fragments(s@.subrange(0, 0)) =~= done.push(s@.subrange(0, 0)));
        while i < n
            invariant
                n == s@.len(),
                start <= i <= n,
                fragments(s@.subrange(0, i as int)) == done.push(s@.subrange(start as int, i as int)),
                entries@.map_values(|e: (String, Value)| entry_view(e)) == entries_of(done),
                entries_wf(entries_of(done)),
                shapes_ok(entries@),
            decreases n - i,
        {
            let c = s.get_char(i);
            proof {
                let p = s@.subrange(0, i + 1);
                assert(p.drop_last() =~= s@.subrange(0, i as int));
                assert(p.last() == c);
            }
            if c == '&' {
                let f = s.substring_char(start, i);
                add_fragment(&mut entries, f);
                proof {
                    let nd = done.push(f@);
                    assert(nd.drop_last() =~= done);
                    lemma_entries_of_wf(nd);
                    assert(s@.subrange((i + 1) as int, (i + 1) as int) =~= Seq::<char>::empty());
                    done = nd;
                }
                start = i + 1;
            } else {
                proof {
                    assert(s@.subrange(start as int, i + 1) =~= s@.subrange(start as int, i as int).push(c));
                    assert(done.push(s@.subrange(start as int, i as int)).update(
                        done.len() as int,
                        s@.subrange(start as int, i + 1),
                    ) =~= done.push(s@.subrange(start as int, i + 1)));
                }
            }
            i = i + 1;
        }
        let f = s.substring_char(start, n);
        add_fragment(&mut entries, f);
        proof {
            assert(s@.subrange(0, n as int) =~= s@);
            let nd = done.push(f@);
            assert(nd.drop_last() =~= done);
            lemma_parse_query_wf(s@);
        }
        QueryString { entries }
    }

    /// The values bound to `key`, if any.
    pub fn get(&self, key: &str) -> (r: Option<&Value>)
        ensures
            r matches Some(v) ==> lookup(self@, key@) == Some(v@) && (v is Single <==> v@.len()
                == 1),
            r is None ==> lookup(self@, key@) is None,
    {
        proof {
            use_type_invariant(self);
        }
        match position_of(&self.entries, key) {
            Some(i) => {
                proof {
                    assert(self@[i as int].0 == key@);
                    let c = choose|c: int| 0 <= c < self@.len() && self@[c].0 == key@;
                    assert(c == i);
                    assert(shape_ok(self.entries@[i as int].1));
                }
                Some(&self.entries[i].1)
            },
            None => {
                assert(!has_key(self@, key@));
                None
            },
        }
    }

    /// The number of distinct keys.
    pub fn len(&self) -> (r: usize)
        ensures
            r == self@.len(),
    {
        self.entries.len()
    }
}

} // verus!
