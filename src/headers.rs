//! The ordered header mapping of the home route, held in an `IndexMap`.
use vstd::prelude::*;

use indexmap::IndexMap;

use crate::request::HeaderField;

verus! {

#[verifier::external_type_specification]
#[verifier::external_body]
#[verifier::reject_recursive_types(K)]
#[verifier::reject_recursive_types(V)]
#[verifier::reject_recursive_types(S)]
pub struct ExIndexMap<K, V, S>(IndexMap<K, V, S>);

/// The (key, value) pairs of a map, in the map's order.
pub uninterp spec fn map_entries(m: IndexMap<String, String>) -> Seq<(Seq<char>, Seq<char>)>;

/// No key occurs twice.
pub open spec fn keys_unique(e: Seq<(Seq<char>, Seq<char>)>) -> bool {
    forall|i: int, j: int| 0 <= i < j < e.len() ==> e[i].0 != e[j].0
}

pub open spec fn key_at(e: Seq<(Seq<char>, Seq<char>)>, k: Seq<char>, i: int) -> bool {
    0 <= i < e.len() && e[i].0 == k
}

/// An existing key keeps its place and takes the new value; a new key goes last.
pub open spec fn inserted(e: Seq<(Seq<char>, Seq<char>)>, k: Seq<char>, v: Seq<char>) -> Seq<
    (Seq<char>, Seq<char>),
> {
    if exists|i: int| key_at(e, k, i) {
        e.update(choose|i: int| key_at(e, k, i), (k, v))
    } else {
        e.push((k, v))
    }
}

/// The pair goes first; an existing entry of the key is taken out of its place.
pub open spec fn moved_to_front(e: Seq<(Seq<char>, Seq<char>)>, k: Seq<char>, v: Seq<char>) -> Seq<
    (Seq<char>, Seq<char>),
> {
    if exists|i: int| key_at(e, k, i) {
        seq![(k, v)] + e.remove(choose|i: int| key_at(e, k, i))
    } else {
        seq![(k, v)] + e
    }
}

/// Fields with a visible-text value, inserted one by one in arrival order: a
/// repeated name keeps its first place and its last value.
pub open spec fn collected(fields: Seq<HeaderField>) -> Seq<(Seq<char>, Seq<char>)>
    decreases fields.len(),
{
    if fields.len() == 0 {
        Seq::empty()
    } else {
        let prev = collected(fields.drop_last());
        let f = fields.last();
        match f.value {
            Some(v) => inserted(prev, f.name@, v@),
            None => prev,
        }
    }
}

/// The home route's mapping: `ip` first, then the collected header fields.
pub open spec fn home_mapping(ip: Seq<char>, fields: Seq<HeaderField>) -> Seq<
    (Seq<char>, Seq<char>),
> {
    moved_to_front(collected(fields), seq!['i', 'p'], ip)
}

/// The character sequences of a list of string pairs.
pub open spec fn pairs_view(v: Seq<(String, String)>) -> Seq<(Seq<char>, Seq<char>)> {
    v.map_values(|p: (String, String)| (p.0@, p.1@))
}

/// Relies on `IndexMap::new`: a map with no entries.
#[verifier::external_body]
fn map_new() -> (r: IndexMap<String, String>)
    ensures
        map_entries(r) == Seq::<(Seq<char>, Seq<char>)>::empty(),
{
    IndexMap::new()
}

/// Relies on `IndexMap::insert`: an equivalent key keeps its place and takes
/// the new value; otherwise the pair is inserted last.
#[verifier::external_body]
fn map_insert(m: &mut IndexMap<String, String>, k: String, v: String)
    requires
        keys_unique(map_entries(*old(m))),
    ensures
        map_entries(*final(m)) == inserted(map_entries(*old(m)), k@, v@),
{
    m.insert(k, v);
}

/// Relies on `IndexMap::shift_insert` at index 0: an equivalent key moves to
/// the front and takes the new value; otherwise the pair is inserted first.
/// Index 0 is in bounds in both cases.
#[verifier::external_body]
fn map_shift_insert_front(m: &mut IndexMap<String, String>, k: String, v: String)
    requires
        keys_unique(map_entries(*old(m))),
    ensures
        map_entries(*final(m)) == moved_to_front(map_entries(*old(m)), k@, v@),
{
    m.shift_insert(0, k, v);
}

/// Relies on `IndexMap::len`: the number of entries.
#[verifier::external_body]
fn map_len(m: &IndexMap<String, String>) -> (r: usize)
    ensures
        r == map_entries(*m).len(),
{
    m.len()
}

/// Relies on `IndexMap::get_index`: the pair at position `i`, if `i` is in bounds.
#[verifier::external_body]
fn map_get_index(m: &IndexMap<String, String>, i: usize) -> (r: Option<(String, String)>)
    ensures
        i < map_entries(*m).len() ==> r is Some,
        i < map_entries(*m).len() ==> (r->0).0@ == map_entries(*m)[i as int].0,
        i < map_entries(*m).len() ==> (r->0).1@ == map_entries(*m)[i as int].1,
        i >= map_entries(*m).len() ==> r is None,
{
    match m.get_index(i) {
        Some((k, v)) => Some((k.clone(), v.clone())),
        None => None,
    }
}

proof fn lemma_inserted_keeps_keys_unique(
    e: Seq<(Seq<char>, Seq<char>)>,
    k: Seq<char>,
    v: Seq<char>,
)
    requires
        keys_unique(e),
    ensures
        keys_unique(inserted(e, k, v)),
{
    if exists|i: int| key_at(e, k, i) {
        let i = choose|i: int| key_at(e, k, i);
        let r = inserted(e, k, v);
        assert forall|a: int, b: int| 0 <= a < b < r.len() implies r[a].0 != r[b].0 by {
            assert(r[a].0 == e[a].0 && r[b].0 == e[b].0);
        }
    } else {
        let r = inserted(e, k, v);
        assert forall|a: int, b: int| 0 <= a < b < r.len() implies r[a].0 != r[b].0 by {
            if b == e.len() {
                assert(!key_at(e, k, a));
            }
        }
    }
}

/// The home route's mapping, as an `IndexMap`: `ip` first, then each field
/// with a visible-text value in arrival order, a repeated name keeping its
/// first place and its last value.
pub fn collect_headers(ip: String, fields: &Vec<HeaderField>) -> (r: IndexMap<String, String>)
    ensures
        map_entries(r) == home_mapping(ip@, fields@),
{
    let mut m = map_new();
    let mut i: usize = 0;
    while i < fields.len()
        invariant
            i <= fields@.len(),
            map_entries(m) == collected(fields@.subrange(0, i as int)),
            keys_unique(map_entries(m)),
        decreases fields.len() - i,
    {
        proof {
            assert(fields@.subrange(0, i + 1).drop_last() =~= fields@.subrange(0, i as int));
        }
        match &fields[i].value {
            Some(v) => {
                proof {
                    lemma_inserted_keeps_keys_unique(map_entries(m), fields@[i as int].name@, v@);
                }
                map_insert(&mut m, fields[i].name.clone(), v.clone());
            },
            None => {},
        }
        i = i + 1;
    }
    proof {
        assert(fields@.subrange(0, fields@.len() as int) =~= fields@);
        reveal_strlit("ip");
        assert("ip"@ =~= seq!['i', 'p']);
    }
    map_shift_insert_front(&mut m, String::from_str("ip"), ip);
    m
}

/// The pairs of a map, in its order.
pub fn map_pairs(m: &IndexMap<String, String>) -> (r: Vec<(String, String)>)
    ensures
        pairs_view(r@) == map_entries(*m),
{
    let n = map_len(m);
    let mut out: Vec<(String, String)> = Vec::new();
    let mut i: usize = 0;
    while i < n
        invariant
            n == map_entries(*m).len(),
            i <= n,
            out@.len() == i,
            forall|j: int|
                0 <= j < i ==> (#[trigger] out@[j]).0@ == map_entries(*m)[j].0 && out@[j].1@
                    == map_entries(*m)[j].1,
        decreases n - i,
    {
        match map_get_index(m, i) {
            Some(p) => out.push(p),
            None => {},
        }
        i = i + 1;
    }
    assert(pairs_view(out@) =~= map_entries(*m));
    out
}

} // verus!
