//! Entries filed under text ids, each id at most once, in `String` order of
//! the ids: filing under an id that is already present replaces its entry.
//! A datapack reload files each pack's resources in priority order, so the
//! last enabled pack that holds an id wins.
use vstd::prelude::*;

use crate::sorted::strictly_sorted;
use crate::text::{chars_eq, lex_less, lex_lt, str_chars};

verus! {

/// The entry filed under `id`: that of the first pair with that id.
pub open spec fn entry_of<T>(entries: Seq<(String, T)>, id: Seq<char>) -> Option<T>
    decreases entries.len(),
{
    if entries.len() == 0 {
        None
    } else if entries[0].0@ == id {
        Some(entries[0].1)
    } else {
        entry_of(entries.drop_first(), id)
    }
}

/// The ids of the pairs, in order.
pub open spec fn ids_of<T>(entries: Seq<(String, T)>) -> Seq<Seq<char>> {
    entries.map_values(|p: (String, T)| p.0@)
}

/// Entries filed under text ids.
#[derive(Debug)]
pub struct KeyedFiles<T> {
    entries: Vec<(String, T)>,
}

impl<T> KeyedFiles<T> {
    /// The pairs, in order of their ids.
    pub closed spec fn pairs(&self) -> Seq<(String, T)> {
        self.entries@
    }

    /// The ids are in strictly increasing order, so each occurs once.
    pub open spec fn wf(&self) -> bool {
        strictly_sorted(ids_of(self.pairs()))
    }

    #[verifier::type_invariant]
    spec fn ids_sorted(self) -> bool {
        strictly_sorted(ids_of(self.entries@))
    }

    /// The entry filed under `id`.
    pub open spec fn get(&self, id: Seq<char>) -> Option<T> {
        entry_of(self.pairs(), id)
    }

    /// Nothing filed.
    pub fn new() -> (r: Self)
        ensures
            r.pairs() == Seq::<(String, T)>::empty(),
            r.wf(),
    {
        KeyedFiles { entries: Vec::new() }
    }

    /// How many ids are filed.
    pub fn len(&self) -> (r: usize)
        ensures
            r == self.pairs().len(),
            self.wf(),
    {
        proof {
            use_type_invariant(self);
        }
        self.entries.len()
    }

    /// Files `value` under `id`, replacing what was filed under it before;
    /// every other id keeps its entry.
    pub fn file(&mut self, id: String, value: T)
        ensures
            final(self).wf(),
            final(self).get(id@) == Some(value),
            forall|k: Seq<char>| k != id@ ==> #[trigger] final(self).get(k) == old(self).get(k),
            ids_of(final(self).pairs()).to_set() == ids_of(old(self).pairs()).to_set().insert(id@),
    {
        proof {
            use_type_invariant(&*self);
        }
        let mut entries: Vec<(String, T)> = Vec::new();
        std::mem::swap(&mut entries, &mut self.entries);
        let key = str_chars(id.as_str());
        let ghost old_entries = entries@;
        let ghost keys = ids_of(old_entries);
        let mut p: usize = 0;
        while p < entries.len() && key_below(&entries[p].0, &key)
            invariant
                p <= entries.len(),
                entries@ == old_entries,
                keys == ids_of(old_entries),
                key@ == id@,
                forall|j: int| 0 <= j < p ==> lex_lt(#[trigger] keys[j], key@),
            decreases entries.len() - p,
        {
            p = p + 1;
        }
        let exists = p < entries.len() && {
            let kp = str_chars(entries[p].0.as_str());
            chars_eq(&kp, &key)
        };
        proof {
            crate::sorted::lemma_sorted_transitive(keys);
            lemma_entry_sorted(old_entries, key@, p as int, exists);
        }
        if exists {
            entries.remove(p);
            entries.insert(p, (id, value));
            proof {
                let entry = entries@[p as int];
                assert(entries@ =~= old_entries.update(p as int, entry));
                lemma_entry_update(old_entries, p as int, entry);
                assert(ids_of(entries@) =~= keys);
                assert(keys[p as int] == id@);
                assert(ids_of(entries@).to_set() =~= keys.to_set().insert(id@));
            }
        } else {
            proof {
                if p < old_entries.len() {
                    assert(old_entries[p as int].0@ != key@);
                    crate::text::lemma_lex_total(old_entries[p as int].0@, key@);
                }
            }
            entries.insert(p, (id, value));
            proof {
                let entry = entries@[p as int];
                assert(entries@ =~= old_entries.insert(p as int, entry));
                lemma_entry_insert_sorted(old_entries, p as int, entry);
            }
        }
        self.entries = entries;
    }

    /// The entry filed under `id`, if any.
    pub fn get_entry(&self, id: &str) -> (r: Option<&T>)
        ensures
            match r {
                Some(v) => self.get(id@) == Some(*v),
                None => self.get(id@) is None,
            },
    {
        let key = str_chars(id);
        let mut i: usize = 0;
        while i < self.entries.len()
            invariant
                i <= self.entries@.len(),
                key@ == id@,
                forall|j: int| 0 <= j < i ==> self.entries@[j].0@ != id@,
            decreases self.entries.len() - i,
        {
            let k = str_chars(self.entries[i].0.as_str());
            if chars_eq(&k, &key) {
                proof {
                    lemma_entry_first(self.entries@, id@);
                }
                return Some(&self.entries[i].1);
            }
            i = i + 1;
        }
        proof {
            lemma_entry_first(self.entries@, id@);
        }
        None
    }

    /// The filed pairs, in order of their ids.
    pub fn as_pairs(&self) -> (r: &Vec<(String, T)>)
        ensures
            r@ == self.pairs(),
            strictly_sorted(ids_of(r@)),
    {
        proof {
            use_type_invariant(self);
        }
        &self.entries
    }

    /// The filed pairs, in order of their ids.
    pub fn into_pairs(self) -> (r: Vec<(String, T)>)
        ensures
            r@ == self.pairs(),
            strictly_sorted(ids_of(r@)),
    {
        proof {
            use_type_invariant(&self);
        }
        self.entries
    }
}

/// Whether a stored id is below the characters of another id.
fn key_below(a: &String, b: &Vec<char>) -> (r: bool)
    ensures
        r == lex_lt(a@, b@),
{
    let av = str_chars(a.as_str());
    lex_less(&av, b)
}

/// The entry of an id is that of the first pair with it, and there is none
/// when no pair has it.
pub proof fn lemma_entry_first<T>(entries: Seq<(String, T)>, id: Seq<char>)
    ensures
        entry_of(entries, id) is None <==> forall|j: int| 0 <= j < entries.len() ==> entries[j].0@ != id,
        forall|p: int|
            0 <= p < entries.len() && entries[p].0@ == id && (forall|j: int|
                0 <= j < p ==> entries[j].0@ != id) ==> entry_of(entries, id) == Some(
                #[trigger] entries[p].1,
            ),
    decreases entries.len(),
{
    if entries.len() > 0 {
        let rest = entries.drop_first();
        lemma_entry_first(rest, id);
        assert forall|j: int| 0 <= j < rest.len() implies rest[j] == entries[j + 1] by {}
        if entries[0].0@ != id {
            assert((forall|j: int| 0 <= j < entries.len() ==> entries[j].0@ != id) <==> (forall|j: int|
                0 <= j < rest.len() ==> rest[j].0@ != id)) by {
                if forall|j: int| 0 <= j < rest.len() ==> rest[j].0@ != id {
                    assert forall|j: int| 0 <= j < entries.len() implies entries[j].0@ != id by {
                        if j > 0 {
                            assert(rest[j - 1] == entries[j]);
                        }
                    }
                }
            }
            assert forall|p: int|
                0 <= p < entries.len() && entries[p].0@ == id && (forall|j: int|
                    0 <= j < p ==> entries[j].0@ != id) implies entry_of(entries, id) == Some(
                #[trigger] entries[p].1,
            ) by {
                assert(p > 0);
                assert(rest[p - 1] == entries[p]);
                assert forall|j: int| 0 <= j < p - 1 implies rest[j].0@ != id by {
                    assert(rest[j] == entries[j + 1]);
                }
            }
        }
    }
}

/// In pairs sorted by id, the entry of `id` is at the first position whose
/// id is not below `id`, when that id is `id`.
proof fn lemma_entry_sorted<T>(entries: Seq<(String, T)>, id: Seq<char>, p: int, exists: bool)
    requires
        strictly_sorted(ids_of(entries)),
        0 <= p <= entries.len(),
        forall|j: int| 0 <= j < p ==> lex_lt(#[trigger] ids_of(entries)[j], id),
        p < entries.len() ==> !lex_lt(entries[p].0@, id),
        exists == (p < entries.len() && entries[p].0@ == id),
    ensures
        exists ==> entry_of(entries, id) == Some(entries[p].1),
        !exists ==> entry_of(entries, id) is None,
        forall|j: int| 0 <= j < entries.len() && j != p ==> entries[j].0@ != id,
{
    let keys = ids_of(entries);
    crate::sorted::lemma_sorted_transitive(keys);
    lemma_entry_first(entries, id);
    assert forall|j: int| 0 <= j < entries.len() && j != p implies entries[j].0@ != id by {
        assert(keys[j] == entries[j].0@);
        if j < p {
            crate::text::lemma_lex_asymmetric(keys[j], id);
        } else {
            assert(keys[p] == entries[p].0@);
            assert(lex_lt(keys[p], keys[j]));
            if entries[j].0@ == id {
                crate::text::lemma_lex_asymmetric(keys[p], id);
            }
        }
    }
    if !exists && p < entries.len() {
        assert(entries[p].0@ != id);
    }
}

/// The first index at or below `q` whose id is `k`.
proof fn first_index_of<T>(entries: Seq<(String, T)>, k: Seq<char>, q: int) -> (f: int)
    requires
        0 <= q < entries.len(),
        entries[q].0@ == k,
    ensures
        0 <= f <= q,
        entries[f].0@ == k,
        forall|j: int| 0 <= j < f ==> entries[j].0@ != k,
    decreases q,
{
    if exists|j: int| 0 <= j < q && entries[j].0@ == k {
        let j = choose|j: int| 0 <= j < q && entries[j].0@ == k;
        first_index_of(entries, k, j)
    } else {
        q
    }
}

/// Replacing the pair at `p` by one with the same id changes only that id's
/// entry.
proof fn lemma_entry_update<T>(entries: Seq<(String, T)>, p: int, entry: (String, T))
    requires
        0 <= p < entries.len(),
        entries[p].0@ == entry.0@,
        forall|j: int| 0 <= j < entries.len() && j != p ==> entries[j].0@ != entry.0@,
    ensures
        entry_of(entries.update(p, entry), entry.0@) == Some(entry.1),
        forall|k: Seq<char>| k != entry.0@ ==> entry_of(entries.update(p, entry), k) == entry_of(entries, k),
{
    let u = entries.update(p, entry);
    lemma_entry_first(u, entry.0@);
    assert(u[p] == entry);
    assert forall|k: Seq<char>| k != entry.0@ implies entry_of(u, k) == entry_of(entries, k) by {
        lemma_entry_first(u, k);
        lemma_entry_first(entries, k);
        assert forall|j: int| 0 <= j < entries.len() implies (u[j].0@ == k) == (entries[j].0@ == k) by {
            if j == p {
                assert(u[j].0@ == entry.0@);
            } else {
                assert(u[j] == entries[j]);
            }
        }
        if entry_of(entries, k) is Some {
            let q = choose|q: int| 0 <= q < entries.len() && entries[q].0@ == k;
            let f = first_index_of(entries, k, q);
            assert(f != p);
            assert(u[f] == entries[f]);
            assert(forall|j: int| 0 <= j < f ==> u[j].0@ != k);
            assert(entry_of(u, k) == Some(u[f].1));
            assert(entry_of(entries, k) == Some(entries[f].1));
        } else {
            assert(forall|j: int| 0 <= j < u.len() ==> u[j].0@ != k);
        }
    }
}

/// Inserting a new id at its sorted position keeps the ids sorted, adds the
/// id, and leaves the other entries unchanged.
#[verifier::spinoff_prover]
#[verifier::rlimit(40)]
proof fn lemma_entry_insert_sorted<T>(entries: Seq<(String, T)>, p: int, entry: (String, T))
    requires
        strictly_sorted(ids_of(entries)),
        0 <= p <= entries.len(),
        forall|j: int| 0 <= j < p ==> lex_lt(#[trigger] ids_of(entries)[j], entry.0@),
        p < entries.len() ==> lex_lt(entry.0@, entries[p].0@),
        forall|j: int| 0 <= j < entries.len() ==> entries[j].0@ != entry.0@,
    ensures
        strictly_sorted(ids_of(entries.insert(p, entry))),
        ids_of(entries.insert(p, entry)).to_set() == ids_of(entries).to_set().insert(entry.0@),
        entry_of(entries.insert(p, entry), entry.0@) == Some(entry.1),
        forall|k: Seq<char>| k != entry.0@ ==> entry_of(entries.insert(p, entry), k) == entry_of(entries, k),
{
    let n = entries.insert(p, entry);
    let keys = ids_of(entries);
    let nkeys = ids_of(n);
    assert(nkeys =~= keys.insert(p, entry.0@));
    assert forall|i: int| 0 <= i < nkeys.len() - 1 implies lex_lt(#[trigger] nkeys[i], nkeys[i + 1]) by {
        if i < p - 1 {
            assert(nkeys[i] == keys[i] && nkeys[i + 1] == keys[i + 1]);
        } else if i == p - 1 {
            assert(nkeys[i] == keys[i]);
        } else if i == p {
            assert(nkeys[i + 1] == keys[p]);
        } else {
            assert(nkeys[i] == keys[i - 1] && nkeys[i + 1] == keys[i]);
        }
    }
    assert forall|y: Seq<char>| nkeys.to_set().contains(y) == keys.to_set().insert(entry.0@).contains(y) by {
        if nkeys.contains(y) {
            let k = choose|k: int| 0 <= k < nkeys.len() && nkeys[k] == y;
            if k < p {
                assert(keys[k] == y);
            } else if k > p {
                assert(keys[k - 1] == y);
            }
        }
        if keys.contains(y) {
            let k = choose|k: int| 0 <= k < keys.len() && keys[k] == y;
            if k < p {
                assert(nkeys[k] == y);
            } else {
                assert(nkeys[k + 1] == y);
            }
        }
        if y == entry.0@ {
            assert(nkeys[p] == y);
        }
    }
    assert(nkeys.to_set() =~= keys.to_set().insert(entry.0@));
    lemma_entry_first(n, entry.0@);
    assert(n[p] == entry);
    assert forall|j: int| 0 <= j < p implies n[j].0@ != entry.0@ by {
        assert(n[j] == entries[j]);
    }
    assert forall|k: Seq<char>| k != entry.0@ implies entry_of(n, k) == entry_of(entries, k) by {
        lemma_entry_first(n, k);
        lemma_entry_first(entries, k);
        if entry_of(entries, k) is Some {
            let q = choose|q: int| 0 <= q < entries.len() && entries[q].0@ == k;
            let f = first_index_of(entries, k, q);
            let g = if f < p { f } else { f + 1 };
            assert(n[g] == entries[f]);
            assert forall|j: int| 0 <= j < g implies n[j].0@ != k by {
                if j < p {
                    assert(n[j] == entries[j]);
                } else if j > p {
                    assert(n[j] == entries[j - 1]);
                }
            }
            assert(entry_of(n, k) == Some(n[g].1));
            assert(entry_of(entries, k) == Some(entries[f].1));
        } else {
            assert forall|j: int| 0 <= j < n.len() implies n[j].0@ != k by {
                if j < p {
                    assert(n[j] == entries[j]);
                } else if j > p {
                    assert(n[j] == entries[j - 1]);
                }
            }
        }
    }
}

} // verus!
