//! The ledger: a mapping from names to strike counts.
//!
//! The ledger is the sole owner of counter state. A record exists with a
//! count of at least one, or it does not exist at all; a record is created
//! at count one by the first increment of its name, bumped by one on every
//! later increment, and removed only by clearing the whole ledger.

use vstd::prelude::*;
use vstd::map::*;
use crate::tarnished::Tarnished;

verus! {

/// The mapping that a sequence of records stands for: each record binds its
/// name to its count (a later record would win, but well-formed sequences
/// hold each name once).
pub open spec fn entries_map(s: Seq<Tarnished>) -> Map<Seq<char>, u8>
    decreases s.len(),
{
    if s.len() == 0 {
        Map::empty()
    } else {
        entries_map(s.drop_last()).insert(s.last().name@, s.last().strikes)
    }
}

/// No two records of the sequence share a name.
pub open spec fn names_unique(s: Seq<Tarnished>) -> bool {
    forall|i: int, j: int| 0 <= i < j < s.len() ==> s[i].name@ != s[j].name@
}

/// The mapping holds a name exactly when some record carries it.
pub proof fn lemma_entries_map_domain(s: Seq<Tarnished>, n: Seq<char>)
    ensures
        entries_map(s).contains_key(n) <==> exists|i: int| 0 <= i < s.len() && s[i].name@ == n,
    decreases s.len(),
{
    if s.len() > 0 {
        lemma_entries_map_domain(s.drop_last(), n);
        if s.last().name@ == n {
            assert(s[s.len() - 1].name@ == n);
        } else if entries_map(s).contains_key(n) {
            let i = choose|i: int| 0 <= i < s.drop_last().len() && s.drop_last()[i].name@ == n;
            assert(s[i].name@ == n);
        } else if exists|i: int| 0 <= i < s.len() && s[i].name@ == n {
            let i = choose|i: int| 0 <= i < s.len() && s[i].name@ == n;
            assert(s.drop_last()[i].name@ == n);
        }
    }
}

/// In a well-formed sequence, the mapping gives each record its own count.
pub proof fn lemma_entries_map_at(s: Seq<Tarnished>, i: int)
    requires
        names_unique(s),
        0 <= i < s.len(),
    ensures
        entries_map(s).contains_key(s[i].name@),
        entries_map(s)[s[i].name@] == s[i].strikes,
    decreases s.len(),
{
    if i == s.len() - 1 {
        assert(s.last() == s[i]);
    } else {
        assert(names_unique(s.drop_last()));
        lemma_entries_map_at(s.drop_last(), i);
        assert(s.drop_last()[i] == s[i]);
        assert(s.last().name@ != s[i].name@);
    }
}

/// Replacing one record by another with the same name updates the mapping
/// at that name alone.
pub proof fn lemma_entries_map_update(s: Seq<Tarnished>, i: int, t: Tarnished)
    requires
        names_unique(s),
        0 <= i < s.len(),
        t.name@ == s[i].name@,
    ensures
        entries_map(s.update(i, t)) == entries_map(s).insert(t.name@, t.strikes),
    decreases s.len(),
{
    let u = s.update(i, t);
    if i == s.len() - 1 {
        assert(u.drop_last() =~= s.drop_last());
        assert(u.last() == t);
        assert(entries_map(u) =~= entries_map(s).insert(t.name@, t.strikes));
    } else {
        assert(names_unique(s.drop_last()));
        lemma_entries_map_update(s.drop_last(), i, t);
        assert(u.drop_last() =~= s.drop_last().update(i, t));
        assert(u.last() == s.last());
        assert(s.last().name@ != t.name@);
        assert(entries_map(u) =~= entries_map(s).insert(t.name@, t.strikes));
    }
}

/// Appending a record with a fresh name extends the mapping at that name.
pub proof fn lemma_entries_map_push(s: Seq<Tarnished>, t: Tarnished)
    ensures
        entries_map(s.push(t)) == entries_map(s).insert(t.name@, t.strikes),
{
    assert(s.push(t).drop_last() =~= s);
}

/// Only the empty sequence stands for the empty mapping.
pub proof fn lemma_entries_map_nonempty(s: Seq<Tarnished>)
    requires
        s.len() > 0,
    ensures
        entries_map(s) != Map::<Seq<char>, u8>::empty(),
{
    lemma_entries_map_domain(s, s[0].name@);
    assert(entries_map(s).contains_key(s[0].name@));
}

/// A value standing at two places of a sequence is counted at least twice.
proof fn lemma_count_at_two_places(s: Seq<Tarnished>, i: int, j: int)
    requires
        0 <= i < j < s.len(),
        s[i] == s[j],
    ensures
        s.to_multiset().count(s[i]) >= 2,
{
    broadcast use vstd::multiset::group_multiset_axioms;

    vstd::seq_lib::to_multiset_remove(s, j);
    let t = s.remove(j);
    assert(t[i] == s[i]);
    assert(t.contains(s[i]));
    vstd::seq_lib::to_multiset_contains(t, s[i]);
}

/// A value counted at least twice stands at two places of the sequence.
proof fn lemma_two_places_of_count(s: Seq<Tarnished>, v: Tarnished)
    requires
        s.to_multiset().count(v) >= 2,
    ensures
        exists|i: int, j: int| 0 <= i < j < s.len() && s[i] == v && s[j] == v,
{
    broadcast use vstd::multiset::group_multiset_axioms;

    vstd::seq_lib::to_multiset_contains(s, v);
    assert(s.contains(v));
    let i = choose|i: int| 0 <= i < s.len() && s[i] == v;
    vstd::seq_lib::to_multiset_remove(s, i);
    let t = s.remove(i);
    vstd::seq_lib::to_multiset_contains(t, v);
    assert(t.contains(v));
    let k = choose|k: int| 0 <= k < t.len() && t[k] == v;
    if k < i {
        assert(s[k] == v);
        assert(0 <= k < i < s.len() && s[k] == v && s[i] == v);
    } else {
        assert(s[k + 1] == v);
        assert(0 <= i < k + 1 < s.len() && s[i] == v && s[k + 1] == v);
    }
}

/// The mapping a well-formed sequence of records stands for does not
/// depend on the order of the records: any reordering is well-formed and
/// stands for the same mapping.
pub proof fn lemma_entries_map_permutation(a: Seq<Tarnished>, b: Seq<Tarnished>)
    requires
        names_unique(a),
        a.to_multiset() == b.to_multiset(),
    ensures
        names_unique(b),
        entries_map(a) == entries_map(b),
{
    broadcast use vstd::multiset::group_multiset_axioms;

    assert forall|i: int, j: int| 0 <= i < j < b.len() implies b[i].name@ != b[j].name@ by {
        if b[i].name@ == b[j].name@ {
            if b[i] == b[j] {
                lemma_count_at_two_places(b, i, j);
                lemma_two_places_of_count(a, b[i]);
                let (p, q): (int, int) = choose|p: int, q: int|
                    0 <= p < q < a.len() && a[p] == b[i] && a[q] == b[i];
                assert(a[p].name@ != a[q].name@);
            } else {
                assert(b.contains(b[i]) && b.contains(b[j]));
                vstd::seq_lib::to_multiset_contains(b, b[i]);
                vstd::seq_lib::to_multiset_contains(b, b[j]);
                vstd::seq_lib::to_multiset_contains(a, b[i]);
                vstd::seq_lib::to_multiset_contains(a, b[j]);
                assert(a.contains(b[i]) && a.contains(b[j]));
                let p = choose|p: int| 0 <= p < a.len() && a[p] == b[i];
                let q = choose|q: int| 0 <= q < a.len() && a[q] == b[j];
                assert(p != q);
                assert(a[p].name@ != a[q].name@);
            }
        }
    };
    assert_maps_equal!(entries_map(a), entries_map(b), n => {
        lemma_entries_map_domain(a, n);
        lemma_entries_map_domain(b, n);
        if entries_map(a).contains_key(n) {
            let i = choose|i: int| 0 <= i < a.len() && a[i].name@ == n;
            lemma_entries_map_at(a, i);
            assert(a.contains(a[i]));
            vstd::seq_lib::to_multiset_contains(a, a[i]);
            vstd::seq_lib::to_multiset_contains(b, a[i]);
            assert(b.contains(a[i]));
            let j = choose|j: int| 0 <= j < b.len() && b[j] == a[i];
            lemma_entries_map_at(b, j);
        } else if entries_map(b).contains_key(n) {
            let j = choose|j: int| 0 <= j < b.len() && b[j].name@ == n;
            assert(b.contains(b[j]));
            vstd::seq_lib::to_multiset_contains(b, b[j]);
            vstd::seq_lib::to_multiset_contains(a, b[j]);
            assert(a.contains(b[j]));
            let i = choose|i: int| 0 <= i < a.len() && a[i] == b[j];
            assert(a[i].name@ == n);
        }
    });
}

/// What one increment does to the mapping: the named count is bumped by
/// one, created at one if the name was absent; every other name keeps its
/// count.
pub open spec fn bump(m: Map<Seq<char>, u8>, n: Seq<char>) -> Map<Seq<char>, u8> {
    m.insert(n, bumped_count(m, n))
}

/// The count the named record carries after one increment.
pub open spec fn bumped_count(m: Map<Seq<char>, u8>, n: Seq<char>) -> u8 {
    if m.contains_key(n) {
        (m[n] + 1) as u8
    } else {
        1u8
    }
}

/// The mapping after a number of increments of one name.
pub open spec fn bump_k(m: Map<Seq<char>, u8>, n: Seq<char>, k: nat) -> Map<Seq<char>, u8>
    decreases k,
{
    if k == 0 {
        m
    } else {
        bump(bump_k(m, n, (k - 1) as nat), n)
    }
}

/// The counting law: starting from a ledger without the name, k increments
/// of the name in sequence, with nothing else touching the ledger, leave a
/// record of exactly k strikes against it, for any k the counter can hold;
/// every other name keeps its count throughout.
pub proof fn lemma_k_increments(m: Map<Seq<char>, u8>, n: Seq<char>, k: nat)
    requires
        !m.contains_key(n),
        k <= 255,
    ensures
        k > 0 ==> bump_k(m, n, k).contains_key(n) && bump_k(m, n, k)[n] == k,
        forall|other: Seq<char>|
            other != n ==> (#[trigger] bump_k(m, n, k).contains_key(other) == m.contains_key(other)
                && (m.contains_key(other) ==> bump_k(m, n, k)[other] == m[other])),
    decreases k,
{
    if k > 0 {
        let prev = bump_k(m, n, (k - 1) as nat);
        lemma_k_increments(m, n, (k - 1) as nat);
        assert(bump_k(m, n, k) == bump(prev, n));
        if k == 1 {
            assert(prev == m);
            assert(bumped_count(m, n) == 1);
        } else {
            assert(prev.contains_key(n) && prev[n] == k - 1);
            assert(bumped_count(prev, n) == k);
        }
        assert forall|other: Seq<char>| other != n implies #[trigger] bump_k(
            m,
            n,
            k,
        ).contains_key(other) == m.contains_key(other) && (m.contains_key(other) ==> bump_k(
            m,
            n,
            k,
        )[other] == m[other]) by {
            assert(bump_k(m, n, (k - 1) as nat).contains_key(other) == m.contains_key(other) && (
            m.contains_key(other) ==> bump_k(m, n, (k - 1) as nat)[other] == m[other]));
        };
    }
}

/// The in-memory ledger, held as a sequence of records with pairwise
/// distinct names. Its mathematical value is the mapping `self@` from
/// names to counts.
#[derive(Debug)]
pub struct Ledger {
    entries: Vec<Tarnished>,
}

/// The mapping from names to counts that the ledger holds.
impl View for Ledger {
    type V = Map<Seq<char>, u8>;

    open spec fn view(&self) -> Map<Seq<char>, u8> {
        entries_map(self.records_seq())
    }
}

impl Ledger {
    #[verifier::type_invariant]
    spec fn wf(&self) -> bool {
        names_unique(self.entries@)
    }

    /// The records of the ledger, in the order their names first appeared.
    pub closed spec fn records_seq(&self) -> Seq<Tarnished> {
        self.entries@
    }

    /// An empty ledger.
    pub fn new() -> (r: Ledger)
        ensures
            r@ == Map::<Seq<char>, u8>::empty(),
            r.records_seq() == Seq::<Tarnished>::empty(),
    {
        let entries: Vec<Tarnished> = Vec::new();
        Ledger { entries }
    }

    /// A ledger holding exactly the given records.
    pub fn from_records(entries: Vec<Tarnished>) -> (r: Ledger)
        requires
            names_unique(entries@),
        ensures
            r@ == entries_map(entries@),
            r.records_seq() == entries@,
    {
        Ledger { entries }
    }

    /// The count recorded for a name, if the name has a record.
    #[verifier::loop_isolation(false)]
    pub fn lookup(&self, name: &str) -> (r: Option<u8>)
        ensures
            r == if self@.contains_key(name@) {
                Some(self@[name@])
            } else {
                None::<u8>
            },
    {
        proof {
            use_type_invariant(self);
        }
        let n = self.entries.len();
        let mut k: usize = 0;
        while k < n
            invariant
                n == self.entries@.len(),
                0 <= k <= n,
                names_unique(self.entries@),
                forall|i: int| 0 <= i < k ==> self.entries@[i].name@ != name@,
            decreases n - k,
        {
            if crate::text::str_eq(self.entries[k].name.as_str(), name) {
                proof {
                    lemma_entries_map_at(self.entries@, k as int);
                }
                return Some(self.entries[k].strikes);
            }
            k = k + 1;
        }
        proof {
            lemma_entries_map_domain(self.entries@, name@);
        }
        None
    }

    /// Add one strike to the named record, creating it at one if absent,
    /// and return the new count.
    #[verifier::loop_isolation(false)]
    pub fn increment(&mut self, name: &str) -> (count: u8)
        requires
            old(self)@.contains_key(name@) ==> old(self)@[name@] < 255,
        ensures
            final(self)@ == bump(old(self)@, name@),
            count == bumped_count(old(self)@, name@),
            count >= 1,
    {
        proof {
            use_type_invariant(&*self);
        }
        let mut entries: Vec<Tarnished> = Vec::new();
        core::mem::swap(&mut entries, &mut self.entries);
        let ghost before = entries@;
        let n = entries.len();
        let mut k: usize = 0;
        while k < n
            invariant
                n == entries@.len(),
                entries@ == before,
                0 <= k <= n,
                names_unique(entries@),
                forall|i: int| 0 <= i < k ==> entries@[i].name@ != name@,
            decreases n - k,
        {
            if crate::text::str_eq(entries[k].name.as_str(), name) {
                proof {
                    lemma_entries_map_at(entries@, k as int);
                }
                let count = entries[k].strikes + 1;
                let fresh = Tarnished { name: entries[k].name.clone(), strikes: count };
                entries[k] = fresh;
                proof {
                    assert(entries@ == before.update(k as int, fresh));
                    lemma_entries_map_update(before, k as int, fresh);
                }
                self.entries = entries;
                return count;
            }
            k = k + 1;
        }
        proof {
            lemma_entries_map_domain(entries@, name@);
        }
        let fresh = Tarnished { name: name.to_owned(), strikes: 1 };
        entries.push(fresh);
        proof {
            lemma_entries_map_push(before, fresh);
        }
        self.entries = entries;
        1
    }

    /// Remove every record.
    pub fn clear(&mut self)
        ensures
            final(self)@ == Map::<Seq<char>, u8>::empty(),
            final(self).records_seq() == Seq::<Tarnished>::empty(),
    {
        self.entries = Vec::new();
    }

    /// A copy of every record, unsorted.
    #[verifier::loop_isolation(false)]
    pub fn records(&self) -> (r: Vec<Tarnished>)
        ensures
            r@ == self.records_seq(),
            names_unique(r@),
            entries_map(r@) == self@,
            r@.len() == 0 <==> self@ == Map::<Seq<char>, u8>::empty(),
    {
        proof {
            use_type_invariant(self);
            if self.entries@.len() > 0 {
                lemma_entries_map_nonempty(self.entries@);
            }
        }
        let n = self.entries.len();
        let mut out: Vec<Tarnished> = Vec::new();
        let mut k: usize = 0;
        while k < n
            invariant
                n == self.entries@.len(),
                0 <= k <= n,
                out@ == self.entries@.subrange(0, k as int),
            decreases n - k,
        {
            let copy = Tarnished {
                name: self.entries[k].name.clone(),
                strikes: self.entries[k].strikes,
            };
            out.push(copy);
            proof {
                assert(out@ =~= self.entries@.subrange(0, k + 1));
            }
            k = k + 1;
        }
        proof {
            assert(out@ =~= self.entries@);
        }
        out
    }

    /// How many records the ledger holds.
    pub fn len(&self) -> (r: usize)
        ensures
            r == self.records_seq().len(),
    {
        self.entries.len()
    }
}

} // verus!
