use crate::position::Coordinate;
use vstd::prelude::*;

verus! {

/// No identity occurs twice among the entries.
pub open spec fn keys_unique(s: Seq<(String, Coordinate)>) -> bool {
    forall|i: int, j: int|
        0 <= i < j < s.len() ==> #[trigger] s[i].0@ != #[trigger] s[j].0@
}

/// Whether some entry is keyed by `k`.
pub open spec fn has_key(s: Seq<(String, Coordinate)>, k: Seq<char>) -> bool {
    exists|i: int| 0 <= i < s.len() && #[trigger] s[i].0@ == k
}

/// The mapping from identity to coordinate that a list of entries stands for.
pub open spec fn entries_view(s: Seq<(String, Coordinate)>) -> Map<Seq<char>, Coordinate> {
    Map::new(
        |k: Seq<char>| has_key(s, k),
        |k: Seq<char>| s[choose|i: int| 0 <= i < s.len() && #[trigger] s[i].0@ == k].1,
    )
}

/// With unique keys, each entry is what the mapping holds for its identity.
pub proof fn lemma_entry_in_view(s: Seq<(String, Coordinate)>, i: int)
    requires
        keys_unique(s),
        0 <= i < s.len(),
    ensures
        entries_view(s).contains_key(s[i].0@),
        entries_view(s)[s[i].0@] == s[i].1,
{
    let k = s[i].0@;
    assert(has_key(s, k));
    let j = choose|j: int| 0 <= j < s.len() && #[trigger] s[j].0@ == k;
    if j < i {
        assert(s[j].0@ != s[i].0@);
    } else if i < j {
        assert(s[i].0@ != s[j].0@);
    }
}

/// Two entry lists with the same identities and coordinates, position by
/// position, stand for the same mapping.
proof fn lemma_same_entries_same_view(a: Seq<(String, Coordinate)>, b: Seq<(String, Coordinate)>)
    requires
        keys_unique(a),
        a.len() == b.len(),
        forall|i: int| 0 <= i < a.len() ==> #[trigger] a[i].0@ == b[i].0@ && a[i].1 == b[i].1,
    ensures
        keys_unique(b),
        entries_view(a) == entries_view(b),
{
    assert forall|i: int, j: int| 0 <= i < j < b.len() implies #[trigger] b[i].0@ != #[trigger] b[j].0@ by {
        assert(a[i].0@ != a[j].0@);
    }
    assert forall|k: Seq<char>| has_key(a, k) == has_key(b, k) by {
        if has_key(a, k) {
            let i = choose|i: int| 0 <= i < a.len() && #[trigger] a[i].0@ == k;
            assert(b[i].0@ == k);
        }
        if has_key(b, k) {
            let i = choose|i: int| 0 <= i < b.len() && #[trigger] b[i].0@ == k;
            assert(a[i].0@ == k);
        }
    }
    assert forall|k: Seq<char>| #[trigger] entries_view(a).contains_key(k) implies entries_view(a)[k]
        == entries_view(b)[k] by {
        let i = choose|i: int| 0 <= i < a.len() && #[trigger] a[i].0@ == k;
        lemma_entry_in_view(a, i);
        lemma_entry_in_view(b, i);
    }
    assert(entries_view(a) =~= entries_view(b));
}

/// A mapping that holds exactly the identities of a list with unique keys, and
/// for each the coordinate listed with it, is the one the list stands for.
proof fn lemma_view_is(s: Seq<(String, Coordinate)>, m: Map<Seq<char>, Coordinate>)
    requires
        keys_unique(s),
        forall|i: int| 0 <= i < s.len() ==> #[trigger] m.contains_key(s[i].0@) && m[s[i].0@] == s[i].1,
        forall|k: Seq<char>| #[trigger] m.contains_key(k) ==> has_key(s, k),
    ensures
        entries_view(s) == m,
{
    assert forall|k: Seq<char>| #[trigger] entries_view(s).contains_key(k) implies m.contains_key(k)
        && entries_view(s)[k] == m[k] by {
        let i = choose|i: int| 0 <= i < s.len() && #[trigger] s[i].0@ == k;
        lemma_entry_in_view(s, i);
        assert(m.contains_key(s[i].0@));
    }
    assert(entries_view(s) =~= m);
}

/// The coordinates of the entries not keyed by `k`, in list order.
pub open spec fn coordinates_except_seq(s: Seq<(String, Coordinate)>, k: Seq<char>) -> Seq<Coordinate>
    decreases s.len(),
{
    if s.len() == 0 {
        Seq::empty()
    } else {
        let rest = coordinates_except_seq(s.drop_last(), k);
        if s.last().0@ != k {
            rest.push(s.last().1)
        } else {
            rest
        }
    }
}

/// Picks out of a snapshot the coordinates of every identity other than
/// `identity`: the candidates of a proximity scan.
pub fn coordinates_except(snapshot: &Vec<(String, Coordinate)>, identity: &String) -> (r: Vec<Coordinate>)
    ensures
        r@ == coordinates_except_seq(snapshot@, identity@),
{
    let mut out: Vec<Coordinate> = Vec::new();
    let mut i: usize = 0;
    while i < snapshot.len()
        invariant
            0 <= i <= snapshot@.len(),
            out@ == coordinates_except_seq(snapshot@.take(i as int), identity@),
        decreases snapshot@.len() - i,
    {
        proof {
            assert(snapshot@.take(i as int + 1).drop_last() =~= snapshot@.take(i as int));
        }
        if snapshot[i].0 != *identity {
            out.push(snapshot[i].1);
        }
        i = i + 1;
    }
    proof {
        assert(snapshot@.take(i as int) =~= snapshot@);
    }
    out
}

/// Whether a snapshot lists `k` with coordinate `c`.
pub open spec fn lists(s: Seq<(String, Coordinate)>, k: Seq<char>, c: Coordinate) -> bool {
    exists|i: int| 0 <= i < s.len() && #[trigger] s[i].0@ == k && s[i].1 == c
}

/// Once an identity has been removed, no snapshot of the resulting registry
/// lists it.
pub proof fn lemma_removed_identity_not_in_snapshot(
    before: Map<Seq<char>, Coordinate>,
    identity: Seq<char>,
    snap: Seq<(String, Coordinate)>,
)
    requires
        entries_view(snap) == before.remove(identity),
    ensures
        forall|i: int| 0 <= i < snap.len() ==> #[trigger] snap[i].0@ != identity,
{
    assert forall|i: int| 0 <= i < snap.len() implies #[trigger] snap[i].0@ != identity by {
        assert(has_key(snap, snap[i].0@));
        assert(entries_view(snap).contains_key(snap[i].0@));
    }
}

/// Updates of two distinct identities never overwrite each other: in whichever
/// order they land, the registry ends the same, and a snapshot taken after both
/// lists each identity with its own update.
pub proof fn lemma_distinct_updates_both_kept(
    before: Map<Seq<char>, Coordinate>,
    a: Seq<char>,
    ca: Coordinate,
    b: Seq<char>,
    cb: Coordinate,
    snap: Seq<(String, Coordinate)>,
)
    requires
        a != b,
        keys_unique(snap),
        entries_view(snap) == before.insert(a, ca).insert(b, cb),
    ensures
        before.insert(a, ca).insert(b, cb) == before.insert(b, cb).insert(a, ca),
        lists(snap, a, ca),
        lists(snap, b, cb),
{
    assert(before.insert(a, ca).insert(b, cb) =~= before.insert(b, cb).insert(a, ca));
    assert(entries_view(snap).contains_key(a));
    let i = choose|i: int| 0 <= i < snap.len() && #[trigger] snap[i].0@ == a;
    lemma_entry_in_view(snap, i);
    assert(entries_view(snap).contains_key(b));
    let j = choose|j: int| 0 <= j < snap.len() && #[trigger] snap[j].0@ == b;
    lemma_entry_in_view(snap, j);
}

/// Of two updates of one identity, the later one is what a snapshot lists,
/// and the identity is listed once.
pub proof fn lemma_last_write_wins(
    before: Map<Seq<char>, Coordinate>,
    a: Seq<char>,
    first: Coordinate,
    second: Coordinate,
    snap: Seq<(String, Coordinate)>,
)
    requires
        keys_unique(snap),
        entries_view(snap) == before.insert(a, first).insert(a, second),
    ensures
        lists(snap, a, second),
        forall|i: int| 0 <= i < snap.len() && #[trigger] snap[i].0@ == a ==> snap[i].1 == second,
{
    assert(entries_view(snap).contains_key(a));
    let i = choose|i: int| 0 <= i < snap.len() && #[trigger] snap[i].0@ == a;
    lemma_entry_in_view(snap, i);
    assert forall|j: int| 0 <= j < snap.len() && #[trigger] snap[j].0@ == a implies snap[j].1 == second by {
        lemma_entry_in_view(snap, j);
    }
}

/// The shared record of where each connected identity was last seen: one
/// entry per identity. The entries are a list with unique keys rather than a
/// hash map, because vstd's model of a map keyed by `String` proves nothing
/// about lookups; each operation therefore scans the list, which is linear in
/// the number of connected identities.
pub struct Registry {
    entries: Vec<(String, Coordinate)>,
}

impl View for Registry {
    type V = Map<Seq<char>, Coordinate>;

    closed spec fn view(&self) -> Map<Seq<char>, Coordinate> {
        entries_view(self.entries@)
    }
}

impl Registry {
    /// The entries hold each identity at most once.
    pub closed spec fn wf(&self) -> bool {
        keys_unique(self.entries@)
    }

    /// An empty registry.
    pub fn new() -> (r: Registry)
        ensures
            r.wf(),
            r@ == Map::<Seq<char>, Coordinate>::empty(),
    {
        let r = Registry { entries: Vec::new() };
        assert(r@ =~= Map::<Seq<char>, Coordinate>::empty());
        r
    }

    /// The position of the entry keyed by `identity`, if any.
    fn position_of(&self, identity: &String) -> (r: Option<usize>)
        requires
            self.wf(),
        ensures
            match r {
                Some(i) => i < self.entries@.len() && self.entries@[i as int].0@ == identity@,
                None => !has_key(self.entries@, identity@),
            },
    {
        let mut i: usize = 0;
        while i < self.entries.len()
            invariant
                0 <= i <= self.entries@.len(),
                forall|j: int| 0 <= j < i ==> #[trigger] self.entries@[j].0@ != identity@,
            decreases self.entries@.len() - i,
        {
            if self.entries[i].0 == *identity {
                return Some(i);
            }
            i = i + 1;
        }
        None
    }

    /// The last coordinate recorded for `identity`.
    pub fn get(&self, identity: &String) -> (r: Option<Coordinate>)
        requires
            self.wf(),
        ensures
            r == (if self@.contains_key(identity@) {
                Some(self@[identity@])
            } else {
                None::<Coordinate>
            }),
    {
        match self.position_of(identity) {
            Some(i) => {
                proof {
                    lemma_entry_in_view(self.entries@, i as int);
                }
                Some(self.entries[i].1)
            },
            None => None,
        }
    }

    /// Records `coord` as the last position of `identity`, replacing any
    /// earlier one.
    pub fn upsert(&mut self, identity: String, coord: Coordinate)
        requires
            old(self).wf(),
        ensures
            final(self).wf(),
            final(self)@ == old(self)@.insert(identity@, coord),
    {
        let ghost before = self.entries@;
        let ghost m = self@.insert(identity@, coord);
        let ghost k = identity@;
        match self.position_of(&identity) {
            Some(i) => {
                self.entries.set(i, (identity, coord));
                proof {
                    let after = self.entries@;
                    assert(after =~= before.update(i as int, after[i as int]));
                    assert forall|a: int, b: int| 0 <= a < b < after.len() implies #[trigger] after[a].0@
                        != #[trigger] after[b].0@ by {
                        assert(before[a].0@ != before[b].0@);
                    }
                    assert forall|j: int| 0 <= j < after.len() implies #[trigger] m.contains_key(
                        after[j].0@,
                    ) && m[after[j].0@] == after[j].1 by {
                        if j != i {
                            lemma_entry_in_view(before, j);
                        }
                    }
                    assert forall|q: Seq<char>| #[trigger] m.contains_key(q) implies has_key(after, q) by {
                        if q == k {
                            assert(after[i as int].0@ == q);
                        } else {
                            let j = choose|j: int| 0 <= j < before.len() && #[trigger] before[j].0@ == q;
                            assert(after[j].0@ == q);
                        }
                    }
                    lemma_view_is(after, m);
                }
            },
            None => {
                self.entries.push((identity, coord));
                proof {
                    let after = self.entries@;
                    let n = before.len() as int;
                    assert(after =~= before.push(after[n]));
                    assert forall|a: int, b: int| 0 <= a < b < after.len() implies #[trigger] after[a].0@
                        != #[trigger] after[b].0@ by {
                        if b < n {
                            assert(before[a].0@ != before[b].0@);
                        } else {
                            assert(before[a].0@ != k);
                        }
                    }
                    assert forall|j: int| 0 <= j < after.len() implies #[trigger] m.contains_key(
                        after[j].0@,
                    ) && m[after[j].0@] == after[j].1 by {
                        if j < n {
                            lemma_entry_in_view(before, j);
                            assert(before[j].0@ != k);
                        }
                    }
                    assert forall|q: Seq<char>| #[trigger] m.contains_key(q) implies has_key(after, q) by {
                        if q == k {
                            assert(after[n].0@ == q);
                        } else {
                            let j = choose|j: int| 0 <= j < before.len() && #[trigger] before[j].0@ == q;
                            assert(after[j].0@ == q);
                        }
                    }
                    lemma_view_is(after, m);
                }
            },
        }
    }

    /// A copy of every entry, detached from the registry: later changes to the
    /// registry do not show in it.
    pub fn snapshot(&self) -> (r: Vec<(String, Coordinate)>)
        requires
            self.wf(),
        ensures
            keys_unique(r@),
            entries_view(r@) == self@,
    {
        let mut out: Vec<(String, Coordinate)> = Vec::new();
        let mut i: usize = 0;
        while i < self.entries.len()
            invariant
                0 <= i <= self.entries@.len(),
                out@.len() == i,
                forall|j: int| 0 <= j < i ==> #[trigger] out@[j].0@ == self.entries@[j].0@ && out@[j].1
                    == self.entries@[j].1,
            decreases self.entries@.len() - i,
        {
            let entry = &self.entries[i];
            out.push((entry.0.clone(), entry.1));
            i = i + 1;
        }
        proof {
            lemma_same_entries_same_view(self.entries@, out@);
        }
        out
    }

    /// Forgets `identity`; nothing changes if it was not recorded.
    pub fn remove(&mut self, identity: &String)
        requires
            old(self).wf(),
        ensures
            final(self).wf(),
            final(self)@ == old(self)@.remove(identity@),
    {
        let ghost before = self.entries@;
        let ghost m = self@.remove(identity@);
        let ghost k = identity@;
        match self.position_of(identity) {
            Some(i) => {
                self.entries.remove(i);
                proof {
                    let after = self.entries@;
                    let p = i as int;
                    assert(after =~= before.remove(p));
                    assert forall|a: int, b: int| 0 <= a < b < after.len() implies #[trigger] after[a].0@
                        != #[trigger] after[b].0@ by {
                        let a0 = if a < p { a } else { a + 1 };
                        let b0 = if b < p { b } else { b + 1 };
                        assert(before[a0].0@ != before[b0].0@);
                    }
                    assert forall|j: int| 0 <= j < after.len() implies #[trigger] m.contains_key(
                        after[j].0@,
                    ) && m[after[j].0@] == after[j].1 by {
                        let j0 = if j < p { j } else { j + 1 };
                        lemma_entry_in_view(before, j0);
                        if j0 < p {
                            assert(before[j0].0@ != before[p].0@);
                        } else {
                            assert(before[p].0@ != before[j0].0@);
                        }
                    }
                    assert forall|q: Seq<char>| #[trigger] m.contains_key(q) implies has_key(after, q) by {
                        let j = choose|j: int| 0 <= j < before.len() && #[trigger] before[j].0@ == q;
                        if j < p {
                            assert(after[j].0@ == q);
                        } else {
                            assert(after[j - 1].0@ == q);
                        }
                    }
                    lemma_view_is(after, m);
                }
            },
            None => {
                proof {
                    assert(self@ =~= m);
                }
            },
        }
    }
}

} // verus!
