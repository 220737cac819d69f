use vstd::prelude::*;

use crate::text::chars_of;
use crate::token::{Ident, Span};

verus! {

/// Lexicographic order on names, character by character; a proper prefix comes first.
pub open spec fn name_less(a: Seq<char>, b: Seq<char>) -> bool
    decreases a.len(),
{
    if b.len() == 0 {
        false
    } else if a.len() == 0 {
        true
    } else if a[0] != b[0] {
        a[0] < b[0]
    } else {
        name_less(a.drop_first(), b.drop_first())
    }
}

/// Two distinct names are ordered one way or the other.
pub proof fn lemma_name_less_total(a: Seq<char>, b: Seq<char>)
    requires
        a != b,
    ensures
        name_less(a, b) || name_less(b, a),
    decreases a.len(),
{
    if a.len() != 0 && b.len() != 0 && a[0] == b[0] {
        if a.drop_first() == b.drop_first() {
            assert(a =~= seq![a[0]] + a.drop_first());
            assert(b =~= seq![b[0]] + b.drop_first());
        }
        lemma_name_less_total(a.drop_first(), b.drop_first());
    } else if a.len() == 0 && b.len() == 0 {
        assert(a =~= b);
    } else if a.len() != 0 && b.len() != 0 {
    }
}

/// The order of names is transitive.
pub proof fn lemma_name_less_transitive(a: Seq<char>, b: Seq<char>, c: Seq<char>)
    requires
        name_less(a, b),
        name_less(b, c),
    ensures
        name_less(a, c),
    decreases a.len(),
{
    if a.len() != 0 && c.len() != 0 && a[0] == b[0] && b[0] == c[0] {
        lemma_name_less_transitive(a.drop_first(), b.drop_first(), c.drop_first());
    }
}

/// The order of names is asymmetric.
pub proof fn lemma_name_less_asymmetric(a: Seq<char>, b: Seq<char>)
    requires
        name_less(a, b),
    ensures
        !name_less(b, a),
    decreases a.len(),
{
    if a.len() != 0 && a[0] == b[0] {
        lemma_name_less_asymmetric(a.drop_first(), b.drop_first());
    }
}

/// Registering `id` under `name` in `m`, unless `name` is there already.
pub open spec fn register(
    m: Map<Seq<char>, (Seq<char>, Span)>,
    name: Seq<char>,
    id: (Seq<char>, Span),
) -> Map<Seq<char>, (Seq<char>, Span)> {
    if m.contains_key(name) {
        m
    } else {
        m.insert(name, id)
    }
}

/// Compares two names in the order of `name_less`.
fn less_than(a: &Vec<char>, b: &Vec<char>) -> (r: bool)
    ensures
        r == name_less(a@, b@),
{
    let mut i: usize = 0;
    assert(a@.subrange(0, a@.len() as int) =~= a@);
    assert(b@.subrange(0, b@.len() as int) =~= b@);
    while i < a.len() && i < b.len()
        invariant
            i <= a@.len(),
            i <= b@.len(),
            name_less(a@, b@) == name_less(a@.subrange(i as int, a@.len() as int), b@.subrange(i as int, b@.len() as int)),
        decreases a@.len() - i,
    {
        let ghost sa = a@.subrange(i as int, a@.len() as int);
        let ghost sb = b@.subrange(i as int, b@.len() as int);
        if a[i] != b[i] {
            return a[i] < b[i];
        }
        assert(sa.drop_first() =~= a@.subrange(i + 1, a@.len() as int));
        assert(sb.drop_first() =~= b@.subrange(i + 1, b@.len() as int));
        i = i + 1;
    }
    i < b.len()
}

/// The host identifiers captured by a block, under their placeholder names,
/// kept in increasing order of name with each name once.
#[derive(Debug)]
pub struct Captures {
    pub entries: Vec<(String, Ident)>,
}

impl Captures {
    /// Names are distinct and in increasing order.
    pub open spec fn wf(&self) -> bool {
        &&& forall|i: int, j: int|
            0 <= i < j < self.entries@.len() ==> self.entries@[i].0@ != self.entries@[j].0@
        &&& forall|i: int|
            0 <= i < self.entries@.len() - 1 ==> name_less(
                #[trigger] self.entries@[i].0@,
                self.entries@[i + 1].0@,
            )
    }

    /// Whether `k` is the name at position `i`.
    pub open spec fn names_at(&self, i: int, k: Seq<char>) -> bool {
        0 <= i < self.entries@.len() && self.entries@[i].0@ == k
    }

    /// Each placeholder name, mapped to the text and span of the identifier it stands for.
    pub open spec fn view(&self) -> Map<Seq<char>, (Seq<char>, Span)> {
        Map::new(
            |k: Seq<char>| exists|i: int| self.names_at(i, k),
            |k: Seq<char>| self.entries@[choose|i: int| self.names_at(i, k)].1@,
        )
    }

    pub fn new() -> (r: Captures)
        ensures
            r.wf(),
            r.view() == Map::<Seq<char>, (Seq<char>, Span)>::empty(),
            r.entries@.len() == 0,
    {
        let r = Captures { entries: Vec::new() };
        assert(r.view() =~= Map::<Seq<char>, (Seq<char>, Span)>::empty());
        r
    }

    /// Registers `ident` under `name`, unless the name is already there: the first
    /// occurrence of a name wins.
    pub fn insert(&mut self, name: String, ident: Ident)
        requires
            old(self).wf(),
        ensures
            final(self).wf(),
            final(self).view() == register(old(self).view(), name@, ident@),
    {
        let n = self.entries.len();
        let mut i: usize = 0;
        while i < n
            invariant
                n == self.entries@.len(),
                *self == *old(self),
                self.wf(),
                i <= n,
                forall|k: int| 0 <= k < i ==> self.entries@[k].0@ != name@,
            decreases n - i,
        {
            if self.entries[i].0 == name {
                assert(self.names_at(i as int, name@));
                return;
            }
            i = i + 1;
        }
        assert(!self.view().contains_key(name@));
        let key = chars_of(name.as_str());
        let mut pos: usize = 0;
        let mut stop = false;
        while pos < n && !stop
            invariant
                n == self.entries@.len(),
                *self == *old(self),
                self.wf(),
                pos <= n,
                key@ == name@,
                forall|k: int| 0 <= k < n ==> self.entries@[k].0@ != name@,
                pos > 0 ==> name_less(self.entries@[pos - 1].0@, name@),
                stop ==> pos < n && name_less(name@, self.entries@[pos as int].0@),
            decreases n - pos + if stop { 0int } else { 1int },
        {
            let other = chars_of(self.entries[pos].0.as_str());
            if less_than(&key, &other) {
                stop = true;
            } else {
                proof {
                    lemma_name_less_total(name@, self.entries@[pos as int].0@);
                }
                pos = pos + 1;
            }
        }
        let ghost before = *self;
        let ghost gname = name;
        let ghost gident = ident;
        self.entries.insert(pos, (name, ident));
        proof {
            lemma_inserted(before, *self, pos as int, gname, gident);
        }
    }

    /// Names in a well-formed registry are in increasing order, not only
    /// between neighbours.
    pub proof fn lemma_sorted(&self, i: int, j: int)
        requires
            self.wf(),
            0 <= i < j < self.entries@.len(),
        ensures
            name_less(self.entries@[i].0@, self.entries@[j].0@),
        decreases j - i,
    {
        if j > i + 1 {
            self.lemma_sorted(i, j - 1);
            lemma_name_less_transitive(
                self.entries@[i].0@,
                self.entries@[j - 1].0@,
                self.entries@[j].0@,
            );
        }
    }

    /// In a well-formed registry the entry at `i` is what its name maps to.
    pub proof fn lemma_entry_in_view(&self, i: int)
        requires
            self.wf(),
            0 <= i < self.entries@.len(),
        ensures
            self.view().contains_key(self.entries@[i].0@),
            self.view()[self.entries@[i].0@] == self.entries@[i].1@,
    {
        let k = self.entries@[i].0@;
        assert(self.names_at(i, k));
        let c = choose|c: int| self.names_at(c, k);
        if c != i {
            if c < i {
                assert(self.entries@[c].0@ != self.entries@[i].0@);
            } else {
                assert(self.entries@[i].0@ != self.entries@[c].0@);
            }
        }
    }

    /// A name in a well-formed registry stands in exactly one entry.
    pub proof fn lemma_one_entry(&self, k: Seq<char>)
        requires
            self.wf(),
            self.view().contains_key(k),
        ensures
            exists|i: int|
                self.names_at(i, k) && forall|j: int| #[trigger] self.names_at(j, k) ==> j == i,
    {
        let i = choose|i: int| self.names_at(i, k);
        assert forall|j: int| #[trigger] self.names_at(j, k) implies j == i by {
            if j < i {
                assert(self.entries@[j].0@ != self.entries@[i].0@);
            } else if j > i {
                assert(self.entries@[i].0@ != self.entries@[j].0@);
            }
        }
    }
}

/// Two well-formed registries that agree up to position `i` agree at `i` too,
/// when they map the same names to the same identifiers.
proof fn lemma_same_view_at(a: &Captures, b: &Captures, i: int)
    requires
        a.wf(),
        b.wf(),
        a.view() == b.view(),
        0 <= i < a.entries@.len(),
        0 <= i < b.entries@.len(),
        forall|k: int| 0 <= k < i ==> a.entries@[k].0@ == b.entries@[k].0@,
    ensures
        a.entries@[i].0@ == b.entries@[i].0@,
{
    let ka = a.entries@[i].0@;
    let kb = b.entries@[i].0@;
    assert(a.names_at(i, ka));
    assert(b.names_at(i, kb));
    assert(b.view().contains_key(ka));
    assert(a.view().contains_key(kb));
    let p = choose|p: int| b.names_at(p, ka);
    let q = choose|q: int| a.names_at(q, kb);
    if p < i {
        assert(a.entries@[p].0@ == b.entries@[p].0@);
        assert(a.entries@[p].0@ != a.entries@[i].0@);
    }
    if q < i {
        assert(a.entries@[q].0@ == b.entries@[q].0@);
        assert(b.entries@[q].0@ != b.entries@[i].0@);
    }
    if ka != kb {
        assert(p != i);
        assert(q != i);
        a.lemma_sorted(i, q);
        b.lemma_sorted(i, p);
        lemma_name_less_asymmetric(ka, kb);
    }
}

/// Two well-formed registries with the same view agree on the names of their
/// first `i` entries.
proof fn lemma_same_prefix(a: &Captures, b: &Captures, i: int)
    requires
        a.wf(),
        b.wf(),
        a.view() == b.view(),
        0 <= i <= a.entries@.len(),
        i <= b.entries@.len(),
    ensures
        forall|k: int| 0 <= k < i ==> a.entries@[k].0@ == b.entries@[k].0@,
    decreases i,
{
    if i > 0 {
        lemma_same_prefix(a, b, i - 1);
        lemma_same_view_at(a, b, i - 1);
    }
}

/// Two well-formed registries that agree on every name's identifier list the
/// same entries in the same order.
pub proof fn lemma_same_view_same_order(a: &Captures, b: &Captures)
    requires
        a.wf(),
        b.wf(),
        a.view() == b.view(),
    ensures
        a.entries@.len() == b.entries@.len(),
        forall|i: int|
            0 <= i < a.entries@.len() ==> a.entries@[i].0@ == b.entries@[i].0@
                && a.entries@[i].1@ == b.entries@[i].1@,
{
    let n: int = if a.entries@.len() < b.entries@.len() {
        a.entries@.len() as int
    } else {
        b.entries@.len() as int
    };
    lemma_same_prefix(a, b, n);
    if a.entries@.len() > n {
        let k = a.entries@[n].0@;
        a.lemma_entry_in_view(n);
        let p = choose|p: int| b.names_at(p, k);
        assert(a.entries@[p].0@ != a.entries@[n].0@);
    }
    if b.entries@.len() > n {
        let k = b.entries@[n].0@;
        b.lemma_entry_in_view(n);
        assert(a.view().contains_key(k));
        let p = choose|p: int| a.names_at(p, k);
        assert(b.entries@[p].0@ != b.entries@[n].0@);
    }
    assert forall|i: int| 0 <= i < a.entries@.len() implies a.entries@[i].1@ == b.entries@[i].1@ by {
        a.lemma_entry_in_view(i);
        b.lemma_entry_in_view(i);
    }
}

/// Inserting a new name between its neighbours in order keeps the registry
/// well formed and adds exactly that name to its view.
proof fn lemma_inserted(before: Captures, after: Captures, pos: int, name: String, ident: Ident)
    requires
        before.wf(),
        0 <= pos <= before.entries@.len(),
        after.entries@ == before.entries@.insert(pos, (name, ident)),
        forall|k: int| 0 <= k < before.entries@.len() ==> before.entries@[k].0@ != name@,
        pos > 0 ==> name_less(before.entries@[pos - 1].0@, name@),
        pos < before.entries@.len() ==> name_less(name@, before.entries@[pos].0@),
    ensures
        after.wf(),
        after.view() == before.view().insert(name@, ident@),
{
    lemma_inserted_order(before, after, pos, name, ident);
    lemma_inserted_view(before, after, pos, name, ident);
}

proof fn lemma_inserted_order(before: Captures, after: Captures, pos: int, name: String, ident: Ident)
    requires
        before.wf(),
        0 <= pos <= before.entries@.len(),
        after.entries@ == before.entries@.insert(pos, (name, ident)),
        forall|k: int| 0 <= k < before.entries@.len() ==> before.entries@[k].0@ != name@,
        pos > 0 ==> name_less(before.entries@[pos - 1].0@, name@),
        pos < before.entries@.len() ==> name_less(name@, before.entries@[pos].0@),
    ensures
        after.wf(),
{
    assert forall|i: int, j: int| 0 <= i < j < after.entries@.len() implies after.entries@[i].0@
        != after.entries@[j].0@ by {
        let bi = if i < pos { i } else { i - 1 };
        let bj = if j < pos { j } else { j - 1 };
        if i != pos && j != pos {
            assert(before.entries@[bi] == after.entries@[i]);
            assert(before.entries@[bj] == after.entries@[j]);
        } else if i == pos {
            assert(before.entries@[bj] == after.entries@[j]);
        } else {
            assert(before.entries@[bi] == after.entries@[i]);
        }
    }
    assert forall|i: int| 0 <= i < after.entries@.len() - 1 implies name_less(
        #[trigger] after.entries@[i].0@,
        after.entries@[i + 1].0@,
    ) by {
        if i < pos - 1 {
            assert(before.entries@[i] == after.entries@[i]);
            assert(before.entries@[i + 1] == after.entries@[i + 1]);
            assert(name_less(before.entries@[i].0@, before.entries@[i + 1].0@));
        } else if i == pos - 1 {
            assert(before.entries@[i] == after.entries@[i]);
            assert(after.entries@[i + 1].0@ == name@);
        } else if i == pos {
            assert(before.entries@[i] == after.entries@[i + 1]);
            assert(after.entries@[i].0@ == name@);
        } else {
            assert(before.entries@[i] == after.entries@[i + 1]);
            assert(before.entries@[i - 1] == after.entries@[i]);
            assert(name_less(before.entries@[i - 1].0@, before.entries@[i].0@));
        }
    }
}

proof fn lemma_inserted_view(before: Captures, after: Captures, pos: int, name: String, ident: Ident)
    requires
        before.wf(),
        0 <= pos <= before.entries@.len(),
        after.entries@ == before.entries@.insert(pos, (name, ident)),
        forall|k: int| 0 <= k < before.entries@.len() ==> before.entries@[k].0@ != name@,
        pos > 0 ==> name_less(before.entries@[pos - 1].0@, name@),
        pos < before.entries@.len() ==> name_less(name@, before.entries@[pos].0@),
        after.wf(),
    ensures
        after.view() == before.view().insert(name@, ident@),
{
    assert forall|k: Seq<char>| #[trigger] after.view().contains_key(k) <==> before.view().insert(
        name@,
        ident@,
    ).contains_key(k) by {
        if after.view().contains_key(k) && k != name@ {
            let i = choose|i: int| after.names_at(i, k);
            if i < pos {
                assert(before.names_at(i, k));
            } else {
                assert(before.names_at(i - 1, k));
            }
        }
        if before.view().contains_key(k) {
            let i = choose|i: int| before.names_at(i, k);
            if i < pos {
                assert(after.names_at(i, k));
            } else {
                assert(after.names_at(i + 1, k));
            }
        }
        if k == name@ {
            assert(after.names_at(pos, k));
        }
    }
    assert forall|k: Seq<char>| #[trigger] after.view().contains_key(k) implies after.view()[k]
        == before.view().insert(name@, ident@)[k] by {
        let ai = choose|i: int| after.names_at(i, k);
        if k == name@ {
            assert(after.names_at(pos, k));
            assert(ai == pos);
        } else {
            let bi = choose|i: int| before.names_at(i, k);
            if bi < pos {
                assert(after.names_at(bi, k));
                assert(ai == bi);
            } else {
                assert(after.names_at(bi + 1, k));
                assert(ai == bi + 1);
            }
        }
    }
    assert(after.view() =~= before.view().insert(name@, ident@));
}

} // verus!
