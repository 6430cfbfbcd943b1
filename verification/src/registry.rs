//! The registry: the persisted mapping of link id to link metadata, held
//! with unique ids in ascending id order — the canonical order it is
//! saved in.  It is the single source of truth for which links exist.

use vstd::prelude::*;
use crate::link::{Collaborator, LinkView};
use crate::textutil::str_eq;

verus! {

/// Some entry of `s` carries the id.
pub open spec fn contains_id(s: Seq<LinkView>, id: Seq<char>) -> bool {
    exists|k: int| 0 <= k < s.len() && (#[trigger] s[k]).id == id
}

/// The index of the first entry of `s` with the id, or `-1` when none has
/// it.
pub open spec fn index_of(s: Seq<LinkView>, id: Seq<char>) -> int
    decreases s.len(),
{
    if s.len() == 0 {
        -1
    } else if s[0].id == id {
        0
    } else {
        let r = index_of(s.drop_first(), id);
        if r < 0 {
            -1
        } else {
            r + 1
        }
    }
}

/// `index_of` finds the first entry with the id, exactly when one exists.
pub proof fn lemma_index_of(s: Seq<LinkView>, id: Seq<char>)
    ensures
        -1 <= index_of(s, id) < s.len(),
        (index_of(s, id) >= 0) <==> contains_id(s, id),
        index_of(s, id) >= 0 ==> s[index_of(s, id)].id == id,
        forall|j: int| 0 <= j < index_of(s, id) ==> (#[trigger] s[j]).id != id,
    decreases s.len(),
{
    if s.len() > 0 && s[0].id != id {
        lemma_index_of(s.drop_first(), id);
        let r = index_of(s.drop_first(), id);
        if r >= 0 {
            assert(s[r + 1].id == id);
            assert forall|j: int| 0 <= j < r + 1 implies (#[trigger] s[j]).id != id by {
                if j > 0 {
                    assert(s.drop_first()[j - 1].id != id);
                }
            }
        } else {
            if contains_id(s, id) {
                let k = choose|k: int| 0 <= k < s.len() && (#[trigger] s[k]).id == id;
                assert(s.drop_first()[k - 1].id == id);
            }
        }
    }
}

/// Removing an entry introduces no id: an id found after a removal was
/// there before it.
pub proof fn lemma_contains_after_remove(s: Seq<LinkView>, i: int, id: Seq<char>)
    requires
        0 <= i < s.len(),
    ensures
        contains_id(s.remove(i), id) ==> contains_id(s, id),
{
    if contains_id(s.remove(i), id) {
        let k = choose|k: int| 0 <= k < s.remove(i).len() && (#[trigger] s.remove(i)[k]).id == id;
        if k < i {
            assert(s[k].id == id);
        } else {
            assert(s[k + 1].id == id);
        }
    }
}

/// The entries stand in strictly ascending id order — the canonical
/// order the registry is saved in.
pub open spec fn id_sorted(s: Seq<LinkView>) -> bool {
    forall|j: int, k: int|
        0 <= j < k < s.len() ==> crate::textutil::str_lt(
            (#[trigger] s[j]).id,
            (#[trigger] s[k]).id,
        )
}

/// An entry placed at its position in the id order.
pub open spec fn insert_sorted(s: Seq<LinkView>, l: LinkView) -> Seq<LinkView>
    decreases s.len(),
{
    if s.len() == 0 {
        seq![l]
    } else if crate::textutil::str_lt(l.id, s[0].id) {
        seq![l] + s
    } else {
        seq![s[0]] + insert_sorted(s.drop_first(), l)
    }
}

/// Sorted insertion registers exactly the old ids plus the new one.
pub proof fn lemma_insert_sorted_contains(s: Seq<LinkView>, l: LinkView, id: Seq<char>)
    ensures
        contains_id(insert_sorted(s, l), id) <==> (contains_id(s, id) || l.id == id),
        insert_sorted(s, l).len() == s.len() + 1,
    decreases s.len(),
{
    let r = insert_sorted(s, l);
    if s.len() == 0 {
        assert(r[0] == l);
        if contains_id(r, id) {
            let k = choose|k: int| 0 <= k < r.len() && (#[trigger] r[k]).id == id;
        }
    } else if crate::textutil::str_lt(l.id, s[0].id) {
        assert(r == seq![l] + s);
        if contains_id(r, id) {
            let k = choose|k: int| 0 <= k < r.len() && (#[trigger] r[k]).id == id;
            if k > 0 {
                assert(s[k - 1].id == id);
            }
        }
        if contains_id(s, id) {
            let k = choose|k: int| 0 <= k < s.len() && (#[trigger] s[k]).id == id;
            assert(r[k + 1].id == id);
        }
        if l.id == id {
            assert(r[0].id == id);
        }
    } else {
        lemma_insert_sorted_contains(s.drop_first(), l, id);
        let rest = insert_sorted(s.drop_first(), l);
        assert(r == seq![s[0]] + rest);
        if contains_id(r, id) {
            let k = choose|k: int| 0 <= k < r.len() && (#[trigger] r[k]).id == id;
            if k == 0 {
                assert(s[0].id == id);
            } else {
                assert(rest[k - 1].id == id);
                assert(contains_id(rest, id));
                if contains_id(s.drop_first(), id) {
                    let m = choose|m: int|
                        0 <= m < s.drop_first().len() && (#[trigger] s.drop_first()[m]).id == id;
                    assert(s[m + 1].id == id);
                }
            }
        }
        if contains_id(s, id) {
            let k = choose|k: int| 0 <= k < s.len() && (#[trigger] s[k]).id == id;
            if k == 0 {
                assert(r[0].id == id);
            } else {
                assert(s.drop_first()[k - 1].id == id);
                assert(contains_id(rest, id));
                let m = choose|m: int| 0 <= m < rest.len() && (#[trigger] rest[m]).id == id;
                assert(r[m + 1].id == id);
            }
        }
        if l.id == id {
            assert(contains_id(rest, id));
            let m = choose|m: int| 0 <= m < rest.len() && (#[trigger] rest[m]).id == id;
            assert(r[m + 1].id == id);
        }
    }
}

/// Every entry of a sorted insertion is an old entry or the new one.
proof fn lemma_insert_sorted_members(s: Seq<LinkView>, l: LinkView)
    ensures
        forall|j: int|
            0 <= j < insert_sorted(s, l).len() ==> ((exists|i: int|
                0 <= i < s.len() && #[trigger] insert_sorted(s, l)[j] == s[i]) || insert_sorted(
                s,
                l,
            )[j] == l),
    decreases s.len(),
{
    let r = insert_sorted(s, l);
    if s.len() == 0 {
    } else if crate::textutil::str_lt(l.id, s[0].id) {
        assert forall|j: int| 0 <= j < r.len() implies ((exists|i: int|
            0 <= i < s.len() && #[trigger] r[j] == s[i]) || r[j] == l) by {
            if j > 0 {
                assert(r[j] == s[j - 1]);
            }
        }
    } else {
        lemma_insert_sorted_members(s.drop_first(), l);
        let rest = insert_sorted(s.drop_first(), l);
        assert forall|j: int| 0 <= j < r.len() implies ((exists|i: int|
            0 <= i < s.len() && #[trigger] r[j] == s[i]) || r[j] == l) by {
            if j == 0 {
                assert(r[0] == s[0]);
            } else {
                assert(r[j] == rest[j - 1]);
                if exists|i: int| 0 <= i < s.drop_first().len() && rest[j - 1] == s.drop_first()[i] {
                    let i = choose|i: int|
                        0 <= i < s.drop_first().len() && rest[j - 1] == s.drop_first()[i];
                    assert(r[j] == s[i + 1]);
                }
            }
        }
    }
}

/// Sorted insertion of a fresh id keeps the entries unique and the order
/// strictly ascending.
pub proof fn lemma_insert_sorted_wf(s: Seq<LinkView>, l: LinkView)
    requires
        id_sorted(s),
        forall|j: int, k: int| 0 <= j < k < s.len() ==> (#[trigger] s[j]).id != (#[trigger] s[k]).id,
        !contains_id(s, l.id),
    ensures
        id_sorted(insert_sorted(s, l)),
        forall|j: int, k: int|
            0 <= j < k < insert_sorted(s, l).len() ==> (#[trigger] insert_sorted(s, l)[j]).id != (
            #[trigger] insert_sorted(s, l)[k]).id,
    decreases s.len(),
{
    let r = insert_sorted(s, l);
    if s.len() == 0 {
    } else if crate::textutil::str_lt(l.id, s[0].id) {
        assert(r == seq![l] + s);
        assert forall|j: int, k: int| 0 <= j < k < r.len() implies crate::textutil::str_lt(
            (#[trigger] r[j]).id,
            (#[trigger] r[k]).id,
        ) by {
            if j == 0 {
                if k > 1 {
                    crate::textutil::lemma_str_lt_trans(l.id, s[0].id, s[k - 1].id);
                }
            } else {
                assert(r[j] == s[j - 1] && r[k] == s[k - 1]);
            }
        }
        assert forall|j: int, k: int| 0 <= j < k < r.len() implies (#[trigger] r[j]).id != (
        #[trigger] r[k]).id by {
            crate::textutil::lemma_str_lt_asym(r[j].id, r[k].id);
            if r[j].id == r[k].id {
                assert(crate::textutil::str_lt(r[j].id, r[j].id));
            }
        }
    } else {
        assert(s[0].id != l.id) by {
            if s[0].id == l.id {
                assert(contains_id(s, l.id));
            }
        }
        crate::textutil::lemma_str_lt_connex(l.id, s[0].id);
        assert(crate::textutil::str_lt(s[0].id, l.id));
        assert(!contains_id(s.drop_first(), l.id)) by {
            if contains_id(s.drop_first(), l.id) {
                let k = choose|k: int|
                    0 <= k < s.drop_first().len() && (#[trigger] s.drop_first()[k]).id == l.id;
                assert(s[k + 1].id == l.id);
            }
        }
        assert forall|j: int, k: int| 0 <= j < k < s.drop_first().len() implies
            crate::textutil::str_lt(
            (#[trigger] s.drop_first()[j]).id,
            (#[trigger] s.drop_first()[k]).id,
        ) && (s.drop_first()[j]).id != (s.drop_first()[k]).id by {
            assert(s.drop_first()[j] == s[j + 1] && s.drop_first()[k] == s[k + 1]);
        }
        lemma_insert_sorted_wf(s.drop_first(), l);
        lemma_insert_sorted_members(s.drop_first(), l);
        let rest = insert_sorted(s.drop_first(), l);
        assert(r == seq![s[0]] + rest);
        assert forall|m: int| 0 <= m < rest.len() implies crate::textutil::str_lt(
            s[0].id,
            (#[trigger] rest[m]).id,
        ) by {
            if rest[m] == l {
            } else {
                let i = choose|i: int| 0 <= i < s.drop_first().len() && rest[m] == s.drop_first()[i];
                assert(s.drop_first()[i] == s[i + 1]);
            }
        }
        assert forall|j: int, k: int| 0 <= j < k < r.len() implies (crate::textutil::str_lt(
            (#[trigger] r[j]).id,
            (#[trigger] r[k]).id,
        ) && r[j].id != r[k].id) by {
            if j > 0 {
                assert(r[j] == rest[j - 1] && r[k] == rest[k - 1]);
            } else {
                assert(r[k] == rest[k - 1]);
            }
            crate::textutil::lemma_str_lt_asym(r[j].id, r[k].id);
            if r[j].id == r[k].id {
                assert(crate::textutil::str_lt(r[j].id, r[j].id));
            }
        }
    }
}

/// An entry greater than every present id goes to the end.
pub proof fn lemma_insert_sorted_at_end(s: Seq<LinkView>, l: LinkView)
    requires
        forall|j: int| 0 <= j < s.len() ==> crate::textutil::str_lt((#[trigger] s[j]).id, l.id),
    ensures
        insert_sorted(s, l) == s.push(l),
    decreases s.len(),
{
    if s.len() == 0 {
        assert(insert_sorted(s, l) =~= s.push(l));
    } else {
        crate::textutil::lemma_str_lt_asym(s[0].id, l.id);
        assert(!crate::textutil::str_lt(l.id, s[0].id));
        assert forall|j: int| 0 <= j < s.drop_first().len() implies crate::textutil::str_lt(
            (#[trigger] s.drop_first()[j]).id,
            l.id,
        ) by {
            assert(s.drop_first()[j] == s[j + 1]);
        }
        lemma_insert_sorted_at_end(s.drop_first(), l);
        assert(insert_sorted(s, l) == seq![s[0]] + s.drop_first().push(l));
        assert(seq![s[0]] + s.drop_first().push(l) =~= s.push(l));
    }
}

/// The entries re-ordered into ascending id order, one sorted insertion
/// at a time.
pub open spec fn sorted_insertions(s: Seq<LinkView>) -> Seq<LinkView>
    decreases s.len(),
{
    if s.len() == 0 {
        Seq::empty()
    } else {
        insert_sorted(sorted_insertions(s.drop_last()), s.last())
    }
}

/// Re-ordering registers exactly the same ids.
pub proof fn lemma_sorted_insertions_contains(s: Seq<LinkView>, id: Seq<char>)
    ensures
        contains_id(sorted_insertions(s), id) <==> contains_id(s, id),
    decreases s.len(),
{
    if s.len() > 0 {
        lemma_sorted_insertions_contains(s.drop_last(), id);
        lemma_insert_sorted_contains(sorted_insertions(s.drop_last()), s.last(), id);
        if contains_id(s.drop_last(), id) {
            let k = choose|k: int|
                0 <= k < s.drop_last().len() && (#[trigger] s.drop_last()[k]).id == id;
            assert(s[k].id == id);
        }
        if s.last().id == id {
            assert(s[s.len() - 1].id == id);
        }
        if contains_id(s, id) {
            let k = choose|k: int| 0 <= k < s.len() && (#[trigger] s[k]).id == id;
            if k < s.len() - 1 {
                assert(s.drop_last()[k].id == id);
            }
        }
    }
}

/// Entries already in ascending id order come back unchanged.
pub proof fn lemma_sorted_insertions_id(s: Seq<LinkView>)
    requires
        id_sorted(s),
    ensures
        sorted_insertions(s) == s,
    decreases s.len(),
{
    if s.len() > 0 {
        let front = s.drop_last();
        assert(id_sorted(front)) by {
            assert forall|j: int, k: int| 0 <= j < k < front.len() implies crate::textutil::str_lt(
                (#[trigger] front[j]).id,
                (#[trigger] front[k]).id,
            ) by {
                assert(front[j] == s[j] && front[k] == s[k]);
            }
        }
        lemma_sorted_insertions_id(front);
        assert forall|j: int| 0 <= j < front.len() implies crate::textutil::str_lt(
            (#[trigger] front[j]).id,
            s.last().id,
        ) by {
            assert(front[j] == s[j]);
        }
        lemma_insert_sorted_at_end(front, s.last());
        assert(front.push(s.last()) =~= s);
    }
}

/// The persisted mapping of link id to link.
pub struct Registry {
    pub entries: Vec<Collaborator>,
}

impl View for Registry {
    type V = Seq<LinkView>;

    open spec fn view(&self) -> Seq<LinkView> {
        self.entries.deep_view()
    }
}

impl Registry {
    /// Ids are unique and the entries stand in strictly ascending id
    /// order, so the registry saves in canonical order.
    pub open spec fn wf(&self) -> bool {
        &&& forall|j: int, k: int|
            0 <= j < k < self@.len() ==> (#[trigger] self@[j]).id != (#[trigger] self@[k]).id
        &&& id_sorted(self@)
    }

    /// The empty registry.
    pub fn new() -> (r: Registry)
        ensures
            r@ =~= Seq::<LinkView>::empty(),
            r.wf(),
    {
        let r = Registry { entries: Vec::new() };
        proof {
            assert(r@.len() == 0);
        }
        r
    }

    pub fn len(&self) -> (n: usize)
        ensures
            n == self@.len(),
    {
        proof {
            assert(self@.len() == self.entries@.len());
        }
        self.entries.len()
    }

    pub fn is_empty(&self) -> (b: bool)
        ensures
            b == (self@.len() == 0),
    {
        self.len() == 0
    }

    /// The entry at a position, in id order.
    pub fn at(&self, i: usize) -> (c: &Collaborator)
        requires
            i < self@.len(),
        ensures
            c@ == self@[i as int],
    {
        proof {
            assert(self@.len() == self.entries@.len());
        }
        &self.entries[i]
    }

    /// Whether an id is registered.
    pub fn contains(&self, id: &str) -> (b: bool)
        ensures
            b == contains_id(self@, id@),
    {
        proof {
            assert(self@.len() == self.entries@.len());
        }
        let n = self.entries.len();
        let mut k: usize = 0;
        while k < n
            invariant
                n == self@.len(),
                n == self.entries@.len(),
                0 <= k <= n,
                forall|j: int| 0 <= j < k ==> (#[trigger] self@[j]).id != id@,
            decreases n - k,
        {
            if str_eq(self.entries[k].github_user.as_str(), id) {
                assert(self@[k as int].id == id@);
                return true;
            }
            k += 1;
        }
        false
    }

    /// The entry with the given id, when one is registered.
    pub fn get(&self, id: &str) -> (r: Option<&Collaborator>)
        ensures
            contains_id(self@, id@) ==> (r matches Some(c) && c@ == self@[index_of(self@, id@)]
                && c@.id == id@),
            !contains_id(self@, id@) ==> r is None,
    {
        proof {
            lemma_index_of(self@, id@);
            assert(self@.len() == self.entries@.len());
        }
        let n = self.entries.len();
        let mut k: usize = 0;
        while k < n
            invariant
                n == self@.len(),
                n == self.entries@.len(),
                0 <= k <= n,
                forall|j: int| 0 <= j < k ==> (#[trigger] self@[j]).id != id@,
            decreases n - k,
        {
            if str_eq(self.entries[k].github_user.as_str(), id) {
                proof {
                    assert(self@[k as int].id == id@);
                    lemma_index_of(self@, id@);
                    assert(index_of(self@, id@) == k) by {
                        if index_of(self@, id@) < k {
                            assert(self@[index_of(self@, id@)].id != id@);
                        }
                    }
                }
                return Some(&self.entries[k]);
            }
            k += 1;
        }
        None
    }

    /// Registers a fresh entry at its position in the id order.
    pub fn insert(&mut self, c: Collaborator)
        requires
            old(self).wf(),
            !contains_id(old(self)@, c@.id),
        ensures
            final(self)@ == insert_sorted(old(self)@, c@),
            final(self).wf(),
    {
        proof {
            assert(self@.len() == self.entries@.len());
            lemma_insert_sorted_wf(self@, c@);
            assert(self@.subrange(0, self@.len() as int) =~= self@);
        }
        let n = self.entries.len();
        let mut k: usize = 0;
        while k < n
            invariant
                old(self) == self,
                self.wf(),
                !contains_id(self@, c@.id),
                n == self@.len(),
                n == self.entries@.len(),
                0 <= k <= n,
                insert_sorted(self@, c@) == self@.subrange(0, k as int) + insert_sorted(
                    self@.subrange(k as int, n as int),
                    c@,
                ),
            decreases n - k,
        {
            let ghost tail = self@.subrange(k as int, n as int);
            proof {
                assert(tail[0] == self@[k as int]);
                assert(tail.drop_first() =~= self@.subrange(k + 1 as int, n as int));
            }
            if crate::textutil::str_lt_exec(
                c.github_user.as_str(),
                self.entries[k].github_user.as_str(),
            ) {
                proof {
                    lemma_insert_sorted_wf(self@, c@);
                    assert(crate::textutil::str_lt(c@.id, tail[0].id));
                    assert(insert_sorted(tail, c@) == seq![c@] + tail);
                    assert(insert_sorted(self@, c@) =~~= self@.subrange(0, k as int) + seq![c@]
                        + self@.subrange(k as int, n as int));
                }
                self.entries.insert(k, c);
                proof {
                    assert(self@ =~~= old(self)@.subrange(0, k as int) + seq![c@] + old(
                        self,
                    )@.subrange(k as int, n as int));
                }
                return;
            }
            proof {
                assert(!crate::textutil::str_lt(c@.id, tail[0].id));
                assert(insert_sorted(tail, c@) == seq![tail[0]] + insert_sorted(
                    tail.drop_first(),
                    c@,
                ));
                assert(self@.subrange(0, k as int) + (seq![tail[0]] + insert_sorted(
                    tail.drop_first(),
                    c@,
                )) =~= self@.subrange(0, k + 1 as int) + insert_sorted(
                    self@.subrange(k + 1 as int, n as int),
                    c@,
                ));
            }
            k += 1;
        }
        proof {
            assert(self@.subrange(n as int, n as int) =~= Seq::<LinkView>::empty());
            assert(insert_sorted(Seq::<LinkView>::empty(), c@) =~= seq![c@]);
            assert(self@.subrange(0, n as int) =~= self@);
            assert(insert_sorted(self@, c@) =~~= self@ + seq![c@]);
            assert(self@.len() == self.entries@.len());
        }
        self.entries.push(c);
        proof {
            assert(self@ =~~= old(self)@ + seq![c@]);
        }
    }

    /// Removes the entry with the given id and hands it back; a missing id
    /// leaves the registry unchanged.
    pub fn remove(&mut self, id: &str) -> (r: Option<Collaborator>)
        requires
            old(self).wf(),
        ensures
            final(self).wf(),
            contains_id(old(self)@, id@) ==> (r matches Some(c) && c@.id == id@ && c@ == old(
                self,
            )@[index_of(old(self)@, id@)] && final(self)@ == old(self)@.remove(
                index_of(old(self)@, id@),
            )),
            !contains_id(old(self)@, id@) ==> r is None && final(self)@ == old(self)@,
    {
        proof {
            lemma_index_of(self@, id@);
            assert(self@.len() == self.entries@.len());
        }
        let n = self.entries.len();
        let mut k: usize = 0;
        while k < n
            invariant
                old(self) == self,
                self.wf(),
                n == self@.len(),
                n == self.entries@.len(),
                0 <= k <= n,
                forall|j: int| 0 <= j < k ==> (#[trigger] self@[j]).id != id@,
            decreases n - k,
        {
            if str_eq(self.entries[k].github_user.as_str(), id) {
                proof {
                    assert(self@[k as int].id == id@);
                    lemma_index_of(self@, id@);
                    assert(index_of(self@, id@) == k) by {
                        if index_of(self@, id@) < k {
                            assert(self@[index_of(self@, id@)].id != id@);
                        }
                    }
                }
                let c = self.entries.remove(k);
                proof {
                    assert(self@ =~~= old(self)@.remove(k as int));
                    assert forall|j2: int, k2: int| 0 <= j2 < k2 < self@.len() implies ((
                    #[trigger] self@[j2]).id != (#[trigger] self@[k2]).id
                        && crate::textutil::str_lt(self@[j2].id, self@[k2].id)) by {
                        let oj = if j2 < k { j2 } else { j2 + 1 };
                        let ok = if k2 < k { k2 } else { k2 + 1 };
                        assert(self@[j2] == old(self)@[oj]);
                        assert(self@[k2] == old(self)@[ok]);
                    }
                }
                return Some(c);
            }
            k += 1;
        }
        None
    }

    /// The registered ids, in ascending order.
    pub fn ids(&self) -> (r: Vec<String>)
        ensures
            r.deep_view() == Seq::new(self@.len(), |i: int| self@[i].id),
    {
        proof {
            assert(self@.len() == self.entries@.len());
        }
        let n = self.entries.len();
        let mut r: Vec<String> = Vec::new();
        let mut k: usize = 0;
        proof {
            assert(r.deep_view() =~~= Seq::new(self@.len(), |i: int| self@[i].id).subrange(0, 0));
        }
        while k < n
            invariant
                n == self@.len(),
                n == self.entries@.len(),
                0 <= k <= n,
                r.deep_view() == Seq::new(self@.len(), |i: int| self@[i].id).subrange(0, k as int),
            decreases n - k,
        {
            proof {
                assert(r.deep_view().len() == r@.len());
                assert(r@.len() == k);
            }
            r.push(self.entries[k].github_user.clone());
            proof {
                assert(r.deep_view() =~~= Seq::new(self@.len(), |i: int| self@[i].id).subrange(
                    0,
                    k + 1 as int,
                ));
            }
            k += 1;
        }
        proof {
            let full = Seq::new(self@.len(), |i: int| self@[i].id);
            assert(full.subrange(0, n as int) =~= full);
        }
        r
    }
}

} // verus!
