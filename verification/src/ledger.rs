//! The ledger: a map from user key to the list of items that user holds.
//!
//! Entries are kept in a vector in which no user key occurs twice. An entry
//! whose list has become empty stays in the ledger: such a user reads as
//! holding an empty list, not as unknown.

use crate::strings::{copy_texts, same_texts, texts};
use vstd::prelude::*;

verus! {

/// The mathematical model of a ledger: user key to items, oldest first.
pub type LedgerModel = Map<Seq<char>, Seq<Seq<char>>>;

/// Why a ledger operation was refused.
#[derive(Clone, Copy, Debug, PartialEq, Eq, Structural)]
pub enum LedgerError {
    /// The user has no entry in the ledger.
    NotFound,
    /// The position is below 1 or beyond the end of the user's list.
    IndexOutOfRange,
}

/// One user's entry.
struct Entry {
    user: String,
    items: Vec<String>,
}

/// The ledger of borrowed items.
pub struct Ledger {
    entries: Vec<Entry>,
}

/// The list a user holds in `m`; empty for a user without an entry.
pub open spec fn items_of(m: LedgerModel, user: Seq<char>) -> Seq<Seq<char>> {
    if m.contains_key(user) {
        m[user]
    } else {
        Seq::empty()
    }
}

/// The ledger after `user` has borrowed `item`.
pub open spec fn borrowed(m: LedgerModel, user: Seq<char>, item: Seq<char>) -> LedgerModel {
    m.insert(user, items_of(m, user).push(item))
}

/// What `user` is told when asking for the list.
pub open spec fn listed(m: LedgerModel, user: Seq<char>) -> Result<Seq<Seq<char>>, LedgerError> {
    if m.contains_key(user) {
        Ok(m[user])
    } else {
        Err(LedgerError::NotFound)
    }
}

/// The ledger after `user` has given back the item at the 1-based
/// position `index`, or the reason why nothing was given back.
pub open spec fn gave_back(m: LedgerModel, user: Seq<char>, index: int) -> Result<
    LedgerModel,
    LedgerError,
> {
    if !m.contains_key(user) {
        Err(LedgerError::NotFound)
    } else if index < 1 || index > m[user].len() {
        Err(LedgerError::IndexOutOfRange)
    } else {
        Ok(m.insert(user, m[user].remove(index - 1)))
    }
}

/// The key of the entry at position `i`.
spec fn key_at(entries: Seq<Entry>, i: int) -> Seq<char> {
    entries[i].user@
}

/// Whether some entry has the key `user`.
spec fn has_key(entries: Seq<Entry>, user: Seq<char>) -> bool {
    exists|i: int| 0 <= i < entries.len() && key_at(entries, i) == user
}

/// The position of an entry with the key `user`.
spec fn slot(entries: Seq<Entry>, user: Seq<char>) -> int {
    choose|i: int| 0 <= i < entries.len() && key_at(entries, i) == user
}

/// No key occurs twice.
spec fn distinct_keys(entries: Seq<Entry>) -> bool {
    forall|i: int, j: int|
        0 <= i < j < entries.len() ==> key_at(entries, i) != key_at(entries, j)
}

/// The model of a vector of entries.
spec fn model_of(entries: Seq<Entry>) -> LedgerModel {
    Map::new(
        |k: Seq<char>| has_key(entries, k),
        |k: Seq<char>| texts(entries[slot(entries, k)].items@),
    )
}

/// With distinct keys, the entry at `i` is the one the model shows for its key.
proof fn lemma_model_at(entries: Seq<Entry>, i: int)
    requires
        distinct_keys(entries),
        0 <= i < entries.len(),
    ensures
        model_of(entries).contains_key(entries[i].user@),
        model_of(entries)[entries[i].user@] == texts(entries[i].items@),
        slot(entries, entries[i].user@) == i,
{
    assert(key_at(entries, i) == entries[i].user@);
}

/// Replacing the items of the entry at `i` replaces the list of its key.
proof fn lemma_model_update(before: Seq<Entry>, after: Seq<Entry>, i: int)
    requires
        distinct_keys(before),
        0 <= i < before.len(),
        after.len() == before.len(),
        forall|j: int| 0 <= j < before.len() ==> key_at(after, j) == key_at(before, j),
        forall|j: int| 0 <= j < before.len() && j != i ==> after[j].items == before[j].items,
    ensures
        distinct_keys(after),
        model_of(after) == model_of(before).insert(before[i].user@, texts(after[i].items@)),
{
    let lhs = model_of(after);
    let rhs = model_of(before).insert(before[i].user@, texts(after[i].items@));
    assert(key_at(after, i) == key_at(before, i));
    assert forall|u: Seq<char>| lhs.contains_key(u) <==> rhs.contains_key(u) by {
        assert(has_key(after, u) <==> has_key(before, u));
    }
    assert forall|u: Seq<char>| lhs.contains_key(u) implies lhs[u] == rhs[u] by {
        lemma_model_at(after, slot(after, u));
        lemma_model_at(before, slot(after, u));
    }
    assert(lhs =~= rhs);
}

/// Appending an entry with a new key adds that key to the model.
proof fn lemma_model_push(before: Seq<Entry>, entry: Entry)
    requires
        distinct_keys(before),
        forall|i: int| 0 <= i < before.len() ==> key_at(before, i) != entry.user@,
    ensures
        distinct_keys(before.push(entry)),
        model_of(before.push(entry)) == model_of(before).insert(entry.user@, texts(entry.items@)),
{
    let after = before.push(entry);
    let last = before.len() as int;
    assert(key_at(after, last) == entry.user@);
    assert forall|j: int| 0 <= j < last implies key_at(after, j) == key_at(before, j) by {}
    let lhs = model_of(after);
    let rhs = model_of(before).insert(entry.user@, texts(entry.items@));
    assert forall|u: Seq<char>| lhs.contains_key(u) <==> rhs.contains_key(u) by {
        if has_key(after, u) && u != entry.user@ {
            assert(key_at(before, slot(after, u)) == u);
        }
        if has_key(before, u) {
            assert(key_at(after, slot(before, u)) == u);
        }
    }
    assert forall|u: Seq<char>| lhs.contains_key(u) implies lhs[u] == rhs[u] by {
        lemma_model_at(after, slot(after, u));
        if u != entry.user@ {
            lemma_model_at(before, slot(after, u));
        }
    }
    assert(lhs =~= rhs);
}

impl View for Ledger {
    type V = LedgerModel;

    closed spec fn view(&self) -> LedgerModel {
        model_of(self.entries@)
    }
}

impl Ledger {
    /// The representation is sound: no user key occurs twice.
    pub closed spec fn wf(&self) -> bool {
        distinct_keys(self.entries@)
    }

    /// A ledger in which nobody has borrowed anything.
    pub fn new() -> (ledger: Ledger)
        ensures
            ledger.wf(),
            ledger@ == Map::<Seq<char>, Seq<Seq<char>>>::empty(),
    {
        let ledger = Ledger { entries: Vec::new() };
        assert(ledger@ =~= Map::<Seq<char>, Seq<Seq<char>>>::empty());
        ledger
    }

    /// Looks for the entry of `key`.
    fn find(&self, key: &String) -> (found: Option<usize>)
        ensures
            match found {
                Some(i) => i < self.entries@.len() && key_at(self.entries@, i as int) == key@,
                None => forall|i: int|
                    0 <= i < self.entries@.len() ==> key_at(self.entries@, i) != key@,
            },
    {
        let mut i: usize = 0;
        while i < self.entries.len()
            invariant
                i <= self.entries@.len(),
                forall|j: int| 0 <= j < i ==> key_at(self.entries@, j) != key@,
            decreases self.entries@.len() - i,
        {
            if self.entries[i].user == *key {
                return Some(i);
            }
            i += 1;
        }
        None
    }

    /// Appends `item` to the list of `user`, whose entry is made if there is none.
    pub fn borrow(&mut self, user: &str, item: String)
        requires
            old(self).wf(),
        ensures
            final(self).wf(),
            final(self)@ == borrowed(old(self)@, user@, item@),
    {
        let key = user.to_owned();
        match self.find(&key) {
            Some(i) => {
                let ghost before = self.entries@;
                self.entries[i].items.push(item);
                proof {
                    let after = self.entries@;
                    lemma_model_update(before, after, i as int);
                    assert(texts(after[i as int].items@) =~= texts(before[i as int].items@).push(
                        item@,
                    ));
                }
            },
            None => {
                let ghost before = self.entries@;
                let mut items: Vec<String> = Vec::new();
                items.push(item);
                let entry = Entry { user: key, items };
                proof {
                    lemma_model_push(before, entry);
                    assert(texts(entry.items@) =~= Seq::<Seq<char>>::empty().push(item@));
                }
                self.entries.push(entry);
            },
        }
    }

    /// Whether `user` has an entry.
    pub fn contains(&self, user: &str) -> (known: bool)
        requires
            self.wf(),
        ensures
            known == self@.contains_key(user@),
    {
        let key = user.to_owned();
        self.find(&key).is_some()
    }

    /// A copy of the list of `user`, oldest first; `NotFound` for a user
    /// without an entry. A user who has given everything back still has an
    /// entry and gets the empty list.
    pub fn list(&self, user: &str) -> (r: Result<Vec<String>, LedgerError>)
        requires
            self.wf(),
        ensures
            match r {
                Ok(items) => listed(self@, user@) == Ok::<Seq<Seq<char>>, LedgerError>(
                    texts(items@),
                ),
                Err(e) => listed(self@, user@) == Err::<Seq<Seq<char>>, LedgerError>(e),
            },
    {
        let key = user.to_owned();
        match self.find(&key) {
            Some(i) => Ok(copy_texts(&self.entries[i].items)),
            None => Err(LedgerError::NotFound),
        }
    }

    /// Removes the item at the 1-based position `index` from the list of
    /// `user`; the items behind it move up by one. `NotFound` for a user
    /// without an entry, else `IndexOutOfRange` for a position below 1 or
    /// beyond the end. A refused call leaves the ledger as it was.
    pub fn giveback(&mut self, user: &str, index: usize) -> (r: Result<(), LedgerError>)
        requires
            old(self).wf(),
        ensures
            final(self).wf(),
            match gave_back(old(self)@, user@, index as int) {
                Ok(m) => r is Ok && final(self)@ == m,
                Err(e) => r == Err::<(), LedgerError>(e) && final(self)@ == old(self)@,
            },
    {
        let key = user.to_owned();
        match self.find(&key) {
            Some(i) => {
                let ghost before = self.entries@;
                if index < 1 || index > self.entries[i].items.len() {
                    return Err(LedgerError::IndexOutOfRange);
                }
                self.entries[i].items.remove(index - 1);
                proof {
                    let after = self.entries@;
                    lemma_model_update(before, after, i as int);
                    assert(texts(after[i as int].items@) =~= texts(before[i as int].items@).remove(
                        index - 1,
                    ));
                }
                Ok(())
            },
            None => Err(LedgerError::NotFound),
        }
    }

    /// Gives `user` the list `items`, in place of any list held before.
    pub(crate) fn put(&mut self, user: String, items: Vec<String>)
        requires
            old(self).wf(),
        ensures
            final(self).wf(),
            final(self)@ == old(self)@.insert(user@, texts(items@)),
    {
        let ghost before = self.entries@;
        match self.find(&user) {
            Some(i) => {
                self.entries[i].items = items;
                proof {
                    lemma_model_update(before, self.entries@, i as int);
                }
            },
            None => {
                let entry = Entry { user, items };
                proof {
                    lemma_model_push(before, entry);
                }
                self.entries.push(entry);
            },
        }
    }

    /// Whether every entry of `self` is in `other` with the same list.
    fn within(&self, other: &Ledger) -> (all: bool)
        requires
            self.wf(),
            other.wf(),
        ensures
            all == forall|k: Seq<char>| #[trigger]
                self@.contains_key(k) ==> other@.contains_key(k) && other@[k] == self@[k],
    {
        let mut i: usize = 0;
        while i < self.entries.len()
            invariant
                i <= self.entries@.len(),
                self.wf(),
                other.wf(),
                forall|j: int|
                    0 <= j < i ==> other@.contains_key(#[trigger] key_at(self.entries@, j))
                        && other@[key_at(self.entries@, j)] == texts(self.entries@[j].items@),
            decreases self.entries@.len() - i,
        {
            let ghost k = key_at(self.entries@, i as int);
            proof {
                lemma_model_at(self.entries@, i as int);
            }
            match other.find(&self.entries[i].user) {
                Some(j) => {
                    if !same_texts(&self.entries[i].items, &other.entries[j].items) {
                        assert(self@.contains_key(k) && other@[k] != self@[k]);
                        return false;
                    }
                },
                None => {
                    assert(self@.contains_key(k) && !other@.contains_key(k));
                    return false;
                },
            }
            i += 1;
        }
        true
    }

    /// Whether two ledgers hold the same users with the same lists.
    pub fn equals(&self, other: &Ledger) -> (same: bool)
        requires
            self.wf(),
            other.wf(),
        ensures
            same == (self@ == other@),
    {
        let same = self.within(other) && other.within(self);
        proof {
            if same {
                assert(self@ =~= other@);
            }
        }
        same
    }

    /// A copy of the whole ledger: each user key once, with that user's
    /// list, in storage order.
    pub fn snapshot(&self) -> (pairs: Vec<(String, Vec<String>)>)
        requires
            self.wf(),
        ensures
            shows(pairs@, self@),
    {
        let mut pairs: Vec<(String, Vec<String>)> = Vec::new();
        let mut i: usize = 0;
        while i < self.entries.len()
            invariant
                i <= self.entries@.len(),
                pairs@.len() == i,
                forall|j: int|
                    0 <= j < i ==> (#[trigger] pairs@[j]).0@ == key_at(self.entries@, j) && texts(
                        pairs@[j].1@,
                    ) == texts(self.entries@[j].items@),
            decreases self.entries@.len() - i,
        {
            pairs.push((self.entries[i].user.clone(), copy_texts(&self.entries[i].items)));
            i += 1;
        }
        proof {
            let entries = self.entries@;
            assert forall|k: Seq<char>| self@.contains_key(k) implies exists|j: int|
                0 <= j < pairs@.len() && (#[trigger] pairs@[j]).0@ == k by {
                let j = slot(entries, k);
                assert(pairs@[j].0@ == k);
            }
        }
        pairs
    }
}

/// Whether `pairs` lists the ledger `m`: each user key of `m` once, beside
/// that user's list.
pub open spec fn shows(pairs: Seq<(String, Vec<String>)>, m: LedgerModel) -> bool {
    &&& forall|a: int, b: int|
        0 <= a < b < pairs.len() ==> (#[trigger] pairs[a]).0@ != (#[trigger] pairs[b]).0@
    &&& forall|j: int|
        0 <= j < pairs.len() ==> m.contains_key((#[trigger] pairs[j]).0@) && m[pairs[j].0@]
            == texts(pairs[j].1@)
    &&& forall|k: Seq<char>|
        m.contains_key(k) ==> exists|j: int| 0 <= j < pairs.len() && (#[trigger] pairs[j]).0@ == k
}

/// The ledger after `user` has borrowed each of `items`, first to last.
pub open spec fn borrowed_all(m: LedgerModel, user: Seq<char>, items: Seq<Seq<char>>) -> LedgerModel
    decreases items.len(),
{
    if items.len() == 0 {
        m
    } else {
        borrowed(borrowed_all(m, user, items.drop_last()), user, items.last())
    }
}

/// After a borrow the user's list is the list held before with the item
/// added at its end, and every other user's entry is as it was.
pub proof fn lemma_borrow_then_list(m: LedgerModel, user: Seq<char>, item: Seq<char>)
    ensures
        listed(borrowed(m, user, item), user) == Ok::<Seq<Seq<char>>, LedgerError>(
            items_of(m, user).push(item),
        ),
        items_of(borrowed(m, user, item), user).last() == item,
        forall|other: Seq<char>|
            other != user ==> listed(borrowed(m, user, item), other) == listed(m, other),
{
}

/// After any number of borrows by one user, that user's list is the list
/// held before followed by the borrowed items in the order of the calls;
/// every other user's entry is as it was.
pub proof fn lemma_borrows_in_call_order(m: LedgerModel, user: Seq<char>, items: Seq<Seq<char>>)
    ensures
        items_of(borrowed_all(m, user, items), user) == items_of(m, user) + items,
        items.len() > 0 ==> listed(borrowed_all(m, user, items), user) == Ok::<
            Seq<Seq<char>>,
            LedgerError,
        >(items_of(m, user) + items),
        !m.contains_key(user) ==> items_of(borrowed_all(m, user, items), user) == items,
        forall|other: Seq<char>|
            other != user ==> listed(borrowed_all(m, user, items), other) == listed(m, other),
    decreases items.len(),
{
    if items.len() > 0 {
        lemma_borrows_in_call_order(m, user, items.drop_last());
        assert((items_of(m, user) + items.drop_last()).push(items.last()) =~= items_of(m, user)
            + items);
    }
}

/// Borrows by one user that are served one at a time, in whatever order,
/// all take effect: the list grows by exactly the borrowed items, none lost
/// and none twice, in the order in which they were served.
pub proof fn lemma_borrows_in_any_order(
    m: LedgerModel,
    user: Seq<char>,
    items: Seq<Seq<char>>,
    served: Seq<Seq<char>>,
)
    requires
        served.to_multiset() == items.to_multiset(),
    ensures
        items_of(borrowed_all(m, user, served), user) == items_of(m, user) + served,
        items_of(borrowed_all(m, user, served), user).len() == items_of(m, user).len()
            + items.len(),
        items_of(borrowed_all(m, user, served), user).to_multiset() == items_of(
            m,
            user,
        ).to_multiset().add(items.to_multiset()),
{
    lemma_borrows_in_call_order(m, user, served);
    vstd::seq_lib::to_multiset_len(served);
    vstd::seq_lib::to_multiset_len(items);
    vstd::seq_lib::lemma_multiset_commutative(items_of(m, user), served);
}

/// A position within the list removes exactly the item at that position:
/// the list gets shorter by one, the items before it stay where they are,
/// those behind it move up by one, and every other user's entry is as it
/// was. Any other position is refused.
pub proof fn lemma_give_back_removes_one(m: LedgerModel, user: Seq<char>, index: int)
    requires
        m.contains_key(user),
    ensures
        1 <= index <= m[user].len() ==> {
            &&& gave_back(m, user, index) is Ok
            &&& items_of(gave_back(m, user, index)->Ok_0, user).len() == m[user].len() - 1
            &&& forall|j: int|
                0 <= j < index - 1 ==> items_of(gave_back(m, user, index)->Ok_0, user)[j]
                    == m[user][j]
            &&& forall|j: int|
                index - 1 <= j < m[user].len() - 1 ==> items_of(
                    gave_back(m, user, index)->Ok_0,
                    user,
                )[j] == m[user][j + 1]
            &&& forall|other: Seq<char>|
                other != user ==> listed(gave_back(m, user, index)->Ok_0, other) == listed(
                    m,
                    other,
                )
        },
        !(1 <= index <= m[user].len()) ==> gave_back(m, user, index) == Err::<
            LedgerModel,
            LedgerError,
        >(LedgerError::IndexOutOfRange),
{
}

/// A user without an entry is told `NotFound`, whatever was asked.
pub proof fn lemma_unknown_user(m: LedgerModel, user: Seq<char>, index: int)
    requires
        !m.contains_key(user),
    ensures
        listed(m, user) == Err::<Seq<Seq<char>>, LedgerError>(LedgerError::NotFound),
        gave_back(m, user, index) == Err::<LedgerModel, LedgerError>(LedgerError::NotFound),
{
}

} // verus!
