//! Persistent agent memory: facts by key, kept in one file.
//!
//! Only the index of keys goes into a prompt; a value is read when it is asked for.

use vstd::prelude::*;
use crate::assoc::{find, lemma_lookup_entry, lookup};
use crate::order::{
    before, comes_before, lemma_before_asymmetric, lemma_before_total, lemma_before_transitive,
};
use crate::text::{begins_with, lemma_occurs_between, occurs, occurs_at, same};

verus! {

/// `std::path::PathBuf`, carried through as it is.
#[verifier::external_type_specification]
#[verifier::external_body]
pub struct ExPathBuf(std::path::PathBuf);

// ---------------------------------------------------------------------------
// The model

/// Whether the keys come strictly one after the other.
pub open spec fn ascending(keys: Seq<Seq<char>>) -> bool {
    forall|i: int, j: int|
        0 <= i < j < keys.len() ==> before(#[trigger] keys[i], #[trigger] keys[j])
}

/// Whether `keys` lists the keys of the facts, each once, in ascending order.
pub open spec fn lists_keys(keys: Seq<Seq<char>>, facts: Map<Seq<char>, Seq<char>>) -> bool {
    &&& ascending(keys)
    &&& forall|key: Seq<char>| #[trigger] keys.contains(key) <==> facts.dom().contains(key)
}

/// The keys of entries, in their order.
pub open spec fn keys_of(entries: Seq<(Seq<char>, Seq<char>)>) -> Seq<Seq<char>> {
    Seq::new(entries.len(), |i: int| entries[i].0)
}

/// Whether `entries` lists the facts, each once, by key in ascending order.
pub open spec fn lists_facts(
    entries: Seq<(Seq<char>, Seq<char>)>,
    facts: Map<Seq<char>, Seq<char>>,
) -> bool {
    &&& lists_keys(keys_of(entries), facts)
    &&& forall|i: int| 0 <= i < entries.len() ==> facts[(#[trigger] entries[i]).0] == entries[i].1
}

/// One line for each key, and nothing of the values.
pub open spec fn index_text(keys: Seq<Seq<char>>) -> Seq<char>
    decreases keys.len(),
{
    if keys.len() == 0 {
        Seq::empty()
    } else {
        index_text(keys.drop_last()) + "- "@ + keys.last() + seq!['\n']
    }
}

/// Facts have one list of keys.
pub proof fn law_key_list_is_unique(
    a: Seq<Seq<char>>,
    b: Seq<Seq<char>>,
    facts: Map<Seq<char>, Seq<char>>,
)
    requires
        lists_keys(a, facts),
        lists_keys(b, facts),
    ensures
        a == b,
    decreases a.len(),
{
    if a.len() == 0 {
        if b.len() > 0 {
            assert(b.contains(b[0]));
            assert(a.contains(b[0]));
        }
        assert(a =~= b);
    } else {
        assert(a.contains(a.last()));
        assert(b.contains(a.last()));
        assert(b.contains(b.last()));
        assert(a.contains(b.last()));
        let i = choose|i: int| 0 <= i < b.len() && b[i] == a.last();
        let j = choose|j: int| 0 <= j < a.len() && a[j] == b.last();
        lemma_before_asymmetric(a.last(), b.last());
        if i < b.len() - 1 {
            assert(before(b[i], b[b.len() - 1]));
            if j < a.len() - 1 {
                assert(before(a[j], a[a.len() - 1]));
            }
        }
        assert(a.last() == b.last());
        let last = a.last();
        let fewer = facts.remove(last);
        lemma_drop_last_lists(a, facts);
        lemma_drop_last_lists(b, facts);
        law_key_list_is_unique(a.drop_last(), b.drop_last(), fewer);
        assert(a =~= a.drop_last().push(last));
        assert(b =~= b.drop_last().push(last));
    }
}

proof fn lemma_drop_last_lists(keys: Seq<Seq<char>>, facts: Map<Seq<char>, Seq<char>>)
    requires
        lists_keys(keys, facts),
        keys.len() > 0,
    ensures
        lists_keys(keys.drop_last(), facts.remove(keys.last())),
{
    let rest = keys.drop_last();
    let fewer = facts.remove(keys.last());
    assert(ascending(rest)) by {
        assert forall|i: int, j: int| 0 <= i < j < rest.len() implies before(
            #[trigger] rest[i],
            #[trigger] rest[j],
        ) by {
            assert(before(keys[i], keys[j]));
        }
    }
    assert forall|key: Seq<char>| #[trigger] rest.contains(key) <==> fewer.dom().contains(key) by {
        assert(keys.contains(key) <==> facts.dom().contains(key));
        if rest.contains(key) {
            let i = choose|i: int| 0 <= i < rest.len() && rest[i] == key;
            assert(keys[i] == key);
            assert(keys.contains(key));
            assert(before(keys[i], keys[keys.len() - 1]));
            lemma_before_asymmetric(key, key);
        }
        if fewer.dom().contains(key) {
            let i = choose|i: int| 0 <= i < keys.len() && keys[i] == key;
            assert(rest[i] == key);
        }
    }
}

/// The index shows keys and no values: facts with the same keys have the same index.
pub proof fn law_index_holds_no_values(
    a: Seq<Seq<char>>,
    facts: Map<Seq<char>, Seq<char>>,
    b: Seq<Seq<char>>,
    others: Map<Seq<char>, Seq<char>>,
)
    requires
        lists_keys(a, facts),
        lists_keys(b, others),
        facts.dom() == others.dom(),
    ensures
        index_text(a) == index_text(b),
{
    assert(lists_keys(b, facts));
    law_key_list_is_unique(a, b, facts);
}

// ---------------------------------------------------------------------------
// Memory

/// Facts by key.
#[derive(Debug, PartialEq, Eq)]
pub struct Memory {
    entries: Vec<(String, String)>,
}

spec fn facts_of(entries: Seq<(Seq<char>, Seq<char>)>) -> Map<Seq<char>, Seq<char>> {
    Map::new(
        |key: Seq<char>| lookup(entries, key) is Some,
        |key: Seq<char>| lookup(entries, key)->0,
    )
}

impl View for Memory {
    type V = Map<Seq<char>, Seq<char>>;

    closed spec fn view(&self) -> Map<Seq<char>, Seq<char>> {
        facts_of(self.entries.deep_view())
    }
}

proof fn lemma_lookup_at(entries: Seq<(Seq<char>, Seq<char>)>, i: int)
    requires
        ascending(keys_of(entries)),
        0 <= i < entries.len(),
    ensures
        lookup(entries, entries[i].0) == Some(entries[i].1),
{
    lemma_lookup_entry(entries, entries[i].0);
    if let Some(value) = lookup(entries, entries[i].0) {
        let j = choose|j: int|
            0 <= j < entries.len() && (#[trigger] entries[j]).0 == entries[i].0 && entries[j].1
                == value;
        lemma_before_asymmetric(entries[i].0, entries[i].0);
        let keys = keys_of(entries);
        if i < j {
            assert(before(keys[i], keys[j]));
        }
        if j < i {
            assert(before(keys[j], keys[i]));
        }
    }
}

proof fn lemma_keys_listed(entries: Seq<(Seq<char>, Seq<char>)>)
    requires
        ascending(keys_of(entries)),
    ensures
        lists_keys(keys_of(entries), facts_of(entries)),
{
    let keys = keys_of(entries);
    assert forall|key: Seq<char>| #[trigger] keys.contains(key) <==> facts_of(entries).dom().contains(
        key,
    ) by {
        lemma_lookup_entry(entries, key);
        if keys.contains(key) {
            let i = choose|i: int| 0 <= i < keys.len() && keys[i] == key;
            lemma_lookup_at(entries, i);
        }
        if lookup(entries, key) is Some {
            let i = choose|i: int| 0 <= i < entries.len() && (#[trigger] entries[i]).0 == key;
            assert(keys[i] == key);
        }
    }
}

proof fn lemma_lookup_member(entries: Seq<(Seq<char>, Seq<char>)>, key: Seq<char>, value: Seq<char>)
    requires
        ascending(keys_of(entries)),
    ensures
        lookup(entries, key) == Some(value) <==> entries.contains((key, value)),
{
    lemma_lookup_entry(entries, key);
    if entries.contains((key, value)) {
        let i = choose|i: int| 0 <= i < entries.len() && entries[i] == (key, value);
        lemma_lookup_at(entries, i);
    }
}

proof fn lemma_update_contains(
    entries: Seq<(Seq<char>, Seq<char>)>,
    at: int,
    key: Seq<char>,
    value: Seq<char>,
    k: Seq<char>,
    v: Seq<char>,
)
    requires
        ascending(keys_of(entries)),
        0 <= at < entries.len(),
        entries[at].0 == key,
    ensures
        entries.update(at, (key, value)).contains((k, v)) == if k == key {
            v == value
        } else {
            entries.contains((k, v))
        },
{
    let after = entries.update(at, (key, value));
    let keys = keys_of(entries);
    lemma_before_asymmetric(key, key);
    if after.contains((k, v)) {
        let i = choose|i: int| 0 <= i < after.len() && after[i] == (k, v);
        if i < at {
            assert(before(keys[i], keys[at]));
            assert(entries[i] == (k, v));
        } else if i > at {
            assert(before(keys[at], keys[i]));
            assert(entries[i] == (k, v));
        }
    }
    if k == key && v == value {
        assert(after[at] == (k, v));
    }
    if k != key && entries.contains((k, v)) {
        let i = choose|i: int| 0 <= i < entries.len() && entries[i] == (k, v);
        assert(after[i] == (k, v));
    }
}

proof fn lemma_insert_ascending(
    entries: Seq<(Seq<char>, Seq<char>)>,
    at: int,
    key: Seq<char>,
    value: Seq<char>,
)
    requires
        ascending(keys_of(entries)),
        0 <= at <= entries.len(),
        forall|i: int| 0 <= i < at ==> before((#[trigger] entries[i]).0, key),
        forall|i: int| at <= i < entries.len() ==> !before((#[trigger] entries[i]).0, key),
        at < entries.len() ==> entries[at].0 != key,
    ensures
        ascending(keys_of(entries.insert(at, (key, value)))),
        forall|i: int| at <= i < entries.len() ==> before(key, (#[trigger] entries[i]).0),
{
    let keys = keys_of(entries);
    let after = keys_of(entries.insert(at, (key, value)));
    assert forall|i: int| at <= i < entries.len() implies before(key, (#[trigger] entries[i]).0) by {
        lemma_before_total(key, entries[at].0);
        assert(!before(entries[at].0, key));
        if i > at {
            assert(before(keys[at], keys[i]));
            lemma_before_transitive(key, entries[at].0, entries[i].0);
        }
    }
    assert forall|i: int, j: int| 0 <= i < j < after.len() implies before(
        #[trigger] after[i],
        #[trigger] after[j],
    ) by {
        let i2 = if i < at { i } else { i - 1 };
        let j2 = if j < at { j } else { j - 1 };
        if i != at && j != at {
            assert(after[i] == keys[i2] && after[j] == keys[j2]);
            assert(before(keys[i2], keys[j2]));
        } else if i == at {
            assert(after[j] == entries[j2].0);
        } else {
            assert(after[i] == entries[i2].0);
        }
    }
}

proof fn lemma_insert_contains(
    entries: Seq<(Seq<char>, Seq<char>)>,
    at: int,
    key: Seq<char>,
    value: Seq<char>,
    k: Seq<char>,
    v: Seq<char>,
)
    requires
        0 <= at <= entries.len(),
        forall|i: int| 0 <= i < at ==> before((#[trigger] entries[i]).0, key),
        forall|i: int| at <= i < entries.len() ==> before(key, (#[trigger] entries[i]).0),
    ensures
        entries.insert(at, (key, value)).contains((k, v)) == if k == key {
            v == value
        } else {
            entries.contains((k, v))
        },
{
    let after = entries.insert(at, (key, value));
    lemma_before_asymmetric(key, key);
    if after.contains((k, v)) {
        let i = choose|i: int| 0 <= i < after.len() && after[i] == (k, v);
        if i < at {
            assert(entries[i] == (k, v));
        } else if i > at {
            assert(entries[i - 1] == (k, v));
        }
    }
    if k == key && v == value {
        assert(after[at] == (k, v));
    }
    if k != key && entries.contains((k, v)) {
        let i = choose|i: int| 0 <= i < entries.len() && entries[i] == (k, v);
        if i < at {
            assert(after[i] == (k, v));
        } else {
            assert(after[i + 1] == (k, v));
        }
    }
}

proof fn lemma_remove_entry(entries: Seq<(Seq<char>, Seq<char>)>, at: int)
    requires
        ascending(keys_of(entries)),
        0 <= at < entries.len(),
    ensures
        ascending(keys_of(entries.remove(at))),
        forall|k: Seq<char>| #[trigger]
            lookup(entries.remove(at), k) == if k == entries[at].0 {
                None
            } else {
                lookup(entries, k)
            },
{
    let after = entries.remove(at);
    let keys = keys_of(entries);
    let rest = keys_of(after);
    assert forall|i: int, j: int| 0 <= i < j < rest.len() implies before(
        #[trigger] rest[i],
        #[trigger] rest[j],
    ) by {
        let i2 = if i < at { i } else { i + 1 };
        let j2 = if j < at { j } else { j + 1 };
        assert(rest[i] == keys[i2] && rest[j] == keys[j2]);
        assert(before(keys[i2], keys[j2]));
    }
    assert forall|k: Seq<char>| #[trigger] lookup(after, k) == if k == entries[at].0 {
        None
    } else {
        lookup(entries, k)
    } by {
        lemma_lookup_entry(after, k);
        lemma_lookup_entry(entries, k);
        lemma_before_asymmetric(k, k);
        if let Some(v) = lookup(after, k) {
            let i = choose|i: int|
                0 <= i < after.len() && (#[trigger] after[i]).0 == k && after[i].1 == v;
            let i2 = if i < at { i } else { i + 1 };
            assert(entries[i2] == (k, v));
            lemma_lookup_at(entries, i2);
            if i2 < at {
                assert(before(keys[i2], keys[at]));
            } else {
                assert(before(keys[at], keys[i2]));
            }
        }
        if let Some(v) = lookup(entries, k) {
            if k != entries[at].0 {
                let i = choose|i: int|
                    0 <= i < entries.len() && (#[trigger] entries[i]).0 == k && entries[i].1 == v;
                let i2 = if i < at { i } else { i - 1 };
                assert(after[i2] == (k, v));
                lemma_lookup_at(after, i2);
            }
        }
    }
}

proof fn lemma_absent(entries: Seq<(Seq<char>, Seq<char>)>, at: int, key: Seq<char>)
    requires
        ascending(keys_of(entries)),
        0 <= at <= entries.len(),
        forall|i: int| 0 <= i < at ==> before((#[trigger] entries[i]).0, key),
        forall|i: int| at <= i < entries.len() ==> !before((#[trigger] entries[i]).0, key),
        at < entries.len() ==> entries[at].0 != key,
    ensures
        lookup(entries, key) is None,
{
    lemma_lookup_entry(entries, key);
    lemma_insert_ascending(entries, at, key, key);
    lemma_before_asymmetric(key, key);
    if lookup(entries, key) is Some {
        let i = choose|i: int| 0 <= i < entries.len() && (#[trigger] entries[i]).0 == key;
        if i >= at {
            assert(before(key, entries[i].0));
        }
    }
}

/// Where the key is, or where it belongs.
fn position_for(entries: &Vec<(String, String)>, key: &str) -> (r: usize)
    requires
        ascending(keys_of(entries.deep_view())),
    ensures
        r <= entries@.len(),
        forall|i: int| 0 <= i < r ==> before((#[trigger] entries.deep_view()[i]).0, key@),
        forall|i: int| r <= i < entries@.len() ==> !before((#[trigger] entries.deep_view()[i]).0, key@),
{
    let mut i: usize = 0;
    let ghost models = entries.deep_view();
    while i < entries.len()
        invariant
            i <= entries@.len(),
            models == entries.deep_view(),
            ascending(keys_of(models)),
            forall|j: int| 0 <= j < i ==> before((#[trigger] models[j]).0, key@),
        decreases entries@.len() - i,
    {
        if !comes_before(entries[i].0.as_str(), key) {
            proof {
                assert forall|j: int| i <= j < models.len() implies !before(
                    (#[trigger] models[j]).0,
                    key@,
                ) by {
                    if j > i && before(models[j].0, key@) {
                        let keys = keys_of(models);
                        assert(before(keys[i as int], keys[j]));
                        lemma_before_transitive(models[i as int].0, models[j].0, key@);
                    }
                }
            }
            return i;
        }
        assert(models[i as int].0 == entries@[i as int].0@);
        i = i + 1;
    }
    i
}

impl Memory {
    #[verifier::type_invariant]
    spec fn valid(self) -> bool {
        ascending(keys_of(self.entries.deep_view()))
    }

    /// The memory of these facts; of two facts under one key the later one stays.
    pub fn from_entries(facts: &Vec<(String, String)>) -> (r: Memory)
        ensures
            r@ == remembered_all(Map::empty(), facts.deep_view()),
    {
        let mut memory = Memory::default();
        let ghost models = facts.deep_view();
        let mut i: usize = 0;
        while i < facts.len()
            invariant
                i <= facts@.len(),
                models == facts.deep_view(),
                memory@ == remembered_all(Map::empty(), models.take(i as int)),
            decreases facts@.len() - i,
        {
            memory.remember(facts[i].0.as_str(), facts[i].1.as_str());
            proof {
                assert(models.take(i + 1).drop_last() =~= models.take(i as int));
            }
            i = i + 1;
        }
        assert(models.take(models.len() as int) =~= models);
        memory
    }

    /// The facts, by key in ascending order.
    pub fn entries(&self) -> (r: &Vec<(String, String)>)
        ensures
            lists_facts(r.deep_view(), self@),
    {
        proof {
            use_type_invariant(self);
            let models = self.entries.deep_view();
            lemma_keys_listed(models);
            assert forall|i: int| 0 <= i < models.len() implies self@[(#[trigger] models[i]).0]
                == models[i].1 by {
                lemma_lookup_at(models, i);
            }
        }
        &self.entries
    }

    /// Stores a fact under a key, in place of any that was there.
    pub fn remember(&mut self, key: &str, value: &str)
        ensures
            final(self)@ == old(self)@.insert(key@, value@),
    {
        proof {
            use_type_invariant(&*self);
        }
        let ghost facts = self@;
        let mut entries: Vec<(String, String)> = Vec::new();
        std::mem::swap(&mut entries, &mut self.entries);
        let ghost models = entries.deep_view();
        let at = position_for(&entries, key);
        let ghost after;
        if at < entries.len() && same(entries[at].0.as_str(), key) {
            entries.set(at, (key.to_owned(), value.to_owned()));
            proof {
                after = models.update(at as int, (key@, value@));
                assert(entries.deep_view() =~= after);
                assert(keys_of(after) =~= keys_of(models));
                assert forall|k: Seq<char>, v: Seq<char>|
                    #[trigger] after.contains((k, v)) == if k == key@ {
                        v == value@
                    } else {
                        models.contains((k, v))
                    } by {
                    lemma_update_contains(models, at as int, key@, value@, k, v);
                }
            }
        } else {
            entries.insert(at, (key.to_owned(), value.to_owned()));
            proof {
                after = models.insert(at as int, (key@, value@));
                assert(entries.deep_view() =~= after);
                lemma_insert_ascending(models, at as int, key@, value@);
                assert forall|k: Seq<char>, v: Seq<char>|
                    #[trigger] after.contains((k, v)) == if k == key@ {
                        v == value@
                    } else {
                        models.contains((k, v))
                    } by {
                    lemma_insert_contains(models, at as int, key@, value@, k, v);
                }
            }
        }
        proof {
            assert forall|k: Seq<char>| #[trigger] lookup(after, k) == if k == key@ {
                Some(value@)
            } else {
                lookup(models, k)
            } by {
                lemma_lookup_member(after, k, value@);
                if k != key@ {
                    if let Some(v) = lookup(models, k) {
                        lemma_lookup_member(models, k, v);
                        lemma_lookup_member(after, k, v);
                    }
                    if let Some(v) = lookup(after, k) {
                        lemma_lookup_member(models, k, v);
                        lemma_lookup_member(after, k, v);
                    }
                }
            }
            assert(facts_of(after) =~= facts.insert(key@, value@));
        }
        self.entries = entries;
    }

    /// The fact stored under a key.
    pub fn recall(&self, key: &str) -> (r: Option<&str>)
        ensures
            r.deep_view() == (if self@.dom().contains(key@) {
                Some(self@[key@])
            } else {
                None
            }),
    {
        match find(&self.entries, key) {
            Some(value) => Some(value.as_str()),
            None => None,
        }
    }

    /// Removes the fact stored under a key; whether there was one.
    pub fn forget(&mut self, key: &str) -> (r: bool)
        ensures
            r == old(self)@.dom().contains(key@),
            final(self)@ == old(self)@.remove(key@),
    {
        proof {
            use_type_invariant(&*self);
        }
        let ghost facts = self@;
        let mut entries: Vec<(String, String)> = Vec::new();
        std::mem::swap(&mut entries, &mut self.entries);
        let ghost models = entries.deep_view();
        let at = position_for(&entries, key);
        if at < entries.len() && same(entries[at].0.as_str(), key) {
            entries.remove(at);
            proof {
                let after = models.remove(at as int);
                assert(entries.deep_view() =~= after);
                lemma_lookup_at(models, at as int);
                lemma_remove_entry(models, at as int);
                assert(facts_of(after) =~= facts.remove(key@));
            }
            self.entries = entries;
            true
        } else {
            proof {
                lemma_absent(models, at as int, key@);
                assert(facts.remove(key@) =~= facts);
            }
            self.entries = entries;
            false
        }
    }

    /// The keys in ascending order.
    pub fn keys(&self) -> (r: Vec<&str>)
        ensures
            lists_keys(r.deep_view(), self@),
    {
        proof {
            use_type_invariant(self);
        }
        let ghost models = self.entries.deep_view();
        let mut out: Vec<&str> = Vec::new();
        let mut i: usize = 0;
        while i < self.entries.len()
            invariant
                i <= self.entries@.len(),
                models == self.entries.deep_view(),
                out.deep_view() == keys_of(models).take(i as int),
            decreases self.entries@.len() - i,
        {
            let ghost done = out.deep_view();
            let key = self.entries[i].0.as_str();
            out.push(key);
            assert(out.deep_view() =~= done.push(key@));
            i = i + 1;
            assert(out.deep_view() =~= keys_of(models).take(i as int));
        }
        proof {
            assert(out.deep_view() =~= keys_of(models));
            lemma_keys_listed(models);
        }
        out
    }

    /// Whether there are no facts.
    pub fn is_empty(&self) -> (r: bool)
        ensures
            r == (self@ == Map::<Seq<char>, Seq<char>>::empty()),
    {
        proof {
            use_type_invariant(self);
            let models = self.entries.deep_view();
            if models.len() > 0 {
                lemma_lookup_at(models, 0);
                assert(self@.dom().contains(models[0].0));
            } else {
                assert(self@ =~= Map::empty());
            }
        }
        self.entries.len() == 0
    }

    /// The index of keys for a prompt: one line for each key, in ascending order.
    pub fn index_prompt(&self) -> (r: String)
        ensures
            forall|keys: Seq<Seq<char>>| #[trigger] lists_keys(keys, self@) ==> r@ == index_text(keys),
            exists|keys: Seq<Seq<char>>| #[trigger] lists_keys(keys, self@),
    {
        proof {
            use_type_invariant(self);
        }
        let ghost models = self.entries.deep_view();
        let mut out = String::new();
        let mut i: usize = 0;
        assert(keys_of(models).take(0) =~= Seq::empty());
        assert(out@ =~= Seq::<char>::empty());
        while i < self.entries.len()
            invariant
                i <= self.entries@.len(),
                models == self.entries.deep_view(),
                out@ == index_text(keys_of(models).take(i as int)),
            decreases self.entries@.len() - i,
        {
            out.append("- ");
            out.append(self.entries[i].0.as_str());
            out.push('\n');
            proof {
                let next = keys_of(models).take(i + 1);
                assert(next.drop_last() =~= keys_of(models).take(i as int));
                assert(out@ =~= index_text(next));
            }
            i = i + 1;
        }
        proof {
            assert(keys_of(models).take(models.len() as int) =~= keys_of(models));
            lemma_keys_listed(models);
            assert(lists_keys(keys_of(models), self@));
            assert forall|keys: Seq<Seq<char>>| #[trigger] lists_keys(keys, self@) implies out@
                == index_text(keys) by {
                law_key_list_is_unique(keys, keys_of(models), self@);
            }
        }
        out
    }
}

impl Default for Memory {
    fn default() -> (r: Memory)
        ensures
            r@ == Map::<Seq<char>, Seq<char>>::empty(),
    {
        let r = Memory { entries: Vec::new() };
        assert(r@ =~= Map::empty());
        r
    }
}

/// The facts with each of `more` stored in turn.
pub open spec fn remembered_all(
    facts: Map<Seq<char>, Seq<char>>,
    more: Seq<(Seq<char>, Seq<char>)>,
) -> Map<Seq<char>, Seq<char>>
    decreases more.len(),
{
    if more.len() == 0 {
        facts
    } else {
        remembered_all(facts, more.drop_last()).insert(more.last().0, more.last().1)
    }
}

impl Clone for Memory {
    fn clone(&self) -> (r: Memory)
        ensures
            r@ == self@,
    {
        proof {
            use_type_invariant(self);
        }
        let mut entries: Vec<(String, String)> = Vec::new();
        let mut i: usize = 0;
        while i < self.entries.len()
            invariant
                i <= self.entries@.len(),
                entries@ == self.entries@.take(i as int),
            decreases self.entries@.len() - i,
        {
            entries.push((self.entries[i].0.clone(), self.entries[i].1.clone()));
            i = i + 1;
            assert(entries@ =~= self.entries@.take(i as int));
        }
        assert(entries@ =~= self.entries@);
        assert(entries.deep_view() =~= self.entries.deep_view());
        Memory { entries }
    }
}

/// What a stored fact is recalled as, and that storing and removing facts leaves
/// every other fact alone.
pub proof fn law_recall_after_change(
    facts: Map<Seq<char>, Seq<char>>,
    key: Seq<char>,
    value: Seq<char>,
    other: Seq<char>,
)
    requires
        other != key,
    ensures
        facts.insert(key, value).dom().contains(key),
        facts.insert(key, value)[key] == value,
        !facts.remove(key).dom().contains(key),
        facts.insert(key, value).dom().contains(other) == facts.dom().contains(other),
        facts.remove(key).dom().contains(other) == facts.dom().contains(other),
        facts.dom().contains(other) ==> facts.insert(key, value)[other] == facts[other]
            && facts.remove(key)[other] == facts[other],
{
}

/// What was written is read back: the facts that a list of all facts gives are those facts.
pub proof fn law_listed_facts_are_read_back(
    entries: Seq<(Seq<char>, Seq<char>)>,
    facts: Map<Seq<char>, Seq<char>>,
)
    requires
        lists_facts(entries, facts),
    ensures
        remembered_all(Map::empty(), entries) == facts,
    decreases entries.len(),
{
    let keys = keys_of(entries);
    if entries.len() == 0 {
        assert forall|key: Seq<char>| !facts.dom().contains(key) by {
            assert(!keys.contains(key));
        }
        assert(facts =~= Map::empty());
    } else {
        let rest = entries.drop_last();
        let last = entries.last();
        let fewer = facts.remove(last.0);
        lemma_drop_last_lists(keys, facts);
        assert(keys_of(rest) =~= keys.drop_last());
        assert forall|i: int| 0 <= i < rest.len() implies fewer[(#[trigger] rest[i]).0]
            == rest[i].1 by {
            assert(rest[i] == entries[i]);
            assert(before(keys[i], keys[keys.len() - 1]));
            lemma_before_asymmetric(last.0, last.0);
        }
        law_listed_facts_are_read_back(rest, fewer);
        assert(keys.contains(keys[keys.len() - 1]));
        assert(facts.dom().contains(last.0));
        assert(facts =~= fewer.insert(last.0, last.1));
    }
}

// ---------------------------------------------------------------------------
// The store

/// What reading the memory file gave.
#[derive(Debug)]
pub enum MemoryFile {
    /// The facts in the file.
    Facts(Vec<(String, String)>),
    /// The file holds something else.
    Invalid,
    /// There is no file.
    Missing,
    /// The file could not be read.
    Unreadable,
}

/// Memory and the file that it is kept in.
#[derive(Debug)]
pub struct MemoryStore {
    path: std::path::PathBuf,
    memory: Memory,
}

impl View for MemoryStore {
    type V = Map<Seq<char>, Seq<char>>;

    closed spec fn view(&self) -> Map<Seq<char>, Seq<char>> {
        self.memory@
    }
}

impl MemoryStore {
    /// The file that the store is kept in.
    pub closed spec fn file(&self) -> std::path::PathBuf {
        self.path
    }

    /// A store kept in that file, which is not read yet.
    pub fn new(path: std::path::PathBuf) -> (r: MemoryStore)
        ensures
            r.file() == path,
            r@ == Map::<Seq<char>, Seq<char>>::empty(),
    {
        MemoryStore { path, memory: Memory::default() }
    }

    /// The store that reading the file gives; `shown` is the file's path as text. A
    /// missing file is empty memory. A file that cannot be read, or holds something
    /// else, is an error, so that nothing unreadable is overwritten.
    pub fn load(path: std::path::PathBuf, shown: &str, file: MemoryFile) -> (r: Result<
        MemoryStore,
        String,
    >)
        ensures
            match file {
                MemoryFile::Facts(facts) => r matches Ok(store) && store.file() == path && store@
                    == remembered_all(Map::empty(), facts.deep_view()),
                MemoryFile::Missing => r matches Ok(store) && store.file() == path && store@
                    == Map::<Seq<char>, Seq<char>>::empty(),
                MemoryFile::Invalid => r matches Err(error) && error@ == "parsing memory file "@
                    + shown@,
                MemoryFile::Unreadable => r matches Err(error) && error@ == "reading memory file "@
                    + shown@,
            },
    {
        match file {
            MemoryFile::Facts(facts) => Ok(
                MemoryStore { path, memory: Memory::from_entries(&facts) },
            ),
            MemoryFile::Missing => Ok(MemoryStore { path, memory: Memory::default() }),
            MemoryFile::Invalid => {
                let mut error = "parsing memory file ".to_owned();
                error.append(shown);
                Err(error)
            },
            MemoryFile::Unreadable => {
                let mut error = "reading memory file ".to_owned();
                error.append(shown);
                Err(error)
            },
        }
    }

    /// The file that the store is kept in.
    pub fn path(&self) -> (r: &std::path::PathBuf)
        ensures
            *r == self.file(),
    {
        &self.path
    }

    /// The facts, to be written to the file.
    pub fn memory(&self) -> (r: &Memory)
        ensures
            r@ == self@,
    {
        &self.memory
    }

    /// Stores a fact. The memory is then to be written to the file.
    pub fn remember(&mut self, key: &str, value: &str)
        ensures
            final(self)@ == old(self)@.insert(key@, value@),
            final(self).file() == old(self).file(),
    {
        self.memory.remember(key, value);
    }

    /// The fact stored under a key.
    pub fn recall(&self, key: &str) -> (r: Option<&str>)
        ensures
            r.deep_view() == (if self@.dom().contains(key@) {
                Some(self@[key@])
            } else {
                None
            }),
    {
        self.memory.recall(key)
    }

    /// Removes a fact; whether there was one. Exactly then the memory has changed and
    /// is to be written to the file.
    pub fn forget(&mut self, key: &str) -> (r: bool)
        ensures
            r == old(self)@.dom().contains(key@),
            r == (final(self)@ != old(self)@),
            final(self)@ == old(self)@.remove(key@),
            final(self).file() == old(self).file(),
    {
        let r = self.memory.forget(key);
        proof {
            if !r {
                assert(old(self)@.remove(key@) =~= old(self)@);
            } else {
                assert(!self@.dom().contains(key@));
            }
        }
        r
    }

    /// The keys in ascending order.
    pub fn keys(&self) -> (r: Vec<&str>)
        ensures
            lists_keys(r.deep_view(), self@),
    {
        self.memory.keys()
    }

    /// Whether there are no facts.
    pub fn is_empty(&self) -> (r: bool)
        ensures
            r == (self@ == Map::<Seq<char>, Seq<char>>::empty()),
    {
        self.memory.is_empty()
    }

    /// The index of keys for a prompt: one line for each key, in ascending order.
    pub fn index_prompt(&self) -> (r: String)
        ensures
            forall|keys: Seq<Seq<char>>| #[trigger] lists_keys(keys, self@) ==> r@ == index_text(keys),
            exists|keys: Seq<Seq<char>>| #[trigger] lists_keys(keys, self@),
    {
        let r = self.memory.index_prompt();
        proof {
            let keys = choose|keys: Seq<Seq<char>>| #[trigger] lists_keys(keys, self.memory@);
            assert(lists_keys(keys, self@));
        }
        r
    }
}

/// The index names each key on a line of its own, and a further key adds its line and
/// nothing else.
pub proof fn law_index_names_each_key(keys: Seq<Seq<char>>, next: Seq<char>, i: int)
    ensures
        index_text(Seq::empty()).len() == 0,
        begins_with(index_text(keys.push(next)), index_text(keys)),
        index_text(keys.push(next)).len() == index_text(keys).len() + next.len() + 3,
        0 <= i < keys.len() ==> occurs(index_text(keys), "- "@ + keys[i] + seq!['\n']),
    decreases keys.len(),
{
    reveal_strlit("- ");
    assert(keys.push(next).drop_last() =~= keys);
    let longer = index_text(keys.push(next));
    assert(longer.take(index_text(keys).len() as int) =~= index_text(keys));
    if 0 <= i < keys.len() {
        let front = index_text(keys.drop_last());
        let line = "- "@ + keys[i] + seq!['\n'];
        let nothing = Seq::<char>::empty();
        if i == keys.len() - 1 {
            assert(index_text(keys) =~= front + line + nothing);
            lemma_occurs_between(index_text(keys), front, line, nothing);
        } else {
            law_index_names_each_key(keys.drop_last(), next, i);
            let at = choose|at: int| occurs_at(front, line, at);
            assert(index_text(keys).subrange(at, at + line.len()) =~= front.subrange(
                at,
                at + line.len(),
            ));
            assert(occurs_at(index_text(keys), line, at));
        }
    }
}

/// Of facts stored one after the other the last under a key is known, and the others stay.
pub proof fn law_last_fact_counts(
    facts: Map<Seq<char>, Seq<char>>,
    more: Seq<(Seq<char>, Seq<char>)>,
    key: Seq<char>,
    value: Seq<char>,
    other: Seq<char>,
)
    ensures
        remembered_all(facts, Seq::empty()) == facts,
        remembered_all(facts, more.push((key, value))).dom().contains(key),
        remembered_all(facts, more.push((key, value)))[key] == value,
        other != key ==> {
            let before = remembered_all(facts, more);
            let after = remembered_all(facts, more.push((key, value)));
            &&& after.dom().contains(other) <==> before.dom().contains(other)
            &&& before.dom().contains(other) ==> after[other] == before[other]
        },
{
    assert(more.push((key, value)).drop_last() =~= more);
}

} // verus!
