//! Lists of named values: small maps that keep the order in which names came.
//!
//! Putting a value under a name that is there replaces the value where it stands;
//! under a new name it goes to the end. A list that was filled in this way holds
//! each name once.

use vstd::prelude::*;
use crate::text::same;

verus! {

/// The value of the first entry of that name.
pub open spec fn lookup<V>(entries: Seq<(Seq<char>, V)>, name: Seq<char>) -> Option<V>
    decreases entries.len(),
{
    if entries.len() == 0 {
        None
    } else if entries[0].0 == name {
        Some(entries[0].1)
    } else {
        lookup(entries.drop_first(), name)
    }
}

/// The entries with that value under that name.
pub open spec fn put<V>(entries: Seq<(Seq<char>, V)>, name: Seq<char>, value: V) -> Seq<
    (Seq<char>, V),
>
    decreases entries.len(),
{
    if entries.len() == 0 {
        seq![(name, value)]
    } else if entries[0].0 == name {
        seq![(name, value)] + entries.drop_first()
    } else {
        seq![entries[0]] + put(entries.drop_first(), name, value)
    }
}

/// The entries with each of `extra` put in turn.
pub open spec fn put_all<V>(entries: Seq<(Seq<char>, V)>, extra: Seq<(Seq<char>, V)>) -> Seq<
    (Seq<char>, V),
>
    decreases extra.len(),
{
    if extra.len() == 0 {
        entries
    } else {
        put(put_all(entries, extra.drop_last()), extra.last().0, extra.last().1)
    }
}

/// The entries but for the first of that name.
pub open spec fn without<V>(entries: Seq<(Seq<char>, V)>, name: Seq<char>) -> Seq<(Seq<char>, V)>
    decreases entries.len(),
{
    if entries.len() == 0 {
        entries
    } else if entries[0].0 == name {
        entries.drop_first()
    } else {
        seq![entries[0]] + without(entries.drop_first(), name)
    }
}

/// Whether no name stands twice.
pub open spec fn distinct<V>(entries: Seq<(Seq<char>, V)>) -> bool {
    forall|i: int, j: int|
        0 <= i < j < entries.len() ==> (#[trigger] entries[i]).0 != (#[trigger] entries[j]).0
}

/// The first entry of that name is at `at`, or there is none where `at` is the length.
spec fn first_at<V>(entries: Seq<(Seq<char>, V)>, name: Seq<char>, at: int) -> bool {
    &&& 0 <= at <= entries.len()
    &&& forall|i: int| 0 <= i < at ==> (#[trigger] entries[i]).0 != name
    &&& at < entries.len() ==> entries[at].0 == name
}

proof fn lemma_first_at<V>(entries: Seq<(Seq<char>, V)>, name: Seq<char>, value: V, at: int)
    requires
        first_at(entries, name, at),
    ensures
        at < entries.len() ==> {
            &&& lookup(entries, name) == Some(entries[at].1)
            &&& put(entries, name, value) == entries.update(at, (name, value))
            &&& without(entries, name) == entries.remove(at)
        },
        at == entries.len() ==> {
            &&& lookup(entries, name) is None
            &&& put(entries, name, value) == entries.push((name, value))
            &&& without(entries, name) == entries
        },
    decreases entries.len(),
{
    if entries.len() == 0 {
        assert(put(entries, name, value) =~= entries.push((name, value)));
    } else if at == 0 {
        assert(put(entries, name, value) =~= entries.update(0, (name, value)));
        assert(without(entries, name) =~= entries.remove(0));
    } else {
        let rest = entries.drop_first();
        assert forall|i: int| 0 <= i < at - 1 implies (#[trigger] rest[i]).0 != name by {
            assert(rest[i] == entries[i + 1]);
        }
        lemma_first_at(rest, name, value, at - 1);
        assert(entries[0].0 != name);
        if at < entries.len() {
            assert(put(entries, name, value) =~= entries.update(at, (name, value)));
            assert(without(entries, name) =~= entries.remove(at));
        } else {
            assert(put(entries, name, value) =~= entries.push((name, value)));
            assert(without(entries, name) =~= entries);
        }
    }
}

/// Where the first entry of that name is.
spec fn first_position<V>(entries: Seq<(Seq<char>, V)>, name: Seq<char>) -> int
    decreases entries.len(),
{
    if entries.len() == 0 || entries[0].0 == name {
        0
    } else {
        1 + first_position(entries.drop_first(), name)
    }
}

proof fn lemma_first_position<V>(entries: Seq<(Seq<char>, V)>, name: Seq<char>)
    ensures
        first_at(entries, name, first_position(entries, name)),
    decreases entries.len(),
{
    if entries.len() > 0 && entries[0].0 != name {
        let rest = entries.drop_first();
        lemma_first_position(rest, name);
        let at = first_position(rest, name);
        assert forall|i: int| 0 <= i < at + 1 implies (#[trigger] entries[i]).0 != name by {
            if i > 0 {
                assert(rest[i - 1] == entries[i]);
            }
        }
    }
}

/// What was put under a name is found under it, and every other name is untouched.
pub proof fn lemma_lookup_after_put<V>(
    entries: Seq<(Seq<char>, V)>,
    name: Seq<char>,
    value: V,
    other: Seq<char>,
)
    ensures
        lookup(put(entries, name, value), name) == Some(value),
        other != name ==> lookup(put(entries, name, value), other) == lookup(entries, other),
    decreases entries.len(),
{
    if entries.len() > 0 {
        let rest = entries.drop_first();
        let after = put(entries, name, value);
        if entries[0].0 == name {
            assert(after.drop_first() =~= rest);
        } else {
            lemma_lookup_after_put(rest, name, value, other);
            assert(after.drop_first() =~= put(rest, name, value));
        }
    } else {
        let after = put(entries, name, value);
        assert(after.drop_first() =~= entries);
    }
}

/// Putting a value keeps names distinct, and a name that is there where it stands.
pub proof fn lemma_put_keeps_distinct<V>(entries: Seq<(Seq<char>, V)>, name: Seq<char>, value: V)
    requires
        distinct(entries),
    ensures
        distinct(put(entries, name, value)),
        lookup(entries, name) is None ==> put(entries, name, value) == entries.push((name, value)),
        lookup(entries, name) is Some ==> {
            &&& put(entries, name, value).len() == entries.len()
            &&& forall|i: int|
                0 <= i < entries.len() ==> (#[trigger] put(entries, name, value)[i]).0
                    == entries[i].0
        },
{
    lemma_first_position(entries, name);
    lemma_first_at(entries, name, value, first_position(entries, name));
}

/// Of two values put under one name the second stays.
pub proof fn lemma_put_twice<V>(
    entries: Seq<(Seq<char>, V)>,
    name: Seq<char>,
    first: V,
    second: V,
)
    ensures
        put(put(entries, name, first), name, second) == put(entries, name, second),
    decreases entries.len(),
{
    let once = put(entries, name, first);
    if entries.len() == 0 || entries[0].0 == name {
        assert(put(once, name, second) =~= put(entries, name, second));
    } else {
        lemma_put_twice(entries.drop_first(), name, first, second);
        assert(once.drop_first() =~= put(entries.drop_first(), name, first));
    }
}

/// Each entry, once a value is put under a name, is the new one or one that was there.
pub proof fn lemma_put_entries<V>(
    entries: Seq<(Seq<char>, V)>,
    name: Seq<char>,
    value: V,
    i: int,
)
    requires
        0 <= i < put(entries, name, value).len(),
    ensures
        put(entries, name, value)[i] == (name, value) || (i < entries.len() && put(
            entries,
            name,
            value,
        )[i] == entries[i]),
{
    lemma_first_position(entries, name);
    lemma_first_at(entries, name, value, first_position(entries, name));
}

/// What is found under a name stands in an entry of that name.
pub proof fn lemma_lookup_entry<V>(entries: Seq<(Seq<char>, V)>, name: Seq<char>)
    ensures
        match lookup(entries, name) {
            Some(value) => exists|i: int|
                0 <= i < entries.len() && (#[trigger] entries[i]).0 == name && entries[i].1 == value,
            None => forall|i: int| 0 <= i < entries.len() ==> (#[trigger] entries[i]).0 != name,
        },
{
    if entries.len() > 0 {
        lemma_first_position(entries, name);
        let at = first_position(entries, name);
        lemma_first_at(entries, name, entries[0].1, at);
    }
}

/// A name that is not put is untouched by what is.
pub proof fn lemma_lookup_after_put_all<V>(
    entries: Seq<(Seq<char>, V)>,
    extra: Seq<(Seq<char>, V)>,
    name: Seq<char>,
)
    requires
        lookup(extra, name) is None,
    ensures
        lookup(put_all(entries, extra), name) == lookup(entries, name),
    decreases extra.len(),
{
    lemma_lookup_entry(extra, name);
    if extra.len() > 0 {
        let rest = extra.drop_last();
        lemma_lookup_entry(rest, name);
        assert(extra[extra.len() - 1].0 != name);
        assert(lookup(rest, name) is None);
        lemma_lookup_after_put_all(entries, rest, name);
        lemma_lookup_after_put(
            put_all(entries, rest),
            extra.last().0,
            extra.last().1,
            name,
        );
    }
}

/// What is found under a name is the value of the first entry of that name.
pub proof fn lemma_lookup_first<V>(entries: Seq<(Seq<char>, V)>, i: int)
    requires
        0 <= i < entries.len(),
        forall|j: int| 0 <= j < i ==> (#[trigger] entries[j]).0 != entries[i].0,
    ensures
        lookup(entries, entries[i].0) == Some(entries[i].1),
{
    lemma_first_at(entries, entries[i].0, entries[i].1, i);
}

/// Taking a name out keeps names distinct; that name is gone and every other is untouched.
pub proof fn lemma_without<V>(entries: Seq<(Seq<char>, V)>, name: Seq<char>, other: Seq<char>)
    requires
        distinct(entries),
    ensures
        distinct(without(entries, name)),
        lookup(without(entries, name), name) is None,
        other != name ==> lookup(without(entries, name), other) == lookup(entries, other),
    decreases entries.len(),
{
    if entries.len() > 0 {
        let rest = entries.drop_first();
        assert(distinct(rest)) by {
            assert forall|i: int, j: int| 0 <= i < j < rest.len() implies (#[trigger] rest[i]).0 != (
            #[trigger] rest[j]).0 by {
                assert(rest[i] == entries[i + 1]);
                assert(rest[j] == entries[j + 1]);
            }
        }
        lemma_without(rest, name, other);
        let after = without(entries, name);
        lemma_first_position(entries, name);
        let at = first_position(entries, name);
        lemma_first_at(entries, name, entries[0].1, at);
        if entries[0].0 == name {
            lemma_first_position(rest, name);
            let next = first_position(rest, name);
            if next < rest.len() {
                assert(rest[next] == entries[next + 1]);
            }
            lemma_first_at(rest, name, entries[0].1, next);
        } else {
            assert(after.drop_first() =~= without(rest, name));
        }
    }
}

/// Each entry that is left, once a name is taken out, was there.
pub proof fn lemma_without_entries<V>(entries: Seq<(Seq<char>, V)>, name: Seq<char>, i: int)
    requires
        0 <= i < without(entries, name).len(),
    ensures
        entries.contains(without(entries, name)[i]),
{
    if entries.len() > 0 {
        lemma_first_position(entries, name);
        let at = first_position(entries, name);
        lemma_first_at(entries, name, entries[0].1, at);
        if at < entries.len() && i >= at {
            assert(entries[i + 1] == without(entries, name)[i]);
        } else {
            assert(entries[i] == without(entries, name)[i]);
        }
    }
}

/// Taking out a name that is not there changes nothing.
pub proof fn lemma_without_absent<V>(entries: Seq<(Seq<char>, V)>, name: Seq<char>)
    requires
        lookup(entries, name) is None,
    ensures
        without(entries, name) == entries,
{
    lemma_first_position(entries, name);
    if entries.len() > 0 {
        lemma_first_at(entries, name, entries[0].1, first_position(entries, name));
    }
}

// ---------------------------------------------------------------------------
// Executable lists

/// Where the first entry of that name is.
fn position_of<V: DeepView>(entries: &Vec<(String, V)>, name: &str) -> (r: usize)
    ensures
        first_at(entries.deep_view(), name@, r as int),
{
    let mut i: usize = 0;
    while i < entries.len()
        invariant
            i <= entries@.len(),
            forall|j: int| 0 <= j < i ==> (#[trigger] entries.deep_view()[j]).0 != name@,
        decreases entries@.len() - i,
    {
        assert(entries.deep_view()[i as int].0 == entries@[i as int].0@);
        if same(entries[i].0.as_str(), name) {
            return i;
        }
        i = i + 1;
    }
    i
}

/// The value of that name.
pub fn find<'a, V: DeepView>(entries: &'a Vec<(String, V)>, name: &str) -> (r: Option<&'a V>)
    ensures
        r.deep_view() == lookup(entries.deep_view(), name@),
{
    let at = position_of(entries, name);
    if at < entries.len() {
        let r = Some(&entries[at].1);
        proof {
            lemma_first_at(entries.deep_view(), name@, entries.deep_view()[at as int].1, at as int);
        }
        r
    } else {
        proof {
            lemma_first_position(entries.deep_view(), name@);
            lemma_lookup_none(entries.deep_view(), name@);
        }
        None
    }
}

proof fn lemma_lookup_none<V>(entries: Seq<(Seq<char>, V)>, name: Seq<char>)
    requires
        first_at(entries, name, entries.len() as int),
    ensures
        lookup(entries, name) is None,
        without(entries, name) == entries,
{
    lemma_first_at(entries, name, arbitrary(), entries.len() as int);
}

/// Whether there is an entry of that name.
pub fn has<V: DeepView>(entries: &Vec<(String, V)>, name: &str) -> (r: bool)
    ensures
        r == lookup(entries.deep_view(), name@).is_some(),
{
    match find(entries, name) {
        Some(value) => true,
        None => false,
    }
}

/// Puts a value under a name.
pub fn assign<V: DeepView>(entries: &mut Vec<(String, V)>, name: &str, value: V)
    ensures
        final(entries).deep_view() == put(old(entries).deep_view(), name@, value.deep_view()),
{
    let ghost before = entries.deep_view();
    let at = position_of(entries, name);
    proof {
        lemma_first_at(before, name@, value.deep_view(), at as int);
    }
    let entry = (name.to_owned(), value);
    if at < entries.len() {
        entries.set(at, entry);
        assert(entries.deep_view() =~= before.update(at as int, (name@, value.deep_view())));
    } else {
        entries.push(entry);
        assert(entries.deep_view() =~= before.push((name@, value.deep_view())));
    }
}

/// Takes the entry of that name out, and hands back its value.
pub fn take<V: DeepView>(entries: &mut Vec<(String, V)>, name: &str) -> (r: Option<V>)
    ensures
        final(entries).deep_view() == without(old(entries).deep_view(), name@),
        r.deep_view() == lookup(old(entries).deep_view(), name@),
{
    let ghost before = entries.deep_view();
    let at = position_of(entries, name);
    if at < entries.len() {
        proof {
            lemma_first_at(before, name@, before[at as int].1, at as int);
        }
        let entry = entries.remove(at);
        assert(entries.deep_view() =~= before.remove(at as int));
        Some(entry.1)
    } else {
        proof {
            lemma_lookup_none(before, name@);
        }
        None
    }
}

/// The value of that name, to be changed where it stands.
pub fn find_mut<'a, V: DeepView>(entries: &'a mut Vec<(String, V)>, name: &str) -> (r: Option<
    &'a mut V,
>)
    ensures
        match r {
            Some(value) => {
                &&& lookup(old(entries).deep_view(), name@) == Some(value.deep_view())
                &&& final(entries).deep_view() == put(
                    old(entries).deep_view(),
                    name@,
                    final(value).deep_view(),
                )
            },
            None => {
                &&& lookup(old(entries).deep_view(), name@) is None
                &&& *final(entries) == *old(entries)
            },
        },
{
    let at = position_of(entries, name);
    if at < entries.len() {
        let ghost before = entries.deep_view();
        let ghost entries_before = *entries;
        proof {
            lemma_first_at(before, name@, before[at as int].1, at as int);
            assert forall|after: Vec<(String, V)>, value: V|
                after@ == entries_before@.update(at as int, (entries_before@[at as int].0, value)) implies
                #[trigger] after.deep_view() == put(before, name@, #[trigger] value.deep_view()) by {
                lemma_first_at(before, name@, value.deep_view(), at as int);
                assert(after.deep_view() =~= before.update(at as int, (name@, value.deep_view())));
            }
        }
        let entry = &mut entries[at];
        Some(&mut entry.1)
    } else {
        proof {
            lemma_lookup_none(entries.deep_view(), name@);
        }
        None
    }
}

/// An entry that is added last is found where its name was not there before; every other
/// name is found as before.
pub proof fn lemma_lookup_push<V>(
    entries: Seq<(Seq<char>, V)>,
    added: (Seq<char>, V),
    name: Seq<char>,
)
    ensures
        lookup(entries.push(added), name) == match lookup(entries, name) {
            Some(value) => Some(value),
            None => if added.0 == name {
                Some(added.1)
            } else {
                None
            },
        },
    decreases entries.len(),
{
    let all = entries.push(added);
    if entries.len() > 0 {
        assert(all[0] == entries[0]);
        assert(all.drop_first() =~= entries.drop_first().push(added));
        lemma_lookup_push(entries.drop_first(), added, name);
    } else {
        assert(all[0] == added);
        assert(all.drop_first() =~= Seq::empty());
        reveal_with_fuel(lookup, 2);
    }
}

/// What is put counts; a name that is not among it is found as before.
pub proof fn law_put_all_counts<V>(
    entries: Seq<(Seq<char>, V)>,
    extra: Seq<(Seq<char>, V)>,
    name: Seq<char>,
)
    requires
        distinct(extra),
    ensures
        lookup(put_all(entries, extra), name) == match lookup(extra, name) {
            Some(value) => Some(value),
            None => lookup(entries, name),
        },
    decreases extra.len(),
{
    if extra.len() > 0 {
        let rest = extra.drop_last();
        let last = extra.last();
        assert(distinct(rest)) by {
            assert forall|i: int, j: int| 0 <= i < j < rest.len() implies (#[trigger] rest[i]).0 != (
            #[trigger] rest[j]).0 by {
                assert(rest[i] == extra[i] && rest[j] == extra[j]);
            }
        }
        law_put_all_counts(entries, rest, name);
        lemma_lookup_after_put(put_all(entries, rest), last.0, last.1, name);
        lemma_lookup_push(rest, last, name);
        assert(rest.push(last) =~= extra);
        if last.0 == name {
            lemma_lookup_entry(rest, name);
            if lookup(rest, name) is Some {
                let i = choose|i: int| 0 <= i < rest.len() && (#[trigger] rest[i]).0 == name;
                assert(extra[i] == rest[i]);
                assert(extra[i].0 != extra[extra.len() - 1].0);
            }
        }
    }
}

} // verus!
