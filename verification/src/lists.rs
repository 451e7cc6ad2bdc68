//! Lists of texts.

use vstd::prelude::*;
use crate::text::same;

verus! {

/// Whether a text stands in the list.
pub fn holds(list: &Vec<String>, text: &str) -> (r: bool)
    ensures
        r == list.deep_view().contains(text@),
{
    let mut i: usize = 0;
    while i < list.len()
        invariant
            i <= list@.len(),
            forall|j: int| 0 <= j < i ==> #[trigger] list.deep_view()[j] != text@,
        decreases list@.len() - i,
    {
        assert(list.deep_view()[i as int] == list@[i as int]@);
        if same(list[i].as_str(), text) {
            return true;
        }
        i = i + 1;
    }
    false
}

/// Whether no text stands in the list twice.
pub fn all_different(list: &Vec<String>) -> (r: bool)
    ensures
        r == list.deep_view().no_duplicates(),
{
    let ghost models = list.deep_view();
    let mut i: usize = 0;
    while i < list.len()
        invariant
            i <= list@.len(),
            models == list.deep_view(),
            forall|a: int, b: int| 0 <= a < b < i ==> models[a] != models[b],
        decreases list@.len() - i,
    {
        let mut j: usize = 0;
        while j < i
            invariant
                j <= i < list@.len(),
                models == list.deep_view(),
                forall|a: int| 0 <= a < j ==> models[a] != models[i as int],
            decreases i - j,
        {
            assert(models[i as int] == list@[i as int]@);
            assert(models[j as int] == list@[j as int]@);
            if same(list[i].as_str(), list[j].as_str()) {
                assert(models[i as int] == models[j as int]);
                return false;
            }
            j = j + 1;
        }
        i = i + 1;
    }
    assert(models.no_duplicates());
    true
}

/// The same list.
pub fn copied(strings: &Vec<String>) -> (r: Vec<String>)
    ensures
        r.deep_view() == strings.deep_view(),
{
    let ghost models = strings.deep_view();
    let mut out: Vec<String> = Vec::new();
    let mut i: usize = 0;
    assert(out.deep_view() =~= models.take(0));
    while i < strings.len()
        invariant
            i <= strings@.len(),
            models == strings.deep_view(),
            out.deep_view() == models.take(i as int),
        decreases strings@.len() - i,
    {
        let ghost done = out.deep_view();
        out.push(strings[i].clone());
        assert(out.deep_view() =~= done.push(strings@[i as int]@));
        i = i + 1;
        assert(out.deep_view() =~= models.take(i as int));
    }
    assert(models.take(models.len() as int) =~= models);
    out
}

/// Whether two lists are the same.
pub fn same_lists(a: &Vec<String>, b: &Vec<String>) -> (r: bool)
    ensures
        r == (a.deep_view() == b.deep_view()),
{
    if a.len() != b.len() {
        assert(a.deep_view().len() != b.deep_view().len());
        return false;
    }
    let mut i: usize = 0;
    while i < a.len()
        invariant
            i <= a@.len(),
            a@.len() == b@.len(),
            forall|j: int| 0 <= j < i ==> a.deep_view()[j] == b.deep_view()[j],
        decreases a@.len() - i,
    {
        assert(a.deep_view()[i as int] == a@[i as int]@);
        assert(b.deep_view()[i as int] == b@[i as int]@);
        if !same(a[i].as_str(), b[i].as_str()) {
            return false;
        }
        i = i + 1;
    }
    assert(a.deep_view() =~= b.deep_view());
    true
}

} // verus!
