//! The order of strings, and sorting by an order.
//!
//! Strings are ordered by their first differing character, a string before every
//! string that it is a proper beginning of. On the bytes of UTF-8 this is the
//! order of bytes.

use vstd::prelude::*;
use crate::text::{chars_of, same};

verus! {

/// Whether `a` comes strictly before `b`.
pub open spec fn before(a: Seq<char>, b: Seq<char>) -> bool
    decreases a.len(),
{
    if b.len() == 0 {
        false
    } else if a.len() == 0 {
        true
    } else if a[0] != b[0] {
        (a[0] as u32) < (b[0] as u32)
    } else {
        before(a.drop_first(), b.drop_first())
    }
}

proof fn lemma_code_points(a: char, b: char)
    ensures
        a as u32 == b as u32 ==> a == b,
{
    vstd::utf8::char_u32_cast(a, a as u32);
    vstd::utf8::char_u32_cast(b, b as u32);
}

/// No string comes before itself, and of two strings at most one comes before the other.
pub proof fn lemma_before_asymmetric(a: Seq<char>, b: Seq<char>)
    ensures
        !(before(a, b) && before(b, a)),
        !before(a, a),
    decreases a.len(),
{
    if a.len() > 0 {
        lemma_before_asymmetric(a.drop_first(), b.drop_first());
    }
}

/// The order is transitive.
pub proof fn lemma_before_transitive(a: Seq<char>, b: Seq<char>, c: Seq<char>)
    requires
        before(a, b),
        before(b, c),
    ensures
        before(a, c),
    decreases a.len(),
{
    if a.len() > 0 && a[0] == b[0] && b[0] == c[0] {
        lemma_before_transitive(a.drop_first(), b.drop_first(), c.drop_first());
    }
}

/// Of two different strings one comes before the other.
pub proof fn lemma_before_total(a: Seq<char>, b: Seq<char>)
    ensures
        before(a, b) || before(b, a) || a == b,
    decreases a.len(),
{
    if a.len() > 0 && b.len() > 0 && a[0] == b[0] {
        lemma_before_total(a.drop_first(), b.drop_first());
        if a.drop_first() == b.drop_first() {
            assert(a =~= seq![a[0]] + a.drop_first());
            assert(b =~= seq![b[0]] + b.drop_first());
        }
    } else if a.len() > 0 && b.len() > 0 {
        lemma_code_points(a[0], b[0]);
    } else if a.len() == 0 && b.len() == 0 {
        assert(a =~= b);
    }
}

/// Whether `a` comes strictly before `b`.
pub fn comes_before(a: &str, b: &str) -> (r: bool)
    ensures
        r == before(a@, b@),
{
    let left = chars_of(a);
    let right = chars_of(b);
    let mut i: usize = 0;
    assert(a@.skip(0) =~= a@);
    assert(b@.skip(0) =~= b@);
    loop
        invariant
            left@ == a@,
            right@ == b@,
            i <= left@.len(),
            i <= right@.len(),
            before(a@, b@) == before(a@.skip(i as int), b@.skip(i as int)),
        decreases left@.len() - i,
    {
        if i == right.len() {
            return false;
        }
        if i == left.len() {
            return true;
        }
        if left[i] != right[i] {
            proof {
                assert(a@.skip(i as int)[0] == left@[i as int]);
                assert(b@.skip(i as int)[0] == right@[i as int]);
            }
            let x: char = left[i];
            let y: char = right[i];
            return (x as u32) < (y as u32);
        }
        proof {
            assert(a@.skip(i as int).drop_first() =~= a@.skip(i + 1));
            assert(b@.skip(i as int).drop_first() =~= b@.skip(i + 1));
        }
        i = i + 1;
    }
}

/// A type whose values have a model that is ordered.
pub trait Ranked: Sized + DeepView {
    /// Whether the model `a` comes strictly before the model `b`.
    spec fn ranks_before(a: Self::V, b: Self::V) -> bool;

    /// No model comes before itself, and of two models at most one comes before the other.
    proof fn ranks_asymmetric(a: Self::V, b: Self::V)
        ensures
            !(Self::ranks_before(a, b) && Self::ranks_before(b, a)),
    ;

    /// What is not after something is not after what that is not after.
    proof fn ranks_transitive(a: Self::V, b: Self::V, c: Self::V)
        requires
            !Self::ranks_before(b, a),
            !Self::ranks_before(c, b),
        ensures
            !Self::ranks_before(c, a),
    ;

    /// Whether this value's model comes strictly before the other's.
    fn comes_first(&self, other: &Self) -> (r: bool)
        ensures
            r == Self::ranks_before(self.deep_view(), other.deep_view()),
    ;
}

/// Whether no model in the list comes before an earlier one.
pub open spec fn in_order<T: Ranked>(models: Seq<T::V>) -> bool {
    forall|i: int, j: int|
        0 <= i < j < models.len() ==> !T::ranks_before(#[trigger] models[j], #[trigger] models[i])
}

/// The same values, in order.
pub fn sorted<T: Ranked>(items: Vec<T>) -> (r: Vec<T>)
    ensures
        r.deep_view().to_multiset() == items.deep_view().to_multiset(),
        r@.len() == items@.len(),
        in_order::<T>(r.deep_view()),
{
    let mut items = items;
    let ghost whole = items.deep_view();
    let mut out: Vec<T> = Vec::new();
    proof {
        broadcast use vstd::seq_lib::group_to_multiset_ensures;
        assert(out.deep_view() =~= Seq::<T::V>::empty());
        assert(Seq::<T::V>::empty().to_multiset() =~= vstd::multiset::Multiset::<T::V>::empty());
        assert(whole.to_multiset() =~= items.deep_view().to_multiset().add(out.deep_view().to_multiset()));
    }
    while items.len() > 0
        invariant
            in_order::<T>(out.deep_view()),
            items@.len() + out@.len() == whole.len(),
            whole.to_multiset() == items.deep_view().to_multiset().add(out.deep_view().to_multiset()),
        decreases items@.len(),
    {
        let ghost items_before = items.deep_view();
        let ghost out_before = out.deep_view();
        let item = items.pop().unwrap();
        let ghost model = item.deep_view();
        let mut at: usize = 0;
        while at < out.len() && out[at].comes_first(&item)
            invariant
                at <= out@.len(),
                model == item.deep_view(),
                forall|i: int| 0 <= i < at ==> T::ranks_before(#[trigger] out.deep_view()[i], model),
            decreases out@.len() - at,
        {
            assert(T::ranks_before(out.deep_view()[at as int], model));
            at = at + 1;
        }
        assert(at < out@.len() ==> !T::ranks_before(out.deep_view()[at as int], model));
        out.insert(at, item);
        proof {
            assert(items.deep_view() =~= items_before.drop_last());
            assert(items_before.last() == model);
            assert(items_before =~= items.deep_view().push(model));
            assert(out.deep_view() =~= out_before.insert(at as int, model));
            vstd::seq_lib::to_multiset_build(items.deep_view(), model);
            vstd::seq_lib::to_multiset_insert(out_before, at as int, model);
            assert(whole.to_multiset() =~= items.deep_view().to_multiset().add(out.deep_view().to_multiset()));
            assert forall|i: int, j: int| 0 <= i < j < out.deep_view().len() implies
                !T::ranks_before(#[trigger] out.deep_view()[j], #[trigger] out.deep_view()[i]) by {
                let o = out.deep_view();
                if i < at && j == at {
                    assert(o[i] == out_before[i]);
                    T::ranks_asymmetric(o[i], model);
                } else if i == at && j > at {
                    assert(o[j] == out_before[j - 1]);
                    if j - 1 == at {
                    } else {
                        assert(!T::ranks_before(out_before[j - 1], out_before[at as int]));
                        T::ranks_transitive(model, out_before[at as int], out_before[j - 1]);
                    }
                } else {
                    let oi = if i < at { i } else { i - 1 };
                    let oj = if j < at { j } else { j - 1 };
                    assert(o[i] == out_before[oi]);
                    assert(o[j] == out_before[oj]);
                    assert(oi < oj);
                    assert(!T::ranks_before(out_before[oj], out_before[oi]));
                }
            }
        }
    }
    proof {
        broadcast use vstd::seq_lib::group_to_multiset_ensures;
        assert(items.deep_view() =~= Seq::<T::V>::empty());
        assert(out.deep_view().to_multiset() =~= whole.to_multiset());
    }
    out
}

impl Ranked for String {
    open spec fn ranks_before(a: Seq<char>, b: Seq<char>) -> bool {
        before(a, b)
    }

    proof fn ranks_asymmetric(a: Seq<char>, b: Seq<char>) {
        lemma_before_asymmetric(a, b);
    }

    proof fn ranks_transitive(a: Seq<char>, b: Seq<char>, c: Seq<char>) {
        lemma_not_after_transitive(a, b, c);
    }

    fn comes_first(&self, other: &Self) -> (r: bool) {
        comes_before(self.as_str(), other.as_str())
    }
}

/// What is not after something is not after what that is not after.
pub proof fn lemma_not_after_transitive(a: Seq<char>, b: Seq<char>, c: Seq<char>)
    requires
        !before(b, a),
        !before(c, b),
    ensures
        !before(c, a),
{
    lemma_before_total(a, b);
    lemma_before_total(b, c);
    if before(c, a) {
        if before(a, b) {
            lemma_before_transitive(c, a, b);
        }
    }
}

/// Whether a pair comes strictly before another: by its first text, and by its second
/// where the first ones are the same.
pub open spec fn pair_before(a: (Seq<char>, Seq<char>), b: (Seq<char>, Seq<char>)) -> bool {
    before(a.0, b.0) || (a.0 == b.0 && before(a.1, b.1))
}

impl Ranked for (String, String) {
    open spec fn ranks_before(a: (Seq<char>, Seq<char>), b: (Seq<char>, Seq<char>)) -> bool {
        pair_before(a, b)
    }

    proof fn ranks_asymmetric(a: (Seq<char>, Seq<char>), b: (Seq<char>, Seq<char>)) {
        lemma_before_asymmetric(a.0, b.0);
        lemma_before_asymmetric(a.1, b.1);
    }

    proof fn ranks_transitive(
        a: (Seq<char>, Seq<char>),
        b: (Seq<char>, Seq<char>),
        c: (Seq<char>, Seq<char>),
    ) {
        lemma_before_total(a.0, b.0);
        lemma_before_total(b.0, c.0);
        lemma_not_after_transitive(a.0, b.0, c.0);
        lemma_before_asymmetric(a.0, c.0);
        lemma_before_asymmetric(b.0, c.0);
        lemma_before_asymmetric(a.0, b.0);
        if a.0 == b.0 && b.0 == c.0 {
            lemma_not_after_transitive(a.1, b.1, c.1);
        }
        if before(a.0, b.0) && before(b.0, c.0) {
            lemma_before_transitive(a.0, b.0, c.0);
        }
    }

    fn comes_first(&self, other: &Self) -> (r: bool) {
        if comes_before(self.0.as_str(), other.0.as_str()) {
            true
        } else {
            same(self.0.as_str(), other.0.as_str()) && comes_before(
                self.1.as_str(),
                other.1.as_str(),
            )
        }
    }
}

/// Of two different pairs one comes before the other.
pub proof fn lemma_pair_before_total(a: (Seq<char>, Seq<char>), b: (Seq<char>, Seq<char>))
    ensures
        pair_before(a, b) || pair_before(b, a) || a == b,
{
    lemma_before_total(a.0, b.0);
    lemma_before_total(a.1, b.1);
}

/// Whether of two different models in the list one always comes before the other.
pub open spec fn without_ties<T: Ranked>(models: Seq<T::V>) -> bool {
    forall|i: int, j: int|
        0 <= i < models.len() && 0 <= j < models.len() && #[trigger] models[i]
            != #[trigger] models[j] ==> T::ranks_before(models[i], models[j]) || T::ranks_before(
            models[j],
            models[i],
        )
}

/// Where there are no ties, there is one way to put models in order.
pub proof fn lemma_one_order<T: Ranked>(a: Seq<T::V>, b: Seq<T::V>)
    requires
        in_order::<T>(a),
        in_order::<T>(b),
        without_ties::<T>(a),
        a.to_multiset() == b.to_multiset(),
    ensures
        a == b,
    decreases a.len(),
{
    broadcast use vstd::seq_lib::group_to_multiset_ensures;

    a.to_multiset_ensures();
    b.to_multiset_ensures();
    if a.len() == 0 {
        assert(a =~= b);
    } else {
        let x = a.last();
        let y = b.last();
        assert(a.contains(x));
        assert(b.contains(y));
        assert(b.to_multiset().count(x) > 0);
        assert(a.to_multiset().count(y) > 0);
        assert(b.contains(x));
        assert(a.contains(y));
        let i = choose|i: int| 0 <= i < b.len() && b[i] == x;
        let j = choose|j: int| 0 <= j < a.len() && a[j] == y;
        if i < b.len() - 1 {
            assert(!T::ranks_before(b[b.len() - 1], b[i]));
        }
        if j < a.len() - 1 {
            assert(!T::ranks_before(a[a.len() - 1], a[j]));
        }
        if x != y {
            assert(a[a.len() - 1] != a[j]);
            assert(T::ranks_before(x, y) || T::ranks_before(y, x));
        }
        let fewer = a.drop_last();
        let others = b.drop_last();
        assert(fewer =~= a.remove(a.len() - 1));
        assert(others =~= b.remove(b.len() - 1));
        assert forall|i: int, j: int| 0 <= i < j < fewer.len() implies !T::ranks_before(
            #[trigger] fewer[j],
            #[trigger] fewer[i],
        ) by {
            assert(!T::ranks_before(a[j], a[i]));
        }
        assert forall|i: int, j: int| 0 <= i < j < others.len() implies !T::ranks_before(
            #[trigger] others[j],
            #[trigger] others[i],
        ) by {
            assert(!T::ranks_before(b[j], b[i]));
        }
        assert forall|i: int, j: int|
            0 <= i < fewer.len() && 0 <= j < fewer.len() && #[trigger] fewer[i]
                != #[trigger] fewer[j] implies T::ranks_before(fewer[i], fewer[j])
            || T::ranks_before(fewer[j], fewer[i]) by {
            assert(a[i] != a[j]);
        }
        lemma_one_order::<T>(fewer, others);
        assert(a =~= fewer.push(x));
        assert(b =~= others.push(y));
    }
}

/// There is one way to put texts in order.
pub proof fn lemma_sorted_texts_unique(a: Seq<Seq<char>>, b: Seq<Seq<char>>)
    requires
        in_order::<String>(a),
        in_order::<String>(b),
        a.to_multiset() == b.to_multiset(),
    ensures
        a == b,
{
    assert forall|i: int, j: int|
        0 <= i < a.len() && 0 <= j < a.len() && #[trigger] a[i] != #[trigger] a[j] implies <String as Ranked>::ranks_before(a[i], a[j])
        || <String as Ranked>::ranks_before(a[j], a[i]) by {
        lemma_before_total(a[i], a[j]);
    }
    lemma_one_order::<String>(a, b);
}

/// There is one way to put pairs in order.
pub proof fn lemma_sorted_pairs_unique(
    a: Seq<(Seq<char>, Seq<char>)>,
    b: Seq<(Seq<char>, Seq<char>)>,
)
    requires
        in_order::<(String, String)>(a),
        in_order::<(String, String)>(b),
        a.to_multiset() == b.to_multiset(),
    ensures
        a == b,
{
    assert forall|i: int, j: int|
        0 <= i < a.len() && 0 <= j < a.len() && #[trigger] a[i] != #[trigger] a[j] implies <(
        String,
        String,
    ) as Ranked>::ranks_before(a[i], a[j]) || <(String, String) as Ranked>::ranks_before(
        a[j],
        a[i],
    ) by {
        lemma_pair_before_total(a[i], a[j]);
    }
    lemma_one_order::<(String, String)>(a, b);
}

/// The first place at which two texts differ decides: the one with the lower code point there
/// comes first, and a text comes before whatever it is the beginning of.
pub proof fn law_first_difference_decides(a: Seq<char>, b: Seq<char>, at: int)
    requires
        0 <= at <= a.len(),
        at < b.len(),
        forall|i: int| 0 <= i < at ==> a[i] == #[trigger] b[i],
        at < a.len() ==> (a[at] as u32) < (b[at] as u32),
    ensures
        before(a, b),
    decreases at,
{
    if at > 0 {
        let (x, y) = (a.drop_first(), b.drop_first());
        assert(a[0] == b[0]);
        assert forall|i: int| 0 <= i < at - 1 implies x[i] == #[trigger] y[i] by {
            assert(x[i] == a[i + 1] && y[i] == b[i + 1]);
        }
        law_first_difference_decides(x, y, at - 1);
    }
}

/// Of two pairs the first texts decide, and the second where those are the same.
pub proof fn law_first_of_a_pair_decides(a: (Seq<char>, Seq<char>), b: (Seq<char>, Seq<char>))
    ensures
        before(a.0, b.0) ==> pair_before(a, b) && !pair_before(b, a),
        a.0 == b.0 ==> (pair_before(a, b) <==> before(a.1, b.1)),
{
    lemma_before_asymmetric(a.0, b.0);
    lemma_before_asymmetric(b.0, a.0);
}

} // verus!
