//! Stable ordering of event lists by their week stamp.
use vstd::prelude::*;

verus! {

/// An event that carries a week-of-year by which reports are ordered.
pub trait WeekStamped: Sized {
    /// The week used for ordering (unset weeks count as the type's default).
    spec fn week_key(&self) -> u8;

    /// The week the event is stamped with, if it has been stamped.
    spec fn week_stamp(&self) -> Option<u8>;

    /// Computes `week_key`.
    fn week(&self) -> (r: u8)
        ensures
            r == self.week_key(),
    ;
}

/// Whether an event falls in week `k`.
pub open spec fn in_week<T: WeekStamped>(k: u8) -> spec_fn(T) -> bool {
    |e: T| e.week_key() == k
}

/// Events are in ascending week order.
pub open spec fn sorted_by_week<T: WeekStamped>(s: Seq<T>) -> bool {
    forall|i: int, j: int| 0 <= i <= j < s.len() ==> s[i].week_key() <= s[j].week_key()
}

/// `out` holds, for every week, exactly the events of `inp` in that week, in
/// their original order.
pub open spec fn same_weekly_groups<T: WeekStamped>(out: Seq<T>, inp: Seq<T>) -> bool {
    forall|k: u8| #[trigger] out.filter(in_week::<T>(k)) == inp.filter(in_week::<T>(k))
}

/// `out` is the stable sort of `inp` by week.
pub open spec fn stable_week_sort_of<T: WeekStamped>(out: Seq<T>, inp: Seq<T>) -> bool {
    sorted_by_week(out) && same_weekly_groups(out, inp)
}

proof fn lemma_filter_none<T: WeekStamped>(s: Seq<T>, k: u8)
    requires
        forall|j: int| 0 <= j < s.len() ==> s[j].week_key() > k,
    ensures
        s.filter(in_week::<T>(k)) == Seq::<T>::empty(),
    decreases s.len(),
{
    reveal_with_fuel(Seq::filter, 1);
    if s.len() > 0 {
        lemma_filter_none(s.drop_last(), k);
    }
    assert(s.filter(in_week::<T>(k)) =~= Seq::<T>::empty());
}

/// Inserting `x` after every event of its week or earlier and before every
/// later one adds it at the end of its own week's group and leaves the
/// other groups alone.
proof fn lemma_insert_groups<T: WeekStamped>(out: Seq<T>, p: int, x: T, k: u8)
    requires
        0 <= p <= out.len(),
        forall|j: int| p <= j < out.len() ==> out[j].week_key() > x.week_key(),
    ensures
        out.insert(p, x).filter(in_week::<T>(k)) == if x.week_key() == k {
            out.filter(in_week::<T>(k)).push(x)
        } else {
            out.filter(in_week::<T>(k))
        },
{
    let pre = out.take(p);
    let post = out.skip(p);
    assert(out =~= pre + post);
    assert(out.insert(p, x) =~= pre + seq![x] + post);
    Seq::filter_distributes_over_add(pre, post, in_week::<T>(k));
    Seq::filter_distributes_over_add(pre + seq![x], post, in_week::<T>(k));
    Seq::filter_distributes_over_add(pre, seq![x], in_week::<T>(k));
    reveal_with_fuel(Seq::filter, 2);
    if x.week_key() == k {
        lemma_filter_none(post, k);
        assert(seq![x].filter(in_week::<T>(k)) =~= seq![x]);
        assert(pre.filter(in_week::<T>(k)) + seq![x] =~= pre.filter(in_week::<T>(k)).push(x));
        assert(pre.filter(in_week::<T>(k)) + Seq::<T>::empty() =~= pre.filter(in_week::<T>(k)));
    } else {
        assert(seq![x].filter(in_week::<T>(k)) =~= Seq::<T>::empty());
        assert(pre.filter(in_week::<T>(k)) + Seq::<T>::empty() =~= pre.filter(in_week::<T>(k)));
    }
}

/// Position after the last event whose week is not later than `week`.
fn insertion_point<T: WeekStamped>(out: &Vec<T>, week: u8) -> (p: usize)
    requires
        sorted_by_week(out@),
    ensures
        p <= out@.len(),
        forall|j: int| 0 <= j < p ==> out@[j].week_key() <= week,
        forall|j: int| p <= j < out@.len() ==> out@[j].week_key() > week,
{
    let mut p: usize = 0;
    while p < out.len()
        invariant
            p <= out@.len(),
            sorted_by_week(out@),
            forall|j: int| 0 <= j < p ==> out@[j].week_key() <= week,
        decreases out@.len() - p,
    {
        if out[p].week() > week {
            return p;
        }
        p = p + 1;
    }
    p
}

/// Sorts events by week, keeping events of the same week in their order.
pub fn sort_by_week<T: WeekStamped>(v: &mut Vec<T>)
    ensures
        final(v)@.len() == old(v)@.len(),
        stable_week_sort_of(final(v)@, old(v)@),
{
    let ghost orig = v@;
    let mut out: Vec<T> = Vec::new();
    let mut i: usize = 0;
    let n = v.len();
    while v.len() > 0
        invariant
            n == orig.len(),
            i + v@.len() == n,
            v@ == orig.skip(i as int),
            out@.len() == i,
            sorted_by_week(out@),
            forall|k: u8|
                #[trigger] out@.filter(in_week::<T>(k)) == orig.take(i as int).filter(in_week::<T>(k)),
        decreases v@.len(),
    {
        let x = v.remove(0);
        let w = x.week();
        let p = insertion_point(&out, w);
        let ghost before = out@;
        out.insert(p, x);
        proof {
            assert(out@ == before.insert(p as int, x));
            assert(orig.take(i + 1) =~= orig.take(i as int).push(x));
            assert(orig.skip(i + 1) =~= orig.skip(i as int).drop_first());
            assert forall|k: u8| #[trigger] out@.filter(in_week::<T>(k)) == orig.take(i + 1).filter(
                in_week::<T>(k),
            ) by {
                lemma_insert_groups(before, p as int, x, k);
                orig.take(i as int).lemma_filter_push(x, in_week::<T>(k));
            }
            assert forall|a: int, b: int| 0 <= a <= b < out@.len() implies out@[a].week_key()
                <= out@[b].week_key() by {
                if a < p && b > p {
                    assert(before[a].week_key() <= w);
                    assert(before[b - 1].week_key() > w);
                } else if a == p && b > p {
                    assert(before[b - 1].week_key() > w);
                } else if a < p && b == p {
                    assert(before[a].week_key() <= w);
                } else if a > p {
                    assert(before[a - 1].week_key() <= before[b - 1].week_key());
                } else if b < p {
                    assert(before[a].week_key() <= before[b].week_key());
                }
            }
        }
        i = i + 1;
    }
    assert(orig.take(n as int) =~= orig);
    *v = out;
}

proof fn lemma_filter_keeps_count<T>(s: Seq<T>, p: spec_fn(T) -> bool, x: T)
    requires
        p(x),
    ensures
        s.filter(p).to_multiset().count(x) == s.to_multiset().count(x),
    decreases s.len(),
{
    broadcast use vstd::multiset::group_multiset_axioms;

    reveal(Seq::filter);
    if s.len() == 0 {
        assert(s.filter(p) =~= s);
    } else {
        let d = s.drop_last();
        lemma_filter_keeps_count(d, p, x);
        assert(s =~= d.push(s.last()));
        vstd::seq_lib::to_multiset_build(d, s.last());
        vstd::seq_lib::to_multiset_build(d.filter(p), s.last());
    }
}

/// A stable sort by week only reorders: the sorted list holds the same
/// events, each as often.
pub proof fn lemma_stable_week_sort_permutes<T: WeekStamped>(out: Seq<T>, inp: Seq<T>)
    requires
        stable_week_sort_of(out, inp),
    ensures
        out.to_multiset() == inp.to_multiset(),
{
    assert forall|x: T| #[trigger] out.to_multiset().count(x) == inp.to_multiset().count(x) by {
        let k = x.week_key();
        assert(out.filter(in_week::<T>(k)) == inp.filter(in_week::<T>(k)));
        lemma_filter_keeps_count(out, in_week::<T>(k), x);
        lemma_filter_keeps_count(inp, in_week::<T>(k), x);
    }
    assert(out.to_multiset() =~= inp.to_multiset());
}

/// Two lists sorted by week with the same events in each week, in the same
/// order, are the same list.
pub proof fn lemma_sorted_same_groups_equal<T: WeekStamped>(a: Seq<T>, b: Seq<T>)
    requires
        sorted_by_week(a),
        sorted_by_week(b),
        same_weekly_groups(a, b),
    ensures
        a == b,
    decreases a.len() + b.len(),
{
    reveal(Seq::filter);
    if a.len() == 0 && b.len() == 0 {
        assert(a =~= b);
    } else if a.len() == 0 {
        let w = b.last().week_key();
        assert(b.filter(in_week::<T>(w)) == a.filter(in_week::<T>(w)));
        assert(a.filter(in_week::<T>(w)) =~= a);
        assert(b.filter(in_week::<T>(w)).len() > 0);
    } else if b.len() == 0 {
        let w = a.last().week_key();
        assert(a.filter(in_week::<T>(w)) == b.filter(in_week::<T>(w)));
        assert(b.filter(in_week::<T>(w)) =~= b);
        assert(a.filter(in_week::<T>(w)).len() > 0);
    } else {
        let wa = a.last().week_key();
        let wb = b.last().week_key();
        let fa = a.filter(in_week::<T>(wa));
        let fb = b.filter(in_week::<T>(wb));
        assert(fa == b.filter(in_week::<T>(wa)));
        assert(fb == a.filter(in_week::<T>(wb)));
        assert(fa.len() > 0 && fa.last() == a.last());
        assert(fb.len() > 0 && fb.last() == b.last());
        lemma_filter_members(b, in_week::<T>(wa));
        lemma_filter_members(a, in_week::<T>(wb));
        let i = choose|i: int| 0 <= i < b.len() && b[i] == fa.last();
        let j = choose|j: int| 0 <= j < a.len() && a[j] == fb.last();
        assert(b[i].week_key() <= wb);
        assert(a[j].week_key() <= wa);
        assert(wa == wb);
        assert(a.last() == b.last());
        let da = a.drop_last();
        let db = b.drop_last();
        assert forall|k: u8| #[trigger] da.filter(in_week::<T>(k)) == db.filter(in_week::<T>(k)) by {
            assert(a.filter(in_week::<T>(k)) == b.filter(in_week::<T>(k)));
            if k == wa {
                assert(da.filter(in_week::<T>(k)) =~= a.filter(in_week::<T>(k)).drop_last());
                assert(db.filter(in_week::<T>(k)) =~= b.filter(in_week::<T>(k)).drop_last());
            } else {
                assert(da.filter(in_week::<T>(k)) == a.filter(in_week::<T>(k)));
                assert(db.filter(in_week::<T>(k)) == b.filter(in_week::<T>(k)));
            }
        }
        lemma_sorted_same_groups_equal(da, db);
        assert(a =~= da.push(a.last()));
        assert(b =~= db.push(b.last()));
    }
}

proof fn lemma_filter_members<T>(s: Seq<T>, p: spec_fn(T) -> bool)
    ensures
        forall|i: int|
            0 <= i < s.filter(p).len() ==> exists|j: int| 0 <= j < s.len() && s[j] == #[trigger] s.filter(p)[i],
    decreases s.len(),
{
    reveal(Seq::filter);
    if s.len() > 0 {
        let d = s.drop_last();
        lemma_filter_members(d, p);
        assert forall|i: int|
            0 <= i < s.filter(p).len() implies exists|j: int| 0 <= j < s.len() && s[j] == #[trigger] s.filter(p)[i] by {
            if i < d.filter(p).len() {
                let j = choose|j: int| 0 <= j < d.len() && d[j] == d.filter(p)[i];
                assert(s[j] == d[j]);
            } else {
                assert(s[s.len() - 1] == s.filter(p)[i]);
            }
        }
    }
}

/// Every event of the list carries a week stamp.
pub open spec fn all_stamped<T: WeekStamped>(s: Seq<T>) -> bool {
    forall|i: int| 0 <= i < s.len() ==> (#[trigger] s[i]).week_stamp() is Some
}

/// `stamped` is `orig` with every event stamped: events that already had a
/// stamp are kept as they were.
pub open spec fn stamps_of<T: WeekStamped>(stamped: Seq<T>, orig: Seq<T>) -> bool {
    &&& stamped.len() == orig.len()
    &&& all_stamped(stamped)
    &&& forall|i: int| 0 <= i < orig.len() && (#[trigger] orig[i]).week_stamp() is Some ==> stamped[i] == orig[i]
}

/// A list as canonicalization leaves it: the stamped events, each as often,
/// every one stamped, in week order.
pub open spec fn settled_list<T: WeekStamped>(out: Seq<T>, stamped: Seq<T>) -> bool {
    &&& out.to_multiset() == stamped.to_multiset()
    &&& all_stamped(out)
    &&& sorted_by_week(out)
}

/// Sorting a fully stamped list by week settles it.
pub proof fn lemma_sorted_stamps_settle<T: WeekStamped>(out: Seq<T>, stamped: Seq<T>)
    requires
        stable_week_sort_of(out, stamped),
        all_stamped(stamped),
    ensures
        settled_list(out, stamped),
{
    broadcast use vstd::seq_lib::group_to_multiset_ensures;

    lemma_stable_week_sort_permutes(out, stamped);
    assert forall|i: int| 0 <= i < out.len() implies (#[trigger] out[i]).week_stamp() is Some by {
        assert(out.contains(out[i]));
        assert(out.to_multiset().count(out[i]) > 0);
        assert(stamped.contains(out[i]));
    }
}

/// Stamping a list whose events all carry stamps changes nothing.
pub proof fn lemma_stamps_of_stamped<T: WeekStamped>(stamped: Seq<T>, orig: Seq<T>)
    requires
        stamps_of(stamped, orig),
        all_stamped(orig),
    ensures
        stamped == orig,
{
    assert(stamped =~= orig);
}

/// A list settled by one canonicalization is settled again by the next:
/// sorting it once more by week keeps it as it is.
pub proof fn lemma_settled_sort_again<T: WeekStamped>(again: Seq<T>, settled: Seq<T>)
    requires
        sorted_by_week(settled),
        stable_week_sort_of(again, settled),
    ensures
        again == settled,
{
    lemma_sorted_same_groups_equal(again, settled);
}

} // verus!
