use vstd::prelude::*;
use std::collections::HashSet;
use vstd::multiset::Multiset;

use crate::model::CanvasItem;
use vstd::std_specs::iter::IteratorSpec;

verus! {

broadcast use vstd::std_specs::hash::group_hash_axioms;

/// The items of `s` at positions `i` and above whose position is not in `sel`, in order.
pub open spec fn kept_from<T>(s: Seq<T>, sel: Set<usize>, i: int) -> Seq<T>
    decreases s.len() - i,
{
    if i < 0 || i >= s.len() {
        Seq::empty()
    } else if sel.contains(i as usize) {
        kept_from(s, sel, i + 1)
    } else {
        seq![s[i]] + kept_from(s, sel, i + 1)
    }
}

/// The items of `s` at positions `i` and above whose position is in `sel`,
/// from the highest position down.
pub open spec fn picked_desc_from<T>(s: Seq<T>, sel: Set<usize>, i: int) -> Seq<T>
    decreases s.len() - i,
{
    if i < 0 || i >= s.len() {
        Seq::empty()
    } else if sel.contains(i as usize) {
        picked_desc_from(s, sel, i + 1).push(s[i])
    } else {
        picked_desc_from(s, sel, i + 1)
    }
}

/// The items of `s` whose position is not in `sel`, in their order.
pub open spec fn without_selected<T>(s: Seq<T>, sel: Set<usize>) -> Seq<T> {
    kept_from(s, sel, 0)
}

/// The items of `s` whose position is in `sel`, from the highest position down.
pub open spec fn selected_desc<T>(s: Seq<T>, sel: Set<usize>) -> Seq<T> {
    picked_desc_from(s, sel, 0)
}

/// Every position in `sel` names an item of a list of length `len`.
pub open spec fn indices_below(sel: Set<usize>, len: nat) -> bool {
    forall|i: usize| sel.contains(i) ==> i < len
}

/// Removes the items at the selected positions, keeping the others in order.
pub fn remove_selected<T>(items: &mut Vec<T>, sel: &HashSet<usize>)
    ensures
        final(items)@ == without_selected(old(items)@, sel@),
{
    let ghost s = items@;
    let mut i: usize = items.len();
    assert(s.take(i as int) =~= s);
    while i > 0
        invariant
            i <= s.len(),
            items@ == s.take(i as int) + kept_from(s, sel@, i as int),
        decreases i,
    {
        let idx: usize = i - 1;
        if sel.contains(&idx) {
            items.remove(idx);
            assert(items@ =~= s.take(idx as int) + kept_from(s, sel@, idx as int));
        } else {
            assert(s.take(i as int) =~= s.take(idx as int).push(s[idx as int]));
            assert(items@ =~= s.take(idx as int) + kept_from(s, sel@, idx as int));
        }
        i = idx;
    }
    assert(s.take(0) =~= Seq::<T>::empty());
    assert(items@ =~= kept_from(s, sel@, 0));
}

/// Removes the items at the selected positions, keeping the others in order,
/// and gives back the removed items from the highest position down.
pub fn take_selected<T>(items: &mut Vec<T>, sel: &HashSet<usize>) -> (taken: Vec<T>)
    ensures
        final(items)@ == without_selected(old(items)@, sel@),
        taken@ == selected_desc(old(items)@, sel@),
{
    let ghost s = items@;
    let mut taken: Vec<T> = Vec::new();
    let mut i: usize = items.len();
    assert(s.take(i as int) =~= s);
    while i > 0
        invariant
            i <= s.len(),
            items@ == s.take(i as int) + kept_from(s, sel@, i as int),
            taken@ == picked_desc_from(s, sel@, i as int),
        decreases i,
    {
        let idx: usize = i - 1;
        if sel.contains(&idx) {
            let item = items.remove(idx);
            taken.push(item);
            assert(items@ =~= s.take(idx as int) + kept_from(s, sel@, idx as int));
        } else {
            assert(s.take(i as int) =~= s.take(idx as int).push(s[idx as int]));
            assert(items@ =~= s.take(idx as int) + kept_from(s, sel@, idx as int));
        }
        i = idx;
    }
    assert(s.take(0) =~= Seq::<T>::empty());
    assert(items@ =~= kept_from(s, sel@, 0));
    taken
}

/// Positions of the selected items of a note, one set per kind of item.
#[derive(Debug)]
pub struct Selection {
    pub strokes: HashSet<usize>,
    pub shapes: HashSet<usize>,
    pub images: HashSet<usize>,
    pub tables: HashSet<usize>,
    pub texts: HashSet<usize>,
}

impl Selection {
    /// Nothing is selected.
    pub open spec fn is_blank(self) -> bool {
        &&& self.strokes@ == Set::<usize>::empty()
        &&& self.shapes@ == Set::<usize>::empty()
        &&& self.images@ == Set::<usize>::empty()
        &&& self.tables@ == Set::<usize>::empty()
        &&& self.texts@ == Set::<usize>::empty()
    }

    /// A selection with nothing in it.
    pub fn new() -> (s: Selection)
        ensures
            s.is_blank(),
    {
        Selection {
            strokes: HashSet::new(),
            shapes: HashSet::new(),
            images: HashSet::new(),
            tables: HashSet::new(),
            texts: HashSet::new(),
        }
    }

    /// Whether nothing is selected.
    pub fn is_empty(&self) -> (b: bool)
        ensures
            b == self.is_blank(),
    {
        let b = self.strokes.is_empty() && self.shapes.is_empty() && self.images.is_empty()
            && self.tables.is_empty() && self.texts.is_empty();
        proof {
            if !b {
                if !self.strokes@.is_empty() {
                    assert(self.strokes@ != Set::<usize>::empty());
                } else if !self.shapes@.is_empty() {
                    assert(self.shapes@ != Set::<usize>::empty());
                } else if !self.images@.is_empty() {
                    assert(self.images@ != Set::<usize>::empty());
                } else if !self.tables@.is_empty() {
                    assert(self.tables@ != Set::<usize>::empty());
                } else {
                    assert(self.texts@ != Set::<usize>::empty());
                }
            } else {
                assert(self.strokes@ =~= Set::<usize>::empty());
                assert(self.shapes@ =~= Set::<usize>::empty());
                assert(self.images@ =~= Set::<usize>::empty());
                assert(self.tables@ =~= Set::<usize>::empty());
                assert(self.texts@ =~= Set::<usize>::empty());
            }
        }
        b
    }

    /// Deselects everything.
    pub fn clear(&mut self)
        ensures
            final(self).is_blank(),
    {
        self.strokes.clear();
        self.shapes.clear();
        self.images.clear();
        self.tables.clear();
        self.texts.clear();
    }
}

impl Default for Selection {
    fn default() -> (s: Selection)
        ensures
            s.is_blank(),
    {
        Selection::new()
    }
}

/// Splitting off the selected items loses and duplicates nothing: the items at positions
/// `i` and above are exactly those kept plus those picked.
proof fn lemma_split_from<T>(s: Seq<T>, sel: Set<usize>, i: int)
    requires
        0 <= i <= s.len(),
    ensures
        (kept_from(s, sel, i) + picked_desc_from(s, sel, i)).to_multiset() =~= s.skip(i).to_multiset(),
    decreases s.len() - i,
{
    broadcast use vstd::seq_lib::group_to_multiset_ensures;
    broadcast use vstd::multiset::group_multiset_axioms;

    if i == s.len() {
        assert(s.skip(i) =~= Seq::<T>::empty());
        assert(kept_from(s, sel, i) + picked_desc_from(s, sel, i) =~= Seq::<T>::empty());
    } else {
        lemma_split_from(s, sel, i + 1);
        let k = kept_from(s, sel, i + 1);
        let p = picked_desc_from(s, sel, i + 1);
        let x = s[i];
        assert(s.skip(i) =~= seq![x] + s.skip(i + 1));
        vstd::seq_lib::lemma_multiset_commutative(seq![x], s.skip(i + 1));
        vstd::seq_lib::lemma_multiset_commutative(k, p);
        assert(seq![x].to_multiset() =~= Multiset::<T>::empty().insert(x)) by {
            assert(seq![x] =~= Seq::<T>::empty().push(x));
        }
        if sel.contains(i as usize) {
            vstd::seq_lib::lemma_multiset_commutative(k, p.push(x));
        } else {
            assert(seq![x] + k + p =~= seq![x] + (k + p));
            vstd::seq_lib::lemma_multiset_commutative(seq![x], k + p);
        }
    }
}

/// Removing the selected items and putting them back after the rest keeps every item
/// exactly once: cut followed by paste loses and duplicates nothing.
pub proof fn lemma_cut_and_paste_keeps_items<T>(s: Seq<T>, sel: Set<usize>)
    ensures
        (without_selected(s, sel) + selected_desc(s, sel)).to_multiset() =~= s.to_multiset(),
        without_selected(s, sel).len() + selected_desc(s, sel).len() == s.len(),
{
    lemma_split_from(s, sel, 0);
    assert(s.skip(0) =~= s);
    vstd::seq_lib::to_multiset_len(without_selected(s, sel) + selected_desc(s, sel));
    vstd::seq_lib::to_multiset_len(s);
}

/// The positions below `n` that `sel` holds, in increasing order.
pub open spec fn selected_positions(sel: Set<usize>, n: int) -> Seq<usize>
    decreases n,
{
    if n <= 0 {
        Seq::empty()
    } else if sel.contains((n - 1) as usize) {
        selected_positions(sel, n - 1).push((n - 1) as usize)
    } else {
        selected_positions(sel, n - 1)
    }
}

/// Copies of the selected items, each with its position, in increasing position;
/// selected positions past the end are skipped.
pub fn selected_with_positions<T: CanvasItem>(items: &Vec<T>, sel: &HashSet<usize>) -> (out: Vec<(usize, T)>)
    ensures
        out@.len() == selected_positions(sel@, items@.len() as int).len(),
        forall|k: int|
            0 <= k < out@.len() ==> {
                &&& (#[trigger] out@[k]).0 == selected_positions(sel@, items@.len() as int)[k]
                &&& out@[k].0 < items@.len()
                &&& out@[k].1@ == items@[out@[k].0 as int]@
            },
        forall|k: int| 0 <= k < out@.len() ==> sel@.contains((#[trigger] out@[k]).0),
        forall|k1: int, k2: int|
            0 <= k1 < k2 < out@.len() ==> (#[trigger] out@[k1]).0 < (#[trigger] out@[k2]).0,
        forall|i: usize|
            i < items@.len() && #[trigger] sel@.contains(i) ==> exists|k: int|
                0 <= k < out@.len() && (#[trigger] out@[k]).0 == i,
{
    let mut out: Vec<(usize, T)> = Vec::new();
    let n: usize = items.len();
    let mut i: usize = 0;
    while i < n
        invariant
            n == items@.len(),
            i <= n,
            out@.len() == selected_positions(sel@, i as int).len(),
            forall|k: int|
                0 <= k < out@.len() ==> {
                    &&& (#[trigger] out@[k]).0 == selected_positions(sel@, i as int)[k]
                    &&& out@[k].0 < i
                    &&& out@[k].1@ == items@[out@[k].0 as int]@
                },
        decreases n - i,
    {
        if sel.contains(&i) {
            let item = items[i].clone();
            proof {
                T::lemma_clone_shows_same(items@[i as int], item);
            }
            out.push((i, item));
        }
        assert(selected_positions(sel@, i + 1) == if sel@.contains(i) {
            selected_positions(sel@, i as int).push(i)
        } else {
            selected_positions(sel@, i as int)
        });
        i = i + 1;
    }
    proof {
        lemma_selected_positions(sel@, n as int);
        let sp = selected_positions(sel@, n as int);
        assert forall|j: usize| j < items@.len() && #[trigger] sel@.contains(j) implies exists|k: int|
            0 <= k < out@.len() && (#[trigger] out@[k]).0 == j by {
            assert(sp.contains(j));
            let k = choose|k: int| 0 <= k < sp.len() && sp[k] == j;
            assert(out@[k].0 == j);
        }
    }
    out
}

/// The selected positions below `n` are exactly the positions below `n` that `sel`
/// holds, each once, in increasing order.
pub proof fn lemma_selected_positions(sel: Set<usize>, n: int)
    requires
        0 <= n <= usize::MAX,
    ensures
        forall|k: int|
            0 <= k < selected_positions(sel, n).len() ==> sel.contains(
                #[trigger] selected_positions(sel, n)[k],
            ) && selected_positions(sel, n)[k] < n,
        forall|k1: int, k2: int|
            0 <= k1 < k2 < selected_positions(sel, n).len() ==> #[trigger] selected_positions(
                sel,
                n,
            )[k1] < #[trigger] selected_positions(sel, n)[k2],
        forall|i: usize| i < n && #[trigger] sel.contains(i) ==> selected_positions(sel, n).contains(i),
    decreases n,
{
    if n > 0 {
        lemma_selected_positions(sel, n - 1);
        let prev = selected_positions(sel, n - 1);
        let cur = selected_positions(sel, n);
        if sel.contains((n - 1) as usize) {
            assert(cur == prev.push((n - 1) as usize));
            assert forall|i: usize| i < n && #[trigger] sel.contains(i) implies cur.contains(i) by {
                if i < n - 1 {
                    let k = choose|k: int| 0 <= k < prev.len() && prev[k] == i;
                    assert(cur[k] == i);
                } else {
                    assert(cur[cur.len() - 1] == i);
                }
            }
        }
    }
}

/// Whether every position in `set` is below `n`.
pub fn indices_fit(set: &HashSet<usize>, n: usize) -> (b: bool)
    ensures
        b == indices_below(set@, n as nat),
{
    for k in it: set.iter()
        invariant
            forall|j: int| 0 <= j < it.index() ==> *it.seq()[j] < n,
    {
        if *k >= n {
            assert(it.seq()[it.index()] == k);
            assert(set@.contains(*k));
            return false;
        }
    }
    true
}

/// How many positions below `n` the set `sel` holds.
pub open spec fn count_selected(sel: Set<usize>, n: int) -> int
    decreases n,
{
    if n <= 0 {
        0
    } else {
        count_selected(sel, n - 1) + if sel.contains((n - 1) as usize) {
            1int
        } else {
            0int
        }
    }
}

proof fn lemma_count_bounds(sel: Set<usize>, i: int, n: int)
    requires
        0 <= i <= n,
    ensures
        0 <= count_selected(sel, i) <= count_selected(sel, n),
        count_selected(sel, n) - count_selected(sel, i) <= n - i,
    decreases n - i,
{
    if i < n {
        lemma_count_bounds(sel, i, n - 1);
    } else {
        lemma_count_nonneg(sel, i);
    }
}

proof fn lemma_count_nonneg(sel: Set<usize>, n: int)
    ensures
        count_selected(sel, n) >= 0,
    decreases n,
{
    if n > 0 {
        lemma_count_nonneg(sel, n - 1);
    }
}

proof fn lemma_count_agrees(a: Set<usize>, b: Set<usize>, m: int)
    requires
        m <= usize::MAX + 1,
        forall|i: usize| i < m ==> (a.contains(i) <==> b.contains(i)),
    ensures
        count_selected(a, m) == count_selected(b, m),
    decreases m,
{
    if m > 0 {
        lemma_count_agrees(a, b, m - 1);
        assert(a.contains((m - 1) as usize) == b.contains((m - 1) as usize));
    }
}

/// When every position in `sel` is below `n`, `sel` is finite and holds exactly
/// `count_selected(sel, n)` positions.
pub proof fn lemma_count_is_size(sel: Set<usize>, n: int)
    requires
        0 <= n <= usize::MAX + 1,
        forall|i: usize| sel.contains(i) ==> i < n,
    ensures
        sel.finite(),
        sel.len() == count_selected(sel, n),
    decreases n,
{
    if n == 0 {
        assert(sel =~= Set::<usize>::empty());
    } else {
        let x = (n - 1) as usize;
        let rest = sel.remove(x);
        lemma_count_is_size(rest, n - 1);
        lemma_count_agrees(rest, sel, n - 1);
        if sel.contains(x) {
            assert(sel =~= rest.insert(x));
        } else {
            assert(sel =~= rest);
        }
    }
}

proof fn lemma_split_lengths<T>(s: Seq<T>, sel: Set<usize>, i: int)
    requires
        0 <= i <= s.len(),
        s.len() <= usize::MAX,
    ensures
        picked_desc_from(s, sel, i).len() == count_selected(sel, s.len() as int) - count_selected(sel, i),
        kept_from(s, sel, i).len() == (s.len() - i) - (count_selected(sel, s.len() as int)
            - count_selected(sel, i)),
    decreases s.len() - i,
{
    if i < s.len() {
        lemma_split_lengths(s, sel, i + 1);
        lemma_count_step(sel, i, s.len() as int);
    }
}

proof fn lemma_count_step(sel: Set<usize>, i: int, n: int)
    requires
        0 <= i < n,
    ensures
        count_selected(sel, i + 1) == count_selected(sel, i) + if sel.contains(i as usize) {
            1int
        } else {
            0int
        },
{
}

/// An item at a position that is not selected is kept, and lands after the items
/// kept before it: at position `j - count_selected(sel, j)` counted from `i`.
proof fn lemma_kept_index<T>(s: Seq<T>, sel: Set<usize>, i: int, j: int)
    requires
        0 <= i <= j < s.len(),
        s.len() <= usize::MAX,
        !sel.contains(j as usize),
    ensures
        0 <= (j - i) - (count_selected(sel, j) - count_selected(sel, i)) < kept_from(s, sel, i).len(),
        kept_from(s, sel, i)[(j - i) - (count_selected(sel, j) - count_selected(sel, i))] == s[j],
    decreases j - i,
{
    lemma_split_lengths(s, sel, i);
    lemma_count_bounds(sel, i, j);
    lemma_count_bounds(sel, j, s.len() as int);
    lemma_count_step(sel, j, s.len() as int);
    lemma_count_bounds(sel, j + 1, s.len() as int);
    if i < j {
        lemma_kept_index(s, sel, i + 1, j);
        lemma_count_step(sel, i, s.len() as int);
    }
}

/// A selected item is taken, after the selected items above it: at position
/// `count_selected(sel, n) - 1 - count_selected(sel, j)` counted from the top.
proof fn lemma_picked_index<T>(s: Seq<T>, sel: Set<usize>, i: int, j: int)
    requires
        0 <= i <= j < s.len(),
        s.len() <= usize::MAX,
        sel.contains(j as usize),
    ensures
        0 <= count_selected(sel, s.len() as int) - 1 - count_selected(sel, j) < picked_desc_from(
            s,
            sel,
            i,
        ).len(),
        picked_desc_from(s, sel, i)[count_selected(sel, s.len() as int) - 1 - count_selected(sel, j)]
            == s[j],
    decreases j - i,
{
    lemma_split_lengths(s, sel, i);
    lemma_split_lengths(s, sel, j + 1);
    lemma_count_bounds(sel, i, j);
    lemma_count_step(sel, j, s.len() as int);
    lemma_count_bounds(sel, j + 1, s.len() as int);
    if i < j {
        lemma_picked_index(s, sel, i + 1, j);
        lemma_count_step(sel, i, s.len() as int);
    }
}

/// Removing the selected positions of `s`, all of them below its length, leaves
/// `s.len() - sel.len()` items: each unselected item `s[j]` at position
/// `j - count_selected(sel, j)`, so in its old order. The items taken are `sel.len()`
/// many: each selected item `s[j]` at position `sel.len() - 1 - count_selected(sel, j)`,
/// so from the highest position down.
pub proof fn lemma_selection_split<T>(s: Seq<T>, sel: Set<usize>)
    requires
        s.len() <= usize::MAX,
        indices_below(sel, s.len()),
    ensures
        sel.finite(),
        without_selected(s, sel).len() == s.len() - sel.len(),
        selected_desc(s, sel).len() == sel.len(),
        forall|j: int|
            0 <= j < s.len() && !sel.contains(j as usize) ==> #[trigger] without_selected(s, sel)[j
                - count_selected(sel, j)] == s[j],
        forall|j: int|
            0 <= j < s.len() && sel.contains(j as usize) ==> #[trigger] selected_desc(s, sel)[sel.len()
                - 1 - count_selected(sel, j)] == s[j],
{
    lemma_count_is_size(sel, s.len() as int);
    lemma_split_lengths(s, sel, 0);
    assert forall|j: int| 0 <= j < s.len() && !sel.contains(j as usize) implies #[trigger] without_selected(
        s,
        sel,
    )[j - count_selected(sel, j)] == s[j] by {
        lemma_kept_index(s, sel, 0, j);
    }
    assert forall|j: int| 0 <= j < s.len() && sel.contains(j as usize) implies #[trigger] selected_desc(
        s,
        sel,
    )[sel.len() - 1 - count_selected(sel, j)] == s[j] by {
        lemma_picked_index(s, sel, 0, j);
    }
}

} // verus!
