//! A set of strings, kept in ascending order.
use vstd::prelude::*;

use crate::text::{characters, texts};

verus! {

/// Whether `a` comes before `b` in the order of their code points: at the first place where they
/// differ `a` has the lower one, or `a` ends there.
pub open spec fn precedes(a: Seq<char>, b: Seq<char>) -> bool
    decreases a.len(),
{
    if b.len() == 0 {
        false
    } else if a.len() == 0 {
        true
    } else if a[0] == b[0] {
        precedes(a.drop_first(), b.drop_first())
    } else {
        a[0] < b[0]
    }
}

/// No string comes before itself.
pub proof fn law_order_is_strict(a: Seq<char>)
    ensures
        !precedes(a, a),
    decreases a.len(),
{
    if a.len() > 0 {
        law_order_is_strict(a.drop_first());
    }
}

/// What comes before a string comes before all that follow it.
pub proof fn law_order_is_transitive(a: Seq<char>, b: Seq<char>, c: Seq<char>)
    requires
        precedes(a, b),
        precedes(b, c),
    ensures
        precedes(a, c),
    decreases a.len(),
{
    if a.len() > 0 && a[0] == b[0] && b[0] == c[0] {
        law_order_is_transitive(a.drop_first(), b.drop_first(), c.drop_first());
    }
}

/// Of two strings that differ one comes before the other.
pub proof fn law_order_is_total(a: Seq<char>, b: Seq<char>)
    ensures
        precedes(a, b) || precedes(b, a) || a == b,
    decreases a.len(),
{
    if a.len() > 0 && b.len() > 0 && a[0] == b[0] {
        law_order_is_total(a.drop_first(), b.drop_first());
        if a.drop_first() == b.drop_first() {
            assert(a == seq![a[0]] + a.drop_first());
            assert(b == seq![b[0]] + b.drop_first());
        }
    } else if a.len() == 0 && b.len() == 0 {
        assert(a == b);
    }
}

/// Whether every string comes before all that follow it; so no string occurs twice.
pub open spec fn ascending(items: Seq<Seq<char>>) -> bool {
    forall|i: int, j: int| 0 <= i < j < items.len() ==> precedes(#[trigger] items[i], #[trigger] items[j])
}

/// How one string stands to another in the order.
#[derive(Debug, Clone, Copy, PartialEq, Eq, Structural)]
enum Place {
    Before,
    Same,
    After,
}

fn place(a: &str, b: &str) -> (r: Place)
    ensures
        r == Place::Before <==> precedes(a@, b@),
        r == Place::Same <==> a@ == b@,
        r == Place::After <==> precedes(b@, a@),
{
    let xs = characters(a);
    let ys = characters(b);
    let mut i: usize = 0;
    proof {
        assert(xs@.skip(0) == xs@);
        assert(ys@.skip(0) == ys@);
    }
    while i < xs.len() && i < ys.len() && xs[i] == ys[i]
        invariant
            i <= xs.len(),
            i <= ys.len(),
            xs@.take(i as int) == ys@.take(i as int),
            precedes(xs@, ys@) == precedes(xs@.skip(i as int), ys@.skip(i as int)),
            precedes(ys@, xs@) == precedes(ys@.skip(i as int), xs@.skip(i as int)),
        decreases xs.len() - i,
    {
        proof {
            assert(xs@.skip(i as int).drop_first() == xs@.skip(i + 1));
            assert(ys@.skip(i as int).drop_first() == ys@.skip(i + 1));
            assert(xs@.take(i + 1) == xs@.take(i as int).push(xs@[i as int]));
            assert(ys@.take(i + 1) == ys@.take(i as int).push(ys@[i as int]));
        }
        i = i + 1;
    }
    proof {
        law_order_is_strict(xs@);
        if i == xs.len() && i == ys.len() {
            assert(xs@.take(i as int) == xs@);
            assert(ys@.take(i as int) == ys@);
        }
    }
    if i == xs.len() {
        if i == ys.len() {
            Place::Same
        } else {
            Place::Before
        }
    } else if i == ys.len() {
        Place::After
    } else if xs[i] < ys[i] {
        Place::Before
    } else {
        Place::After
    }
}

/// A set of strings in ascending order.
#[derive(Debug)]
pub struct SortedStrings {
    items: Vec<String>,
}

impl View for SortedStrings {
    type V = Seq<Seq<char>>;

    closed spec fn view(&self) -> Seq<Seq<char>> {
        texts(self.items@)
    }
}

impl SortedStrings {
    /// The strings stand in ascending order, so none occurs twice.
    pub open spec fn wf(&self) -> bool {
        ascending(self@)
    }

    /// The empty set.
    pub fn new() -> (r: Self)
        ensures
            r.wf(),
            r@ == Seq::<Seq<char>>::empty(),
    {
        SortedStrings { items: Vec::new() }
    }

    /// The place at which `item` stands or belongs, and whether it stands there.
    fn search(&self, item: &str) -> (r: (usize, bool))
        requires
            self.wf(),
        ensures
            r.0 <= self@.len(),
            r.1 <==> self@.contains(item@),
            r.1 ==> r.0 < self@.len() && self@[r.0 as int] == item@,
            forall|j: int| 0 <= j < r.0 ==> precedes(#[trigger] self@[j], item@),
            !r.1 ==> forall|j: int| r.0 <= j < self@.len() ==> precedes(item@, #[trigger] self@[j]),
    {
        let mut i: usize = 0;
        while i < self.items.len()
            invariant
                self.wf(),
                i <= self.items.len(),
                forall|j: int| 0 <= j < i ==> precedes(#[trigger] self@[j], item@),
            decreases self.items.len() - i,
        {
            assert(self@[i as int] == self.items@[i as int]@);
            match place(self.items[i].as_str(), item) {
                Place::Before => {
                    i = i + 1;
                },
                Place::Same => {
                    return (i, true);
                },
                Place::After => {
                    proof {
                        assert forall|j: int| i <= j < self@.len() implies precedes(
                            item@,
                            #[trigger] self@[j],
                        ) by {
                            if j > i {
                                law_order_is_transitive(item@, self@[i as int], self@[j]);
                            }
                        }
                        lemma_absent(self@, item@, i as int);
                    }
                    return (i, false);
                },
            }
        }
        proof {
            lemma_absent(self@, item@, i as int);
        }
        (i, false)
    }

    /// Whether `item` is in the set.
    pub fn contains(&self, item: &str) -> (r: bool)
        requires
            self.wf(),
        ensures
            r == self@.contains(item@),
    {
        self.search(item).1
    }

    /// Adds `item`, and says whether it was new.
    pub fn insert(&mut self, item: String) -> (r: bool)
        requires
            old(self).wf(),
        ensures
            final(self).wf(),
            final(self)@.to_set() == old(self)@.to_set().insert(item@),
            r == !old(self)@.contains(item@),
    {
        let (i, found) = self.search(item.as_str());
        if found {
            assert(self@.to_set() == self@.to_set().insert(item@)) by {
                assert(self@.to_set().contains(item@));
            }
            return false;
        }
        let ghost before = self@;
        let ghost new = item@;
        self.items.insert(i, item);
        proof {
            assert(self@ == before.insert(i as int, new));
            assert forall|j: int, k: int| 0 <= j < k < self@.len() implies precedes(
                #[trigger] self@[j],
                #[trigger] self@[k],
            ) by {
                let jj = if j < i { j } else { j - 1 };
                let kk = if k < i { k } else { k - 1 };
                if j != i && k != i {
                    assert(precedes(before[jj], before[kk]));
                } else if j == i {
                    assert(precedes(new, before[kk]));
                } else {
                    assert(precedes(before[jj], new));
                }
            }
            assert forall|x: Seq<char>| self@.to_set().contains(x) <==> before.to_set().insert(
                new,
            ).contains(x) by {
                if before.contains(x) {
                    let j = before.index_of(x);
                    if j < i {
                        assert(self@[j] == x);
                    } else {
                        assert(self@[j + 1] == x);
                    }
                }
                if x == new {
                    assert(self@[i as int] == x);
                }
                if self@.contains(x) {
                    let j = self@.index_of(x);
                    if j < i {
                        assert(before[j] == x);
                    } else if j > i {
                        assert(before[j - 1] == x);
                    }
                }
            }
            assert(self@.to_set() == before.to_set().insert(new));
        }
        true
    }

    /// The strings, in ascending order.
    pub fn into_vec(self) -> (r: Vec<String>)
        ensures
            texts(r@) == self@,
    {
        self.items
    }
}

/// A string that stands apart from all strings on both sides of a place is absent.
proof fn lemma_absent(items: Seq<Seq<char>>, item: Seq<char>, at: int)
    requires
        0 <= at <= items.len(),
        forall|j: int| 0 <= j < at ==> precedes(#[trigger] items[j], item),
        forall|j: int| at <= j < items.len() ==> precedes(item, #[trigger] items[j]),
    ensures
        !items.contains(item),
{
    if items.contains(item) {
        let j = items.index_of(item);
        law_order_is_strict(items[j]);
    }
}

/// There is one way to list a set of strings in ascending order.
pub proof fn law_ascending_list_is_unique(a: Seq<Seq<char>>, b: Seq<Seq<char>>)
    requires
        ascending(a),
        ascending(b),
        a.to_set() == b.to_set(),
    ensures
        a == b,
    decreases a.len(),
{
    if a.len() == 0 {
        if b.len() > 0 {
            assert(b.to_set().contains(b[0]));
            assert(a.contains(b[0]));
        }
        assert(a == b);
    } else {
        lemma_last_is_greatest(a, b);
        lemma_last_is_greatest(b, a);
        let x = a.last();
        let y = b.last();
        if precedes(x, y) && precedes(y, x) {
            law_order_is_transitive(x, y, x);
            law_order_is_strict(x);
        }
        lemma_without_last(a);
        lemma_without_last(b);
        law_ascending_list_is_unique(a.drop_last(), b.drop_last());
        assert(a == a.drop_last().push(x));
        assert(b == b.drop_last().push(y));
    }
}

/// The last string of one list comes before the last string of another that holds the same
/// strings, or is the same.
proof fn lemma_last_is_greatest(a: Seq<Seq<char>>, b: Seq<Seq<char>>)
    requires
        ascending(b),
        a.to_set() == b.to_set(),
        a.len() > 0,
    ensures
        b.len() > 0,
        a.last() == b.last() || precedes(a.last(), b.last()),
{
    assert(a[a.len() - 1] == a.last());
    assert(a.to_set().contains(a.last()));
    assert(b.to_set().contains(a.last()));
    let i = b.index_of(a.last());
    assert(b[b.len() - 1] == b.last());
}

/// An ascending list without its last string holds the other strings of the list.
proof fn lemma_without_last(a: Seq<Seq<char>>)
    requires
        ascending(a),
        a.len() > 0,
    ensures
        ascending(a.drop_last()),
        a.drop_last().to_set() == a.to_set().remove(a.last()),
{
    let before = a.drop_last();
    assert(a[a.len() - 1] == a.last());
    assert forall|x: Seq<char>| before.to_set().contains(x) <==> a.to_set().remove(
        a.last(),
    ).contains(x) by {
        if before.contains(x) {
            let i = before.index_of(x);
            assert(a[i] == x);
            law_order_is_strict(x);
        }
        if a.contains(x) && x != a.last() {
            let i = a.index_of(x);
            assert(before[i] == x);
        }
    }
    assert(before.to_set() == a.to_set().remove(a.last()));
}

/// One string comes before another exactly where they agree up to a place at which it ends, or at
/// which it has the lower character.
pub proof fn law_first_difference_decides(a: Seq<char>, b: Seq<char>)
    ensures
        precedes(a, b) <==> exists|k: int| #[trigger] differ_first_at(a, b, k),
    decreases a.len(),
{
    if a.len() > 0 && b.len() > 0 && a[0] == b[0] {
        let (x, y) = (a.drop_first(), b.drop_first());
        law_first_difference_decides(x, y);
        if exists|k: int| #[trigger] differ_first_at(x, y, k) {
            let k = choose|k: int| #[trigger] differ_first_at(x, y, k);
            assert forall|i: int| 0 <= i < k + 1 implies #[trigger] a[i] == b[i] by {
                if i > 0 {
                    assert(x[i - 1] == y[i - 1]);
                }
            }
            assert(differ_first_at(a, b, k + 1));
        }
        if exists|k: int| #[trigger] differ_first_at(a, b, k) {
            let k = choose|k: int| #[trigger] differ_first_at(a, b, k);
            assert(k > 0);
            assert forall|i: int| 0 <= i < k - 1 implies #[trigger] x[i] == y[i] by {
                assert(a[i + 1] == b[i + 1]);
            }
            assert(differ_first_at(x, y, k - 1));
        }
    } else if b.len() > 0 {
        if precedes(a, b) {
            assert(differ_first_at(a, b, 0));
        }
        if exists|k: int| #[trigger] differ_first_at(a, b, k) {
            let k = choose|k: int| #[trigger] differ_first_at(a, b, k);
            if a.len() > 0 && k > 0 {
                assert(a[0] == b[0]);
            }
        }
    }
}

/// Whether two strings agree before a place, and the first ends there or has the lower character.
pub open spec fn differ_first_at(a: Seq<char>, b: Seq<char>, k: int) -> bool {
    &&& 0 <= k <= a.len()
    &&& k < b.len()
    &&& forall|i: int| 0 <= i < k ==> #[trigger] a[i] == b[i]
    &&& k == a.len() || a[k] < b[k]
}

} // verus!
