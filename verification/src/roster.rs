//! Lists without repetition: the shape of a set of peers, of topics or of
//! addresses. A list keeps the order in which its items came, so that what is
//! sent to "every member" has a fixed order.

use vstd::prelude::*;

verus! {

broadcast use vstd::seq_lib::group_seq_properties;

/// Whether something differs from `x`.
pub open spec fn differs<A>(x: A) -> spec_fn(A) -> bool {
    |y: A| y != x
}

/// The list with `x` added at the end, unless it holds `x` already.
pub open spec fn with_item<A>(s: Seq<A>, x: A) -> Seq<A> {
    if s.contains(x) {
        s
    } else {
        s.push(x)
    }
}

/// The list without any `x`.
pub open spec fn without_item<A>(s: Seq<A>, x: A) -> Seq<A> {
    s.filter(differs(x))
}

/// The list with each of `xs` added in turn.
pub open spec fn with_items<A>(s: Seq<A>, xs: Seq<A>) -> Seq<A>
    decreases xs.len(),
{
    if xs.len() == 0 {
        s
    } else {
        with_item(with_items(s, xs.drop_last()), xs.last())
    }
}

/// Adding an item keeps a list free of repetition and adds the item to the
/// set of what it holds.
pub proof fn lemma_with_item<A>(s: Seq<A>, x: A)
    requires
        s.no_duplicates(),
    ensures
        with_item(s, x).no_duplicates(),
        forall|y: A| with_item(s, x).contains(y) <==> s.contains(y) || y == x,
        with_item(s, x).to_set() == s.to_set().insert(x),
{
    let t = with_item(s, x);
    assert forall|y: A| t.contains(y) <==> s.contains(y) || y == x by {
        if !s.contains(x) {
            if t.contains(y) {
                let i = choose|i: int| 0 <= i < t.len() && t[i] == y;
                if i < s.len() {
                    assert(s[i] == y);
                }
            }
            if s.contains(y) {
                let i = choose|i: int| 0 <= i < s.len() && s[i] == y;
                assert(t[i] == y);
            }
            assert(t[s.len() as int] == x);
        }
    }
    assert(t.to_set() =~= s.to_set().insert(x));
}

/// Taking an item out keeps a list free of repetition and takes the item
/// from the set of what it holds.
pub proof fn lemma_without_item<A>(s: Seq<A>, x: A)
    requires
        s.no_duplicates(),
    ensures
        without_item(s, x).no_duplicates(),
        forall|y: A| without_item(s, x).contains(y) <==> s.contains(y) && y != x,
        without_item(s, x).to_set() == s.to_set().remove(x),
        without_item(s, x).len() <= s.len(),
    decreases s.len(),
{
    let t = without_item(s, x);
    if s.len() == 0 {
        reveal(Seq::filter);
        assert(t =~= s);
    } else {
        let front = s.drop_last();
        let last = s.last();
        assert(front.push(last) =~= s);
        front.lemma_filter_push(last, differs(x));
        lemma_without_item(front, x);
        let u = without_item(front, x);
        assert(!front.contains(last)) by {
            if front.contains(last) {
                let i = choose|i: int| 0 <= i < front.len() && front[i] == last;
                assert(s[i] == s[s.len() - 1]);
            }
        }
        assert forall|y: A| t.contains(y) <==> s.contains(y) && y != x by {
            if s.contains(y) {
                let i = choose|i: int| 0 <= i < s.len() && s[i] == y;
                if i < front.len() {
                    assert(front[i] == y);
                }
            }
            if front.contains(y) {
                let i = choose|i: int| 0 <= i < front.len() && front[i] == y;
                assert(s[i] == y);
            }
            if last != x {
                assert(t == u.push(last));
                assert(t[u.len() as int] == last);
                if u.contains(y) {
                    let i = choose|i: int| 0 <= i < u.len() && u[i] == y;
                    assert(t[i] == y);
                }
                if t.contains(y) {
                    let i = choose|i: int| 0 <= i < t.len() && t[i] == y;
                    if i < u.len() {
                        assert(u[i] == y);
                    }
                }
            }
        }
    }
    assert(t.to_set() =~= s.to_set().remove(x));
}

/// A list that does not hold `x` is unchanged by taking `x` out.
pub proof fn lemma_without_absent<A>(s: Seq<A>, x: A)
    requires
        !s.contains(x),
    ensures
        without_item(s, x) == s,
    decreases s.len(),
{
    if s.len() == 0 {
        reveal(Seq::filter);
    } else {
        let front = s.drop_last();
        let last = s.last();
        assert(front.push(last) =~= s);
        front.lemma_filter_push(last, differs(x));
        assert(!front.contains(x)) by {
            if front.contains(x) {
                let i = choose|i: int| 0 <= i < front.len() && front[i] == x;
                assert(s[i] == x);
            }
        }
        assert(s[s.len() - 1] == last);
        lemma_without_absent(front, x);
    }
}

/// In a list free of repetition, taking out the item at a place is taking out
/// every item equal to it.
pub proof fn lemma_remove_is_without<A>(s: Seq<A>, i: int)
    requires
        s.no_duplicates(),
        0 <= i < s.len(),
    ensures
        s.remove(i) == without_item(s, s[i]),
    decreases s.len(),
{
    let x = s[i];
    let front = s.drop_last();
    let last = s.last();
    assert(front.push(last) =~= s);
    front.lemma_filter_push(last, differs(x));
    if i == s.len() - 1 {
        assert(!front.contains(x)) by {
            if front.contains(x) {
                let k = choose|k: int| 0 <= k < front.len() && front[k] == x;
                assert(s[k] == s[i]);
            }
        }
        lemma_without_absent(front, x);
        assert(s.remove(i) =~= front);
    } else {
        assert(front[i] == x);
        lemma_remove_is_without(front, i);
        assert(s[s.len() - 1] != s[i]);
        assert(s.remove(i) =~= front.remove(i).push(last));
    }
}

/// Adding several items keeps a list free of repetition; it then holds what
/// it held and what was added.
pub proof fn lemma_with_items<A>(s: Seq<A>, xs: Seq<A>)
    requires
        s.no_duplicates(),
    ensures
        with_items(s, xs).no_duplicates(),
        forall|y: A| with_items(s, xs).contains(y) <==> s.contains(y) || xs.contains(y),
    decreases xs.len(),
{
    if xs.len() > 0 {
        let front = xs.drop_last();
        lemma_with_items(s, front);
        lemma_with_item(with_items(s, front), xs.last());
        assert forall|y: A| with_items(s, xs).contains(y) <==> s.contains(y) || xs.contains(y) by {
            if front.contains(y) {
                let i = choose|i: int| 0 <= i < front.len() && front[i] == y;
                assert(xs[i] == y);
            }
            if xs.contains(y) {
                let i = choose|i: int| 0 <= i < xs.len() && xs[i] == y;
                if i < front.len() {
                    assert(front[i] == y);
                }
            }
            assert(xs[xs.len() - 1] == xs.last());
        }
    }
}

/// What can be kept in a roster: it can be compared and copied, and both go
/// by its view.
pub trait Member: View + Sized {
    /// Whether both stand for the same thing.
    fn same(&self, other: &Self) -> (same: bool)
        ensures
            same == (self@ == other@),
    ;

    /// A copy.
    fn duplicate(&self) -> (copy: Self)
        ensures
            copy@ == self@,
    ;
}

/// The views of a list of items.
pub open spec fn views<T: View>(items: Seq<T>) -> Seq<T::V> {
    items.map_values(|item: T| item@)
}

/// A list of items, no two of which have the same view.
#[derive(Debug, PartialEq, Eq)]
pub struct Roster<T: Member> {
    items: Vec<T>,
}

impl<T: Member> View for Roster<T> {
    type V = Seq<T::V>;

    /// The views of the items, in the order in which they came.
    closed spec fn view(&self) -> Seq<T::V> {
        views(self.items@)
    }
}

impl<T: Member> Roster<T> {
    /// Nothing occurs twice.
    pub open spec fn wf(&self) -> bool {
        self@.no_duplicates()
    }

    /// The empty roster.
    pub fn new() -> (roster: Roster<T>)
        ensures
            roster.wf(),
            roster@ == Seq::<T::V>::empty(),
    {
        let roster = Roster { items: Vec::new() };
        assert(roster@ =~= Seq::<T::V>::empty());
        roster
    }

    /// The number of items.
    pub fn len(&self) -> (len: usize)
        ensures
            len == self@.len(),
    {
        self.items.len()
    }

    /// Whether there is no item.
    pub fn is_empty(&self) -> (empty: bool)
        ensures
            empty == (self@.len() == 0),
    {
        self.items.len() == 0
    }

    /// The item at a place.
    pub fn get(&self, at: usize) -> (item: &T)
        requires
            at < self@.len(),
        ensures
            item@ == self@[at as int],
    {
        &self.items[at]
    }

    /// The items, in order.
    pub fn items(&self) -> (items: &Vec<T>)
        ensures
            views(items@) == self@,
    {
        &self.items
    }

    /// The items, in order, as a list of their own.
    pub fn into_items(self) -> (items: Vec<T>)
        ensures
            views(items@) == self@,
    {
        self.items
    }

    /// The place of the item with the view of `item`, if there is one.
    pub fn position(&self, item: &T) -> (at: Option<usize>)
        ensures
            match at {
                Some(at) => at < self@.len() && self@[at as int] == item@,
                None => !self@.contains(item@),
            },
    {
        let mut i: usize = 0;
        while i < self.items.len()
            invariant
                i <= self.items.len(),
                forall|k: int| 0 <= k < i ==> self@[k] != item@,
            decreases self.items.len() - i,
        {
            if self.items[i].same(item) {
                return Some(i);
            }
            i += 1;
        }
        None
    }

    /// Whether an item with the view of `item` is held.
    pub fn contains(&self, item: &T) -> (found: bool)
        ensures
            found == self@.contains(item@),
    {
        self.position(item).is_some()
    }

    /// Adds the item at the end unless one with its view is held already, and
    /// says whether it was added.
    pub fn insert(&mut self, item: T) -> (added: bool)
        requires
            old(self).wf(),
        ensures
            final(self).wf(),
            added == !old(self)@.contains(item@),
            final(self)@ == with_item(old(self)@, item@),
    {
        if self.contains(&item) {
            return false;
        }
        proof {
            lemma_with_item(self@, item@);
            assert(views(self.items@.push(item)) =~= views(self.items@).push(item@));
        }
        self.items.push(item);
        true
    }

    /// Takes out the item with the view of `item`, and says whether there
    /// was one.
    pub fn remove(&mut self, item: &T) -> (removed: bool)
        requires
            old(self).wf(),
        ensures
            final(self).wf(),
            removed == old(self)@.contains(item@),
            final(self)@ == without_item(old(self)@, item@),
    {
        proof {
            lemma_without_item(self@, item@);
        }
        match self.position(item) {
            Some(at) => {
                proof {
                    lemma_remove_is_without(self@, at as int);
                    assert(views(self.items@.remove(at as int)) =~= views(self.items@).remove(at as int));
                }
                self.items.remove(at);
                true
            },
            None => {
                proof {
                    lemma_without_absent(self@, item@);
                }
                false
            },
        }
    }

    /// Adds a copy of each of `items` in turn.
    pub fn absorb(&mut self, items: &Vec<T>)
        requires
            old(self).wf(),
        ensures
            final(self).wf(),
            final(self)@ == with_items(old(self)@, views(items@)),
    {
        let mut i: usize = 0;
        while i < items.len()
            invariant
                i <= items.len(),
                self.wf(),
                self@ == with_items(old(self)@, views(items@).take(i as int)),
            decreases items.len() - i,
        {
            proof {
                let all = views(items@);
                assert(all.take(i as int + 1).drop_last() =~= all.take(i as int));
                assert(all.take(i as int + 1).last() == items@[i as int]@);
            }
            self.insert(items[i].duplicate());
            i += 1;
        }
        proof {
            assert(views(items@).take(items@.len() as int) =~= views(items@));
        }
    }

    /// A copy of the roster without the item that has the view of `item`.
    pub fn except(&self, item: &T) -> (rest: Roster<T>)
        requires
            self.wf(),
        ensures
            rest.wf(),
            rest@ == without_item(self@, item@),
    {
        let mut rest: Vec<T> = Vec::new();
        let mut i: usize = 0;
        proof {
            reveal(Seq::filter);
            assert(views(rest@) =~= without_item(self@.take(0), item@));
        }
        while i < self.items.len()
            invariant
                i <= self.items.len(),
                views(rest@) == without_item(self@.take(i as int), item@),
            decreases self.items.len() - i,
        {
            proof {
                self@.lemma_take_succ_push(i as int);
                self@.take(i as int).lemma_filter_push(self@[i as int], differs(item@));
            }
            if !self.items[i].same(item) {
                let copy = self.items[i].duplicate();
                proof {
                    assert(views(rest@.push(copy)) =~= views(rest@).push(copy@));
                }
                rest.push(copy);
            }
            i += 1;
        }
        proof {
            assert(self@.take(self@.len() as int) =~= self@);
            lemma_without_item(self@, item@);
        }
        Roster { items: rest }
    }

    /// A copy of the roster.
    pub fn duplicate(&self) -> (copy: Roster<T>)
        ensures
            copy@ == self@,
    {
        let mut copy: Vec<T> = Vec::new();
        let mut i: usize = 0;
        while i < self.items.len()
            invariant
                i <= self.items.len(),
                views(copy@) =~= self@.take(i as int),
            decreases self.items.len() - i,
        {
            let item = self.items[i].duplicate();
            proof {
                assert(views(copy@.push(item)) =~= views(copy@).push(item@));
                self@.lemma_take_succ_push(i as int);
            }
            copy.push(item);
            i += 1;
        }
        proof {
            assert(self@.take(self@.len() as int) =~= self@);
        }
        Roster { items: copy }
    }
}

} // verus!
