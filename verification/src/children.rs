use vstd::prelude::*;

verus! {

/// `s` without any occurrence of `x`, the other items keeping their order.
pub open spec fn remove_value(s: Seq<u64>, x: u64) -> Seq<u64>
    decreases s.len(),
{
    if s.len() == 0 {
        s
    } else if s.last() == x {
        remove_value(s.drop_last(), x)
    } else {
        remove_value(s.drop_last(), x).push(s.last())
    }
}

/// No item occurs twice in `s`.
pub open spec fn distinct(s: Seq<u64>) -> bool {
    forall|i: int, j: int| 0 <= i < j < s.len() ==> s[i] != s[j]
}

/// `s` with `x` moved (or added) so that it sits at position `index` among the
/// other items, `index` being clamped to their number.
pub open spec fn placed_at(s: Seq<u64>, x: u64, index: int) -> Seq<u64> {
    let rest = remove_value(s, x);
    let at = if index < rest.len() { index } else { rest.len() as int };
    rest.insert(at, x)
}

pub proof fn lemma_remove_value_contents(s: Seq<u64>, x: u64)
    ensures
        !remove_value(s, x).contains(x),
        remove_value(s, x).len() <= s.len(),
        forall|y: u64| y != x ==> (remove_value(s, x).contains(y) <==> s.contains(y)),
        distinct(s) ==> distinct(remove_value(s, x)),
        !s.contains(x) ==> remove_value(s, x) == s,
    decreases s.len(),
{
    if s.len() > 0 {
        let p = s.drop_last();
        lemma_remove_value_contents(p, x);
        let l = s.last();
        let r = remove_value(p, x);
        assert(s =~= p.push(l));
        assert forall|y: u64| #[trigger] s.contains(y) <==> (p.contains(y) || y == l) by {
            if s.contains(y) {
                let k = choose|k: int| 0 <= k < s.len() && s[k] == y;
                if k < s.len() - 1 {
                    assert(p[k] == y);
                }
            }
            if p.contains(y) {
                let k = choose|k: int| 0 <= k < p.len() && p[k] == y;
                assert(s[k] == y);
            }
            if y == l {
                assert(s[s.len() - 1] == y);
            }
        }
        assert forall|y: u64| #[trigger] r.push(l).contains(y) <==> (r.contains(y) || y == l) by {
            if r.push(l).contains(y) {
                let k = choose|k: int| 0 <= k < r.push(l).len() && r.push(l)[k] == y;
                if k < r.len() {
                    assert(r[k] == y);
                }
            }
            if r.contains(y) {
                let k = choose|k: int| 0 <= k < r.len() && r[k] == y;
                assert(r.push(l)[k] == y);
            }
            if y == l {
                assert(r.push(l)[r.len() as int] == y);
            }
        }
        if distinct(s) {
            assert(distinct(p));
            if s.last() != x {
                let r = remove_value(p, x);
                assert(!r.contains(s.last())) by {
                    if r.contains(s.last()) {
                        assert(p.contains(s.last()));
                        let m = choose|m: int| 0 <= m < p.len() && p[m] == s.last();
                        assert(s[m] == s[s.len() - 1]);
                    }
                }
                assert forall|i: int, j: int| 0 <= i < j < r.push(s.last()).len() implies r.push(
                    s.last(),
                )[i] != r.push(s.last())[j] by {
                    if j == r.len() {
                        assert(r[i] == r.push(s.last())[i]);
                    }
                }
            }
        }
        if !s.contains(x) {
            assert(!p.contains(x)) by {
                if p.contains(x) {
                    let m = choose|m: int| 0 <= m < p.len() && p[m] == x;
                    assert(s[m] == x);
                }
            }
            assert(s.last() != x) by {
                assert(s[s.len() - 1] == s.last());
            }
            assert(p.push(s.last()) == s);
        }
    }
}

pub proof fn lemma_placed_at(s: Seq<u64>, x: u64, index: int)
    requires
        0 <= index,
    ensures
        distinct(s) ==> distinct(placed_at(s, x, index)),
        placed_at(s, x, index).contains(x),
        forall|y: u64| y != x ==> (placed_at(s, x, index).contains(y) <==> s.contains(y)),
{
    lemma_remove_value_contents(s, x);
    let rest = remove_value(s, x);
    let at = if index < rest.len() { index } else { rest.len() as int };
    let r = rest.insert(at, x);
    assert(r[at] == x);
    assert forall|y: u64| y != x implies (r.contains(y) <==> rest.contains(y)) by {
        if r.contains(y) {
            let k = choose|k: int| 0 <= k < r.len() && r[k] == y;
            if k < at {
                assert(rest[k] == y);
            } else {
                assert(rest[k - 1] == y);
            }
        }
        if rest.contains(y) {
            let k = choose|k: int| 0 <= k < rest.len() && rest[k] == y;
            if k < at {
                assert(r[k] == y);
            } else {
                assert(r[k + 1] == y);
            }
        }
    }
    if distinct(s) {
        assert forall|i: int, j: int| 0 <= i < j < r.len() implies r[i] != r[j] by {
            if i == at {
                assert(rest.contains(r[j])) by {
                    assert(rest[j - 1] == r[j]);
                }
            } else if j == at {
                assert(rest.contains(r[i])) by {
                    assert(rest[i] == r[i]);
                }
            } else {
                let i2 = if i < at { i } else { i - 1 };
                let j2 = if j < at { j } else { j - 1 };
                assert(rest[i2] == r[i]);
                assert(rest[j2] == r[j]);
            }
        }
    }
}

/// Builds `v` without any occurrence of `x`.
pub fn vec_remove_value(v: &Vec<u64>, x: u64) -> (out: Vec<u64>)
    ensures
        out@ == remove_value(v@, x),
{
    let mut out: Vec<u64> = Vec::new();
    let mut i: usize = 0;
    while i < v.len()
        invariant
            i <= v.len(),
            out@ == remove_value(v@.take(i as int), x),
        decreases v.len() - i,
    {
        assert(v@.take(i + 1).drop_last() == v@.take(i as int));
        if v[i] != x {
            out.push(v[i]);
        }
        i += 1;
    }
    assert(v@.take(v.len() as int) == v@);
    out
}

/// Where `x` sits in `v`, if it is there.
pub fn vec_position(v: &Vec<u64>, x: u64) -> (r: Option<usize>)
    ensures
        match r {
            Some(i) => i < v.len() && v@[i as int] == x && forall|j: int| 0 <= j < i ==> v@[j] != x,
            None => !v@.contains(x),
        },
{
    let mut i: usize = 0;
    while i < v.len()
        invariant
            i <= v.len(),
            forall|j: int| 0 <= j < i ==> v@[j] != x,
        decreases v.len() - i,
    {
        if v[i] == x {
            return Some(i);
        }
        i += 1;
    }
    None
}

/// The ordered children of a logical XAML element, each named by an element
/// identifier. The order is kept before the native control exists, and a
/// child occurs at most once.
pub struct ChildList {
    children: Vec<u64>,
}

impl View for ChildList {
    type V = Seq<u64>;

    closed spec fn view(&self) -> Seq<u64> {
        self.children@
    }
}

impl ChildList {
    /// No child occurs twice.
    pub closed spec fn wf(&self) -> bool {
        distinct(self.children@)
    }

    /// A list without children.
    pub fn new() -> (r: Self)
        ensures
            r.wf(),
            r@ == Seq::<u64>::empty(),
    {
        ChildList { children: Vec::new() }
    }

    /// The number of children.
    pub fn len(&self) -> (n: usize)
        ensures
            n == self@.len(),
    {
        self.children.len()
    }

    /// The children, in order.
    pub fn as_vec(&self) -> (v: Vec<u64>)
        ensures
            v@ == self@,
    {
        self.children.clone()
    }

    /// Moves (or adds) `child` to position `index` among the other children,
    /// clamping `index` to their number; returns the position it took.
    pub fn insert_child(&mut self, child: u64, index: usize) -> (at: usize)
        requires
            old(self).wf(),
        ensures
            final(self).wf(),
            final(self)@ == placed_at(old(self)@, child, index as int),
            at == (if index < remove_value(old(self)@, child).len() {
                index as int
            } else {
                remove_value(old(self)@, child).len() as int
            }),
            final(self)@[at as int] == child,
    {
        proof {
            lemma_placed_at(self.children@, child, index as int);
            lemma_remove_value_contents(self.children@, child);
        }
        let mut rest = vec_remove_value(&self.children, child);
        let at = if index < rest.len() {
            index
        } else {
            rest.len()
        };
        rest.insert(at, child);
        self.children = rest;
        at
    }

    /// Moves (or adds) `child` to the end.
    pub fn append_child(&mut self, child: u64) -> (at: usize)
        requires
            old(self).wf(),
        ensures
            final(self).wf(),
            final(self)@ == remove_value(old(self)@, child).push(child),
            at == final(self)@.len() - 1,
    {
        let mut count: usize = 0;
        let mut i: usize = 0;
        while i < self.children.len()
            invariant
                i <= self.children.len(),
                count == remove_value(self.children@.take(i as int), child).len(),
                count <= i,
            decreases self.children.len() - i,
        {
            assert(self.children@.take(i + 1).drop_last() == self.children@.take(i as int));
            if self.children[i] != child {
                count += 1;
            }
            i += 1;
        }
        assert(self.children@.take(self.children.len() as int) == self.children@);
        let at = self.insert_child(child, count);
        proof {
            let rest = remove_value(old(self)@, child);
            assert(rest.insert(rest.len() as int, child) == rest.push(child));
        }
        at
    }

    /// Where `child` is among the children.
    pub fn child_index(&self, child: u64) -> (r: Option<usize>)
        requires
            self.wf(),
        ensures
            match r {
                Some(i) => i < self@.len() && self@[i as int] == child,
                None => !self@.contains(child),
            },
    {
        vec_position(&self.children, child)
    }

    /// Places `child` after `predecessor`. The target position is the one
    /// just past the predecessor in the list as it stood before the call;
    /// the child is then taken out and put at that position among the others.
    /// So a child that stood after its predecessor (or a new child) lands
    /// right after it, while a child that stood before its predecessor lands
    /// one place further (`[1, 2, 3]` with 1 after 2 gives `[2, 3, 1]`).
    /// Without a predecessor the child goes first; with a predecessor that is
    /// not a child, the child keeps its position, or goes last when it is new.
    pub fn insert_child_after(&mut self, child: u64, predecessor: Option<u64>) -> (at: usize)
        requires
            old(self).wf(),
        ensures
            final(self).wf(),
            final(self)@ == placed_at(old(self)@, child, after_index(old(self)@, child, predecessor)),
            final(self)@[at as int] == child,
    {
        let previous = vec_position(&self.children, child);
        let index = match predecessor {
            Some(p) => match vec_position(&self.children, p) {
                Some(i) => i + 1,
                None => match previous {
                    Some(i) => i,
                    None => self.children.len(),
                },
            },
            None => 0,
        };
        proof {
            if let Some(p) = predecessor {
                assert(distinct(self.children@));
            }
        }
        self.insert_child(child, index)
    }

    /// Removes `child`, keeping the order of the others.
    pub fn remove_child(&mut self, child: u64)
        requires
            old(self).wf(),
        ensures
            final(self).wf(),
            final(self)@ == remove_value(old(self)@, child),
    {
        proof {
            lemma_remove_value_contents(self.children@, child);
        }
        self.children = vec_remove_value(&self.children, child);
    }
}

/// The position that [`ChildList::insert_child_after`] asks for, counted in
/// the list before the child is taken out: just past the predecessor when it
/// is a child, 0 without one, and otherwise where the child already is (or the
/// end for a new child).
pub open spec fn after_index(s: Seq<u64>, child: u64, predecessor: Option<u64>) -> int {
    match predecessor {
        None => 0,
        Some(p) => if s.contains(p) {
            s.index_of(p) + 1
        } else if s.contains(child) {
            s.index_of(child)
        } else {
            s.len() as int
        },
    }
}

proof fn lemma_remove_inserted(rest: Seq<u64>, x: u64, at: int)
    requires
        !rest.contains(x),
        0 <= at <= rest.len(),
    ensures
        remove_value(rest.insert(at, x), x) == rest,
    decreases rest.len(),
{
    lemma_remove_value_contents(rest, x);
    if at == rest.len() {
        assert(rest.insert(at, x) == rest.push(x));
        assert(rest.push(x).drop_last() == rest);
    } else {
        let p = rest.drop_last();
        assert(!p.contains(x)) by {
            if p.contains(x) {
                let k = choose|k: int| 0 <= k < p.len() && p[k] == x;
                assert(rest[k] == x);
            }
        }
        lemma_remove_inserted(p, x, at);
        assert(rest.insert(at, x) =~= p.insert(at, x).push(rest.last()));
        assert(rest.insert(at, x).drop_last() =~= p.insert(at, x));
        assert(rest.last() != x) by {
            assert(rest[rest.len() - 1] == rest.last());
        }
        assert(p.push(rest.last()) =~= rest);
    }
}

/// Law: moving a child (by insertion at any index) never reorders the other
/// children, and it always ends up where it was asked to be (clamped).
pub proof fn lemma_move_keeps_others(s: Seq<u64>, child: u64, index: int)
    requires
        0 <= index,
    ensures
        remove_value(placed_at(s, child, index), child) == remove_value(s, child),
        placed_at(s, child, index)[if index < remove_value(s, child).len() {
            index
        } else {
            remove_value(s, child).len() as int
        }] == child,
{
    lemma_remove_value_contents(s, child);
    let rest = remove_value(s, child);
    let at = if index < rest.len() { index } else { rest.len() as int };
    lemma_remove_inserted(rest, child, at);
}

proof fn lemma_remove_keeps_prefix(s: Seq<u64>, x: u64, n: int)
    requires
        0 <= n <= s.len(),
        forall|m: int| 0 <= m < n ==> #[trigger] s[m] != x,
    ensures
        remove_value(s, x).len() >= n,
        forall|m: int| 0 <= m < n ==> #[trigger] remove_value(s, x)[m] == s[m],
    decreases s.len(),
{
    if s.len() == n {
        lemma_remove_value_contents(s, x);
        assert(!s.contains(x)) by {
            if s.contains(x) {
                let m = choose|m: int| 0 <= m < s.len() && s[m] == x;
                assert(s[m] != x);
            }
        }
    } else {
        let p = s.drop_last();
        lemma_remove_keeps_prefix(p, x, n);
    }
}

proof fn lemma_remove_len(s: Seq<u64>, x: u64)
    requires
        distinct(s),
    ensures
        remove_value(s, x).len() == if s.contains(x) { s.len() - 1 } else { s.len() as int },
    decreases s.len(),
{
    lemma_remove_value_contents(s, x);
    if s.len() > 0 {
        let p = s.drop_last();
        assert(distinct(p));
        lemma_remove_len(p, x);
        lemma_remove_value_contents(p, x);
        assert(s == p.push(s.last()));
        if s.last() == x {
            assert(!p.contains(x)) by {
                if p.contains(x) {
                    let m = choose|m: int| 0 <= m < p.len() && p[m] == x;
                    assert(s[m] == s[s.len() - 1]);
                }
            }
            assert(s[s.len() - 1] == x);
        } else {
            assert(s.contains(x) == p.contains(x)) by {
                if s.contains(x) {
                    let m = choose|m: int| 0 <= m < s.len() && s[m] == x;
                    assert(m != s.len() - 1);
                    assert(p[m] == x);
                }
                if p.contains(x) {
                    let m = choose|m: int| 0 <= m < p.len() && p[m] == x;
                    assert(s[m] == x);
                }
            }
        }
    }
}

/// Law: a child placed after a predecessor that stands at position `k`
/// lands directly after it, at `k + 1`, when the child is new or stood after
/// the predecessor; everything up to the predecessor stays where it was, and
/// a new child adds one child.
pub proof fn lemma_insert_after_lands_next_to_predecessor(s: Seq<u64>, child: u64, p: u64, k: int)
    requires
        distinct(s),
        0 <= k < s.len(),
        s[k] == p,
        forall|m: int| 0 <= m <= k ==> #[trigger] s[m] != child,
    ensures
        ({
            let r = placed_at(s, child, after_index(s, child, Some(p)));
            &&& r.len() == if s.contains(child) { s.len() as int } else { s.len() + 1int }
            &&& r[k] == p
            &&& r[k + 1] == child
            &&& forall|m: int| 0 <= m <= k ==> #[trigger] r[m] == s[m]
        }),
{
    assert(s.contains(p));
    let q = s.index_of(p);
    assert(q == k) by {
        assert(s[q] == p);
        if q != k {
            assert(s[q] == s[k]);
        }
    }
    lemma_remove_keeps_prefix(s, child, k + 1);
    lemma_remove_len(s, child);
    lemma_remove_value_contents(s, child);
}

/// Law: after a child is removed it is no longer a child, and the other
/// children keep their order.
pub proof fn lemma_remove_child(s: Seq<u64>, child: u64, other: u64)
    requires
        other != child,
    ensures
        !remove_value(s, child).contains(child),
        remove_value(s, child).contains(other) == s.contains(other),
        remove_value(remove_value(s, child), child) == remove_value(s, child),
{
    lemma_remove_value_contents(s, child);
    lemma_remove_value_contents(remove_value(s, child), child);
}

} // verus!
