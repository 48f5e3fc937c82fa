use vstd::prelude::*;

verus! {

/// One option of a WinUI `ComboBox`, as declared by a `SelectOption`.
#[derive(Debug)]
pub struct SelectOptionData {
    pub label: String,
    pub value: String,
    pub enabled: bool,
}

impl Clone for SelectOptionData {
    fn clone(&self) -> (r: Self)
        ensures
            r == *self,
    {
        SelectOptionData { label: self.label.clone(), value: self.value.clone(), enabled: self.enabled }
    }
}

/// The option identifiers of `s`, in order.
pub open spec fn option_ids(s: Seq<(u64, SelectOptionData)>) -> Seq<u64> {
    s.map_values(|p: (u64, SelectOptionData)| p.0)
}

/// Where the option with identifier `id` sits in `s`, if it is there.
pub open spec fn option_position(s: Seq<(u64, SelectOptionData)>, id: u64) -> Option<int> {
    if exists|i: int| 0 <= i < s.len() && s[i].0 == id {
        Some(choose|i: int| 0 <= i < s.len() && s[i].0 == id)
    } else {
        None
    }
}

/// No identifier occurs twice in `s`.
pub open spec fn ids_distinct(s: Seq<(u64, SelectOptionData)>) -> bool {
    forall|i: int, j: int| 0 <= i < j < s.len() ==> s[i].0 != s[j].0
}

/// `s` with the option `id` set to `option`: replaced in place when present,
/// appended otherwise.
pub open spec fn upserted(s: Seq<(u64, SelectOptionData)>, id: u64, option: SelectOptionData) -> Seq<(u64, SelectOptionData)> {
    match option_position(s, id) {
        Some(i) => s.update(i, (id, option)),
        None => s.push((id, option)),
    }
}

/// `s` without the option `id`.
pub open spec fn without_option(s: Seq<(u64, SelectOptionData)>, id: u64) -> Seq<(u64, SelectOptionData)>
    decreases s.len(),
{
    if s.len() == 0 {
        s
    } else if s.last().0 == id {
        without_option(s.drop_last(), id)
    } else {
        without_option(s.drop_last(), id).push(s.last())
    }
}

proof fn lemma_without_option(s: Seq<(u64, SelectOptionData)>, id: u64)
    ensures
        forall|k: int| 0 <= k < without_option(s, id).len() ==> #[trigger] without_option(s, id)[k].0 != id
            && exists|m: int| 0 <= m < s.len() && s[m] == without_option(s, id)[k],
        ids_distinct(s) ==> ids_distinct(without_option(s, id)),
    decreases s.len(),
{
    if s.len() > 0 {
        let p = s.drop_last();
        lemma_without_option(p, id);
        let r = without_option(p, id);
        assert forall|k: int| 0 <= k < without_option(s, id).len() implies #[trigger] without_option(s, id)[k].0 != id
            && exists|m: int| 0 <= m < s.len() && s[m] == without_option(s, id)[k] by {
            if k < r.len() {
                assert(without_option(s, id)[k] == r[k]);
                let m = choose|m: int| 0 <= m < p.len() && p[m] == r[k];
                assert(s[m] == r[k]);
            } else {
                assert(s[s.len() - 1] == without_option(s, id)[k]);
            }
        }
        if ids_distinct(s) {
            assert(ids_distinct(p));
            if s.last().0 != id {
                let t = r.push(s.last());
                assert forall|a: int, b: int| 0 <= a < b < t.len() implies t[a].0 != t[b].0 by {
                    if b == r.len() {
                        assert(t[a] == r[a]);
                        let m = choose|m: int| 0 <= m < p.len() && p[m] == r[a];
                        assert(s[m] == r[a]);
                        assert(s[s.len() - 1] == t[b]);
                    } else {
                        assert(t[a] == r[a]);
                        assert(t[b] == r[b]);
                    }
                }
            }
        }
    }
}

/// `s` with the option `id` moved to position `index` (clamped to the last
/// position); unchanged when there is no such option.
pub open spec fn moved(s: Seq<(u64, SelectOptionData)>, id: u64, index: int) -> Seq<(u64, SelectOptionData)> {
    match option_position(s, id) {
        Some(i) => {
            let rest = s.remove(i);
            let at = if index < rest.len() { index } else { rest.len() as int };
            rest.insert(at, s[i])
        },
        None => s,
    }
}

/// The position of the first option whose value is `value`.
pub open spec fn first_with_value(s: Seq<(u64, SelectOptionData)>, value: Seq<char>) -> Option<int> {
    if exists|i: int| 0 <= i < s.len() && s[i].1.value@ == value {
        Some(
            choose|i: int|
                0 <= i < s.len() && s[i].1.value@ == value && forall|j: int|
                    0 <= j < i ==> s[j].1.value@ != value,
        )
    } else {
        None
    }
}

/// Law: setting an option that exists replaces it in place, setting a new one
/// appends it; either way the option then holds the new data.
pub proof fn lemma_upsert_in_place(s: Seq<(u64, SelectOptionData)>, id: u64, option: SelectOptionData)
    requires
        ids_distinct(s),
    ensures
        option_ids(upserted(s, id, option)) == (if option_position(s, id) is Some {
            option_ids(s)
        } else {
            option_ids(s).push(id)
        }),
        option_position(upserted(s, id, option), id) matches Some(i) && upserted(s, id, option)[i].1 == option,
{
    let u = upserted(s, id, option);
    match option_position(s, id) {
        Some(i) => {
            assert(option_ids(u) =~= option_ids(s));
            assert(u[i].0 == id);
        },
        None => {
            assert(option_ids(u) =~= option_ids(s).push(id));
            assert(u[s.len() as int].0 == id);
        },
    }
}

/// Law: moving an option keeps the same options, only their order changes.
pub proof fn lemma_move_keeps_options(s: Seq<(u64, SelectOptionData)>, id: u64, index: int)
    requires
        0 <= index,
    ensures
        moved(s, id, index).len() == s.len(),
        forall|x: (u64, SelectOptionData)| moved(s, id, index).contains(x) <==> s.contains(x),
{
    match option_position(s, id) {
        Some(i) => {
            let rest = s.remove(i);
            let at = if index < rest.len() { index } else { rest.len() as int };
            let m = rest.insert(at, s[i]);
            assert forall|x: (u64, SelectOptionData)| m.contains(x) <==> s.contains(x) by {
                if m.contains(x) {
                    let k = choose|k: int| 0 <= k < m.len() && m[k] == x;
                    if k < at {
                        if k < i { assert(s[k] == x); } else { assert(s[k + 1] == x); }
                    } else if k == at {
                        assert(s[i] == x);
                    } else {
                        if k - 1 < i { assert(s[k - 1] == x); } else { assert(s[k] == x); }
                    }
                }
                if s.contains(x) {
                    let k = choose|k: int| 0 <= k < s.len() && s[k] == x;
                    if k == i {
                        assert(m[at] == x);
                    } else {
                        let r = if k < i { k } else { k - 1 };
                        assert(rest[r] == x);
                        if r < at { assert(m[r] == x); } else { assert(m[r + 1] == x); }
                    }
                }
            }
        },
        None => {},
    }
}

/// The options of a select control in display order, each under the
/// identifier of the `SelectOption` that declared it.
pub struct SelectOptions {
    options: Vec<(u64, SelectOptionData)>,
}

impl View for SelectOptions {
    type V = Seq<(u64, SelectOptionData)>;

    closed spec fn view(&self) -> Seq<(u64, SelectOptionData)> {
        self.options@
    }
}

fn position_of(v: &Vec<(u64, SelectOptionData)>, id: u64) -> (r: Option<usize>)
    ensures
        match r {
            Some(i) => i < v.len() && v@[i as int].0 == id,
            None => forall|j: int| 0 <= j < v.len() ==> v@[j].0 != id,
        },
{
    let mut i: usize = 0;
    while i < v.len()
        invariant
            i <= v.len(),
            forall|j: int| 0 <= j < i ==> v@[j].0 != id,
        decreases v.len() - i,
    {
        if v[i].0 == id {
            return Some(i);
        }
        i += 1;
    }
    None
}

proof fn lemma_position_unique(s: Seq<(u64, SelectOptionData)>, id: u64, i: int)
    requires
        ids_distinct(s),
        0 <= i < s.len(),
        s[i].0 == id,
    ensures
        option_position(s, id) == Some(i),
{
}

impl SelectOptions {
    /// No identifier occurs twice.
    pub closed spec fn wf(&self) -> bool {
        ids_distinct(self.options@)
    }

    /// No options.
    pub fn new() -> (r: Self)
        ensures
            r.wf(),
            r@ == Seq::<(u64, SelectOptionData)>::empty(),
    {
        SelectOptions { options: Vec::new() }
    }

    /// The number of options.
    pub fn len(&self) -> (n: usize)
        ensures
            n == self@.len(),
    {
        self.options.len()
    }

    /// A copy of the options, in display order.
    pub fn to_vec(&self) -> (v: Vec<(u64, SelectOptionData)>)
        ensures
            v@ == self@,
    {
        let mut v: Vec<(u64, SelectOptionData)> = Vec::new();
        let mut i: usize = 0;
        while i < self.options.len()
            invariant
                i <= self.options.len(),
                v@ == self.options@.take(i as int),
            decreases self.options.len() - i,
        {
            v.push((self.options[i].0, self.options[i].1.clone()));
            assert(self.options@.take(i + 1) == self.options@.take(i as int).push(self.options@[i as int]));
            i += 1;
        }
        assert(self.options@.take(self.options.len() as int) == self.options@);
        v
    }

    /// Sets the option `id`: replaced in place when present, appended otherwise.
    pub fn upsert_option(&mut self, id: u64, option: SelectOptionData)
        requires
            old(self).wf(),
        ensures
            final(self).wf(),
            final(self)@ == upserted(old(self)@, id, option),
    {
        match position_of(&self.options, id) {
            Some(i) => {
                proof {
                    lemma_position_unique(self.options@, id, i as int);
                }
                self.options.set(i, (id, option));
            },
            None => {
                self.options.push((id, option));
            },
        }
    }

    /// Removes the option `id`, keeping the order of the others.
    pub fn remove_option(&mut self, id: u64)
        requires
            old(self).wf(),
        ensures
            final(self).wf(),
            final(self)@ == without_option(old(self)@, id),
    {
        let mut out: Vec<(u64, SelectOptionData)> = Vec::new();
        let mut i: usize = 0;
        while i < self.options.len()
            invariant
                i <= self.options.len(),
                out@ == without_option(self.options@.take(i as int), id),
            decreases self.options.len() - i,
        {
            assert(self.options@.take(i + 1).drop_last() == self.options@.take(i as int));
            if self.options[i].0 != id {
                out.push((self.options[i].0, self.options[i].1.clone()));
            }
            i += 1;
        }
        assert(self.options@.take(self.options.len() as int) == self.options@);
        proof {
            lemma_without_option(self.options@, id);
        }
        self.options = out;
    }

    /// Moves the option `id` to position `index` among the options (clamped to
    /// the last position); does nothing when there is no such option.
    pub fn move_option(&mut self, id: u64, index: usize)
        requires
            old(self).wf(),
        ensures
            final(self).wf(),
            final(self)@ == moved(old(self)@, id, index as int),
    {
        if let Some(current) = position_of(&self.options, id) {
            proof {
                lemma_position_unique(self.options@, id, current as int);
            }
            let ghost s = self.options@;
            let option = self.options.remove(current);
            let at = if index < self.options.len() {
                index
            } else {
                self.options.len()
            };
            self.options.insert(at, option);
            proof {
                let rest = s.remove(current as int);
                let r = self.options@;
                assert(r == rest.insert(at as int, s[current as int]));
                assert forall|a: int, b: int| 0 <= a < b < r.len() implies r[a].0 != r[b].0 by {
                    let ia = if a < at { if a < current { a } else { a + 1 } } else if a == at { current as int } else if a - 1 < current { a - 1 } else { a };
                    let ib = if b < at { if b < current { b } else { b + 1 } } else if b == at { current as int } else if b - 1 < current { b - 1 } else { b };
                    assert(r[a] == s[ia]);
                    assert(r[b] == s[ib]);
                }
            }
        }
    }

    /// The option to select for `value`: the first one with this value
    /// (nothing is selected when there is none, or no value).
    pub fn selected_index(&self, value: Option<&String>) -> (r: Option<usize>)
        ensures
            value is None ==> r is None,
            value is Some ==> match r {
                Some(i) => first_with_value(self@, value->0@) == Some(i as int),
                None => first_with_value(self@, value->0@) is None,
            },
    {
        match value {
            None => None,
            Some(v) => {
                let mut i: usize = 0;
                while i < self.options.len()
                    invariant
                        i <= self.options.len(),
                        value == Some(v),
                        forall|j: int| 0 <= j < i ==> self.options@[j].1.value@ != v@,
                    decreases self.options.len() - i,
                {
                    if self.options[i].1.value == *v {
                        let ghost k = i as int;
                        assert(self@[k].1.value@ == v@);
                        let ghost c = choose|j: int|
                            0 <= j < self@.len() && self@[j].1.value@ == v@ && forall|m: int|
                                0 <= m < j ==> self@[m].1.value@ != v@;
                        assert(0 <= c < self@.len() && self@[c].1.value@ == v@ && forall|m: int|
                                0 <= m < c ==> self@[m].1.value@ != v@);
                        assert(c == k) by {
                            if c < k {
                                assert(self.options@[c].1.value@ != v@);
                            } else if c > k {
                                assert(self@[k].1.value@ != v@);
                            }
                        }
                        assert(first_with_value(self@, v@) == Some(k));
                        return Some(i);
                    }
                    i += 1;
                }
                proof {
                    assert forall|j: int| !(0 <= j < self@.len() && self@[j].1.value@ == v@) by {
                        if 0 <= j < self@.len() {
                            assert(self.options@[j].1.value@ != v@);
                        }
                    }
                }
                None
            },
        }
    }

    /// The value of the option shown at `index` (a native selection index,
    /// -1 meaning none), if there is one.
    pub fn value_at(&self, index: i64) -> (r: Option<String>)
        ensures
            match r {
                Some(v) => 0 <= index < self@.len() && v@ == self@[index as int].1.value@,
                None => !(0 <= index < self@.len()),
            },
    {
        if index >= 0 && (index as u64) < (self.options.len() as u64) {
            Some(self.options[index as usize].1.value.clone())
        } else {
            None
        }
    }
}

} // verus!
