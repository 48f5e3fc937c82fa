use vstd::prelude::*;
use crate::menu::str_eq;

verus! {

/// The position of the first value equal to `value`.
pub open spec fn first_position(values: Seq<Seq<char>>, value: Seq<char>) -> Option<int> {
    if exists|i: int| 0 <= i < values.len() && values[i] == value {
        Some(
            choose|i: int|
                0 <= i < values.len() && values[i] == value && forall|j: int| 0 <= j < i ==> values[j] != value,
        )
    } else {
        None
    }
}

/// The characters of each string of `v`.
pub open spec fn views_of(v: Seq<String>) -> Seq<Seq<char>> {
    v.map_values(|s: String| s@)
}

/// The navigation item to highlight for the selected value: the first item
/// with that value, or none.
pub fn navigation_selection(values: &Vec<String>, selected: Option<&str>) -> (r: Option<usize>)
    ensures
        match selected {
            None => r is None,
            Some(v) => match r {
                Some(i) => first_position(views_of(values@), v@) == Some(i as int),
                None => first_position(views_of(values@), v@) is None,
            },
        },
{
    let v = match selected {
        None => return None,
        Some(v) => v,
    };
    let ghost vs = views_of(values@);
    let mut i: usize = 0;
    while i < values.len()
        invariant
            i <= values.len(),
            vs == views_of(values@),
            selected == Some(v),
            forall|j: int| 0 <= j < i ==> vs[j] != v@,
        decreases values.len() - i,
    {
        if str_eq(values[i].as_str(), v) {
            let ghost k = i as int;
            assert(vs[k] == v@);
            let ghost c = choose|c: int| 0 <= c < vs.len() && vs[c] == v@ && forall|j: int| 0 <= j < c ==> vs[j] != v@;
            assert(c == k) by {
                if c < k {
                    assert(vs[c] != v@);
                } else if c > k {
                    assert(vs[k] != v@);
                }
            }
            return Some(i);
        }
        i += 1;
    }
    assert forall|j: int| !(0 <= j < vs.len() && vs[j] == v@) by {
        if 0 <= j < vs.len() {
            assert(vs[j] != v@);
        }
    }
    None
}

/// The first item whose value repeats an earlier one; navigation values must
/// be unique, and a sidebar with a repeat is refused.
pub fn first_repeated_value(values: &Vec<String>) -> (r: Option<usize>)
    ensures
        match r {
            Some(i) => i < values@.len() && (exists|j: int| 0 <= j < i && values@[j]@ == values@[i as int]@)
                && forall|a: int, b: int| 0 <= a < b < i ==> values@[a]@ != values@[b]@,
            None => forall|a: int, b: int| 0 <= a < b < values@.len() ==> values@[a]@ != values@[b]@,
        },
{
    let mut i: usize = 0;
    while i < values.len()
        invariant
            i <= values.len(),
            forall|a: int, b: int| 0 <= a < b < i ==> values@[a]@ != values@[b]@,
        decreases values.len() - i,
    {
        let mut j: usize = 0;
        while j < i
            invariant
                j <= i < values.len(),
                forall|a: int, b: int| 0 <= a < b < i ==> values@[a]@ != values@[b]@,
                forall|a: int| 0 <= a < j ==> values@[a]@ != values@[i as int]@,
            decreases i - j,
        {
            if str_eq(values[j].as_str(), values[i].as_str()) {
                assert(values@[j as int]@ == values@[i as int]@);
                return Some(i);
            }
            j += 1;
        }
        i += 1;
    }
    None
}

} // verus!
