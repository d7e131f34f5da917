//! Where the file tools may reach: a path, given by its components, lies in
//! the workspace when the workspace's components open it.
use vstd::prelude::*;

use crate::text::{str_eq, strings_view};

verus! {

/// Whether the path with components `full` lies within the directory with
/// components `base`.
pub open spec fn within(base: Seq<Seq<char>>, full: Seq<Seq<char>>) -> bool {
    base.len() <= full.len() && full.subrange(0, base.len() as int) == base
}

/// Whether none of `names` is `.` or `..`, so that appending them to a path
/// only descends.
pub open spec fn plain_names(names: Seq<Seq<char>>) -> bool {
    forall|i: int| 0 <= i < names.len() ==> #[trigger] names[i] != "."@ && names[i] != ".."@
}

/// Whether the path with components `full` lies within the directory with
/// components `base`, component by component.
pub fn path_within(base: &Vec<String>, full: &Vec<String>) -> (r: bool)
    ensures
        r == within(strings_view(base@), strings_view(full@)),
{
    let ghost b = strings_view(base@);
    let ghost f = strings_view(full@);
    if base.len() > full.len() {
        return false;
    }
    let mut i: usize = 0;
    while i < base.len()
        invariant
            b == strings_view(base@),
            f == strings_view(full@),
            base@.len() <= full@.len(),
            i <= base@.len(),
            f.subrange(0, i as int) == b.subrange(0, i as int),
        decreases base@.len() - i,
    {
        if !str_eq(base[i].as_str(), full[i].as_str()) {
            assert(f.subrange(0, b.len() as int)[i as int] != b[i as int]);
            return false;
        }
        i = i + 1;
        assert(f.subrange(0, i as int) =~= b.subrange(0, i as int)) by {
            assert forall|k: int| 0 <= k < i implies f.subrange(0, i as int)[k] == b.subrange(0, i as int)[k] by {
                if k < i - 1 {
                    assert(f.subrange(0, i - 1)[k] == b.subrange(0, i - 1)[k]);
                }
            }
        }
    }
    assert(b.subrange(0, b.len() as int) =~= b);
    true
}

/// Whether a file that does not exist yet, at the path with components
/// `existing` (the nearest ancestor that exists) followed by `rest`, lies
/// within the directory with components `base`: `rest` only descends and the
/// whole path lies within `base`.
pub fn new_path_within(base: &Vec<String>, existing: &Vec<String>, rest: &Vec<String>) -> (r: bool)
    ensures
        r == (plain_names(strings_view(rest@)) && within(strings_view(base@), strings_view(existing@ + rest@))),
{
    let ghost rv = strings_view(rest@);
    let mut i: usize = 0;
    while i < rest.len()
        invariant
            rv == strings_view(rest@),
            i <= rest@.len(),
            forall|k: int| 0 <= k < i ==> #[trigger] rv[k] != "."@ && rv[k] != ".."@,
        decreases rest@.len() - i,
    {
        if str_eq(rest[i].as_str(), ".") || str_eq(rest[i].as_str(), "..") {
            assert(!(rv[i as int] != "."@ && rv[i as int] != ".."@));
            return false;
        }
        i = i + 1;
    }
    let mut full: Vec<String> = Vec::new();
    let mut j: usize = 0;
    while j < existing.len()
        invariant
            j <= existing@.len(),
            full@ == existing@.subrange(0, j as int),
        decreases existing@.len() - j,
    {
        full.push(existing[j].clone());
        j = j + 1;
        assert(full@ =~= existing@.subrange(0, j as int));
    }
    let mut k: usize = 0;
    while k < rest.len()
        invariant
            k <= rest@.len(),
            full@ == existing@ + rest@.subrange(0, k as int),
        decreases rest@.len() - k,
    {
        full.push(rest[k].clone());
        k = k + 1;
        assert(full@ =~= existing@ + rest@.subrange(0, k as int));
    }
    assert(existing@.subrange(0, existing@.len() as int) =~= existing@);
    assert(rest@.subrange(0, rest@.len() as int) =~= rest@);
    path_within(base, &full)
}

} // verus!
