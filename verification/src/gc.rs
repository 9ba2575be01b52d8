//! Mark-and-sweep garbage collection: anything carrying our managed labels that's
//! not in the desired set gets deleted.

use vstd::prelude::*;
use vstd::string::*;

use crate::config::Config;
use crate::strmap::StrSet;

verus! {

/// What a sweep of one kind comes to.
pub struct Sweep {
    /// The orphans to delete.
    pub delete: Vec<String>,
    /// The orphans that read-only mode leaves in place.
    pub leave: Vec<String>,
}

/// The names of existing objects that nobody wants; objects without a name are passed over.
pub open spec fn orphans(existing: Seq<Option<Seq<char>>>, desired: Set<Seq<char>>) -> Seq<
    Seq<char>,
>
    decreases existing.len(),
{
    if existing.len() == 0 {
        Seq::empty()
    } else {
        let rest = orphans(existing.drop_last(), desired);
        match existing.last() {
            Some(name) => if desired.contains(name) {
                rest
            } else {
                rest.push(name)
            },
            None => rest,
        }
    }
}

fn find_orphans(existing: &Vec<Option<String>>, desired: &StrSet) -> (r: Vec<String>)
    ensures
        r.deep_view() == orphans(existing.deep_view(), desired@),
{
    let ghost all = existing.deep_view();
    let mut out: Vec<String> = Vec::new();
    let mut i: usize = 0;
    assert(all.take(0) =~= Seq::<Option<Seq<char>>>::empty());
    assert(out.deep_view() =~= Seq::<Seq<char>>::empty());
    while i < existing.len()
        invariant
            all == existing.deep_view(),
            i <= existing@.len(),
            out.deep_view() == orphans(all.take(i as int), desired@),
        decreases existing@.len() - i,
    {
        assert(all.take(i + 1).drop_last() =~= all.take(i as int));
        assert(all[i as int] == existing@[i as int].deep_view());
        let ghost before = out.deep_view();
        if let Some(name) = &existing[i] {
            if !desired.contains(name.as_str()) {
                out.push(name.clone());
                assert(out.deep_view() =~= before.push(name@));
            }
        }
        i += 1;
    }
    assert(all.take(i as int) =~= all);
    out
}

/// Decide what to delete of the existing objects of one kind.
pub fn sweep(cfg: &Config, existing: &Vec<Option<String>>, desired_names: &StrSet) -> (r: Sweep)
    ensures
        r.delete.deep_view() == if cfg.read_only {
            Seq::empty()
        } else {
            orphans(existing.deep_view(), desired_names@)
        },
        r.leave.deep_view() == if cfg.read_only {
            orphans(existing.deep_view(), desired_names@)
        } else {
            Seq::empty()
        },
{
    let found = find_orphans(existing, desired_names);
    let none: Vec<String> = Vec::new();
    assert(none.deep_view() =~= Seq::<Seq<char>>::empty());
    if cfg.read_only {
        Sweep { delete: none, leave: found }
    } else {
        Sweep { delete: found, leave: none }
    }
}

/// A deletion that failed because the object was already gone did its work.
pub fn is_not_found(code: Option<u16>) -> (r: bool)
    ensures
        r == (code == Some(404u16)),
{
    match code {
        Some(c) => c == 404,
        None => false,
    }
}

/// Only orphans are swept: an existing object that is not wanted, never a wanted one.
pub proof fn law_only_orphans_are_swept(
    existing: Seq<Option<Seq<char>>>,
    desired: Set<Seq<char>>,
    name: Seq<char>,
)
    ensures
        orphans(existing, desired).contains(name) <==> existing.contains(Some(name))
            && !desired.contains(name),
    decreases existing.len(),
{
    if existing.len() > 0 {
        let rest = existing.drop_last();
        law_only_orphans_are_swept(rest, desired, name);
        let before = orphans(rest, desired);
        let after = orphans(existing, desired);
        if existing.contains(Some(name)) && !desired.contains(name) {
            let i = choose|i: int| 0 <= i < existing.len() && existing[i] == Some(name);
            if i < rest.len() {
                assert(rest[i] == Some(name));
                let j = choose|j: int| 0 <= j < before.len() && before[j] == name;
                assert(after[j] == name);
            } else {
                assert(after[after.len() - 1] == name);
            }
        }
        if after.contains(name) {
            let j = choose|j: int| 0 <= j < after.len() && after[j] == name;
            if j < before.len() {
                assert(before[j] == name);
                let i = choose|i: int| 0 <= i < rest.len() && rest[i] == Some(name);
                assert(existing[i] == Some(name));
            } else {
                assert(existing[existing.len() - 1] == Some(name));
            }
        }
    }
}

} // verus!
