use vstd::prelude::*;

use crate::ids::FunctionId;

verus! {

/// A call edge: (caller, callee).
pub type Pair = (FunctionId, FunctionId);

/// The ids that carry an entry in a record of names.
pub open spec fn ids_of(fs: Seq<(FunctionId, String)>) -> Set<FunctionId> {
    Set::new(|id: FunctionId| exists|i: int| 0 <= i < fs.len() && #[trigger] fs[i].0 == id)
}

/// No id carries two entries.
pub open spec fn keys_unique(fs: Seq<(FunctionId, String)>) -> bool {
    forall|i: int, j: int|
        0 <= i < fs.len() && 0 <= j < fs.len() && i != j ==> #[trigger] fs[i].0 != #[trigger] fs[j].0
}

/// The record gives `id` the name `name`.
pub open spec fn has_name(fs: Seq<(FunctionId, String)>, id: FunctionId, name: Seq<char>) -> bool {
    exists|i: int| 0 <= i < fs.len() && #[trigger] fs[i].0 == id && fs[i].1@ == name
}

/// `after` is `before` with `id` given the name `name`: a former entry of
/// `id` is replaced, all other entries are kept, and keys stay unique.
pub open spec fn renamed(
    before: Seq<(FunctionId, String)>,
    after: Seq<(FunctionId, String)>,
    id: FunctionId,
    name: String,
) -> bool {
    &&& keys_unique(after)
    &&& ids_of(after) == ids_of(before).insert(id)
    &&& after.contains((id, name))
    &&& forall|x: (FunctionId, String)| before.contains(x) && x.0 != id ==> after.contains(x)
    &&& forall|x: (FunctionId, String)| after.contains(x) ==> x.0 == id || before.contains(x)
}

/// Every end of every edge of `edges`.
pub open spec fn endpoints(edges: Set<Pair>) -> Set<FunctionId> {
    Set::new(|f: FunctionId| exists|e: Pair| #[trigger] edges.contains(e) && (e.0 == f || e.1 == f))
}

/// Index of the entry of `id`, if any.
pub fn find_entry(fs: &Vec<(FunctionId, String)>, id: FunctionId) -> (r: Option<usize>)
    ensures
        match r {
            Some(i) => i < fs@.len() && fs@[i as int].0 == id,
            None => !ids_of(fs@).contains(id),
        },
{
    let mut i: usize = 0;
    while i < fs.len()
        invariant
            0 <= i <= fs@.len(),
            forall|j: int| 0 <= j < i ==> #[trigger] fs@[j].0 != id,
        decreases fs@.len() - i,
    {
        if fs[i].0 == id {
            return Some(i);
        }
        i += 1;
    }
    None
}

/// Gives `id` the name `name`, replacing a former name of it.
pub fn set_name(fs: &mut Vec<(FunctionId, String)>, id: FunctionId, name: String)
    requires
        keys_unique(old(fs)@),
    ensures
        renamed(old(fs)@, final(fs)@, id, name),
{
    let ghost before = fs@;
    match find_entry(fs, id) {
        Some(i) => {
            fs.set(i, (id, name));
            assert(final(fs)@ == before.update(i as int, (id, name)));
            assert forall|x: (FunctionId, String)| before.contains(x) && x.0 != id implies fs@.contains(x) by {
                let k = choose|k: int| 0 <= k < before.len() && before[k] == x;
                assert(fs@[k] == x);
            }
            assert(fs@[i as int] == (id, name));
            assert(ids_of(fs@) =~= ids_of(before).insert(id)) by {
                assert(fs@[i as int].0 == id);
                assert(ids_of(fs@).contains(id));
                assert forall|f: FunctionId| ids_of(before).contains(f) implies ids_of(fs@).contains(f) by {
                    let k = choose|k: int| 0 <= k < before.len() && #[trigger] before[k].0 == f;
                    if k == i {
                        assert(fs@[i as int].0 == f);
                    } else {
                        assert(fs@[k].0 == f);
                    }
                }
                assert forall|f: FunctionId| ids_of(fs@).contains(f) implies ids_of(before).insert(id).contains(f) by {
                    let k = choose|k: int| 0 <= k < fs@.len() && #[trigger] fs@[k].0 == f;
                    if k != i {
                        assert(before[k].0 == f);
                    }
                }
            }
        },
        None => {
            fs.push((id, name));
            assert(fs@ == before.push((id, name)));
            assert(fs@[before.len() as int] == (id, name));
            assert forall|x: (FunctionId, String)| before.contains(x) implies fs@.contains(x) by {
                let k = choose|k: int| 0 <= k < before.len() && before[k] == x;
                assert(fs@[k] == x);
            }
            assert forall|x: (FunctionId, String)| fs@.contains(x) implies x.0 == id || before.contains(x) by {
                let k = choose|k: int| 0 <= k < fs@.len() && fs@[k] == x;
                if k < before.len() {
                    assert(before[k] == x);
                }
            }
            assert(ids_of(fs@) =~= ids_of(before).insert(id)) by {
                assert(fs@[before.len() as int].0 == id);
                assert(ids_of(fs@).contains(id));
                assert forall|f: FunctionId| ids_of(before).contains(f) implies ids_of(fs@).contains(f) by {
                    let k = choose|k: int| 0 <= k < before.len() && #[trigger] before[k].0 == f;
                    assert(fs@[k].0 == f);
                }
                assert forall|f: FunctionId| ids_of(fs@).contains(f) implies ids_of(before).insert(id).contains(f) by {
                    let k = choose|k: int| 0 <= k < fs@.len() && #[trigger] fs@[k].0 == f;
                    if k < before.len() {
                        assert(before[k].0 == f);
                    }
                }
            }
        },
    }
}

/// True if `e` is one of the edges of `v`.
pub fn contains_pair(v: &Vec<Pair>, e: Pair) -> (r: bool)
    ensures
        r == v@.contains(e),
{
    let mut i: usize = 0;
    while i < v.len()
        invariant
            0 <= i <= v@.len(),
            forall|j: int| 0 <= j < i ==> #[trigger] v@[j] != e,
        decreases v@.len() - i,
    {
        if v[i].0 == e.0 && v[i].1 == e.1 {
            assert(v@[i as int] == e);
            return true;
        }
        i += 1;
    }
    false
}

/// Adds the edge `e` to the set of edges held in `v`.
pub fn insert_pair(v: &mut Vec<Pair>, e: Pair)
    requires
        old(v)@.no_duplicates(),
    ensures
        final(v)@.no_duplicates(),
        final(v)@.to_set() == old(v)@.to_set().insert(e),
        forall|x: Pair| #[trigger] final(v)@.contains(x) <==> old(v)@.contains(x) || x == e,
{
    let ghost before = v@;
    if !contains_pair(v, e) {
        v.push(e);
        assert(v@ == before.push(e));
        assert(v@[before.len() as int] == e);
        assert(v@.to_set() =~= before.to_set().insert(e)) by {
            assert forall|x: Pair| before.contains(x) implies v@.contains(x) by {
                let k = choose|k: int| 0 <= k < before.len() && before[k] == x;
                assert(v@[k] == x);
            }
            assert forall|x: Pair| v@.contains(x) implies x == e || before.contains(x) by {
                let k = choose|k: int| 0 <= k < v@.len() && v@[k] == x;
                if k < before.len() {
                    assert(before[k] == x);
                }
            }
        }
    } else {
        assert(v@.to_set() =~= before.to_set().insert(e));
    }
    assert forall|x: Pair| #[trigger] v@.contains(x) <==> before.contains(x) || x == e by {
        assert(v@.to_set().contains(x) == v@.contains(x));
        assert(before.to_set().contains(x) == before.contains(x));
    }
}

} // verus!
