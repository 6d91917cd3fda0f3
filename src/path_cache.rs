use vstd::prelude::*;
use crate::HandleId;
use crate::handle::WeakHandle;

verus! {

/// One remembered load: the path asked for and a weak handle to its slot.
#[verifier::reject_recursive_types(P)]
pub struct PathEntry<P> {
    pub path: String,
    pub handle: WeakHandle<P>,
}

/// The path cache as a map; a later entry for a path overrides an earlier one.
pub open spec fn path_map<P>(s: Seq<PathEntry<P>>) -> Map<Seq<char>, HandleId>
    decreases s.len(),
{
    if s.len() == 0 {
        Map::empty()
    } else {
        path_map(s.drop_last()).insert(s.last().path@, s.last().handle@)
    }
}

pub proof fn lemma_path_map_push<P>(s: Seq<PathEntry<P>>, e: PathEntry<P>)
    ensures
        path_map(s.push(e)) == path_map(s).insert(e.path@, e.handle@),
{
    assert(s.push(e).drop_last() =~= s);
}

pub proof fn lemma_path_map_absent<P>(s: Seq<PathEntry<P>>, p: Seq<char>)
    requires
        forall|j: int| 0 <= j < s.len() ==> (#[trigger] s[j]).path@ != p,
    ensures
        !path_map(s).contains_key(p),
    decreases s.len(),
{
    if s.len() > 0 {
        lemma_path_map_absent(s.drop_last(), p);
    }
}

pub proof fn lemma_path_map_found<P>(s: Seq<PathEntry<P>>, i: int, p: Seq<char>)
    requires
        0 <= i < s.len(),
        s[i].path@ == p,
        forall|j: int| i < j < s.len() ==> (#[trigger] s[j]).path@ != p,
    ensures
        path_map(s).contains_key(p),
        path_map(s)[p] == s[i].handle@,
    decreases s.len(),
{
    if i < s.len() - 1 {
        lemma_path_map_found(s.drop_last(), i, p);
    }
}

pub proof fn lemma_path_map_update<P>(s: Seq<PathEntry<P>>, i: int, e: PathEntry<P>)
    requires
        0 <= i < s.len(),
        s[i].path@ == e.path@,
        forall|j: int| i < j < s.len() ==> (#[trigger] s[j]).path@ != e.path@,
    ensures
        path_map(s.update(i, e)) == path_map(s).insert(e.path@, e.handle@),
    decreases s.len(),
{
    let t = s.update(i, e);
    if i == s.len() - 1 {
        assert(t.drop_last() =~= s.drop_last());
        assert(path_map(t) =~= path_map(s).insert(e.path@, e.handle@));
    } else {
        assert(t.drop_last() =~= s.drop_last().update(i, e));
        lemma_path_map_update(s.drop_last(), i, e);
        assert(path_map(t) =~= path_map(s).insert(e.path@, e.handle@));
    }
}

/// Index of the last entry for `path`, if any.
pub fn find_path<P>(entries: &Vec<PathEntry<P>>, path: &String) -> (r: Option<usize>)
    ensures
        match r {
            Some(i) => i < entries@.len() && entries@[i as int].path@ == path@ && forall|j: int|
                i < j < entries@.len() ==> (#[trigger] entries@[j]).path@ != path@,
            None => forall|j: int| 0 <= j < entries@.len() ==> (#[trigger] entries@[j]).path@ != path@,
        },
{
    let mut k: usize = entries.len();
    while k > 0
        invariant
            k <= entries@.len(),
            forall|j: int| k <= j < entries@.len() ==> (#[trigger] entries@[j]).path@ != path@,
        decreases k,
    {
        k = k - 1;
        if entries[k].path == *path {
            return Some(k);
        }
    }
    None
}

} // verus!
