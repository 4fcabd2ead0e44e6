use vstd::prelude::*;

verus! {

/// The predicate that keeps every id but `id`.
pub open spec fn other_than(id: Seq<char>) -> spec_fn(Seq<char>) -> bool {
    |x: Seq<char>| x != id
}

/// The queue `ids` with every occurrence of `id` taken out, order kept.
pub open spec fn without(ids: Seq<Seq<char>>, id: Seq<char>) -> Seq<Seq<char>> {
    ids.filter(other_than(id))
}

/// The ids of `v`, in order.
pub open spec fn ids_view(v: Seq<String>) -> Seq<Seq<char>> {
    v.map_values(|s: String| s@)
}

/// Copies of the ids of `ids` that differ from `id`, in order.
pub fn remove_id(ids: &Vec<String>, id: &String) -> (r: Vec<String>)
    ensures
        ids_view(r@) == without(ids_view(ids@), id@),
{
    let mut r: Vec<String> = Vec::new();
    let mut i: usize = 0;
    while i < ids.len()
        invariant
            0 <= i <= ids.len(),
            ids_view(r@) == without(ids_view(ids@.subrange(0, i as int)), id@),
        decreases ids.len() - i,
    {
        proof {
            reveal(Seq::filter);
            let s = ids_view(ids@.subrange(0, i as int + 1));
            assert(s.drop_last() =~= ids_view(ids@.subrange(0, i as int)));
            assert(s.last() == ids@[i as int]@);
        }
        if ids[i] != *id {
            r.push(ids[i].clone());
            assert(ids_view(r@) =~= without(ids_view(ids@.subrange(0, i as int + 1)), id@));
        } else {
            assert(ids_view(r@) =~= without(ids_view(ids@.subrange(0, i as int + 1)), id@));
        }
        i += 1;
    }
    assert(ids@.subrange(0, ids.len() as int) =~= ids@);
    r
}

/// Taking an id out leaves no occurrence of it.
pub proof fn lemma_without_excludes(ids: Seq<Seq<char>>, id: Seq<char>)
    ensures
        !without(ids, id).contains(id),
{
    if without(ids, id).contains(id) {
        let k = choose|k: int| 0 <= k < without(ids, id).len() && without(ids, id)[k] == id;
        ids.lemma_filter_pred(other_than(id), k);
    }
}

/// Taking an id out keeps only ids that were there, each at most once if
/// that held before.
pub proof fn lemma_without_sub(ids: Seq<Seq<char>>, id: Seq<char>)
    ensures
        forall|x: Seq<char>| #[trigger] without(ids, id).contains(x) ==> ids.contains(x),
        ids.no_duplicates() ==> without(ids, id).no_duplicates(),
    decreases ids.len(),
{
    assert forall|x: Seq<char>| #[trigger] without(ids, id).contains(x) implies ids.contains(x) by {
        ids.lemma_filter_contains_rev(other_than(id), x);
    }
    if ids.len() > 0 {
        let p = ids.drop_last();
        lemma_without_sub(p, id);
        reveal(Seq::filter);
        assert(without(ids, id) == if ids.last() != id {
            without(p, id).push(ids.last())
        } else {
            without(p, id)
        });
        if ids.no_duplicates() {
            assert(p.no_duplicates());
            if ids.last() != id {
                assert(!p.contains(ids.last())) by {
                    if p.contains(ids.last()) {
                        let k = choose|k: int| 0 <= k < p.len() && p[k] == ids.last();
                        assert(ids[k] == ids[ids.len() - 1]);
                    }
                }
                assert(!without(p, id).contains(ids.last()));
            }
        }
    }
}

} // verus!
