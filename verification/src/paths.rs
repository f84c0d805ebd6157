//! Startup path handling: de-duplication of the caller-supplied path list,
//! keeping the first occurrence of each path in its original position.

use vstd::prelude::*;

verus! {

/// The de-duplicated form of a path list: each path keeps the position of its
/// first occurrence; later duplicates are dropped.
pub open spec fn dedup_seq(s: Seq<Seq<char>>) -> Seq<Seq<char>>
    decreases s.len(),
{
    if s.len() == 0 {
        Seq::empty()
    } else {
        let rest = dedup_seq(s.drop_last());
        if rest.contains(s.last()) {
            rest
        } else {
            rest.push(s.last())
        }
    }
}

/// De-duplication keeps exactly the paths of the original list.
pub proof fn lemma_dedup_same_paths(s: Seq<Seq<char>>)
    ensures
        forall|p: Seq<char>| #[trigger] dedup_seq(s).contains(p) <==> s.contains(p),
    decreases s.len(),
{
    if s.len() == 0 {
    } else {
        let rest = s.drop_last();
        lemma_dedup_same_paths(rest);
        let d = dedup_seq(s);
        let dr = dedup_seq(rest);
        assert forall|p: Seq<char>| #[trigger] d.contains(p) <==> s.contains(p) by {
            if s.contains(p) {
                let k = choose|k: int| 0 <= k < s.len() && s[k] == p;
                if k < s.len() - 1 {
                    assert(rest[k] == p);
                    assert(rest.contains(p));
                } else {
                    assert(p == s.last());
                }
            }
            if rest.contains(p) {
                let k = choose|k: int| 0 <= k < rest.len() && rest[k] == p;
                assert(s[k] == p);
                assert(s.contains(p));
            }
            assert(s[s.len() - 1] == s.last());
            assert(s.contains(s.last()));
            if dr.contains(s.last()) {
            } else {
                if d.contains(p) {
                    let k = choose|k: int| 0 <= k < d.len() && d[k] == p;
                    if k < d.len() - 1 {
                        assert(dr[k] == p);
                        assert(dr.contains(p));
                    } else {
                        assert(p == s.last());
                    }
                }
                if dr.contains(p) {
                    let k = choose|k: int| 0 <= k < dr.len() && dr[k] == p;
                    assert(d[k] == p);
                    assert(d.contains(p));
                }
                if p == s.last() {
                    assert(d[d.len() - 1] == p);
                    assert(d.contains(p));
                }
            }
        }
    }
}

/// A de-duplicated list holds no path twice.
pub proof fn lemma_dedup_distinct(s: Seq<Seq<char>>)
    ensures
        forall|i: int, j: int|
            0 <= i < j < dedup_seq(s).len() ==> dedup_seq(s)[i] != dedup_seq(s)[j],
    decreases s.len(),
{
    if s.len() == 0 {
    } else {
        let rest = s.drop_last();
        lemma_dedup_distinct(rest);
        let d = dedup_seq(s);
        let dr = dedup_seq(rest);
        if dr.contains(s.last()) {
        } else {
            assert forall|i: int, j: int| 0 <= i < j < d.len() implies d[i] != d[j] by {
                if j < d.len() - 1 {
                    assert(d[i] == dr[i] && d[j] == dr[j]);
                } else {
                    assert(d[j] == s.last());
                    assert(d[i] == dr[i]);
                    assert(dr.contains(dr[i]));
                }
            }
        }
    }
}

/// Whether some path in `v` reads the same as `p`.
fn contains_path(v: &Vec<String>, p: &String) -> (b: bool)
    ensures
        b == v.deep_view().contains(p@),
{
    let mut j: usize = 0;
    while j < v.len()
        invariant
            j <= v.len(),
            forall|k: int| 0 <= k < j ==> v.deep_view()[k] != p@,
        decreases v.len() - j,
    {
        if v[j] == *p {
            proof {
                assert(v.deep_view()[j as int] == p@);
            }
            return true;
        }
        j += 1;
    }
    proof {
        assert forall|k: int| 0 <= k < v.deep_view().len() implies v.deep_view()[k] != p@ by {}
    }
    false
}

/// De-duplicates the caller-supplied path list: the first occurrence of each
/// path is kept in order, later duplicates are dropped, and nothing else is
/// added or removed.
pub fn dedup_paths(paths: &Vec<String>) -> (r: Vec<String>)
    ensures
        r.deep_view() == dedup_seq(paths.deep_view()),
        forall|p: Seq<char>| #[trigger] r.deep_view().contains(p) <==> paths.deep_view().contains(
            p,
        ),
        forall|i: int, j: int|
            0 <= i < j < r.deep_view().len() ==> r.deep_view()[i] != r.deep_view()[j],
{
    let ghost all = paths.deep_view();
    let mut r: Vec<String> = Vec::new();
    proof {
        assert(r.deep_view() =~= Seq::<Seq<char>>::empty());
        assert(all.take(0) =~= Seq::<Seq<char>>::empty());
    }
    let mut i: usize = 0;
    while i < paths.len()
        invariant
            i <= paths.len(),
            all == paths.deep_view(),
            r.deep_view() == dedup_seq(all.take(i as int)),
        decreases paths.len() - i,
    {
        let ghost prev = r.deep_view();
        let seen = contains_path(&r, &paths[i]);
        proof {
            assert(all.take(i as int + 1).drop_last() =~= all.take(i as int));
            assert(all.take(i as int + 1).last() == all[i as int]);
            assert(paths.deep_view()[i as int] == paths@[i as int]@);
        }
        if !seen {
            r.push(paths[i].clone());
            proof {
                assert(r.deep_view() =~= prev.push(all[i as int]));
            }
        }
        i += 1;
    }
    proof {
        assert(all.take(paths.len() as int) =~= all);
        lemma_dedup_same_paths(all);
        lemma_dedup_distinct(all);
    }
    r
}

} // verus!
