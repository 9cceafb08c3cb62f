//! Finalizer manager: pure list-to-list decisions for adding and
//! removing the finalizer token on the source object. The caller issues
//! a metadata merge-patch with the returned list, when one is returned.

use vstd::prelude::*;

use crate::model::opt_list_view;
use crate::strutil::{seq_ci_equal, str_ci_eq};

verus! {

/// Some entry of `l` equals `tok` ASCII case-insensitively.
pub open spec fn contains_ci(l: Seq<Seq<char>>, tok: Seq<char>) -> bool {
    exists|i: int| 0 <= i < l.len() && seq_ci_equal(l[i], tok)
}

/// `l` with every entry matching `tok` (ASCII case-insensitively)
/// dropped, order kept.
pub open spec fn spec_without_ci(l: Seq<Seq<char>>, tok: Seq<char>) -> Seq<Seq<char>> {
    l.filter(|f: Seq<char>| !seq_ci_equal(f, tok))
}

/// The finalizer list to patch in when ensuring `tok` is present, or
/// `None` when the object already carries it and no write is needed.
pub open spec fn spec_add(fins: Option<Seq<Seq<char>>>, tok: Seq<char>) -> Option<Seq<Seq<char>>> {
    match fins {
        None => Some(seq![tok]),
        Some(l) => if contains_ci(l, tok) {
            None
        } else {
            Some(l.push(tok))
        },
    }
}

/// The finalizer list to patch in when releasing `tok`: the filtered
/// list whenever the object has a finalizer field (possibly empty, to
/// force the removal), and no write when it has none.
pub open spec fn spec_rm(fins: Option<Seq<Seq<char>>>, tok: Seq<char>) -> Option<Seq<Seq<char>>> {
    match fins {
        None => None,
        Some(l) => Some(spec_without_ci(l, tok)),
    }
}

/// Does `l` hold `tok`, compared ASCII case-insensitively?
pub fn contains_ci_exec(l: &Vec<String>, tok: &str) -> (r: bool)
    ensures
        r == contains_ci(l@.map_values(|s: String| s@), tok@),
{
    let ghost all = l@.map_values(|s: String| s@);
    let mut i: usize = 0;
    while i < l.len()
        invariant
            0 <= i <= l.len(),
            all == l@.map_values(|s: String| s@),
            all.len() == l.len(),
            forall|j: int| 0 <= j < i ==> !seq_ci_equal(all[j], tok@),
        decreases l.len() - i,
    {
        if str_ci_eq(l[i].as_str(), tok) {
            proof {
                assert(seq_ci_equal(all[i as int], tok@));
            }
            return true;
        }
        i += 1;
    }
    false
}

/// Copies a list of strings.
fn copy_strings(l: &Vec<String>) -> (r: Vec<String>)
    ensures
        r@.map_values(|s: String| s@) == l@.map_values(|s: String| s@),
{
    let mut r: Vec<String> = Vec::new();
    let mut i: usize = 0;
    while i < l.len()
        invariant
            0 <= i <= l.len(),
            r@.len() == i,
            forall|j: int| 0 <= j < i ==> r@[j]@ == l@[j]@,
        decreases l.len() - i,
    {
        r.push(l[i].clone());
        i += 1;
    }
    proof {
        assert(r@.map_values(|s: String| s@) =~= l@.map_values(|s: String| s@));
    }
    r
}

/// Decides the finalizer-add patch: `None` when the token is already
/// present (no write), otherwise the list the caller must patch in.
/// Safe to run on every reconciliation of a live object.
pub fn add(fins: &Option<Vec<String>>, tok: &str) -> (patch: Option<Vec<String>>)
    ensures
        opt_list_view(patch) == spec_add(opt_list_view(*fins), tok@),
{
    match fins {
        None => {
            let single: Vec<String> = vec![tok.to_owned()];
            proof {
                assert(single@.map_values(|s: String| s@) =~= seq![tok@]);
            }
            Some(single)
        },
        Some(l) => {
            if contains_ci_exec(l, tok) {
                None
            } else {
                let mut out = copy_strings(l);
                let ghost views = out@.map_values(|s: String| s@);
                let t = tok.to_owned();
                proof {
                    assert(out@.push(t).map_values(|s: String| s@) =~= views.push(tok@));
                }
                out.push(t);
                Some(out)
            }
        },
    }
}

/// Decides the finalizer-release patch: the filtered list whenever the
/// object has a finalizer field — even when the result is empty, so the
/// patch forces the token out — and no write when it has none.
pub fn rm(fins: &Option<Vec<String>>, tok: &str) -> (patch: Option<Vec<String>>)
    ensures
        opt_list_view(patch) == spec_rm(opt_list_view(*fins), tok@),
{
    match fins {
        None => None,
        Some(l) => {
            let ghost all = l@.map_values(|s: String| s@);
            let mut out: Vec<String> = Vec::new();
            proof {
                reveal(Seq::filter);
                assert(all.take(0) =~= Seq::<Seq<char>>::empty());
                assert(out@.map_values(|s: String| s@) =~= spec_without_ci(all.take(0), tok@));
            }
            let mut i: usize = 0;
            while i < l.len()
                invariant
                    0 <= i <= l.len(),
                    all == l@.map_values(|s: String| s@),
                    all.len() == l.len(),
                    out@.map_values(|s: String| s@) == spec_without_ci(all.take(i as int), tok@),
                decreases l.len() - i,
            {
                let ghost views = out@.map_values(|s: String| s@);
                proof {
                    reveal(Seq::filter);
                    assert(all.take(i + 1).drop_last() =~= all.take(i as int));
                    assert(all.take(i + 1).last() == all[i as int]);
                }
                if !str_ci_eq(l[i].as_str(), tok) {
                    let kept = l[i].clone();
                    proof {
                        assert(out@.push(kept).map_values(|s: String| s@) =~= views.push(
                            all[i as int],
                        ));
                    }
                    out.push(kept);
                }
                i += 1;
            }
            proof {
                assert(all.take(l.len() as int) =~= all);
            }
            Some(out)
        },
    }
}

/// Adding the finalizer is idempotent: once an add has produced a patch
/// (or declined to), a further add against the patched (or unchanged)
/// list asks for no write at all.
pub proof fn lemma_add_idempotent(fins: Option<Seq<Seq<char>>>, tok: Seq<char>)
    ensures
        match spec_add(fins, tok) {
            Some(patched) => spec_add(Some(patched), tok) is None,
            None => spec_add(fins, tok) is None,
        },
{
    match fins {
        None => {
            assert(seq_ci_equal(seq![tok][0], tok));
        },
        Some(l) => {
            if !contains_ci(l, tok) {
                assert(seq_ci_equal(l.push(tok)[l.len() as int], tok));
            }
        },
    }
}

/// Releasing the finalizer is complete: when a removal patch is
/// produced, the token is absent from it, and every other entry is kept.
pub proof fn lemma_rm_removes(l: Seq<Seq<char>>, tok: Seq<char>)
    ensures
        !contains_ci(spec_without_ci(l, tok), tok),
        forall|i: int|
            0 <= i < l.len() && !seq_ci_equal(l[i], tok) ==> spec_without_ci(l, tok).contains(l[i]),
{
    broadcast use vstd::seq_lib::group_seq_lib_default;

    let pred = |f: Seq<char>| !seq_ci_equal(f, tok);
    assert forall|i: int| 0 <= i < spec_without_ci(l, tok).len() implies !seq_ci_equal(
        spec_without_ci(l, tok)[i],
        tok,
    ) by {
        l.lemma_filter_pred(pred, i);
    }
    assert forall|i: int|
        0 <= i < l.len() && !seq_ci_equal(l[i], tok) implies spec_without_ci(l, tok).contains(
        l[i],
    ) by {
        l.lemma_filter_contains(pred, i);
    }
}

} // verus!
