//! Namespace resolver: turns the target directive (an explicit
//! comma-separated list or the wildcard) into the ordered set of
//! destination namespaces, with the source namespace excluded.

use vstd::prelude::*;

use crate::strutil::{split_commas, split_commas_exec, str_eq};

verus! {

/// The directive that selects every namespace in the cluster.
pub open spec fn is_wildcard(s: Seq<char>) -> bool {
    s.len() == 1 && s[0] == '*'
}

/// `names` with every occurrence of `src` removed, order kept.
pub open spec fn spec_exclude(names: Seq<Seq<char>>, src: Seq<char>) -> Seq<Seq<char>> {
    names.filter(|n: Seq<char>| n != src)
}

/// The destination namespaces of a directive: every cluster namespace
/// under the wildcard, otherwise the comma-separated fields of the
/// directive, in order and with the source namespace excluded either way.
pub open spec fn spec_targets(
    directive: Seq<char>,
    src: Seq<char>,
    cluster: Seq<Seq<char>>,
) -> Seq<Seq<char>> {
    if is_wildcard(directive) {
        spec_exclude(cluster, src)
    } else {
        spec_exclude(split_commas(directive), src)
    }
}

/// Is the directive the wildcard?
pub fn is_wildcard_exec(s: &str) -> (r: bool)
    ensures
        r == is_wildcard(s@),
{
    s.unicode_len() == 1 && s.get_char(0) == '*'
}

/// Drops every name equal to `src`, keeping the order of the rest.
pub fn exclude_source(names: &Vec<String>, src: &str) -> (r: Vec<String>)
    ensures
        r@.map_values(|s: String| s@) == spec_exclude(names@.map_values(|s: String| s@), src@),
{
    let ghost all = names@.map_values(|s: String| s@);
    let mut r: Vec<String> = Vec::new();
    proof {
        reveal(Seq::filter);
        assert(all.take(0) =~= Seq::<Seq<char>>::empty());
        assert(r@.map_values(|s: String| s@) =~= spec_exclude(all.take(0), src@));
    }
    let mut i: usize = 0;
    while i < names.len()
        invariant
            0 <= i <= names.len(),
            all == names@.map_values(|s: String| s@),
            all.len() == names.len(),
            r@.map_values(|s: String| s@) == spec_exclude(all.take(i as int), src@),
        decreases names.len() - i,
    {
        let ghost views = r@.map_values(|s: String| s@);
        proof {
            reveal(Seq::filter);
            assert(all.take(i + 1).drop_last() =~= all.take(i as int));
            assert(all.take(i + 1).last() == all[i as int]);
        }
        if !str_eq(names[i].as_str(), src) {
            let kept = names[i].clone();
            proof {
                assert(r@.push(kept).map_values(|s: String| s@) =~= views.push(all[i as int]));
            }
            r.push(kept);
        }
        i += 1;
    }
    proof {
        assert(all.take(names.len() as int) =~= all);
    }
    r
}

/// Resolves the directive against the source namespace. Under the
/// wildcard the caller supplies the namespaces currently in the cluster;
/// otherwise that argument is not consulted.
pub fn resolve_targets(directive: &str, source_ns: &str, cluster_namespaces: &Vec<String>) -> (targets: Vec<
    String,
>)
    ensures
        targets@.map_values(|s: String| s@) == spec_targets(
            directive@,
            source_ns@,
            cluster_namespaces@.map_values(|s: String| s@),
        ),
{
    if is_wildcard_exec(directive) {
        exclude_source(cluster_namespaces, source_ns)
    } else {
        let parts = split_commas_exec(directive);
        exclude_source(&parts, source_ns)
    }
}

} // verus!
