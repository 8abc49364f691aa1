//! Run-level laws of the merge: what a whole run yields from the metadata
//! of its input archives. An archive is modelled by the pair of the text
//! of its `rust-installer-version` file and of its `components` file, in
//! the order the inputs are given.

use vstd::prelude::*;
use crate::combine::{spec_step, spec_components, version_ok, fresh_for, distinct_seq, manifest_of};
use crate::text::spec_entries;

verus! {

/// The merged component names a run yields, starting from the names in
/// `merged`: each archive is merged in turn, and the first archive whose
/// version is unsupported or whose components collide aborts the run.
pub open spec fn spec_run_from(
    merged: Seq<Seq<char>>,
    archives: Seq<(Seq<char>, Seq<char>)>,
) -> Option<Seq<Seq<char>>>
    decreases archives.len(),
{
    if archives.len() == 0 {
        Some(merged)
    } else {
        match spec_step(merged, archives[0].0, archives[0].1) {
            None => None,
            Some(m) => spec_run_from(m, archives.drop_first()),
        }
    }
}

/// The merged component names of a whole run, which starts empty.
pub open spec fn spec_run(archives: Seq<(Seq<char>, Seq<char>)>) -> Option<Seq<Seq<char>>> {
    spec_run_from(Seq::empty(), archives)
}

/// Every component name declared across the archives, in input order and,
/// within one archive, declared order.
pub open spec fn all_components(archives: Seq<(Seq<char>, Seq<char>)>) -> Seq<Seq<char>>
    decreases archives.len(),
{
    if archives.len() == 0 {
        Seq::empty()
    } else {
        spec_components(archives[0].1) + all_components(archives.drop_first())
    }
}

proof fn lemma_run_from_union(merged: Seq<Seq<char>>, archives: Seq<(Seq<char>, Seq<char>)>)
    requires
        forall|i: int| 0 <= i < archives.len() ==> version_ok((#[trigger] archives[i]).0),
        distinct_seq(merged + all_components(archives)),
    ensures
        spec_run_from(merged, archives) == Some(merged + all_components(archives)),
    decreases archives.len(),
{
    if archives.len() == 0 {
        assert(merged + all_components(archives) =~= merged);
    } else {
        let comps = spec_components(archives[0].1);
        let rest = archives.drop_first();
        let whole = merged + all_components(archives);
        assert(all_components(archives) == comps + all_components(rest));
        assert(fresh_for(merged, comps)) by {
            assert forall|i: int, j: int| 0 <= i < j < comps.len() implies comps[i] != comps[j] by {
                assert(whole[merged.len() + i] == comps[i]);
                assert(whole[merged.len() + j] == comps[j]);
            }
            assert forall|i: int| 0 <= i < comps.len() implies !merged.contains(comps[i]) by {
                if merged.contains(comps[i]) {
                    let y = choose|y: int| 0 <= y < merged.len() && merged[y] == comps[i];
                    assert(whole[y] == merged[y]);
                    assert(whole[merged.len() + i] == comps[i]);
                }
            }
        }
        assert(spec_step(merged, archives[0].0, archives[0].1) == Some(merged + comps));
        assert((merged + comps) + all_components(rest) =~= whole);
        assert(forall|i: int| 0 <= i < rest.len() ==> version_ok((#[trigger] rest[i]).0)) by {
            assert(forall|i: int| 0 <= i < rest.len() ==> rest[i] == archives[i + 1]);
        }
        lemma_run_from_union(merged + comps, rest);
    }
}

/// For well-formed inputs all stamped with the supported version, whose
/// declared component names are pairwise distinct across all inputs, a
/// run succeeds and merges exactly those components, in the order the
/// inputs and their internal listings were given — so the merged
/// manifest lists exactly that union.
pub proof fn lemma_disjoint_union(archives: Seq<(Seq<char>, Seq<char>)>)
    requires
        forall|i: int| 0 <= i < archives.len() ==> version_ok((#[trigger] archives[i]).0),
        distinct_seq(all_components(archives)),
    ensures
        spec_run(archives) == Some(all_components(archives)),
{
    assert(Seq::<Seq<char>>::empty() + all_components(archives) =~= all_components(archives));
    lemma_run_from_union(Seq::empty(), archives);
}

/// The merged result is a function of the configuration and of the
/// archives' contents alone: two runs over identical inputs merge the
/// same components and emit the same manifest text. Because a run begins
/// by deleting and recreating the merged package directory, whatever an
/// earlier run left on disk cannot reach the new merged state, so a rerun
/// reproduces the same merged package.
pub proof fn lemma_rerun_identical(
    first: Seq<(Seq<char>, Seq<char>)>,
    second: Seq<(Seq<char>, Seq<char>)>,
)
    requires
        first == second,
    ensures
        spec_run(first) == spec_run(second),
        spec_run(first) matches Some(m) ==> manifest_of(m) == manifest_of(
            spec_run(second)->Some_0,
        ),
{
}

proof fn lemma_run_from_bad_version(
    merged: Seq<Seq<char>>,
    archives: Seq<(Seq<char>, Seq<char>)>,
    i: int,
)
    requires
        0 <= i < archives.len(),
        !version_ok(archives[i].0),
    ensures
        spec_run_from(merged, archives) is None,
    decreases archives.len(),
{
    if i == 0 {
        assert(spec_step(merged, archives[0].0, archives[0].1) is None);
    } else {
        match spec_step(merged, archives[0].0, archives[0].1) {
            None => {},
            Some(m) => {
                assert(archives.drop_first()[i - 1] == archives[i]);
                lemma_run_from_bad_version(m, archives.drop_first(), i - 1);
            },
        }
    }
}

/// An input archive stamped with an unsupported version makes the whole
/// run fail: no merged result exists. The merge of the offending archive
/// itself refuses before recording anything, and the run's abort means no
/// later input is processed.
pub proof fn lemma_bad_version_fails(archives: Seq<(Seq<char>, Seq<char>)>, i: int)
    requires
        0 <= i < archives.len(),
        !version_ok(archives[i].0),
    ensures
        spec_run(archives) is None,
{
    lemma_run_from_bad_version(Seq::empty(), archives, i);
}

/// With zero input archives the run succeeds and merges nothing: the
/// manifest text is empty, and an empty `input_tarballs` configuration
/// yields that empty list of archives. The version stamp, the script
/// generation and the packing still take place, as they do not depend on
/// the merged set.
pub proof fn lemma_empty_run()
    ensures
        spec_run(Seq::empty()) == Some(Seq::<Seq<char>>::empty()),
        manifest_of(Seq::empty()) == Seq::<char>::empty(),
        spec_entries(Seq::empty(), false) == Seq::<Seq<char>>::empty(),
{
    assert(spec_entries(Seq::empty(), false) =~= Seq::<Seq<char>>::empty()) by {
        let pieces = crate::text::split_from(Seq::empty(), 0, false);
        assert(crate::text::piece_run(Seq::<char>::empty(), 0, false) == 0);
        assert(Seq::<char>::empty().subrange(0, 0) =~= Seq::<char>::empty());
        assert(pieces =~= seq![Seq::<char>::empty()]);
        assert(crate::text::spec_trim(Seq::<char>::empty()) =~= Seq::<char>::empty());
        assert(pieces.drop_first() =~= Seq::<Seq<char>>::empty());
        assert(crate::text::spec_clean(pieces.drop_first()) == Seq::<Seq<char>>::empty());
    }
}

} // verus!
