//! Collision-free, deterministic output naming: `base.mp4`, then
//! `base_1.mp4`, `base_2.mp4`, ... until a name is found that no existing
//! file carries. A target path that itself looks like a file (its name
//! carries an extension) stands for its parent directory. The caller
//! supplies the names already present; the pipeline processes segments
//! sequentially, so the check-then-write race is not exercised.

use vstd::prelude::*;
use crate::text::{dec_digits, lemma_dec_digits_wf, lemma_dec_roundtrip, str_eq, u64_to_dec};
use crate::path::{has_extension, join_of, parent, parent_of, path_has_extension};
use vstd::set_lib::lemma_len_subset;

verus! {

/// The canonical container extension.
pub open spec fn mp4_suffix() -> Seq<char> {
    seq!['.', 'm', 'p', '4']
}

/// The `n`-th candidate name for the base `base`: the plain name for
/// `n == 0`, the name with numeric suffix `n` otherwise.
pub open spec fn candidate_of(base: Seq<char>, n: nat) -> Seq<char> {
    if n == 0 {
        base + mp4_suffix()
    } else {
        base + seq!['_'] + dec_digits(n) + mp4_suffix()
    }
}

/// The directory a target path stands for: itself, or its parent when its
/// file name carries an extension.
pub open spec fn resolved_dir_of(p: Seq<char>) -> Seq<char> {
    if path_has_extension(p) {
        parent_of(p)
    } else {
        p
    }
}

/// Whether `name` occurs among `names`.
pub open spec fn taken(names: Seq<Seq<char>>, name: Seq<char>) -> bool {
    exists|i: int| 0 <= i < names.len() && names[i] == name
}

/// `n` is the least candidate index whose name is free.
pub open spec fn least_free(base: Seq<char>, names: Seq<Seq<char>>, n: nat) -> bool {
    &&& !taken(names, candidate_of(base, n))
    &&& forall|m: nat| m < n ==> taken(names, #[trigger] candidate_of(base, m))
}

/// The set of the first `n` candidate names.
pub open spec fn candidates_below(base: Seq<char>, n: nat) -> Set<Seq<char>> {
    Set::new(|s: Seq<char>| exists|m: nat| m < n && s == candidate_of(base, m))
}

/// Distinct candidate indices give distinct names.
pub proof fn lemma_candidate_injective(base: Seq<char>, m: nat, n: nat)
    requires
        candidate_of(base, m) == candidate_of(base, n),
    ensures
        m == n,
{
    lemma_dec_digits_wf(m);
    lemma_dec_digits_wf(n);
    assert(mp4_suffix().len() == 4);
    if m == 0 && n != 0 {
        assert(candidate_of(base, m).len() == base.len() + 4);
        assert(candidate_of(base, n).len() == base.len() + 1 + dec_digits(n).len() + 4);
        assert(false);
    } else if m != 0 && n == 0 {
        assert(candidate_of(base, n).len() == base.len() + 4);
        assert(candidate_of(base, m).len() == base.len() + 1 + dec_digits(m).len() + 4);
        assert(false);
    } else if m != 0 && n != 0 {
        let dm = dec_digits(m);
        let dn = dec_digits(n);
        assert(candidate_of(base, m).len() == base.len() + 1 + dm.len() + 4);
        assert(candidate_of(base, n).len() == base.len() + 1 + dn.len() + 4);
        assert(dm.len() == dn.len());
        assert forall|i: int| 0 <= i < dm.len() implies dm[i] == dn[i] by {
            assert(candidate_of(base, m)[base.len() + 1 + i] == dm[i]);
            assert(candidate_of(base, n)[base.len() + 1 + i] == dn[i]);
        }
        assert(dm =~= dn);
        lemma_dec_roundtrip(m);
        lemma_dec_roundtrip(n);
    }
}

/// There are exactly `n` candidate names below index `n`.
proof fn lemma_candidates_below_card(base: Seq<char>, n: nat)
    ensures
        candidates_below(base, n).finite(),
        candidates_below(base, n).len() == n,
    decreases n,
{
    if n == 0 {
        assert(candidates_below(base, 0) =~= Set::<Seq<char>>::empty());
    } else {
        lemma_candidates_below_card(base, (n - 1) as nat);
        assert forall|s: Seq<char>| #[trigger] candidates_below(base, n).contains(s) implies
            candidates_below(base, (n - 1) as nat).insert(candidate_of(base, (n - 1) as nat))
            .contains(s) by {
            let m = choose|m: nat| m < n && s == candidate_of(base, m);
            if m < n - 1 {
                assert(candidates_below(base, (n - 1) as nat).contains(s));
            }
        }
        assert(candidates_below(base, n) =~= candidates_below(base, (n - 1) as nat).insert(
            candidate_of(base, (n - 1) as nat),
        ));
        if candidates_below(base, (n - 1) as nat).contains(candidate_of(base, (n - 1) as nat)) {
            let m = choose|m: nat|
                m < n - 1 && candidate_of(base, (n - 1) as nat) == #[trigger] candidate_of(
                    base,
                    m,
                );
            lemma_candidate_injective(base, m, (n - 1) as nat);
            assert(false);
        }
    }
}

/// Builds the `n`-th candidate name for `base`.
pub fn nth_candidate(base: &str, n: u64) -> (r: String)
    ensures
        r@ == candidate_of(base@, n as nat),
{
    proof {
        reveal_strlit(".mp4");
        reveal_strlit("_");
    }
    let mut s = String::from_str(base);
    if n == 0 {
        s.append(".mp4");
        assert(s@ =~= candidate_of(base@, n as nat));
        s
    } else {
        s.append("_");
        let d = u64_to_dec(n);
        s.append(d.as_str());
        s.append(".mp4");
        assert(s@ =~= candidate_of(base@, n as nat));
        s
    }
}

/// Whether `name` occurs among the existing names.
fn contains_name(existing: &Vec<String>, name: &str) -> (r: bool)
    ensures
        r == taken(existing.deep_view(), name@),
{
    let ghost names = existing.deep_view();
    let mut i: usize = 0;
    while i < existing.len()
        invariant
            0 <= i <= existing.len(),
            names == existing.deep_view(),
            names.len() == existing.len(),
            forall|j: int| 0 <= j < i ==> names[j] != name@,
        decreases existing.len() - i,
    {
        assert(names[i as int] == existing[i as int]@);
        if str_eq(existing[i].as_str(), name) {
            return true;
        }
        i = i + 1;
    }
    false
}

/// Picks the first free candidate name for `base`, given the names
/// already present.
pub fn next_free_candidate(base: &str, existing: &Vec<String>) -> (r: String)
    ensures
        exists|n: nat|
            #[trigger] least_free(base@, existing.deep_view(), n) && r@ == candidate_of(
                base@,
                n,
            ),
{
    broadcast use vstd::seq_lib::seq_to_set_is_finite;

    let ghost names = existing.deep_view();
    let count: usize = existing.len();
    assert(names.len() == count);
    let mut n: u64 = 0;
    loop
        invariant
            names == existing.deep_view(),
            names.len() == count,
            n <= count,
            forall|m: nat| m < n ==> taken(names, #[trigger] candidate_of(base@, m)),
        decreases names.to_set().difference(candidates_below(base@, n as nat)).len(),
    {
        let cand = nth_candidate(base, n);
        if !contains_name(existing, cand.as_str()) {
            proof {
                assert(least_free(base@, names, n as nat));
            }
            return cand;
        }
        proof {
            let ghost cn = candidate_of(base@, n as nat);
            assert(taken(names, cn));
            let i = choose|i: int| 0 <= i < names.len() && names[i] == cn;
            assert(0 <= i < names.len() && names[i] == cn);
            assert(names.contains(cn));
            assert(names.to_set().contains(cn));
            // the found candidate is new: candidates are pairwise distinct
            if candidates_below(base@, n as nat).contains(cn) {
                let m = choose|m: nat| m < n && cn == candidate_of(base@, m);
                lemma_candidate_injective(base@, m, n as nat);
                assert(false);
            }
            // all candidates up to and including n are taken, so they form
            // n + 1 distinct names among the existing ones
            lemma_candidates_below_card(base@, n as nat + 1);
            assert forall|s: Seq<char>| #[trigger] candidates_below(base@, n as nat + 1).contains(
                s,
            ) implies names.to_set().contains(s) by {
                let m = choose|m: nat| m < n + 1 && s == #[trigger] candidate_of(base@, m);
                assert(taken(names, candidate_of(base@, m)));
                let j = choose|j: int| 0 <= j < names.len() && names[j] == s;
                assert(0 <= j < names.len() && names[j] == s);
                assert(names.contains(s));
            }
            lemma_len_subset(candidates_below(base@, n as nat + 1), names.to_set());
            names.lemma_cardinality_of_set();
            // termination: the free pool shrinks by the found candidate
            names.to_set().lemma_set_insert_diff_decreases(
                candidates_below(base@, n as nat),
                cn,
            );
            assert(candidates_below(base@, n as nat + 1) =~= candidates_below(
                base@,
                n as nat,
            ).insert(cn));
            assert(n as nat + 1 <= names.len());
        }
        n = n + 1;
    }
}

/// Picks the first free candidate name for `base` in the directory the
/// target path stands for, given the file names that directory already
/// holds, and returns the joined output path.
pub fn next_output_name(base: &str, target_dir: &str, existing: &Vec<String>) -> (r: String)
    ensures
        exists|n: nat|
            #[trigger] least_free(base@, existing.deep_view(), n) && r@ == join_of(
                resolved_dir_of(target_dir@),
                candidate_of(base@, n),
            ),
{
    let dir = if has_extension(target_dir) {
        parent(target_dir)
    } else {
        String::from_str(target_dir)
    };
    let cand = next_free_candidate(base, existing);
    crate::path::join_path(dir.as_str(), cand.as_str())
}

/// With exactly the candidates below `n` present, the next free candidate
/// index is `n` itself: `base.mp4` through `base_(n-1).mp4` taken means
/// `base_n.mp4` comes next.
pub proof fn lemma_namer_next(base: Seq<char>, names: Seq<Seq<char>>, n: nat)
    requires
        names.len() == n,
        forall|i: int| 0 <= i < n ==> names[i] == candidate_of(base, i as nat),
    ensures
        least_free(base, names, n),
{
    if taken(names, candidate_of(base, n)) {
        let i = choose|i: int| 0 <= i < names.len() && names[i] == candidate_of(base, n);
        lemma_candidate_injective(base, i as nat, n);
        assert(false);
    }
    assert forall|m: nat| m < n implies taken(names, #[trigger] candidate_of(base, m)) by {
        assert(names[m as int] == candidate_of(base, m));
    }
}

/// The least free candidate index is unique.
pub proof fn lemma_least_free_unique(base: Seq<char>, names: Seq<Seq<char>>, n1: nat, n2: nat)
    requires
        least_free(base, names, n1),
        least_free(base, names, n2),
    ensures
        n1 == n2,
{
}

} // verus!
