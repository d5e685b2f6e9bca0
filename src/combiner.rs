//! The scenario combiner: from one candidate list per axis to a set of
//! combinations that varies one axis at a time around a passing baseline.
use vstd::prelude::*;
use crate::instructions::OK;
use crate::mutation::Mutation;

verus! {

/// The candidate expects the service to accept the request.
pub open spec fn passes(m: Mutation) -> bool {
    m.mutagen.expected == OK
}

/// A candidate list with its passing candidates first, each part in its
/// order of arrival.
pub open spec fn ok_first(s: Seq<Mutation>) -> Seq<Mutation> {
    s.filter(|m: Mutation| passes(m)) + s.filter(|m: Mutation| !passes(m))
}

/// The candidate lists of the axes.
pub open spec fn axes_view(axes: Seq<Vec<Mutation>>) -> Seq<Seq<Mutation>> {
    axes.map_values(|a: Vec<Mutation>| a@)
}

/// The number of candidates of each axis.
pub open spec fn lengths(axes: Seq<Seq<Mutation>>) -> Seq<int> {
    axes.map_values(|a: Seq<Mutation>| a.len() as int)
}

/// Every axis has a candidate and its first one passes.
pub open spec fn exercisable(axes: Seq<Seq<Mutation>>) -> bool {
    forall|i: int| 0 <= i < axes.len() ==> (#[trigger] axes[i]).len() > 0 && passes(axes[i][0])
}

/// The first candidate of every axis.
pub open spec fn baseline(n: nat) -> Seq<int> {
    Seq::new(n, |i: int| 0)
}

/// The combinations that move axis `i` away from the baseline, one per
/// further candidate of that axis.
pub open spec fn axis_variants(lens: Seq<int>, i: int) -> Seq<Seq<int>> {
    Seq::new((lens[i] - 1) as nat, |j: int| baseline(lens.len()).update(i, j + 1))
}

/// The variants of the first `i` axes, axis after axis.
pub open spec fn variants(lens: Seq<int>, i: int) -> Seq<Seq<int>>
    decreases i,
{
    if i <= 0 {
        Seq::empty()
    } else {
        variants(lens, i - 1) + axis_variants(lens, i - 1)
    }
}

/// The combinations, as the candidate index chosen on each axis: the
/// baseline, then each single-axis deviation; none at all when the
/// baseline does not pass.
pub open spec fn combinations_of(axes: Seq<Seq<Mutation>>) -> Seq<Seq<int>> {
    if exercisable(axes) {
        seq![baseline(axes.len())] + variants(lengths(axes), axes.len() as int)
    } else {
        Seq::empty()
    }
}

/// The further candidates of the first `i` axes, summed.
pub open spec fn extra(lens: Seq<int>, i: int) -> int
    decreases i,
{
    if i <= 0 {
        0
    } else {
        extra(lens, i - 1) + lens[i - 1] - 1
    }
}

/// The chosen candidate indices, as integers.
pub open spec fn picks_view(c: Vec<usize>) -> Seq<int> {
    c@.map_values(|x: usize| x as int)
}

/// A passing candidate list first, the failing ones after; stable.
pub fn sort_axis(axis: Vec<Mutation>) -> (r: Vec<Mutation>)
    ensures
        r@ == ok_first(axis@),
{
    let mut good: Vec<Mutation> = Vec::new();
    let mut bad: Vec<Mutation> = Vec::new();
    let ghost all = axis@;
    let ghost p = |m: Mutation| passes(m);
    let ghost q = |m: Mutation| !passes(m);
    let mut rest = axis;
    let mut k: usize = 0;
    let total_len = rest.len();
    while rest.len() > 0
        invariant
            k <= all.len(),
            all.len() == total_len,
            rest@ == all.subrange(k as int, all.len() as int),
            p == (|m: Mutation| passes(m)),
            q == (|m: Mutation| !passes(m)),
            good@ == all.subrange(0, k as int).filter(p),
            bad@ == all.subrange(0, k as int).filter(q),
        decreases rest@.len(),
    {
        let m = rest.remove(0);
        let ghost s1 = all.subrange(0, k + 1);
        proof {
            reveal(Seq::filter);
            assert(s1.drop_last() =~= all.subrange(0, k as int));
            assert(m == all[k as int]);
            assert(s1.last() == m);
            assert(rest@ =~= all.subrange(k + 1, all.len() as int));
        }
        if m.mutagen.expected == OK {
            good.push(m);
        } else {
            bad.push(m);
        }
        proof {
            assert(good@ == s1.filter(p));
            assert(bad@ == s1.filter(q));
        }
        k = k + 1;
    }
    proof {
        assert(all.subrange(0, k as int) =~= all);
    }
    good.append(&mut bad);
    good
}

/// Whether every axis has a candidate and each first candidate passes.
pub fn baseline_passes(axes: &Vec<Vec<Mutation>>) -> (r: bool)
    ensures
        r == exercisable(axes_view(axes@)),
{
    let mut i: usize = 0;
    while i < axes.len()
        invariant
            i <= axes.len(),
            forall|a: int| 0 <= a < i ==> (#[trigger] axes@[a]@).len() > 0 && passes(axes@[a]@[0]),
        decreases axes.len() - i,
    {
        if axes[i].len() == 0 || axes[i][0].mutagen.expected != OK {
            proof {
                assert(axes_view(axes@)[i as int] == axes@[i as int]@);
            }
            return false;
        }
        i = i + 1;
    }
    proof {
        assert forall|a: int| 0 <= a < axes_view(axes@).len() implies
            (#[trigger] axes_view(axes@)[a]).len() > 0 && passes(axes_view(axes@)[a][0]) by {
            assert(axes_view(axes@)[a] == axes@[a]@);
        }
    }
    true
}

fn zeros(n: usize) -> (r: Vec<usize>)
    ensures
        picks_view(r) == baseline(n as nat),
        r@.len() == n,
{
    let mut r: Vec<usize> = Vec::new();
    let mut i: usize = 0;
    while i < n
        invariant
            i <= n,
            r@.len() == i,
            forall|a: int| 0 <= a < i ==> r@[a] == 0,
        decreases n - i,
    {
        r.push(0);
        i = i + 1;
    }
    proof {
        assert(picks_view(r) =~= baseline(n as nat));
    }
    r
}

/// The combinations of the axes: the all-first baseline, then for each axis
/// in order and each of its further candidates, the baseline with that one
/// candidate in place. None when the baseline does not pass.
pub fn combinations(axes: &Vec<Vec<Mutation>>) -> (r: Vec<Vec<usize>>)
    ensures
        r@.map_values(|c: Vec<usize>| picks_view(c)) == combinations_of(axes_view(axes@)),
{
    let ghost av = axes_view(axes@);
    let ghost lens = lengths(av);
    let ghost f = |c: Vec<usize>| picks_view(c);
    let mut r: Vec<Vec<usize>> = Vec::new();
    if !baseline_passes(axes) {
        proof {
            assert(r@.map_values(f) =~= combinations_of(av));
        }
        return r;
    }
    let n = axes.len();
    let z = zeros(n);
    r.push(z);
    proof {
        assert(lengths(av).len() == n);
        assert(r@.map_values(f) =~= seq![baseline(n as nat)] + variants(lens, 0));
    }
    let mut i: usize = 0;
    while i < n
        invariant
            n == axes@.len(),
            av == axes_view(axes@),
            lens == lengths(av),
            f == (|c: Vec<usize>| picks_view(c)),
            exercisable(av),
            lens.len() == n,
            i <= n,
            r@.map_values(f) == seq![baseline(n as nat)] + variants(lens, i as int),
        decreases n - i,
    {
        let len_i = axes[i].len();
        proof {
            assert(av[i as int] == axes@[i as int]@);
            assert(lens[i as int] == len_i);
            assert(len_i > 0);
        }
        let ghost start = r@.map_values(f);
        let mut j: usize = 1;
        while j < len_i
            invariant
                n == axes@.len(),
                lens == lengths(av),
                f == (|c: Vec<usize>| picks_view(c)),
                i < n,
                lens.len() == n,
                lens[i as int] == len_i,
                1 <= j <= len_i,
                r@.map_values(f) == start + axis_variants(lens, i as int).subrange(0, j - 1),
            decreases len_i - j,
        {
            let mut c = zeros(n);
            c.set(i, j);
            let ghost before = r@;
            r.push(c);
            proof {
                assert(picks_view(c) =~= baseline(n as nat).update(i as int, j as int));
                assert(axis_variants(lens, i as int)[j - 1] == baseline(n as nat).update(i as int, j as int));
                assert(r@.map_values(f) =~= before.map_values(f).push(picks_view(c)));
                assert(axis_variants(lens, i as int).subrange(0, j as int)
                    =~= axis_variants(lens, i as int).subrange(0, j - 1).push(picks_view(c)));
            }
            j = j + 1;
        }
        proof {
            assert(axis_variants(lens, i as int).subrange(0, j - 1) =~= axis_variants(lens, i as int));
            assert(variants(lens, i + 1) == variants(lens, i as int) + axis_variants(lens, i as int));
            assert(r@.map_values(f) =~= seq![baseline(n as nat)] + variants(lens, i + 1));
        }
        i = i + 1;
    }
    proof {
        assert(lens.len() == n);
    }
    r
}

proof fn lemma_variants_len(lens: Seq<int>, i: int)
    requires
        0 <= i <= lens.len(),
        forall|a: int| 0 <= a < lens.len() ==> #[trigger] lens[a] >= 1,
    ensures
        variants(lens, i).len() == extra(lens, i),
    decreases i,
{
    if i > 0 {
        lemma_variants_len(lens, i - 1);
    }
}

/// One factor at a time: over axes of lengths `L1..Ln` whose first
/// candidates all pass, the combiner yields exactly `1 + Σ(Li − 1)`
/// combinations; when some first candidate does not pass, it yields none.
pub proof fn combination_count(axes: Seq<Seq<Mutation>>)
    ensures
        exercisable(axes) ==> combinations_of(axes).len() == 1 + extra(lengths(axes), axes.len() as int),
        !exercisable(axes) ==> combinations_of(axes).len() == 0,
{
    if exercisable(axes) {
        let lens = lengths(axes);
        assert forall|a: int| 0 <= a < lens.len() implies #[trigger] lens[a] >= 1 by {
            assert(axes[a].len() > 0);
        }
        lemma_variants_len(lens, axes.len() as int);
    }
}

} // verus!

verus! {

/// A combination picks one candidate on each axis.
pub open spec fn valid_combination(axes: Seq<Seq<Mutation>>, c: Seq<int>) -> bool {
    &&& c.len() == axes.len()
    &&& forall|i: int| 0 <= i < axes.len() ==> 0 <= #[trigger] c[i] < axes[i].len()
}

proof fn lemma_variants_valid(axes: Seq<Seq<Mutation>>, i: int, k: int)
    requires
        exercisable(axes),
        0 <= i <= axes.len(),
        0 <= k < variants(lengths(axes), i).len(),
    ensures
        valid_combination(axes, variants(lengths(axes), i)[k]),
    decreases i,
{
    let lens = lengths(axes);
    if i > 0 {
        let prev = variants(lens, i - 1);
        if k < prev.len() {
            lemma_variants_valid(axes, i - 1, k);
        } else {
            let j = k - prev.len();
            assert(axes[i - 1].len() > 0);
            assert(variants(lens, i)[k] == axis_variants(lens, i - 1)[j]);
        }
    }
}

/// Every combination picks one existing candidate on each axis.
pub proof fn lemma_combinations_valid(axes: Seq<Seq<Mutation>>, k: int)
    requires
        0 <= k < combinations_of(axes).len(),
    ensures
        valid_combination(axes, combinations_of(axes)[k]),
{
    if k > 0 {
        lemma_variants_valid(axes, axes.len() as int, k - 1);
    } else {
        assert(combinations_of(axes)[0] == baseline(axes.len()));
        assert forall|i: int| 0 <= i < axes.len() implies 0 <= #[trigger] baseline(axes.len())[i] < axes[i].len() by {
            assert(axes[i].len() > 0);
        }
    }
}

} // verus!
