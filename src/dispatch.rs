use vstd::prelude::*;

use crate::filter::{passes, spec_passes, Player};
use crate::frame::Frame;
use crate::scan::{combos_view, kill_combos, spec_kill_combos, Combo, Config};

verus! {

/// Number of workers among which a large list of files is shared.
pub const WORKERS: usize = 8;

/// Why a run over a path could not start.
#[derive(Clone, Copy, Debug, PartialEq, Eq, Structural)]
pub enum TargetPathError {
    PathNotFound,
}

/// Whether a file extension marks a match recording: plain or compressed.
pub fn is_recording_extension(ext: &str) -> (r: bool)
    ensures
        r == (ext@ == seq!['s', 'l', 'p'] || ext@ == seq!['s', 'l', 'p', 'z']),
{
    let e = ext.to_owned();
    let plain = "slp".to_owned();
    let compressed = "slpz".to_owned();
    proof {
        reveal_strlit("slp");
        reveal_strlit("slpz");
        assert("slp"@ =~= seq!['s', 'l', 'p']);
        assert("slpz"@ =~= seq!['s', 'l', 'p', 'z']);
    }
    e == plain || e == compressed
}

/// Whether the files are shared among workers rather than processed in turn
/// on the calling thread.
pub fn use_workers(file_count: usize) -> (r: bool)
    ensures
        r == (file_count >= WORKERS),
{
    file_count >= WORKERS
}

/// Number of files in slice `i` of `n`: the first `n % 8` slices hold one
/// file more than the others.
pub open spec fn slice_len(n: int, i: int) -> int {
    n / WORKERS as int + if i < n % WORKERS as int {
        1int
    } else {
        0int
    }
}

/// First file of slice `i` of `n`: the lengths of the slices before it, summed.
pub open spec fn slice_start(n: int, i: int) -> int {
    i * (n / WORKERS as int) + if i < n % WORKERS as int {
        i
    } else {
        n % WORKERS as int
    }
}

/// File `k` of `n` lies in one of the slices.
pub open spec fn in_some_slice(n: int, k: int) -> bool {
    exists|i: int| 0 <= i < WORKERS && slice_start(n, i) <= k < slice_start(n, i) + #[trigger] slice_len(n, i)
}

proof fn lemma_slice_step(n: int, i: int)
    requires
        0 <= n,
        0 <= i,
    ensures
        slice_start(n, i + 1) == slice_start(n, i) + slice_len(n, i),
{
    let c = n / 8;
    assert((i + 1) * c == i * c + c) by (nonlinear_arith);
}

proof fn lemma_slice_total(n: int)
    requires
        0 <= n,
    ensures
        slice_start(n, WORKERS as int) == n,
{
    assert(8 * (n / 8) + n % 8 == n) by (nonlinear_arith);
}

proof fn lemma_slice_starts_ordered(n: int, i: int, j: int)
    requires
        0 <= n,
        0 <= i <= j,
    ensures
        slice_start(n, i) <= slice_start(n, j),
    decreases j - i,
{
    if i < j {
        lemma_slice_step(n, j - 1);
        lemma_slice_starts_ordered(n, i, j - 1);
    }
}

/// Splits `count` files into `WORKERS` contiguous ranges `[start, end)` of
/// near-equal size, larger ones first.
pub fn partition_slices(count: usize) -> (r: Vec<(usize, usize)>)
    ensures
        r@.len() == WORKERS,
        forall|i: int|
            0 <= i < WORKERS ==> #[trigger] r@[i] == (
            slice_start(count as int, i) as usize,
            (slice_start(count as int, i) + slice_len(count as int, i)) as usize,
        ),
        forall|i: int|
            0 <= i < WORKERS ==> 0 <= slice_start(count as int, i) && slice_start(count as int, i)
                + slice_len(count as int, i) <= count,
{
    let chunk = count / WORKERS;
    let rem = count % WORKERS;
    let mut r: Vec<(usize, usize)> = Vec::new();
    let mut start: usize = 0;
    let mut i: usize = 0;
    proof {
        lemma_slice_total(count as int);
    }
    while i < WORKERS
        invariant
            i <= WORKERS,
            r@.len() == i,
            chunk == count / 8,
            rem == count % 8,
            start == slice_start(count as int, i as int),
            slice_start(count as int, WORKERS as int) == count,
            forall|j: int|
                0 <= j < i ==> #[trigger] r@[j] == (
                slice_start(count as int, j) as usize,
                (slice_start(count as int, j) + slice_len(count as int, j)) as usize,
            ),
            forall|j: int|
                0 <= j < i ==> 0 <= slice_start(count as int, j) && slice_start(count as int, j)
                    + slice_len(count as int, j) <= count,
        decreases WORKERS - i,
    {
        proof {
            lemma_slice_step(count as int, i as int);
            lemma_slice_starts_ordered(count as int, i as int + 1, WORKERS as int);
            lemma_slice_starts_ordered(count as int, 0, i as int);
        }
        let len = if i < rem {
            chunk + 1
        } else {
            chunk
        };
        r.push((start, start + len));
        start = start + len;
        i += 1;
    }
    r
}

/// The slices of any number of files do not overlap, follow each other in
/// order, cover every file exactly once, and differ in length by at most one.
pub proof fn lemma_slices_partition(n: nat)
    ensures
        slice_start(n as int, 0) == 0,
        slice_start(n as int, WORKERS as int) == n,
        forall|i: int|
            0 <= i < WORKERS ==> slice_start(n as int, i) + slice_len(n as int, i)
                == #[trigger] slice_start(n as int, i + 1),
        forall|i: int, j: int|
            #![trigger slice_len(n as int, i), slice_start(n as int, j)]
            0 <= i < j < WORKERS ==> slice_start(n as int, i) + slice_len(n as int, i)
                <= slice_start(n as int, j),
        forall|k: int| 0 <= k < n ==> #[trigger] in_some_slice(n as int, k),
        forall|i: int, j: int|
            0 <= i < WORKERS && 0 <= j < WORKERS ==> #[trigger] slice_len(n as int, i)
                <= #[trigger] slice_len(n as int, j) + 1,
{
    lemma_slice_total(n as int);
    assert forall|i: int| 0 <= i < WORKERS implies slice_start(n as int, i) + slice_len(n as int, i)
        == #[trigger] slice_start(n as int, i + 1) by {
        lemma_slice_step(n as int, i);
    }
    assert forall|i: int, j: int|
        #![trigger slice_len(n as int, i), slice_start(n as int, j)]
        0 <= i < j < WORKERS implies slice_start(n as int, i) + slice_len(n as int, i)
            <= slice_start(n as int, j) by {
        lemma_slice_step(n as int, i);
        lemma_slice_starts_ordered(n as int, i + 1, j);
    }
    assert forall|k: int| 0 <= k < n implies #[trigger] in_some_slice(n as int, k) by {
        lemma_slice_holding(n as int, k, 0);
    }
}

proof fn lemma_slice_holding(n: int, k: int, i: int)
    requires
        0 <= k < n,
        0 <= i < WORKERS,
        slice_start(n, i) <= k,
    ensures
        in_some_slice(n, k),
    decreases WORKERS - i,
{
    lemma_slice_step(n, i);
    lemma_slice_total(n);
    if k < slice_start(n, i) + slice_len(n, i) {
        assert(slice_start(n, i) <= k < slice_start(n, i) + slice_len(n, i));
    } else {
        lemma_slice_holding(n, k, i + 1);
    }
}


/// The results of slice `i`: those of its files, joined in file order.
pub open spec fn slice_results<A>(results: Seq<Seq<A>>, i: int) -> Seq<A> {
    let n = results.len() as int;
    results.subrange(slice_start(n, i), slice_start(n, i) + slice_len(n, i)).flatten()
}

proof fn lemma_flatten_concat<A>(a: Seq<Seq<A>>, b: Seq<Seq<A>>)
    ensures
        (a + b).flatten() == a.flatten() + b.flatten(),
    decreases a.len(),
{
    if a.len() == 0 {
        assert(a + b =~= b);
        assert(a.flatten() + b.flatten() =~= b.flatten());
    } else {
        assert((a + b).drop_first() =~= a.drop_first() + b);
        lemma_flatten_concat(a.drop_first(), b);
        assert((a + b).first() == a.first());
        assert(a.first() + (a.drop_first().flatten() + b.flatten()) =~= (a.first()
            + a.drop_first().flatten()) + b.flatten());
    }
}

/// Sharing files among workers changes neither which combos are found nor
/// their order: joining the results of the slices, in slice order, gives the
/// results of all files joined in file order.
pub proof fn lemma_slices_join_to_sequential<A>(results: Seq<Seq<A>>)
    ensures
        Seq::new(WORKERS as nat, |i: int| slice_results(results, i)).flatten() == results.flatten(),
{
    let n = results.len() as int;
    lemma_slice_total(n);
    lemma_slices_prefix(results, WORKERS as int);
    assert(results.subrange(0, n) =~= results);
}

proof fn lemma_slices_prefix<A>(results: Seq<Seq<A>>, k: int)
    requires
        0 <= k <= WORKERS,
    ensures
        Seq::new(k as nat, |i: int| slice_results(results, i)).flatten() == results.subrange(
            0,
            slice_start(results.len() as int, k),
        ).flatten(),
    decreases k,
{
    let n = results.len() as int;
    let f = |i: int| slice_results(results, i);
    lemma_slice_total(n);
    if k == 0 {
        assert(results.subrange(0, 0) =~= Seq::<Seq<A>>::empty());
        assert(Seq::new(0, f) =~= Seq::<Seq<A>>::empty());
    } else {
        lemma_slices_prefix(results, k - 1);
        lemma_slice_step(n, k - 1);
        lemma_slice_starts_ordered(n, k, WORKERS as int);
        lemma_slice_starts_ordered(n, 0, k - 1);
        let s0 = slice_start(n, k - 1);
        let s1 = slice_start(n, k);
        assert(Seq::new(k as nat, f) =~= Seq::new((k - 1) as nat, f).push(f(k - 1)));
        Seq::new((k - 1) as nat, f).lemma_flatten_push(f(k - 1));
        assert(results.subrange(0, s1) =~= results.subrange(0, s0) + results.subrange(s0, s1));
        lemma_flatten_concat(results.subrange(0, s0), results.subrange(s0, s1));
    }
}

/// Which orientations of a match pass the filter: the low slot attacking the
/// high one, then the high slot attacking the low one.
pub fn orientations(config: &Config, low: &Player, high: &Player) -> (r: (bool, bool))
    ensures
        r.0 == spec_passes(*config, *low, *high),
        r.1 == spec_passes(*config, *high, *low),
{
    (passes(config, low, high), passes(config, high, low))
}

/// The combos of one match: those of the low slot attacking, if that
/// orientation passed, followed by those of the high slot attacking, if it
/// passed.
pub fn match_combos(
    config: &Config,
    path: &String,
    low: &[Frame],
    high: &[Frame],
    low_passes: bool,
    high_passes: bool,
) -> (r: Vec<Combo>)
    requires
        low@.len() == high@.len(),
        config.wf(),
    ensures
        combos_view(r@) == (if low_passes {
            spec_kill_combos(low@, high@, *config, path@)
        } else {
            seq![]
        }) + (if high_passes {
            spec_kill_combos(high@, low@, *config, path@)
        } else {
            seq![]
        }),
{
    let mut r: Vec<Combo> = if low_passes {
        kill_combos(low, high, config, path)
    } else {
        Vec::new()
    };
    let ghost first = r@;
    if high_passes {
        let mut more = kill_combos(high, low, config, path);
        let ghost second = more@;
        r.append(&mut more);
        assert(combos_view(r@) =~= combos_view(first) + combos_view(second));
    } else {
        assert(combos_view(r@) =~= combos_view(first) + seq![]);
    }
    r
}

/// Joins the combos found by each worker, in the order of the workers.
pub fn join_results(parts: Vec<Vec<Combo>>) -> (r: Vec<Combo>)
    ensures
        combos_view(r@) == parts@.map_values(|p: Vec<Combo>| combos_view(p@)).flatten(),
{
    let ghost all = parts@;
    let ghost f = |p: Vec<Combo>| combos_view(p@);
    let mut rest = parts;
    let mut r: Vec<Combo> = Vec::new();
    while rest.len() > 0
        invariant
            all.map_values(f).flatten() == combos_view(r@) + rest@.map_values(f).flatten(),
            f == (|p: Vec<Combo>| combos_view(p@)),
        decreases rest@.len(),
    {
        let ghost before = r@;
        let ghost left = rest@;
        let mut part = rest.remove(0);
        let ghost added = part@;
        r.append(&mut part);
        proof {
            assert(left =~= seq![left[0]] + rest@);
            assert(left.map_values(f) =~= seq![f(left[0])] + rest@.map_values(f));
            lemma_flatten_concat(seq![f(left[0])], rest@.map_values(f));
            seq![f(left[0])].lemma_flatten_one_element();
            assert(combos_view(r@) =~= combos_view(before) + combos_view(added));
        }
    }
    assert(rest@.map_values(f) =~= Seq::<Seq<(Seq<char>, int, int)>>::empty());
    assert(combos_view(r@) + Seq::<(Seq<char>, int, int)>::empty() =~= combos_view(r@));
    r
}

} // verus!
