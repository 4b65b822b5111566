//! Destination and store paths, and the backup-rename chain that vacates a
//! destination without deleting anything.
//!
//! Paths are byte strings, as on Unix.
use vstd::prelude::*;
use crate::bytes::concat;
use crate::kinds::CopyError;
use vstd::slice::slice_to_vec;

verus! {

/// The path separator.
pub const SEPARATOR: u8 = 47;

/// `name` appended to `dir` as one more path component; an absolute `name`
/// replaces `dir`.
pub open spec fn join_spec(dir: Seq<u8>, name: Seq<u8>) -> Seq<u8> {
    if name.len() > 0 && name[0] == SEPARATOR {
        name
    } else if dir.len() == 0 || dir.last() == SEPARATOR {
        dir + name
    } else {
        dir + seq![SEPARATOR] + name
    }
}

/// Joins a path component to a directory path.
pub fn join(dir: &[u8], name: &[u8]) -> (r: Vec<u8>)
    ensures
        r@ == join_spec(dir@, name@),
{
    if name.len() > 0 && name[0] == SEPARATOR {
        slice_to_vec(name)
    } else if dir.len() == 0 || dir[dir.len() - 1] == SEPARATOR {
        concat(dir, name)
    } else {
        let sep: [u8; 1] = [SEPARATOR];
        let with_sep = concat(dir, sep.as_slice());
        assert(sep@ == seq![SEPARATOR]);
        concat(with_sep.as_slice(), name)
    }
}

/// The destination of a source node: its base name under the destination
/// directory.
pub fn destination_path(dst_dir: &[u8], name: &[u8]) -> (r: Vec<u8>)
    ensures
        r@ == join_spec(dst_dir@, name@),
{
    join(dst_dir, name)
}

/// The store entry that holds content of the given hash.
pub fn store_entry_path(store_dir: &[u8], hash: &[u8]) -> (r: Vec<u8>)
    ensures
        r@ == join_spec(store_dir@, hash@),
{
    join(store_dir, hash)
}

/// `suffix` repeated `k` times.
pub open spec fn repeat(suffix: Seq<u8>, k: nat) -> Seq<u8>
    decreases k,
{
    if k == 0 {
        Seq::empty()
    } else {
        repeat(suffix, (k - 1) as nat) + suffix
    }
}

/// The `k`-th name of the backup chain of `path`: the path with `suffix`
/// appended `k` times (the path itself for `k == 0`).
pub open spec fn chain(path: Seq<u8>, suffix: Seq<u8>, k: nat) -> Seq<u8> {
    path + repeat(suffix, k)
}

/// Rejects the empty backup suffix, which would rename a path onto itself.
pub fn check_suffix(suffix: &[u8]) -> (r: Result<(), CopyError>)
    ensures
        r is Ok <==> suffix@.len() > 0,
        r is Err ==> r == Err::<(), CopyError>(CopyError::EmptySuffix),
{
    if suffix.len() == 0 {
        Err(CopyError::EmptySuffix)
    } else {
        Ok(())
    }
}

/// The `depth`-th candidate name of the backup chain of `path`.
pub fn backup_candidate(path: &[u8], suffix: &[u8], depth: usize) -> (r: Vec<u8>)
    ensures
        r@ == chain(path@, suffix@, depth as nat),
{
    let mut r = slice_to_vec(path);
    let mut k: usize = 0;
    assert(path@ + Seq::<u8>::empty() == path@);
    while k < depth
        invariant
            0 <= k <= depth,
            r@ == chain(path@, suffix@, k as nat),
        decreases depth - k,
    {
        r = concat(r.as_slice(), suffix);
        assert(path@ + repeat(suffix@, k as nat) + suffix@ == path@ + (repeat(suffix@, k as nat) + suffix@));
        k = k + 1;
    }
    r
}

/// One rename of the backup chain.
#[derive(Debug)]
pub struct Rename {
    pub from: Vec<u8>,
    pub to: Vec<u8>,
}

/// The renames as pairs of paths.
pub open spec fn rename_pairs(renames: Seq<Rename>) -> Seq<(Seq<u8>, Seq<u8>)> {
    renames.map_values(|r: Rename| (r.from@, r.to@))
}

/// The renames that vacate `path` when the first `occupied` names after it in
/// its backup chain are taken and the next is free: the deepest taken name
/// moves first, the path itself last.
pub open spec fn backup_plan(path: Seq<u8>, suffix: Seq<u8>, occupied: nat) -> Seq<(Seq<u8>, Seq<u8>)> {
    Seq::new(
        occupied + 1,
        |i: int| (chain(path, suffix, (occupied - i) as nat), chain(path, suffix, (occupied - i + 1) as nat)),
    )
}

/// Lists the renames that vacate `path` into its backup chain, given how many
/// names of the chain after it are already taken.
pub fn backup_renames(path: &[u8], suffix: &[u8], occupied: usize) -> (r: Vec<Rename>)
    requires
        occupied < usize::MAX,
    ensures
        rename_pairs(r@) == backup_plan(path@, suffix@, occupied as nat),
{
    let mut names: Vec<Vec<u8>> = Vec::new();
    names.push(slice_to_vec(path));
    assert(path@ + Seq::<u8>::empty() == path@);
    let mut k: usize = 0;
    while k <= occupied
        invariant
            0 <= k <= occupied + 1,
            occupied < usize::MAX,
            names@.len() == k + 1,
            forall|j: int| 0 <= j <= k ==> (#[trigger] names@[j])@ == chain(path@, suffix@, j as nat),
        decreases occupied + 1 - k,
    {
        let next = concat(names[k].as_slice(), suffix);
        assert(path@ + repeat(suffix@, k as nat) + suffix@ == path@ + (repeat(suffix@, k as nat) + suffix@));
        names.push(next);
        k = k + 1;
    }
    let mut r: Vec<Rename> = Vec::new();
    let mut i: usize = 0;
    while i <= occupied
        invariant
            0 <= i <= occupied + 1,
            occupied < usize::MAX,
            names@.len() == occupied + 2,
            forall|j: int| 0 <= j <= occupied + 1 ==> (#[trigger] names@[j])@ == chain(path@, suffix@, j as nat),
            r@.len() == i,
            forall|j: int| 0 <= j < i ==> (#[trigger] r@[j]).from@ == chain(path@, suffix@, (occupied - j) as nat)
                && r@[j].to@ == chain(path@, suffix@, (occupied - j + 1) as nat),
        decreases occupied + 1 - i,
    {
        let from = slice_to_vec(names[occupied - i].as_slice());
        let to = slice_to_vec(names[occupied - i + 1].as_slice());
        r.push(Rename { from, to });
        i = i + 1;
    }
    assert forall|j: int| 0 <= j < r@.len() implies rename_pairs(r@)[j] == backup_plan(path@, suffix@, occupied as nat)[j] by {
        assert(r@[j].from@ == chain(path@, suffix@, (occupied - j) as nat));
    }
    assert(rename_pairs(r@) =~= backup_plan(path@, suffix@, occupied as nat));
    r
}

/// A namespace after a sequence of renames, each moving the entry at its
/// first path to its second.
pub open spec fn apply_renames<D>(fs: Map<Seq<u8>, D>, renames: Seq<(Seq<u8>, Seq<u8>)>) -> Map<Seq<u8>, D>
    decreases renames.len(),
{
    if renames.len() == 0 {
        fs
    } else {
        let before = apply_renames(fs, renames.drop_last());
        let (from, to) = renames.last();
        before.remove(from).insert(to, before[from])
    }
}

/// Every rename moves an existing entry to a name where nothing is.
pub open spec fn never_clobbers<D>(fs: Map<Seq<u8>, D>, renames: Seq<(Seq<u8>, Seq<u8>)>) -> bool {
    forall|i: int| 0 <= i < renames.len() ==> {
        let now = #[trigger] apply_renames(fs, renames.take(i));
        now.contains_key(renames[i].0) && !now.contains_key(renames[i].1)
    }
}

proof fn lemma_chain_len(path: Seq<u8>, suffix: Seq<u8>, k: nat)
    ensures
        chain(path, suffix, k).len() == path.len() + k * suffix.len(),
        repeat(suffix, k).len() == k * suffix.len(),
    decreases k,
{
    let l = suffix.len();
    if k == 0 {
        assert(repeat(suffix, k) == Seq::<u8>::empty());
        assert(k * l == 0) by (nonlinear_arith)
            requires
                k == 0,
        ;
    } else {
        lemma_chain_len(path, suffix, (k - 1) as nat);
        assert(repeat(suffix, k) == repeat(suffix, (k - 1) as nat) + suffix);
        assert(k * l == (k - 1) * l + l) by (nonlinear_arith)
            requires
                k > 0,
        ;
    }
}

proof fn lemma_chain_injective(path: Seq<u8>, suffix: Seq<u8>, j: nat, k: nat)
    requires
        suffix.len() > 0,
        j != k,
    ensures
        chain(path, suffix, j) != chain(path, suffix, k),
{
    lemma_chain_len(path, suffix, j);
    lemma_chain_len(path, suffix, k);
    let l = suffix.len();
    assert(j * l != k * l) by (nonlinear_arith)
        requires
            l > 0,
            j != k,
    ;
}

/// The namespace after the first `i` renames of a backup plan: names `0..=n-i`
/// of the chain are in place, names `n-i+1..=n` have moved one step deeper,
/// name `n+1-i` is free, and every other path is untouched.
proof fn lemma_backup_prefix<D>(fs: Map<Seq<u8>, D>, path: Seq<u8>, suffix: Seq<u8>, n: nat, i: nat)
    requires
        suffix.len() > 0,
        forall|k: nat| k <= n ==> fs.contains_key(#[trigger] chain(path, suffix, k)),
        !fs.contains_key(chain(path, suffix, n + 1)),
        i <= n + 1,
    ensures
        ({
            let now = apply_renames(fs, backup_plan(path, suffix, n).take(i as int));
            &&& forall|k: nat| k + i <= n ==> now.contains_key(#[trigger] chain(path, suffix, k))
                && now[chain(path, suffix, k)] == fs[chain(path, suffix, k)]
            &&& forall|k: nat| n + 1 <= k + i && k <= n ==> now.contains_key(#[trigger] chain(path, suffix, k + 1))
                && now[chain(path, suffix, k + 1)] == fs[chain(path, suffix, k)]
            &&& !now.contains_key(chain(path, suffix, (n + 1 - i) as nat))
            &&& forall|q: Seq<u8>| (forall|k: nat| k <= n + 1 ==> q != #[trigger] chain(path, suffix, k))
                ==> (#[trigger] now.contains_key(q) == fs.contains_key(q)) && now[q] == fs[q]
        }),
    decreases i,
{
    let plan = backup_plan(path, suffix, n);
    if i == 0 {
        assert(plan.take(0) =~= Seq::<(Seq<u8>, Seq<u8>)>::empty());
    } else {
        let m = (i - 1) as nat;
        lemma_backup_prefix(fs, path, suffix, n, m);
        let before = apply_renames(fs, plan.take(m as int));
        assert(plan.take(i as int).drop_last() =~= plan.take(m as int));
        assert(plan.take(i as int).last() == plan[m as int]);
        let from = chain(path, suffix, (n - m) as nat);
        let to = chain(path, suffix, (n - m + 1) as nat);
        assert(plan[m as int] == (from, to));
        let now = apply_renames(fs, plan.take(i as int));
        assert(now == before.remove(from).insert(to, before[from]));
        assert forall|k: nat| k + i <= n implies now.contains_key(#[trigger] chain(path, suffix, k))
            && now[chain(path, suffix, k)] == fs[chain(path, suffix, k)] by {
            lemma_chain_injective(path, suffix, k, (n - m) as nat);
            lemma_chain_injective(path, suffix, k, (n - m + 1) as nat);
        }
        assert forall|k: nat| n + 1 <= k + i && k <= n implies now.contains_key(#[trigger] chain(path, suffix, k + 1))
            && now[chain(path, suffix, k + 1)] == fs[chain(path, suffix, k)] by {
            if k + 1 != n - m + 1 {
                lemma_chain_injective(path, suffix, k + 1, (n - m + 1) as nat);
                lemma_chain_injective(path, suffix, k + 1, (n - m) as nat);
            }
        }
        lemma_chain_injective(path, suffix, (n - m) as nat, (n - m + 1) as nat);
        assert forall|q: Seq<u8>| (forall|k: nat| k <= n + 1 ==> q != #[trigger] chain(path, suffix, k))
            implies (#[trigger] now.contains_key(q) == fs.contains_key(q)) && now[q] == fs[q] by {
            assert(q != chain(path, suffix, (n - m) as nat));
            assert(q != chain(path, suffix, (n - m + 1) as nat));
        }
    }
}

/// Vacating a destination never loses data: when the path and the first
/// `occupied` names of its backup chain are taken and the next is free, the
/// renames of the backup plan never move onto an existing entry, leave the
/// path free, put its former content at the first backup name, move every
/// taken backup one step deeper, and leave all other paths as they were.
pub proof fn lemma_backup_non_destructive<D>(fs: Map<Seq<u8>, D>, path: Seq<u8>, suffix: Seq<u8>, occupied: nat)
    requires
        suffix.len() > 0,
        forall|k: nat| k <= occupied ==> fs.contains_key(#[trigger] chain(path, suffix, k)),
        !fs.contains_key(chain(path, suffix, occupied + 1)),
    ensures
        never_clobbers(fs, backup_plan(path, suffix, occupied)),
        ({
            let after = apply_renames(fs, backup_plan(path, suffix, occupied));
            &&& !after.contains_key(path)
            &&& after.contains_key(chain(path, suffix, 1)) && after[chain(path, suffix, 1)] == fs[path]
            &&& forall|k: nat| k <= occupied ==> after.contains_key(#[trigger] chain(path, suffix, k + 1))
                && after[chain(path, suffix, k + 1)] == fs[chain(path, suffix, k)]
            &&& forall|q: Seq<u8>| (forall|k: nat| k <= occupied + 1 ==> q != #[trigger] chain(path, suffix, k))
                ==> (#[trigger] after.contains_key(q) == fs.contains_key(q)) && after[q] == fs[q]
        }),
{
    let n = occupied;
    let plan = backup_plan(path, suffix, n);
    assert(path + repeat(suffix, 0) == path);
    assert(chain(path, suffix, 0) == path);
    assert forall|i: int| 0 <= i < plan.len() implies {
        let now = #[trigger] apply_renames(fs, plan.take(i));
        now.contains_key(plan[i].0) && !now.contains_key(plan[i].1)
    } by {
        lemma_backup_prefix(fs, path, suffix, n, i as nat);
        let k = (n - i) as nat;
        assert(chain(path, suffix, k) == plan[i].0);
    }
    lemma_backup_prefix(fs, path, suffix, n, n + 1);
    assert(plan.take((n + 1) as int) =~= plan);
    let after = apply_renames(fs, plan);
    assert(after.contains_key(chain(path, suffix, 0 + 1)));
}

} // verus!
