use vstd::prelude::*;
use vstd::relations::injective_on;
use vstd::set_lib::{lemma_int_range, lemma_len_subset, lemma_map_size, lemma_subset_equality, set_int_range};
use crate::text::{decimal, ends_with, is_prefix, is_suffix, push_decimal, starts_with};

verus! {

/// How many backups the rotation keeps.
pub const KEEP_BACKUPS: usize = 5;

/// Start of every backup file's name.
pub const BACKUP_PREFIX: &'static str = "notes-";
/// End of every backup file's name.
pub const BACKUP_SUFFIX: &'static str = ".db";

/// A file name that the rotation treats as a backup: `notes-....db`.
pub open spec fn is_backup_name(name: Seq<char>) -> bool {
    is_prefix(BACKUP_PREFIX@, name) && is_suffix(BACKUP_SUFFIX@, name)
}

/// The name of the backup taken at `stamp` (milliseconds since the Unix
/// epoch): `notes-{stamp}.db`.
pub open spec fn backup_name_text(stamp: i64) -> Seq<char> {
    BACKUP_PREFIX@ + decimal(stamp as int) + BACKUP_SUFFIX@
}

/// Whether a file of the backups directory is a backup.
pub fn is_backup_file(name: &str) -> (r: bool)
    ensures
        r == is_backup_name(name@),
{
    starts_with(name, BACKUP_PREFIX) && ends_with(name, BACKUP_SUFFIX)
}

/// The name of the backup taken at `stamp`: `notes-{stamp}.db`.
pub fn backup_file_name(stamp: i64) -> (name: String)
    ensures
        name@ == backup_name_text(stamp),
{
    let mut name = String::from_str(BACKUP_PREFIX);
    push_decimal(&mut name, stamp);
    name.append(BACKUP_SUFFIX);
    name
}

/// Every backup that the rotation writes is one that it later counts, and
/// prunes, as a backup.
pub proof fn lemma_backup_name_is_recognised(stamp: i64)
    ensures
        is_backup_name(backup_name_text(stamp)),
{
    let p = BACKUP_PREFIX@;
    let d = decimal(stamp as int);
    let x = BACKUP_SUFFIX@;
    let n = backup_name_text(stamp);
    assert(n.subrange(0, p.len() as int) =~= p);
    assert(n.subrange(n.len() - x.len(), n.len() as int) =~= x);
}

/// A file of the backups directory, as the rotation sees it.
pub struct BackupFile {
    pub name: String,
    /// Last modification time; only the order of these values counts.
    pub modified: i128,
}

/// The file at `j` is a backup.
pub open spec fn is_candidate(es: Seq<BackupFile>, j: int) -> bool {
    is_backup_name(es[j].name@)
}

/// Backup `j` comes before file `i` when backups are listed newest first,
/// files of the same time in directory order (a stable sort).
pub open spec fn sorts_before(es: Seq<BackupFile>, j: int, i: int) -> bool {
    is_candidate(es, j) && (es[j].modified > es[i].modified || (es[j].modified == es[i].modified
        && j < i))
}

/// How many of the files before `k` are backups that come before file `i`.
pub open spec fn count_before(es: Seq<BackupFile>, i: int, k: int) -> nat
    decreases k,
{
    if k <= 0 {
        0
    } else {
        count_before(es, i, k - 1) + (if sorts_before(es, k - 1, i) {
            1nat
        } else {
            0nat
        })
    }
}

/// The place of file `i` in the list of backups, newest first (0 for the
/// newest).
pub open spec fn backup_rank(es: Seq<BackupFile>, i: int) -> nat {
    count_before(es, i, es.len() as int)
}

/// File `i` is a backup beyond the newest `keep`: the rotation deletes it.
pub open spec fn is_pruned(es: Seq<BackupFile>, keep: nat, i: int) -> bool {
    is_candidate(es, i) && backup_rank(es, i) >= keep
}

/// Which files of the backups directory the rotation deletes: every backup
/// (a file named `notes-....db`) but the newest `keep`, files with the same
/// time counting in directory order. Other files are never deleted.
pub fn backups_to_prune(entries: &Vec<BackupFile>, keep: usize) -> (del: Vec<bool>)
    ensures
        del@.len() == entries@.len(),
        forall|i: int| 0 <= i < entries@.len() ==> del@[i] == is_pruned(entries@, keep as nat, i),
{
    let n: usize = entries.len();
    let mut backup: Vec<bool> = Vec::new();
    let mut k: usize = 0;
    while k < n
        invariant
            n == entries@.len(),
            k <= n,
            backup@.len() == k,
            forall|j: int| 0 <= j < k ==> backup@[j] == is_candidate(entries@, j),
        decreases n - k,
    {
        backup.push(is_backup_file(entries[k].name.as_str()));
        k = k + 1;
    }
    let mut del: Vec<bool> = Vec::new();
    let mut i: usize = 0;
    while i < n
        invariant
            n == entries@.len(),
            i <= n,
            backup@.len() == n,
            forall|j: int| 0 <= j < n ==> backup@[j] == is_candidate(entries@, j),
            del@.len() == i,
            forall|t: int| 0 <= t < i ==> del@[t] == is_pruned(entries@, keep as nat, t),
        decreases n - i,
    {
        if !backup[i] {
            del.push(false);
        } else {
            let mut count: usize = 0;
            let mut j: usize = 0;
            while j < n
                invariant
                    n == entries@.len(),
                    i < n,
                    j <= n,
                    backup@.len() == n,
                    forall|t: int| 0 <= t < n ==> backup@[t] == is_candidate(entries@, t),
                    count == count_before(entries@, i as int, j as int),
                    count <= j,
                decreases n - j,
            {
                if backup[j] && (entries[j].modified > entries[i].modified || (
                entries[j].modified == entries[i].modified && j < i)) {
                    count = count + 1;
                }
                j = j + 1;
            }
            del.push(count >= keep);
        }
        i = i + 1;
    }
    del
}

/// The files before `k` that are backups coming before file `i`.
pub open spec fn before_set(es: Seq<BackupFile>, i: int, k: int) -> Set<int> {
    Set::new(|j: int| 0 <= j < k && sorts_before(es, j, i))
}

/// The indices of the backups among the files.
pub open spec fn candidates(es: Seq<BackupFile>) -> Set<int> {
    Set::new(|j: int| 0 <= j < es.len() && is_candidate(es, j))
}

/// The indices of the backups that the rotation keeps.
pub open spec fn kept(es: Seq<BackupFile>, keep: nat) -> Set<int> {
    Set::new(|j: int| 0 <= j < es.len() && is_candidate(es, j) && !is_pruned(es, keep, j))
}

proof fn lemma_count_is_len(es: Seq<BackupFile>, i: int, k: int)
    requires
        0 <= k,
    ensures
        before_set(es, i, k).finite(),
        before_set(es, i, k).len() == count_before(es, i, k),
    decreases k,
{
    if k == 0 {
        assert(before_set(es, i, k) =~= Set::<int>::empty());
    } else {
        lemma_count_is_len(es, i, k - 1);
        if sorts_before(es, k - 1, i) {
            assert(before_set(es, i, k) =~= before_set(es, i, k - 1).insert(k - 1));
        } else {
            assert(before_set(es, i, k) =~= before_set(es, i, k - 1));
        }
    }
}

proof fn lemma_candidates_finite(es: Seq<BackupFile>)
    ensures
        candidates(es).finite(),
{
    lemma_int_range(0, es.len() as int);
    lemma_len_subset(candidates(es), set_int_range(0, es.len() as int));
}

proof fn lemma_rank_below_count(es: Seq<BackupFile>, i: int)
    requires
        candidates(es).contains(i),
    ensures
        backup_rank(es, i) < candidates(es).len(),
{
    let n = es.len() as int;
    lemma_candidates_finite(es);
    lemma_count_is_len(es, i, n);
    assert(before_set(es, i, n).subset_of(candidates(es).remove(i)));
    lemma_len_subset(before_set(es, i, n), candidates(es).remove(i));
}

proof fn lemma_rank_increases(es: Seq<BackupFile>, a: int, b: int)
    requires
        candidates(es).contains(a),
        candidates(es).contains(b),
        sorts_before(es, a, b),
    ensures
        backup_rank(es, a) < backup_rank(es, b),
{
    let n = es.len() as int;
    lemma_count_is_len(es, a, n);
    lemma_count_is_len(es, b, n);
    assert(before_set(es, a, n).subset_of(before_set(es, b, n).remove(a)));
    lemma_len_subset(before_set(es, a, n), before_set(es, b, n).remove(a));
}

proof fn lemma_rank_injective(es: Seq<BackupFile>, s: Set<int>)
    requires
        s.subset_of(candidates(es)),
    ensures
        injective_on(|i: int| backup_rank(es, i) as int, s),
{
    assert forall|x: int, y: int|
        s.contains(x) && s.contains(y) && backup_rank(es, x) as int == backup_rank(
            es,
            y,
        ) as int implies x == y by {
        if x != y {
            if sorts_before(es, x, y) {
                lemma_rank_increases(es, x, y);
            } else {
                lemma_rank_increases(es, y, x);
            }
        }
    }
}

proof fn lemma_ranks_fill_range(es: Seq<BackupFile>)
    ensures
        candidates(es).map(|i: int| backup_rank(es, i) as int) == set_int_range(
            0,
            candidates(es).len() as int,
        ),
{
    let c = candidates(es);
    let f = |i: int| backup_rank(es, i) as int;
    let r = set_int_range(0, c.len() as int);
    lemma_candidates_finite(es);
    lemma_rank_injective(es, c);
    lemma_map_size(c, c.map(f), f);
    assert forall|x: int| c.map(f).contains(x) implies r.contains(x) by {
        let i = choose|i: int| c.contains(i) && f(i) == x;
        lemma_rank_below_count(es, i);
    }
    lemma_int_range(0, c.len() as int);
    lemma_subset_equality(c.map(f), r);
}

/// The rotation keeps exactly `keep` backups, or all of them where there
/// are fewer.
pub proof fn lemma_prune_keeps_newest_count(es: Seq<BackupFile>, keep: nat)
    ensures
        kept(es, keep).finite(),
        kept(es, keep).len() == (if keep < candidates(es).len() {
            keep
        } else {
            candidates(es).len()
        }),
{
    let c = candidates(es);
    let k = kept(es, keep);
    let f = |i: int| backup_rank(es, i) as int;
    let m: int = if keep < c.len() { keep as int } else { c.len() as int };
    lemma_candidates_finite(es);
    assert(k.subset_of(c));
    lemma_len_subset(k, c);
    lemma_rank_injective(es, k);
    lemma_ranks_fill_range(es);
    assert forall|x: int| #[trigger] set_int_range(0, m).contains(x) implies k.map(f).contains(x) by {
        assert(set_int_range(0, c.len() as int).contains(x));
        assert(c.map(f).contains(x));
        let i = choose|i: int| c.contains(i) && f(i) == x;
        assert(k.contains(i));
    }
    assert forall|x: int| k.map(f).contains(x) implies #[trigger] set_int_range(0, m).contains(x) by {
        let i = choose|i: int| k.contains(i) && f(i) == x;
        lemma_rank_below_count(es, i);
    }
    assert(k.map(f) =~= set_int_range(0, m));
    lemma_map_size(k, set_int_range(0, m), f);
    lemma_int_range(0, m);
}

/// Every backup that the rotation keeps is at least as new as every backup
/// that it deletes.
pub proof fn lemma_prune_keeps_newest(es: Seq<BackupFile>, keep: nat, i: int, j: int)
    requires
        0 <= i < es.len(),
        0 <= j < es.len(),
        is_candidate(es, i),
        !is_pruned(es, keep, i),
        is_pruned(es, keep, j),
    ensures
        es[i].modified >= es[j].modified,
{
    if es[i].modified < es[j].modified {
        assert(candidates(es).contains(i));
        assert(candidates(es).contains(j));
        lemma_rank_increases(es, j, i);
    }
}

} // verus!
