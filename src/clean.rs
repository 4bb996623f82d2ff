//! Per-category clean: tallying deletion outcomes into a result.
use vstd::prelude::*;
use crate::errors::{label_text, ErrorKind};
use crate::scan::{infos_view, FileInfo, FileInfoView};

verus! {

/// What one cleaned category amounted to.
pub struct CleanResult {
    pub category: String,
    pub files_removed: usize,
    pub space_freed: u64,
    /// One summary per failure kind, in order of first occurrence.
    pub errors: Vec<String>,
}

pub struct CleanResultView {
    pub category: Seq<char>,
    pub files_removed: usize,
    pub space_freed: u64,
    pub errors: Seq<Seq<char>>,
}

impl View for CleanResult {
    type V = CleanResultView;

    open spec fn view(&self) -> CleanResultView {
        CleanResultView {
            category: self.category@,
            files_removed: self.files_removed,
            space_freed: self.space_freed,
            errors: self.errors.deep_view(),
        }
    }
}

/// Number of successful deletions.
pub open spec fn removed_count(outs: Seq<Result<(), ErrorKind>>) -> nat
    decreases outs.len(),
{
    if outs.len() == 0 {
        0
    } else {
        removed_count(outs.drop_last()) + if outs.last() is Ok {
            1nat
        } else {
            0nat
        }
    }
}

/// Bytes of the files whose deletion succeeded; `outs[i]` is the outcome for `files[i]`.
pub open spec fn freed_bytes(files: Seq<FileInfoView>, outs: Seq<Result<(), ErrorKind>>) -> int
    decreases outs.len(),
{
    if outs.len() == 0 {
        0
    } else {
        freed_bytes(files, outs.drop_last()) + if outs.last() is Ok {
            files[outs.len() - 1].size as int
        } else {
            0
        }
    }
}

/// Number of deletions that failed with `kind`.
pub open spec fn failure_count(outs: Seq<Result<(), ErrorKind>>, kind: ErrorKind) -> nat
    decreases outs.len(),
{
    if outs.len() == 0 {
        0
    } else {
        failure_count(outs.drop_last(), kind) + if outs.last() == Err::<(), ErrorKind>(kind) {
            1nat
        } else {
            0nat
        }
    }
}

/// The failure kinds that occur, each once, in order of first occurrence.
pub open spec fn failure_kinds(outs: Seq<Result<(), ErrorKind>>) -> Seq<ErrorKind>
    decreases outs.len(),
{
    if outs.len() == 0 {
        Seq::empty()
    } else {
        let prev = failure_kinds(outs.drop_last());
        match outs.last() {
            Err(k) => if prev.contains(k) {
                prev
            } else {
                prev.push(k)
            },
            Ok(_) => prev,
        }
    }
}

/// The bare label for a single failure, the label with a file count otherwise.
pub open spec fn summary_text(kind: ErrorKind, count: nat) -> Seq<char> {
    if count == 1 {
        label_text(kind)
    } else {
        label_text(kind) + " ("@ + decimal(count) + " files)"@
    }
}

pub open spec fn digit_char(d: nat) -> char {
    if d == 0 {
        '0'
    } else if d == 1 {
        '1'
    } else if d == 2 {
        '2'
    } else if d == 3 {
        '3'
    } else if d == 4 {
        '4'
    } else if d == 5 {
        '5'
    } else if d == 6 {
        '6'
    } else if d == 7 {
        '7'
    } else if d == 8 {
        '8'
    } else {
        '9'
    }
}

/// Decimal notation of `n`, without leading zeros.
pub open spec fn decimal(n: nat) -> Seq<char>
    decreases n,
{
    if n < 10 {
        seq![digit_char(n)]
    } else {
        decimal(n / 10).push(digit_char(n % 10))
    }
}

/// The error list of a clean whose deletions ended in `outs`.
pub open spec fn error_summaries(outs: Seq<Result<(), ErrorKind>>) -> Seq<Seq<char>> {
    failure_kinds(outs).map_values(|k: ErrorKind| summary_text(k, failure_count(outs, k)))
}

/// The result of cleaning a category whose targets `files` ended in `outs`.
pub open spec fn clean_of(
    name: Seq<char>,
    files: Seq<FileInfoView>,
    outs: Seq<Result<(), ErrorKind>>,
) -> CleanResultView {
    CleanResultView {
        category: name,
        files_removed: removed_count(outs) as usize,
        space_freed: freed_bytes(files, outs) as u64,
        errors: error_summaries(outs),
    }
}

/// No count exceeds the number of outcomes.
pub proof fn lemma_counts_bounded(outs: Seq<Result<(), ErrorKind>>, kind: ErrorKind)
    ensures
        removed_count(outs) <= outs.len(),
        failure_count(outs, kind) <= outs.len(),
    decreases outs.len(),
{
    if outs.len() > 0 {
        lemma_counts_bounded(outs.drop_last(), kind);
    }
}

/// A kind is listed exactly when some deletion failed with it, and no kind is listed twice.
pub proof fn lemma_failure_kinds(outs: Seq<Result<(), ErrorKind>>)
    ensures
        failure_kinds(outs).no_duplicates(),
        forall|k: ErrorKind| #[trigger]
            failure_kinds(outs).contains(k) <==> failure_count(outs, k) > 0,
    decreases outs.len(),
{
    if outs.len() > 0 {
        lemma_failure_kinds(outs.drop_last());
        let prev = failure_kinds(outs.drop_last());
        match outs.last() {
            Err(k) => if !prev.contains(k) {
                assert forall|x: ErrorKind| #[trigger]
                    prev.push(k).contains(x) <==> (prev.contains(x) || x == k) by {
                    if prev.push(k).contains(x) {
                        let j = choose|j: int| 0 <= j < prev.push(k).len() && prev.push(k)[j] == x;
                        if j < prev.len() {
                            assert(prev[j] == x);
                        }
                    }
                    if prev.contains(x) {
                        let j = choose|j: int| 0 <= j < prev.len() && prev[j] == x;
                        assert(prev.push(k)[j] == x);
                    }
                    if x == k {
                        assert(prev.push(k)[prev.len() as int] == x);
                    }
                }
            },
            Ok(_) => {},
        }
    }
}

/// Relies on usize's Display (via to_string): decimal digits, no sign, no leading zeros.
#[verifier::external_body]
fn decimal_string(n: usize) -> (r: String)
    ensures
        r@ == decimal(n as nat),
{
    n.to_string()
}

/// The summary line for `count` failures of `kind`.
pub fn error_summary(kind: ErrorKind, count: usize) -> (r: String)
    requires
        count >= 1,
    ensures
        r@ == summary_text(kind, count as nat),
{
    let mut s = kind.label();
    if count == 1 {
        return s;
    }
    let digits = decimal_string(count);
    s.append(" (");
    s.append(digits.as_str());
    s.append(" files)");
    assert(s@ =~= label_text(kind) + " ("@ + decimal(count as nat) + " files)"@);
    s
}

/// The bytes freed by a prefix of the outcomes never exceed those freed by all of them.
pub proof fn lemma_freed_prefix(files: Seq<FileInfoView>, outs: Seq<Result<(), ErrorKind>>, i: int)
    requires
        0 <= i <= outs.len(),
    ensures
        0 <= freed_bytes(files, outs.take(i)) <= freed_bytes(files, outs),
    decreases outs.len(),
{
    if outs.len() > 0 {
        if i == outs.len() {
            assert(outs.take(i) =~= outs);
            lemma_freed_prefix(files, outs.drop_last(), 0);
            assert(outs.drop_last().take(0) =~= outs.take(0));
        } else {
            lemma_freed_prefix(files, outs.drop_last(), i);
            assert(outs.drop_last().take(i) =~= outs.take(i));
        }
    } else {
        assert(outs.take(i) =~= outs);
    }
}

/// Where `kind` stands among the tallied kinds, if it does.
fn position_of(counts: &Vec<(ErrorKind, usize)>, kind: ErrorKind) -> (r: Option<usize>)
    ensures
        match r {
            Some(j) => j < counts@.len() && counts@[j as int].0 == kind,
            None => forall|m: int| 0 <= m < counts@.len() ==> (#[trigger] counts@[m]).0 != kind,
        },
{
    let mut j: usize = 0;
    while j < counts.len()
        invariant
            j <= counts@.len(),
            forall|m: int| 0 <= m < j ==> (#[trigger] counts@[m]).0 != kind,
        decreases counts@.len() - j,
    {
        if counts[j].0 == kind {
            return Some(j);
        }
        j = j + 1;
    }
    None
}

/// Tallies the deletion attempts of one category: `outcomes[i]` is what became of `targets[i]`.
pub fn clean_category(
    category_name: &String,
    targets: &Vec<FileInfo>,
    outcomes: &Vec<Result<(), ErrorKind>>,
) -> (r: CleanResult)
    requires
        targets.len() == outcomes.len(),
        freed_bytes(infos_view(targets@), outcomes@) <= u64::MAX,
    ensures
        r@ == clean_of(category_name@, infos_view(targets@), outcomes@),
{
    let ghost files = infos_view(targets@);
    let ghost outs = outcomes@;
    let mut files_removed: usize = 0;
    let mut space_freed: u64 = 0;
    let mut counts: Vec<(ErrorKind, usize)> = Vec::new();
    let mut i: usize = 0;
    while i < outcomes.len()
        invariant
            i <= outcomes.len(),
            targets.len() == outcomes.len(),
            files == infos_view(targets@),
            outs == outcomes@,
            freed_bytes(files, outs) <= u64::MAX,
            files_removed == removed_count(outs.take(i as int)),
            space_freed == freed_bytes(files, outs.take(i as int)),
            counts@.len() == failure_kinds(outs.take(i as int)).len(),
            forall|j: int|
                0 <= j < counts@.len() ==> (#[trigger] counts@[j]).0 == failure_kinds(
                    outs.take(i as int),
                )[j] && counts@[j].1 == failure_count(outs.take(i as int), counts@[j].0),
        decreases outcomes.len() - i,
    {
        let ghost pre = outs.take(i as int);
        let ghost post = outs.take(i + 1);
        proof {
            assert(post.drop_last() =~= pre);
            lemma_counts_bounded(pre, ErrorKind::Other);
            lemma_freed_prefix(files, outs, i + 1);
        }
        let ghost old_counts = counts@;
        match outcomes[i] {
            Ok(()) => {
                files_removed = files_removed + 1;
                space_freed = space_freed + targets[i].size;
            },
            Err(kind) => {
                proof {
                    lemma_counts_bounded(pre, kind);
                    lemma_failure_kinds(pre);
                }
                match position_of(&counts, kind) {
                    Some(j) => {
                        let c = counts[j].1;
                        counts.set(j, (kind, c + 1));
                        proof {
                            assert(failure_kinds(pre)[j as int] == kind);
                            assert(failure_kinds(pre).contains(kind));
                        }
                    },
                    None => {
                        proof {
                            assert forall|m: int| 0 <= m < failure_kinds(pre).len() implies failure_kinds(pre)[m] != kind by {
                                assert(counts@[m].0 == failure_kinds(pre)[m]);
                            }
                            assert(!failure_kinds(pre).contains(kind));
                            lemma_failure_kinds(pre);
                        }
                        counts.push((kind, 1));
                    },
                }
            },
        }
        proof {
            assert(post.last() == outs[i as int]);
            assert forall|j: int| 0 <= j < counts@.len() implies (#[trigger] counts@[j]).0 == failure_kinds(post)[j] && counts@[j].1 == failure_count(post, counts@[j].0) by {
                let k = counts@[j].0;
                match outs[i as int] {
                    Err(kd) => {
                        if failure_kinds(pre).contains(kd) {
                            assert(failure_kinds(post) == failure_kinds(pre));
                        } else {
                            assert(failure_kinds(post) == failure_kinds(pre).push(kd));
                        }
                    },
                    Ok(_) => {
                        assert(failure_kinds(post) == failure_kinds(pre));
                    },
                }
                assert(failure_count(post, k) == failure_count(pre, k) + if outs[i as int] == Err::<(), ErrorKind>(k) { 1nat } else { 0nat });
                if j < old_counts.len() {
                    assert(old_counts[j].0 == failure_kinds(pre)[j] && old_counts[j].1 == failure_count(pre, old_counts[j].0));
                }
            }
        }
        i = i + 1;
    }
    assert(outs.take(outcomes.len() as int) =~= outs);
    proof {
        lemma_failure_kinds(outs);
    }
    let ghost kinds = failure_kinds(outs);
    let mut errors: Vec<String> = Vec::new();
    let mut j: usize = 0;
    while j < counts.len()
        invariant
            j <= counts@.len(),
            kinds == failure_kinds(outs),
            counts@.len() == kinds.len(),
            forall|k: ErrorKind| #[trigger] kinds.contains(k) <==> failure_count(outs, k) > 0,
            forall|m: int|
                0 <= m < counts@.len() ==> (#[trigger] counts@[m]).0 == kinds[m] && counts@[m].1
                    == failure_count(outs, counts@[m].0),
            errors.deep_view() == error_summaries(outs).take(j as int),
        decreases counts@.len() - j,
    {
        let (kind, count) = counts[j];
        proof {
            assert(kinds.contains(kinds[j as int]));
        }
        let line = error_summary(kind, count);
        let ghost before = errors.deep_view();
        errors.push(line);
        assert(errors.deep_view() =~= before.push(line@));
        assert(error_summaries(outs).take(j + 1) =~= error_summaries(outs).take(j as int).push(
            line@,
        ));
        j = j + 1;
    }
    assert(error_summaries(outs).take(j as int) =~= error_summaries(outs));
    CleanResult { category: category_name.clone(), files_removed, space_freed, errors }
}

} // verus!
