//! Import coordinator logic: building the candidate list and the rejected
//! extension record from the traversed entries, planning one candidate's
//! copy (resolve date, map destination), and aggregating per-file outcomes
//! into the run summary.
use crate::calendar::epoch_secs_of;
use crate::classify::{
    accepted, allowed_contains, classify, extension_spec, has_extension, str_eq, Classification,
};
use crate::pathmap::{dest_dir_spec, dest_path_spec, destination_dir, destination_path};
use crate::resolve::{
    ctime_usable, meta_of_bytes, meta_usable, resolve_capture_date, DateError, ResolvedDate,
};
use vstd::prelude::*;

verus! {

/// One regular file met during traversal: its source path and bare name.
#[derive(Debug)]
pub struct Candidate {
    pub path: String,
    pub file_name: String,
}

impl Clone for Candidate {
    fn clone(&self) -> (r: Self)
        ensures
            r == *self,
    {
        Candidate { path: self.path.clone(), file_name: self.file_name.clone() }
    }
}

/// The outcome of the traversal phase: the candidates to import, in
/// traversal order, and each rejected extension recorded exactly once.
#[derive(Debug)]
pub struct ScanOutcome {
    pub candidates: Vec<Candidate>,
    pub unaccepted_extensions: Vec<String>,
}

/// Whether an entry is rejected for its extension (as opposed to having
/// none): such extensions are recorded for the end-of-scan report.
pub open spec fn rejected_for_extension(c: Candidate, allowed: Seq<String>) -> bool {
    has_extension(c.file_name@) && !allowed_contains(allowed, extension_spec(c.file_name@))
}

/// Whether `v` holds a string spelled like `s`.
fn contains_string(v: &Vec<String>, s: &str) -> (r: bool)
    ensures
        r == (exists|i: int| 0 <= i < v@.len() && v@[i]@ == s@),
{
    let mut i: usize = 0;
    while i < v.len()
        invariant
            0 <= i <= v@.len(),
            forall|j: int| 0 <= j < i ==> v@[j]@ != s@,
        decreases v@.len() - i,
    {
        if str_eq(v[i].as_str(), s) {
            assert(v@[i as int]@ == s@);
            return true;
        }
        i = i + 1;
    }
    false
}

/// Whether `un` holds the extension `e` somewhere.
pub open spec fn holds_extension(un: Seq<String>, e: Seq<char>) -> bool {
    exists|i: int| 0 <= i < un.len() && #[trigger] un[i]@ == e
}

/// Whether position `i` of `un` records the extension of some entry that was
/// rejected for its extension.
pub open spec fn records_extension_of(
    un: Seq<String>,
    i: int,
    entries: Seq<Candidate>,
    allowed: Seq<String>,
) -> bool {
    exists|k: int|
        0 <= k < entries.len() && #[trigger] rejected_for_extension(entries[k], allowed) && un[i]@
            == extension_spec(entries[k].file_name@)
}

/// Appending a string keeps every already-held extension held.
proof fn lemma_holds_extension_push(un: Seq<String>, s: String, e: Seq<char>)
    requires
        holds_extension(un, e),
    ensures
        holds_extension(un.push(s), e),
{
    let i0 = choose|i: int| 0 <= i < un.len() && #[trigger] un[i]@ == e;
    assert(un.push(s)[i0]@ == e);
}

/// Appending a string keeps every recorded position recorded.
proof fn lemma_records_push(
    un: Seq<String>,
    s: String,
    i: int,
    entries: Seq<Candidate>,
    allowed: Seq<String>,
)
    requires
        0 <= i < un.len(),
        records_extension_of(un, i, entries, allowed),
    ensures
        records_extension_of(un.push(s), i, entries, allowed),
{
    let k0 = choose|k: int|
        0 <= k < entries.len() && #[trigger] rejected_for_extension(entries[k], allowed) && un[i]@
            == extension_spec(entries[k].file_name@);
    assert(un.push(s)[i]@ == un[i]@);
    assert(rejected_for_extension(entries[k0], allowed) && un.push(s)[i]@ == extension_spec(
        entries[k0].file_name@,
    ));
}

/// Classifies every traversed entry: keeps, in traversal order, exactly the
/// entries whose extension matches the allow-list, and records the extension
/// of every rejected entry exactly once (set semantics — duplicates
/// collapse).
#[verifier::rlimit(50)]
pub fn classify_entries(entries: &Vec<Candidate>, allowed: &Vec<String>) -> (r: ScanOutcome)
    ensures
        r.candidates@ == entries@.filter(|c: Candidate| accepted(c.file_name@, allowed@)),
        forall|i: int, j: int|
            0 <= i < j < r.unaccepted_extensions@.len() ==> r.unaccepted_extensions@[i]@
                != r.unaccepted_extensions@[j]@,
        forall|k: int|
            0 <= k < entries@.len() && rejected_for_extension(#[trigger] entries@[k], allowed@)
                ==> holds_extension(
                r.unaccepted_extensions@,
                extension_spec(entries@[k].file_name@),
            ),
        forall|i: int|
            0 <= i < r.unaccepted_extensions@.len() ==> records_extension_of(
                r.unaccepted_extensions@,
                i,
                entries@,
                allowed@,
            ),
{
    let ghost pred = |c: Candidate| accepted(c.file_name@, allowed@);
    let mut candidates: Vec<Candidate> = Vec::new();
    let mut unaccepted: Vec<String> = Vec::new();
    let mut idx: usize = 0;
    proof {
        reveal(Seq::filter);
        assert(entries@.take(0).filter(pred) =~= Seq::<Candidate>::empty());
    }
    while idx < entries.len()
        invariant
            0 <= idx <= entries@.len(),
            pred == (|c: Candidate| accepted(c.file_name@, allowed@)),
            candidates@ == entries@.take(idx as int).filter(pred),
            forall|i: int, j: int|
                0 <= i < j < unaccepted@.len() ==> unaccepted@[i]@ != unaccepted@[j]@,
            forall|k: int|
                0 <= k < idx && rejected_for_extension(#[trigger] entries@[k], allowed@)
                    ==> holds_extension(unaccepted@, extension_spec(entries@[k].file_name@)),
            forall|i: int|
                0 <= i < unaccepted@.len() ==> records_extension_of(
                    unaccepted@,
                    i,
                    entries@,
                    allowed@,
                ),
        decreases entries@.len() - idx,
    {
        proof {
            reveal(Seq::filter);
            assert(entries@.take(idx + 1).drop_last() =~= entries@.take(idx as int));
            assert(entries@.take(idx + 1).last() == entries@[idx as int]);
        }
        match classify(entries[idx].file_name.as_str(), allowed) {
            Classification::Accepted => {
                assert(!rejected_for_extension(entries@[idx as int], allowed@));
                candidates.push(entries[idx].clone());
            },
            Classification::Rejected(e) => {
                assert(e@ == extension_spec(entries@[idx as int].file_name@));
                assert(rejected_for_extension(entries@[idx as int], allowed@));
                let ghost ev = e@;
                let ghost es = e;
                if !contains_string(&unaccepted, e.as_str()) {
                    let ghost old_un = unaccepted@;
                    unaccepted.push(e);
                    proof {
                        let un = unaccepted@;
                        assert(un == old_un.push(es));
                        assert(un[old_un.len() as int]@ == ev);
                        assert forall|i: int, j: int| 0 <= i < j < un.len() implies un[i]@
                            != un[j]@ by {
                            if j == old_un.len() {
                                assert(un[i] == old_un[i]);
                                assert(old_un[i]@ != ev);
                            }
                        }
                        assert(holds_extension(un, ev));
                        assert forall|k: int|
                            0 <= k < idx + 1 && rejected_for_extension(
                                #[trigger] entries@[k],
                                allowed@,
                            ) implies holds_extension(
                            un,
                            extension_spec(entries@[k].file_name@),
                        ) by {
                            if k < idx {
                                lemma_holds_extension_push(
                                    old_un,
                                    es,
                                    extension_spec(entries@[k].file_name@),
                                );
                            }
                        }
                        assert forall|i: int| 0 <= i < un.len() implies records_extension_of(
                            un,
                            i,
                            entries@,
                            allowed@,
                        ) by {
                            if i < old_un.len() {
                                lemma_records_push(old_un, es, i, entries@, allowed@);
                            } else {
                                assert(rejected_for_extension(entries@[idx as int], allowed@)
                                    && un[i]@ == extension_spec(entries@[idx as int].file_name@));
                            }
                        }
                    }
                } else {
                    proof {
                        assert(holds_extension(unaccepted@, ev));
                    }
                }
            },
            Classification::NoExtension => {
                assert(!rejected_for_extension(entries@[idx as int], allowed@));
            },
        }
        idx = idx + 1;
    }
    proof {
        assert(entries@.take(entries@.len() as int) =~= entries@);
    }
    ScanOutcome { candidates, unaccepted_extensions: unaccepted }
}

/// The planned copy of one candidate: the resolved capture date, the parent
/// directory to ensure, and the full destination path.
#[derive(Debug)]
pub struct ImportPlan {
    pub resolved: ResolvedDate,
    pub destination_dir: String,
    pub destination_path: String,
}

/// Plans one candidate's copy: resolves its capture timestamp (embedded
/// metadata first, filesystem fallback) and derives the destination
/// directory `root/YYYY/YYYY-MM-DD` and path `root/YYYY/YYYY-MM-DD/name`.
/// Fails exactly when no timestamp tier is usable.
pub fn plan_candidate(
    file_name: &str,
    file_bytes: Option<&[u8]>,
    ctime_secs: Option<i64>,
    dest_root: &str,
) -> (r: Result<ImportPlan, DateError>)
    ensures
        r matches Ok(p) ==> {
            &&& p.resolved.ts().valid()
            &&& p.destination_dir@ == dest_dir_spec(dest_root@, p.resolved.ts().date)
            &&& p.destination_path@ == dest_path_spec(dest_root@, p.resolved.ts().date, file_name@)
        },
        meta_usable(meta_of_bytes(file_bytes)) ==> (r matches Ok(p) && p.resolved
            == ResolvedDate::FromMetadata(
            crate::parse::datetime_value(meta_of_bytes(file_bytes)->0),
        )),
        !meta_usable(meta_of_bytes(file_bytes)) && ctime_usable(ctime_secs) ==> (r matches Ok(p)
            && p.resolved matches ResolvedDate::FromFilesystem(ts) && ts.valid() && ts.date.year
            >= 1970 && epoch_secs_of(ts) == ctime_secs->0),
        r is Err <==> !meta_usable(meta_of_bytes(file_bytes)) && !ctime_usable(ctime_secs),
{
    let resolved = match resolve_capture_date(file_bytes, ctime_secs) {
        Ok(d) => d,
        Err(e) => { return Err(e) },
    };
    let ts = resolved.timestamp();
    let dir = destination_dir(dest_root, &ts.date);
    let path = destination_path(dest_root, &ts.date, file_name);
    Ok(ImportPlan { resolved, destination_dir: dir, destination_path: path })
}

/// Which step of a copy task failed.
#[derive(Clone, Copy, PartialEq, Eq, Structural, Debug)]
pub enum FailureKind {
    /// No capture timestamp could be attributed to the file.
    DateResolution,
    /// The destination directory could not be created.
    DirectoryCreation,
    /// The byte copy could not start or failed partway.
    FileCopy,
}

/// One recorded per-file failure: the source path, the failed step, and the
/// underlying error description.
#[derive(Debug)]
pub struct FileFailure {
    pub path: String,
    pub kind: FailureKind,
    pub detail: String,
}

impl Clone for FileFailure {
    fn clone(&self) -> (r: Self)
        ensures
            r == *self,
    {
        FileFailure { path: self.path.clone(), kind: self.kind, detail: self.detail.clone() }
    }
}

/// The outcome of one copy task; a failure never terminates the run.
#[derive(Debug)]
pub enum TaskOutcome {
    Succeeded,
    Failed(FileFailure),
}

/// How many outcomes succeeded.
pub open spec fn count_succeeded(s: Seq<TaskOutcome>) -> int
    decreases s.len(),
{
    if s.len() == 0 {
        0
    } else {
        count_succeeded(s.drop_last()) + if s.last() is Succeeded {
            1int
        } else {
            0int
        }
    }
}

/// The recorded failures, in outcome order.
pub open spec fn failures_of(s: Seq<TaskOutcome>) -> Seq<FileFailure>
    decreases s.len(),
{
    if s.len() == 0 {
        Seq::empty()
    } else {
        failures_of(s.drop_last()) + match s.last() {
            TaskOutcome::Failed(f) => seq![f],
            TaskOutcome::Succeeded => Seq::empty(),
        }
    }
}

/// The end-of-run report: totals, every failure with its cause, and the
/// directories created during the run.
#[derive(Debug)]
pub struct Summary {
    pub total: usize,
    pub succeeded: usize,
    pub failures: Vec<FileFailure>,
    pub directories: Vec<String>,
}

/// Aggregates the per-file outcomes into the run summary: counts every
/// success, lists every failure with its cause, and carries the directory
/// report through unchanged.
pub fn summarize(outcomes: &Vec<TaskOutcome>, directories: Vec<String>) -> (s: Summary)
    ensures
        s.total == outcomes@.len(),
        s.succeeded == count_succeeded(outcomes@),
        s.failures@ == failures_of(outcomes@),
        s.directories == directories,
{
    let mut succeeded: usize = 0;
    let mut failures: Vec<FileFailure> = Vec::new();
    let mut i: usize = 0;
    proof {
        assert(outcomes@.take(0) =~= Seq::<TaskOutcome>::empty());
    }
    while i < outcomes.len()
        invariant
            0 <= i <= outcomes@.len(),
            succeeded == count_succeeded(outcomes@.take(i as int)),
            succeeded <= i,
            failures@ == failures_of(outcomes@.take(i as int)),
        decreases outcomes@.len() - i,
    {
        proof {
            assert(outcomes@.take(i + 1).drop_last() =~= outcomes@.take(i as int));
            assert(outcomes@.take(i + 1).last() == outcomes@[i as int]);
        }
        match &outcomes[i] {
            TaskOutcome::Succeeded => {
                succeeded = succeeded + 1;
            },
            TaskOutcome::Failed(f) => {
                failures.push(f.clone());
                proof {
                    assert(failures@ =~= failures_of(outcomes@.take(i + 1)));
                }
            },
        }
        i = i + 1;
    }
    proof {
        assert(outcomes@.take(outcomes@.len() as int) =~= outcomes@);
    }
    Summary { total: outcomes.len(), succeeded, failures, directories }
}

/// Law: every task is accounted for in the summary — the successes and the
/// recorded failures together cover the outcomes exactly, so a failure is
/// isolated to its own task and the final report is always reachable.
pub proof fn lemma_every_outcome_counted(s: Seq<TaskOutcome>)
    ensures
        count_succeeded(s) + failures_of(s).len() == s.len(),
        0 <= count_succeeded(s) <= s.len(),
    decreases s.len(),
{
    if s.len() > 0 {
        lemma_every_outcome_counted(s.drop_last());
    }
}

} // verus!
