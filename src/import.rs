//! The import planner: the decisions of a migration from a legacy log into
//! the content-addressed store. The caller walks the log in source order,
//! hands each revision's data to an [`ImportSession`], performs the uploads
//! that the returned plan lists, and reports completions back.

use vstd::prelude::*;
use crate::byteseq::copy_bytes;
use crate::changegroup::copy_opt_hash;
use crate::hash::HgNodeHash;
use crate::path::{
    join_element_opt, joined_names, opt_element_eq, opt_element_name, opt_path_eq, opt_path_names, MPath,
    MPathElement, RepoPath,
};

verus! {

/// The flavour of a file.
#[derive(Clone, Copy, Debug, PartialEq, Eq, Structural)]
pub enum FileType {
    Regular,
    Executable,
    Symlink,
}

/// What a manifest entry points to.
#[derive(Clone, Copy, Debug, PartialEq, Eq, Structural)]
pub enum EntryType {
    Tree,
    File(FileType),
}

/// How the store treats the node id that comes with an upload.
#[derive(Clone, Debug)]
pub enum UploadNodeId {
    /// The computed hash must equal this one.
    Checked(HgNodeHash),
    /// Trust this hash without recomputing it (root manifests only).
    Supplied(HgNodeHash),
}

/// Where the parent of a changeset comes from.
#[derive(Clone, Debug)]
pub enum ParentSource {
    /// The changeset started earlier in this session under this handle.
    Session(usize),
    /// A changeset stored by an earlier session, looked up by its id.
    Store(HgNodeHash),
}

/// The upload state of a changeset of this session.
#[derive(Clone, Copy, Debug, PartialEq, Eq, Structural)]
pub enum UploadState {
    Pending,
    Completed,
    Failed,
}

/// Why an import step failed.
#[derive(Clone, Debug)]
pub enum ImportError {
    /// Importing from the start of history, a parent was not seen before its child.
    ParentNotFound { parent: HgNodeHash, child: HgNodeHash },
    /// A manifest entry joined to the root path.
    RootPathJoin,
    /// A parent of the changeset failed.
    ParentFailed,
    /// A parent of the changeset is still in flight.
    ParentPending,
}

/// One changed entry of a revision's root manifest, as read from the log.
#[derive(Clone, Debug)]
pub struct ChangedEntry {
    pub path: Option<MPath>,
    pub name: Option<MPathElement>,
    pub ty: EntryType,
    pub node: HgNodeHash,
    pub p1: Option<HgNodeHash>,
    pub p2: Option<HgNodeHash>,
}

/// The upload of one tree or file entry.
#[derive(Clone, Debug)]
pub struct EntryUpload {
    pub ty: EntryType,
    pub node_id: UploadNodeId,
    pub path: RepoPath,
    pub p1: Option<HgNodeHash>,
    pub p2: Option<HgNodeHash>,
}

/// The upload of a root manifest.
#[derive(Clone, Debug)]
pub struct RootManifestUpload {
    pub node_id: UploadNodeId,
    pub path: RepoPath,
    pub p1: Option<HgNodeHash>,
    pub p2: Option<HgNodeHash>,
}

/// What the log says of one revision.
#[derive(Clone, Debug)]
pub struct RevisionData {
    pub csid: HgNodeHash,
    pub parents: Vec<HgNodeHash>,
    pub manifest_id: HgNodeHash,
    pub manifest_p1: Option<HgNodeHash>,
    pub manifest_p2: Option<HgNodeHash>,
    pub changed: Vec<ChangedEntry>,
}

/// Everything to upload for one revision, and the handle it is known by.
#[derive(Clone, Debug)]
pub struct ChangesetPlan {
    pub handle: usize,
    pub csid: HgNodeHash,
    pub root_manifest: Option<RootManifestUpload>,
    pub entries: Vec<EntryUpload>,
    pub p1: Option<ParentSource>,
    pub p2: Option<ParentSource>,
}

/// A changeset started in this session: its id and the handles of those of
/// its parents that started in this session too.
#[derive(Clone, Debug)]
pub struct HandleRecord {
    pub csid: HgNodeHash,
    pub p1: Option<usize>,
    pub p2: Option<usize>,
}

/// The state of one import run: whether it started from the beginning of
/// history, the changesets started so far, indexed by handle, and the
/// upload state of each.
pub struct ImportSession {
    pub from_beginning: bool,
    pub records: Vec<HandleRecord>,
    pub states: Vec<UploadState>,
}

pub open spec fn session_parent(p: Option<usize>) -> Option<int> {
    match p {
        Some(j) => Some(j as int),
        None => None,
    }
}

/// The session handle a parent source names, if any.
pub open spec fn session_index(src: Option<ParentSource>) -> Option<usize> {
    match src {
        Some(ParentSource::Session(j)) => Some(j),
        _ => None,
    }
}

fn session_index_of(src: &Option<ParentSource>) -> (r: Option<usize>)
    ensures
        r == session_index(*src),
{
    match src {
        Some(ParentSource::Session(j)) => Some(*j),
        _ => None,
    }
}

/// The handle of the most recent changeset of this session with id `csid`.
pub open spec fn lookup_handle(records: Seq<HandleRecord>, csid: Seq<u8>) -> Option<int>
    decreases records.len(),
{
    if records.len() == 0 {
        None
    } else if records.last().csid@ == csid {
        Some(records.len() - 1)
    } else {
        lookup_handle(records.drop_last(), csid)
    }
}

/// `src` is where parent `p` is taken from: this session's handle for it
/// if there is one, else the store, which is allowed only for a run that
/// did not start from the beginning.
pub open spec fn resolves_to(records: Seq<HandleRecord>, from_beginning: bool, p: Seq<u8>, src: ParentSource) -> bool {
    match lookup_handle(records, p) {
        Some(i) => src == ParentSource::Session(i as usize),
        None => !from_beginning && (src matches ParentSource::Store(h) && h@ == p),
    }
}

/// `p` can be resolved.
pub open spec fn resolvable(records: Seq<HandleRecord>, from_beginning: bool, p: Seq<u8>) -> bool {
    lookup_handle(records, p) is Some || !from_beginning
}

/// Every session parent of changeset `i` has completed.
pub open spec fn parents_completed(records: Seq<HandleRecord>, states: Seq<UploadState>, i: int) -> bool {
    &&& (session_parent(records[i].p1) matches Some(j) ==> states[j] == UploadState::Completed)
    &&& (session_parent(records[i].p2) matches Some(j) ==> states[j] == UploadState::Completed)
}

/// A session parent of changeset `i` has failed.
pub open spec fn a_parent_failed(records: Seq<HandleRecord>, states: Seq<UploadState>, i: int) -> bool {
    ||| (session_parent(records[i].p1) matches Some(j) && states[j] == UploadState::Failed)
    ||| (session_parent(records[i].p2) matches Some(j) && states[j] == UploadState::Failed)
}

/// The names of the path an entry is uploaded under.
pub open spec fn entry_names(e: ChangedEntry) -> Seq<Seq<u8>> {
    joined_names(e.path, e.name)
}

/// `u` is the upload of entry `e`: same type, checked node id, parents,
/// and a directory path for a tree or a file path for a file.
pub open spec fn entry_upload_matches(e: ChangedEntry, u: EntryUpload) -> bool {
    &&& u.ty == e.ty
    &&& u.node_id matches UploadNodeId::Checked(h) && h@ == e.node@
    &&& opt_hash_eq(u.p1, e.p1)
    &&& opt_hash_eq(u.p2, e.p2)
    &&& match (e.ty, u.path) {
        (EntryType::Tree, RepoPath::DirectoryPath(p)) => p.names() == entry_names(e),
        (EntryType::File(_), RepoPath::FilePath(p)) => p.names() == entry_names(e),
        _ => false,
    }
}

pub open spec fn opt_hash_eq(a: Option<HgNodeHash>, b: Option<HgNodeHash>) -> bool {
    match (a, b) {
        (Some(x), Some(y)) => x@ == y@,
        (None, None) => true,
        _ => false,
    }
}

/// Plans the upload of one changed entry; fails where the entry joins to
/// the root path, which only the root manifest may occupy.
pub fn upload_entry(entry: &ChangedEntry) -> (r: Result<EntryUpload, ImportError>)
    ensures
        r is Ok <==> entry_names(*entry).len() > 0,
        r matches Ok(u) ==> entry_upload_matches(*entry, u),
        r matches Err(e) ==> e is RootPathJoin,
{
    let path = match join_element_opt(entry.path.as_ref(), entry.name.as_ref()) {
        None => {
            return Err(ImportError::RootPathJoin);
        },
        Some(p) => p,
    };
    let repo_path = match entry.ty {
        EntryType::Tree => RepoPath::DirectoryPath(path),
        EntryType::File(_) => RepoPath::FilePath(path),
    };
    Ok(
        EntryUpload {
            ty: entry.ty,
            node_id: UploadNodeId::Checked(entry.node.copied()),
            path: repo_path,
            p1: copy_opt_hash(&entry.p1),
            p2: copy_opt_hash(&entry.p2),
        },
    )
}

/// Plans the upload of a revision's root manifest: none for the null
/// manifest; otherwise at the root path, with the recorded manifest id
/// trusted as supplied, since legacy root manifests may not hash to it.
pub fn plan_root_manifest(
    manifest_id: &HgNodeHash,
    p1: &Option<HgNodeHash>,
    p2: &Option<HgNodeHash>,
) -> (r: Option<RootManifestUpload>)
    requires
        manifest_id.wf(),
    ensures
        r is None <==> manifest_id@ == crate::hash::null_hash(),
        r matches Some(u) ==> (u.node_id matches UploadNodeId::Supplied(h) && h@ == manifest_id@)
            && u.path == RepoPath::RootPath && opt_hash_eq(u.p1, *p1) && opt_hash_eq(u.p2, *p2),
{
    if manifest_id.is_null() {
        None
    } else {
        Some(
            RootManifestUpload {
                node_id: UploadNodeId::Supplied(manifest_id.copied()),
                path: RepoPath::RootPath,
                p1: copy_opt_hash(p1),
                p2: copy_opt_hash(p2),
            },
        )
    }
}

/// The first two parents of a revision, as the log lists them.
pub open spec fn nth_parent(rev: RevisionData, k: int) -> Option<Seq<u8>> {
    if k < rev.parents@.len() {
        Some(rev.parents@[k]@)
    } else {
        None
    }
}

/// `src` is how parent `k` of `rev` is taken.
pub open spec fn parent_planned(
    records: Seq<HandleRecord>,
    from_beginning: bool,
    rev: RevisionData,
    k: int,
    src: Option<ParentSource>,
) -> bool {
    match nth_parent(rev, k) {
        None => src is None,
        Some(p) => src matches Some(x) && resolves_to(records, from_beginning, p, x),
    }
}

/// Every parent of `rev` among the first two can be resolved.
pub open spec fn parents_resolvable(records: Seq<HandleRecord>, from_beginning: bool, rev: RevisionData) -> bool {
    &&& (nth_parent(rev, 0) matches Some(p) ==> resolvable(records, from_beginning, p))
    &&& (nth_parent(rev, 1) matches Some(p) ==> resolvable(records, from_beginning, p))
}

/// Every changed entry of `rev` has a non-root path.
pub open spec fn entries_plannable(rev: RevisionData) -> bool {
    forall|i: int| 0 <= i < rev.changed@.len() ==> entry_names(#[trigger] rev.changed@[i]).len() > 0
}

/// Every hash of `rev` is 20 bytes long.
pub open spec fn revision_wf(rev: RevisionData) -> bool {
    &&& rev.csid.wf()
    &&& rev.manifest_id.wf()
    &&& forall|i: int| 0 <= i < rev.parents@.len() ==> (#[trigger] rev.parents@[i]).wf()
}

/// `plan` is the plan of `rev` for a session whose changesets so far are
/// `records`: the next handle, its id, its parents resolved against
/// `records`, its root manifest upload (none for the null manifest) and
/// one upload per changed entry, in order.
pub open spec fn plan_matches(
    records: Seq<HandleRecord>,
    from_beginning: bool,
    rev: RevisionData,
    plan: ChangesetPlan,
) -> bool {
    &&& plan.handle == records.len()
    &&& plan.csid@ == rev.csid@
    &&& parent_planned(records, from_beginning, rev, 0, plan.p1)
    &&& parent_planned(records, from_beginning, rev, 1, plan.p2)
    &&& (plan.root_manifest is None <==> rev.manifest_id@ == crate::hash::null_hash())
    &&& (plan.root_manifest matches Some(u) ==> (u.node_id matches UploadNodeId::Supplied(h) && h@
        == rev.manifest_id@) && u.path == RepoPath::RootPath && opt_hash_eq(u.p1, rev.manifest_p1)
        && opt_hash_eq(u.p2, rev.manifest_p2))
    &&& plan.entries@.len() == rev.changed@.len()
    &&& forall|i: int|
        0 <= i < rev.changed@.len() ==> entry_upload_matches(
            #[trigger] rev.changed@[i],
            plan.entries@[i],
        )
}

/// `rec` is the record a session keeps for `plan`.
pub open spec fn record_matches(rec: HandleRecord, plan: ChangesetPlan) -> bool {
    rec.csid@ == plan.csid@ && rec.p1 == session_index(plan.p1) && rec.p2 == session_index(plan.p2)
}

impl ImportSession {
    /// Parents are earlier handles, and a completed changeset's parents
    /// have completed.
    pub open spec fn wf(&self) -> bool {
        &&& self.states@.len() == self.records@.len()
        &&& forall|i: int|
            0 <= i < self.records@.len() ==> {
                &&& (session_parent(#[trigger] self.records@[i].p1) matches Some(j) ==> 0 <= j < i)
                &&& (session_parent(self.records@[i].p2) matches Some(j) ==> 0 <= j < i)
            }
        &&& forall|i: int|
            0 <= i < self.records@.len() && #[trigger] self.states@[i] == UploadState::Completed
                ==> parents_completed(self.records@, self.states@, i)
    }

    /// A session with no changeset started yet.
    pub fn new(from_beginning: bool) -> (r: ImportSession)
        ensures
            r.wf(),
            r.from_beginning == from_beginning,
            r.records@.len() == 0,
    {
        ImportSession { from_beginning, records: Vec::new(), states: Vec::new() }
    }

    /// The handle of the most recent changeset started with id `csid`.
    pub fn find_handle(&self, csid: &HgNodeHash) -> (r: Option<usize>)
        ensures
            match r {
                Some(i) => lookup_handle(self.records@, csid@) == Some(i as int),
                None => lookup_handle(self.records@, csid@) is None,
            },
    {
        let ghost rs = self.records@;
        let mut j: usize = self.records.len();
        assert(rs.subrange(0, j as int) =~= rs);
        while j > 0
            invariant
                j <= rs.len(),
                rs == self.records@,
                lookup_handle(rs, csid@) == lookup_handle(rs.subrange(0, j as int), csid@),
            decreases j,
        {
            let ghost pre = rs.subrange(0, j as int);
            assert(pre.last() == rs[j - 1]);
            if self.records[j - 1].csid == *csid {
                return Some(j - 1);
            }
            assert(pre.drop_last() =~= rs.subrange(0, j - 1));
            j = j - 1;
        }
        None
    }

    /// Where parent `p` of `child` is taken from: this session's handle if
    /// it started one, else the store, unless the run started from the
    /// beginning of history, where a parent must come before its child.
    pub fn resolve_parent(&self, p: &HgNodeHash, child: &HgNodeHash) -> (r: Result<ParentSource, ImportError>)
        ensures
            r is Ok <==> resolvable(self.records@, self.from_beginning, p@),
            r matches Ok(src) ==> resolves_to(self.records@, self.from_beginning, p@, src),
            r matches Err(e) ==> (e matches ImportError::ParentNotFound { parent, child: c } && parent@
                == p@ && c@ == child@),
    {
        match self.find_handle(p) {
            Some(i) => Ok(ParentSource::Session(i)),
            None => {
                if self.from_beginning {
                    Err(ImportError::ParentNotFound { parent: p.copied(), child: child.copied() })
                } else {
                    Ok(ParentSource::Store(p.copied()))
                }
            },
        }
    }

    fn resolve_nth(&self, rev: &RevisionData, k: usize) -> (r: Result<Option<ParentSource>, ImportError>)
        ensures
            r is Ok <==> (nth_parent(*rev, k as int) matches Some(p) ==> resolvable(
                self.records@,
                self.from_beginning,
                p,
            )),
            r matches Ok(src) ==> parent_planned(self.records@, self.from_beginning, *rev, k as int, src),
            r matches Err(e) ==> e is ParentNotFound,
    {
        if k < rev.parents.len() {
            match self.resolve_parent(&rev.parents[k], &rev.csid) {
                Ok(src) => Ok(Some(src)),
                Err(e) => Err(e),
            }
        } else {
            Ok(None)
        }
    }

    /// Plans the uploads of the next revision in source order and starts
    /// its changeset under a new handle. Fails, changing nothing, where a
    /// parent cannot be resolved or an entry joins to the root path.
    pub fn plan_revision(&mut self, rev: &RevisionData) -> (r: Result<ChangesetPlan, ImportError>)
        requires
            old(self).wf(),
            revision_wf(*rev),
        ensures
            final(self).wf(),
            final(self).from_beginning == old(self).from_beginning,
            r is Ok <==> parents_resolvable(old(self).records@, old(self).from_beginning, *rev)
                && entries_plannable(*rev),
            r is Err ==> final(self).records@ == old(self).records@,
            r matches Err(e) ==> (e is ParentNotFound && !parents_resolvable(
                old(self).records@,
                old(self).from_beginning,
                *rev,
            )) || (e is RootPathJoin && parents_resolvable(
                old(self).records@,
                old(self).from_beginning,
                *rev,
            ) && !entries_plannable(*rev)),
            r matches Ok(plan) ==> {
                &&& plan_matches(old(self).records@, old(self).from_beginning, *rev, plan)
                &&& final(self).records@.len() == old(self).records@.len() + 1
                &&& final(self).records@.drop_last() == old(self).records@
                &&& record_matches(final(self).records@.last(), plan)
                &&& final(self).states@ == old(self).states@.push(UploadState::Pending)
            },
    {
        let p1 = match self.resolve_nth(rev, 0) {
            Ok(s) => s,
            Err(e) => {
                return Err(e);
            },
        };
        let p2 = match self.resolve_nth(rev, 1) {
            Ok(s) => s,
            Err(e) => {
                return Err(e);
            },
        };
        let mut entries: Vec<EntryUpload> = Vec::new();
        let mut i: usize = 0;
        while i < rev.changed.len()
            invariant
                i <= rev.changed@.len(),
                self.wf(),
                *self == *old(self),
                parents_resolvable(self.records@, self.from_beginning, *rev),
                parent_planned(self.records@, self.from_beginning, *rev, 0, p1),
                parent_planned(self.records@, self.from_beginning, *rev, 1, p2),
                entries@.len() == i,
                forall|j: int|
                    0 <= j < i ==> entry_upload_matches(#[trigger] rev.changed@[j], entries@[j]),
                forall|j: int| 0 <= j < i ==> entry_names(#[trigger] rev.changed@[j]).len() > 0,
            decreases rev.changed@.len() - i,
        {
            match upload_entry(&rev.changed[i]) {
                Ok(u) => {
                    entries.push(u);
                },
                Err(e) => {
                    return Err(e);
                },
            }
            i = i + 1;
        }
        let root_manifest = plan_root_manifest(&rev.manifest_id, &rev.manifest_p1, &rev.manifest_p2);
        let handle = self.records.len();
        let ghost before = self.records@;
        let ghost states_before = self.states@;
        proof {
            self.lemma_planned_parent_earlier(*rev, 0, p1);
            self.lemma_planned_parent_earlier(*rev, 1, p2);
        }
        let record = HandleRecord {
            csid: rev.csid.copied(),
            p1: session_index_of(&p1),
            p2: session_index_of(&p2),
        };
        self.records.push(record);
        self.states.push(UploadState::Pending);
        proof {
            assert(self.records@.drop_last() =~= before);
            assert(self.states@.drop_last() =~= states_before);
            assert forall|k: int| 0 <= k < self.records@.len() implies {
                &&& (session_parent(#[trigger] self.records@[k].p1) matches Some(j) ==> 0 <= j < k)
                &&& (session_parent(self.records@[k].p2) matches Some(j) ==> 0 <= j < k)
            } by {
                if k < before.len() {
                    assert(self.records@[k] == before[k]);
                }
            }
            assert forall|k: int|
                0 <= k < self.records@.len() && #[trigger] self.states@[k] == UploadState::Completed
                    implies parents_completed(self.records@, self.states@, k) by {
                assert(k < before.len());
                assert(self.records@[k] == before[k]);
                assert(self.states@[k] == states_before[k]);
                assert(parents_completed(before, states_before, k));
            }
        }
        Ok(ChangesetPlan { handle, csid: rev.csid.copied(), root_manifest, entries, p1, p2 })
    }

    /// The upload state of the changeset under handle `h`.
    pub fn state(&self, h: usize) -> (r: UploadState)
        requires
            self.wf(),
            h < self.records@.len(),
        ensures
            r == self.states@[h as int],
    {
        self.states[h]
    }

    fn parent_state(&self, p: Option<usize>) -> (r: UploadState)
        requires
            self.wf(),
            p matches Some(j) ==> j < self.records@.len(),
        ensures
            p matches Some(j) ==> r == self.states@[j as int],
            p is None ==> r == UploadState::Completed,
    {
        match p {
            Some(j) => self.states[j],
            None => UploadState::Completed,
        }
    }

    /// Reports that the store has written changeset `h`. It completes only
    /// once its parents of this session have: where one has failed, `h`
    /// fails too; where one is still pending, nothing changes.
    pub fn complete_changeset(&mut self, h: usize) -> (r: Result<(), ImportError>)
        requires
            old(self).wf(),
            h < old(self).records@.len(),
        ensures
            final(self).wf(),
            final(self).from_beginning == old(self).from_beginning,
            final(self).records@ == old(self).records@,
            final(self).states@.len() == old(self).states@.len(),
            forall|i: int|
                0 <= i < old(self).states@.len() && i != h ==> #[trigger] final(self).states@[i]
                    == old(self).states@[i],
            old(self).states@[h as int] == UploadState::Completed ==> r is Ok && final(self).states@
                == old(self).states@,
            old(self).states@[h as int] != UploadState::Completed ==> {
                if a_parent_failed(old(self).records@, old(self).states@, h as int) {
                    r matches Err(ImportError::ParentFailed) && final(self).states@[h as int]
                        == UploadState::Failed
                } else if parents_completed(old(self).records@, old(self).states@, h as int) {
                    r is Ok && final(self).states@[h as int] == UploadState::Completed
                } else {
                    r matches Err(ImportError::ParentPending) && final(self).states@
                        == old(self).states@
                }
            },
    {
        if self.states[h] == UploadState::Completed {
            return Ok(());
        }
        let s1 = self.parent_state(self.records[h].p1);
        let s2 = self.parent_state(self.records[h].p2);
        if s1 == UploadState::Failed || s2 == UploadState::Failed {
            self.set_state(h, UploadState::Failed);
            return Err(ImportError::ParentFailed);
        }
        if s1 == UploadState::Pending || s2 == UploadState::Pending {
            return Err(ImportError::ParentPending);
        }
        self.set_state(h, UploadState::Completed);
        Ok(())
    }

    /// Reports that the upload of changeset `h` failed; a completed
    /// changeset stays completed.
    pub fn fail_changeset(&mut self, h: usize)
        requires
            old(self).wf(),
            h < old(self).records@.len(),
        ensures
            final(self).wf(),
            final(self).from_beginning == old(self).from_beginning,
            final(self).records@ == old(self).records@,
            final(self).states@ == old(self).states@.update(
                h as int,
                if old(self).states@[h as int] == UploadState::Completed {
                    UploadState::Completed
                } else {
                    UploadState::Failed
                },
            ),
    {
        if self.states[h] != UploadState::Completed {
            self.set_state(h, UploadState::Failed);
        } else {
            assert(self.states@ =~= self.states@.update(h as int, UploadState::Completed));
        }
    }

    /// Sets the state of `h`; for `Completed`, its parents must have completed.
    fn set_state(&mut self, h: usize, state: UploadState)
        requires
            old(self).wf(),
            h < old(self).records@.len(),
            old(self).states@[h as int] != UploadState::Completed,
            state == UploadState::Completed ==> parents_completed(
                old(self).records@,
                old(self).states@,
                h as int,
            ),
        ensures
            final(self).wf(),
            final(self).from_beginning == old(self).from_beginning,
            final(self).records@ == old(self).records@,
            final(self).states@ == old(self).states@.update(h as int, state),
    {
        let ghost before = self.states@;
        self.states.set(h, state);
        proof {
            assert forall|k: int|
                0 <= k < self.records@.len() && #[trigger] self.states@[k] == UploadState::Completed
                    implies parents_completed(self.records@, self.states@, k) by {
                if k != h {
                    assert(parents_completed(self.records@, before, k));
                }
            }
        }
    }

    proof fn lemma_planned_parent_earlier(&self, rev: RevisionData, k: int, src: Option<ParentSource>)
        requires
            parent_planned(self.records@, self.from_beginning, rev, k, src),
        ensures
            session_index(src) matches Some(j) ==> 0 <= j < self.records@.len(),
    {
        if let Some(p) = nth_parent(rev, k) {
            lemma_lookup_in_range(self.records@, p);
        }
    }
}

proof fn lemma_lookup_in_range(records: Seq<HandleRecord>, csid: Seq<u8>)
    ensures
        lookup_handle(records, csid) matches Some(i) ==> 0 <= i < records.len(),
    decreases records.len(),
{
    if records.len() > 0 && records.last().csid@ != csid {
        lemma_lookup_in_range(records.drop_last(), csid);
    }
}

/// Which changesets of the log to import: one exact changeset, or all of
/// them; then, either way, the first `skip` dropped and at most `limit` kept.
#[derive(Clone, Debug)]
pub struct ImportSelection {
    pub changeset: Option<HgNodeHash>,
    pub skip: Option<usize>,
    pub limit: Option<usize>,
}

pub open spec fn hashes_view(hs: Seq<HgNodeHash>) -> Seq<Seq<u8>> {
    Seq::new(hs.len(), |i: int| hs[i]@)
}

/// The ids that `sel` picks from the log's ids `all`, in source order.
pub open spec fn selected(all: Seq<Seq<u8>>, sel: ImportSelection) -> Seq<Seq<u8>> {
    let base = match sel.changeset {
        Some(h) => seq![h@],
        None => all,
    };
    let skipped = match sel.skip {
        Some(n) => if n < base.len() {
            base.subrange(n as int, base.len() as int)
        } else {
            Seq::empty()
        },
        None => base,
    };
    match sel.limit {
        Some(m) => if m < skipped.len() {
            skipped.subrange(0, m as int)
        } else {
            skipped
        },
        None => skipped,
    }
}

/// Whether a selection imports from the beginning of history: no exact
/// changeset and no skip. Only then must every parent come before its child.
pub fn is_import_from_beginning(sel: &ImportSelection) -> (r: bool)
    ensures
        r == (sel.changeset is None && sel.skip is None),
{
    sel.changeset.is_none() && sel.skip.is_none()
}

/// The ids that `sel` picks from the log's ids `all`, in source order.
pub fn select_changesets(all: &Vec<HgNodeHash>, sel: &ImportSelection) -> (r: Vec<HgNodeHash>)
    ensures
        hashes_view(r@) == selected(hashes_view(all@), *sel),
{
    let ghost av = hashes_view(all@);
    let mut base: Vec<HgNodeHash> = Vec::new();
    match &sel.changeset {
        Some(h) => {
            base.push(h.copied());
            assert(hashes_view(base@) =~= seq![h@]);
        },
        None => {
            let mut i: usize = 0;
            while i < all.len()
                invariant
                    i <= all@.len(),
                    hashes_view(base@) == hashes_view(all@).subrange(0, i as int),
                decreases all@.len() - i,
            {
                let ghost prev = base@;
                assert(hashes_view(prev).len() == prev.len());
                base.push(all[i].copied());
                assert forall|j: int| 0 <= j < i + 1 implies #[trigger] hashes_view(base@)[j]
                    == hashes_view(all@).subrange(0, i + 1)[j] by {
                    if j < i {
                        assert(base@[j] == prev[j]);
                        assert(hashes_view(prev)[j] == hashes_view(all@).subrange(0, i as int)[j]);
                    }
                }
                assert(hashes_view(base@) =~= hashes_view(all@).subrange(0, i + 1));
                i = i + 1;
            }
            assert(hashes_view(all@).subrange(0, all@.len() as int) =~= hashes_view(all@));
        },
    }
    let start: usize = match sel.skip {
        Some(n) => if n < base.len() {
            n
        } else {
            base.len()
        },
        None => 0,
    };
    let avail = base.len() - start;
    let count: usize = match sel.limit {
        Some(m) => if m < avail {
            m
        } else {
            avail
        },
        None => avail,
    };
    let ghost bv = hashes_view(base@);
    let n = base.len();
    let mut out: Vec<HgNodeHash> = Vec::new();
    let mut k: usize = 0;
    while k < count
        invariant
            k <= count,
            start + count <= n,
            n == base@.len(),
            bv == hashes_view(base@),
            hashes_view(out@) == bv.subrange(start as int, start + k),
        decreases count - k,
    {
        let ghost prev = out@;
        assert(hashes_view(prev).len() == prev.len());
        out.push(base[start + k].copied());
        assert forall|j: int| 0 <= j < k + 1 implies #[trigger] hashes_view(out@)[j] == bv.subrange(
            start as int,
            start + k + 1,
        )[j] by {
            if j < k {
                assert(out@[j] == prev[j]);
                assert(hashes_view(prev)[j] == bv.subrange(start as int, start + k)[j]);
            }
        }
        assert(hashes_view(out@) =~= bv.subrange(start as int, start + k + 1));
        k = k + 1;
    }
    assert(hashes_view(out@) =~= selected(av, *sel));
    out
}

/// The first revision whose plan failed, and why.
#[derive(Clone, Debug)]
pub struct ImportFailure {
    pub index: usize,
    pub error: ImportError,
}

/// `s` and `plans` are what planning `revisions` in a new session gives:
/// one pending changeset per revision, each planned against the
/// changesets before it.
pub open spec fn import_planned(
    from_beginning: bool,
    revisions: Seq<RevisionData>,
    s: ImportSession,
    plans: Seq<ChangesetPlan>,
) -> bool {
    &&& s.wf()
    &&& s.from_beginning == from_beginning
    &&& s.records@.len() == revisions.len()
    &&& plans.len() == revisions.len()
    &&& (forall|i: int|
        0 <= i < revisions.len() ==> plan_matches(
            s.records@.subrange(0, i),
            from_beginning,
            #[trigger] revisions[i],
            plans[i],
        ) && record_matches(s.records@[i], plans[i]))
    &&& (forall|i: int|
        0 <= i < s.states@.len() ==> #[trigger] s.states@[i] == UploadState::Pending)
}

/// Plans the import of `revisions`, in source order, in a new session.
/// Stops at the first revision that cannot be planned, returning the
/// session as it stood before that revision.
pub fn upload_changesets(from_beginning: bool, revisions: &Vec<RevisionData>) -> (r: Result<
    (ImportSession, Vec<ChangesetPlan>),
    (ImportSession, ImportFailure),
>)
    requires
        forall|i: int| 0 <= i < revisions@.len() ==> revision_wf(#[trigger] revisions@[i]),
    ensures
        r matches Ok((s, plans)) ==> import_planned(from_beginning, revisions@, s, plans@),
        r matches Err((s, f)) ==> {
            &&& s.wf()
            &&& s.from_beginning == from_beginning
            &&& f.index < revisions@.len()
            &&& s.records@.len() == f.index
            &&& (forall|j: int| 0 <= j < f.index ==> (#[trigger] s.records@[j]).csid@ == revisions@[j].csid@)
            &&& !(parents_resolvable(s.records@, from_beginning, revisions@[f.index as int])
                && entries_plannable(revisions@[f.index as int]))
        },
{
    let mut session = ImportSession::new(from_beginning);
    let mut plans: Vec<ChangesetPlan> = Vec::new();
    let mut i: usize = 0;
    while i < revisions.len()
        invariant
            i <= revisions@.len(),
            forall|j: int| 0 <= j < revisions@.len() ==> revision_wf(#[trigger] revisions@[j]),
            session.wf(),
            session.from_beginning == from_beginning,
            session.records@.len() == i,
            plans@.len() == i,
            forall|j: int|
                0 <= j < i ==> plan_matches(
                    session.records@.subrange(0, j),
                    from_beginning,
                    #[trigger] revisions@[j],
                    plans@[j],
                ) && record_matches(session.records@[j], plans@[j]),
            forall|j: int| 0 <= j < session.states@.len() ==> #[trigger] session.states@[j]
                == UploadState::Pending,
        decreases revisions@.len() - i,
    {
        let ghost before = session.records@;
        let ghost states_before = session.states@;
        match session.plan_revision(&revisions[i]) {
            Ok(plan) => {
                proof {
                    assert forall|j: int| 0 <= j < i + 1 implies session.records@.subrange(0, j)
                        == (if j < i {
                        before.subrange(0, j)
                    } else {
                        before
                    }) by {
                        if j < i {
                            assert(session.records@.subrange(0, j) =~= before.subrange(0, j));
                        } else {
                            assert(session.records@.subrange(0, j) =~= before);
                        }
                    }
                    assert forall|j: int| 0 <= j < i implies session.records@[j] == before[j] by {
                        assert(session.records@.drop_last()[j] == session.records@[j]);
                    }
                    assert forall|j: int| 0 <= j < i + 1 implies plan_matches(
                        session.records@.subrange(0, j),
                        from_beginning,
                        #[trigger] revisions@[j],
                        (if j < i { plans@[j] } else { plan }),
                    ) && record_matches(session.records@[j], (if j < i { plans@[j] } else { plan })) by {
                        if j < i {
                            assert(session.records@.subrange(0, j) =~= before.subrange(0, j));
                            assert(session.records@[j] == before[j]);
                        } else {
                            assert(session.records@.subrange(0, j) =~= before);
                        }
                    }
                    assert forall|j: int| 0 <= j < session.states@.len() implies #[trigger] session.states@[j]
                        == UploadState::Pending by {
                        if j < i {
                            assert(session.states@[j] == states_before[j]);
                        }
                    }
                }
                plans.push(plan);
            },
            Err(error) => {
                return Err((session, ImportFailure { index: i, error }));
            },
        }
        i = i + 1;
    }
    assert(i == revisions@.len());
    assert forall|j: int| 0 <= j < revisions@.len() implies plan_matches(
        session.records@.subrange(0, j),
        from_beginning,
        #[trigger] revisions@[j],
        plans@[j],
    ) && record_matches(session.records@[j], plans@[j]) by {}
    assert forall|j: int| 0 <= j < session.states@.len() implies #[trigger] session.states@[j]
        == UploadState::Pending by {}
    assert(import_planned(from_beginning, revisions@, session, plans@));
    Ok((session, plans))
}

/// A changeset of a session is never completed before those of its
/// parents that belong to the session.
pub proof fn lemma_completed_after_parents(s: ImportSession, h: int)
    requires
        s.wf(),
        0 <= h < s.records@.len(),
        s.states@[h] == UploadState::Completed,
    ensures
        session_parent(s.records@[h].p1) matches Some(j) ==> s.states@[j] == UploadState::Completed,
        session_parent(s.records@[h].p2) matches Some(j) ==> s.states@[j] == UploadState::Completed,
{
}

/// Two manifest entries are the same revision at the same place.
pub open spec fn same_entry(a: ChangedEntry, b: ChangedEntry) -> bool {
    opt_path_names(a.path) == opt_path_names(b.path) && opt_element_name(a.name) == opt_element_name(
        b.name,
    ) && a.node@ == b.node@
}

/// `e` is listed in manifest `m`.
pub open spec fn listed(m: Seq<ChangedEntry>, e: ChangedEntry) -> bool {
    exists|j: int| 0 <= j < m.len() && same_entry(#[trigger] m[j], e)
}

/// `e` is new relative to each parent manifest that is present.
pub open spec fn is_new_entry(
    e: ChangedEntry,
    p1: Option<Seq<ChangedEntry>>,
    p2: Option<Seq<ChangedEntry>>,
) -> bool {
    !(p1 matches Some(m) && listed(m, e)) && !(p2 matches Some(m) && listed(m, e))
}

/// The positions, ascending, of the first `n` entries of `root` that are
/// new relative to the parent manifests.
pub open spec fn new_positions(
    root: Seq<ChangedEntry>,
    p1: Option<Seq<ChangedEntry>>,
    p2: Option<Seq<ChangedEntry>>,
    n: int,
) -> Seq<usize>
    decreases n,
{
    if n <= 0 {
        Seq::empty()
    } else if is_new_entry(root[n - 1], p1, p2) {
        new_positions(root, p1, p2, n - 1).push((n - 1) as usize)
    } else {
        new_positions(root, p1, p2, n - 1)
    }
}

pub open spec fn opt_entries_view(m: Option<&Vec<ChangedEntry>>) -> Option<Seq<ChangedEntry>> {
    match m {
        Some(v) => Some(v@),
        None => None,
    }
}

/// Whether `e` is listed in `m`.
fn is_listed(m: &Vec<ChangedEntry>, e: &ChangedEntry) -> (r: bool)
    ensures
        r == listed(m@, *e),
{
    let mut j: usize = 0;
    while j < m.len()
        invariant
            j <= m@.len(),
            forall|k: int| 0 <= k < j ==> !same_entry(#[trigger] m@[k], *e),
        decreases m@.len() - j,
    {
        let c = &m[j];
        if opt_path_eq(&c.path, &e.path) && opt_element_eq(&c.name, &e.name) && c.node == e.node {
            assert(same_entry(m@[j as int], *e));
            return true;
        }
        j = j + 1;
    }
    false
}

/// The entries of a root manifest that changed relative to its parents'
/// manifests: those listed (same place, same revision) in no present
/// parent. Returns their positions in `root`, in order.
pub fn new_entry_intersection(
    root: &Vec<ChangedEntry>,
    p1: Option<&Vec<ChangedEntry>>,
    p2: Option<&Vec<ChangedEntry>>,
) -> (r: Vec<usize>)
    ensures
        r@ == new_positions(root@, opt_entries_view(p1), opt_entries_view(p2), root@.len() as int),
{
    let mut out: Vec<usize> = Vec::new();
    let mut i: usize = 0;
    while i < root.len()
        invariant
            i <= root@.len(),
            out@ == new_positions(root@, opt_entries_view(p1), opt_entries_view(p2), i as int),
        decreases root@.len() - i,
    {
        let in_p1 = match p1 {
            Some(m) => is_listed(m, &root[i]),
            None => false,
        };
        let in_p2 = match p2 {
            Some(m) => is_listed(m, &root[i]),
            None => false,
        };
        if !in_p1 && !in_p2 {
            out.push(i);
        }
        i = i + 1;
    }
    out
}

} // verus!
