//! The engine's operations as step machines. Each step takes the answer to
//! the previous request (or `Event::Start`) and returns the next request to
//! the file system, or the operation's result. Whoever drives a task performs
//! each request and hands back what came of it.

use vstd::prelude::*;
use crate::digest::{fingerprint, fingerprint_text};
use crate::engine::{chosen_meta, choose_meta, classify, conflict_name, conflict_name_of, status_of, Error, IoFailure, IoKind, LockReport, Loc, MetaFacts, RestoreReport, Status, Survey};
use crate::guard::{check, facts_match, refusal, refusal_text, Rules, TargetFacts};
use crate::meta::{Layout, LockState, Meta, PathStyle, UnlockExe, UNLOCK_EXE_NAME, VAULT_DIR, META_VERSION};

verus! {

// ---------- requests, answers, results ----------

/// A request to the file system (or, for `Verify`, to the password check).
#[derive(Debug)]
pub enum Action {
    /// Read what `guard::check` needs about the folder (see `TargetFacts`).
    Inspect,
    /// Read what the folder's status is decided from (see `Survey`).
    Survey,
    /// Read the state file and its temporary twin (see `MetaFacts`).
    LoadMeta,
    /// Read a place's metadata without following links: `Ok(is_dir)` or the failure.
    Probe(Loc),
    /// List the names in a directory.
    List(Loc),
    /// Read a file's bytes.
    Read(Loc),
    /// Check a password against a stored hash.
    Verify { password: String, hash: String },
    /// `Platform::create_dir`.
    CreateDir(Loc),
    /// `Platform::remove_dir` (only an empty directory goes).
    RemoveDir(Loc),
    /// `Platform::remove_file`.
    RemoveFile(Loc),
    /// `Platform::write_atomic` of the state file (its time stamp set at writing).
    WriteMeta(Meta),
    /// `Platform::copy_file_new` (fails if the target exists).
    CopyNew { from: Loc, to: Loc },
    /// `Platform::move_no_replace` (a rename; fails if the target exists).
    Move { from: Loc, to: Loc },
    Hide(Loc),
    Protect(Loc),
    Unprotect(Loc),
}

/// What came of the previous request.
#[derive(Debug)]
pub enum Event {
    /// Begins a task.
    Start,
    Inspected(TargetFacts),
    Surveyed(Survey),
    MetaLoaded(MetaFacts),
    Probed(Result<bool, IoFailure>),
    Listed(Result<Vec<String>, IoFailure>),
    Read(Result<Vec<u8>, IoFailure>),
    Verified(bool),
    Done(Result<(), IoFailure>),
}

/// What a finished task produced.
#[derive(Debug)]
pub enum Outcome {
    Locked(LockReport),
    Restored(RestoreReport),
    Now(Status),
    /// The password operation completed (or had nothing to do).
    Settled,
}

#[derive(Debug)]
pub enum Step {
    Do(Action),
    Finish(Result<Outcome, Error>),
}

// ---------- their values, for contracts ----------

pub enum LocV {
    Root,
    Vault,
    Data,
    Meta,
    MetaTmp,
    RootItem(Seq<char>),
    DataItem(Seq<char>),
    Source(Seq<char>),
}

pub struct ExeV {
    pub name: Seq<char>,
    pub sha256: Seq<char>,
}

pub struct MetaV {
    pub version: u32,
    pub state: LockState,
    pub password_hash: Seq<char>,
    pub unlock_exe: Option<ExeV>,
    pub updated_at: Seq<char>,
}

pub struct IoV {
    pub kind: IoKind,
    pub message: Seq<char>,
}

pub enum ActionV {
    Inspect,
    Survey,
    LoadMeta,
    Probe(LocV),
    List(LocV),
    Read(LocV),
    Verify(Seq<char>, Seq<char>),
    CreateDir(LocV),
    RemoveDir(LocV),
    RemoveFile(LocV),
    WriteMeta(MetaV),
    CopyNew(LocV, LocV),
    Move(LocV, LocV),
    Hide(LocV),
    Protect(LocV),
    Unprotect(LocV),
}

pub enum ErrorV {
    Guard(Seq<char>),
    AlreadyLocked,
    NotLocked,
    WrongPassword,
    NoPasswordInfo,
    Broken,
    Io(Seq<char>, IoV),
    Incomplete(Seq<(Seq<char>, IoV)>),
    RollbackFailed(Box<ErrorV>, Box<ErrorV>),
}

pub struct LockReportV {
    pub moved: usize,
    pub warnings: Seq<Seq<char>>,
}

pub struct RestoreReportV {
    pub restored: usize,
    pub renamed: Seq<(Seq<char>, Seq<char>)>,
    pub warnings: Seq<Seq<char>>,
}

pub enum OutcomeV {
    Locked(LockReportV),
    Restored(RestoreReportV),
    Now(Status),
    Settled,
}

pub enum StepV {
    Do(ActionV),
    Finish(Result<OutcomeV, ErrorV>),
}

impl View for Loc {
    type V = LocV;

    open spec fn view(&self) -> LocV {
        match self {
            Loc::Root => LocV::Root,
            Loc::Vault => LocV::Vault,
            Loc::Data => LocV::Data,
            Loc::Meta => LocV::Meta,
            Loc::MetaTmp => LocV::MetaTmp,
            Loc::RootItem(n) => LocV::RootItem(n@),
            Loc::DataItem(n) => LocV::DataItem(n@),
            Loc::Source(p) => LocV::Source(p@),
        }
    }
}

impl View for UnlockExe {
    type V = ExeV;

    open spec fn view(&self) -> ExeV {
        ExeV { name: self.name@, sha256: self.sha256@ }
    }
}

impl View for Meta {
    type V = MetaV;

    open spec fn view(&self) -> MetaV {
        MetaV {
            version: self.version,
            state: self.state,
            password_hash: self.password_hash@,
            unlock_exe: match self.unlock_exe {
                Some(e) => Some(e@),
                None => None,
            },
            updated_at: self.updated_at@,
        }
    }
}

impl View for IoFailure {
    type V = IoV;

    open spec fn view(&self) -> IoV {
        IoV { kind: self.kind, message: self.message@ }
    }
}

pub open spec fn failures_view(f: Seq<(String, IoFailure)>) -> Seq<(Seq<char>, IoV)> {
    Seq::new(f.len(), |i: int| (f[i].0@, f[i].1@))
}

pub open spec fn texts(v: Seq<String>) -> Seq<Seq<char>> {
    Seq::new(v.len(), |i: int| v[i]@)
}

pub open spec fn pairs(v: Seq<(String, String)>) -> Seq<(Seq<char>, Seq<char>)> {
    Seq::new(v.len(), |i: int| (v[i].0@, v[i].1@))
}

impl View for Error {
    type V = ErrorV;

    open spec fn view(&self) -> ErrorV
        decreases self,
    {
        match self {
            Error::Guard(m) => ErrorV::Guard(m@),
            Error::AlreadyLocked => ErrorV::AlreadyLocked,
            Error::NotLocked => ErrorV::NotLocked,
            Error::WrongPassword => ErrorV::WrongPassword,
            Error::NoPasswordInfo => ErrorV::NoPasswordInfo,
            Error::Broken => ErrorV::Broken,
            Error::Io { context, source } => ErrorV::Io(context@, source@),
            Error::Incomplete { failed } => ErrorV::Incomplete(failures_view(failed@)),
            Error::RollbackFailed { cause, rollback } => ErrorV::RollbackFailed(
                Box::new((**cause).view()),
                Box::new((**rollback).view()),
            ),
        }
    }
}

impl View for LockReport {
    type V = LockReportV;

    open spec fn view(&self) -> LockReportV {
        LockReportV { moved: self.moved, warnings: texts(self.warnings@) }
    }
}

impl View for RestoreReport {
    type V = RestoreReportV;

    open spec fn view(&self) -> RestoreReportV {
        RestoreReportV {
            restored: self.restored,
            renamed: pairs(self.renamed@),
            warnings: texts(self.warnings@),
        }
    }
}

impl View for Action {
    type V = ActionV;

    open spec fn view(&self) -> ActionV {
        match self {
            Action::Inspect => ActionV::Inspect,
            Action::Survey => ActionV::Survey,
            Action::LoadMeta => ActionV::LoadMeta,
            Action::Probe(l) => ActionV::Probe(l@),
            Action::List(l) => ActionV::List(l@),
            Action::Read(l) => ActionV::Read(l@),
            Action::Verify { password, hash } => ActionV::Verify(password@, hash@),
            Action::CreateDir(l) => ActionV::CreateDir(l@),
            Action::RemoveDir(l) => ActionV::RemoveDir(l@),
            Action::RemoveFile(l) => ActionV::RemoveFile(l@),
            Action::WriteMeta(m) => ActionV::WriteMeta(m@),
            Action::CopyNew { from, to } => ActionV::CopyNew(from@, to@),
            Action::Move { from, to } => ActionV::Move(from@, to@),
            Action::Hide(l) => ActionV::Hide(l@),
            Action::Protect(l) => ActionV::Protect(l@),
            Action::Unprotect(l) => ActionV::Unprotect(l@),
        }
    }
}

impl View for Outcome {
    type V = OutcomeV;

    open spec fn view(&self) -> OutcomeV {
        match self {
            Outcome::Locked(r) => OutcomeV::Locked(r@),
            Outcome::Restored(r) => OutcomeV::Restored(r@),
            Outcome::Now(s) => OutcomeV::Now(*s),
            Outcome::Settled => OutcomeV::Settled,
        }
    }
}

impl View for Step {
    type V = StepV;

    open spec fn view(&self) -> StepV {
        match self {
            Step::Do(a) => StepV::Do(a@),
            Step::Finish(Ok(o)) => StepV::Finish(Ok(o@)),
            Step::Finish(Err(e)) => StepV::Finish(Err(e@)),
        }
    }
}

} // verus!

verus! {

// ---------- the machine's state ----------

/// Which operation a task carries out.
#[derive(Clone, Copy, Debug, PartialEq, Eq, Structural)]
pub enum Op {
    Lock,
    Unlock,
    Emergency,
    Resume,
    SetPassword,
}

/// Where a stale-vault cleanup returns to.
#[derive(Clone, Copy, Debug, PartialEq, Eq, Structural)]
pub enum CleanupFor {
    /// Locking found a stale vault.
    LockStale,
    /// Locking could not write the state file; the stored cause is returned.
    LockAbort,
    /// Resuming found a stale vault.
    ResumeStale,
}

#[derive(Clone, Copy, Debug, PartialEq, Eq, Structural)]
pub enum RestoreFor {
    /// Undoing a failed lock; the stored cause is returned.
    Rollback,
    /// Unlocking or emergency restore; the report is returned.
    Report,
    /// Resuming an interrupted unlock.
    ResumeUnlocking,
}

#[derive(Clone, Copy, Debug, PartialEq, Eq, Structural)]
pub enum DirsFor {
    Cleanup(CleanupFor),
    Restore(RestoreFor),
}

#[derive(Clone, Copy, Debug, PartialEq, Eq, Structural)]
pub enum FinishFor {
    Lock,
    Resume,
}

#[derive(Clone, Copy, Debug, PartialEq, Eq, Structural)]
pub enum ProtectFor {
    Finish(FinishFor),
    ResumeLocked,
    SetPassword,
}

#[derive(Clone, Copy, Debug, PartialEq, Eq, Structural)]
pub enum OpenFor {
    Restore(RestoreFor),
    ResumeLocking,
}

/// What the task is waiting for.
#[derive(Clone, Copy, Debug, PartialEq, Eq, Structural)]
pub enum Phase {
    Ready,
    Finished,
    LockInspect,
    LockSurvey,
    LockVaultGone,
    LockHashSource,
    LockCreateVault,
    LockWriteMeta,
    UnlockSurvey,
    UnlockMeta,
    UnlockVerify,
    ResumeSurvey,
    ResumeResurvey,
    ResumeMeta,
    PwSurvey,
    PwMeta,
    PwUnprotect,
    PwWrite,
    CleanupTmp(CleanupFor),
    DirsData(DirsFor),
    DirsVault(DirsFor),
    ProtectHide(ProtectFor),
    ProtectData(ProtectFor),
    ProtectVault(ProtectFor),
    FinishProbeData(FinishFor),
    FinishCreateData(FinishFor),
    FinishList(FinishFor),
    FinishHashItem(FinishFor),
    FinishMove(FinishFor),
    FinishProbeExe(FinishFor),
    FinishCopyExe(FinishFor),
    FinishWrite(FinishFor),
    OpenProbeVault(OpenFor),
    OpenVault(OpenFor),
    OpenProbeData(OpenFor),
    OpenData(OpenFor),
    RestoreMeta(RestoreFor),
    RestoreMark(RestoreFor),
    RestoreHashExe(RestoreFor),
    RestoreRemoveExe(RestoreFor),
    RestoreProbeData(RestoreFor),
    RestoreList(RestoreFor),
    RestoreProbeItem(RestoreFor),
    RestoreProbeTarget(RestoreFor),
    RestoreMove(RestoreFor),
    RestoreRemoveMeta(RestoreFor),
    RestoreRemoveTmp(RestoreFor),
}

/// What a task was asked to do, fixed for its whole run.
#[derive(Debug)]
pub struct Setup {
    pub op: Op,
    pub layout: Layout,
    pub style: PathStyle,
    pub rules: Rules,
    /// The password hash to store (locking) or the new one (changing the password).
    pub hash: String,
    /// The password given for unlocking.
    pub password: String,
    /// The spare hash to check against when the state file is gone (unlocking).
    pub fallback: Option<String>,
    /// The unlock program to copy into the folder, if any (locking, resuming).
    pub exe_src: Option<String>,
}

/// What a task has gathered so far.
#[derive(Debug)]
pub struct Work {
    pub phase: Phase,
    /// The state file being written (locking, changing the password) or the one read (restoring).
    pub meta: Option<Meta>,
    pub locked: LockReport,
    pub restored: RestoreReport,
    /// A directory listing, in sorted order, and the position reached in it.
    pub names: Vec<String>,
    pub scan_at: usize,
    /// The items still to move into the vault, and the position reached.
    pub pending: Vec<String>,
    pub move_at: usize,
    /// Items that could not be put back.
    pub failed: Vec<(String, IoFailure)>,
    /// The error to report once undoing or cleaning up is over.
    pub cause: Option<Error>,
    /// Warnings met while cleaning up a stale vault.
    pub notes: Vec<String>,
    /// Restoring one item: which name variant is being tried, whether it is a directory, and the name.
    pub attempt: usize,
    pub is_dir: bool,
    pub candidate: String,
}

pub struct WorkV {
    pub phase: Phase,
    pub meta: Option<MetaV>,
    pub moved: usize,
    pub lock_warnings: Seq<Seq<char>>,
    pub restored: usize,
    pub renamed: Seq<(Seq<char>, Seq<char>)>,
    pub restore_warnings: Seq<Seq<char>>,
    pub names: Seq<Seq<char>>,
    pub scan_at: usize,
    pub pending: Seq<Seq<char>>,
    pub move_at: usize,
    pub failed: Seq<(Seq<char>, IoV)>,
    pub cause: Option<ErrorV>,
    pub notes: Seq<Seq<char>>,
    pub attempt: usize,
    pub is_dir: bool,
    pub candidate: Seq<char>,
}

pub open spec fn meta_view(m: Option<Meta>) -> Option<MetaV> {
    match m {
        Some(x) => Some(x@),
        None => None,
    }
}

impl View for Work {
    type V = WorkV;

    open spec fn view(&self) -> WorkV {
        WorkV {
            phase: self.phase,
            meta: meta_view(self.meta),
            moved: self.locked.moved,
            lock_warnings: texts(self.locked.warnings@),
            restored: self.restored.restored,
            renamed: pairs(self.restored.renamed@),
            restore_warnings: texts(self.restored.warnings@),
            names: texts(self.names@),
            scan_at: self.scan_at,
            pending: texts(self.pending@),
            move_at: self.move_at,
            failed: failures_view(self.failed@),
            cause: match self.cause {
                Some(e) => Some(e@),
                None => None,
            },
            notes: texts(self.notes@),
            attempt: self.attempt,
            is_dir: self.is_dir,
            candidate: self.candidate@,
        }
    }
}

/// Sorts names with `slice::sort` (by `String`'s `Ord`).
/// Trusted: afterwards they are in ascending order, and they are the same
/// names, each as often as before.
#[verifier::external_body]
fn sort_names(names: &mut Vec<String>)
    ensures
        vstd::relations::sorted_by(texts(final(names)@), crate::text::text_order()),
        texts(final(names)@).to_multiset() == texts(old(names)@).to_multiset(),
{
    names.sort();
}

} // verus!

verus! {

// ---------- the machine, as values ----------

pub open spec fn emit(w: WorkV, p: Phase, a: ActionV) -> (WorkV, StepV) {
    (WorkV { phase: p, ..w }, StepV::Do(a))
}

pub open spec fn finish(w: WorkV, r: Result<OutcomeV, ErrorV>) -> (WorkV, StepV) {
    (WorkV { phase: Phase::Finished, ..w }, StepV::Finish(r))
}

pub open spec fn io(context: Seq<char>, e: IoFailure) -> ErrorV {
    ErrorV::Io(context, e@)
}

/// The folder's status as the engine reports it.
pub open spec fn classified(s: Survey) -> Result<Status, ErrorV> {
    match status_of(s) {
        Ok(st) => Ok(st),
        Err(e) => Err(io("보관 폴더 확인"@, e)),
    }
}

/// The state file a new lock writes first.
pub open spec fn fresh_meta(s: Setup, exe: Option<ExeV>) -> MetaV {
    MetaV { version: META_VERSION, state: LockState::Locking, password_hash: s.hash@, unlock_exe: exe, updated_at: Seq::empty() }
}

/// `name` is the name under which the state file says the unlock program was placed.
pub open spec fn exe_named(m: Option<MetaV>, name: Seq<char>) -> bool {
    m matches Some(mm) && mm.unlock_exe matches Some(e) && e.name == name
}

pub open spec fn exe_of(w: WorkV) -> ExeV {
    w.meta.unwrap().unlock_exe.unwrap()
}

pub open spec fn start(s: Setup, w: WorkV) -> (WorkV, StepV) {
    match s.op {
        Op::Lock => emit(w, Phase::LockInspect, ActionV::Inspect),
        Op::Unlock => emit(w, Phase::UnlockSurvey, ActionV::Survey),
        Op::Emergency => begin_restore(w, RestoreFor::Report),
        Op::Resume => emit(w, Phase::ResumeSurvey, ActionV::Survey),
        Op::SetPassword => emit(w, Phase::PwSurvey, ActionV::Survey),
    }
}

// ----- locking -----

pub open spec fn begin_lock_body(s: Setup, w: WorkV) -> (WorkV, StepV) {
    match s.exe_src {
        Some(src) => emit(w, Phase::LockHashSource, ActionV::Read(LocV::Source(src@))),
        None => emit(WorkV { meta: Some(fresh_meta(s, None)), ..w }, Phase::LockCreateVault, ActionV::CreateDir(LocV::Vault)),
    }
}

pub open spec fn on_lock_inspect(s: Setup, w: WorkV, facts: TargetFacts, absolute: bool, has_parent: bool) -> (WorkV, StepV) {
    match refusal(absolute, facts, has_parent, s.style) {
        None => emit(w, Phase::LockSurvey, ActionV::Survey),
        Some(why) => finish(w, Err(ErrorV::Guard(refusal_text(why, facts, s.rules)))),
    }
}

pub open spec fn on_lock_survey(s: Setup, w: WorkV, sv: Survey) -> (WorkV, StepV) {
    match classified(sv) {
        Err(e) => finish(w, Err(e)),
        Ok(Status::Unlocked) => begin_lock_body(s, w),
        Ok(Status::Stale) => begin_cleanup(w, CleanupFor::LockStale),
        Ok(_) => finish(w, Err(ErrorV::AlreadyLocked)),
    }
}

pub open spec fn on_lock_vault_gone(s: Setup, w: WorkV, r: Result<bool, IoFailure>) -> (WorkV, StepV) {
    if r is Ok {
        finish(w, Err(ErrorV::AlreadyLocked))
    } else {
        begin_lock_body(s, w)
    }
}

pub open spec fn on_lock_hash_source(s: Setup, w: WorkV, r: Result<Vec<u8>, IoFailure>) -> (WorkV, StepV) {
    match r {
        Err(e) => finish(w, Err(io("잠금 해제 실행 파일 읽기"@, e))),
        Ok(b) => {
            let exe = ExeV { name: UNLOCK_EXE_NAME@, sha256: fingerprint(b@) };
            emit(WorkV { meta: Some(fresh_meta(s, Some(exe))), ..w }, Phase::LockCreateVault, ActionV::CreateDir(LocV::Vault))
        },
    }
}

pub open spec fn on_lock_create_vault(w: WorkV, r: Result<(), IoFailure>) -> (WorkV, StepV) {
    match r {
        Err(e) => finish(w, Err(io("보관 폴더 만들기"@, e))),
        Ok(_) => emit(w, Phase::LockWriteMeta, ActionV::WriteMeta(w.meta.unwrap())),
    }
}

pub open spec fn on_lock_write_meta(s: Setup, w: WorkV, r: Result<(), IoFailure>) -> (WorkV, StepV) {
    match r {
        Err(e) => begin_cleanup(WorkV { cause: Some(io("상태 파일 기록"@, e)), ..w }, CleanupFor::LockAbort),
        Ok(_) => begin_finish(w, FinishFor::Lock),
    }
}

// ----- cleaning up a stale vault -----

pub open spec fn begin_cleanup(w: WorkV, f: CleanupFor) -> (WorkV, StepV) {
    emit(w, Phase::CleanupTmp(f), ActionV::RemoveFile(LocV::MetaTmp))
}

pub open spec fn on_cleanup_tmp(s: Setup, w: WorkV, f: CleanupFor, r: Result<(), IoFailure>) -> (WorkV, StepV) {
    match r {
        Err(e) if e.kind != IoKind::NotFound => cleanup_done(w, f, Err(io("임시 상태 파일 정리"@, e))),
        _ => begin_dirs(WorkV { notes: Seq::empty(), ..w }, DirsFor::Cleanup(f)),
    }
}

pub open spec fn cleanup_done(w: WorkV, f: CleanupFor, r: Result<(), ErrorV>) -> (WorkV, StepV) {
    match f {
        CleanupFor::LockStale => match r {
            Err(e) => finish(w, Err(e)),
            Ok(_) => emit(w, Phase::LockVaultGone, ActionV::Probe(LocV::Vault)),
        },
        CleanupFor::LockAbort => finish(WorkV { cause: None, ..w }, Err(w.cause.unwrap())),
        CleanupFor::ResumeStale => match r {
            Err(e) => finish(w, Err(e)),
            Ok(_) => emit(w, Phase::ResumeResurvey, ActionV::Survey),
        },
    }
}

// ----- removing the vault's directories when empty -----

pub open spec fn begin_dirs(w: WorkV, t: DirsFor) -> (WorkV, StepV) {
    emit(w, Phase::DirsData(t), ActionV::RemoveDir(LocV::Data))
}

pub open spec fn dir_warning(dir: Seq<char>, e: IoFailure) -> Seq<char> {
    "'"@ + dir + "' 폴더에 알 수 없는 파일이 남아 있어 지우지 않았습니다: "@ + e.message@
}

pub open spec fn note_dir(w: WorkV, t: DirsFor, dir: Seq<char>, r: Result<(), IoFailure>) -> WorkV {
    match r {
        Err(e) if e.kind != IoKind::NotFound => match t {
            DirsFor::Cleanup(_) => WorkV { notes: w.notes.push(dir_warning(dir, e)), ..w },
            DirsFor::Restore(_) => WorkV { restore_warnings: w.restore_warnings.push(dir_warning(dir, e)), ..w },
        },
        _ => w,
    }
}

pub open spec fn dirs_done(w: WorkV, t: DirsFor) -> (WorkV, StepV) {
    match t {
        DirsFor::Cleanup(f) => cleanup_done(w, f, if w.notes.len() > 0 { Err(ErrorV::Guard(w.notes[0])) } else { Ok(()) }),
        DirsFor::Restore(g) => restore_done(w, g, Ok(())),
    }
}

pub open spec fn on_dirs_data(s: Setup, w: WorkV, t: DirsFor, r: Result<(), IoFailure>) -> (WorkV, StepV) {
    emit(note_dir(w, t, s.layout.data@, r), Phase::DirsVault(t), ActionV::RemoveDir(LocV::Vault))
}

pub open spec fn on_dirs_vault(s: Setup, w: WorkV, t: DirsFor, r: Result<(), IoFailure>) -> (WorkV, StepV) {
    dirs_done(note_dir(w, t, s.layout.vault@, r), t)
}

// ----- moving the items into the vault -----

pub open spec fn begin_finish(w: WorkV, f: FinishFor) -> (WorkV, StepV) {
    emit(WorkV { moved: 0, lock_warnings: Seq::empty(), ..w }, Phase::FinishProbeData(f), ActionV::Probe(LocV::Data))
}

pub open spec fn on_finish_probe_data(w: WorkV, f: FinishFor, r: Result<bool, IoFailure>) -> (WorkV, StepV) {
    if r is Ok {
        emit(w, Phase::FinishList(f), ActionV::List(LocV::Root))
    } else {
        emit(w, Phase::FinishCreateData(f), ActionV::CreateDir(LocV::Data))
    }
}

pub open spec fn on_finish_create_data(s: Setup, w: WorkV, f: FinishFor, r: Result<(), IoFailure>) -> (WorkV, StepV) {
    match r {
        Err(e) => finish_done(w, f, Err(io("보관 폴더 만들기"@, e))),
        Ok(_) => emit(w, Phase::FinishList(f), ActionV::List(LocV::Root)),
    }
}

pub open spec fn on_finish_list(s: Setup, w: WorkV, f: FinishFor, r: Result<Vec<String>, IoFailure>) -> (WorkV, StepV) {
    match r {
        Err(e) => finish_done(w, f, Err(io("폴더 목록 읽기"@, e))),
        Ok(v) => scan(s, WorkV { names: crate::text::sorted_texts(texts(v@)), scan_at: 0, pending: Seq::empty(), ..w }, f),
    }
}

/// Goes through the folder's listing from `scan_at`: the vault is skipped, an
/// item named like the unlock program is read to check its fingerprint, every
/// other item joins the items to move.
pub open spec fn scan(s: Setup, w: WorkV, f: FinishFor) -> (WorkV, StepV)
    decreases w.names.len() - w.scan_at
{
    if w.scan_at >= w.names.len() || w.scan_at >= usize::MAX {
        begin_moves(s, w, f)
    } else {
        let name = w.names[w.scan_at as int];
        if name == VAULT_DIR@ {
            scan(s, WorkV { scan_at: (w.scan_at + 1) as usize, ..w }, f)
        } else if exe_named(w.meta, name) {
            emit(w, Phase::FinishHashItem(f), ActionV::Read(LocV::RootItem(name)))
        } else {
            scan(s, WorkV { pending: w.pending.push(name), scan_at: (w.scan_at + 1) as usize, ..w }, f)
        }
    }
}

/// The item named like the unlock program stays only if it is the copy the engine placed.
pub open spec fn on_finish_hash_item(s: Setup, w: WorkV, f: FinishFor, r: Result<Vec<u8>, IoFailure>) -> (WorkV, StepV) {
    let name = w.names[w.scan_at as int];
    let ours = r matches Ok(b) && fingerprint(b@) == exe_of(w).sha256;
    let w1 = WorkV {
        pending: if ours { w.pending } else { w.pending.push(name) },
        scan_at: (w.scan_at + 1) as usize,
        ..w
    };
    scan(s, w1, f)
}

pub open spec fn begin_moves(s: Setup, w: WorkV, f: FinishFor) -> (WorkV, StepV) {
    next_move(s, WorkV { move_at: 0, ..w }, f)
}

pub open spec fn next_move(s: Setup, w: WorkV, f: FinishFor) -> (WorkV, StepV) {
    if w.move_at < w.pending.len() {
        let p = w.pending[w.move_at as int];
        emit(w, Phase::FinishMove(f), ActionV::Move(LocV::RootItem(p), LocV::DataItem(p)))
    } else {
        after_moves(s, w, f)
    }
}

pub open spec fn move_context(p: Seq<char>) -> Seq<char> {
    "'"@ + p + "' 옮기기 실패 (다른 프로그램이 사용 중일 수 있습니다)"@
}

pub open spec fn on_finish_move(s: Setup, w: WorkV, f: FinishFor, r: Result<(), IoFailure>) -> (WorkV, StepV) {
    match r {
        Err(e) => finish_done(w, f, Err(io(move_context(w.pending[w.move_at as int]), e))),
        Ok(_) => next_move(s, WorkV { moved: (w.moved + 1) as usize, move_at: (w.move_at + 1) as usize, ..w }, f),
    }
}

pub open spec fn after_moves(s: Setup, w: WorkV, f: FinishFor) -> (WorkV, StepV) {
    if s.exe_src is Some && w.meta.unwrap().unlock_exe is Some {
        emit(w, Phase::FinishProbeExe(f), ActionV::Probe(LocV::RootItem(exe_of(w).name)))
    } else {
        write_locked(w, f)
    }
}

pub open spec fn on_finish_probe_exe(s: Setup, w: WorkV, f: FinishFor, r: Result<bool, IoFailure>) -> (WorkV, StepV) {
    if r is Ok {
        write_locked(w, f)
    } else {
        emit(w, Phase::FinishCopyExe(f), ActionV::CopyNew(LocV::Source(s.exe_src.unwrap()@), LocV::RootItem(exe_of(w).name)))
    }
}

pub open spec fn on_finish_copy_exe(w: WorkV, f: FinishFor, r: Result<(), IoFailure>) -> (WorkV, StepV) {
    match r {
        Err(e) => write_locked(
            WorkV { lock_warnings: w.lock_warnings.push("잠금 해제 실행 파일을 폴더에 넣지 못했습니다: "@ + e.message@), ..w },
            f,
        ),
        Ok(_) => write_locked(w, f),
    }
}

pub open spec fn write_locked(w: WorkV, f: FinishFor) -> (WorkV, StepV) {
    let m = MetaV { state: LockState::Locked, ..w.meta.unwrap() };
    emit(WorkV { meta: Some(m), ..w }, Phase::FinishWrite(f), ActionV::WriteMeta(m))
}

pub open spec fn on_finish_write(w: WorkV, f: FinishFor, r: Result<(), IoFailure>) -> (WorkV, StepV) {
    match r {
        Err(e) => finish_done(w, f, Err(io("상태 파일 기록"@, e))),
        Ok(_) => begin_protect(w, ProtectFor::Finish(f)),
    }
}

/// A finished move-in returns its report, or rolls back and reports why.
pub open spec fn finish_done(w: WorkV, f: FinishFor, r: Result<(), ErrorV>) -> (WorkV, StepV) {
    match r {
        Ok(_) => match f {
            FinishFor::Lock => finish(
                WorkV { moved: 0, lock_warnings: Seq::empty(), ..w },
                Ok(OutcomeV::Locked(LockReportV { moved: w.moved, warnings: w.lock_warnings })),
            ),
            FinishFor::Resume => finish(w, Ok(OutcomeV::Now(Status::Locked))),
        },
        Err(e) => begin_restore(WorkV { cause: Some(e), ..w }, RestoreFor::Rollback),
    }
}

// ----- hiding and protecting the vault -----

pub open spec fn begin_protect(w: WorkV, t: ProtectFor) -> (WorkV, StepV) {
    emit(w, Phase::ProtectHide(t), ActionV::Hide(LocV::Vault))
}

pub open spec fn on_protect_hide(w: WorkV, t: ProtectFor, r: Result<(), IoFailure>) -> (WorkV, StepV) {
    match r {
        Err(e) => protect_done(w, t, Err(io("보관 폴더 숨기기"@, e))),
        Ok(_) => emit(w, Phase::ProtectData(t), ActionV::Protect(LocV::Data)),
    }
}

pub open spec fn on_protect_data(w: WorkV, t: ProtectFor, r: Result<(), IoFailure>) -> (WorkV, StepV) {
    match r {
        Err(e) => protect_done(w, t, Err(io("보관 폴더 접근 차단"@, e))),
        Ok(_) => emit(w, Phase::ProtectVault(t), ActionV::Protect(LocV::Vault)),
    }
}

pub open spec fn on_protect_vault(w: WorkV, t: ProtectFor, r: Result<(), IoFailure>) -> (WorkV, StepV) {
    match r {
        Err(e) => protect_done(w, t, Err(io("보관 폴더 접근 차단"@, e))),
        Ok(_) => protect_done(w, t, Ok(())),
    }
}

pub open spec fn protect_done(w: WorkV, t: ProtectFor, r: Result<(), ErrorV>) -> (WorkV, StepV) {
    match t {
        ProtectFor::Finish(f) => finish_done(w, f, r),
        ProtectFor::ResumeLocked => finish(w, match r {
            Ok(_) => Ok(OutcomeV::Now(Status::Locked)),
            Err(e) => Err(e),
        }),
        ProtectFor::SetPassword => finish(WorkV { cause: None, ..w }, match r {
            Err(e) => Err(e),
            Ok(_) => match w.cause {
                None => Ok(OutcomeV::Settled),
                Some(e) => Err(e),
            },
        }),
    }
}

// ----- opening the vault -----

pub open spec fn begin_open(w: WorkV, t: OpenFor) -> (WorkV, StepV) {
    emit(w, Phase::OpenProbeVault(t), ActionV::Probe(LocV::Vault))
}

pub open spec fn on_open_probe_vault(w: WorkV, t: OpenFor, r: Result<bool, IoFailure>) -> (WorkV, StepV) {
    if r is Ok {
        emit(w, Phase::OpenVault(t), ActionV::Unprotect(LocV::Vault))
    } else {
        emit(w, Phase::OpenProbeData(t), ActionV::Probe(LocV::Data))
    }
}

pub open spec fn on_open_vault(w: WorkV, t: OpenFor, r: Result<(), IoFailure>) -> (WorkV, StepV) {
    match r {
        Err(e) => open_done(w, t, Err(io("보관 폴더 접근 허용"@, e))),
        Ok(_) => emit(w, Phase::OpenProbeData(t), ActionV::Probe(LocV::Data)),
    }
}

pub open spec fn on_open_probe_data(w: WorkV, t: OpenFor, r: Result<bool, IoFailure>) -> (WorkV, StepV) {
    if r is Ok {
        emit(w, Phase::OpenData(t), ActionV::Unprotect(LocV::Data))
    } else {
        open_done(w, t, Ok(()))
    }
}

pub open spec fn on_open_data(w: WorkV, t: OpenFor, r: Result<(), IoFailure>) -> (WorkV, StepV) {
    match r {
        Err(e) => open_done(w, t, Err(io("보관 폴더 접근 허용"@, e))),
        Ok(_) => open_done(w, t, Ok(())),
    }
}

pub open spec fn open_done(w: WorkV, t: OpenFor, r: Result<(), ErrorV>) -> (WorkV, StepV) {
    match t {
        OpenFor::Restore(g) => match r {
            Err(e) => restore_done(w, g, Err(e)),
            Ok(_) => emit(w, Phase::RestoreMeta(g), ActionV::LoadMeta),
        },
        OpenFor::ResumeLocking => match r {
            Err(e) => finish(w, Err(e)),
            Ok(_) => begin_finish(w, FinishFor::Resume),
        },
    }
}

// ----- putting everything back -----

pub open spec fn begin_restore(w: WorkV, g: RestoreFor) -> (WorkV, StepV) {
    begin_open(
        WorkV { restored: 0, renamed: Seq::empty(), restore_warnings: Seq::empty(), failed: Seq::empty(), ..w },
        OpenFor::Restore(g),
    )
}

pub open spec fn on_restore_meta(w: WorkV, g: RestoreFor, f: MetaFacts) -> (WorkV, StepV) {
    let m = meta_view(chosen_meta(f));
    let w1 = WorkV { meta: m, ..w };
    match m {
        Some(mm) => if mm.state != LockState::Unlocking {
            emit(w1, Phase::RestoreMark(g), ActionV::WriteMeta(MetaV { state: LockState::Unlocking, ..mm }))
        } else {
            after_mark(w1, g)
        },
        None => after_mark(w1, g),
    }
}

pub open spec fn on_restore_mark(w: WorkV, g: RestoreFor, r: Result<(), IoFailure>) -> (WorkV, StepV) {
    match r {
        Err(e) => restore_done(w, g, Err(io("상태 파일 기록"@, e))),
        Ok(_) => after_mark(w, g),
    }
}

pub open spec fn probe_data(w: WorkV, g: RestoreFor) -> (WorkV, StepV) {
    emit(w, Phase::RestoreProbeData(g), ActionV::Probe(LocV::Data))
}

pub open spec fn after_mark(w: WorkV, g: RestoreFor) -> (WorkV, StepV) {
    if w.meta matches Some(m) && m.unlock_exe is Some {
        emit(w, Phase::RestoreHashExe(g), ActionV::Read(LocV::RootItem(exe_of(w).name)))
    } else {
        probe_data(w, g)
    }
}

pub open spec fn warn(w: WorkV, m: Seq<char>) -> WorkV {
    WorkV { restore_warnings: w.restore_warnings.push(m), ..w }
}

/// The unlock program is deleted only when its fingerprint is the one recorded.
pub open spec fn on_restore_hash_exe(w: WorkV, g: RestoreFor, r: Result<Vec<u8>, IoFailure>) -> (WorkV, StepV) {
    let e = exe_of(w);
    match r {
        Ok(b) => if fingerprint(b@) == e.sha256 {
            emit(w, Phase::RestoreRemoveExe(g), ActionV::RemoveFile(LocV::RootItem(e.name)))
        } else {
            probe_data(warn(w, "'"@ + e.name + "'가 처음 넣은 파일과 달라 그대로 두었습니다."@), g)
        },
        Err(x) => if x.kind == IoKind::NotFound {
            probe_data(w, g)
        } else {
            probe_data(warn(w, "'"@ + e.name + "' 확인 실패: "@ + x.message@), g)
        },
    }
}

pub open spec fn on_restore_remove_exe(w: WorkV, g: RestoreFor, r: Result<(), IoFailure>) -> (WorkV, StepV) {
    match r {
        Err(x) => probe_data(warn(w, "'"@ + exe_of(w).name + "'를 지우지 못했습니다. 직접 지워도 됩니다: "@ + x.message@), g),
        Ok(_) => probe_data(w, g),
    }
}

pub open spec fn on_restore_probe_data(w: WorkV, g: RestoreFor, r: Result<bool, IoFailure>) -> (WorkV, StepV) {
    if r is Ok {
        emit(w, Phase::RestoreList(g), ActionV::List(LocV::Data))
    } else {
        after_items(w, g)
    }
}

pub open spec fn on_restore_list(w: WorkV, g: RestoreFor, r: Result<Vec<String>, IoFailure>) -> (WorkV, StepV) {
    match r {
        Err(e) => restore_done(w, g, Err(io("보관 폴더 목록 읽기"@, e))),
        Ok(v) => next_item(WorkV { names: crate::text::sorted_texts(texts(v@)), scan_at: 0, ..w }, g),
    }
}

pub open spec fn next_item(w: WorkV, g: RestoreFor) -> (WorkV, StepV) {
    if w.scan_at < w.names.len() {
        emit(w, Phase::RestoreProbeItem(g), ActionV::Probe(LocV::DataItem(w.names[w.scan_at as int])))
    } else {
        after_items(w, g)
    }
}

pub open spec fn fail_item(w: WorkV, e: IoV) -> WorkV {
    WorkV { failed: w.failed.push((w.names[w.scan_at as int], e)), scan_at: (w.scan_at + 1) as usize, ..w }
}

pub open spec fn on_restore_probe_item(w: WorkV, g: RestoreFor, r: Result<bool, IoFailure>) -> (WorkV, StepV) {
    match r {
        Err(e) => next_item(fail_item(w, e@), g),
        Ok(d) => seek(WorkV { is_dir: d, attempt: 0, ..w }, g),
    }
}

/// The name tried at attempt `k`: the item's own name first, then its variants.
pub open spec fn candidate_of(name: Seq<char>, k: int, is_dir: bool) -> Seq<char> {
    if k == 0 {
        name
    } else {
        conflict_name_of(name, k as nat, is_dir)
    }
}

pub open spec fn usable(name: Seq<char>, is_dir: bool) -> spec_fn(int) -> bool {
    |k: int| candidate_of(name, k, is_dir) != VAULT_DIR@
}

pub open spec fn no_free_name() -> Seq<char> {
    "겹치지 않는 이름을 찾지 못했습니다"@
}

/// The next name to try, from attempt `attempt` on (at most 1000 attempts);
/// the vault's own name is never used.
pub open spec fn seek(w: WorkV, g: RestoreFor) -> (WorkV, StepV) {
    let name = w.names[w.scan_at as int];
    let k = crate::guard::first_from(w.attempt as int, 1000, usable(name, w.is_dir));
    if k < 1000 {
        let c = candidate_of(name, k, w.is_dir);
        emit(WorkV { attempt: k as usize, candidate: c, ..w }, Phase::RestoreProbeTarget(g), ActionV::Probe(LocV::RootItem(c)))
    } else {
        next_item(fail_item(WorkV { attempt: 1000, ..w }, IoV { kind: IoKind::Other, message: no_free_name() }), g)
    }
}

pub open spec fn on_restore_probe_target(w: WorkV, g: RestoreFor, r: Result<bool, IoFailure>) -> (WorkV, StepV) {
    if r is Ok {
        seek(WorkV { attempt: (w.attempt + 1) as usize, ..w }, g)
    } else {
        emit(w, Phase::RestoreMove(g), ActionV::Move(LocV::DataItem(w.names[w.scan_at as int]), LocV::RootItem(w.candidate)))
    }
}

pub open spec fn on_restore_move(w: WorkV, g: RestoreFor, r: Result<(), IoFailure>) -> (WorkV, StepV) {
    match r {
        Ok(_) => next_item(
            WorkV {
                restored: (w.restored + 1) as usize,
                renamed: if w.attempt == 0 { w.renamed } else { w.renamed.push((w.names[w.scan_at as int], w.candidate)) },
                scan_at: (w.scan_at + 1) as usize,
                ..w
            },
            g,
        ),
        Err(e) => if e.kind == IoKind::AlreadyExists {
            seek(WorkV { attempt: (w.attempt + 1) as usize, ..w }, g)
        } else {
            next_item(fail_item(w, e@), g)
        },
    }
}

pub open spec fn after_items(w: WorkV, g: RestoreFor) -> (WorkV, StepV) {
    if w.failed.len() > 0 {
        restore_done(WorkV { failed: Seq::empty(), ..w }, g, Err(ErrorV::Incomplete(w.failed)))
    } else {
        emit(w, Phase::RestoreRemoveMeta(g), ActionV::RemoveFile(LocV::Meta))
    }
}

pub open spec fn on_restore_remove_meta(w: WorkV, g: RestoreFor, r: Result<(), IoFailure>) -> (WorkV, StepV) {
    match r {
        Err(e) if e.kind != IoKind::NotFound => restore_done(w, g, Err(io("상태 파일 정리"@, e))),
        _ => emit(w, Phase::RestoreRemoveTmp(g), ActionV::RemoveFile(LocV::MetaTmp)),
    }
}

pub open spec fn on_restore_remove_tmp(w: WorkV, g: RestoreFor, r: Result<(), IoFailure>) -> (WorkV, StepV) {
    match r {
        Err(e) if e.kind != IoKind::NotFound => restore_done(w, g, Err(io("상태 파일 정리"@, e))),
        _ => begin_dirs(w, DirsFor::Restore(g)),
    }
}

pub open spec fn restore_done(w: WorkV, g: RestoreFor, r: Result<(), ErrorV>) -> (WorkV, StepV) {
    match g {
        RestoreFor::Rollback => finish(WorkV { cause: None, ..w }, Err(match r {
            Ok(_) => w.cause.unwrap(),
            Err(e) => ErrorV::RollbackFailed(Box::new(w.cause.unwrap()), Box::new(e)),
        })),
        RestoreFor::Report => finish(WorkV { restored: 0, renamed: Seq::empty(), restore_warnings: Seq::empty(), ..w }, match r {
            Ok(_) => Ok(OutcomeV::Restored(RestoreReportV { restored: w.restored, renamed: w.renamed, warnings: w.restore_warnings })),
            Err(e) => Err(e),
        }),
        RestoreFor::ResumeUnlocking => finish(w, match r {
            Ok(_) => Ok(OutcomeV::Now(Status::Unlocked)),
            Err(e) => Err(e),
        }),
    }
}

// ----- unlocking, resuming, changing the password -----

pub open spec fn on_unlock_survey(w: WorkV, sv: Survey) -> (WorkV, StepV) {
    match classified(sv) {
        Err(e) => finish(w, Err(e)),
        Ok(Status::Unlocked) | Ok(Status::Stale) => finish(w, Err(ErrorV::NotLocked)),
        Ok(_) => emit(w, Phase::UnlockMeta, ActionV::LoadMeta),
    }
}

/// The hash the password is checked against: the state file's, else the spare one.
pub open spec fn hash_to_check(s: Setup, f: MetaFacts) -> Option<Seq<char>> {
    match chosen_meta(f) {
        Some(m) => Some(m.password_hash@),
        None => match s.fallback {
            Some(h) => Some(h@),
            None => None,
        },
    }
}

pub open spec fn on_unlock_meta(s: Setup, w: WorkV, f: MetaFacts) -> (WorkV, StepV) {
    match hash_to_check(s, f) {
        None => finish(w, Err(ErrorV::NoPasswordInfo)),
        Some(h) => emit(w, Phase::UnlockVerify, ActionV::Verify(s.password@, h)),
    }
}

pub open spec fn on_unlock_verify(w: WorkV, ok: bool) -> (WorkV, StepV) {
    if ok {
        begin_restore(w, RestoreFor::Report)
    } else {
        finish(w, Err(ErrorV::WrongPassword))
    }
}

pub open spec fn on_resume_survey(w: WorkV, sv: Survey) -> (WorkV, StepV) {
    match classified(sv) {
        Err(e) => finish(w, Err(e)),
        Ok(Status::Unlocked) => finish(w, Ok(OutcomeV::Now(Status::Unlocked))),
        Ok(Status::Stale) => begin_cleanup(w, CleanupFor::ResumeStale),
        Ok(Status::Locked) => begin_protect(w, ProtectFor::ResumeLocked),
        Ok(Status::Interrupted(LockState::Locking)) => emit(w, Phase::ResumeMeta, ActionV::LoadMeta),
        Ok(Status::Interrupted(_)) => begin_restore(w, RestoreFor::ResumeUnlocking),
        Ok(Status::Broken) => finish(w, Err(ErrorV::Broken)),
    }
}

pub open spec fn on_resume_resurvey(w: WorkV, sv: Survey) -> (WorkV, StepV) {
    finish(w, match classified(sv) {
        Ok(st) => Ok(OutcomeV::Now(st)),
        Err(e) => Err(e),
    })
}

pub open spec fn on_resume_meta(w: WorkV, f: MetaFacts) -> (WorkV, StepV) {
    match chosen_meta(f) {
        None => finish(w, Err(ErrorV::Broken)),
        Some(m) => begin_open(WorkV { meta: Some(m@), ..w }, OpenFor::ResumeLocking),
    }
}

pub open spec fn on_pw_survey(w: WorkV, sv: Survey) -> (WorkV, StepV) {
    match classified(sv) {
        Err(e) => finish(w, Err(e)),
        Ok(Status::Locked) => emit(w, Phase::PwMeta, ActionV::LoadMeta),
        Ok(_) => finish(w, Ok(OutcomeV::Settled)),
    }
}

pub open spec fn on_pw_meta(s: Setup, w: WorkV, f: MetaFacts) -> (WorkV, StepV) {
    match chosen_meta(f) {
        None => finish(w, Err(ErrorV::Broken)),
        Some(m) => emit(
            WorkV { meta: Some(MetaV { password_hash: s.hash@, ..m@ }), ..w },
            Phase::PwUnprotect,
            ActionV::Unprotect(LocV::Vault),
        ),
    }
}

pub open spec fn on_pw_unprotect(w: WorkV, r: Result<(), IoFailure>) -> (WorkV, StepV) {
    match r {
        Err(e) => finish(w, Err(io("보관 폴더 접근 허용"@, e))),
        Ok(_) => emit(w, Phase::PwWrite, ActionV::WriteMeta(w.meta.unwrap())),
    }
}

/// Protection is applied again whether or not the write worked; its failure wins.
pub open spec fn on_pw_write(w: WorkV, r: Result<(), IoFailure>) -> (WorkV, StepV) {
    let cause = match r {
        Err(e) => Some(io("상태 파일 기록"@, e)),
        Ok(_) => None,
    };
    begin_protect(WorkV { cause, ..w }, ProtectFor::SetPassword)
}

// ----- one step -----

/// The request that follows `ev` in state `w`, and the state after it.
/// `absolute` and `has_parent` are what the platform's path syntax said of
/// the folder (they matter only when the guard's facts arrive).
pub open spec fn next(s: Setup, w: WorkV, ev: Event, absolute: bool, has_parent: bool) -> (WorkV, StepV) {
    match (w.phase, ev) {
        (Phase::Ready, Event::Start) => start(s, w),
        (Phase::LockInspect, Event::Inspected(facts)) => on_lock_inspect(s, w, facts, absolute, has_parent),
        (Phase::LockSurvey, Event::Surveyed(sv)) => on_lock_survey(s, w, sv),
        (Phase::LockVaultGone, Event::Probed(r)) => on_lock_vault_gone(s, w, r),
        (Phase::LockHashSource, Event::Read(r)) => on_lock_hash_source(s, w, r),
        (Phase::LockCreateVault, Event::Done(r)) => on_lock_create_vault(w, r),
        (Phase::LockWriteMeta, Event::Done(r)) => on_lock_write_meta(s, w, r),
        (Phase::UnlockSurvey, Event::Surveyed(sv)) => on_unlock_survey(w, sv),
        (Phase::UnlockMeta, Event::MetaLoaded(f)) => on_unlock_meta(s, w, f),
        (Phase::UnlockVerify, Event::Verified(ok)) => on_unlock_verify(w, ok),
        (Phase::ResumeSurvey, Event::Surveyed(sv)) => on_resume_survey(w, sv),
        (Phase::ResumeResurvey, Event::Surveyed(sv)) => on_resume_resurvey(w, sv),
        (Phase::ResumeMeta, Event::MetaLoaded(f)) => on_resume_meta(w, f),
        (Phase::PwSurvey, Event::Surveyed(sv)) => on_pw_survey(w, sv),
        (Phase::PwMeta, Event::MetaLoaded(f)) => on_pw_meta(s, w, f),
        (Phase::PwUnprotect, Event::Done(r)) => on_pw_unprotect(w, r),
        (Phase::PwWrite, Event::Done(r)) => on_pw_write(w, r),
        (Phase::CleanupTmp(f), Event::Done(r)) => on_cleanup_tmp(s, w, f, r),
        (Phase::DirsData(t), Event::Done(r)) => on_dirs_data(s, w, t, r),
        (Phase::DirsVault(t), Event::Done(r)) => on_dirs_vault(s, w, t, r),
        (Phase::ProtectHide(t), Event::Done(r)) => on_protect_hide(w, t, r),
        (Phase::ProtectData(t), Event::Done(r)) => on_protect_data(w, t, r),
        (Phase::ProtectVault(t), Event::Done(r)) => on_protect_vault(w, t, r),
        (Phase::FinishProbeData(f), Event::Probed(r)) => on_finish_probe_data(w, f, r),
        (Phase::FinishCreateData(f), Event::Done(r)) => on_finish_create_data(s, w, f, r),
        (Phase::FinishList(f), Event::Listed(r)) => on_finish_list(s, w, f, r),
        (Phase::FinishHashItem(f), Event::Read(r)) => on_finish_hash_item(s, w, f, r),
        (Phase::FinishMove(f), Event::Done(r)) => on_finish_move(s, w, f, r),
        (Phase::FinishProbeExe(f), Event::Probed(r)) => on_finish_probe_exe(s, w, f, r),
        (Phase::FinishCopyExe(f), Event::Done(r)) => on_finish_copy_exe(w, f, r),
        (Phase::FinishWrite(f), Event::Done(r)) => on_finish_write(w, f, r),
        (Phase::OpenProbeVault(t), Event::Probed(r)) => on_open_probe_vault(w, t, r),
        (Phase::OpenVault(t), Event::Done(r)) => on_open_vault(w, t, r),
        (Phase::OpenProbeData(t), Event::Probed(r)) => on_open_probe_data(w, t, r),
        (Phase::OpenData(t), Event::Done(r)) => on_open_data(w, t, r),
        (Phase::RestoreMeta(g), Event::MetaLoaded(f)) => on_restore_meta(w, g, f),
        (Phase::RestoreMark(g), Event::Done(r)) => on_restore_mark(w, g, r),
        (Phase::RestoreHashExe(g), Event::Read(r)) => on_restore_hash_exe(w, g, r),
        (Phase::RestoreRemoveExe(g), Event::Done(r)) => on_restore_remove_exe(w, g, r),
        (Phase::RestoreProbeData(g), Event::Probed(r)) => on_restore_probe_data(w, g, r),
        (Phase::RestoreList(g), Event::Listed(r)) => on_restore_list(w, g, r),
        (Phase::RestoreProbeItem(g), Event::Probed(r)) => on_restore_probe_item(w, g, r),
        (Phase::RestoreProbeTarget(g), Event::Probed(r)) => on_restore_probe_target(w, g, r),
        (Phase::RestoreMove(g), Event::Done(r)) => on_restore_move(w, g, r),
        (Phase::RestoreRemoveMeta(g), Event::Done(r)) => on_restore_remove_meta(w, g, r),
        (Phase::RestoreRemoveTmp(g), Event::Done(r)) => on_restore_remove_tmp(w, g, r),
        _ => finish(w, Err(ErrorV::Broken)),
    }
}

} // verus!

verus! {

// ---------- what a running task keeps true ----------

pub open spec fn has_exe(m: Option<MetaV>) -> bool {
    m matches Some(mm) && mm.unlock_exe is Some
}

pub open spec fn rolls_back(p: Phase) -> bool {
    match p {
        Phase::CleanupTmp(CleanupFor::LockAbort) => true,
        Phase::DirsData(DirsFor::Cleanup(CleanupFor::LockAbort)) => true,
        Phase::DirsVault(DirsFor::Cleanup(CleanupFor::LockAbort)) => true,
        Phase::DirsData(DirsFor::Restore(RestoreFor::Rollback)) => true,
        Phase::DirsVault(DirsFor::Restore(RestoreFor::Rollback)) => true,
        Phase::OpenProbeVault(OpenFor::Restore(RestoreFor::Rollback)) => true,
        Phase::OpenVault(OpenFor::Restore(RestoreFor::Rollback)) => true,
        Phase::OpenProbeData(OpenFor::Restore(RestoreFor::Rollback)) => true,
        Phase::OpenData(OpenFor::Restore(RestoreFor::Rollback)) => true,
        Phase::RestoreMeta(g) => g == RestoreFor::Rollback,
        Phase::RestoreMark(g) => g == RestoreFor::Rollback,
        Phase::RestoreHashExe(g) => g == RestoreFor::Rollback,
        Phase::RestoreRemoveExe(g) => g == RestoreFor::Rollback,
        Phase::RestoreProbeData(g) => g == RestoreFor::Rollback,
        Phase::RestoreList(g) => g == RestoreFor::Rollback,
        Phase::RestoreProbeItem(g) => g == RestoreFor::Rollback,
        Phase::RestoreProbeTarget(g) => g == RestoreFor::Rollback,
        Phase::RestoreMove(g) => g == RestoreFor::Rollback,
        Phase::RestoreRemoveMeta(g) => g == RestoreFor::Rollback,
        Phase::RestoreRemoveTmp(g) => g == RestoreFor::Rollback,
        _ => false,
    }
}

/// Phases before any item has been put back.
pub open spec fn before_items(p: Phase) -> bool {
    match p {
        Phase::OpenProbeVault(OpenFor::Restore(_)) => true,
        Phase::OpenVault(OpenFor::Restore(_)) => true,
        Phase::OpenProbeData(OpenFor::Restore(_)) => true,
        Phase::OpenData(OpenFor::Restore(_)) => true,
        Phase::RestoreMeta(_) | Phase::RestoreMark(_) | Phase::RestoreHashExe(_) => true,
        Phase::RestoreRemoveExe(_) | Phase::RestoreProbeData(_) | Phase::RestoreList(_) => true,
        _ => false,
    }
}

/// Nothing queued for the vault is the vault itself.
pub open spec fn pending_ok(w: WorkV) -> bool {
    forall|i: int| 0 <= i < w.pending.len() ==> w.pending[i] != VAULT_DIR@
}

/// The same, of the queue as kept.
pub open spec fn pending_clear(p: Seq<String>) -> bool {
    forall|i: int| 0 <= i < p.len() ==> p[i]@ != VAULT_DIR@
}

pub proof fn lemma_pending_clear(p: Seq<String>)
    requires
        pending_clear(p),
    ensures
        forall|i: int| 0 <= i < texts(p).len() ==> texts(p)[i] != VAULT_DIR@,
{
}

/// The invariant of a running task: what its next step relies on.
pub open spec fn wf(s: Setup, w: WorkV) -> bool {
    &&& rolls_back(w.phase) ==> w.cause is Some
    &&& before_items(w.phase) ==> w.restored == 0
    &&& match w.phase {
        Phase::LockCreateVault | Phase::LockWriteMeta => w.meta is Some && w.meta.unwrap().state == LockState::Locking,
        Phase::PwUnprotect => w.meta is Some,
        Phase::FinishProbeData(_) | Phase::FinishCreateData(_) | Phase::FinishList(_) => w.meta is Some && w.moved == 0,
        Phase::FinishHashItem(_) => w.meta is Some && w.moved == 0 && w.scan_at < w.names.len()
            && exe_named(w.meta, w.names[w.scan_at as int]) && w.names[w.scan_at as int] != VAULT_DIR@,
        Phase::FinishMove(_) => w.meta is Some && w.moved <= w.move_at < w.pending.len(),
        Phase::FinishProbeExe(_) | Phase::FinishCopyExe(_) => s.exe_src is Some && has_exe(w.meta),
        Phase::FinishWrite(_) => w.meta is Some,
        Phase::OpenProbeVault(OpenFor::ResumeLocking) | Phase::OpenVault(OpenFor::ResumeLocking) => w.meta is Some,
        Phase::OpenProbeData(OpenFor::ResumeLocking) | Phase::OpenData(OpenFor::ResumeLocking) => w.meta is Some,
        Phase::RestoreHashExe(_) | Phase::RestoreRemoveExe(_) => has_exe(w.meta),
        Phase::RestoreProbeItem(_) => w.restored <= w.scan_at < w.names.len(),
        Phase::RestoreProbeTarget(_) | Phase::RestoreMove(_) => w.restored <= w.scan_at < w.names.len()
            && w.attempt < 1000
            && w.candidate == candidate_of(w.names[w.scan_at as int], w.attempt as int, w.is_dir)
            && w.candidate != VAULT_DIR@,
        _ => true,
    }
}

/// `ev` answers the request the task made last.
pub open spec fn accepts(s: Setup, p: Phase, ev: Event) -> bool {
    match (p, ev) {
        (Phase::Ready, Event::Start) => true,
        (Phase::LockInspect, Event::Inspected(facts)) => facts_match(facts, s.rules),
        (Phase::LockSurvey, Event::Surveyed(_)) => true,
        (Phase::UnlockSurvey, Event::Surveyed(_)) => true,
        (Phase::ResumeSurvey, Event::Surveyed(_)) => true,
        (Phase::ResumeResurvey, Event::Surveyed(_)) => true,
        (Phase::PwSurvey, Event::Surveyed(_)) => true,
        (Phase::UnlockMeta, Event::MetaLoaded(_)) => true,
        (Phase::ResumeMeta, Event::MetaLoaded(_)) => true,
        (Phase::PwMeta, Event::MetaLoaded(_)) => true,
        (Phase::RestoreMeta(_), Event::MetaLoaded(_)) => true,
        (Phase::LockVaultGone, Event::Probed(_)) => true,
        (Phase::FinishProbeData(_), Event::Probed(_)) => true,
        (Phase::FinishProbeExe(_), Event::Probed(_)) => true,
        (Phase::OpenProbeVault(_), Event::Probed(_)) => true,
        (Phase::OpenProbeData(_), Event::Probed(_)) => true,
        (Phase::RestoreProbeData(_), Event::Probed(_)) => true,
        (Phase::RestoreProbeItem(_), Event::Probed(_)) => true,
        (Phase::RestoreProbeTarget(_), Event::Probed(_)) => true,
        (Phase::FinishList(_), Event::Listed(_)) => true,
        (Phase::RestoreList(_), Event::Listed(_)) => true,
        (Phase::LockHashSource, Event::Read(_)) => true,
        (Phase::FinishHashItem(_), Event::Read(_)) => true,
        (Phase::RestoreHashExe(_), Event::Read(_)) => true,
        (Phase::UnlockVerify, Event::Verified(_)) => true,
        (Phase::Ready, _) | (Phase::Finished, _) | (Phase::LockInspect, _) => false,
        (Phase::LockSurvey, _) | (Phase::UnlockSurvey, _) | (Phase::ResumeSurvey, _) => false,
        (Phase::ResumeResurvey, _) | (Phase::PwSurvey, _) => false,
        (Phase::UnlockMeta, _) | (Phase::ResumeMeta, _) | (Phase::PwMeta, _) | (Phase::RestoreMeta(_), _) => false,
        (Phase::LockVaultGone, _) | (Phase::FinishProbeData(_), _) | (Phase::FinishProbeExe(_), _) => false,
        (Phase::OpenProbeVault(_), _) | (Phase::OpenProbeData(_), _) | (Phase::RestoreProbeData(_), _) => false,
        (Phase::RestoreProbeItem(_), _) | (Phase::RestoreProbeTarget(_), _) => false,
        (Phase::FinishList(_), _) | (Phase::RestoreList(_), _) => false,
        (Phase::LockHashSource, _) | (Phase::FinishHashItem(_), _) | (Phase::RestoreHashExe(_), _) => false,
        (Phase::UnlockVerify, _) => false,
        (_, ev) => ev is Done,
    }
}

pub proof fn lemma_texts_push(v: Seq<String>, x: String)
    ensures
        texts(v.push(x)) == texts(v).push(x@),
{
    assert(texts(v.push(x)) =~= texts(v).push(x@));
}

pub proof fn lemma_pairs_push(v: Seq<(String, String)>, x: (String, String))
    ensures
        pairs(v.push(x)) == pairs(v).push((x.0@, x.1@)),
{
    assert(pairs(v.push(x)) =~= pairs(v).push((x.0@, x.1@)));
}

pub proof fn lemma_failures_push(v: Seq<(String, IoFailure)>, x: (String, IoFailure))
    ensures
        failures_view(v.push(x)) == failures_view(v).push((x.0@, x.1@)),
{
    assert(failures_view(v.push(x)) =~= failures_view(v).push((x.0@, x.1@)));
}

} // verus!

verus! {

// ---------- the machine, running ----------

fn text(s: &str) -> (r: String)
    ensures
        r@ == s@,
{
    String::from_str(s)
}

fn io_error(context: &str, e: IoFailure) -> (r: Error)
    ensures
        r@ == io(context@, e),
{
    Error::Io { context: text(context), source: e }
}

fn finish_with(w: &mut Work, r: Result<Outcome, Error>) -> (st: Step)
    ensures
        final(w).pending == old(w).pending,
        final(w)@ == (WorkV { phase: Phase::Finished, ..old(w)@ }),
        st@ == StepV::Finish(match r {
            Ok(o) => Ok(o@),
            Err(e) => Err(e@),
        }),
{
    w.phase = Phase::Finished;
    Step::Finish(r)
}

fn fail(w: &mut Work, e: Error) -> (st: Step)
    ensures
        final(w).pending == old(w).pending,
        (final(w)@, st@) == finish(old(w)@, Err(e@)),
{
    finish_with(w, Err(e))
}

fn fresh_meta_exec(s: &Setup, exe: Option<UnlockExe>) -> (m: Meta)
    ensures
        m@ == fresh_meta(*s, match exe {
            Some(e) => Some(e@),
            None => None,
        }),
{
    Meta {
        version: META_VERSION,
        state: LockState::Locking,
        password_hash: s.hash.clone(),
        unlock_exe: exe,
        updated_at: String::new(),
    }
}

fn start_exec(s: &Setup, w: &mut Work) -> (r: Step)
    requires
        pending_clear(old(w).pending@),
        old(w)@.phase == Phase::Ready,
    ensures
        wf(*s, final(w)@),
        pending_clear(final(w).pending@),
        (final(w)@, r@) == start(*s, old(w)@),
{
    match s.op {
        Op::Lock => {
            w.phase = Phase::LockInspect;
            Step::Do(Action::Inspect)
        },
        Op::Unlock => {
            w.phase = Phase::UnlockSurvey;
            Step::Do(Action::Survey)
        },
        Op::Emergency => begin_restore_exec(s, w, RestoreFor::Report),
        Op::Resume => {
            w.phase = Phase::ResumeSurvey;
            Step::Do(Action::Survey)
        },
        Op::SetPassword => {
            w.phase = Phase::PwSurvey;
            Step::Do(Action::Survey)
        },
    }
}

// ----- locking -----

fn begin_lock_body_exec(s: &Setup, w: &mut Work) -> (r: Step)
    requires
        pending_clear(old(w).pending@),
    ensures
        wf(*s, final(w)@),
        pending_clear(final(w).pending@),
        (final(w)@, r@) == begin_lock_body(*s, old(w)@),
{
    match &s.exe_src {
        Some(src) => {
            w.phase = Phase::LockHashSource;
            Step::Do(Action::Read(Loc::Source(src.clone())))
        },
        None => {
            w.meta = Some(fresh_meta_exec(s, None));
            w.phase = Phase::LockCreateVault;
            Step::Do(Action::CreateDir(Loc::Vault))
        },
    }
}

fn on_lock_inspect_exec(s: &Setup, w: &mut Work, facts: TargetFacts) -> (r: Step)
    requires
        pending_clear(old(w).pending@),
        facts_match(facts, s.rules),
    ensures
        wf(*s, final(w)@),
        pending_clear(final(w).pending@),
        exists|a: bool, h: bool| (final(w)@, r@) == on_lock_inspect(*s, old(w)@, facts, a, h),
{
    let verdict = check(s.layout.root.as_str(), &facts, &s.rules, s.style);
    let ghost (a, h) = choose|a: bool, h: bool| crate::guard::answers(verdict, refusal(a, facts, h, s.style), facts, s.rules);
    let ghost w0 = w@;
    let st = match verdict {
        Ok(()) => {
            w.phase = Phase::LockSurvey;
            Step::Do(Action::Survey)
        },
        Err(m) => fail(w, Error::Guard(m)),
    };
    assert((w@, st@) == on_lock_inspect(*s, w0, facts, a, h));
    st
}

fn on_lock_survey_exec(s: &Setup, w: &mut Work, sv: Survey) -> (r: Step)
    requires
        pending_clear(old(w).pending@),
    ensures
        wf(*s, final(w)@),
        pending_clear(final(w).pending@),
        (final(w)@, r@) == on_lock_survey(*s, old(w)@, sv),
{
    match classify(sv) {
        Err(e) => fail(w, e),
        Ok(Status::Unlocked) => begin_lock_body_exec(s, w),
        Ok(Status::Stale) => begin_cleanup_exec(s, w, CleanupFor::LockStale),
        Ok(_) => fail(w, Error::AlreadyLocked),
    }
}

fn on_lock_vault_gone_exec(s: &Setup, w: &mut Work, r: Result<bool, IoFailure>) -> (st: Step)
    requires
        pending_clear(old(w).pending@),
    ensures
        wf(*s, final(w)@),
        pending_clear(final(w).pending@),
        (final(w)@, st@) == on_lock_vault_gone(*s, old(w)@, r),
{
    if r.is_ok() {
        fail(w, Error::AlreadyLocked)
    } else {
        begin_lock_body_exec(s, w)
    }
}

fn on_lock_hash_source_exec(s: &Setup, w: &mut Work, r: Result<Vec<u8>, IoFailure>) -> (st: Step)
    requires
        pending_clear(old(w).pending@),
    ensures
        wf(*s, final(w)@),
        pending_clear(final(w).pending@),
        (final(w)@, st@) == on_lock_hash_source(*s, old(w)@, r),
{
    match r {
        Err(e) => fail(w, io_error("잠금 해제 실행 파일 읽기", e)),
        Ok(b) => {
            let exe = UnlockExe { name: text(UNLOCK_EXE_NAME), sha256: fingerprint_text(b.as_slice()) };
            w.meta = Some(fresh_meta_exec(s, Some(exe)));
            w.phase = Phase::LockCreateVault;
            Step::Do(Action::CreateDir(Loc::Vault))
        },
    }
}

fn on_lock_create_vault_exec(s: &Setup, w: &mut Work, r: Result<(), IoFailure>) -> (st: Step)
    requires
        pending_clear(old(w).pending@),
        old(w)@.meta is Some,
        old(w)@.meta.unwrap().state == LockState::Locking,
    ensures
        wf(*s, final(w)@),
        pending_clear(final(w).pending@),
        (final(w)@, st@) == on_lock_create_vault(old(w)@, r),
{
    match r {
        Err(e) => fail(w, io_error("보관 폴더 만들기", e)),
        Ok(()) => {
            let m = w.meta.as_ref().unwrap().clone();
            w.phase = Phase::LockWriteMeta;
            Step::Do(Action::WriteMeta(m))
        },
    }
}

fn on_lock_write_meta_exec(s: &Setup, w: &mut Work, r: Result<(), IoFailure>) -> (st: Step)
    requires
        pending_clear(old(w).pending@),
        old(w)@.meta is Some,
    ensures
        wf(*s, final(w)@),
        pending_clear(final(w).pending@),
        (final(w)@, st@) == on_lock_write_meta(*s, old(w)@, r),
{
    match r {
        Err(e) => {
            w.cause = Some(io_error("상태 파일 기록", e));
            begin_cleanup_exec(s, w, CleanupFor::LockAbort)
        },
        Ok(()) => begin_finish_exec(s, w, FinishFor::Lock),
    }
}

// ----- cleaning up a stale vault -----

fn begin_cleanup_exec(s: &Setup, w: &mut Work, f: CleanupFor) -> (r: Step)
    requires
        pending_clear(old(w).pending@),
        f == CleanupFor::LockAbort ==> old(w)@.cause is Some,
    ensures
        (final(w)@, r@) == begin_cleanup(old(w)@, f),
        wf(*s, final(w)@),
        pending_clear(final(w).pending@),
{
    w.phase = Phase::CleanupTmp(f);
    Step::Do(Action::RemoveFile(Loc::MetaTmp))
}

fn on_cleanup_tmp_exec(s: &Setup, w: &mut Work, f: CleanupFor, r: Result<(), IoFailure>) -> (st: Step)
    requires
        pending_clear(old(w).pending@),
        f == CleanupFor::LockAbort ==> old(w)@.cause is Some,
    ensures
        wf(*s, final(w)@),
        pending_clear(final(w).pending@),
        (final(w)@, st@) == on_cleanup_tmp(*s, old(w)@, f, r),
{
    let failure = match r {
        Err(e) => if e.kind != IoKind::NotFound { Some(e) } else { None },
        Ok(()) => None,
    };
    match failure {
        Some(e) => {
            let err = io_error("임시 상태 파일 정리", e);
            cleanup_done_exec(s, w, f, Err(err))
        },
        None => {
            w.notes = Vec::new();
            proof { assert(texts(w.notes@) =~= Seq::<Seq<char>>::empty()); }
            begin_dirs_exec(s, w, DirsFor::Cleanup(f))
        },
    }
}

fn cleanup_done_exec(s: &Setup, w: &mut Work, f: CleanupFor, r: Result<(), Error>) -> (st: Step)
    requires
        pending_clear(old(w).pending@),
        f == CleanupFor::LockAbort ==> old(w)@.cause is Some,
    ensures
        wf(*s, final(w)@),
        pending_clear(final(w).pending@),
        (final(w)@, st@) == cleanup_done(old(w)@, f, match r {
            Ok(_) => Ok(()),
            Err(e) => Err(e@),
        }),
{
    match f {
        CleanupFor::LockStale => match r {
            Err(e) => fail(w, e),
            Ok(()) => {
                w.phase = Phase::LockVaultGone;
                Step::Do(Action::Probe(Loc::Vault))
            },
        },
        CleanupFor::LockAbort => {
            let c = w.cause.take();
            fail(w, c.unwrap())
        },
        CleanupFor::ResumeStale => match r {
            Err(e) => fail(w, e),
            Ok(()) => {
                w.phase = Phase::ResumeResurvey;
                Step::Do(Action::Survey)
            },
        },
    }
}

} // verus!

verus! {

pub open spec fn keeps_cause(g: RestoreFor, w: WorkV) -> bool {
    g == RestoreFor::Rollback ==> w.cause is Some
}

pub open spec fn dirs_keep_cause(t: DirsFor, w: WorkV) -> bool {
    match t {
        DirsFor::Cleanup(f) => f == CleanupFor::LockAbort ==> w.cause is Some,
        DirsFor::Restore(g) => keeps_cause(g, w),
    }
}

// ----- removing the vault's directories when empty -----

fn begin_dirs_exec(s: &Setup, w: &mut Work, t: DirsFor) -> (r: Step)
    requires
        pending_clear(old(w).pending@),
        dirs_keep_cause(t, old(w)@),
    ensures
        wf(*s, final(w)@),
        pending_clear(final(w).pending@),
        (final(w)@, r@) == begin_dirs(old(w)@, t),
{
    w.phase = Phase::DirsData(t);
    Step::Do(Action::RemoveDir(Loc::Data))
}

fn note_dir_exec(w: &mut Work, t: DirsFor, dir: &String, r: Result<(), IoFailure>)
    ensures
        final(w).pending == old(w).pending,
        final(w)@ == note_dir(old(w)@, t, dir@, r),
{
    let failure = match r {
        Err(e) => if e.kind != IoKind::NotFound { Some(e) } else { None },
        Ok(()) => None,
    };
    match failure {
        Some(e) => {
            let m = text("'").concat(dir.as_str())
                .concat("' 폴더에 알 수 없는 파일이 남아 있어 지우지 않았습니다: ")
                .concat(e.message.as_str());
            match t {
                DirsFor::Cleanup(_) => {
                    proof { lemma_texts_push(w.notes@, m); }
                    w.notes.push(m);
                },
                DirsFor::Restore(_) => {
                    proof { lemma_texts_push(w.restored.warnings@, m); }
                    w.restored.warnings.push(m);
                },
            }
        },
        None => {},
    }
}

fn dirs_done_exec(s: &Setup, w: &mut Work, t: DirsFor) -> (r: Step)
    requires
        pending_clear(old(w).pending@),
        dirs_keep_cause(t, old(w)@),
    ensures
        wf(*s, final(w)@),
        pending_clear(final(w).pending@),
        (final(w)@, r@) == dirs_done(old(w)@, t),
{
    match t {
        DirsFor::Cleanup(f) => {
            if w.notes.len() > 0 {
                let first = w.notes[0].clone();
                cleanup_done_exec(s, w, f, Err(Error::Guard(first)))
            } else {
                cleanup_done_exec(s, w, f, Ok(()))
            }
        },
        DirsFor::Restore(g) => restore_done_exec(s, w, g, Ok(())),
    }
}

fn on_dirs_data_exec(s: &Setup, w: &mut Work, t: DirsFor, r: Result<(), IoFailure>) -> (st: Step)
    requires
        pending_clear(old(w).pending@),
        dirs_keep_cause(t, old(w)@),
    ensures
        wf(*s, final(w)@),
        pending_clear(final(w).pending@),
        (final(w)@, st@) == on_dirs_data(*s, old(w)@, t, r),
{
    note_dir_exec(w, t, &s.layout.data, r);
    w.phase = Phase::DirsVault(t);
    Step::Do(Action::RemoveDir(Loc::Vault))
}

fn on_dirs_vault_exec(s: &Setup, w: &mut Work, t: DirsFor, r: Result<(), IoFailure>) -> (st: Step)
    requires
        pending_clear(old(w).pending@),
        dirs_keep_cause(t, old(w)@),
    ensures
        wf(*s, final(w)@),
        pending_clear(final(w).pending@),
        (final(w)@, st@) == on_dirs_vault(*s, old(w)@, t, r),
{
    note_dir_exec(w, t, &s.layout.vault, r);
    dirs_done_exec(s, w, t)
}

// ----- moving the items into the vault -----

fn begin_finish_exec(s: &Setup, w: &mut Work, f: FinishFor) -> (r: Step)
    requires
        pending_clear(old(w).pending@),
        old(w)@.meta is Some,
    ensures
        wf(*s, final(w)@),
        pending_clear(final(w).pending@),
        (final(w)@, r@) == begin_finish(old(w)@, f),
{
    w.locked = LockReport::default();
    proof { assert(texts(w.locked.warnings@) =~= Seq::<Seq<char>>::empty()); }
    w.phase = Phase::FinishProbeData(f);
    Step::Do(Action::Probe(Loc::Data))
}

fn on_finish_probe_data_exec(s: &Setup, w: &mut Work, f: FinishFor, r: Result<bool, IoFailure>) -> (st: Step)
    requires
        pending_clear(old(w).pending@),
        old(w)@.meta is Some,
        old(w)@.moved == 0,
    ensures
        wf(*s, final(w)@),
        pending_clear(final(w).pending@),
        (final(w)@, st@) == on_finish_probe_data(old(w)@, f, r),
{
    if r.is_ok() {
        w.phase = Phase::FinishList(f);
        Step::Do(Action::List(Loc::Root))
    } else {
        w.phase = Phase::FinishCreateData(f);
        Step::Do(Action::CreateDir(Loc::Data))
    }
}

fn on_finish_create_data_exec(s: &Setup, w: &mut Work, f: FinishFor, r: Result<(), IoFailure>) -> (st: Step)
    requires
        pending_clear(old(w).pending@),
        old(w)@.meta is Some,
        old(w)@.moved == 0,
    ensures
        wf(*s, final(w)@),
        pending_clear(final(w).pending@),
        (final(w)@, st@) == on_finish_create_data(*s, old(w)@, f, r),
{
    match r {
        Err(e) => finish_done_exec(s, w, f, Err(io_error("보관 폴더 만들기", e))),
        Ok(()) => {
            w.phase = Phase::FinishList(f);
            Step::Do(Action::List(Loc::Root))
        },
    }
}

fn on_finish_list_exec(s: &Setup, w: &mut Work, f: FinishFor, r: Result<Vec<String>, IoFailure>) -> (st: Step)
    requires
        pending_clear(old(w).pending@),
        old(w)@.meta is Some,
        old(w)@.moved == 0,
    ensures
        wf(*s, final(w)@),
        pending_clear(final(w).pending@),
        (final(w)@, st@) == on_finish_list(*s, old(w)@, f, r),
{
    match r {
        Err(e) => finish_done_exec(s, w, f, Err(io_error("폴더 목록 읽기", e))),
        Ok(v) => {
            let mut v = v;
            let ghost listed = texts(v@);
            sort_names(&mut v);
            proof { crate::text::lemma_sorted_texts(listed, texts(v@)); }
            w.names = v;
            w.scan_at = 0;
            w.pending = Vec::new();
            proof { assert(texts(w.pending@) =~= Seq::<Seq<char>>::empty()); }
            scan_exec(s, w, f)
        },
    }
}

/// Whether `name` is the unlock program's name recorded in `m`.
fn is_exe_name(m: &Option<Meta>, name: &String) -> (b: bool)
    ensures
        b == exe_named(meta_view(*m), name@),
{
    match m {
        Some(mm) => match &mm.unlock_exe {
            Some(e) => crate::text::same_text(e.name.as_str(), name.as_str()),
            None => false,
        },
        None => false,
    }
}

fn scan_exec(s: &Setup, w: &mut Work, f: FinishFor) -> (r: Step)
    requires
        pending_clear(old(w).pending@),
        old(w)@.meta is Some,
        old(w)@.moved == 0,
        old(w)@.scan_at <= old(w)@.names.len(),
    ensures
        wf(*s, final(w)@),
        pending_clear(final(w).pending@),
        (final(w)@, r@) == scan(*s, old(w)@, f),
{
    let ghost w0 = w@;
    let _n = w.names.len();
    while w.scan_at < w.names.len()
        invariant
            w@.meta is Some,
            w@.moved == 0,
            w@.scan_at <= w@.names.len(),
            w@.names.len() <= usize::MAX,
            w0 == old(w)@,
            pending_clear(w.pending@),
            scan(*s, w@, f) == scan(*s, w0, f),
        decreases w.names.len() - w.scan_at,
    {
        let name = w.names[w.scan_at].clone();
        let ghost wi = w@;
        assert(name@ == w@.names[w@.scan_at as int]);
        if crate::text::same_text(name.as_str(), VAULT_DIR) {
            w.scan_at = w.scan_at + 1;
        } else if is_exe_name(&w.meta, &name) {
            assert(scan(*s, wi, f) == emit(wi, Phase::FinishHashItem(f), ActionV::Read(LocV::RootItem(name@))));
            w.phase = Phase::FinishHashItem(f);
            return Step::Do(Action::Read(Loc::RootItem(name)));
        } else {
            proof { lemma_texts_push(w.pending@, name); }
            w.pending.push(name);
            w.scan_at = w.scan_at + 1;
        }
    }
    begin_moves_exec(s, w, f)
}

fn on_finish_hash_item_exec(s: &Setup, w: &mut Work, f: FinishFor, r: Result<Vec<u8>, IoFailure>) -> (st: Step)
    requires
        pending_clear(old(w).pending@),
        old(w)@.meta is Some,
        old(w)@.moved == 0,
        old(w)@.scan_at < old(w)@.names.len(),
        old(w)@.names[old(w)@.scan_at as int] != VAULT_DIR@,
        exe_named(old(w)@.meta, old(w)@.names[old(w)@.scan_at as int]),
    ensures
        wf(*s, final(w)@),
        pending_clear(final(w).pending@),
        (final(w)@, st@) == on_finish_hash_item(*s, old(w)@, f, r),
{
    let ours = match &r {
        Ok(b) => {
            let fp = fingerprint_text(b.as_slice());
            let sha = &w.meta.as_ref().unwrap().unlock_exe.as_ref().unwrap().sha256;
            crate::text::same_text(fp.as_str(), sha.as_str())
        },
        Err(_) => false,
    };
    let _n = w.names.len();
    if !ours {
        let name = w.names[w.scan_at].clone();
        proof { lemma_texts_push(w.pending@, name); }
        w.pending.push(name);
    }
    w.scan_at = w.scan_at + 1;
    scan_exec(s, w, f)
}

fn begin_moves_exec(s: &Setup, w: &mut Work, f: FinishFor) -> (r: Step)
    requires
        pending_clear(old(w).pending@),
        old(w)@.meta is Some,
        old(w)@.moved == 0,
    ensures
        wf(*s, final(w)@),
        pending_clear(final(w).pending@),
        (final(w)@, r@) == begin_moves(*s, old(w)@, f),
{
    w.move_at = 0;
    next_move_exec(s, w, f)
}

fn next_move_exec(s: &Setup, w: &mut Work, f: FinishFor) -> (r: Step)
    requires
        pending_clear(old(w).pending@),
        old(w)@.meta is Some,
        old(w)@.moved <= old(w)@.move_at <= old(w)@.pending.len(),
    ensures
        wf(*s, final(w)@),
        pending_clear(final(w).pending@),
        (final(w)@, r@) == next_move(*s, old(w)@, f),
{
    if w.move_at < w.pending.len() {
        let p = w.pending[w.move_at].clone();
        w.phase = Phase::FinishMove(f);
        Step::Do(Action::Move { from: Loc::RootItem(p.clone()), to: Loc::DataItem(p) })
    } else {
        after_moves_exec(s, w, f)
    }
}

fn on_finish_move_exec(s: &Setup, w: &mut Work, f: FinishFor, r: Result<(), IoFailure>) -> (st: Step)
    requires
        pending_clear(old(w).pending@),
        old(w)@.meta is Some,
        old(w)@.moved <= old(w)@.move_at < old(w)@.pending.len(),
    ensures
        wf(*s, final(w)@),
        pending_clear(final(w).pending@),
        (final(w)@, st@) == on_finish_move(*s, old(w)@, f, r),
{
    match r {
        Err(e) => {
            let ctx = text("'").concat(w.pending[w.move_at].as_str())
                .concat("' 옮기기 실패 (다른 프로그램이 사용 중일 수 있습니다)");
            finish_done_exec(s, w, f, Err(Error::Io { context: ctx, source: e }))
        },
        Ok(()) => {
            let _n = w.pending.len();
            w.locked.moved = w.locked.moved + 1;
            w.move_at = w.move_at + 1;
            next_move_exec(s, w, f)
        },
    }
}

fn after_moves_exec(s: &Setup, w: &mut Work, f: FinishFor) -> (r: Step)
    requires
        pending_clear(old(w).pending@),
        old(w)@.meta is Some,
    ensures
        wf(*s, final(w)@),
        pending_clear(final(w).pending@),
        (final(w)@, r@) == after_moves(*s, old(w)@, f),
{
    if s.exe_src.is_some() && w.meta.as_ref().unwrap().unlock_exe.is_some() {
        let name = w.meta.as_ref().unwrap().unlock_exe.as_ref().unwrap().name.clone();
        w.phase = Phase::FinishProbeExe(f);
        Step::Do(Action::Probe(Loc::RootItem(name)))
    } else {
        write_locked_exec(s, w, f)
    }
}

fn on_finish_probe_exe_exec(s: &Setup, w: &mut Work, f: FinishFor, r: Result<bool, IoFailure>) -> (st: Step)
    requires
        pending_clear(old(w).pending@),
        s.exe_src is Some,
        has_exe(old(w)@.meta),
    ensures
        wf(*s, final(w)@),
        pending_clear(final(w).pending@),
        (final(w)@, st@) == on_finish_probe_exe(*s, old(w)@, f, r),
{
    if r.is_ok() {
        write_locked_exec(s, w, f)
    } else {
        let name = w.meta.as_ref().unwrap().unlock_exe.as_ref().unwrap().name.clone();
        let src = s.exe_src.as_ref().unwrap().clone();
        w.phase = Phase::FinishCopyExe(f);
        Step::Do(Action::CopyNew { from: Loc::Source(src), to: Loc::RootItem(name) })
    }
}

fn on_finish_copy_exe_exec(s: &Setup, w: &mut Work, f: FinishFor, r: Result<(), IoFailure>) -> (st: Step)
    requires
        pending_clear(old(w).pending@),
        old(w)@.meta is Some,
    ensures
        wf(*s, final(w)@),
        pending_clear(final(w).pending@),
        (final(w)@, st@) == on_finish_copy_exe(old(w)@, f, r),
{
    match r {
        Err(e) => {
            let m = text("잠금 해제 실행 파일을 폴더에 넣지 못했습니다: ").concat(e.message.as_str());
            proof { lemma_texts_push(w.locked.warnings@, m); }
            w.locked.warnings.push(m);
            write_locked_exec(s, w, f)
        },
        Ok(()) => write_locked_exec(s, w, f),
    }
}

fn write_locked_exec(s: &Setup, w: &mut Work, f: FinishFor) -> (r: Step)
    requires
        pending_clear(old(w).pending@),
        old(w)@.meta is Some,
    ensures
        wf(*s, final(w)@),
        pending_clear(final(w).pending@),
        (final(w)@, r@) == write_locked(old(w)@, f),
{
    let mut m = w.meta.take().unwrap();
    m.state = LockState::Locked;
    let copy = m.clone();
    w.meta = Some(m);
    w.phase = Phase::FinishWrite(f);
    Step::Do(Action::WriteMeta(copy))
}

fn on_finish_write_exec(s: &Setup, w: &mut Work, f: FinishFor, r: Result<(), IoFailure>) -> (st: Step)
    requires
        pending_clear(old(w).pending@),
    ensures
        wf(*s, final(w)@),
        pending_clear(final(w).pending@),
        (final(w)@, st@) == on_finish_write(old(w)@, f, r),
{
    match r {
        Err(e) => finish_done_exec(s, w, f, Err(io_error("상태 파일 기록", e))),
        Ok(()) => begin_protect_exec(s, w, ProtectFor::Finish(f)),
    }
}

fn finish_done_exec(s: &Setup, w: &mut Work, f: FinishFor, r: Result<(), Error>) -> (st: Step)
    requires
        pending_clear(old(w).pending@),
    ensures
        wf(*s, final(w)@),
        pending_clear(final(w).pending@),
        (final(w)@, st@) == finish_done(old(w)@, f, match r {
            Ok(_) => Ok(()),
            Err(e) => Err(e@),
        }),
{
    match r {
        Ok(()) => match f {
            FinishFor::Lock => {
                let mut report = LockReport::default();
                std::mem::swap(&mut report, &mut w.locked);
                proof { assert(texts(w.locked.warnings@) =~= Seq::<Seq<char>>::empty()); }
                finish_with(w, Ok(Outcome::Locked(report)))
            },
            FinishFor::Resume => finish_with(w, Ok(Outcome::Now(Status::Locked))),
        },
        Err(e) => {
            w.cause = Some(e);
            begin_restore_exec(s, w, RestoreFor::Rollback)
        },
    }
}

} // verus!

verus! {

// ----- hiding and protecting the vault -----

fn begin_protect_exec(s: &Setup, w: &mut Work, t: ProtectFor) -> (r: Step)
    requires
        pending_clear(old(w).pending@),
    ensures
        wf(*s, final(w)@),
        pending_clear(final(w).pending@),
        (final(w)@, r@) == begin_protect(old(w)@, t),
{
    w.phase = Phase::ProtectHide(t);
    Step::Do(Action::Hide(Loc::Vault))
}

fn on_protect_hide_exec(s: &Setup, w: &mut Work, t: ProtectFor, r: Result<(), IoFailure>) -> (st: Step)
    requires
        pending_clear(old(w).pending@),
    ensures
        wf(*s, final(w)@),
        pending_clear(final(w).pending@),
        (final(w)@, st@) == on_protect_hide(old(w)@, t, r),
{
    match r {
        Err(e) => protect_done_exec(s, w, t, Err(io_error("보관 폴더 숨기기", e))),
        Ok(()) => {
            w.phase = Phase::ProtectData(t);
            Step::Do(Action::Protect(Loc::Data))
        },
    }
}

fn on_protect_data_exec(s: &Setup, w: &mut Work, t: ProtectFor, r: Result<(), IoFailure>) -> (st: Step)
    requires
        pending_clear(old(w).pending@),
    ensures
        wf(*s, final(w)@),
        pending_clear(final(w).pending@),
        (final(w)@, st@) == on_protect_data(old(w)@, t, r),
{
    match r {
        Err(e) => protect_done_exec(s, w, t, Err(io_error("보관 폴더 접근 차단", e))),
        Ok(()) => {
            w.phase = Phase::ProtectVault(t);
            Step::Do(Action::Protect(Loc::Vault))
        },
    }
}

fn on_protect_vault_exec(s: &Setup, w: &mut Work, t: ProtectFor, r: Result<(), IoFailure>) -> (st: Step)
    requires
        pending_clear(old(w).pending@),
    ensures
        wf(*s, final(w)@),
        pending_clear(final(w).pending@),
        (final(w)@, st@) == on_protect_vault(old(w)@, t, r),
{
    match r {
        Err(e) => protect_done_exec(s, w, t, Err(io_error("보관 폴더 접근 차단", e))),
        Ok(()) => protect_done_exec(s, w, t, Ok(())),
    }
}

fn protect_done_exec(s: &Setup, w: &mut Work, t: ProtectFor, r: Result<(), Error>) -> (st: Step)
    requires
        pending_clear(old(w).pending@),
    ensures
        wf(*s, final(w)@),
        pending_clear(final(w).pending@),
        (final(w)@, st@) == protect_done(old(w)@, t, match r {
            Ok(_) => Ok(()),
            Err(e) => Err(e@),
        }),
{
    match t {
        ProtectFor::Finish(f) => finish_done_exec(s, w, f, r),
        ProtectFor::ResumeLocked => match r {
            Ok(()) => finish_with(w, Ok(Outcome::Now(Status::Locked))),
            Err(e) => fail(w, e),
        },
        ProtectFor::SetPassword => {
            let c = w.cause.take();
            match r {
                Err(e) => fail(w, e),
                Ok(()) => match c {
                    None => finish_with(w, Ok(Outcome::Settled)),
                    Some(e) => fail(w, e),
                },
            }
        },
    }
}

// ----- opening the vault -----

pub open spec fn open_ready(t: OpenFor, w: WorkV) -> bool {
    match t {
        OpenFor::Restore(g) => keeps_cause(g, w) && w.restored == 0,
        OpenFor::ResumeLocking => w.meta is Some,
    }
}

fn begin_open_exec(s: &Setup, w: &mut Work, t: OpenFor) -> (r: Step)
    requires
        pending_clear(old(w).pending@),
        open_ready(t, old(w)@),
    ensures
        wf(*s, final(w)@),
        pending_clear(final(w).pending@),
        (final(w)@, r@) == begin_open(old(w)@, t),
{
    w.phase = Phase::OpenProbeVault(t);
    Step::Do(Action::Probe(Loc::Vault))
}

fn on_open_probe_vault_exec(s: &Setup, w: &mut Work, t: OpenFor, r: Result<bool, IoFailure>) -> (st: Step)
    requires
        pending_clear(old(w).pending@),
        open_ready(t, old(w)@),
    ensures
        wf(*s, final(w)@),
        pending_clear(final(w).pending@),
        (final(w)@, st@) == on_open_probe_vault(old(w)@, t, r),
{
    if r.is_ok() {
        w.phase = Phase::OpenVault(t);
        Step::Do(Action::Unprotect(Loc::Vault))
    } else {
        w.phase = Phase::OpenProbeData(t);
        Step::Do(Action::Probe(Loc::Data))
    }
}

fn on_open_vault_exec(s: &Setup, w: &mut Work, t: OpenFor, r: Result<(), IoFailure>) -> (st: Step)
    requires
        pending_clear(old(w).pending@),
        open_ready(t, old(w)@),
    ensures
        wf(*s, final(w)@),
        pending_clear(final(w).pending@),
        (final(w)@, st@) == on_open_vault(old(w)@, t, r),
{
    match r {
        Err(e) => open_done_exec(s, w, t, Err(io_error("보관 폴더 접근 허용", e))),
        Ok(()) => {
            w.phase = Phase::OpenProbeData(t);
            Step::Do(Action::Probe(Loc::Data))
        },
    }
}

fn on_open_probe_data_exec(s: &Setup, w: &mut Work, t: OpenFor, r: Result<bool, IoFailure>) -> (st: Step)
    requires
        pending_clear(old(w).pending@),
        open_ready(t, old(w)@),
    ensures
        wf(*s, final(w)@),
        pending_clear(final(w).pending@),
        (final(w)@, st@) == on_open_probe_data(old(w)@, t, r),
{
    if r.is_ok() {
        w.phase = Phase::OpenData(t);
        Step::Do(Action::Unprotect(Loc::Data))
    } else {
        open_done_exec(s, w, t, Ok(()))
    }
}

fn on_open_data_exec(s: &Setup, w: &mut Work, t: OpenFor, r: Result<(), IoFailure>) -> (st: Step)
    requires
        pending_clear(old(w).pending@),
        open_ready(t, old(w)@),
    ensures
        wf(*s, final(w)@),
        pending_clear(final(w).pending@),
        (final(w)@, st@) == on_open_data(old(w)@, t, r),
{
    match r {
        Err(e) => open_done_exec(s, w, t, Err(io_error("보관 폴더 접근 허용", e))),
        Ok(()) => open_done_exec(s, w, t, Ok(())),
    }
}

fn open_done_exec(s: &Setup, w: &mut Work, t: OpenFor, r: Result<(), Error>) -> (st: Step)
    requires
        pending_clear(old(w).pending@),
        open_ready(t, old(w)@),
    ensures
        wf(*s, final(w)@),
        pending_clear(final(w).pending@),
        (final(w)@, st@) == open_done(old(w)@, t, match r {
            Ok(_) => Ok(()),
            Err(e) => Err(e@),
        }),
{
    match t {
        OpenFor::Restore(g) => match r {
            Err(e) => restore_done_exec(s, w, g, Err(e)),
            Ok(()) => {
                w.phase = Phase::RestoreMeta(g);
                Step::Do(Action::LoadMeta)
            },
        },
        OpenFor::ResumeLocking => match r {
            Err(e) => fail(w, e),
            Ok(()) => begin_finish_exec(s, w, FinishFor::Resume),
        },
    }
}

// ----- putting everything back -----

fn begin_restore_exec(s: &Setup, w: &mut Work, g: RestoreFor) -> (r: Step)
    requires
        pending_clear(old(w).pending@),
        keeps_cause(g, old(w)@),
    ensures
        wf(*s, final(w)@),
        pending_clear(final(w).pending@),
        (final(w)@, r@) == begin_restore(old(w)@, g),
{
    w.restored = RestoreReport::default();
    w.failed = Vec::new();
    proof {
        assert(pairs(w.restored.renamed@) =~= Seq::<(Seq<char>, Seq<char>)>::empty());
        assert(texts(w.restored.warnings@) =~= Seq::<Seq<char>>::empty());
        assert(failures_view(w.failed@) =~= Seq::<(Seq<char>, IoV)>::empty());
    }
    begin_open_exec(s, w, OpenFor::Restore(g))
}

fn on_restore_meta_exec(s: &Setup, w: &mut Work, g: RestoreFor, f: MetaFacts) -> (st: Step)
    requires
        pending_clear(old(w).pending@),
        keeps_cause(g, old(w)@),
        old(w)@.restored == 0,
    ensures
        wf(*s, final(w)@),
        pending_clear(final(w).pending@),
        (final(w)@, st@) == on_restore_meta(old(w)@, g, f),
{
    let m = choose_meta(f);
    match m {
        Some(mm) => {
            if mm.state != LockState::Unlocking {
                let mut marked = mm.clone();
                marked.state = LockState::Unlocking;
                w.meta = Some(mm);
                w.phase = Phase::RestoreMark(g);
                Step::Do(Action::WriteMeta(marked))
            } else {
                w.meta = Some(mm);
                after_mark_exec(s, w, g)
            }
        },
        None => {
            w.meta = None;
            after_mark_exec(s, w, g)
        },
    }
}

fn on_restore_mark_exec(s: &Setup, w: &mut Work, g: RestoreFor, r: Result<(), IoFailure>) -> (st: Step)
    requires
        pending_clear(old(w).pending@),
        keeps_cause(g, old(w)@),
        old(w)@.restored == 0,
    ensures
        wf(*s, final(w)@),
        pending_clear(final(w).pending@),
        (final(w)@, st@) == on_restore_mark(old(w)@, g, r),
{
    match r {
        Err(e) => restore_done_exec(s, w, g, Err(io_error("상태 파일 기록", e))),
        Ok(()) => after_mark_exec(s, w, g),
    }
}

fn probe_data_exec(s: &Setup, w: &mut Work, g: RestoreFor) -> (r: Step)
    requires
        pending_clear(old(w).pending@),
        keeps_cause(g, old(w)@),
        old(w)@.restored == 0,
    ensures
        wf(*s, final(w)@),
        pending_clear(final(w).pending@),
        (final(w)@, r@) == probe_data(old(w)@, g),
{
    w.phase = Phase::RestoreProbeData(g);
    Step::Do(Action::Probe(Loc::Data))
}

fn after_mark_exec(s: &Setup, w: &mut Work, g: RestoreFor) -> (r: Step)
    requires
        pending_clear(old(w).pending@),
        keeps_cause(g, old(w)@),
        old(w)@.restored == 0,
    ensures
        wf(*s, final(w)@),
        pending_clear(final(w).pending@),
        (final(w)@, r@) == after_mark(old(w)@, g),
{
    let name = match &w.meta {
        Some(m) => match &m.unlock_exe {
            Some(e) => Some(e.name.clone()),
            None => None,
        },
        None => None,
    };
    match name {
        Some(n) => {
            w.phase = Phase::RestoreHashExe(g);
            Step::Do(Action::Read(Loc::RootItem(n)))
        },
        None => probe_data_exec(s, w, g),
    }
}

fn warn_exec(w: &mut Work, m: String)
    ensures
        final(w).pending == old(w).pending,
        final(w)@ == warn(old(w)@, m@),
{
    proof { lemma_texts_push(w.restored.warnings@, m); }
    w.restored.warnings.push(m);
}

fn on_restore_hash_exe_exec(s: &Setup, w: &mut Work, g: RestoreFor, r: Result<Vec<u8>, IoFailure>) -> (st: Step)
    requires
        pending_clear(old(w).pending@),
        keeps_cause(g, old(w)@),
        old(w)@.restored == 0,
        has_exe(old(w)@.meta),
    ensures
        wf(*s, final(w)@),
        pending_clear(final(w).pending@),
        (final(w)@, st@) == on_restore_hash_exe(old(w)@, g, r),
{
    let name = w.meta.as_ref().unwrap().unlock_exe.as_ref().unwrap().name.clone();
    match r {
        Ok(b) => {
            let fp = fingerprint_text(b.as_slice());
            let same = crate::text::same_text(
                fp.as_str(),
                w.meta.as_ref().unwrap().unlock_exe.as_ref().unwrap().sha256.as_str(),
            );
            if same {
                w.phase = Phase::RestoreRemoveExe(g);
                Step::Do(Action::RemoveFile(Loc::RootItem(name)))
            } else {
                warn_exec(w, text("'").concat(name.as_str()).concat("'가 처음 넣은 파일과 달라 그대로 두었습니다."));
                probe_data_exec(s, w, g)
            }
        },
        Err(x) => {
            if x.kind == IoKind::NotFound {
                probe_data_exec(s, w, g)
            } else {
                warn_exec(w, text("'").concat(name.as_str()).concat("' 확인 실패: ").concat(x.message.as_str()));
                probe_data_exec(s, w, g)
            }
        },
    }
}

fn on_restore_remove_exe_exec(s: &Setup, w: &mut Work, g: RestoreFor, r: Result<(), IoFailure>) -> (st: Step)
    requires
        pending_clear(old(w).pending@),
        keeps_cause(g, old(w)@),
        old(w)@.restored == 0,
        has_exe(old(w)@.meta),
    ensures
        wf(*s, final(w)@),
        pending_clear(final(w).pending@),
        (final(w)@, st@) == on_restore_remove_exe(old(w)@, g, r),
{
    match r {
        Err(x) => {
            let name = w.meta.as_ref().unwrap().unlock_exe.as_ref().unwrap().name.clone();
            warn_exec(w, text("'").concat(name.as_str()).concat("'를 지우지 못했습니다. 직접 지워도 됩니다: ").concat(x.message.as_str()));
            probe_data_exec(s, w, g)
        },
        Ok(()) => probe_data_exec(s, w, g),
    }
}

fn on_restore_probe_data_exec(s: &Setup, w: &mut Work, g: RestoreFor, r: Result<bool, IoFailure>) -> (st: Step)
    requires
        pending_clear(old(w).pending@),
        keeps_cause(g, old(w)@),
        old(w)@.restored == 0,
    ensures
        wf(*s, final(w)@),
        pending_clear(final(w).pending@),
        (final(w)@, st@) == on_restore_probe_data(old(w)@, g, r),
{
    if r.is_ok() {
        w.phase = Phase::RestoreList(g);
        Step::Do(Action::List(Loc::Data))
    } else {
        after_items_exec(s, w, g)
    }
}

fn on_restore_list_exec(s: &Setup, w: &mut Work, g: RestoreFor, r: Result<Vec<String>, IoFailure>) -> (st: Step)
    requires
        pending_clear(old(w).pending@),
        keeps_cause(g, old(w)@),
        old(w)@.restored == 0,
    ensures
        wf(*s, final(w)@),
        pending_clear(final(w).pending@),
        (final(w)@, st@) == on_restore_list(old(w)@, g, r),
{
    match r {
        Err(e) => restore_done_exec(s, w, g, Err(io_error("보관 폴더 목록 읽기", e))),
        Ok(v) => {
            let mut v = v;
            let ghost listed = texts(v@);
            sort_names(&mut v);
            proof { crate::text::lemma_sorted_texts(listed, texts(v@)); }
            w.names = v;
            w.scan_at = 0;
            next_item_exec(s, w, g)
        },
    }
}

fn next_item_exec(s: &Setup, w: &mut Work, g: RestoreFor) -> (r: Step)
    requires
        pending_clear(old(w).pending@),
        keeps_cause(g, old(w)@),
        old(w)@.restored <= old(w)@.scan_at <= old(w)@.names.len(),
    ensures
        wf(*s, final(w)@),
        pending_clear(final(w).pending@),
        (final(w)@, r@) == next_item(old(w)@, g),
{
    if w.scan_at < w.names.len() {
        let name = w.names[w.scan_at].clone();
        w.phase = Phase::RestoreProbeItem(g);
        Step::Do(Action::Probe(Loc::DataItem(name)))
    } else {
        after_items_exec(s, w, g)
    }
}

fn fail_item_exec(w: &mut Work, e: IoFailure)
    requires
        old(w)@.scan_at < old(w)@.names.len(),
    ensures
        final(w).pending == old(w).pending,
        final(w)@ == fail_item(old(w)@, e@),
        final(w)@.scan_at == old(w)@.scan_at + 1,
{
    let _n = w.names.len();
    let name = w.names[w.scan_at].clone();
    proof { lemma_failures_push(w.failed@, (name, e)); }
    w.failed.push((name, e));
    w.scan_at = w.scan_at + 1;
}

fn on_restore_probe_item_exec(s: &Setup, w: &mut Work, g: RestoreFor, r: Result<bool, IoFailure>) -> (st: Step)
    requires
        pending_clear(old(w).pending@),
        keeps_cause(g, old(w)@),
        old(w)@.restored <= old(w)@.scan_at < old(w)@.names.len(),
    ensures
        wf(*s, final(w)@),
        pending_clear(final(w).pending@),
        (final(w)@, st@) == on_restore_probe_item(old(w)@, g, r),
{
    match r {
        Err(e) => {
            fail_item_exec(w, e);
            next_item_exec(s, w, g)
        },
        Ok(d) => {
            w.is_dir = d;
            w.attempt = 0;
            seek_exec(s, w, g)
        },
    }
}

proof fn lemma_first_from_step(i: int, len: int, p: spec_fn(int) -> bool)
    requires
        i < len,
        !p(i),
    ensures
        crate::guard::first_from(i, len, p) == crate::guard::first_from(i + 1, len, p),
{
}

fn seek_exec(s: &Setup, w: &mut Work, g: RestoreFor) -> (r: Step)
    requires
        pending_clear(old(w).pending@),
        keeps_cause(g, old(w)@),
        old(w)@.restored <= old(w)@.scan_at < old(w)@.names.len(),
        old(w)@.attempt <= 1000,
    ensures
        wf(*s, final(w)@),
        pending_clear(final(w).pending@),
        (final(w)@, r@) == seek(old(w)@, g),
{
    let name = w.names[w.scan_at].clone();
    let ghost nm = w@.names[w@.scan_at as int];
    let ghost p = usable(nm, w@.is_dir);
    let ghost w0 = w@;
    while w.attempt < 1000
        invariant
            w@ == (WorkV { attempt: w@.attempt, ..w0 }),
            w0 == old(w)@,
            pending_clear(w.pending@),
            keeps_cause(g, w0),
            w0.restored <= w0.scan_at < w0.names.len(),
            w@.attempt <= 1000,
            name@ == nm,
            nm == w0.names[w0.scan_at as int],
            p == usable(nm, w0.is_dir),
            crate::guard::first_from(w@.attempt as int, 1000, p) == crate::guard::first_from(w0.attempt as int, 1000, p),
        decreases 1000 - w.attempt,
    {
        let cand = if w.attempt == 0 { name.clone() } else { conflict_name(name.as_str(), w.attempt, w.is_dir) };
        assert(cand@ == candidate_of(nm, w@.attempt as int, w@.is_dir));
        if !crate::text::same_text(cand.as_str(), VAULT_DIR) {
            assert(p(w@.attempt as int));
            assert(crate::guard::first_from(w@.attempt as int, 1000, p) == w@.attempt);
            let ghost k = w@.attempt;
            w.candidate = cand.clone();
            w.phase = Phase::RestoreProbeTarget(g);
            let st = Step::Do(Action::Probe(Loc::RootItem(cand)));
            assert(w@ == (WorkV { attempt: k, candidate: cand@, phase: Phase::RestoreProbeTarget(g), ..w0 }));
            return st;
        }
        proof { lemma_first_from_step(w@.attempt as int, 1000, p); }
        w.attempt = w.attempt + 1;
    }
    fail_item_exec(w, IoFailure { kind: IoKind::Other, message: text("겹치지 않는 이름을 찾지 못했습니다") });
    next_item_exec(s, w, g)
}

fn on_restore_probe_target_exec(s: &Setup, w: &mut Work, g: RestoreFor, r: Result<bool, IoFailure>) -> (st: Step)
    requires
        pending_clear(old(w).pending@),
        keeps_cause(g, old(w)@),
        old(w)@.restored <= old(w)@.scan_at < old(w)@.names.len(),
        old(w)@.attempt < 1000,
        old(w)@.candidate == candidate_of(old(w)@.names[old(w)@.scan_at as int], old(w)@.attempt as int, old(w)@.is_dir),
        old(w)@.candidate != VAULT_DIR@,
    ensures
        wf(*s, final(w)@),
        pending_clear(final(w).pending@),
        (final(w)@, st@) == on_restore_probe_target(old(w)@, g, r),
{
    if r.is_ok() {
        w.attempt = w.attempt + 1;
        seek_exec(s, w, g)
    } else {
        let name = w.names[w.scan_at].clone();
        let to = w.candidate.clone();
        w.phase = Phase::RestoreMove(g);
        Step::Do(Action::Move { from: Loc::DataItem(name), to: Loc::RootItem(to) })
    }
}

fn on_restore_move_exec(s: &Setup, w: &mut Work, g: RestoreFor, r: Result<(), IoFailure>) -> (st: Step)
    requires
        pending_clear(old(w).pending@),
        keeps_cause(g, old(w)@),
        old(w)@.restored <= old(w)@.scan_at < old(w)@.names.len(),
        old(w)@.attempt < 1000,
    ensures
        wf(*s, final(w)@),
        pending_clear(final(w).pending@),
        (final(w)@, st@) == on_restore_move(old(w)@, g, r),
{
    match r {
        Ok(()) => {
            let _n = w.names.len();
            w.restored.restored = w.restored.restored + 1;
            if w.attempt != 0 {
                let pair = (w.names[w.scan_at].clone(), w.candidate.clone());
                proof { lemma_pairs_push(w.restored.renamed@, pair); }
                w.restored.renamed.push(pair);
            }
            w.scan_at = w.scan_at + 1;
            next_item_exec(s, w, g)
        },
        Err(e) => {
            if e.kind == IoKind::AlreadyExists {
                w.attempt = w.attempt + 1;
                seek_exec(s, w, g)
            } else {
                fail_item_exec(w, e);
                next_item_exec(s, w, g)
            }
        },
    }
}

fn after_items_exec(s: &Setup, w: &mut Work, g: RestoreFor) -> (r: Step)
    requires
        pending_clear(old(w).pending@),
        keeps_cause(g, old(w)@),
    ensures
        wf(*s, final(w)@),
        pending_clear(final(w).pending@),
        (final(w)@, r@) == after_items(old(w)@, g),
{
    if w.failed.len() > 0 {
        let mut failed = Vec::new();
        std::mem::swap(&mut failed, &mut w.failed);
        proof { assert(failures_view(w.failed@) =~= Seq::<(Seq<char>, IoV)>::empty()); }
        restore_done_exec(s, w, g, Err(Error::Incomplete { failed }))
    } else {
        w.phase = Phase::RestoreRemoveMeta(g);
        Step::Do(Action::RemoveFile(Loc::Meta))
    }
}

fn on_restore_remove_meta_exec(s: &Setup, w: &mut Work, g: RestoreFor, r: Result<(), IoFailure>) -> (st: Step)
    requires
        pending_clear(old(w).pending@),
        keeps_cause(g, old(w)@),
    ensures
        wf(*s, final(w)@),
        pending_clear(final(w).pending@),
        (final(w)@, st@) == on_restore_remove_meta(old(w)@, g, r),
{
    match r {
        Err(e) if e.kind != IoKind::NotFound => restore_done_exec(s, w, g, Err(io_error("상태 파일 정리", e))),
        _ => {
            w.phase = Phase::RestoreRemoveTmp(g);
            Step::Do(Action::RemoveFile(Loc::MetaTmp))
        },
    }
}

fn on_restore_remove_tmp_exec(s: &Setup, w: &mut Work, g: RestoreFor, r: Result<(), IoFailure>) -> (st: Step)
    requires
        pending_clear(old(w).pending@),
        keeps_cause(g, old(w)@),
    ensures
        wf(*s, final(w)@),
        pending_clear(final(w).pending@),
        (final(w)@, st@) == on_restore_remove_tmp(old(w)@, g, r),
{
    match r {
        Err(e) if e.kind != IoKind::NotFound => restore_done_exec(s, w, g, Err(io_error("상태 파일 정리", e))),
        _ => begin_dirs_exec(s, w, DirsFor::Restore(g)),
    }
}

fn restore_done_exec(s: &Setup, w: &mut Work, g: RestoreFor, r: Result<(), Error>) -> (st: Step)
    requires
        pending_clear(old(w).pending@),
        keeps_cause(g, old(w)@),
    ensures
        wf(*s, final(w)@),
        pending_clear(final(w).pending@),
        (final(w)@, st@) == restore_done(old(w)@, g, match r {
            Ok(_) => Ok(()),
            Err(e) => Err(e@),
        }),
{
    match g {
        RestoreFor::Rollback => {
            let cause = w.cause.take().unwrap();
            match r {
                Ok(()) => fail(w, cause),
                Err(e) => fail(w, Error::RollbackFailed { cause: Box::new(cause), rollback: Box::new(e) }),
            }
        },
        RestoreFor::Report => {
            let mut report = RestoreReport::default();
            std::mem::swap(&mut report, &mut w.restored);
            proof {
                assert(pairs(w.restored.renamed@) =~= Seq::<(Seq<char>, Seq<char>)>::empty());
                assert(texts(w.restored.warnings@) =~= Seq::<Seq<char>>::empty());
            }
            match r {
                Ok(()) => finish_with(w, Ok(Outcome::Restored(report))),
                Err(e) => fail(w, e),
            }
        },
        RestoreFor::ResumeUnlocking => match r {
            Ok(()) => finish_with(w, Ok(Outcome::Now(Status::Unlocked))),
            Err(e) => fail(w, e),
        },
    }
}

} // verus!

verus! {

// ----- unlocking, resuming, changing the password -----

fn on_unlock_survey_exec(s: &Setup, w: &mut Work, sv: Survey) -> (st: Step)
    requires
        pending_clear(old(w).pending@),
    ensures
        wf(*s, final(w)@),
        pending_clear(final(w).pending@),
        (final(w)@, st@) == on_unlock_survey(old(w)@, sv),
{
    match classify(sv) {
        Err(e) => fail(w, e),
        Ok(Status::Unlocked) | Ok(Status::Stale) => fail(w, Error::NotLocked),
        Ok(_) => {
            w.phase = Phase::UnlockMeta;
            Step::Do(Action::LoadMeta)
        },
    }
}

fn on_unlock_meta_exec(s: &Setup, w: &mut Work, f: MetaFacts) -> (st: Step)
    requires
        pending_clear(old(w).pending@),
    ensures
        wf(*s, final(w)@),
        pending_clear(final(w).pending@),
        (final(w)@, st@) == on_unlock_meta(*s, old(w)@, f),
{
    let hash = match choose_meta(f) {
        Some(m) => Some(m.password_hash),
        None => match &s.fallback {
            Some(h) => Some(h.clone()),
            None => None,
        },
    };
    match hash {
        None => fail(w, Error::NoPasswordInfo),
        Some(h) => {
            w.phase = Phase::UnlockVerify;
            Step::Do(Action::Verify { password: s.password.clone(), hash: h })
        },
    }
}

fn on_unlock_verify_exec(s: &Setup, w: &mut Work, ok: bool) -> (st: Step)
    requires
        pending_clear(old(w).pending@),
    ensures
        wf(*s, final(w)@),
        pending_clear(final(w).pending@),
        (final(w)@, st@) == on_unlock_verify(old(w)@, ok),
{
    if ok {
        begin_restore_exec(s, w, RestoreFor::Report)
    } else {
        fail(w, Error::WrongPassword)
    }
}

fn on_resume_survey_exec(s: &Setup, w: &mut Work, sv: Survey) -> (st: Step)
    requires
        pending_clear(old(w).pending@),
    ensures
        wf(*s, final(w)@),
        pending_clear(final(w).pending@),
        (final(w)@, st@) == on_resume_survey(old(w)@, sv),
{
    match classify(sv) {
        Err(e) => fail(w, e),
        Ok(Status::Unlocked) => finish_with(w, Ok(Outcome::Now(Status::Unlocked))),
        Ok(Status::Stale) => begin_cleanup_exec(s, w, CleanupFor::ResumeStale),
        Ok(Status::Locked) => begin_protect_exec(s, w, ProtectFor::ResumeLocked),
        Ok(Status::Interrupted(LockState::Locking)) => {
            w.phase = Phase::ResumeMeta;
            Step::Do(Action::LoadMeta)
        },
        Ok(Status::Interrupted(_)) => begin_restore_exec(s, w, RestoreFor::ResumeUnlocking),
        Ok(Status::Broken) => fail(w, Error::Broken),
    }
}

fn on_resume_resurvey_exec(s: &Setup, w: &mut Work, sv: Survey) -> (st: Step)
    requires
        pending_clear(old(w).pending@),
    ensures
        wf(*s, final(w)@),
        pending_clear(final(w).pending@),
        (final(w)@, st@) == on_resume_resurvey(old(w)@, sv),
{
    match classify(sv) {
        Ok(st) => finish_with(w, Ok(Outcome::Now(st))),
        Err(e) => fail(w, e),
    }
}

fn on_resume_meta_exec(s: &Setup, w: &mut Work, f: MetaFacts) -> (st: Step)
    requires
        pending_clear(old(w).pending@),
    ensures
        wf(*s, final(w)@),
        pending_clear(final(w).pending@),
        (final(w)@, st@) == on_resume_meta(old(w)@, f),
{
    match choose_meta(f) {
        None => fail(w, Error::Broken),
        Some(m) => {
            w.meta = Some(m);
            begin_open_exec(s, w, OpenFor::ResumeLocking)
        },
    }
}

fn on_pw_survey_exec(s: &Setup, w: &mut Work, sv: Survey) -> (st: Step)
    requires
        pending_clear(old(w).pending@),
    ensures
        wf(*s, final(w)@),
        pending_clear(final(w).pending@),
        (final(w)@, st@) == on_pw_survey(old(w)@, sv),
{
    match classify(sv) {
        Err(e) => fail(w, e),
        Ok(Status::Locked) => {
            w.phase = Phase::PwMeta;
            Step::Do(Action::LoadMeta)
        },
        Ok(_) => finish_with(w, Ok(Outcome::Settled)),
    }
}

fn on_pw_meta_exec(s: &Setup, w: &mut Work, f: MetaFacts) -> (st: Step)
    requires
        pending_clear(old(w).pending@),
    ensures
        wf(*s, final(w)@),
        pending_clear(final(w).pending@),
        (final(w)@, st@) == on_pw_meta(*s, old(w)@, f),
{
    match choose_meta(f) {
        None => fail(w, Error::Broken),
        Some(m) => {
            let mut m = m;
            m.password_hash = s.hash.clone();
            w.meta = Some(m);
            w.phase = Phase::PwUnprotect;
            Step::Do(Action::Unprotect(Loc::Vault))
        },
    }
}

fn on_pw_unprotect_exec(s: &Setup, w: &mut Work, r: Result<(), IoFailure>) -> (st: Step)
    requires
        pending_clear(old(w).pending@),
        old(w)@.meta is Some,
    ensures
        wf(*s, final(w)@),
        pending_clear(final(w).pending@),
        (final(w)@, st@) == on_pw_unprotect(old(w)@, r),
{
    match r {
        Err(e) => fail(w, io_error("보관 폴더 접근 허용", e)),
        Ok(()) => {
            let m = w.meta.as_ref().unwrap().clone();
            w.phase = Phase::PwWrite;
            Step::Do(Action::WriteMeta(m))
        },
    }
}

fn on_pw_write_exec(s: &Setup, w: &mut Work, r: Result<(), IoFailure>) -> (st: Step)
    requires
        pending_clear(old(w).pending@),
    ensures
        wf(*s, final(w)@),
        pending_clear(final(w).pending@),
        (final(w)@, st@) == on_pw_write(old(w)@, r),
{
    w.cause = match r {
        Err(e) => Some(io_error("상태 파일 기록", e)),
        Ok(()) => None,
    };
    begin_protect_exec(s, w, ProtectFor::SetPassword)
}

// ---------- tasks ----------

/// One run of an engine operation. Drive it by calling `step` with
/// `Event::Start`, then with the answer to each request, until it finishes.
#[derive(Debug)]
pub struct Task {
    pub setup: Setup,
    pub work: Work,
}

/// The state of a task that has not started.
pub open spec fn fresh(w: WorkV) -> bool {
    &&& w.phase == Phase::Ready
    &&& w.meta is None
    &&& w.moved == 0
    &&& w.lock_warnings.len() == 0
    &&& w.restored == 0
    &&& w.renamed.len() == 0
    &&& w.restore_warnings.len() == 0
    &&& w.names.len() == 0
    &&& w.scan_at == 0
    &&& w.pending.len() == 0
    &&& w.move_at == 0
    &&& w.failed.len() == 0
    &&& w.cause is None
    &&& w.notes.len() == 0
    &&& w.attempt == 0
    &&& !w.is_dir
    &&& w.candidate.len() == 0
}

fn new_work() -> (w: Work)
    ensures
        fresh(w@),
{
    Work {
        phase: Phase::Ready,
        meta: None,
        locked: LockReport::default(),
        restored: RestoreReport::default(),
        names: Vec::new(),
        scan_at: 0,
        pending: Vec::new(),
        move_at: 0,
        failed: Vec::new(),
        cause: None,
        notes: Vec::new(),
        attempt: 0,
        is_dir: false,
        candidate: String::new(),
    }
}

impl Task {
    pub open spec fn wf(&self) -> bool {
        wf(self.setup, self.work@) && pending_clear(self.work.pending@)
    }

    pub open spec fn accepts(&self, ev: Event) -> bool {
        accepts(self.setup, self.work.phase, ev)
    }

    /// Whether the task has produced its result.
    pub fn is_finished(&self) -> (b: bool)
        ensures
            b == (self.work.phase == Phase::Finished),
    {
        self.work.phase == Phase::Finished
    }

    /// Whether `ev` answers the task's last request (the guard's facts must
    /// list as many rule paths as the engine's rules).
    pub fn accepts_event(&self, ev: &Event) -> (b: bool)
        ensures
            b == self.accepts(*ev),
    {
        match (self.work.phase, ev) {
            (Phase::Ready, Event::Start) => true,
            (Phase::LockInspect, Event::Inspected(facts)) => {
                facts.resolved_rules.forbidden_exact.len() == self.setup.rules.forbidden_exact.len()
                    && facts.resolved_rules.forbidden_tree.len() == self.setup.rules.forbidden_tree.len()
                    && facts.resolved_rules.must_not_contain.len() == self.setup.rules.must_not_contain.len()
            },
            (Phase::LockSurvey, Event::Surveyed(_)) => true,
            (Phase::UnlockSurvey, Event::Surveyed(_)) => true,
            (Phase::ResumeSurvey, Event::Surveyed(_)) => true,
            (Phase::ResumeResurvey, Event::Surveyed(_)) => true,
            (Phase::PwSurvey, Event::Surveyed(_)) => true,
            (Phase::UnlockMeta, Event::MetaLoaded(_)) => true,
            (Phase::ResumeMeta, Event::MetaLoaded(_)) => true,
            (Phase::PwMeta, Event::MetaLoaded(_)) => true,
            (Phase::RestoreMeta(_), Event::MetaLoaded(_)) => true,
            (Phase::LockVaultGone, Event::Probed(_)) => true,
            (Phase::FinishProbeData(_), Event::Probed(_)) => true,
            (Phase::FinishProbeExe(_), Event::Probed(_)) => true,
            (Phase::OpenProbeVault(_), Event::Probed(_)) => true,
            (Phase::OpenProbeData(_), Event::Probed(_)) => true,
            (Phase::RestoreProbeData(_), Event::Probed(_)) => true,
            (Phase::RestoreProbeItem(_), Event::Probed(_)) => true,
            (Phase::RestoreProbeTarget(_), Event::Probed(_)) => true,
            (Phase::FinishList(_), Event::Listed(_)) => true,
            (Phase::RestoreList(_), Event::Listed(_)) => true,
            (Phase::LockHashSource, Event::Read(_)) => true,
            (Phase::FinishHashItem(_), Event::Read(_)) => true,
            (Phase::RestoreHashExe(_), Event::Read(_)) => true,
            (Phase::UnlockVerify, Event::Verified(_)) => true,
            (Phase::Ready, _) | (Phase::Finished, _) | (Phase::LockInspect, _) => false,
            (Phase::LockSurvey, _) | (Phase::UnlockSurvey, _) | (Phase::ResumeSurvey, _) => false,
            (Phase::ResumeResurvey, _) | (Phase::PwSurvey, _) => false,
            (Phase::UnlockMeta, _) | (Phase::ResumeMeta, _) | (Phase::PwMeta, _) | (Phase::RestoreMeta(_), _) => false,
            (Phase::LockVaultGone, _) | (Phase::FinishProbeData(_), _) | (Phase::FinishProbeExe(_), _) => false,
            (Phase::OpenProbeVault(_), _) | (Phase::OpenProbeData(_), _) | (Phase::RestoreProbeData(_), _) => false,
            (Phase::RestoreProbeItem(_), _) | (Phase::RestoreProbeTarget(_), _) => false,
            (Phase::FinishList(_), _) | (Phase::RestoreList(_), _) => false,
            (Phase::LockHashSource, _) | (Phase::FinishHashItem(_), _) | (Phase::RestoreHashExe(_), _) => false,
            (Phase::UnlockVerify, _) => false,
            (_, Event::Done(_)) => true,
            (_, _) => false,
        }
    }

    /// Takes the answer to the last request and returns the next request or the result.
    /// `absolute` and `has_parent` in the contract are what the platform's
    /// path syntax said of the folder when the guard's facts were checked.
    pub fn step(&mut self, ev: Event) -> (r: Step)
        requires
            old(self).wf(),
            old(self).accepts(ev),
        ensures
            final(self).wf(),
            final(self).setup == old(self).setup,
            exists|absolute: bool, has_parent: bool|
                (final(self).work@, r@) == next(old(self).setup, old(self).work@, ev, absolute, has_parent),
    {
        let ghost ev0 = ev;
        let s = &self.setup;
        let w = &mut self.work;
        match ev {
            Event::Start => {
                let r = step_start(s, w);
                assert(ev0 == Event::Start);
                assert((w@, r@) == next(*s, old(self).work@, ev0, false, false));
                r
            },
            Event::Inspected(facts) => {
                let ghost w0 = w@;
                let ghost f0 = facts;
                let r = on_lock_inspect_exec(s, w, facts);
                let ghost (a, h) = choose|a: bool, h: bool| (w@, r@) == on_lock_inspect(*s, w0, f0, a, h);
                assert(ev0 == Event::Inspected(f0));
                assert((w@, r@) == next(*s, old(self).work@, ev0, a, h));
                r
            },
            Event::Surveyed(sv) => {
                let ghost e = Event::Surveyed(sv);
                let r = step_surveyed(s, w, sv);
                assert(ev0 == e);
                assert((w@, r@) == next(*s, old(self).work@, ev0, false, false));
                r
            },
            Event::MetaLoaded(f) => {
                let ghost e = Event::MetaLoaded(f);
                let r = step_meta(s, w, f);
                assert(ev0 == e);
                assert((w@, r@) == next(*s, old(self).work@, ev0, false, false));
                r
            },
            Event::Probed(x) => {
                let ghost e = Event::Probed(x);
                let r = step_probed(s, w, x);
                assert(ev0 == e);
                assert((w@, r@) == next(*s, old(self).work@, ev0, false, false));
                r
            },
            Event::Listed(x) => {
                let ghost e = Event::Listed(x);
                let r = step_listed(s, w, x);
                assert(ev0 == e);
                assert((w@, r@) == next(*s, old(self).work@, ev0, false, false));
                r
            },
            Event::Read(x) => {
                let ghost e = Event::Read(x);
                let r = step_read(s, w, x);
                assert(ev0 == e);
                assert((w@, r@) == next(*s, old(self).work@, ev0, false, false));
                r
            },
            Event::Verified(ok) => {
                let r = on_unlock_verify_exec(s, w, ok);
                assert(ev0 == Event::Verified(ok));
                assert((w@, r@) == next(*s, old(self).work@, ev0, false, false));
                r
            },
            Event::Done(x) => {
                let ghost e = Event::Done(x);
                let r = step_done(s, w, x);
                assert(ev0 == e);
                assert((w@, r@) == next(*s, old(self).work@, ev0, false, false));
                r
            },
        }
    }
}

fn step_start(s: &Setup, w: &mut Work) -> (r: Step)
    requires
        pending_clear(old(w).pending@),
        wf(*s, old(w)@),
        accepts(*s, old(w).phase, Event::Start),
    ensures
        wf(*s, final(w)@),
        pending_clear(final(w).pending@),
        (final(w)@, r@) == next(*s, old(w)@, Event::Start, false, false),
{
    start_exec(s, w)
}

fn step_surveyed(s: &Setup, w: &mut Work, sv: Survey) -> (r: Step)
    requires
        pending_clear(old(w).pending@),
        wf(*s, old(w)@),
        accepts(*s, old(w).phase, Event::Surveyed(sv)),
    ensures
        wf(*s, final(w)@),
        pending_clear(final(w).pending@),
        (final(w)@, r@) == next(*s, old(w)@, Event::Surveyed(sv), false, false),
{
    match w.phase {
        Phase::LockSurvey => on_lock_survey_exec(s, w, sv),
        Phase::UnlockSurvey => on_unlock_survey_exec(s, w, sv),
        Phase::ResumeSurvey => on_resume_survey_exec(s, w, sv),
        Phase::ResumeResurvey => on_resume_resurvey_exec(s, w, sv),
        _ => on_pw_survey_exec(s, w, sv),
    }
}

fn step_meta(s: &Setup, w: &mut Work, f: MetaFacts) -> (r: Step)
    requires
        pending_clear(old(w).pending@),
        wf(*s, old(w)@),
        accepts(*s, old(w).phase, Event::MetaLoaded(f)),
    ensures
        wf(*s, final(w)@),
        pending_clear(final(w).pending@),
        (final(w)@, r@) == next(*s, old(w)@, Event::MetaLoaded(f), false, false),
{
    match w.phase {
        Phase::UnlockMeta => on_unlock_meta_exec(s, w, f),
        Phase::ResumeMeta => on_resume_meta_exec(s, w, f),
        Phase::PwMeta => on_pw_meta_exec(s, w, f),
        Phase::RestoreMeta(g) => on_restore_meta_exec(s, w, g, f),
        _ => on_unlock_meta_exec(s, w, f),
    }
}

fn step_probed(s: &Setup, w: &mut Work, x: Result<bool, IoFailure>) -> (r: Step)
    requires
        pending_clear(old(w).pending@),
        wf(*s, old(w)@),
        accepts(*s, old(w).phase, Event::Probed(x)),
    ensures
        wf(*s, final(w)@),
        pending_clear(final(w).pending@),
        (final(w)@, r@) == next(*s, old(w)@, Event::Probed(x), false, false),
{
    match w.phase {
        Phase::LockVaultGone => on_lock_vault_gone_exec(s, w, x),
        Phase::FinishProbeData(f) => on_finish_probe_data_exec(s, w, f, x),
        Phase::FinishProbeExe(f) => on_finish_probe_exe_exec(s, w, f, x),
        Phase::OpenProbeVault(t) => on_open_probe_vault_exec(s, w, t, x),
        Phase::OpenProbeData(t) => on_open_probe_data_exec(s, w, t, x),
        Phase::RestoreProbeData(g) => on_restore_probe_data_exec(s, w, g, x),
        Phase::RestoreProbeItem(g) => on_restore_probe_item_exec(s, w, g, x),
        Phase::RestoreProbeTarget(g) => on_restore_probe_target_exec(s, w, g, x),
        _ => on_lock_vault_gone_exec(s, w, x),
    }
}

fn step_listed(s: &Setup, w: &mut Work, x: Result<Vec<String>, IoFailure>) -> (r: Step)
    requires
        pending_clear(old(w).pending@),
        wf(*s, old(w)@),
        accepts(*s, old(w).phase, Event::Listed(x)),
    ensures
        wf(*s, final(w)@),
        pending_clear(final(w).pending@),
        (final(w)@, r@) == next(*s, old(w)@, Event::Listed(x), false, false),
{
    match w.phase {
        Phase::FinishList(f) => on_finish_list_exec(s, w, f, x),
        Phase::RestoreList(g) => on_restore_list_exec(s, w, g, x),
        _ => on_finish_list_exec(s, w, FinishFor::Lock, x),
    }
}

fn step_read(s: &Setup, w: &mut Work, x: Result<Vec<u8>, IoFailure>) -> (r: Step)
    requires
        pending_clear(old(w).pending@),
        wf(*s, old(w)@),
        accepts(*s, old(w).phase, Event::Read(x)),
    ensures
        wf(*s, final(w)@),
        pending_clear(final(w).pending@),
        (final(w)@, r@) == next(*s, old(w)@, Event::Read(x), false, false),
{
    match w.phase {
        Phase::LockHashSource => on_lock_hash_source_exec(s, w, x),
        Phase::FinishHashItem(f) => on_finish_hash_item_exec(s, w, f, x),
        Phase::RestoreHashExe(g) => on_restore_hash_exe_exec(s, w, g, x),
        _ => on_lock_hash_source_exec(s, w, x),
    }
}

pub open spec fn settles_state(p: Phase) -> bool {
    match p {
        Phase::LockCreateVault | Phase::LockWriteMeta | Phase::PwUnprotect | Phase::PwWrite => true,
        Phase::CleanupTmp(_) | Phase::DirsData(_) | Phase::DirsVault(_) => true,
        Phase::ProtectHide(_) | Phase::ProtectData(_) | Phase::ProtectVault(_) => true,
        _ => false,
    }
}

fn step_done(s: &Setup, w: &mut Work, x: Result<(), IoFailure>) -> (r: Step)
    requires
        pending_clear(old(w).pending@),
        wf(*s, old(w)@),
        accepts(*s, old(w).phase, Event::Done(x)),
    ensures
        wf(*s, final(w)@),
        pending_clear(final(w).pending@),
        (final(w)@, r@) == next(*s, old(w)@, Event::Done(x), false, false),
{
    match w.phase {
        Phase::LockCreateVault | Phase::LockWriteMeta | Phase::PwUnprotect | Phase::PwWrite
        | Phase::CleanupTmp(_) | Phase::DirsData(_) | Phase::DirsVault(_)
        | Phase::ProtectHide(_) | Phase::ProtectData(_) | Phase::ProtectVault(_) => step_done_state(s, w, x),
        _ => step_done_items(s, w, x),
    }
}

fn step_done_state(s: &Setup, w: &mut Work, x: Result<(), IoFailure>) -> (r: Step)
    requires
        pending_clear(old(w).pending@),
        wf(*s, old(w)@),
        settles_state(old(w).phase),
    ensures
        wf(*s, final(w)@),
        pending_clear(final(w).pending@),
        (final(w)@, r@) == next(*s, old(w)@, Event::Done(x), false, false),
{
    match w.phase {
        Phase::LockCreateVault => on_lock_create_vault_exec(s, w, x),
        Phase::LockWriteMeta => on_lock_write_meta_exec(s, w, x),
        Phase::PwUnprotect => on_pw_unprotect_exec(s, w, x),
        Phase::PwWrite => on_pw_write_exec(s, w, x),
        Phase::CleanupTmp(f) => on_cleanup_tmp_exec(s, w, f, x),
        Phase::DirsData(t) => on_dirs_data_exec(s, w, t, x),
        Phase::DirsVault(t) => on_dirs_vault_exec(s, w, t, x),
        Phase::ProtectHide(t) => on_protect_hide_exec(s, w, t, x),
        Phase::ProtectData(t) => on_protect_data_exec(s, w, t, x),
        Phase::ProtectVault(t) => on_protect_vault_exec(s, w, t, x),
        _ => {
            assert(false);
            Step::Finish(Err(Error::Broken))
        },
    }
}

pub open spec fn winds_up(p: Phase) -> bool {
    match p {
        Phase::RestoreMark(_) | Phase::RestoreRemoveExe(_) | Phase::RestoreMove(_) => true,
        Phase::RestoreRemoveMeta(_) | Phase::RestoreRemoveTmp(_) => true,
        _ => false,
    }
}

fn step_done_items(s: &Setup, w: &mut Work, x: Result<(), IoFailure>) -> (r: Step)
    requires
        pending_clear(old(w).pending@),
        wf(*s, old(w)@),
        accepts(*s, old(w).phase, Event::Done(x)),
        !settles_state(old(w).phase),
    ensures
        wf(*s, final(w)@),
        pending_clear(final(w).pending@),
        (final(w)@, r@) == next(*s, old(w)@, Event::Done(x), false, false),
{
    match w.phase {
        Phase::RestoreMark(_) | Phase::RestoreRemoveExe(_) | Phase::RestoreMove(_)
        | Phase::RestoreRemoveMeta(_) | Phase::RestoreRemoveTmp(_) => step_done_restore(s, w, x),
        Phase::FinishCreateData(f) => on_finish_create_data_exec(s, w, f, x),
        Phase::FinishMove(f) => on_finish_move_exec(s, w, f, x),
        Phase::FinishCopyExe(f) => on_finish_copy_exe_exec(s, w, f, x),
        Phase::FinishWrite(f) => on_finish_write_exec(s, w, f, x),
        Phase::OpenVault(t) => on_open_vault_exec(s, w, t, x),
        Phase::OpenData(t) => on_open_data_exec(s, w, t, x),
        _ => {
            assert(false);
            Step::Finish(Err(Error::Broken))
        },
    }
}

fn step_done_restore(s: &Setup, w: &mut Work, x: Result<(), IoFailure>) -> (r: Step)
    requires
        pending_clear(old(w).pending@),
        wf(*s, old(w)@),
        winds_up(old(w).phase),
    ensures
        wf(*s, final(w)@),
        pending_clear(final(w).pending@),
        (final(w)@, r@) == next(*s, old(w)@, Event::Done(x), false, false),
{
    match w.phase {
        Phase::RestoreMark(g) => on_restore_mark_exec(s, w, g, x),
        Phase::RestoreRemoveExe(g) => on_restore_remove_exe_exec(s, w, g, x),
        Phase::RestoreMove(g) => on_restore_move_exec(s, w, g, x),
        Phase::RestoreRemoveMeta(g) => on_restore_remove_meta_exec(s, w, g, x),
        Phase::RestoreRemoveTmp(g) => on_restore_remove_tmp_exec(s, w, g, x),
        _ => {
            assert(false);
            Step::Finish(Err(Error::Broken))
        },
    }
}

} // verus!

verus! {

// ---------- the engine ----------

/// Locks and unlocks folders, under the rules for which folders may be locked.
#[derive(Debug)]
pub struct Engine {
    pub rules: Rules,
    pub style: PathStyle,
}

/// Two rule sets list the same paths.
pub open spec fn same_rules(a: Rules, b: Rules) -> bool {
    &&& a.forbidden_exact@ == b.forbidden_exact@
    &&& a.forbidden_tree@ == b.forbidden_tree@
    &&& a.must_not_contain@ == b.must_not_contain@
}

pub open spec fn text_of(o: Option<&str>) -> Option<Seq<char>> {
    match o {
        Some(x) => Some(x@),
        None => None,
    }
}

pub open spec fn string_text(o: Option<String>) -> Option<Seq<char>> {
    match o {
        Some(x) => Some(x@),
        None => None,
    }
}

/// A task for `op` on the folder `root`, not started yet.
pub open spec fn prepared(t: Task, op: Op, root: Seq<char>, e: Engine) -> bool {
    &&& t.wf()
    &&& fresh(t.work@)
    &&& t.setup.op == op
    &&& t.setup.layout.describes(root, e.style)
    &&& t.setup.style == e.style
    &&& same_rules(t.setup.rules, e.rules)
}

fn copy_paths(v: &Vec<String>) -> (r: Vec<String>)
    ensures
        r@ == v@,
{
    let mut r: Vec<String> = Vec::new();
    let mut i: usize = 0;
    while i < v.len()
        invariant
            i <= v@.len(),
            r@ == v@.take(i as int),
        decreases v.len() - i,
    {
        r.push(v[i].clone());
        i = i + 1;
        assert(r@ =~= v@.take(i as int));
    }
    assert(v@.take(v@.len() as int) =~= v@);
    r
}

fn opt_string(o: Option<&str>) -> (r: Option<String>)
    ensures
        string_text(r) == text_of(o),
{
    match o {
        Some(x) => Some(String::from_str(x)),
        None => None,
    }
}

impl Engine {
    pub fn new(rules: Rules, style: PathStyle) -> (e: Engine)
        ensures
            e.rules == rules,
            e.style == style,
    {
        Engine { rules, style }
    }

    fn task(&self, op: Op, root: &str, hash: &str, password: &str, fallback: Option<&str>, exe_src: Option<&str>) -> (t: Task)
        ensures
            prepared(t, op, root@, *self),
            t.setup.hash@ == hash@,
            t.setup.password@ == password@,
            string_text(t.setup.fallback) == text_of(fallback),
            string_text(t.setup.exe_src) == text_of(exe_src),
    {
        let rules = Rules {
            forbidden_exact: copy_paths(&self.rules.forbidden_exact),
            forbidden_tree: copy_paths(&self.rules.forbidden_tree),
            must_not_contain: copy_paths(&self.rules.must_not_contain),
        };
        let setup = Setup {
            op,
            layout: Layout::new(root, self.style),
            style: self.style,
            rules,
            hash: String::from_str(hash),
            password: String::from_str(password),
            fallback: opt_string(fallback),
            exe_src: opt_string(exe_src),
        };
        Task { setup, work: new_work() }
    }

    /// Locks the folder `root`, recording `password_hash`. When
    /// `unlock_exe_src` is given, a copy of that program is left in the locked
    /// folder to unlock it.
    pub fn lock(&self, root: &str, password_hash: &str, unlock_exe_src: Option<&str>) -> (t: Task)
        ensures
            prepared(t, Op::Lock, root@, *self),
            t.setup.hash@ == password_hash@,
            string_text(t.setup.exe_src) == text_of(unlock_exe_src),
    {
        self.task(Op::Lock, root, password_hash, "", None, unlock_exe_src)
    }

    /// Checks `password` and puts every item back. `fallback_hash` (the hash
    /// kept in the app's settings) is used only when the state file is gone.
    pub fn unlock(&self, root: &str, password: &str, fallback_hash: Option<&str>) -> (t: Task)
        ensures
            prepared(t, Op::Unlock, root@, *self),
            t.setup.password@ == password@,
            string_text(t.setup.fallback) == text_of(fallback_hash),
    {
        self.task(Op::Unlock, root, "", password, fallback_hash, None)
    }

    /// Puts every item back without a password, for when the state file is missing or damaged.
    pub fn emergency_restore(&self, root: &str) -> (t: Task)
        ensures
            prepared(t, Op::Emergency, root@, *self),
    {
        self.task(Op::Emergency, root, "", "", None, None)
    }

    /// Finishes an interrupted operation and makes sure a locked folder is
    /// hidden and protected again.
    pub fn resume(&self, root: &str, unlock_exe_src: Option<&str>) -> (t: Task)
        ensures
            prepared(t, Op::Resume, root@, *self),
            string_text(t.setup.exe_src) == text_of(unlock_exe_src),
    {
        self.task(Op::Resume, root, "", "", None, unlock_exe_src)
    }

    /// Replaces the password hash of a locked folder; does nothing when the
    /// folder is not locked.
    pub fn set_password_hash(&self, root: &str, new_hash: &str) -> (t: Task)
        ensures
            prepared(t, Op::SetPassword, root@, *self),
            t.setup.hash@ == new_hash@,
    {
        self.task(Op::SetPassword, root, new_hash, "", None, None)
    }
}

} // verus!
