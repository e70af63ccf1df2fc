//! What holds of every step of every task: the engine's safety rules.
//!
//! 1. A user's item is moved only whole, by renaming it between the folder
//!    and the vault's data directory; it is never copied over or deleted.
//! 2. What gets deleted is only what the engine made: the state file and its
//!    temporary twin, the vault's (empty) directories, and the unlock program
//!    when its fingerprint is the one recorded.
//! 3. An item is put back only under a name that was just found free.

use vstd::prelude::*;
use crate::digest::fingerprint;
use crate::engine::{status_of, Status};
use crate::meta::{LockState, VAULT_DIR};
use crate::task::{
    exe_of, has_exe, next, pending_ok, wf, ActionV, Event, LocV, Op, OutcomeV, ErrorV, Phase, Setup, StepV, WorkV,
    FinishFor, RestoreFor, OpenFor, ProtectFor, DirsFor, CleanupFor,
};

verus! {

/// One of the vault's own directories.
pub open spec fn vault_dir(l: LocV) -> bool {
    l == LocV::Vault || l == LocV::Data
}

/// A request that only reads.
pub open spec fn reads_only(a: ActionV) -> bool {
    match a {
        ActionV::Inspect | ActionV::Survey | ActionV::LoadMeta => true,
        ActionV::Probe(_) | ActionV::List(_) | ActionV::Read(_) | ActionV::Verify(_, _) => true,
        _ => false,
    }
}

/// A request that, whatever state the folder is in, cannot lose or overwrite
/// a user's item: it reads, touches only the vault's directories or the state
/// file, or moves an item (not the vault) from the folder into the vault
/// under its own name.
pub open spec fn harmless(a: ActionV) -> bool {
    match a {
        ActionV::Move(from, to) => from matches LocV::RootItem(n) && to == LocV::DataItem(n) && n != VAULT_DIR@,
        ActionV::RemoveFile(l) => l == LocV::Meta || l == LocV::MetaTmp,
        ActionV::RemoveDir(l) | ActionV::CreateDir(l) => vault_dir(l),
        ActionV::Hide(l) | ActionV::Protect(l) | ActionV::Unprotect(l) => vault_dir(l),
        ActionV::WriteMeta(_) => true,
        _ => reads_only(a),
    }
}

/// The request `a`, made in answer to `ev` in state `w`, keeps every user's
/// item: it is harmless, or it puts an item back from the vault under the
/// name just probed and found free, or it deletes the unlock program just
/// read and found to be the copy the engine placed, or it copies the unlock
/// program in under its recorded name, just found free.
pub open spec fn keeps_items(w: WorkV, ev: Event, a: ActionV) -> bool {
    ||| harmless(a)
    ||| puts_back(w, ev, a)
    ||| removes_placed_exe(w, ev, a)
    ||| copies_exe(w, ev, a)
}

/// `a` copies the unlock program into the folder under the name the state
/// file records for it, a name the answer `ev` just reported free (the copy
/// itself fails rather than replace anything).
pub open spec fn copies_exe(w: WorkV, ev: Event, a: ActionV) -> bool {
    &&& w.phase is FinishProbeExe
    &&& ev matches Event::Probed(Err(_))
    &&& has_exe(w.meta)
    &&& match a {
        ActionV::CopyNew(from, to) => from is Source && to == LocV::RootItem(exe_of(w).name),
        _ => false,
    }
}

/// `a` moves the item being restored from the vault back into the folder,
/// under the name that the answer `ev` just reported free.
pub open spec fn puts_back(w: WorkV, ev: Event, a: ActionV) -> bool {
    &&& w.phase is RestoreProbeTarget
    &&& ev matches Event::Probed(Err(_))
    &&& w.candidate != VAULT_DIR@
    &&& a == ActionV::Move(LocV::DataItem(w.names[w.scan_at as int]), LocV::RootItem(w.candidate))
}

/// `a` deletes the unlock program whose bytes `ev` just brought, and they are
/// the bytes the state file recorded the fingerprint of.
pub open spec fn removes_placed_exe(w: WorkV, ev: Event, a: ActionV) -> bool {
    &&& w.phase is RestoreHashExe
    &&& has_exe(w.meta)
    &&& a == ActionV::RemoveFile(LocV::RootItem(exe_of(w).name))
    &&& match ev {
        Event::Read(Ok(b)) => fingerprint(b@) == exe_of(w).sha256,
        _ => false,
    }
}

/// A step whose request is harmless, and which probes a name right before
/// it may put an item back under it.
pub open spec fn calm(r: (WorkV, StepV)) -> bool {
    &&& r.1 matches StepV::Do(a) ==> harmless(a)
    &&& r.0.phase is RestoreProbeTarget ==> r.1 == StepV::Do(ActionV::Probe(LocV::RootItem(r.0.candidate)))
}

/// A running task's state, with the items it is about to move.
pub open spec fn valid(s: Setup, w: WorkV) -> bool {
    wf(s, w) && pending_ok(w)
}

/// What `law_requests_keep_items` states of one step.
pub open spec fn step_keeps_items(w: WorkV, ev: Event, r: (WorkV, StepV)) -> bool {
    &&& r.1 matches StepV::Do(a) ==> keeps_items(w, ev, a)
    &&& r.0.phase is RestoreProbeTarget ==> r.1 == StepV::Do(ActionV::Probe(LocV::RootItem(r.0.candidate)))
}

proof fn lemma_scan_calm(s: Setup, w: WorkV, f: FinishFor)
    requires
        pending_ok(w),
    ensures
        calm(crate::task::scan(s, w, f)),
    decreases w.names.len() - w.scan_at,
{
    if w.scan_at >= w.names.len() || w.scan_at >= usize::MAX {
    } else {
        let name = w.names[w.scan_at as int];
        if name == VAULT_DIR@ {
            lemma_scan_calm(s, WorkV { scan_at: (w.scan_at + 1) as usize, ..w }, f);
        } else if crate::task::exe_named(w.meta, name) {
        } else {
            let w1 = WorkV { pending: w.pending.push(name), scan_at: (w.scan_at + 1) as usize, ..w };
            assert(pending_ok(w1));
            lemma_scan_calm(s, w1, f);
        }
    }
}

proof fn lemma_seek_calm(w: WorkV, g: RestoreFor)
    ensures
        calm(crate::task::seek(w, g)),
{
}

proof fn lemma_finish_steps(s: Setup, w: WorkV, ev: Event, absolute: bool, has_parent: bool)
    requires
        valid(s, w),
        w.phase is FinishProbeData || w.phase is FinishCreateData || w.phase is FinishList || w.phase is FinishHashItem
            || w.phase is FinishMove || w.phase is FinishCopyExe || w.phase is FinishWrite,
    ensures
        calm(next(s, w, ev, absolute, has_parent)),
{
    match (w.phase, ev) {
        (Phase::FinishList(f), Event::Listed(Ok(v))) => {
            let w1 = WorkV { names: crate::text::sorted_texts(crate::task::texts(v@)), scan_at: 0, pending: Seq::empty(), ..w };
            lemma_scan_calm(s, w1, f);
        },
        (Phase::FinishHashItem(f), Event::Read(r)) => {
            let name = w.names[w.scan_at as int];
            let ours = r matches Ok(b) && fingerprint(b@) == exe_of(w).sha256;
            let w1 = WorkV { pending: if ours { w.pending } else { w.pending.push(name) }, scan_at: (w.scan_at + 1) as usize, ..w };
            assert(pending_ok(w1));
            lemma_scan_calm(s, w1, f);
        },
        _ => {},
    }
}

proof fn lemma_restore_steps(s: Setup, w: WorkV, ev: Event, absolute: bool, has_parent: bool)
    requires
        valid(s, w),
        w.phase is RestoreMeta || w.phase is RestoreMark || w.phase is RestoreRemoveExe || w.phase is RestoreProbeData
            || w.phase is RestoreList || w.phase is RestoreProbeItem || w.phase is RestoreMove
            || w.phase is RestoreRemoveMeta || w.phase is RestoreRemoveTmp,
    ensures
        calm(next(s, w, ev, absolute, has_parent)),
{
    match (w.phase, ev) {
        (Phase::RestoreProbeItem(g), Event::Probed(Ok(d))) => {
            lemma_seek_calm(WorkV { is_dir: d, attempt: 0, ..w }, g);
        },
        (Phase::RestoreMove(g), Event::Done(Err(e))) => {
            lemma_seek_calm(WorkV { attempt: (w.attempt + 1) as usize, ..w }, g);
        },
        _ => {},
    }
}

/// Locking, unlocking, resuming and changing the password, up to the shared parts.
pub open spec fn opening_phase(p: Phase) -> bool {
    p is Ready || p is Finished || p is LockInspect || p is LockSurvey || p is LockVaultGone || p is LockHashSource
        || p is LockCreateVault || p is LockWriteMeta || p is UnlockSurvey || p is UnlockMeta || p is UnlockVerify
        || p is ResumeSurvey || p is ResumeResurvey || p is ResumeMeta || p is PwSurvey || p is PwMeta
        || p is PwUnprotect || p is PwWrite
}

proof fn lemma_opening_steps(s: Setup, w: WorkV, ev: Event, absolute: bool, has_parent: bool)
    requires
        valid(s, w),
        opening_phase(w.phase),
    ensures
        calm(next(s, w, ev, absolute, has_parent)),
{
}

proof fn lemma_shared_steps(s: Setup, w: WorkV, ev: Event, absolute: bool, has_parent: bool)
    requires
        valid(s, w),
        w.phase is CleanupTmp || w.phase is DirsData || w.phase is DirsVault || w.phase is ProtectHide
            || w.phase is ProtectData || w.phase is ProtectVault || w.phase is OpenProbeVault || w.phase is OpenVault
            || w.phase is OpenProbeData || w.phase is OpenData,
    ensures
        calm(next(s, w, ev, absolute, has_parent)),
{
}

/// Every request a running task makes keeps the user's items (see
/// `keeps_items`): items move whole between the folder and the vault, never
/// onto a name that was not just found free, and nothing is deleted but the
/// state files, the vault's directories and the unlock program the engine
/// placed. And every name an item may be put back under is probed first.
pub proof fn law_requests_keep_items(s: Setup, w: WorkV, ev: Event, absolute: bool, has_parent: bool)
    requires
        valid(s, w),
    ensures
        step_keeps_items(w, ev, next(s, w, ev, absolute, has_parent)),
{
    match w.phase {
        Phase::RestoreProbeTarget(g) => {
            if let Event::Probed(Ok(_)) = ev {
                lemma_seek_calm(WorkV { attempt: (w.attempt + 1) as usize, ..w }, g);
            }
        },
        Phase::RestoreHashExe(g) => {},
        Phase::FinishProbeExe(_) => {},
        Phase::FinishProbeData(_) | Phase::FinishCreateData(_) | Phase::FinishList(_) | Phase::FinishHashItem(_)
        | Phase::FinishMove(_) | Phase::FinishCopyExe(_) | Phase::FinishWrite(_) => {
            lemma_finish_steps(s, w, ev, absolute, has_parent);
        },
        Phase::RestoreMeta(_) | Phase::RestoreMark(_) | Phase::RestoreRemoveExe(_) | Phase::RestoreProbeData(_)
        | Phase::RestoreList(_) | Phase::RestoreProbeItem(_) | Phase::RestoreMove(_)
        | Phase::RestoreRemoveMeta(_) | Phase::RestoreRemoveTmp(_) => {
            lemma_restore_steps(s, w, ev, absolute, has_parent);
        },
        Phase::CleanupTmp(_) | Phase::DirsData(_) | Phase::DirsVault(_) | Phase::ProtectHide(_)
        | Phase::ProtectData(_) | Phase::ProtectVault(_) | Phase::OpenProbeVault(_) | Phase::OpenVault(_)
        | Phase::OpenProbeData(_) | Phase::OpenData(_) => {
            lemma_shared_steps(s, w, ev, absolute, has_parent);
        },
        _ => {
            lemma_opening_steps(s, w, ev, absolute, has_parent);
        },
    }
}

// ---------- the state file first ----------

/// The phases in which a lock moves items into the vault and records the result.
pub open spec fn moving_in(p: Phase) -> bool {
    p is FinishProbeData || p is FinishCreateData || p is FinishList || p is FinishHashItem
        || p is FinishMove || p is FinishProbeExe || p is FinishCopyExe || p is FinishWrite
}

/// Resuming an interrupted lock, while the vault is being opened.
pub open spec fn opening_to_resume(p: Phase) -> bool {
    p == Phase::OpenProbeVault(OpenFor::ResumeLocking) || p == Phase::OpenVault(OpenFor::ResumeLocking)
        || p == Phase::OpenProbeData(OpenFor::ResumeLocking) || p == Phase::OpenData(OpenFor::ResumeLocking)
}

/// What `law_state_written_first` states of one step.
pub open spec fn state_first(w: WorkV, ev: Event, r: (WorkV, StepV)) -> bool {
    &&& (r.1 matches StepV::Do(ActionV::Move(LocV::RootItem(_), _)) ==> moving_in(w.phase) && r.0.phase is FinishMove)
    &&& (moving_in(r.0.phase) && !moving_in(w.phase) ==> (w.phase == Phase::LockWriteMeta && ev == Event::Done(Ok(())))
        || opening_to_resume(w.phase))
    &&& (r.0.phase == Phase::LockWriteMeta ==> r.0.meta is Some && r.0.meta.unwrap().state == LockState::Locking
        && r.1 == StepV::Do(ActionV::WriteMeta(r.0.meta.unwrap())))
}

proof fn lemma_state_first_finish(s: Setup, w: WorkV, ev: Event, absolute: bool, has_parent: bool)
    requires
        valid(s, w),
        moving_in(w.phase),
    ensures
        state_first(w, ev, next(s, w, ev, absolute, has_parent)),
{
    match (w.phase, ev) {
        (Phase::FinishList(f), Event::Listed(Ok(v))) => {
            lemma_scan_moves(s, WorkV { names: crate::text::sorted_texts(crate::task::texts(v@)), scan_at: 0, pending: Seq::empty(), ..w }, f);
        },
        (Phase::FinishHashItem(f), Event::Read(r)) => {
            let name = w.names[w.scan_at as int];
            let ours = r matches Ok(b) && fingerprint(b@) == exe_of(w).sha256;
            lemma_scan_moves(s, WorkV { pending: if ours { w.pending } else { w.pending.push(name) }, scan_at: (w.scan_at + 1) as usize, ..w }, f);
        },
        _ => {},
    }
}

proof fn lemma_scan_moves(s: Setup, w: WorkV, f: FinishFor)
    ensures
        moving_in(crate::task::scan(s, w, f).0.phase),
        crate::task::scan(s, w, f).1 matches StepV::Do(ActionV::Move(LocV::RootItem(_), _))
            ==> crate::task::scan(s, w, f).0.phase is FinishMove,
    decreases w.names.len() - w.scan_at,
{
    if w.scan_at >= w.names.len() || w.scan_at >= usize::MAX {
    } else {
        let name = w.names[w.scan_at as int];
        if name == VAULT_DIR@ {
            lemma_scan_moves(s, WorkV { scan_at: (w.scan_at + 1) as usize, ..w }, f);
        } else if crate::task::exe_named(w.meta, name) {
        } else {
            lemma_scan_moves(s, WorkV { pending: w.pending.push(name), scan_at: (w.scan_at + 1) as usize, ..w }, f);
        }
    }
}

proof fn lemma_state_first_restore(s: Setup, w: WorkV, ev: Event, absolute: bool, has_parent: bool)
    requires
        valid(s, w),
        w.phase is RestoreMeta || w.phase is RestoreMark || w.phase is RestoreRemoveExe || w.phase is RestoreProbeData
            || w.phase is RestoreList || w.phase is RestoreProbeItem || w.phase is RestoreMove
            || w.phase is RestoreRemoveMeta || w.phase is RestoreRemoveTmp || w.phase is RestoreProbeTarget
            || w.phase is RestoreHashExe,
    ensures
        state_first(w, ev, next(s, w, ev, absolute, has_parent)),
{
}

proof fn lemma_state_first_opening(s: Setup, w: WorkV, ev: Event, absolute: bool, has_parent: bool)
    requires
        valid(s, w),
        opening_phase(w.phase),
    ensures
        state_first(w, ev, next(s, w, ev, absolute, has_parent)),
{
    if w.phase == Phase::LockWriteMeta {
        if let Event::Done(Ok(x)) = ev {
            assert(ev == Event::Done(Ok::<(), crate::engine::IoFailure>(())));
        }
    }
}

proof fn lemma_state_first_shared(s: Setup, w: WorkV, ev: Event, absolute: bool, has_parent: bool)
    requires
        valid(s, w),
        w.phase is CleanupTmp || w.phase is DirsData || w.phase is DirsVault || w.phase is ProtectHide
            || w.phase is ProtectData || w.phase is ProtectVault || w.phase is OpenProbeVault || w.phase is OpenVault
            || w.phase is OpenProbeData || w.phase is OpenData,
    ensures
        state_first(w, ev, next(s, w, ev, absolute, has_parent)),
{
}

/// The state file is written before anything is moved: items go into the
/// vault only in the move-in phases; a lock enters them only when the write
/// of its state file, which says `Locking`, has just been confirmed, and
/// otherwise only a resumed lock enters them, once the vault is open again.
pub proof fn law_state_written_first(s: Setup, w: WorkV, ev: Event, absolute: bool, has_parent: bool)
    requires
        valid(s, w),
    ensures
        state_first(w, ev, next(s, w, ev, absolute, has_parent)),
{
    if moving_in(w.phase) {
        lemma_state_first_finish(s, w, ev, absolute, has_parent);
    } else if opening_phase(w.phase) {
        lemma_state_first_opening(s, w, ev, absolute, has_parent);
    } else if w.phase is CleanupTmp || w.phase is DirsData || w.phase is DirsVault || w.phase is ProtectHide
        || w.phase is ProtectData || w.phase is ProtectVault || w.phase is OpenProbeVault || w.phase is OpenVault
        || w.phase is OpenProbeData || w.phase is OpenData {
        lemma_state_first_shared(s, w, ev, absolute, has_parent);
    } else {
        lemma_state_first_restore(s, w, ev, absolute, has_parent);
    }
}

// ---------- how resuming ends ----------

/// What `law_resume_settles` states of one step.
pub open spec fn settled_end(w: WorkV, r: (WorkV, StepV)) -> bool {
    match r.1 {
        StepV::Finish(Ok(OutcomeV::Now(st))) => w.phase == Phase::ResumeResurvey || st == Status::Locked
            || st == Status::Unlocked,
        _ => true,
    }
}

proof fn lemma_scan_requests(s: Setup, w: WorkV, f: FinishFor)
    ensures
        crate::task::scan(s, w, f).1 is Do,
    decreases w.names.len() - w.scan_at,
{
    if w.scan_at >= w.names.len() || w.scan_at >= usize::MAX {
    } else {
        let name = w.names[w.scan_at as int];
        if name == VAULT_DIR@ {
            lemma_scan_requests(s, WorkV { scan_at: (w.scan_at + 1) as usize, ..w }, f);
        } else if crate::task::exe_named(w.meta, name) {
        } else {
            lemma_scan_requests(s, WorkV { pending: w.pending.push(name), scan_at: (w.scan_at + 1) as usize, ..w }, f);
        }
    }
}

proof fn lemma_settled_finish(s: Setup, w: WorkV, ev: Event, absolute: bool, has_parent: bool)
    requires
        moving_in(w.phase),
    ensures
        settled_end(w, next(s, w, ev, absolute, has_parent)),
{
    match (w.phase, ev) {
        (Phase::FinishList(f), Event::Listed(Ok(v))) => {
            lemma_scan_requests(s, WorkV { names: crate::text::sorted_texts(crate::task::texts(v@)), scan_at: 0, pending: Seq::empty(), ..w }, f);
        },
        (Phase::FinishHashItem(f), Event::Read(r)) => {
            let name = w.names[w.scan_at as int];
            let ours = r matches Ok(b) && fingerprint(b@) == exe_of(w).sha256;
            lemma_scan_requests(s, WorkV { pending: if ours { w.pending } else { w.pending.push(name) }, scan_at: (w.scan_at + 1) as usize, ..w }, f);
        },
        _ => {},
    }
}

proof fn lemma_settled_restore(s: Setup, w: WorkV, ev: Event, absolute: bool, has_parent: bool)
    requires
        w.phase is RestoreMeta || w.phase is RestoreMark || w.phase is RestoreRemoveExe || w.phase is RestoreProbeData
            || w.phase is RestoreList || w.phase is RestoreProbeItem || w.phase is RestoreMove
            || w.phase is RestoreRemoveMeta || w.phase is RestoreRemoveTmp || w.phase is RestoreProbeTarget
            || w.phase is RestoreHashExe,
    ensures
        settled_end(w, next(s, w, ev, absolute, has_parent)),
{
}

proof fn lemma_settled_opening(s: Setup, w: WorkV, ev: Event, absolute: bool, has_parent: bool)
    requires
        opening_phase(w.phase),
    ensures
        settled_end(w, next(s, w, ev, absolute, has_parent)),
{
}

proof fn lemma_settled_shared(s: Setup, w: WorkV, ev: Event, absolute: bool, has_parent: bool)
    requires
        w.phase is CleanupTmp || w.phase is DirsData || w.phase is DirsVault || w.phase is ProtectHide
            || w.phase is ProtectData || w.phase is ProtectVault || w.phase is OpenProbeVault || w.phase is OpenVault
            || w.phase is OpenProbeData || w.phase is OpenData,
    ensures
        settled_end(w, next(s, w, ev, absolute, has_parent)),
{
}

/// A task that ends with the folder's status reports it locked or unlocked:
/// resuming finishes a lock (locked), finishes an unlock (unlocked), applies
/// a locked folder's protection again (locked) or finds nothing to do
/// (unlocked). The one exception is the survey taken after an empty vault
/// has been cleaned up, which reports what it finds.
pub proof fn law_resume_settles(s: Setup, w: WorkV, ev: Event, absolute: bool, has_parent: bool)
    ensures
        settled_end(w, next(s, w, ev, absolute, has_parent)),
{
    if moving_in(w.phase) {
        lemma_settled_finish(s, w, ev, absolute, has_parent);
    } else if opening_phase(w.phase) {
        lemma_settled_opening(s, w, ev, absolute, has_parent);
    } else if w.phase is CleanupTmp || w.phase is DirsData || w.phase is DirsVault || w.phase is ProtectHide
        || w.phase is ProtectData || w.phase is ProtectVault || w.phase is OpenProbeVault || w.phase is OpenVault
        || w.phase is OpenProbeData || w.phase is OpenData {
        lemma_settled_shared(s, w, ev, absolute, has_parent);
    } else {
        lemma_settled_restore(s, w, ev, absolute, has_parent);
    }
}

// ---------- refusals and the password ----------

/// Unlocking changes nothing before the password is confirmed: until then
/// every request only reads, and a wrong password ends the task with
/// `WrongPassword`.
pub proof fn law_unlock_checks_password_first(s: Setup, w: WorkV, ev: Event, absolute: bool, has_parent: bool)
    requires
        s.op == Op::Unlock,
        w.phase == Phase::Ready || w.phase == Phase::UnlockSurvey || w.phase == Phase::UnlockMeta
            || w.phase == Phase::UnlockVerify,
    ensures
        !(w.phase == Phase::UnlockVerify && ev == Event::Verified(true)) ==>
            (next(s, w, ev, absolute, has_parent).1 matches StepV::Do(a) ==> reads_only(a)),
        w.phase == Phase::UnlockVerify && ev == Event::Verified(false) ==>
            next(s, w, ev, absolute, has_parent).1 == StepV::Finish(Err(ErrorV::WrongPassword)),
{
}

/// Unlocking a folder that is not locked (or holds only an empty vault) is
/// refused with `NotLocked`.
pub proof fn law_unlock_refuses_unlocked(s: Setup, w: WorkV, sv: crate::engine::Survey, absolute: bool, has_parent: bool)
    requires
        w.phase == Phase::UnlockSurvey,
        status_of(sv) == Ok::<Status, crate::engine::IoFailure>(Status::Unlocked)
            || status_of(sv) == Ok::<Status, crate::engine::IoFailure>(Status::Stale),
    ensures
        next(s, w, Event::Surveyed(sv), absolute, has_parent).1 == StepV::Finish(Err(ErrorV::NotLocked)),
{
}

/// Locking changes nothing before the guard and the folder's status have
/// been checked: until then every request only reads.
pub proof fn law_lock_reads_first(s: Setup, w: WorkV, ev: Event, absolute: bool, has_parent: bool)
    requires
        s.op == Op::Lock,
        w.phase == Phase::Ready || w.phase == Phase::LockInspect,
    ensures
        next(s, w, ev, absolute, has_parent).1 matches StepV::Do(a) ==> reads_only(a),
{
}

/// The statuses under which a folder counts as locked already.
pub open spec fn taken(st: Status) -> bool {
    st == Status::Locked || st is Interrupted || st == Status::Broken
}

/// A folder that is locked, half locked or broken is refused with `AlreadyLocked`.
pub proof fn law_lock_refuses_locked(s: Setup, w: WorkV, sv: crate::engine::Survey, absolute: bool, has_parent: bool)
    requires
        w.phase == Phase::LockSurvey,
        status_of(sv) is Ok,
        taken(status_of(sv)->Ok_0),
    ensures
        next(s, w, Event::Surveyed(sv), absolute, has_parent).1 == StepV::Finish(Err(ErrorV::AlreadyLocked)),
{
}

/// Changing the password of a folder that is not locked does nothing and succeeds.
pub proof fn law_password_change_needs_lock(s: Setup, w: WorkV, sv: crate::engine::Survey, absolute: bool, has_parent: bool)
    requires
        w.phase == Phase::PwSurvey,
        status_of(sv) is Ok,
        status_of(sv)->Ok_0 != Status::Locked,
    ensures
        next(s, w, Event::Surveyed(sv), absolute, has_parent).1 == StepV::Finish(Ok(OutcomeV::Settled)),
{
}

/// Once the new state file has been written, or has failed to be, the vault
/// is hidden and protected again either way.
pub proof fn law_password_reprotects(s: Setup, w: WorkV, r: Result<(), crate::engine::IoFailure>, absolute: bool, has_parent: bool)
    requires
        w.phase == Phase::PwWrite,
    ensures
        next(s, w, Event::Done(r), absolute, has_parent).1 == StepV::Do(ActionV::Hide(LocV::Vault)),
{
}

/// A lock that fails once it has started moving items undoes what it did and
/// then reports the failure: the task opens the vault to put everything back.
pub proof fn law_failed_lock_rolls_back(s: Setup, w: WorkV, e: crate::engine::IoFailure, absolute: bool, has_parent: bool)
    requires
        valid(s, w),
        w.phase == Phase::FinishMove(FinishFor::Lock),
    ensures
        next(s, w, Event::Done(Err(e)), absolute, has_parent).0.phase == Phase::OpenProbeVault(OpenFor::Restore(RestoreFor::Rollback)),
        next(s, w, Event::Done(Err(e)), absolute, has_parent).0.cause
            == Some(crate::task::io(crate::task::move_context(w.pending[w.move_at as int]), e)),
        next(s, w, Event::Done(Err(e)), absolute, has_parent).1 == StepV::Do(ActionV::Probe(LocV::Vault)),
{
}

/// When undoing a failed lock is over, the task ends with the failure that
/// caused it, or, if undoing failed too, with both.
pub proof fn law_rollback_reports_cause(w: WorkV, r: Result<(), ErrorV>)
    requires
        w.cause is Some,
    ensures
        crate::task::restore_done(w, RestoreFor::Rollback, r).1 == StepV::Finish(Err(match r {
            Ok(_) => w.cause.unwrap(),
            Err(x) => ErrorV::RollbackFailed(Box::new(w.cause.unwrap()), Box::new(x)),
        })),
{
}

/// Resuming finishes what was interrupted: a half-done lock is carried on
/// (from the state file), a half-done unlock is completed by putting
/// everything back, and a locked folder has its protection applied again.
pub proof fn law_resume_finishes(s: Setup, w: WorkV, sv: crate::engine::Survey, absolute: bool, has_parent: bool)
    requires
        w.phase == Phase::ResumeSurvey,
    ensures
        status_of(sv) == Ok::<Status, crate::engine::IoFailure>(Status::Interrupted(LockState::Locking)) ==>
            next(s, w, Event::Surveyed(sv), absolute, has_parent).1 == StepV::Do(ActionV::LoadMeta),
        status_of(sv) == Ok::<Status, crate::engine::IoFailure>(Status::Interrupted(LockState::Unlocking)) ==>
            next(s, w, Event::Surveyed(sv), absolute, has_parent).0.phase == Phase::OpenProbeVault(OpenFor::Restore(RestoreFor::ResumeUnlocking)),
        status_of(sv) == Ok::<Status, crate::engine::IoFailure>(Status::Locked) ==>
            next(s, w, Event::Surveyed(sv), absolute, has_parent).1 == StepV::Do(ActionV::Hide(LocV::Vault)),
        status_of(sv) == Ok::<Status, crate::engine::IoFailure>(Status::Broken) ==>
            next(s, w, Event::Surveyed(sv), absolute, has_parent).1 == StepV::Finish(Err(ErrorV::Broken)),
{
}

// ---------- tasks and names ----------

/// A task's invariant (`Task::wf`, which every `step` keeps) is the state
/// these laws speak of.
pub proof fn lemma_task_valid(t: crate::task::Task)
    requires
        t.wf(),
    ensures
        valid(t.setup, t.work@),
{
    crate::task::lemma_pending_clear(t.work.pending@);
}

proof fn lemma_last_dot_range(name: Seq<char>, k: int)
    ensures
        -1 <= crate::engine::last_dot_before(name, k) < if k <= 0 { 0 } else { k },
    decreases k,
{
    if k > 0 && name[k - 1] != '.' {
        lemma_last_dot_range(name, k - 1);
    }
}

/// An item put back under another name can never land on its own name:
/// every variant is longer than the name it is made from.
pub proof fn law_conflict_name_differs(name: Seq<char>, n: nat, is_dir: bool)
    ensures
        crate::engine::conflict_name_of(name, n, is_dir).len() > name.len(),
        crate::engine::conflict_name_of(name, n, is_dir) != name,
{
    reveal_strlit(" (복원 ");
    reveal_strlit(")");
    reveal_strlit(".");
    lemma_last_dot_range(name, name.len() as int);
}

// ---------- the names items were put back under ----------

/// The pair is an item's name in the vault, then the different name it was
/// put back under in the folder: the name with a numbered variant mark
/// (` (복원 k)`, `k` at least 1).
pub open spec fn renamed_pair(p: (Seq<char>, Seq<char>)) -> bool {
    exists|k: nat, d: bool| k >= 1 && #[trigger] crate::engine::conflict_name_of(p.0, k, d) == p.1
}

/// Each pair of `rs` is right (see `renamed_pair`).
pub open spec fn renamed_right(rs: Seq<(Seq<char>, Seq<char>)>) -> bool {
    forall|j: int| 0 <= j < rs.len() ==> renamed_pair(#[trigger] rs[j])
}

proof fn lemma_scan_keeps_renamed(s: Setup, w: WorkV, f: FinishFor)
    ensures
        crate::task::scan(s, w, f).0.renamed == w.renamed,
        crate::task::scan(s, w, f).1 is Do,
    decreases w.names.len() - w.scan_at,
{
    if w.scan_at >= w.names.len() || w.scan_at >= usize::MAX {
    } else {
        let name = w.names[w.scan_at as int];
        if name == VAULT_DIR@ {
            lemma_scan_keeps_renamed(s, WorkV { scan_at: (w.scan_at + 1) as usize, ..w }, f);
        } else if crate::task::exe_named(w.meta, name) {
        } else {
            lemma_scan_keeps_renamed(s, WorkV { pending: w.pending.push(name), scan_at: (w.scan_at + 1) as usize, ..w }, f);
        }
    }
}

/// What `law_renamed_pairs` states of one step.
pub open spec fn renamed_kept(r: (WorkV, StepV)) -> bool {
    &&& renamed_right(r.0.renamed)
    &&& r.1 matches StepV::Finish(Ok(OutcomeV::Restored(rep))) ==> renamed_right(rep.renamed)
}

/// Recording an item put back under its variant numbered `k` (at least 1)
/// keeps the record right.
proof fn lemma_renamed_push(rs: Seq<(Seq<char>, Seq<char>)>, name: Seq<char>, k: int, is_dir: bool)
    requires
        renamed_right(rs),
        k >= 1,
    ensures
        renamed_right(rs.push((name, crate::task::candidate_of(name, k, is_dir)))),
{
    let rs2 = rs.push((name, crate::task::candidate_of(name, k, is_dir)));
    let last = rs2[rs.len() as int];
    assert(last == (name, crate::task::candidate_of(name, k, is_dir)));
    assert(crate::engine::conflict_name_of(last.0, k as nat, is_dir) == last.1);
    assert(renamed_pair(last));
    assert forall|j: int| 0 <= j < rs2.len() implies renamed_pair(#[trigger] rs2[j]) by {
        if j < rs.len() {
            assert(rs2[j] == rs[j]);
        }
    }
}

proof fn lemma_renamed_restore(s: Setup, w: WorkV, ev: Event, absolute: bool, has_parent: bool)
    requires
        wf(s, w),
        renamed_right(w.renamed),
        w.phase is RestoreMeta || w.phase is RestoreMark || w.phase is RestoreHashExe || w.phase is RestoreRemoveExe
            || w.phase is RestoreProbeData || w.phase is RestoreList || w.phase is RestoreProbeItem
            || w.phase is RestoreProbeTarget || w.phase is RestoreMove || w.phase is RestoreRemoveMeta
            || w.phase is RestoreRemoveTmp,
    ensures
        renamed_kept(next(s, w, ev, absolute, has_parent)),
{
    if let (Phase::RestoreMove(g), Event::Done(Ok(_))) = (w.phase, ev) {
        if w.attempt != 0 {
            lemma_renamed_push(w.renamed, w.names[w.scan_at as int], w.attempt as int, w.is_dir);
        }
    }
}

proof fn lemma_renamed_finish(s: Setup, w: WorkV, ev: Event, absolute: bool, has_parent: bool)
    requires
        wf(s, w),
        renamed_right(w.renamed),
        w.phase is FinishProbeData || w.phase is FinishCreateData || w.phase is FinishList || w.phase is FinishHashItem
            || w.phase is FinishMove || w.phase is FinishProbeExe || w.phase is FinishCopyExe || w.phase is FinishWrite,
    ensures
        renamed_kept(next(s, w, ev, absolute, has_parent)),
{
    match (w.phase, ev) {
        (Phase::FinishList(f), Event::Listed(Ok(v))) => {
            lemma_scan_keeps_renamed(s, WorkV { names: crate::text::sorted_texts(crate::task::texts(v@)), scan_at: 0, pending: Seq::empty(), ..w }, f);
        },
        (Phase::FinishHashItem(f), Event::Read(x)) => {
            let name = w.names[w.scan_at as int];
            let ours = x matches Ok(b) && fingerprint(b@) == exe_of(w).sha256;
            lemma_scan_keeps_renamed(s, WorkV {
                pending: if ours { w.pending } else { w.pending.push(name) },
                scan_at: (w.scan_at + 1) as usize,
                ..w
            }, f);
        },
        _ => {},
    }
}

proof fn lemma_renamed_shared(s: Setup, w: WorkV, ev: Event, absolute: bool, has_parent: bool)
    requires
        wf(s, w),
        renamed_right(w.renamed),
        w.phase is CleanupTmp || w.phase is DirsData || w.phase is DirsVault || w.phase is ProtectHide
            || w.phase is ProtectData || w.phase is ProtectVault || w.phase is OpenProbeVault || w.phase is OpenVault
            || w.phase is OpenProbeData || w.phase is OpenData,
    ensures
        renamed_kept(next(s, w, ev, absolute, has_parent)),
{
}

proof fn lemma_renamed_opening(s: Setup, w: WorkV, ev: Event, absolute: bool, has_parent: bool)
    requires
        wf(s, w),
        renamed_right(w.renamed),
        opening_phase(w.phase),
    ensures
        renamed_kept(next(s, w, ev, absolute, has_parent)),
{
}

/// Every step keeps the record of renamed items right, and a restore's
/// report lists each item put back under another name as (its name in the
/// vault, the name it got in the folder), that name being a numbered
/// variant of its own and so never its own.
pub proof fn law_renamed_pairs(s: Setup, w: WorkV, ev: Event, absolute: bool, has_parent: bool)
    requires
        wf(s, w),
        renamed_right(w.renamed),
    ensures
        renamed_right(next(s, w, ev, absolute, has_parent).0.renamed),
        next(s, w, ev, absolute, has_parent).1 matches StepV::Finish(Ok(OutcomeV::Restored(rep))) ==> renamed_right(
            rep.renamed,
        ),
{
    let p = w.phase;
    if p is RestoreMeta || p is RestoreMark || p is RestoreHashExe || p is RestoreRemoveExe || p is RestoreProbeData
        || p is RestoreList || p is RestoreProbeItem || p is RestoreProbeTarget || p is RestoreMove
        || p is RestoreRemoveMeta || p is RestoreRemoveTmp {
        lemma_renamed_restore(s, w, ev, absolute, has_parent);
    } else if p is FinishProbeData || p is FinishCreateData || p is FinishList || p is FinishHashItem || p is FinishMove
        || p is FinishProbeExe || p is FinishCopyExe || p is FinishWrite {
        lemma_renamed_finish(s, w, ev, absolute, has_parent);
    } else if p is CleanupTmp || p is DirsData || p is DirsVault || p is ProtectHide || p is ProtectData || p is ProtectVault
        || p is OpenProbeVault || p is OpenVault || p is OpenProbeData || p is OpenData {
        lemma_renamed_shared(s, w, ev, absolute, has_parent);
    } else {
        assert(opening_phase(p));
        lemma_renamed_opening(s, w, ev, absolute, has_parent);
    }
}

// ---------- what the requests do to the folder ----------

/// The folder's top-level items by name (the vault among them, under its
/// own name) and, when the vault's data directory exists, the items kept in
/// it. An item's value stands for its whole content.
pub struct Disk<T> {
    pub root: Map<Seq<char>, T>,
    pub data: Option<Map<Seq<char>, T>>,
}

pub open spec fn in_data<T>(d: Disk<T>, n: Seq<char>) -> bool {
    d.data is Some && d.data.unwrap().contains_key(n)
}

pub open spec fn in_root<T>(d: Disk<T>, n: Seq<char>) -> bool {
    d.root.contains_key(n)
}

/// The folder after a request, as the platform's operations behave: moves
/// and copies never replace what is at the target, a directory is removed
/// only when empty, and a new directory or copy gets the content `fresh`.
/// Requests on the state file, hiding and protection leave the items as
/// they are.
pub open spec fn apply<T>(d: Disk<T>, a: ActionV, fresh: T) -> Disk<T> {
    match a {
        ActionV::Move(LocV::RootItem(n), LocV::DataItem(m)) =>
            if in_root(d, n) && d.data is Some && !in_data(d, m) {
                Disk { root: d.root.remove(n), data: Some(d.data.unwrap().insert(m, d.root[n])) }
            } else {
                d
            },
        ActionV::Move(LocV::DataItem(n), LocV::RootItem(c)) =>
            if in_data(d, n) && !in_root(d, c) {
                Disk { root: d.root.insert(c, d.data.unwrap()[n]), data: Some(d.data.unwrap().remove(n)) }
            } else {
                d
            },
        ActionV::RemoveFile(LocV::RootItem(n)) => Disk { root: d.root.remove(n), ..d },
        ActionV::CopyNew(_, LocV::RootItem(n)) =>
            if in_root(d, n) { d } else { Disk { root: d.root.insert(n, fresh), ..d } },
        ActionV::CreateDir(LocV::Vault) =>
            if in_root(d, VAULT_DIR@) { d } else { Disk { root: d.root.insert(VAULT_DIR@, fresh), ..d } },
        ActionV::CreateDir(LocV::Data) =>
            if d.data is Some || !in_root(d, VAULT_DIR@) { d } else { Disk { data: Some(Map::empty()), ..d } },
        ActionV::RemoveDir(LocV::Data) =>
            if d.data is Some && d.data.unwrap().dom().len() == 0 && d.data.unwrap().dom().finite() {
                Disk { data: None, ..d }
            } else {
                d
            },
        ActionV::RemoveDir(LocV::Vault) =>
            if d.data is None { Disk { root: d.root.remove(VAULT_DIR@), ..d } } else { d },
        _ => d,
    }
}

/// After `a` took `d` to `e`, every item that was in the folder (but the
/// vault) or in the vault is still whole in one of the two, unless `a`
/// deleted it by name.
pub open spec fn kept<T>(d: Disk<T>, e: Disk<T>, a: ActionV) -> bool {
    &&& forall|n: Seq<char>| #![trigger d.root[n]]
        in_root(d, n) && n != VAULT_DIR@ && a != ActionV::RemoveFile(LocV::RootItem(n)) ==>
            (in_root(e, n) && e.root[n] == d.root[n]) || (in_data(e, n) && e.data.unwrap()[n] == d.root[n])
    &&& forall|n: Seq<char>| #![trigger d.data.unwrap()[n]]
        in_data(d, n) ==>
            (in_data(e, n) && e.data.unwrap()[n] == d.data.unwrap()[n])
            || (exists|c: Seq<char>| in_root(e, c) && e.root[c] == d.data.unwrap()[n]
                && a == ActionV::Move(LocV::DataItem(n), LocV::RootItem(c)))
}

/// At every moment every item is whole, where it was or in the vault: no
/// request of a running task, carried out on any folder, loses an item.
/// The one item a request may delete is the unlock program the engine
/// placed, and only right after its bytes were read and found to carry the
/// recorded fingerprint.
pub proof fn law_items_survive<T>(s: Setup, w: WorkV, ev: Event, absolute: bool, has_parent: bool, d: Disk<T>, fresh: T)
    requires
        valid(s, w),
        next(s, w, ev, absolute, has_parent).1 is Do,
    ensures
        kept(d, apply(d, next(s, w, ev, absolute, has_parent).1->Do_0, fresh), next(s, w, ev, absolute, has_parent).1->Do_0),
        next(s, w, ev, absolute, has_parent).1->Do_0 is RemoveFile ==>
            (next(s, w, ev, absolute, has_parent).1->Do_0 == ActionV::RemoveFile(LocV::Meta)
            || next(s, w, ev, absolute, has_parent).1->Do_0 == ActionV::RemoveFile(LocV::MetaTmp)
            || removes_placed_exe(w, ev, next(s, w, ev, absolute, has_parent).1->Do_0)),
{
    law_requests_keep_items(s, w, ev, absolute, has_parent);
    let a = next(s, w, ev, absolute, has_parent).1->Do_0;
    let e = apply(d, a, fresh);
    match a {
        ActionV::Move(LocV::DataItem(n), LocV::RootItem(c)) => {
            assert forall|k: Seq<char>| #![trigger d.data.unwrap()[k]] in_data(d, k) implies
                (in_data(e, k) && e.data.unwrap()[k] == d.data.unwrap()[k])
                || (exists|c2: Seq<char>| in_root(e, c2) && e.root[c2] == d.data.unwrap()[k]
                    && a == ActionV::Move(LocV::DataItem(k), LocV::RootItem(c2))) by {
                if k == n && in_data(d, n) && !in_root(d, c) {
                    assert(in_root(e, c) && e.root[c] == d.data.unwrap()[k]);
                }
            }
        },
        _ => {},
    }
}

// ---------- whole runs ----------

/// One request a task made: its setup, its state, the answer it was given,
/// and what the platform's path syntax said of the folder.
pub struct Request {
    pub s: Setup,
    pub w: WorkV,
    pub ev: Event,
    pub absolute: bool,
    pub has_parent: bool,
}

pub open spec fn request_of(q: Request) -> ActionV {
    next(q.s, q.w, q.ev, q.absolute, q.has_parent).1->Do_0
}

/// `v` is an item of the folder (not the vault) or of the vault.
pub open spec fn present<T>(d: Disk<T>, v: T) -> bool {
    exists|n: Seq<char>| #[trigger] holds_at(d, n, v)
}

pub open spec fn holds_at<T>(d: Disk<T>, n: Seq<char>, v: T) -> bool {
    (in_root(d, n) && n != VAULT_DIR@ && d.root[n] == v) || (in_data(d, n) && d.data.unwrap()[n] == v)
}

/// The folder went through `ds`, each request of running tasks (any
/// number of them, one after another: a run cut short, a resume, another
/// run) either carried out (`took`) or failing with no effect.
pub open spec fn carried<T>(qs: Seq<Request>, took: Seq<bool>, fresh: Seq<T>, ds: Seq<Disk<T>>) -> bool {
    &&& ds.len() == qs.len() + 1
    &&& took.len() == qs.len()
    &&& fresh.len() == qs.len()
    &&& forall|i: int| 0 <= i < qs.len() ==> {
        &&& valid(qs[i].s, qs[i].w)
        &&& next(qs[i].s, qs[i].w, qs[i].ev, qs[i].absolute, qs[i].has_parent).1 is Do
        &&& #[trigger] ds[i + 1] == if took[i] { apply(ds[i], request_of(qs[i]), fresh[i]) } else { ds[i] }
    }
}

/// Among the first `k` requests, one deleted `v`: it was the unlock
/// program the engine placed, just read and found to carry the recorded
/// fingerprint.
pub open spec fn deleted_placed<T>(qs: Seq<Request>, ds: Seq<Disk<T>>, v: T, k: int) -> bool {
    exists|j: int, n: Seq<char>| #![trigger ds[j].root[n], qs[j]]
        0 <= j < k && request_of(qs[j]) == ActionV::RemoveFile(LocV::RootItem(n)) && in_root(ds[j], n)
            && ds[j].root[n] == v && removes_placed_exe(qs[j].w, qs[j].ev, request_of(qs[j]))
}

proof fn lemma_step_present<T>(q: Request, d: Disk<T>, e: Disk<T>, took: bool, fresh: T, v: T, n: Seq<char>)
    requires
        valid(q.s, q.w),
        next(q.s, q.w, q.ev, q.absolute, q.has_parent).1 is Do,
        e == (if took { apply(d, request_of(q), fresh) } else { d }),
        holds_at(d, n, v),
    ensures
        present(e, v) || (request_of(q) == ActionV::RemoveFile(LocV::RootItem(n)) && in_root(d, n) && d.root[n] == v
            && removes_placed_exe(q.w, q.ev, request_of(q))),
{
    if took {
        law_items_survive(q.s, q.w, q.ev, q.absolute, q.has_parent, d, fresh);
        law_requests_keep_items(q.s, q.w, q.ev, q.absolute, q.has_parent);
        let a = request_of(q);
        if in_root(d, n) && n != VAULT_DIR@ && d.root[n] == v {
            if a != ActionV::RemoveFile(LocV::RootItem(n)) {
                assert(d.root[n] == v);
                assert(holds_at(e, n, v));
            }
        } else {
            assert(d.data.unwrap()[n] == v);
            if in_data(e, n) && e.data.unwrap()[n] == d.data.unwrap()[n] {
                assert(holds_at(e, n, v));
            } else {
                let c = choose|c: Seq<char>| in_root(e, c) && e.root[c] == d.data.unwrap()[n]
                    && a == ActionV::Move(LocV::DataItem(n), LocV::RootItem(c));
                assert(holds_at(e, c, v));
            }
        }
    } else {
        assert(holds_at(e, n, v));
    }
}

proof fn lemma_prefix<T>(qs: Seq<Request>, took: Seq<bool>, fresh: Seq<T>, ds: Seq<Disk<T>>, v: T, k: int)
    requires
        carried(qs, took, fresh, ds),
        present(ds[0], v),
        0 <= k <= qs.len(),
    ensures
        present(ds[k], v) || deleted_placed(qs, ds, v, k),
    decreases k,
{
    if k > 0 {
        lemma_prefix(qs, took, fresh, ds, v, k - 1);
        if present(ds[k - 1], v) {
            let n = choose|n: Seq<char>| #[trigger] holds_at(ds[k - 1], n, v);
            let i = k - 1;
            assert(ds[i + 1] == if took[i] { apply(ds[i], request_of(qs[i]), fresh[i]) } else { ds[i] });
            lemma_step_present(qs[i], ds[i], ds[i + 1], took[i], fresh[i], v, n);
            if !present(ds[k], v) {
                assert(ds[i].root[n] == v);
                assert(deleted_placed(qs, ds, v, k));
            }
        } else {
            let (j, n) = choose|j: int, n: Seq<char>| #![trigger ds[j].root[n], qs[j]]
                0 <= j < k - 1 && request_of(qs[j]) == ActionV::RemoveFile(LocV::RootItem(n)) && in_root(ds[j], n)
                    && ds[j].root[n] == v && removes_placed_exe(qs[j].w, qs[j].ev, request_of(qs[j]));
            assert(ds[j].root[n] == v && qs[j] == qs[j]);
            assert(deleted_placed(qs, ds, v, k));
        }
    }
}

/// Over a whole history of requests, whatever failed or was cut short and
/// however many times the work was resumed, every item of the folder or of
/// the vault is still whole in one of them at the end, unless one request
/// deleted it as the unlock program the engine placed, right after its
/// bytes were read and found to carry the recorded fingerprint.
pub proof fn law_items_survive_runs<T>(qs: Seq<Request>, took: Seq<bool>, fresh: Seq<T>, ds: Seq<Disk<T>>, v: T)
    requires
        carried(qs, took, fresh, ds),
        present(ds[0], v),
    ensures
        present(ds.last(), v) || deleted_placed(qs, ds, v, qs.len() as int),
{
    lemma_prefix(qs, took, fresh, ds, v, qs.len() as int);
}

} // verus!
