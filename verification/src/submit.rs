//! What happens when the user confirms a dialog: registering a folder with
//! its password, unlocking, changing the password, taking a folder off the
//! list, and the emergency restore. The decisions are a step machine: each
//! step takes what came of the last request (an engine run, a password hash
//! or check, a status) and returns the next request, or the changes to the
//! settings and what to show.

use vstd::prelude::*;
use crate::config::{first_same, Config, FolderEntry};
use crate::engine::{Error, RestoreReport, Status};
use crate::messages::{check_new_password, confirmed, confirm_word, error_text, new_password_problem, opt_text,
    restore_notice, restore_text, trimmed};
use crate::meta::{Meta, PathStyle};
use crate::task::{ErrorV, MetaV, RestoreReportV};

verus! {

/// A confirmed dialog and what was typed into it.
#[derive(Debug)]
pub enum Submission {
    Add { path: String, pw1: String, pw2: String },
    Unlock { path: String, pw: String, open_after: bool },
    ChangePw { path: String, old: String, new1: String, new2: String },
    Remove { path: String },
    Emergency { path: String, confirm: String },
}

/// A dialog shown again, its typed passwords cleared.
#[derive(Debug)]
pub enum Reopen {
    Add { path: String, error: String },
    Unlock { path: String, error: String, open_after: bool },
    ChangePw { path: String, error: String },
    Emergency { path: String, confirm: String },
}

/// A change to the registered folders.
#[derive(Debug)]
pub enum ConfigChange {
    Register { path: String, hash: String },
    SetHash { index: usize, hash: String },
    Remove { index: usize },
}

/// How a submission ends: the change to the settings (and whether they are
/// saved), the notice (`true` for an error), the folder to open, the dialog
/// to show again, and whether the folders' statuses are read again.
#[derive(Debug)]
pub struct Wrapup {
    pub change: Option<ConfigChange>,
    pub save: bool,
    pub notice: Option<(bool, String)>,
    pub open: Option<String>,
    pub reopen: Option<Reopen>,
    pub refresh: bool,
}

/// What a submission waits for.
#[derive(Debug)]
pub enum SubmitState {
    Idle,
    /// The hash of a new folder's password.
    AddHash { path: String, name: String },
    /// The unlock's result.
    UnlockRun { path: String, name: String, pw: String, open_after: bool },
    /// The hash of the password an unlock just confirmed.
    UnlockHash { path: String, name: String, open_after: bool, report: RestoreReport },
    /// The folder's status, before a password change.
    PwStatus { path: String, name: String, old: String, new1: String, new2: String },
    /// The state file, before a password change of a locked folder.
    PwMeta { path: String, name: String, old: String, new1: String, new2: String },
    /// Whether the current password matched.
    PwVerify { path: String, name: String, new1: String, new2: String },
    /// The hash of the new password.
    PwHash { path: String, name: String },
    /// The password change's result.
    PwRun { path: String, name: String, hash: String },
    /// The emergency restore's result.
    EmergencyRun { path: String, name: String },
}

/// What came of the last request. `Start` carries the folder's name as shown.
#[derive(Debug)]
pub enum SubmitEvent {
    Start { sub: Submission, name: String },
    Hashed(String),
    Unlocked(Result<RestoreReport, Error>),
    Status(Result<Status, Error>),
    MetaRead(Option<Meta>),
    Verified(bool),
    PasswordSet(Result<(), Error>),
    Restored(Result<RestoreReport, Error>),
}

/// The next request.
#[derive(Debug)]
pub enum SubmitAction {
    /// Hash a password for keeping.
    Hash(String),
    /// Run `Engine::unlock`.
    Unlock { path: String, pw: String, fallback: Option<String> },
    /// Read the folder's status.
    ReadStatus(String),
    /// Read the folder's state file.
    ReadMeta(String),
    /// Check a password against a hash.
    Verify { password: String, hash: String },
    /// Run `Engine::set_password_hash`.
    SetPassword { path: String, hash: String },
    /// Run `Engine::emergency_restore`.
    Emergency(String),
    Done(Wrapup),
}

// ---------- values ----------

pub enum SubmissionV {
    Add(Seq<char>, Seq<char>, Seq<char>),
    Unlock(Seq<char>, Seq<char>, bool),
    ChangePw(Seq<char>, Seq<char>, Seq<char>, Seq<char>),
    Remove(Seq<char>),
    Emergency(Seq<char>, Seq<char>),
}

pub enum ReopenV {
    Add(Seq<char>, Seq<char>),
    Unlock(Seq<char>, Seq<char>, bool),
    ChangePw(Seq<char>, Seq<char>),
    Emergency(Seq<char>, Seq<char>),
}

pub enum ChangeV {
    Register(Seq<char>, Seq<char>),
    SetHash(usize, Seq<char>),
    Remove(usize),
}

pub struct WrapupV {
    pub change: Option<ChangeV>,
    pub save: bool,
    pub notice: Option<(bool, Seq<char>)>,
    pub open: Option<Seq<char>>,
    pub reopen: Option<ReopenV>,
    pub refresh: bool,
}

pub enum StateV {
    Idle,
    AddHash(Seq<char>, Seq<char>),
    UnlockRun(Seq<char>, Seq<char>, Seq<char>, bool),
    UnlockHash(Seq<char>, Seq<char>, bool, RestoreReportV),
    PwStatus(Seq<char>, Seq<char>, Seq<char>, Seq<char>, Seq<char>),
    PwMeta(Seq<char>, Seq<char>, Seq<char>, Seq<char>, Seq<char>),
    PwVerify(Seq<char>, Seq<char>, Seq<char>, Seq<char>),
    PwHash(Seq<char>, Seq<char>),
    PwRun(Seq<char>, Seq<char>, Seq<char>),
    EmergencyRun(Seq<char>, Seq<char>),
}

pub enum EventV {
    Start(SubmissionV, Seq<char>),
    Hashed(Seq<char>),
    Unlocked(Result<RestoreReportV, ErrorV>),
    Status(Result<Status, ErrorV>),
    MetaRead(Option<MetaV>),
    Verified(bool),
    PasswordSet(Result<(), ErrorV>),
    Restored(Result<RestoreReportV, ErrorV>),
}

pub enum ActionV {
    Hash(Seq<char>),
    Unlock(Seq<char>, Seq<char>, Option<Seq<char>>),
    ReadStatus(Seq<char>),
    ReadMeta(Seq<char>),
    Verify(Seq<char>, Seq<char>),
    SetPassword(Seq<char>, Seq<char>),
    Emergency(Seq<char>),
    Done(WrapupV),
}

impl View for Submission {
    type V = SubmissionV;

    open spec fn view(&self) -> SubmissionV {
        match self {
            Submission::Add { path, pw1, pw2 } => SubmissionV::Add(path@, pw1@, pw2@),
            Submission::Unlock { path, pw, open_after } => SubmissionV::Unlock(path@, pw@, *open_after),
            Submission::ChangePw { path, old, new1, new2 } => SubmissionV::ChangePw(path@, old@, new1@, new2@),
            Submission::Remove { path } => SubmissionV::Remove(path@),
            Submission::Emergency { path, confirm } => SubmissionV::Emergency(path@, confirm@),
        }
    }
}

impl View for Reopen {
    type V = ReopenV;

    open spec fn view(&self) -> ReopenV {
        match self {
            Reopen::Add { path, error } => ReopenV::Add(path@, error@),
            Reopen::Unlock { path, error, open_after } => ReopenV::Unlock(path@, error@, *open_after),
            Reopen::ChangePw { path, error } => ReopenV::ChangePw(path@, error@),
            Reopen::Emergency { path, confirm } => ReopenV::Emergency(path@, confirm@),
        }
    }
}

impl View for ConfigChange {
    type V = ChangeV;

    open spec fn view(&self) -> ChangeV {
        match self {
            ConfigChange::Register { path, hash } => ChangeV::Register(path@, hash@),
            ConfigChange::SetHash { index, hash } => ChangeV::SetHash(*index, hash@),
            ConfigChange::Remove { index } => ChangeV::Remove(*index),
        }
    }
}

impl View for Wrapup {
    type V = WrapupV;

    open spec fn view(&self) -> WrapupV {
        WrapupV {
            change: match self.change {
                Some(c) => Some(c@),
                None => None,
            },
            save: self.save,
            notice: match self.notice {
                Some((e, t)) => Some((e, t@)),
                None => None,
            },
            open: opt_text(self.open),
            reopen: match self.reopen {
                Some(r) => Some(r@),
                None => None,
            },
            refresh: self.refresh,
        }
    }
}

impl View for SubmitState {
    type V = StateV;

    open spec fn view(&self) -> StateV {
        match self {
            SubmitState::Idle => StateV::Idle,
            SubmitState::AddHash { path, name } => StateV::AddHash(path@, name@),
            SubmitState::UnlockRun { path, name, pw, open_after } => StateV::UnlockRun(path@, name@, pw@, *open_after),
            SubmitState::UnlockHash { path, name, open_after, report } => StateV::UnlockHash(path@, name@, *open_after, report@),
            SubmitState::PwStatus { path, name, old, new1, new2 } => StateV::PwStatus(path@, name@, old@, new1@, new2@),
            SubmitState::PwMeta { path, name, old, new1, new2 } => StateV::PwMeta(path@, name@, old@, new1@, new2@),
            SubmitState::PwVerify { path, name, new1, new2 } => StateV::PwVerify(path@, name@, new1@, new2@),
            SubmitState::PwHash { path, name } => StateV::PwHash(path@, name@),
            SubmitState::PwRun { path, name, hash } => StateV::PwRun(path@, name@, hash@),
            SubmitState::EmergencyRun { path, name } => StateV::EmergencyRun(path@, name@),
        }
    }
}

pub open spec fn report_result(r: Result<RestoreReport, Error>) -> Result<RestoreReportV, ErrorV> {
    match r {
        Ok(x) => Ok(x@),
        Err(e) => Err(e@),
    }
}

impl View for SubmitEvent {
    type V = EventV;

    open spec fn view(&self) -> EventV {
        match self {
            SubmitEvent::Start { sub, name } => EventV::Start(sub@, name@),
            SubmitEvent::Hashed(h) => EventV::Hashed(h@),
            SubmitEvent::Unlocked(r) => EventV::Unlocked(report_result(*r)),
            SubmitEvent::Status(r) => EventV::Status(match r {
                Ok(s) => Ok(*s),
                Err(e) => Err(e@),
            }),
            SubmitEvent::MetaRead(m) => EventV::MetaRead(crate::task::meta_view(*m)),
            SubmitEvent::Verified(b) => EventV::Verified(*b),
            SubmitEvent::PasswordSet(r) => EventV::PasswordSet(match r {
                Ok(_) => Ok(()),
                Err(e) => Err(e@),
            }),
            SubmitEvent::Restored(r) => EventV::Restored(report_result(*r)),
        }
    }
}

impl View for SubmitAction {
    type V = ActionV;

    open spec fn view(&self) -> ActionV {
        match self {
            SubmitAction::Hash(p) => ActionV::Hash(p@),
            SubmitAction::Unlock { path, pw, fallback } => ActionV::Unlock(path@, pw@, opt_text(*fallback)),
            SubmitAction::ReadStatus(p) => ActionV::ReadStatus(p@),
            SubmitAction::ReadMeta(p) => ActionV::ReadMeta(p@),
            SubmitAction::Verify { password, hash } => ActionV::Verify(password@, hash@),
            SubmitAction::SetPassword { path, hash } => ActionV::SetPassword(path@, hash@),
            SubmitAction::Emergency(p) => ActionV::Emergency(p@),
            SubmitAction::Done(w) => ActionV::Done(w@),
        }
    }
}

// ---------- the decisions ----------

/// The position of the registered folder that is `path`.
pub open spec fn found(resolved: Seq<String>, path: Seq<char>, style: PathStyle) -> Option<usize> {
    let k = first_same(resolved, path, style);
    if k < resolved.len() {
        Some(k as usize)
    } else {
        None
    }
}

/// The spare hash kept in the settings for the folder at `path`.
pub open spec fn spare_hash(folders: Seq<FolderEntry>, resolved: Seq<String>, path: Seq<char>, style: PathStyle) -> Option<Seq<char>> {
    match found(resolved, path, style) {
        Some(i) => Some(folders[i as int].password_hash@),
        None => None,
    }
}

pub open spec fn quiet() -> WrapupV {
    WrapupV { change: None, save: false, notice: None, open: None, reopen: None, refresh: false }
}

pub open spec fn done(w: WrapupV) -> (StateV, ActionV) {
    (StateV::Idle, ActionV::Done(w))
}

pub open spec fn show_again(r: ReopenV) -> (StateV, ActionV) {
    done(WrapupV { reopen: Some(r), ..quiet() })
}

pub open spec fn tell(error: bool, text: Seq<char>, refresh: bool) -> (StateV, ActionV) {
    done(WrapupV { notice: Some((error, text)), refresh, ..quiet() })
}

pub open spec fn registered_text(name: Seq<char>) -> Seq<char> {
    "'"@ + name + "' 폴더를 등록했어요. [잠그기]를 누르면 잠겨요."@
}

pub open spec fn changed_text(name: Seq<char>) -> Seq<char> {
    "'"@ + name + "' 폴더의 비밀번호를 바꿨어요."@
}

pub open spec fn removed_text(name: Seq<char>) -> Seq<char> {
    "'"@ + name + "' 폴더를 목록에서 뺐어요. 폴더와 파일은 그대로예요."@
}

pub open spec fn wrong_current_text() -> Seq<char> {
    "현재 비밀번호가 틀렸습니다."@
}

pub open spec fn wrong_text() -> Seq<char> {
    "비밀번호가 틀렸습니다."@
}

pub open spec fn unlock_failed_text(e: ErrorV) -> Seq<char> {
    "잠금 해제를 마치지 못했어요.\n"@ + error_text(e)
}

pub open spec fn change_failed_text(e: ErrorV) -> Seq<char> {
    "비밀번호를 바꾸지 못했어요. 기존 비밀번호가 그대로 유효해요.\n"@ + error_text(e)
}

/// With the hash the current password is checked against (if any), the
/// next step of a password change.
pub open spec fn check_current(path: Seq<char>, name: Seq<char>, old: Seq<char>, new1: Seq<char>, new2: Seq<char>, current: Option<Seq<char>>) -> (StateV, ActionV) {
    match current {
        None => show_again(ReopenV::ChangePw(path, wrong_current_text())),
        Some(h) => (StateV::PwVerify(path, name, new1, new2), ActionV::Verify(old, h)),
    }
}

/// The step that follows `ev` while waiting in `st`. The settings hold
/// `folders`; `resolved[i]` is `folders[i]`'s path as resolved on disk.
pub open spec fn submit_next(folders: Seq<FolderEntry>, resolved: Seq<String>, st: StateV, ev: EventV, style: PathStyle) -> (StateV, ActionV) {
    match (st, ev) {
        (StateV::Idle, EventV::Start(sub, name)) => match sub {
            SubmissionV::Add(path, pw1, pw2) => match new_password_problem(pw1, pw2) {
                Some(e) => show_again(ReopenV::Add(path, e)),
                None => (StateV::AddHash(path, name), ActionV::Hash(pw1)),
            },
            SubmissionV::Unlock(path, pw, open_after) => (
                StateV::UnlockRun(path, name, pw, open_after),
                ActionV::Unlock(path, pw, spare_hash(folders, resolved, path, style)),
            ),
            SubmissionV::ChangePw(path, old, new1, new2) => (StateV::PwStatus(path, name, old, new1, new2), ActionV::ReadStatus(path)),
            SubmissionV::Remove(path) => match found(resolved, path, style) {
                Some(i) => done(WrapupV {
                    change: Some(ChangeV::Remove(i)),
                    save: true,
                    notice: Some((false, removed_text(name))),
                    refresh: true,
                    ..quiet()
                }),
                None => done(WrapupV { refresh: true, ..quiet() }),
            },
            SubmissionV::Emergency(path, confirm) => if trimmed(confirm) == confirm_word() {
                (StateV::EmergencyRun(path, name), ActionV::Emergency(path))
            } else {
                show_again(ReopenV::Emergency(path, confirm))
            },
        },
        (StateV::AddHash(path, name), EventV::Hashed(h)) => done(WrapupV {
            change: Some(ChangeV::Register(path, h)),
            save: true,
            notice: Some((false, registered_text(name))),
            refresh: true,
            ..quiet()
        }),
        (StateV::UnlockRun(path, name, pw, open_after), EventV::Unlocked(r)) => match r {
            Ok(report) => (StateV::UnlockHash(path, name, open_after, report), ActionV::Hash(pw)),
            Err(ErrorV::WrongPassword) => done(WrapupV { reopen: Some(ReopenV::Unlock(path, wrong_text(), open_after)), refresh: true, ..quiet() }),
            Err(e) => tell(true, unlock_failed_text(e), true),
        },
        (StateV::UnlockHash(path, name, open_after, report), EventV::Hashed(h)) => done(WrapupV {
            change: Some(match found(resolved, path, style) {
                Some(i) => ChangeV::SetHash(i, h),
                None => ChangeV::Register(path, h),
            }),
            save: true,
            notice: Some((false, restore_text(name, report.restored as nat, report.renamed, report.warnings))),
            open: if open_after { Some(path) } else { None },
            reopen: None,
            refresh: true,
        }),
        (StateV::PwStatus(path, name, old, new1, new2), EventV::Status(r)) => if r == Ok::<Status, ErrorV>(Status::Locked) {
            (StateV::PwMeta(path, name, old, new1, new2), ActionV::ReadMeta(path))
        } else {
            check_current(path, name, old, new1, new2, spare_hash(folders, resolved, path, style))
        },
        (StateV::PwMeta(path, name, old, new1, new2), EventV::MetaRead(m)) => check_current(path, name, old, new1, new2,
            match m {
                Some(mm) => Some(mm.password_hash),
                None => spare_hash(folders, resolved, path, style),
            },
        ),
        (StateV::PwVerify(path, name, new1, new2), EventV::Verified(ok)) => if !ok {
            show_again(ReopenV::ChangePw(path, wrong_current_text()))
        } else {
            match new_password_problem(new1, new2) {
                Some(e) => show_again(ReopenV::ChangePw(path, e)),
                None => (StateV::PwHash(path, name), ActionV::Hash(new1)),
            }
        },
        (StateV::PwHash(path, name), EventV::Hashed(h)) => (StateV::PwRun(path, name, h), ActionV::SetPassword(path, h)),
        (StateV::PwRun(path, name, h), EventV::PasswordSet(r)) => match r {
            Err(e) => tell(true, change_failed_text(e), false),
            Ok(_) => done(WrapupV {
                change: match found(resolved, path, style) {
                    Some(i) => Some(ChangeV::SetHash(i, h)),
                    None => None,
                },
                save: true,
                notice: Some((false, changed_text(name))),
                refresh: true,
                ..quiet()
            }),
        },
        (StateV::EmergencyRun(path, name), EventV::Restored(r)) => match r {
            Ok(report) => tell(false, restore_text(name, report.restored as nat, report.renamed, report.warnings), true),
            Err(e) => tell(true, error_text(e), true),
        },
        _ => done(quiet()),
    }
}

fn text(s: &str) -> (r: String)
    ensures
        r@ == s@,
{
    String::from_str(s)
}

fn quiet_exec() -> (w: Wrapup)
    ensures
        w@ == quiet(),
{
    Wrapup { change: None, save: false, notice: None, open: None, reopen: None, refresh: false }
}

fn with_name(before: &str, name: &str, after: &str) -> (r: String)
    ensures
        r@ == before@ + name@ + after@,
{
    let mut s = String::from_str(before);
    s.append(name);
    s.append(after);
    s
}

fn found_exec(cfg: &Config, resolved: &Vec<String>, path: &str, style: PathStyle) -> (r: Option<usize>)
    requires
        resolved@.len() == cfg.folders@.len(),
    ensures
        r == found(resolved@, path@, style),
{
    cfg.find(resolved, path, style)
}

fn spare_hash_exec(cfg: &Config, resolved: &Vec<String>, path: &str, style: PathStyle) -> (r: Option<String>)
    requires
        resolved@.len() == cfg.folders@.len(),
    ensures
        opt_text(r) == spare_hash(cfg.folders@, resolved@, path@, style),
{
    proof {
        crate::guard::lemma_first_from_range(0, resolved@.len() as int,
            crate::guard::exact_hit(crate::guard::normalized(path@, style), resolved@, style));
    }
    match cfg.find(resolved, path, style) {
        Some(i) => Some(cfg.folders[i].password_hash.clone()),
        None => None,
    }
}

fn check_current_exec(path: String, name: String, old: String, new1: String, new2: String, current: Option<String>) -> (r: (SubmitState, SubmitAction))
    ensures
        (r.0@, r.1@) == check_current(path@, name@, old@, new1@, new2@, opt_text(current)),
{
    match current {
        None => (SubmitState::Idle, SubmitAction::Done(Wrapup {
            reopen: Some(Reopen::ChangePw { path, error: text("현재 비밀번호가 틀렸습니다.") }),
            ..quiet_exec()
        })),
        Some(h) => (SubmitState::PwVerify { path, name, new1, new2 }, SubmitAction::Verify { password: old, hash: h }),
    }
}

fn restored_notice(name: &str, r: &RestoreReport) -> (s: String)
    ensures
        s@ == restore_text(name@, r.restored as nat, r@.renamed, r@.warnings),
{
    restore_notice(name, r)
}

/// One step of a submission: what follows `ev` while waiting in `st`.
/// `resolved[i]` is `cfg.folders[i]`'s path as resolved on disk.
pub fn submit_step(cfg: &Config, resolved: &Vec<String>, st: SubmitState, ev: SubmitEvent, style: PathStyle) -> (r: (SubmitState, SubmitAction))
    requires
        resolved@.len() == cfg.folders@.len(),
    ensures
        (r.0@, r.1@) == submit_next(cfg.folders@, resolved@, st@, ev@, style),
{
    let ghost st0 = st@;
    let ghost ev0 = ev@;
    match st {
        SubmitState::Idle => match ev {
            SubmitEvent::Start { sub, name } => match sub {
                Submission::Add { path, pw1, pw2 } => match check_new_password(pw1.as_str(), pw2.as_str()) {
                    Some(e) => (SubmitState::Idle, SubmitAction::Done(Wrapup {
                        reopen: Some(Reopen::Add { path, error: e }),
                        ..quiet_exec()
                    })),
                    None => (SubmitState::AddHash { path, name }, SubmitAction::Hash(pw1)),
                },
                Submission::Unlock { path, pw, open_after } => {
                    let fallback = spare_hash_exec(cfg, resolved, path.as_str(), style);
                    let p2 = path.clone();
                    let pw2 = pw.clone();
                    (SubmitState::UnlockRun { path, name, pw, open_after }, SubmitAction::Unlock { path: p2, pw: pw2, fallback })
                },
                Submission::ChangePw { path, old, new1, new2 } => {
                    let p2 = path.clone();
                    (SubmitState::PwStatus { path, name, old, new1, new2 }, SubmitAction::ReadStatus(p2))
                },
                Submission::Remove { path } => match found_exec(cfg, resolved, path.as_str(), style) {
                    Some(i) => (SubmitState::Idle, SubmitAction::Done(Wrapup {
                        change: Some(ConfigChange::Remove { index: i }),
                        save: true,
                        notice: Some((false, with_name("'", name.as_str(), "' 폴더를 목록에서 뺐어요. 폴더와 파일은 그대로예요."))),
                        refresh: true,
                        ..quiet_exec()
                    })),
                    None => (SubmitState::Idle, SubmitAction::Done(Wrapup { refresh: true, ..quiet_exec() })),
                },
                Submission::Emergency { path, confirm } => {
                    if confirmed(confirm.as_str()) {
                        let p2 = path.clone();
                        (SubmitState::EmergencyRun { path, name }, SubmitAction::Emergency(p2))
                    } else {
                        (SubmitState::Idle, SubmitAction::Done(Wrapup {
                            reopen: Some(Reopen::Emergency { path, confirm }),
                            ..quiet_exec()
                        }))
                    }
                },
            },
            _ => (SubmitState::Idle, SubmitAction::Done(quiet_exec())),
        },
        SubmitState::AddHash { path, name } => match ev {
            SubmitEvent::Hashed(h) => (SubmitState::Idle, SubmitAction::Done(Wrapup {
                change: Some(ConfigChange::Register { path, hash: h }),
                save: true,
                notice: Some((false, with_name("'", name.as_str(), "' 폴더를 등록했어요. [잠그기]를 누르면 잠겨요."))),
                refresh: true,
                ..quiet_exec()
            })),
            _ => (SubmitState::Idle, SubmitAction::Done(quiet_exec())),
        },
        SubmitState::UnlockRun { path, name, pw, open_after } => match ev {
            SubmitEvent::Unlocked(r) => match r {
                Ok(report) => (SubmitState::UnlockHash { path, name, open_after, report }, SubmitAction::Hash(pw)),
                Err(e) => {
                    if let Error::WrongPassword = e {
                        (SubmitState::Idle, SubmitAction::Done(Wrapup {
                            reopen: Some(Reopen::Unlock { path, error: text("비밀번호가 틀렸습니다."), open_after }),
                            refresh: true,
                            ..quiet_exec()
                        }))
                    } else {
                        let mut t = text("잠금 해제를 마치지 못했어요.\n");
                        t.append(e.message().as_str());
                        (SubmitState::Idle, SubmitAction::Done(Wrapup { notice: Some((true, t)), refresh: true, ..quiet_exec() }))
                    }
                },
            },
            _ => (SubmitState::Idle, SubmitAction::Done(quiet_exec())),
        },
        SubmitState::UnlockHash { path, name, open_after, report } => match ev {
            SubmitEvent::Hashed(h) => {
                let change = match found_exec(cfg, resolved, path.as_str(), style) {
                    Some(i) => ConfigChange::SetHash { index: i, hash: h },
                    None => ConfigChange::Register { path: path.clone(), hash: h },
                };
                let notice = restored_notice(name.as_str(), &report);
                let open = if open_after { Some(path) } else { None };
                (SubmitState::Idle, SubmitAction::Done(Wrapup {
                    change: Some(change),
                    save: true,
                    notice: Some((false, notice)),
                    open,
                    reopen: None,
                    refresh: true,
                }))
            },
            _ => (SubmitState::Idle, SubmitAction::Done(quiet_exec())),
        },
        SubmitState::PwStatus { path, name, old, new1, new2 } => match ev {
            SubmitEvent::Status(r) => {
                let locked = match r {
                    Ok(Status::Locked) => true,
                    _ => false,
                };
                if locked {
                    let p2 = path.clone();
                    (SubmitState::PwMeta { path, name, old, new1, new2 }, SubmitAction::ReadMeta(p2))
                } else {
                    let current = spare_hash_exec(cfg, resolved, path.as_str(), style);
                    check_current_exec(path, name, old, new1, new2, current)
                }
            },
            _ => (SubmitState::Idle, SubmitAction::Done(quiet_exec())),
        },
        SubmitState::PwMeta { path, name, old, new1, new2 } => match ev {
            SubmitEvent::MetaRead(m) => {
                let current = match m {
                    Some(mm) => Some(mm.password_hash),
                    None => spare_hash_exec(cfg, resolved, path.as_str(), style),
                };
                check_current_exec(path, name, old, new1, new2, current)
            },
            _ => (SubmitState::Idle, SubmitAction::Done(quiet_exec())),
        },
        SubmitState::PwVerify { path, name, new1, new2 } => match ev {
            SubmitEvent::Verified(ok) => {
                if !ok {
                    (SubmitState::Idle, SubmitAction::Done(Wrapup {
                        reopen: Some(Reopen::ChangePw { path, error: text("현재 비밀번호가 틀렸습니다.") }),
                        ..quiet_exec()
                    }))
                } else {
                    match check_new_password(new1.as_str(), new2.as_str()) {
                        Some(e) => (SubmitState::Idle, SubmitAction::Done(Wrapup {
                            reopen: Some(Reopen::ChangePw { path, error: e }),
                            ..quiet_exec()
                        })),
                        None => (SubmitState::PwHash { path, name }, SubmitAction::Hash(new1)),
                    }
                }
            },
            _ => (SubmitState::Idle, SubmitAction::Done(quiet_exec())),
        },
        SubmitState::PwHash { path, name } => match ev {
            SubmitEvent::Hashed(h) => {
                let p2 = path.clone();
                let h2 = h.clone();
                (SubmitState::PwRun { path, name, hash: h }, SubmitAction::SetPassword { path: p2, hash: h2 })
            },
            _ => (SubmitState::Idle, SubmitAction::Done(quiet_exec())),
        },
        SubmitState::PwRun { path, name, hash } => match ev {
            SubmitEvent::PasswordSet(r) => match r {
                Err(e) => {
                    let mut t = text("비밀번호를 바꾸지 못했어요. 기존 비밀번호가 그대로 유효해요.\n");
                    t.append(e.message().as_str());
                    (SubmitState::Idle, SubmitAction::Done(Wrapup { notice: Some((true, t)), ..quiet_exec() }))
                },
                Ok(_) => {
                    let change = match found_exec(cfg, resolved, path.as_str(), style) {
                        Some(i) => Some(ConfigChange::SetHash { index: i, hash }),
                        None => None,
                    };
                    (SubmitState::Idle, SubmitAction::Done(Wrapup {
                        change,
                        save: true,
                        notice: Some((false, with_name("'", name.as_str(), "' 폴더의 비밀번호를 바꿨어요."))),
                        refresh: true,
                        ..quiet_exec()
                    }))
                },
            },
            _ => (SubmitState::Idle, SubmitAction::Done(quiet_exec())),
        },
        SubmitState::EmergencyRun { path, name } => match ev {
            SubmitEvent::Restored(r) => match r {
                Ok(report) => {
                    let t = restored_notice(name.as_str(), &report);
                    (SubmitState::Idle, SubmitAction::Done(Wrapup { notice: Some((false, t)), refresh: true, ..quiet_exec() }))
                },
                Err(e) => (SubmitState::Idle, SubmitAction::Done(Wrapup {
                    notice: Some((true, e.message())),
                    refresh: true,
                    ..quiet_exec()
                })),
            },
            _ => (SubmitState::Idle, SubmitAction::Done(quiet_exec())),
        },
    }
}

// ---------- choosing a folder to add ----------

/// What choosing a folder to add leads to.
#[derive(Debug)]
pub enum Pick {
    /// It is refused, with this message.
    Refuse(String),
    /// It is locked already (on another computer or account): it is
    /// registered by unlocking it.
    Unlock,
    /// It goes on to the guard's check, then to the password dialog.
    Check,
}

pub open spec fn overlap_text(existing: Seq<char>) -> Seq<char> {
    "이미 등록된 폴더와 겹칩니다: "@ + existing
}

pub open spec fn interrupted_text() -> Seq<char> {
    "이전 작업이 중단된 폴더예요. 폴더 안의 잠금 해제 입구로 먼저 정리해 주세요."@
}

/// What choosing a folder leads to, given the first registered folder it
/// overlaps (if any) and its status.
pub open spec fn picked(overlapping: Option<Seq<char>>, status: Result<Status, ErrorV>) -> Result<bool, Seq<char>> {
    match overlapping {
        Some(e) => Err(overlap_text(e)),
        None => match status {
            Ok(Status::Unlocked) => Ok(true),
            Ok(Status::Locked) => Ok(false),
            Ok(_) => Err(interrupted_text()),
            Err(e) => Err(error_text(e)),
        },
    }
}

pub open spec fn str_view(o: Option<&str>) -> Option<Seq<char>> {
    match o {
        Some(e) => Some(e@),
        None => None,
    }
}

pub open spec fn status_view(r: Result<Status, Error>) -> Result<Status, ErrorV> {
    match r {
        Ok(st) => Ok(st),
        Err(e) => Err(e@),
    }
}

pub open spec fn pick_view(p: Pick) -> Result<bool, Seq<char>> {
    match p {
        Pick::Refuse(m) => Err(m@),
        Pick::Unlock => Ok(false),
        Pick::Check => Ok(true),
    }
}

/// Choosing the folder to add: one that overlaps a registered folder
/// (`overlapping`, the first such) is refused; a locked one is unlocked
/// first; an unlocked one goes on to the guard's check; one whose earlier
/// work was cut off, or whose status could not be read, is refused.
pub fn pick(overlapping: Option<&str>, status: &Result<Status, Error>) -> (p: Pick)
    ensures
        pick_view(p) == picked(str_view(overlapping), status_view(*status)),
{
    if let Some(existing) = overlapping {
        let mut m = String::from_str("이미 등록된 폴더와 겹칩니다: ");
        proof {
            reveal_strlit("이미 등록된 폴더와 겹칩니다: ");
        }
        m.append(existing);
        return Pick::Refuse(m);
    }
    match status {
        Ok(Status::Unlocked) => Pick::Check,
        Ok(Status::Locked) => Pick::Unlock,
        Ok(_) => Pick::Refuse(String::from_str("이전 작업이 중단된 폴더예요. 폴더 안의 잠금 해제 입구로 먼저 정리해 주세요.")),
        Err(e) => Pick::Refuse(e.message()),
    }
}

// ---------- what a new password needs ----------

/// The dialog shown again with `error`, nothing else changed or shown.
pub open spec fn only_reopens(a: ActionV, again: ReopenV) -> bool {
    a == ActionV::Done(WrapupV { change: None, save: false, notice: None, open: None, reopen: Some(again), refresh: false })
}

/// Changing a folder's password, once the current password is confirmed:
/// the new password is hashed (the step before it is set) exactly when it
/// has at least `MIN_LEN` characters and was typed the same twice; when it
/// was typed differently the dialog is shown again saying so, and when it is
/// too short the dialog is shown again saying that; then nothing is hashed,
/// set or saved.
pub proof fn law_new_password_confirmed(folders: Seq<FolderEntry>, resolved: Seq<String>, path: Seq<char>, name: Seq<char>, new1: Seq<char>, new2: Seq<char>, style: PathStyle)
    ensures
        new1.len() >= crate::messages::MIN_LEN && new1 == new2 ==> submit_next(folders, resolved,
            StateV::PwVerify(path, name, new1, new2), EventV::Verified(true), style) == (StateV::PwHash(path, name), ActionV::Hash(new1)),
        new1.len() >= crate::messages::MIN_LEN && new1 != new2 ==> {
            let r = submit_next(folders, resolved, StateV::PwVerify(path, name, new1, new2), EventV::Verified(true), style);
            r.0 == StateV::Idle && only_reopens(r.1, ReopenV::ChangePw(path, "두 비밀번호가 다릅니다."@))
        },
        new1.len() < crate::messages::MIN_LEN ==> {
            let r = submit_next(folders, resolved, StateV::PwVerify(path, name, new1, new2), EventV::Verified(true), style);
            r.0 == StateV::Idle && only_reopens(
                r.1,
                ReopenV::ChangePw(path, "비밀번호는 "@ + crate::text::decimal(crate::messages::MIN_LEN as nat) + "자 이상이어야 합니다."@),
            )
        },
{
}

/// Registering a folder: its password is hashed (the step before it is
/// registered) exactly when it has at least `MIN_LEN` characters and was
/// typed the same twice; otherwise the dialog is shown again saying what is
/// wrong, and nothing is hashed or registered.
pub proof fn law_first_password_confirmed(folders: Seq<FolderEntry>, resolved: Seq<String>, path: Seq<char>, name: Seq<char>, pw1: Seq<char>, pw2: Seq<char>, style: PathStyle)
    ensures
        pw1.len() >= crate::messages::MIN_LEN && pw1 == pw2 ==> submit_next(folders, resolved,
            StateV::Idle, EventV::Start(SubmissionV::Add(path, pw1, pw2), name), style) == (StateV::AddHash(path, name), ActionV::Hash(pw1)),
        pw1.len() >= crate::messages::MIN_LEN && pw1 != pw2 ==> {
            let r = submit_next(folders, resolved, StateV::Idle, EventV::Start(SubmissionV::Add(path, pw1, pw2), name), style);
            r.0 == StateV::Idle && only_reopens(r.1, ReopenV::Add(path, "두 비밀번호가 다릅니다."@))
        },
        pw1.len() < crate::messages::MIN_LEN ==> {
            let r = submit_next(folders, resolved, StateV::Idle, EventV::Start(SubmissionV::Add(path, pw1, pw2), name), style);
            r.0 == StateV::Idle && only_reopens(
                r.1,
                ReopenV::Add(path, "비밀번호는 "@ + crate::text::decimal(crate::messages::MIN_LEN as nat) + "자 이상이어야 합니다."@),
            )
        },
{
}

/// The rest of a password change: a wrong current password shows the
/// dialog again saying so, with nothing hashed or set; the hash of the new
/// password is the one set on the folder, and, once the folder took it, the
/// one kept for the folder in the settings; when the folder did not take it,
/// the settings are left as they were.
pub proof fn law_password_change_sets_the_new_hash(folders: Seq<FolderEntry>, resolved: Seq<String>, path: Seq<char>, name: Seq<char>, new1: Seq<char>, new2: Seq<char>, h: Seq<char>, e: ErrorV, style: PathStyle)
    requires
        resolved.len() <= usize::MAX,
    ensures
        ({
            let r = submit_next(folders, resolved, StateV::PwVerify(path, name, new1, new2), EventV::Verified(false), style);
            r.0 == StateV::Idle && only_reopens(r.1, ReopenV::ChangePw(path, "현재 비밀번호가 틀렸습니다."@))
        }),
        submit_next(folders, resolved, StateV::PwHash(path, name), EventV::Hashed(h), style) == (
            StateV::PwRun(path, name, h),
            ActionV::SetPassword(path, h),
        ),
        ({
            let r = submit_next(folders, resolved, StateV::PwRun(path, name, h), EventV::PasswordSet(Err(e)), style);
            &&& r.0 == StateV::Idle
            &&& r.1 matches ActionV::Done(w) && w.change is None && !w.save && w.notice matches Some((true, _))
        }),
        ({
            let r = submit_next(folders, resolved, StateV::PwRun(path, name, h), EventV::PasswordSet(Ok(())), style);
            &&& r.0 == StateV::Idle
            &&& r.1 matches ActionV::Done(w)
            &&& w.save
            &&& (w.change matches Some(c) ==> c matches ChangeV::SetHash(i, hh) && hh == h && i < resolved.len()
                && crate::guard::normalized(resolved[i as int]@, style) == crate::guard::normalized(path, style))
            &&& (w.change is None ==> forall|i: int| 0 <= i < resolved.len()
                ==> crate::guard::normalized(#[trigger] resolved[i]@, style) != crate::guard::normalized(path, style))
        }),
{
    let p = crate::guard::exact_hit(crate::guard::normalized(path, style), resolved, style);
    let len = resolved.len() as int;
    crate::guard::lemma_first_from_range(0, len, p);
    let k = first_same(resolved, path, style);
    if k < len {
        crate::guard::lemma_first_from_hit(0, len, p);
        assert(p(k));
        assert(crate::guard::normalized(resolved[k]@, style) == crate::guard::normalized(path, style));
        assert(found(resolved, path, style) == Some(k as usize));
        assert((k as usize) as int == k);
    } else {
        assert(found(resolved, path, style) is None);
        assert forall|i: int| 0 <= i < len implies crate::guard::normalized(#[trigger] resolved[i]@, style)
            != crate::guard::normalized(path, style) by {
            if p(i) {
                crate::guard::lemma_first_from_found(0, len, p, i);
            }
        }
    }
}

/// An unlock from the dialog runs with the password typed; a wrong password
/// shows the dialog again saying so, and nothing is kept.
pub proof fn law_unlock_dialog(folders: Seq<FolderEntry>, resolved: Seq<String>, path: Seq<char>, name: Seq<char>, pw: Seq<char>, open_after: bool, style: PathStyle)
    ensures
        submit_next(folders, resolved, StateV::Idle, EventV::Start(SubmissionV::Unlock(path, pw, open_after), name), style).1
            matches ActionV::Unlock(p, q, _) && p == path && q == pw,
        ({
            let r = submit_next(folders, resolved, StateV::UnlockRun(path, name, pw, open_after), EventV::Unlocked(Err(ErrorV::WrongPassword)), style);
            &&& r.0 == StateV::Idle
            &&& r.1 matches ActionV::Done(w) && w.change is None && !w.save
                && w.reopen == Some(ReopenV::Unlock(path, "비밀번호가 틀렸습니다."@, open_after))
        }),
{
}

/// The emergency restore runs only when the confirmation typed is the word
/// `복원` (surrounding white space aside); otherwise the dialog is shown
/// again as it was.
pub proof fn law_emergency_needs_the_word(folders: Seq<FolderEntry>, resolved: Seq<String>, path: Seq<char>, name: Seq<char>, confirm: Seq<char>, style: PathStyle)
    ensures
        trimmed(confirm) == "복원"@ ==> submit_next(folders, resolved, StateV::Idle, EventV::Start(SubmissionV::Emergency(path, confirm), name), style)
            == (StateV::EmergencyRun(path, name), ActionV::Emergency(path)),
        trimmed(confirm) != "복원"@ ==> {
            let r = submit_next(folders, resolved, StateV::Idle, EventV::Start(SubmissionV::Emergency(path, confirm), name), style);
            r.0 == StateV::Idle && only_reopens(r.1, ReopenV::Emergency(path, confirm))
        },
{
}

} // verus!
