//! The decisions taken when a dialog is confirmed.

use folderlock::config::{Config, FolderEntry};
use folderlock::engine::{Error, RestoreReport, Status};
use folderlock::messages::confirmed;
use folderlock::meta::{LockState, Meta, PathStyle};
use folderlock::submit::{pick, submit_step, ConfigChange, Pick, Reopen, SubmitAction, SubmitEvent, SubmitState, Submission, Wrapup};

fn cfg(entries: &[(&str, &str)]) -> (Config, Vec<String>) {
    let folders: Vec<FolderEntry> = entries
        .iter()
        .map(|(p, h)| FolderEntry { path: p.to_string(), password_hash: h.to_string() })
        .collect();
    let resolved = entries.iter().map(|(p, _)| p.to_string()).collect();
    (Config { folders }, resolved)
}

fn s(x: &str) -> String {
    x.to_string()
}

fn step(c: &(Config, Vec<String>), st: SubmitState, ev: SubmitEvent) -> (SubmitState, SubmitAction) {
    submit_step(&c.0, &c.1, st, ev, PathStyle::Unix)
}

fn start(c: &(Config, Vec<String>), sub: Submission) -> (SubmitState, SubmitAction) {
    step(c, SubmitState::Idle, SubmitEvent::Start { sub, name: s("a") })
}

fn done(a: SubmitAction) -> Wrapup {
    match a {
        SubmitAction::Done(w) => w,
        other => panic!("{other:?}"),
    }
}

fn report() -> RestoreReport {
    RestoreReport { restored: 2, renamed: Vec::new(), warnings: Vec::new() }
}

#[test]
fn short_or_mismatched_new_password_reopens_the_add_dialog() {
    let c = cfg(&[]);
    let w = done(start(&c, Submission::Add { path: s("/a"), pw1: s("abc"), pw2: s("abc") }).1);
    assert!(matches!(&w.reopen, Some(Reopen::Add { path, error }) if path == "/a" && error == "비밀번호는 4자 이상이어야 합니다."));
    assert!(w.change.is_none() && !w.save && !w.refresh);
    let w = done(start(&c, Submission::Add { path: s("/a"), pw1: s("abcd"), pw2: s("abce") }).1);
    assert!(matches!(&w.reopen, Some(Reopen::Add { error, .. }) if error == "두 비밀번호가 다릅니다."));
}

#[test]
fn adding_registers_the_folder_with_the_hash() {
    let c = cfg(&[]);
    let (st, a) = start(&c, Submission::Add { path: s("/a"), pw1: s("abcd"), pw2: s("abcd") });
    assert!(matches!(&a, SubmitAction::Hash(p) if p == "abcd"));
    let w = done(step(&c, st, SubmitEvent::Hashed(s("H"))).1);
    assert!(matches!(&w.change, Some(ConfigChange::Register { path, hash }) if path == "/a" && hash == "H"));
    assert!(w.save && w.refresh);
    assert_eq!(w.notice, Some((false, s("'a' 폴더를 등록했어요. [잠그기]를 누르면 잠겨요."))));
}

#[test]
fn unlocking_resyncs_the_spare_hash() {
    let c = cfg(&[("/x", "hx"), ("/a", "old")]);
    let (st, a) = start(&c, Submission::Unlock { path: s("/a"), pw: s("pw"), open_after: true });
    match &a {
        SubmitAction::Unlock { path, pw, fallback } => {
            assert_eq!((path.as_str(), pw.as_str(), fallback.as_deref()), ("/a", "pw", Some("old")));
        },
        other => panic!("{other:?}"),
    }
    let (st, a) = step(&c, st, SubmitEvent::Unlocked(Ok(report())));
    assert!(matches!(&a, SubmitAction::Hash(p) if p == "pw"));
    let w = done(step(&c, st, SubmitEvent::Hashed(s("new"))).1);
    assert!(matches!(&w.change, Some(ConfigChange::SetHash { index: 1, hash }) if hash == "new"));
    assert_eq!(w.open.as_deref(), Some("/a"));
    assert_eq!(w.notice, Some((false, s("'a' 폴더의 잠금을 해제했어요 (2개 항목)."))));
    assert!(w.save && w.refresh);
}

#[test]
fn unlocking_an_unregistered_folder_registers_it() {
    let c = cfg(&[]);
    let (st, a) = start(&c, Submission::Unlock { path: s("/a"), pw: s("pw"), open_after: false });
    assert!(matches!(&a, SubmitAction::Unlock { fallback: None, .. }));
    let (st, _) = step(&c, st, SubmitEvent::Unlocked(Ok(report())));
    let w = done(step(&c, st, SubmitEvent::Hashed(s("h"))).1);
    assert!(matches!(&w.change, Some(ConfigChange::Register { path, hash }) if path == "/a" && hash == "h"));
    assert!(w.open.is_none());
}

#[test]
fn wrong_password_on_unlock_asks_again() {
    let c = cfg(&[("/a", "h")]);
    let (st, _) = start(&c, Submission::Unlock { path: s("/a"), pw: s("x"), open_after: true });
    let w = done(step(&c, st, SubmitEvent::Unlocked(Err(Error::WrongPassword))).1);
    assert!(matches!(&w.reopen, Some(Reopen::Unlock { error, open_after: true, .. }) if error == "비밀번호가 틀렸습니다."));
    assert!(w.change.is_none() && w.refresh);
    let (st, _) = start(&c, Submission::Unlock { path: s("/a"), pw: s("x"), open_after: true });
    let w = done(step(&c, st, SubmitEvent::Unlocked(Err(Error::NotLocked))).1);
    assert_eq!(w.notice, Some((true, s("잠금 해제를 마치지 못했어요.\n잠겨 있지 않은 폴더입니다."))));
}

#[test]
fn password_change_of_locked_folder_checks_the_state_file_hash() {
    let c = cfg(&[("/a", "spare")]);
    let (st, a) = start(&c, Submission::ChangePw { path: s("/a"), old: s("o"), new1: s("newpw"), new2: s("newpw") });
    assert!(matches!(&a, SubmitAction::ReadStatus(p) if p == "/a"));
    let (st, a) = step(&c, st, SubmitEvent::Status(Ok(Status::Locked)));
    assert!(matches!(&a, SubmitAction::ReadMeta(p) if p == "/a"));
    let m = Meta { version: 1, state: LockState::Locked, password_hash: s("inner"), unlock_exe: None, updated_at: s("") };
    let (st, a) = step(&c, st, SubmitEvent::MetaRead(Some(m)));
    assert!(matches!(&a, SubmitAction::Verify { password, hash } if password == "o" && hash == "inner"));
    let (st, a) = step(&c, st, SubmitEvent::Verified(true));
    assert!(matches!(&a, SubmitAction::Hash(p) if p == "newpw"));
    let (st, a) = step(&c, st, SubmitEvent::Hashed(s("H")));
    assert!(matches!(&a, SubmitAction::SetPassword { path, hash } if path == "/a" && hash == "H"));
    let w = done(step(&c, st, SubmitEvent::PasswordSet(Ok(()))).1);
    assert!(matches!(&w.change, Some(ConfigChange::SetHash { index: 0, hash }) if hash == "H"));
    assert_eq!(w.notice, Some((false, s("'a' 폴더의 비밀번호를 바꿨어요."))));
}

#[test]
fn password_change_of_unlocked_folder_checks_the_spare_hash() {
    let c = cfg(&[("/a", "spare")]);
    let (st, _) = start(&c, Submission::ChangePw { path: s("/a"), old: s("o"), new1: s("n"), new2: s("n") });
    let (st, a) = step(&c, st, SubmitEvent::Status(Ok(Status::Unlocked)));
    assert!(matches!(&a, SubmitAction::Verify { hash, .. } if hash == "spare"));
    let w = done(step(&c, st, SubmitEvent::Verified(true)).1);
    assert!(matches!(&w.reopen, Some(Reopen::ChangePw { error, .. }) if error == "비밀번호는 4자 이상이어야 합니다."));

    let none = cfg(&[]);
    let (st, _) = start(&none, Submission::ChangePw { path: s("/a"), old: s("o"), new1: s("n"), new2: s("n") });
    let w = done(step(&none, st, SubmitEvent::Status(Ok(Status::Unlocked))).1);
    assert!(matches!(&w.reopen, Some(Reopen::ChangePw { error, .. }) if error == "현재 비밀번호가 틀렸습니다."));
}

#[test]
fn failed_password_change_keeps_the_settings() {
    let c = cfg(&[("/a", "spare")]);
    let (st, _) = start(&c, Submission::ChangePw { path: s("/a"), old: s("o"), new1: s("newpw"), new2: s("newpw") });
    let (st, _) = step(&c, st, SubmitEvent::Status(Ok(Status::Unlocked)));
    let w = done(step(&c, st, SubmitEvent::Verified(false)).1);
    assert!(matches!(&w.reopen, Some(Reopen::ChangePw { error, .. }) if error == "현재 비밀번호가 틀렸습니다."));
    let (st, _) = start(&c, Submission::ChangePw { path: s("/a"), old: s("o"), new1: s("newpw"), new2: s("newpw") });
    let (st, _) = step(&c, st, SubmitEvent::Status(Ok(Status::Unlocked)));
    let (st, _) = step(&c, st, SubmitEvent::Verified(true));
    let (st, _) = step(&c, st, SubmitEvent::Hashed(s("H")));
    let w = done(step(&c, st, SubmitEvent::PasswordSet(Err(Error::Broken))).1);
    assert!(w.change.is_none() && !w.save && !w.refresh);
    assert_eq!(w.notice, Some((true, s("비밀번호를 바꾸지 못했어요. 기존 비밀번호가 그대로 유효해요.\n상태 파일이 없어 비상 복원이 필요합니다."))));
}

#[test]
fn removing_takes_only_a_registered_folder_off() {
    let c = cfg(&[("/x", "h"), ("/a", "h")]);
    let w = done(start(&c, Submission::Remove { path: s("/a/") }).1);
    assert!(matches!(w.change, Some(ConfigChange::Remove { index: 1 })));
    assert!(w.save && w.refresh);
    assert_eq!(w.notice, Some((false, s("'a' 폴더를 목록에서 뺐어요. 폴더와 파일은 그대로예요."))));
    let w = done(start(&c, Submission::Remove { path: s("/b") }).1);
    assert!(w.change.is_none() && !w.save && w.notice.is_none() && w.refresh);
}

#[test]
fn emergency_restore_needs_the_word() {
    let c = cfg(&[]);
    let (st, a) = start(&c, Submission::Emergency { path: s("/a"), confirm: s(" 복원\n") });
    assert!(matches!(&a, SubmitAction::Emergency(p) if p == "/a"));
    let w = done(step(&c, st, SubmitEvent::Restored(Ok(report()))).1);
    assert_eq!(w.notice, Some((false, s("'a' 폴더의 잠금을 해제했어요 (2개 항목)."))));
    let w = done(start(&c, Submission::Emergency { path: s("/a"), confirm: s("복 원") }).1);
    assert!(matches!(&w.reopen, Some(Reopen::Emergency { confirm, .. }) if confirm == "복 원"));
}

#[test]
fn confirmed_trims_unicode_white_space() {
    assert!(confirmed("복원"));
    assert!(confirmed("\u{3000}\t복원\u{a0} "));
    assert!(!confirmed(""));
    assert!(!confirmed("복원함"));
    assert!(!confirmed("x복원"));
}

#[test]
fn config_register_set_hash_remove() {
    let mut c = Config::default();
    c.register(s("/a"), s("h1"));
    c.register(s("/b"), s("h2"));
    c.set_hash(0, s("h3"));
    assert_eq!((c.folders[0].path.as_str(), c.folders[0].password_hash.as_str()), ("/a", "h3"));
    assert_eq!(c.folders[1].password_hash, "h2");
    c.remove(0);
    assert_eq!(c.folders.len(), 1);
    assert_eq!(c.folders[0].path, "/b");
}

#[test]
fn picking_a_folder() {
    match pick(Some("/data/a"), &Ok(Status::Unlocked)) {
        Pick::Refuse(m) => assert_eq!(m, "이미 등록된 폴더와 겹칩니다: /data/a"),
        p => panic!("{p:?}"),
    }
    assert!(matches!(pick(None, &Ok(Status::Unlocked)), Pick::Check));
    assert!(matches!(pick(None, &Ok(Status::Locked)), Pick::Unlock));
    for st in [Status::Stale, Status::Broken, Status::Interrupted(LockState::Locking), Status::Interrupted(LockState::Unlocking)] {
        match pick(None, &Ok(st)) {
            Pick::Refuse(m) => assert_eq!(m, "이전 작업이 중단된 폴더예요. 폴더 안의 잠금 해제 입구로 먼저 정리해 주세요."),
            p => panic!("{p:?}"),
        }
    }
    match pick(None, &Err(Error::NotLocked)) {
        Pick::Refuse(m) => assert_eq!(m, Error::NotLocked.message()),
        p => panic!("{p:?}"),
    }
}
