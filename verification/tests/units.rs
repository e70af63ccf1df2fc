//! The engine's smaller parts, one by one.

use folderlock::config::{Config, FolderEntry};
use folderlock::digest::{fingerprint_text, hex_text};
use folderlock::engine::{choose_meta, classify, conflict_name, Error, IoFailure, IoKind, Loc, MetaFacts, Status, Survey};
use folderlock::guard::{check, decide, is_within, normalize, overlaps, EntryKind, Rules, TargetFacts};
use folderlock::meta::{join, Layout, LockState, Meta, PathStyle};
use folderlock::text::{decimal_text, same_text};

fn meta(state: LockState, hash: &str) -> Meta {
    Meta { version: 1, state, password_hash: hash.to_string(), unlock_exe: None, updated_at: String::new() }
}

fn no_meta() -> MetaFacts {
    MetaFacts { meta_exists: false, meta: None, tmp: None }
}

fn io(kind: IoKind) -> IoFailure {
    IoFailure { kind, message: "m".to_string() }
}

fn facts(entry: Result<EntryKind, String>, resolved: &str, volume: Result<bool, String>, rules: &Rules) -> TargetFacts {
    TargetFacts {
        entry,
        resolved: resolved.to_string(),
        volume,
        resolved_rules: Rules {
            forbidden_exact: rules.forbidden_exact.clone(),
            forbidden_tree: rules.forbidden_tree.clone(),
            must_not_contain: rules.must_not_contain.clone(),
        },
    }
}

// ---------- names ----------

#[test]
fn conflict_name_of_file_keeps_extension() {
    assert_eq!(conflict_name("보고서.docx", 1, false), "보고서 (복원 1).docx");
    assert_eq!(conflict_name("보고서.docx", 2, false), "보고서 (복원 2).docx");
    assert_eq!(conflict_name("archive.tar.gz", 12, false), "archive.tar (복원 12).gz");
}

#[test]
fn conflict_name_of_folder_appends() {
    assert_eq!(conflict_name("사진", 1, true), "사진 (복원 1)");
    assert_eq!(conflict_name("사진.old", 3, true), "사진.old (복원 3)");
}

#[test]
fn conflict_name_without_stem_or_extension() {
    assert_eq!(conflict_name(".hidden", 1, false), ".hidden (복원 1)");
    assert_eq!(conflict_name("README", 4, false), "README (복원 4)");
    assert_eq!(conflict_name("..", 1, false), ".. (복원 1)");
    assert_eq!(conflict_name("a.", 1, false), "a (복원 1).");
}

#[test]
fn decimal_text_writes_numbers() {
    assert_eq!(decimal_text(0), "0");
    assert_eq!(decimal_text(7), "7");
    assert_eq!(decimal_text(1000), "1000");
}

#[test]
fn same_text_compares_characters() {
    assert!(same_text("보관", "보관"));
    assert!(!same_text("보관", "보관함"));
    assert!(!same_text("", "a"));
}

// ---------- paths ----------

#[test]
fn join_adds_one_separator() {
    assert_eq!(join("/a", "b", PathStyle::Unix), "/a/b");
    assert_eq!(join("/a/", "b", PathStyle::Unix), "/a/b");
    assert_eq!(join("C:\\a", "b", PathStyle::Windows), "C:\\a\\b");
    assert_eq!(join("C:\\a\\", "b", PathStyle::Windows), "C:\\a\\b");
}

#[test]
fn layout_places_the_vault_inside_the_folder() {
    let l = Layout::new("/home/u/비밀", PathStyle::Unix);
    assert_eq!(l.root, "/home/u/비밀");
    assert_eq!(l.vault, "/home/u/비밀/.folderlock");
    assert_eq!(l.data, "/home/u/비밀/.folderlock/data");
    assert_eq!(l.meta, "/home/u/비밀/.folderlock/meta.json");
    assert_eq!(l.meta_tmp, "/home/u/비밀/.folderlock/meta.json.tmp");
    let w = Layout::new("D:\\내 폴더", PathStyle::Windows);
    assert_eq!(w.data, "D:\\내 폴더\\.folderlock\\data");
}

#[test]
fn locate_names_each_place() {
    let l = Layout::new("/r", PathStyle::Unix);
    assert_eq!(l.locate(&Loc::RootItem("a b".to_string()), PathStyle::Unix), "/r/a b");
    assert_eq!(l.locate(&Loc::DataItem("x".to_string()), PathStyle::Unix), "/r/.folderlock/data/x");
    assert_eq!(l.locate(&Loc::Source("/s/app".to_string()), PathStyle::Unix), "/s/app");
    assert_eq!(l.locate(&Loc::MetaTmp, PathStyle::Unix), "/r/.folderlock/meta.json.tmp");
}

#[test]
fn normalize_strips_prefix_and_trailing_separators() {
    assert_eq!(normalize("/a/b/", PathStyle::Unix), "/a/b");
    assert_eq!(normalize("/", PathStyle::Unix), "/");
    assert_eq!(normalize("\\\\?\\C:\\Users\\Me\\", PathStyle::Windows), "c:\\users\\me");
    assert_eq!(normalize("\\\\?\\UNC\\server\\share", PathStyle::Windows), "\\\\?\\unc\\server\\share");
    assert_eq!(normalize("C:\\", PathStyle::Windows), "c:\\");
}

#[test]
fn is_within_needs_a_whole_component() {
    assert!(is_within("/a/b", "/a", PathStyle::Unix));
    assert!(is_within("/a", "/a", PathStyle::Unix));
    assert!(!is_within("/ab", "/a", PathStyle::Unix));
    assert!(!is_within("/a", "/a/b", PathStyle::Unix));
    assert!(is_within("c:\\x\\y", "c:\\x", PathStyle::Windows));
    assert!(is_within("c:\\x", "c:\\", PathStyle::Windows));
}

#[test]
fn overlaps_is_symmetric() {
    assert!(overlaps("/a/b/", "/a", PathStyle::Unix));
    assert!(overlaps("/a", "/a/b", PathStyle::Unix));
    assert!(!overlaps("/a/c", "/a/b", PathStyle::Unix));
    assert!(overlaps("C:\\Data", "c:\\data\\x", PathStyle::Windows));
}

// ---------- the guard ----------

#[test]
fn decide_gives_each_refusal_its_message() {
    let none = Rules::default();
    let dir = |p: &str| facts(Ok(EntryKind::Dir), p, Ok(true), &none);
    let err = |r: Result<(), String>| r.unwrap_err();
    assert_eq!(err(decide(false, &dir("/a/b"), true, &none, PathStyle::Unix)), "절대 경로가 아닙니다.");
    assert_eq!(
        err(decide(true, &facts(Err("없음".to_string()), "/a", Ok(true), &none), true, &none, PathStyle::Unix)),
        "폴더를 읽을 수 없습니다: 없음"
    );
    assert_eq!(
        err(decide(true, &facts(Ok(EntryKind::Link), "/a", Ok(true), &none), true, &none, PathStyle::Unix)),
        "바로 가기(링크·정션) 폴더는 잠글 수 없습니다."
    );
    assert_eq!(
        err(decide(true, &facts(Ok(EntryKind::Other), "/a", Ok(true), &none), true, &none, PathStyle::Unix)),
        "폴더가 아닙니다."
    );
    assert_eq!(err(decide(true, &dir("\\\\server\\share\\x"), true, &none, PathStyle::Windows)), "네트워크 폴더는 잠글 수 없습니다.");
    assert_eq!(err(decide(true, &dir("D:\\"), true, &none, PathStyle::Windows)), "드라이브 전체는 잠글 수 없습니다.");
    assert_eq!(err(decide(true, &dir("/"), false, &none, PathStyle::Unix)), "드라이브 전체는 잠글 수 없습니다.");
    assert_eq!(err(decide(true, &dir("/ab"), true, &none, PathStyle::Unix)), "드라이브 전체는 잠글 수 없습니다.");
    assert_eq!(
        err(decide(true, &facts(Ok(EntryKind::Dir), "/a/b", Ok(false), &none), true, &none, PathStyle::Unix)),
        "NTFS 드라이브의 폴더만 잠글 수 있습니다 (USB 메모리 등은 지원하지 않음)."
    );
    assert_eq!(
        err(decide(true, &facts(Ok(EntryKind::Dir), "/a/b", Err("e".to_string()), &none), true, &none, PathStyle::Unix)),
        "드라이브 정보를 읽을 수 없습니다: e"
    );
    assert!(decide(true, &dir("/a/b"), true, &none, PathStyle::Unix).is_ok());
}

#[test]
fn decide_applies_rules_in_order() {
    let rules = Rules {
        forbidden_exact: vec!["/home/u/Desktop".to_string()],
        forbidden_tree: vec!["/opt/app".to_string()],
        must_not_contain: vec!["/home/u/work/app.exe".to_string()],
    };
    let at = |p: &str| facts(Ok(EntryKind::Dir), p, Ok(true), &rules);
    let d = |p: &str| decide(true, &at(p), true, &rules, PathStyle::Unix);
    assert_eq!(d("/home/u/Desktop/").unwrap_err(), "시스템이 쓰는 폴더라 잠글 수 없습니다: /home/u/Desktop");
    assert!(d("/home/u/Desktop/sub").is_ok());
    assert_eq!(d("/opt/app/x").unwrap_err(), "이 위치 아래의 폴더는 잠글 수 없습니다: /opt/app");
    assert_eq!(d("/home/u").unwrap_err(), "폴더 잠금 프로그램이 쓰는 파일이 들어 있어 잠글 수 없습니다: /home/u/work/app.exe");
    assert!(d("/home/u/other").is_ok());
}

#[test]
fn decide_compares_windows_paths_without_case() {
    let rules = Rules { forbidden_exact: vec!["C:\\Users\\Me".to_string()], ..Default::default() };
    let f = facts(Ok(EntryKind::Dir), "\\\\?\\c:\\users\\ME", Ok(true), &rules);
    assert_eq!(decide(true, &f, true, &rules, PathStyle::Windows).unwrap_err(), "시스템이 쓰는 폴더라 잠글 수 없습니다: C:\\Users\\Me");
}

#[test]
fn check_refuses_relative_and_root_paths() {
    let none = Rules::default();
    let f = facts(Ok(EntryKind::Dir), "relative/x", Ok(true), &none);
    assert_eq!(check("relative/x", &f, &none, PathStyle::Unix).unwrap_err(), "절대 경로가 아닙니다.");
    let f = facts(Ok(EntryKind::Dir), "/", Ok(true), &none);
    assert_eq!(check("/", &f, &none, PathStyle::Unix).unwrap_err(), "드라이브 전체는 잠글 수 없습니다.");
    let f = facts(Ok(EntryKind::Dir), "/home/u/x", Ok(true), &none);
    assert!(check("/home/u/x", &f, &none, PathStyle::Unix).is_ok());
}

// ---------- status ----------

fn survey(vault: Result<bool, IoFailure>, meta: MetaFacts, data_empty: Result<bool, IoFailure>) -> Survey {
    Survey { vault, meta, data_empty }
}

#[test]
fn classify_reads_the_state_file_first() {
    let with = |state| MetaFacts { meta_exists: true, meta: Some(meta(state, "h")), tmp: None };
    assert_eq!(classify(survey(Ok(true), with(LockState::Locked), Ok(false))).unwrap(), Status::Locked);
    assert_eq!(
        classify(survey(Ok(true), with(LockState::Locking), Ok(false))).unwrap(),
        Status::Interrupted(LockState::Locking)
    );
    assert_eq!(
        classify(survey(Ok(true), with(LockState::Unlocking), Ok(true))).unwrap(),
        Status::Interrupted(LockState::Unlocking)
    );
}

#[test]
fn classify_without_state_file() {
    assert_eq!(classify(survey(Err(io(IoKind::NotFound)), no_meta(), Ok(true))).unwrap(), Status::Unlocked);
    assert_eq!(classify(survey(Ok(false), no_meta(), Ok(true))).unwrap(), Status::Unlocked);
    assert_eq!(classify(survey(Ok(true), no_meta(), Ok(true))).unwrap(), Status::Stale);
    assert_eq!(classify(survey(Ok(true), no_meta(), Err(io(IoKind::NotFound)))).unwrap(), Status::Stale);
    assert_eq!(classify(survey(Ok(true), no_meta(), Ok(false))).unwrap(), Status::Broken);
    assert_eq!(classify(survey(Ok(true), no_meta(), Err(io(IoKind::PermissionDenied)))).unwrap(), Status::Broken);
}

#[test]
fn classify_reports_unreadable_vault() {
    match classify(survey(Err(io(IoKind::PermissionDenied)), no_meta(), Ok(true))) {
        Err(Error::Io { context, source }) => {
            assert_eq!(context, "보관 폴더 확인");
            assert_eq!(source.kind, IoKind::PermissionDenied);
        },
        r => panic!("{r:?}"),
    }
}

#[test]
fn choose_meta_prefers_the_main_file() {
    let f = MetaFacts { meta_exists: true, meta: Some(meta(LockState::Locked, "main")), tmp: Some(meta(LockState::Locking, "tmp")) };
    assert_eq!(choose_meta(f).unwrap().password_hash, "main");
    let f = MetaFacts { meta_exists: false, meta: None, tmp: Some(meta(LockState::Locking, "tmp")) };
    assert_eq!(choose_meta(f).unwrap().password_hash, "tmp");
    // A main file that exists but does not parse is not replaced by the temporary one.
    let f = MetaFacts { meta_exists: true, meta: None, tmp: Some(meta(LockState::Locking, "tmp")) };
    assert!(choose_meta(f).is_none());
}

// ---------- fingerprints ----------

#[test]
fn fingerprint_is_sha256_in_hex() {
    assert_eq!(fingerprint_text(b""), "e3b0c44298fc1c149afbf4c8996fb92427ae41e4649b934ca495991b7852b855");
    assert_eq!(fingerprint_text(b"abc"), "ba7816bf8f01cfea414140de5dae2223b00361a396177a9cb410ff61f20015ad");
    assert_eq!(fingerprint_text(b"fake exe").len(), 64);
}

#[test]
fn hex_text_writes_two_digits_per_byte() {
    assert_eq!(hex_text(&[0x00, 0x0f, 0xa0, 0xff]), "000fa0ff");
    assert_eq!(hex_text(&[]), "");
}

// ---------- configuration ----------

#[test]
fn config_find_matches_the_same_folder() {
    let cfg = Config {
        folders: vec![
            FolderEntry { path: "/a/x".to_string(), password_hash: "h1".to_string() },
            FolderEntry { path: "/a/y/".to_string(), password_hash: "h2".to_string() },
        ],
    };
    let resolved = vec!["/a/x".to_string(), "/a/y/".to_string()];
    assert_eq!(cfg.find(&resolved, "/a/y", PathStyle::Unix), Some(1));
    assert_eq!(cfg.find(&resolved, "/a/x/", PathStyle::Unix), Some(0));
    assert_eq!(cfg.find(&resolved, "/a", PathStyle::Unix), None);
    assert_eq!(Config::default().find(&Vec::new(), "/a", PathStyle::Unix), None);
}

#[test]
fn config_find_ignores_case_on_windows() {
    let cfg = Config { folders: vec![FolderEntry { path: "D:\\Work".to_string(), password_hash: "h".to_string() }] };
    let resolved = vec!["\\\\?\\D:\\Work".to_string()];
    assert_eq!(cfg.find(&resolved, "d:\\work\\", PathStyle::Windows), Some(0));
}

// ---------- messages ----------

use folderlock::engine::{LockReport, RestoreReport};
use folderlock::guard::{default_rules, RuleSources};
use folderlock::messages::{check_new_password, lock_notice, restore_notice, resume_notice, MIN_LEN};

#[test]
fn new_password_must_be_long_enough_and_repeated() {
    assert_eq!(MIN_LEN, 4);
    assert_eq!(check_new_password("abc", "abc").unwrap(), "비밀번호는 4자 이상이어야 합니다.");
    assert_eq!(check_new_password("비밀번호", "비밀번호"), None);
    assert_eq!(check_new_password("abcd", "abce").unwrap(), "두 비밀번호가 다릅니다.");
    assert_eq!(check_new_password("가나다", "가나다").unwrap(), "비밀번호는 4자 이상이어야 합니다.");
}

#[test]
fn lock_notice_lists_warnings() {
    let r = LockReport { moved: 3, warnings: vec!["w1".to_string(), "w2".to_string()] };
    assert_eq!(lock_notice("비밀", &r), "'비밀' 폴더를 잠갔어요 (3개 항목).\nw1\nw2");
    assert_eq!(lock_notice("a", &LockReport::default()), "'a' 폴더를 잠갔어요 (0개 항목).");
}

#[test]
fn restore_notice_lists_renamed_items_then_warnings() {
    let r = RestoreReport {
        restored: 2,
        renamed: vec![("보고서.docx".to_string(), "보고서 (복원 1).docx".to_string())],
        warnings: vec!["w".to_string()],
    };
    assert_eq!(
        restore_notice("r", &r),
        "'r' 폴더의 잠금을 해제했어요 (2개 항목).\n같은 이름이 있어서 '보고서.docx'은(는) '보고서 (복원 1).docx'(으)로 복원했어요.\nw"
    );
}

#[test]
fn error_messages() {
    assert_eq!(Error::AlreadyLocked.message(), "이미 잠겨 있거나 정리가 필요한 폴더입니다.");
    assert_eq!(Error::NotLocked.message(), "잠겨 있지 않은 폴더입니다.");
    assert_eq!(Error::WrongPassword.message(), "비밀번호가 틀렸습니다.");
    assert_eq!(Error::NoPasswordInfo.message(), "비밀번호 정보를 찾을 수 없습니다. 비상 복원을 사용하세요.");
    assert_eq!(Error::Broken.message(), "상태 파일이 없어 비상 복원이 필요합니다.");
    assert_eq!(Error::Guard("g".to_string()).message(), "g");
    let io_err = Error::Io { context: "상태 파일 기록".to_string(), source: io(IoKind::Other) };
    assert_eq!(io_err.message(), "상태 파일 기록: m");
    let failed: Vec<(String, IoFailure)> = (0..7).map(|i| (format!("f{i}"), io(IoKind::Other))).collect();
    let text = Error::Incomplete { failed }.message();
    assert!(text.starts_with("7개 항목을 되돌리지 못했습니다"));
    assert!(text.ends_with("\n - f4: m"));
    assert_eq!(text.matches("\n - ").count(), 5);
    let both = Error::RollbackFailed { cause: Box::new(Error::WrongPassword), rollback: Box::new(Error::Broken) };
    assert!(both.message().ends_with("\n원인: 비밀번호가 틀렸습니다.\n되돌리기 오류: 상태 파일이 없어 비상 복원이 필요합니다."));
}

// ---------- default rules ----------

fn sources(home: Option<&str>) -> RuleSources {
    RuleSources {
        current_exe: Some("/apps/FolderLock".to_string()),
        system_dirs: vec![Some("C:\\Windows".to_string()), None, Some("C:\\Program Files".to_string())],
        cloud_dirs: vec![None, Some("C:\\Users\\me\\OneDrive".to_string())],
        home: home.map(|h| h.to_string()),
        public: Some("C:\\Users\\Public".to_string()),
        icloud_desktop: true,
        icloud_documents: false,
    }
}

#[test]
fn default_rules_on_windows() {
    let r = default_rules(&vec!["C:\\cfg".to_string()], &sources(Some("C:\\Users\\me")), PathStyle::Windows);
    assert_eq!(r.must_not_contain, vec!["C:\\cfg", "/apps/FolderLock"]);
    assert_eq!(r.forbidden_tree[..3], ["C:\\Windows", "C:\\Program Files", "C:\\Users\\me\\OneDrive"]);
    assert_eq!(r.forbidden_tree[3], "C:\\Users\\me\\AppData");
    assert_eq!(r.forbidden_tree.len(), 8);
    assert_eq!(r.forbidden_tree[7], "C:\\Users\\me\\MYBOX");
    assert_eq!(r.forbidden_exact.len(), 15);
    assert_eq!(r.forbidden_exact[0], "C:\\Users\\me\\Desktop");
    assert_eq!(r.forbidden_exact[11], "C:\\Users\\me\\3D Objects");
    assert_eq!(r.forbidden_exact[12..], ["C:\\Users\\me", "C:\\Users\\Public", "C:\\Users"]);
}

#[test]
fn default_rules_elsewhere() {
    let r = default_rules(&Vec::new(), &sources(Some("/Users/me")), PathStyle::Unix);
    assert_eq!(r.must_not_contain, vec!["/apps/FolderLock"]);
    assert_eq!(r.forbidden_tree[0], "/System");
    assert_eq!(r.forbidden_tree[9], "/private/var");
    assert_eq!(
        r.forbidden_tree[10..],
        ["/Users/me/Library", "/Users/me/Dropbox", "/Users/me/Google Drive", "/Users/me/MYBOX", "/Users/me/OneDrive", "/Users/me/Desktop"]
    );
    assert_eq!(
        r.forbidden_exact,
        vec!["/Users/me/Desktop", "/Users/me/Documents", "/Users/me/Downloads", "/Users/me/Pictures", "/Users/me/Music", "/Users/me/Movies", "/Users/me"]
    );
    let bare = default_rules(&Vec::new(), &sources(None), PathStyle::Unix);
    assert_eq!(bare.forbidden_tree.len(), 10);
    assert!(bare.forbidden_exact.is_empty());
}

#[test]
fn join_adds_no_separator_after_a_bare_drive() {
    assert_eq!(join("C:", "x", PathStyle::Windows), "C:x");
    assert_eq!(join("d:", "x", PathStyle::Windows), "d:x");
    assert_eq!(join("1:", "x", PathStyle::Windows), "1:\\x");
    assert_eq!(join("C:", "x", PathStyle::Unix), "C:/x");
}

#[test]
fn notices_after_resuming_at_start_up() {
    let done = resume_notice("사진", Some(Status::Interrupted(LockState::Locking)), &Ok(Status::Locked));
    assert_eq!(done, Some((false, "'사진' 폴더의 중단됐던 잠그기를 마저 끝냈어요 (잠김).".to_string())));
    let done = resume_notice("사진", Some(Status::Interrupted(LockState::Unlocking)), &Ok(Status::Unlocked));
    assert_eq!(done, Some((false, "'사진' 폴더의 중단됐던 잠금 해제를 마저 끝냈어요 (열림).".to_string())));
    assert_eq!(resume_notice("사진", Some(Status::Locked), &Ok(Status::Locked)), None);
    assert_eq!(resume_notice("사진", None, &Ok(Status::Unlocked)), None);
    assert_eq!(resume_notice("사진", Some(Status::Broken), &Err(Error::Broken)), None);
    let failed = resume_notice("사진", Some(Status::Stale), &Err(Error::NotLocked));
    assert_eq!(failed, Some((true, format!("'사진': {}", Error::NotLocked.message()))));
}
