//! Engine tests on an in-memory file system. The property that matters most:
//! "whatever step a run is cut off at, recovering afterwards leaves every
//! file exactly as it was".

use std::collections::BTreeMap;

use folderlock::engine::{classify, Error, IoFailure, IoKind, Loc, LockReport, MetaFacts, RestoreReport, Status, Survey};
use folderlock::guard::{EntryKind, Rules, TargetFacts};
use folderlock::meta::{Layout, LockState, Meta, PathStyle, DATA_DIR, META_FILE, UNLOCK_EXE_NAME, VAULT_DIR};
use folderlock::task::{Action, Engine, Event, Outcome, Step, Task};

const PW: &str = "correct horse";

// ---------- the file system ----------

#[derive(Clone, Debug)]
enum Node {
    Dir { protected: bool, hidden: bool },
    File(Vec<u8>),
    /// A state file as the engine wrote it.
    State(Meta),
    /// A symbolic link to a path.
    Link(String),
}

#[derive(Clone, Default)]
struct MemFs {
    nodes: BTreeMap<String, Node>,
    /// How many changing requests were made.
    count: usize,
    /// From this request on, every change fails (as if the process had been killed).
    crash_at: Option<usize>,
    /// Only this request fails (a transient error; the engine undoes its work).
    fail_once_at: Option<usize>,
    /// Moving an item of this name fails (another program holds it).
    fail_move_of: Option<String>,
    /// Directory listings come back in reverse order.
    reverse_lists: bool,
    /// The names of the items moved, in order.
    moved: Vec<String>,
}

fn failure(kind: IoKind, message: &str) -> IoFailure {
    IoFailure { kind, message: message.to_string() }
}

fn not_found() -> IoFailure {
    failure(IoKind::NotFound, "No such file or directory")
}

fn parent_of(p: &str) -> Option<String> {
    if p == "/" {
        return None;
    }
    let i = p.rfind('/')?;
    Some(if i == 0 { "/".to_string() } else { p[..i].to_string() })
}

fn name_of(p: &str) -> String {
    match p.rfind('/') {
        Some(i) => p[i + 1..].to_string(),
        None => p.to_string(),
    }
}

fn join(dir: &str, name: &str) -> String {
    if dir.ends_with('/') { format!("{dir}{name}") } else { format!("{dir}/{name}") }
}

fn hash_password(pw: &str) -> String {
    format!("hash:{pw}")
}

fn copy_rules(r: &Rules) -> Rules {
    Rules {
        forbidden_exact: r.forbidden_exact.clone(),
        forbidden_tree: r.forbidden_tree.clone(),
        must_not_contain: r.must_not_contain.clone(),
    }
}

impl MemFs {
    fn new() -> Self {
        let mut fs = MemFs::default();
        fs.nodes.insert("/".to_string(), Node::Dir { protected: false, hidden: false });
        fs.nodes.insert("/tmp".to_string(), Node::Dir { protected: false, hidden: false });
        fs
    }

    fn with_faults(&self, crash_at: Option<usize>, fail_once_at: Option<usize>, fail_move_of: Option<String>) -> MemFs {
        let mut fs = self.clone();
        fs.count = 0;
        fs.crash_at = crash_at;
        fs.fail_once_at = fail_once_at;
        fs.fail_move_of = fail_move_of;
        fs
    }

    fn mkdir(&mut self, p: &str) {
        self.nodes.insert(p.to_string(), Node::Dir { protected: false, hidden: false });
    }

    fn write(&mut self, p: &str, data: &[u8]) {
        self.nodes.insert(p.to_string(), Node::File(data.to_vec()));
    }

    fn read_file(&self, p: &str) -> Option<Vec<u8>> {
        match self.nodes.get(p) {
            Some(Node::File(b)) => Some(b.clone()),
            _ => None,
        }
    }

    fn has(&self, p: &str) -> bool {
        self.nodes.contains_key(p)
    }

    fn is_dir(&self, p: &str) -> bool {
        matches!(self.nodes.get(p), Some(Node::Dir { .. }))
    }

    fn children(&self, dir: &str) -> Vec<String> {
        let prefix = if dir == "/" { "/".to_string() } else { format!("{dir}/") };
        self.nodes
            .keys()
            .filter(|k| k.starts_with(&prefix) && k.len() > prefix.len() && !k[prefix.len()..].contains('/'))
            .map(|k| k[prefix.len()..].to_string())
            .collect()
    }

    fn set_protected(&mut self, p: &str, value: bool) {
        if let Some(Node::Dir { protected, .. }) = self.nodes.get_mut(p) {
            *protected = value;
        }
    }

    /// Counts a changing request and fails it when a fault is due.
    fn gate(&mut self) -> Result<(), IoFailure> {
        let n = self.count;
        self.count += 1;
        if self.crash_at.is_some_and(|c| n >= c) {
            return Err(failure(IoKind::Other, "강제 종료 흉내"));
        }
        if self.fail_once_at == Some(n) {
            return Err(failure(IoKind::Other, "일시적 오류 흉내"));
        }
        Ok(())
    }

    fn probe(&self, p: &str) -> Result<bool, IoFailure> {
        match self.nodes.get(p) {
            Some(Node::Dir { .. }) => Ok(true),
            Some(_) => Ok(false),
            None => Err(not_found()),
        }
    }

    fn list(&self, p: &str) -> Result<Vec<String>, IoFailure> {
        match self.nodes.get(p) {
            Some(Node::Dir { protected: true, .. }) => Err(failure(IoKind::PermissionDenied, "Permission denied")),
            Some(Node::Dir { .. }) => {
                let mut v = self.children(p);
                if self.reverse_lists {
                    v.reverse();
                }
                Ok(v)
            },
            Some(_) => Err(failure(IoKind::Other, "Not a directory")),
            None => Err(not_found()),
        }
    }

    fn read(&self, p: &str) -> Result<Vec<u8>, IoFailure> {
        match self.nodes.get(p) {
            Some(Node::File(b)) => Ok(b.clone()),
            Some(Node::State(m)) => Ok(format!("{m:?}").into_bytes()),
            Some(_) => Err(failure(IoKind::Other, "Is a directory")),
            None => Err(not_found()),
        }
    }

    fn meta_facts(&self, l: &Layout) -> MetaFacts {
        let parse = |p: &str| match self.nodes.get(p) {
            Some(Node::State(m)) => Some(m.clone()),
            _ => None,
        };
        MetaFacts { meta_exists: self.has(&l.meta), meta: parse(&l.meta), tmp: parse(&l.meta_tmp) }
    }

    fn survey(&self, l: &Layout) -> Survey {
        Survey {
            vault: self.probe(&l.vault),
            meta: self.meta_facts(l),
            data_empty: self.list(&l.data).map(|v| v.is_empty()),
        }
    }

    fn inspect(&self, root: &str, rules: &Rules) -> TargetFacts {
        let entry = match self.nodes.get(root) {
            Some(Node::Dir { .. }) => Ok(EntryKind::Dir),
            Some(Node::Link(_)) => Ok(EntryKind::Link),
            Some(_) => Ok(EntryKind::Other),
            None => Err("No such file or directory (os error 2)".to_string()),
        };
        TargetFacts { entry, resolved: root.to_string(), volume: Ok(true), resolved_rules: copy_rules(rules) }
    }

    fn create_dir(&mut self, p: &str) -> Result<(), IoFailure> {
        if self.has(p) {
            return Err(failure(IoKind::AlreadyExists, "File exists"));
        }
        match parent_of(p) {
            Some(d) if self.is_dir(&d) => {
                self.mkdir(p);
                Ok(())
            },
            _ => Err(not_found()),
        }
    }

    fn remove_dir(&mut self, p: &str) -> Result<(), IoFailure> {
        match self.nodes.get(p) {
            None => Err(not_found()),
            Some(Node::Dir { .. }) => {
                if self.children(p).is_empty() {
                    self.nodes.remove(p);
                    Ok(())
                } else {
                    Err(failure(IoKind::Other, "Directory not empty"))
                }
            },
            Some(_) => Err(failure(IoKind::Other, "Not a directory")),
        }
    }

    fn remove_file(&mut self, p: &str) -> Result<(), IoFailure> {
        match self.nodes.get(p) {
            None => Err(not_found()),
            Some(Node::Dir { .. }) => Err(failure(IoKind::Other, "Is a directory")),
            Some(_) => {
                self.nodes.remove(p);
                Ok(())
            },
        }
    }

    fn move_no_replace(&mut self, from: &str, to: &str) -> Result<(), IoFailure> {
        if !self.has(from) {
            return Err(not_found());
        }
        if self.has(to) {
            return Err(failure(IoKind::AlreadyExists, "File exists"));
        }
        match parent_of(to) {
            Some(d) if self.is_dir(&d) => {},
            _ => return Err(not_found()),
        }
        let prefix = format!("{from}/");
        let moved: Vec<String> = self.nodes.keys().filter(|k| *k == from || k.starts_with(&prefix)).cloned().collect();
        for k in moved {
            let node = self.nodes.remove(&k).unwrap();
            let nk = format!("{to}{}", &k[from.len()..]);
            self.nodes.insert(nk, node);
        }
        Ok(())
    }

    fn perform(&mut self, t: &Task, a: Action) -> Event {
        let l = &t.setup.layout;
        let at = |loc: &Loc| l.locate(loc, PathStyle::Unix);
        match a {
            Action::Inspect => Event::Inspected(self.inspect(&l.root, &t.setup.rules)),
            Action::Survey => Event::Surveyed(self.survey(l)),
            Action::LoadMeta => Event::MetaLoaded(self.meta_facts(l)),
            Action::Probe(loc) => Event::Probed(self.probe(&at(&loc))),
            Action::List(loc) => Event::Listed(self.list(&at(&loc))),
            Action::Read(loc) => Event::Read(self.read(&at(&loc))),
            Action::Verify { password, hash } => Event::Verified(hash == hash_password(&password)),
            Action::CreateDir(loc) => Event::Done(self.gate().and_then(|_| self.create_dir(&at(&loc)))),
            Action::RemoveDir(loc) => Event::Done(self.gate().and_then(|_| self.remove_dir(&at(&loc)))),
            Action::RemoveFile(loc) => Event::Done(self.gate().and_then(|_| self.remove_file(&at(&loc)))),
            Action::WriteMeta(m) => Event::Done(self.gate().and_then(|_| {
                let mut m = m;
                m.updated_at = "2024-05-01T00:00:00Z".to_string();
                match parent_of(&l.meta) {
                    Some(d) if self.is_dir(&d) => {
                        self.nodes.insert(l.meta.clone(), Node::State(m));
                        self.nodes.remove(&l.meta_tmp);
                        Ok(())
                    },
                    _ => Err(not_found()),
                }
            })),
            Action::CopyNew { from, to } => Event::Done(self.gate().and_then(|_| {
                let (src, dst) = (at(&from), at(&to));
                if self.has(&dst) {
                    return Err(failure(IoKind::AlreadyExists, "File exists"));
                }
                let bytes = self.read(&src)?;
                self.nodes.insert(dst, Node::File(bytes));
                Ok(())
            })),
            Action::Move { from, to } => Event::Done(self.gate().and_then(|_| {
                let (src, dst) = (at(&from), at(&to));
                if self.fail_move_of.as_deref() == Some(name_of(&src).as_str()) {
                    return Err(failure(IoKind::Other, "사용 중인 파일 흉내"));
                }
                self.move_no_replace(&src, &dst)?;
                self.moved.push(name_of(&src));
                Ok(())
            })),
            Action::Hide(loc) => Event::Done(self.gate().and_then(|_| {
                match self.nodes.get_mut(&at(&loc)) {
                    Some(Node::Dir { hidden, .. }) => {
                        *hidden = true;
                        Ok(())
                    },
                    Some(_) => Ok(()),
                    None => Err(not_found()),
                }
            })),
            Action::Protect(loc) => Event::Done(self.gate().and_then(|_| {
                let p = at(&loc);
                if !self.has(&p) {
                    return Err(not_found());
                }
                self.set_protected(&p, true);
                Ok(())
            })),
            Action::Unprotect(loc) => Event::Done(self.gate().and_then(|_| {
                let p = at(&loc);
                if !self.has(&p) {
                    return Err(not_found());
                }
                self.set_protected(&p, false);
                Ok(())
            })),
        }
    }
}

// ---------- running the engine ----------

fn drive(fs: &mut MemFs, mut t: Task) -> Result<Outcome, Error> {
    let mut ev = Event::Start;
    for _ in 0..1_000_000 {
        assert!(t.accepts_event(&ev), "the task refused the answer to its own request");
        match t.step(ev) {
            Step::Finish(r) => return r,
            Step::Do(a) => ev = fs.perform(&t, a),
        }
    }
    panic!("the task did not finish");
}

struct Eng {
    e: Engine,
}

fn engine(rules: Rules) -> Eng {
    Eng { e: Engine::new(rules, PathStyle::Unix) }
}

impl Eng {
    fn lock(&self, fs: &mut MemFs, root: &str, hash: &str, exe: Option<&str>) -> Result<LockReport, Error> {
        match drive(fs, self.e.lock(root, hash, exe))? {
            Outcome::Locked(r) => Ok(r),
            o => panic!("lock ended with {o:?}"),
        }
    }

    fn unlock(&self, fs: &mut MemFs, root: &str, pw: &str, fallback: Option<&str>) -> Result<RestoreReport, Error> {
        match drive(fs, self.e.unlock(root, pw, fallback))? {
            Outcome::Restored(r) => Ok(r),
            o => panic!("unlock ended with {o:?}"),
        }
    }

    fn emergency_restore(&self, fs: &mut MemFs, root: &str) -> Result<RestoreReport, Error> {
        match drive(fs, self.e.emergency_restore(root))? {
            Outcome::Restored(r) => Ok(r),
            o => panic!("emergency restore ended with {o:?}"),
        }
    }

    fn resume(&self, fs: &mut MemFs, root: &str, exe: Option<&str>) -> Result<Status, Error> {
        match drive(fs, self.e.resume(root, exe))? {
            Outcome::Now(s) => Ok(s),
            o => panic!("resume ended with {o:?}"),
        }
    }

    fn set_password_hash(&self, fs: &mut MemFs, root: &str, hash: &str) -> Result<(), Error> {
        match drive(fs, self.e.set_password_hash(root, hash))? {
            Outcome::Settled => Ok(()),
            o => panic!("password change ended with {o:?}"),
        }
    }
}

fn status(fs: &MemFs, root: &str) -> Result<Status, Error> {
    classify(fs.survey(&Layout::new(root, PathStyle::Unix)))
}

// ---------- helpers ----------

#[derive(Debug, PartialEq, Eq, Clone)]
enum Entry {
    Dir,
    File(Vec<u8>),
}

type Snapshot = BTreeMap<String, Entry>;

fn snapshot(fs: &MemFs, root: &str) -> Snapshot {
    let mut out = BTreeMap::new();
    let prefix = format!("{root}/");
    for (k, n) in &fs.nodes {
        if let Some(rel) = k.strip_prefix(&prefix) {
            let e = match n {
                Node::Dir { .. } => Entry::Dir,
                Node::File(b) => Entry::File(b.clone()),
                Node::State(m) => Entry::File(format!("{m:?}").into_bytes()),
                Node::Link(t) => Entry::File(t.clone().into_bytes()),
            };
            out.insert(rel.to_string(), e);
        }
    }
    out
}

fn sorted_children(fs: &MemFs, dir: &str) -> Vec<String> {
    let mut v = fs.children(dir);
    v.sort();
    v
}

struct Rng(u64);
impl Rng {
    fn next(&mut self) -> u64 {
        self.0 ^= self.0 << 13;
        self.0 ^= self.0 >> 7;
        self.0 ^= self.0 << 17;
        self.0
    }
    fn below(&mut self, n: u64) -> u64 {
        self.next() % n
    }
}

const NAMES: &[&str] = &[
    "문서", "사진 2024", "report.docx", ".hidden", "emoji😀.txt", "a b c", "데이터.csv",
    "archive.tar.gz", "빈 폴더", "README", "메모.txt", "x",
];

fn fill(fs: &mut MemFs, dir: &str, depth: u32, rng: &mut Rng) {
    let count = 1 + rng.below(if depth == 0 { 6 } else { 4 });
    for i in 0..count {
        let suffix = if i > 0 { format!("_{i}") } else { String::new() };
        let name = format!("{}{}", NAMES[rng.below(NAMES.len() as u64) as usize], suffix);
        let p = join(dir, &name);
        if fs.has(&p) {
            continue;
        }
        if depth < 3 && rng.below(3) == 0 {
            fs.mkdir(&p);
            if rng.below(4) != 0 {
                fill(fs, &p, depth + 1, rng);
            }
        } else {
            let size = match rng.below(4) {
                0 => 0,
                1 => rng.below(100),
                _ => rng.below(200_000),
            } as usize;
            let data: Vec<u8> = (0..size).map(|_| rng.next() as u8).collect();
            fs.write(&p, &data);
        }
    }
}

fn make_tree(fs: &mut MemFs, root: &str, seed: u64) {
    let mut rng = Rng(seed.wrapping_mul(6364136223846793005).wrapping_add(1442695040888963407) | 1);
    fill(fs, root, 0, &mut rng);
}

struct Fixture {
    fs: MemFs,
    root: String,
    exe: String,
    hash: String,
}

fn fixture(seed: u64) -> Fixture {
    let mut fs = MemFs::new();
    let root = "/tmp/잠글 폴더".to_string();
    fs.mkdir(&root);
    make_tree(&mut fs, &root, seed);
    let exe = "/tmp/app.exe".to_string();
    fs.write(&exe, format!("fake exe {seed}").repeat(1000).as_bytes());
    Fixture { fs, hash: hash_password(PW), root, exe }
}

/// Lets the test look inside the vault (as `unprotect` would; harmless to repeat).
fn open_up(fs: &mut MemFs, root: &str) {
    let vault = join(root, VAULT_DIR);
    let data = join(&vault, DATA_DIR);
    fs.set_protected(&vault, false);
    fs.set_protected(&data, false);
}

/// Every item the folder started with is in its place or in the vault, with its content.
fn assert_nothing_lost(fs: &MemFs, root: &str, orig: &Snapshot, label: &str) {
    let data = join(&join(root, VAULT_DIR), DATA_DIR);
    for (rel, entry) in orig {
        let candidates = [join(root, rel), join(&data, rel)];
        let found = candidates.iter().any(|p| match entry {
            Entry::Dir => fs.is_dir(p),
            Entry::File(bytes) => fs.read_file(p).as_ref() == Some(bytes),
        });
        assert!(found, "[{label}] 유실: {rel}");
    }
}

/// What starting the program again does, then unlocking.
fn recover_and_unlock(fs: &mut MemFs, f: &Fixture, label: &str) {
    let e = engine(Rules::default());
    let st = match e.resume(fs, &f.root, Some(&f.exe)) {
        Ok(s) => s,
        Err(Error::Broken) => {
            e.emergency_restore(fs, &f.root).unwrap_or_else(|e| panic!("[{label}] 비상 복원 실패: {e:?}"));
            Status::Unlocked
        },
        Err(err) => panic!("[{label}] 복구 실패: {err:?}"),
    };
    if st == Status::Locked {
        e.unlock(fs, &f.root, PW, None).unwrap_or_else(|e| panic!("[{label}] 해제 실패: {e:?}"));
    }
    assert_eq!(status(fs, &f.root).unwrap(), Status::Unlocked, "[{label}]");
}

fn count_lock_ops(f: &Fixture) -> usize {
    let mut fs = f.fs.with_faults(None, None, None);
    engine(Rules::default()).lock(&mut fs, &f.root, &f.hash, Some(&f.exe)).unwrap();
    fs.count
}

// ---------- basic operation ----------

#[test]
fn lock_unlock_roundtrip_many_trees() {
    for seed in 0..40 {
        let mut f = fixture(seed);
        let orig = snapshot(&f.fs, &f.root);
        let e = engine(Rules::default());
        let fs = &mut f.fs;

        let report = e.lock(fs, &f.root, &f.hash, Some(&f.exe)).unwrap();
        assert!(report.warnings.is_empty(), "{:?}", report.warnings);
        assert_eq!(status(fs, &f.root).unwrap(), Status::Locked);

        let visible = sorted_children(fs, &f.root);
        assert_eq!(visible, vec![VAULT_DIR.to_string(), UNLOCK_EXE_NAME.to_string()]);
        let err = fs.list(&join(&f.root, VAULT_DIR)).unwrap_err();
        assert_eq!(err.kind, IoKind::PermissionDenied, "보관 폴더 목록이 보이면 안 됨");

        assert!(matches!(e.unlock(fs, &f.root, "wrong", None), Err(Error::WrongPassword)));
        assert_eq!(status(fs, &f.root).unwrap(), Status::Locked);

        let report = e.unlock(fs, &f.root, PW, None).unwrap();
        assert!(report.warnings.is_empty(), "{:?}", report.warnings);
        assert_eq!(snapshot(fs, &f.root), orig, "seed {seed}");
    }
}

#[test]
fn lock_without_unlock_exe() {
    let mut f = fixture(7);
    let orig = snapshot(&f.fs, &f.root);
    let e = engine(Rules::default());
    e.lock(&mut f.fs, &f.root, &f.hash, None).unwrap();
    assert_eq!(f.fs.children(&f.root), vec![VAULT_DIR.to_string()]);
    e.unlock(&mut f.fs, &f.root, PW, None).unwrap();
    assert_eq!(snapshot(&f.fs, &f.root), orig);
}

#[test]
fn empty_folder_roundtrip() {
    let mut fs = MemFs::new();
    let root = "/tmp/빈";
    fs.mkdir(root);
    let e = engine(Rules::default());
    e.lock(&mut fs, root, &hash_password(PW), None).unwrap();
    e.unlock(&mut fs, root, PW, None).unwrap();
    assert!(snapshot(&fs, root).is_empty());
}

#[test]
fn double_lock_is_refused() {
    let mut f = fixture(3);
    let e = engine(Rules::default());
    e.lock(&mut f.fs, &f.root, &f.hash, Some(&f.exe)).unwrap();
    assert!(matches!(e.lock(&mut f.fs, &f.root, &f.hash, Some(&f.exe)), Err(Error::AlreadyLocked)));
    e.unlock(&mut f.fs, &f.root, PW, None).unwrap();
    assert!(matches!(e.unlock(&mut f.fs, &f.root, PW, None), Err(Error::NotLocked)));
}

#[test]
fn file_created_while_locked_is_never_overwritten() {
    let mut fs = MemFs::new();
    let root = "/tmp/r";
    fs.mkdir(root);
    fs.write(&join(root, "보고서.docx"), b"original");
    fs.mkdir(&join(root, "사진"));
    fs.write(&join(root, "사진/a.jpg"), b"jpg");
    let e = engine(Rules::default());
    e.lock(&mut fs, root, &hash_password(PW), None).unwrap();

    // New items under the same names while the folder is locked.
    fs.write(&join(root, "보고서.docx"), b"new while locked");
    fs.mkdir(&join(root, "사진"));

    let report = e.unlock(&mut fs, root, PW, None).unwrap();
    assert_eq!(report.renamed.len(), 2);
    assert_eq!(fs.read_file(&join(root, "보고서.docx")).unwrap(), b"new while locked");
    assert_eq!(fs.read_file(&join(root, "보고서 (복원 1).docx")).unwrap(), b"original");
    assert_eq!(fs.read_file(&join(root, "사진 (복원 1)/a.jpg")).unwrap(), b"jpg");
    assert!(fs.is_dir(&join(root, "사진")));
}

#[test]
fn user_file_with_unlock_exe_name_survives() {
    let mut f = fixture(11);
    f.fs.write(&join(&f.root, UNLOCK_EXE_NAME), b"user's own file");
    let orig = snapshot(&f.fs, &f.root);
    let e = engine(Rules::default());
    e.lock(&mut f.fs, &f.root, &f.hash, Some(&f.exe)).unwrap();
    let report = e.unlock(&mut f.fs, &f.root, PW, None).unwrap();
    assert!(report.renamed.is_empty());
    assert_eq!(snapshot(&f.fs, &f.root), orig);
}

#[test]
fn tampered_unlock_exe_is_not_deleted() {
    let mut f = fixture(12);
    let e = engine(Rules::default());
    e.lock(&mut f.fs, &f.root, &f.hash, Some(&f.exe)).unwrap();
    f.fs.write(&join(&f.root, UNLOCK_EXE_NAME), b"someone replaced it");
    let report = e.unlock(&mut f.fs, &f.root, PW, None).unwrap();
    assert_eq!(report.warnings.len(), 1);
    assert_eq!(f.fs.read_file(&join(&f.root, UNLOCK_EXE_NAME)).unwrap(), b"someone replaced it");
}

#[test]
fn password_change_while_locked() {
    let mut f = fixture(5);
    let orig = snapshot(&f.fs, &f.root);
    let e = engine(Rules::default());
    e.lock(&mut f.fs, &f.root, &f.hash, Some(&f.exe)).unwrap();
    e.set_password_hash(&mut f.fs, &f.root, &hash_password("새 비밀번호")).unwrap();
    assert!(matches!(e.unlock(&mut f.fs, &f.root, PW, None), Err(Error::WrongPassword)));
    e.unlock(&mut f.fs, &f.root, "새 비밀번호", None).unwrap();
    assert_eq!(snapshot(&f.fs, &f.root), orig);
}

// ---------- failures and interruptions ----------

#[test]
fn file_in_use_rolls_back_completely() {
    let f = fixture(21);
    let orig = snapshot(&f.fs, &f.root);
    let top = sorted_children(&f.fs, &f.root);
    // The middle item is held by another program and cannot be moved.
    let busy = top[top.len() / 2].clone();
    let mut fs = f.fs.with_faults(None, None, Some(busy));
    let err = engine(Rules::default()).lock(&mut fs, &f.root, &f.hash, Some(&f.exe)).unwrap_err();
    assert!(matches!(err, Error::Io { .. }), "{err:?}");
    assert_eq!(snapshot(&fs, &f.root), orig, "실패 후 원래 상태 그대로여야 함");
}

#[test]
fn transient_failure_at_every_lock_step_rolls_back() {
    let f = fixture(31);
    let orig = snapshot(&f.fs, &f.root);
    let total = count_lock_ops(&f);
    for at in 0..total {
        let mut fs = f.fs.with_faults(None, Some(at), None);
        let result = engine(Rules::default()).lock(&mut fs, &f.root, &f.hash, Some(&f.exe));
        let mut fs = fs.with_faults(None, None, None);
        match result {
            // A failed copy of the unlock program is only a warning: the lock succeeds.
            Ok(r) => {
                assert!(!r.warnings.is_empty(), "op {at}: 실패를 삼키면 안 됨");
                recover_and_unlock(&mut fs, &f, &format!("transient ok {at}"));
            },
            Err(_) => {
                open_up(&mut fs, &f.root);
                assert_nothing_lost(&fs, &f.root, &orig, &format!("transient {at}"));
                recover_and_unlock(&mut fs, &f, &format!("transient {at}"));
            },
        }
        assert_eq!(snapshot(&fs, &f.root), orig, "op {at}");
    }
}

#[test]
fn crash_at_every_lock_step_is_recoverable() {
    for seed in [1, 2, 3, 4] {
        let f = fixture(seed);
        let orig = snapshot(&f.fs, &f.root);
        let total = count_lock_ops(&f);
        assert!(total > 5);
        for at in 0..=total {
            let mut fs = f.fs.with_faults(Some(at), None, None);
            let _ = engine(Rules::default()).lock(&mut fs, &f.root, &f.hash, Some(&f.exe));
            let mut fs = fs.with_faults(None, None, None);
            let label = format!("seed {seed} lock crash {at}/{total}");
            open_up(&mut fs, &f.root);
            assert_nothing_lost(&fs, &f.root, &orig, &label);
            recover_and_unlock(&mut fs, &f, &label);
            assert_eq!(snapshot(&fs, &f.root), orig, "{label}");
        }
    }
}

#[test]
fn crash_at_every_unlock_step_is_recoverable() {
    for seed in [5, 6, 7] {
        let f = fixture(seed);
        let orig = snapshot(&f.fs, &f.root);
        let mut locked = f.fs.with_faults(None, None, None);
        engine(Rules::default()).lock(&mut locked, &f.root, &f.hash, Some(&f.exe)).unwrap();
        let total = {
            let mut fs = locked.with_faults(None, None, None);
            engine(Rules::default()).unlock(&mut fs, &f.root, PW, None).unwrap();
            fs.count
        };
        for at in 0..=total {
            let mut fs = locked.with_faults(Some(at), None, None);
            let _ = engine(Rules::default()).unlock(&mut fs, &f.root, PW, None);
            let mut fs = fs.with_faults(None, None, None);
            let label = format!("seed {seed} unlock crash {at}/{total}");
            open_up(&mut fs, &f.root);
            assert_nothing_lost(&fs, &f.root, &orig, &label);
            recover_and_unlock(&mut fs, &f, &label);
            assert_eq!(snapshot(&fs, &f.root), orig, "{label}");
        }
    }
}

#[test]
fn crash_during_rollback_is_recoverable() {
    let f = fixture(41);
    let orig = snapshot(&f.fs, &f.root);
    let total = count_lock_ops(&f);
    for fail in 0..total {
        for extra in 1..12 {
            let mut fs = f.fs.with_faults(Some(fail + extra), Some(fail), None);
            let _ = engine(Rules::default()).lock(&mut fs, &f.root, &f.hash, Some(&f.exe));
            let mut fs = fs.with_faults(None, None, None);
            let label = format!("rollback fail {fail} crash +{extra}");
            open_up(&mut fs, &f.root);
            assert_nothing_lost(&fs, &f.root, &orig, &label);
            recover_and_unlock(&mut fs, &f, &label);
            assert_eq!(snapshot(&fs, &f.root), orig, "{label}");
        }
    }
}

#[test]
fn repeated_crashes_during_recovery_are_recoverable() {
    // Recovery itself cut off several times, then a full recovery.
    let f = fixture(51);
    let orig = snapshot(&f.fs, &f.root);
    let total = count_lock_ops(&f);
    for at in 0..total {
        let mut fs = f.fs.with_faults(Some(at), None, None);
        let _ = engine(Rules::default()).lock(&mut fs, &f.root, &f.hash, Some(&f.exe));
        for second in [1, 2, 3] {
            let mut again = fs.with_faults(Some(second), None, None);
            let _ = engine(Rules::default()).resume(&mut again, &f.root, Some(&f.exe));
            fs = again.with_faults(None, None, None);
            let mut seen = fs.clone();
            open_up(&mut seen, &f.root);
            assert_nothing_lost(&seen, &f.root, &orig, &format!("lock crash {at}, resume crash {second}"));
        }
        recover_and_unlock(&mut fs, &f, &format!("lock crash {at}"));
        assert_eq!(snapshot(&fs, &f.root), orig, "lock crash {at}");
    }
}

// ---------- damaged state files ----------

#[test]
fn stale_vault_is_cleaned_and_lock_proceeds() {
    let mut f = fixture(61);
    let orig = snapshot(&f.fs, &f.root);
    f.fs.mkdir(&join(&f.root, VAULT_DIR));
    let e = engine(Rules::default());
    assert_eq!(status(&f.fs, &f.root).unwrap(), Status::Stale);
    e.lock(&mut f.fs, &f.root, &f.hash, None).unwrap();
    e.unlock(&mut f.fs, &f.root, PW, None).unwrap();
    // The empty vault that was there at first is cleaned up too.
    assert_eq!(snapshot(&f.fs, &f.root), orig);
}

#[test]
fn resume_clears_an_empty_vault() {
    let mut f = fixture(63);
    let orig = snapshot(&f.fs, &f.root);
    f.fs.mkdir(&join(&f.root, VAULT_DIR));
    f.fs.mkdir(&join(&join(&f.root, VAULT_DIR), DATA_DIR));
    assert_eq!(status(&f.fs, &f.root).unwrap(), Status::Stale);
    let e = engine(Rules::default());
    assert_eq!(e.resume(&mut f.fs, &f.root, None).unwrap(), Status::Unlocked);
    assert!(!f.fs.has(&join(&f.root, VAULT_DIR)));
    assert_eq!(snapshot(&f.fs, &f.root), orig);
}

#[test]
fn missing_meta_needs_fallback_or_emergency() {
    let mut f = fixture(62);
    let orig = snapshot(&f.fs, &f.root);
    let e = engine(Rules::default());
    e.lock(&mut f.fs, &f.root, &f.hash, None).unwrap();
    open_up(&mut f.fs, &f.root);
    f.fs.remove_file(&join(&join(&f.root, VAULT_DIR), META_FILE)).unwrap();
    assert_eq!(status(&f.fs, &f.root).unwrap(), Status::Broken);
    assert!(matches!(e.unlock(&mut f.fs, &f.root, PW, None), Err(Error::NoPasswordInfo)));
    assert!(matches!(e.unlock(&mut f.fs, &f.root, "wrong", Some(&f.hash)), Err(Error::WrongPassword)));
    e.unlock(&mut f.fs, &f.root, PW, Some(&f.hash)).unwrap();
    assert_eq!(snapshot(&f.fs, &f.root), orig);
}

#[test]
fn emergency_restore_without_meta() {
    let mut f = fixture(63);
    let orig = snapshot(&f.fs, &f.root);
    let e = engine(Rules::default());
    e.lock(&mut f.fs, &f.root, &f.hash, None).unwrap();
    open_up(&mut f.fs, &f.root);
    f.fs.write(&join(&join(&f.root, VAULT_DIR), META_FILE), b"{ corrupted");
    assert_eq!(status(&f.fs, &f.root).unwrap(), Status::Broken);
    e.emergency_restore(&mut f.fs, &f.root).unwrap();
    assert_eq!(snapshot(&f.fs, &f.root), orig);
}

#[test]
fn interrupted_state_is_reported() {
    let f = fixture(64);
    let mut fs = f.fs.with_faults(Some(4), None, None);
    let _ = engine(Rules::default()).lock(&mut fs, &f.root, &f.hash, None);
    assert_eq!(status(&fs, &f.root).unwrap(), Status::Interrupted(LockState::Locking));
}

// ---------- folders that may not be locked ----------

#[test]
fn guard_rejects_dangerous_targets() {
    let mut fs = MemFs::new();
    let base = "/tmp/base".to_string();
    fs.mkdir(&base);
    let target = join(&base, "t");
    fs.mkdir(&target);
    fs.write(&join(&target, "f"), b"x");
    let link = join(&base, "link");
    fs.nodes.insert(link.clone(), Node::Link(target.clone()));
    let h = hash_password(PW);

    let deny = |fs: &mut MemFs, rules: Rules, path: &str| {
        let err = engine(rules).lock(fs, path, &h, None).unwrap_err();
        assert!(matches!(err, Error::Guard(_)), "{err:?}");
        assert!(!fs.has(&join(path, VAULT_DIR)));
    };

    deny(&mut fs, Rules::default(), "/");
    deny(&mut fs, Rules::default(), "relative/path");
    deny(&mut fs, Rules::default(), &join(&target, "f"));
    deny(&mut fs, Rules::default(), &join(&base, "missing"));
    deny(&mut fs, Rules::default(), &link);

    let exact = || Rules { forbidden_exact: vec![target.clone()], ..Default::default() };
    deny(&mut fs, exact(), &target);
    deny(&mut fs, Rules { forbidden_tree: vec![base.clone()], ..Default::default() }, &target);
    deny(&mut fs, Rules { must_not_contain: vec![join(&target, "f")], ..Default::default() }, &target);

    // Below a folder forbidden by an exact rule, locking is allowed.
    let sub = join(&target, "sub");
    fs.mkdir(&sub);
    let e = engine(exact());
    e.lock(&mut fs, &sub, &h, None).unwrap();
    e.unlock(&mut fs, &sub, PW, None).unwrap();
    assert_eq!(fs.read_file(&join(&target, "f")).unwrap(), b"x");
}

// ---------- more of the engine's rules ----------

#[test]
fn unlock_needs_no_write_before_the_password() {
    let mut f = fixture(71);
    let e = engine(Rules::default());
    e.lock(&mut f.fs, &f.root, &f.hash, None).unwrap();
    let mut fs = f.fs.with_faults(None, None, None);
    assert!(matches!(e.unlock(&mut fs, &f.root, "wrong", None), Err(Error::WrongPassword)));
    assert_eq!(fs.count, 0, "a wrong password must change nothing");
}

#[test]
fn password_change_on_unlocked_folder_does_nothing() {
    let f = fixture(72);
    let orig = snapshot(&f.fs, &f.root);
    let mut fs = f.fs.with_faults(None, None, None);
    engine(Rules::default()).set_password_hash(&mut fs, &f.root, &hash_password("x")).unwrap();
    assert_eq!(fs.count, 0);
    assert_eq!(snapshot(&fs, &f.root), orig);
}

#[test]
fn failed_state_write_reprotects_the_vault() {
    let mut f = fixture(73);
    let e = engine(Rules::default());
    e.lock(&mut f.fs, &f.root, &f.hash, None).unwrap();
    // Requests: unprotect (0), write (1) fails, then hide, protect, protect.
    let mut fs = f.fs.with_faults(None, Some(1), None);
    let err = e.set_password_hash(&mut fs, &f.root, &hash_password("new")).unwrap_err();
    assert!(matches!(&err, Error::Io { context, .. } if context == "상태 파일 기록"), "{err:?}");
    assert_eq!(fs.count, 5);
    assert!(fs.list(&join(&f.root, VAULT_DIR)).is_err());
    assert_eq!(status(&fs, &f.root).unwrap(), Status::Locked);
}

#[test]
fn resume_of_locked_folder_reapplies_protection() {
    let mut f = fixture(74);
    let e = engine(Rules::default());
    e.lock(&mut f.fs, &f.root, &f.hash, None).unwrap();
    open_up(&mut f.fs, &f.root);
    assert_eq!(e.resume(&mut f.fs, &f.root, None).unwrap(), Status::Locked);
    assert!(f.fs.list(&join(&f.root, VAULT_DIR)).is_err());
}

#[test]
fn resume_of_unlocked_folder_reports_unlocked() {
    let mut f = fixture(75);
    assert_eq!(engine(Rules::default()).resume(&mut f.fs, &f.root, None).unwrap(), Status::Unlocked);
}

#[test]
fn broken_folder_is_not_resumed() {
    let mut f = fixture(76);
    let e = engine(Rules::default());
    e.lock(&mut f.fs, &f.root, &f.hash, None).unwrap();
    open_up(&mut f.fs, &f.root);
    f.fs.remove_file(&join(&join(&f.root, VAULT_DIR), META_FILE)).unwrap();
    assert!(matches!(e.resume(&mut f.fs, &f.root, None), Err(Error::Broken)));
    assert!(matches!(e.lock(&mut f.fs, &f.root, &f.hash, None), Err(Error::AlreadyLocked)));
}

#[test]
fn unknown_file_in_vault_is_left_with_a_warning() {
    let mut f = fixture(77);
    let e = engine(Rules::default());
    e.lock(&mut f.fs, &f.root, &f.hash, None).unwrap();
    open_up(&mut f.fs, &f.root);
    f.fs.write(&join(&join(&f.root, VAULT_DIR), "stray"), b"?");
    let report = e.unlock(&mut f.fs, &f.root, PW, None).unwrap();
    assert_eq!(report.warnings.len(), 1);
    assert!(f.fs.has(&join(&join(&f.root, VAULT_DIR), "stray")));
}

#[test]
fn item_that_cannot_be_put_back_is_reported() {
    let mut f = fixture(78);
    let e = engine(Rules::default());
    e.lock(&mut f.fs, &f.root, &f.hash, None).unwrap();
    let data = join(&join(&f.root, VAULT_DIR), DATA_DIR);
    let first = {
        let mut s = f.fs.clone();
        open_up(&mut s, &f.root);
        sorted_children(&s, &data)[0].clone()
    };
    let mut fs = f.fs.with_faults(None, None, Some(first.clone()));
    match e.unlock(&mut fs, &f.root, PW, None) {
        Err(Error::Incomplete { failed }) => {
            assert_eq!(failed.len(), 1);
            assert_eq!(failed[0].0, first);
        },
        r => panic!("{r:?}"),
    }
    let mut fs = fs.with_faults(None, None, None);
    assert_eq!(status(&fs, &f.root).unwrap(), Status::Interrupted(LockState::Unlocking));
    assert_eq!(e.resume(&mut fs, &f.root, None).unwrap(), Status::Unlocked);
}

#[test]
fn items_move_in_sorted_order_whatever_the_listing() {
    let mut fs = MemFs::new();
    let root = "/tmp/order";
    fs.mkdir(root);
    for name in ["b", "c", "a", "가", "B"] {
        fs.write(&join(root, name), name.as_bytes());
    }
    fs.reverse_lists = true;
    let e = engine(Rules::default());
    e.lock(&mut fs, root, &hash_password(PW), None).unwrap();
    assert_eq!(fs.moved, vec!["B", "a", "b", "c", "가"]);
    fs.moved.clear();
    e.unlock(&mut fs, root, PW, None).unwrap();
    assert_eq!(fs.moved, vec!["B", "a", "b", "c", "가"]);
}
