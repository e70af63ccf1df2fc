//! The lock engine's vocabulary: folder states, errors, reports, and the
//! requests the engine makes of the file system and the answers it takes back.
//!
//! Safety rules the engine keeps:
//! 1. User items are only ever renamed, within the same volume, between the
//!    folder and the vault; never copied, encrypted or overwritten.
//! 2. The unit moved is one top-level item, and each move is atomic, so at any
//!    moment every item is whole, either where it was or in the vault.
//! 3. Only what the engine made is deleted: the state file (and its temporary
//!    twin), empty directories, and the unlock program when its fingerprint
//!    matches the recorded one.
//! 4. The state file is written before anything is moved; an interrupted run
//!    is finished by `resume`.

use vstd::prelude::*;
use crate::digest::fingerprint;
use crate::guard::{Rules, TargetFacts};
use crate::meta::{join, joined, Layout, LockState, Meta, PathStyle};
use crate::text::{decimal, chars_of, decimal_text, same_text};

verus! {

#[derive(Clone, Copy, Debug, PartialEq, Eq, Structural)]
pub enum Status {
    Unlocked,
    Locked,
    /// Locking or unlocking stopped midway; `resume` finishes it.
    Interrupted(LockState),
    /// The vault is there but holds nothing and no state file: only cleanup is needed.
    Stale,
    /// The vault holds items but there is no readable state file: only an
    /// emergency restore brings them back.
    Broken,
}

/// The kinds of I/O failure the engine tells apart.
#[derive(Clone, Copy, Debug, PartialEq, Eq, Structural)]
pub enum IoKind {
    NotFound,
    AlreadyExists,
    PermissionDenied,
    Other,
}

/// A failed file-system request: its kind and the system's message.
#[derive(Debug)]
pub struct IoFailure {
    pub kind: IoKind,
    pub message: String,
}

impl Clone for IoFailure {
    fn clone(&self) -> (r: Self)
        ensures
            r == *self,
    {
        IoFailure { kind: self.kind, message: self.message.clone() }
    }
}

#[derive(Debug)]
pub enum Error {
    Guard(String),
    AlreadyLocked,
    NotLocked,
    WrongPassword,
    NoPasswordInfo,
    Broken,
    Io { context: String, source: IoFailure },
    /// Some items could not be put back; they stay in the vault and a retry continues.
    Incomplete { failed: Vec<(String, IoFailure)> },
    /// Locking failed and undoing it did not finish either; every file is
    /// still in the folder or in the vault.
    RollbackFailed { cause: Box<Error>, rollback: Box<Error> },
}

#[derive(Debug)]
pub struct LockReport {
    pub moved: usize,
    pub warnings: Vec<String>,
}

#[derive(Debug)]
pub struct RestoreReport {
    pub restored: usize,
    /// Items put back under another name because the name was taken: (own name, new name).
    pub renamed: Vec<(String, String)>,
    pub warnings: Vec<String>,
}

impl Default for LockReport {
    fn default() -> (r: LockReport)
        ensures
            r.moved == 0,
            r.warnings@.len() == 0,
    {
        LockReport { moved: 0, warnings: Vec::new() }
    }
}

impl Default for RestoreReport {
    fn default() -> (r: RestoreReport)
        ensures
            r.restored == 0,
            r.renamed@.len() == 0,
            r.warnings@.len() == 0,
    {
        RestoreReport { restored: 0, renamed: Vec::new(), warnings: Vec::new() }
    }
}

/// A place in one folder's layout.
#[derive(Debug)]
pub enum Loc {
    Root,
    Vault,
    Data,
    Meta,
    MetaTmp,
    /// A top-level item of the folder, by name.
    RootItem(String),
    /// An item kept in the vault, by name.
    DataItem(String),
    /// A path outside the folder, as given by the caller.
    Source(String),
}

/// The path text of a place.
pub open spec fn located(l: Layout, loc: Loc, style: PathStyle) -> Seq<char> {
    match loc {
        Loc::Root => l.root@,
        Loc::Vault => l.vault@,
        Loc::Data => l.data@,
        Loc::Meta => l.meta@,
        Loc::MetaTmp => l.meta_tmp@,
        Loc::RootItem(n) => joined(l.root@, n@, style),
        Loc::DataItem(n) => joined(l.data@, n@, style),
        Loc::Source(p) => p@,
    }
}

impl Layout {
    /// The path of a place in this layout.
    pub fn locate(&self, loc: &Loc, style: PathStyle) -> (p: String)
        ensures
            p@ == located(*self, *loc, style),
    {
        match loc {
            Loc::Root => self.root.clone(),
            Loc::Vault => self.vault.clone(),
            Loc::Data => self.data.clone(),
            Loc::Meta => self.meta.clone(),
            Loc::MetaTmp => self.meta_tmp.clone(),
            Loc::RootItem(n) => join(self.root.as_str(), n.as_str(), style),
            Loc::DataItem(n) => join(self.data.as_str(), n.as_str(), style),
            Loc::Source(p) => p.clone(),
        }
    }
}

/// What the state file and its temporary twin held.
#[derive(Debug)]
pub struct MetaFacts {
    /// Whether `meta.json` exists (links not followed).
    pub meta_exists: bool,
    /// `meta.json` read and parsed, if that worked.
    pub meta: Option<Meta>,
    /// `meta.json.tmp` read and parsed, if that worked.
    pub tmp: Option<Meta>,
}

/// What the folder's status is decided from.
#[derive(Debug)]
pub struct Survey {
    /// The vault's metadata: whether it is a directory, or why it could not be read.
    pub vault: Result<bool, IoFailure>,
    pub meta: MetaFacts,
    /// Whether listing the data directory found nothing, or why it could not be listed.
    pub data_empty: Result<bool, IoFailure>,
}

/// The state file in force: `meta.json` replaces atomically, so when it
/// exists it is the latest; only when it does not is the temporary file
/// (fully written before any replacement) consulted.
pub open spec fn chosen_meta(f: MetaFacts) -> Option<Meta> {
    if f.meta_exists {
        f.meta
    } else {
        f.tmp
    }
}

pub fn choose_meta(f: MetaFacts) -> (m: Option<Meta>)
    ensures
        m == chosen_meta(f),
{
    if f.meta_exists {
        f.meta
    } else {
        f.tmp
    }
}

/// The status of a folder, given what was read from it.
pub open spec fn status_of(s: Survey) -> Result<Status, IoFailure> {
    match s.vault {
        Err(e) => if e.kind == IoKind::NotFound { Ok(Status::Unlocked) } else { Err(e) },
        Ok(false) => Ok(Status::Unlocked),
        Ok(true) => match chosen_meta(s.meta) {
            Some(m) => Ok(if m.state == LockState::Locked { Status::Locked } else { Status::Interrupted(m.state) }),
            None => Ok(
                match s.data_empty {
                    Ok(true) => Status::Stale,
                    Ok(false) => Status::Broken,
                    Err(e) => if e.kind == IoKind::NotFound { Status::Stale } else { Status::Broken },
                },
            ),
        },
    }
}

/// `e` is an I/O error with this context and cause.
pub open spec fn io_error(e: Error, context: Seq<char>, source: IoFailure) -> bool {
    e matches Error::Io { context: c, source: s } && c@ == context && s == source
}

/// `r` is the status owed for the survey: on a failure to read the vault it
/// is an I/O error in the context of checking the vault.
pub open spec fn status_answer(s: Survey, r: Result<Status, Error>) -> bool {
    match status_of(s) {
        Ok(st) => r == Ok::<Status, Error>(st),
        Err(e) => r matches Err(x) && io_error(x, "보관 폴더 확인"@, e),
    }
}

/// The folder's status from what was read from it.
pub fn classify(s: Survey) -> (r: Result<Status, Error>)
    ensures
        status_answer(s, r),
{
    let ghost s0 = s;
    let Survey { vault, meta, data_empty } = s;
    match vault {
        Err(e) => {
            if e.kind == IoKind::NotFound {
                Ok(Status::Unlocked)
            } else {
                Err(Error::Io { context: String::from_str("보관 폴더 확인"), source: e })
            }
        },
        Ok(false) => Ok(Status::Unlocked),
        Ok(true) => match choose_meta(meta) {
            Some(m) => Ok(if m.state == LockState::Locked { Status::Locked } else { Status::Interrupted(m.state) }),
            None => {
                let empty = match data_empty {
                    Ok(b) => b,
                    Err(e) => e.kind == IoKind::NotFound,
                };
                Ok(if empty { Status::Stale } else { Status::Broken })
            },
        },
    }
}

/// The position of the last `.` among the first `k` characters, or -1.
pub open spec fn last_dot_before(name: Seq<char>, k: int) -> int
    decreases k,
{
    if k <= 0 {
        -1
    } else if name[k - 1] == '.' {
        k - 1
    } else {
        last_dot_before(name, k - 1)
    }
}

/// The stem and extension of a file name, as `Path::file_stem` and
/// `Path::extension` split it, when it has an extension.
pub open spec fn stem_and_extension(name: Seq<char>) -> Option<(Seq<char>, Seq<char>)> {
    let i = last_dot_before(name, name.len() as int);
    if name == seq!['.', '.'] || i <= 0 {
        None
    } else {
        Some((name.take(i), name.skip(i + 1)))
    }
}

/// The name an item is put back under when its own name is taken:
/// "보고서.docx" becomes "보고서 (복원 2).docx", a folder "사진" becomes "사진 (복원 2)".
pub open spec fn conflict_name_of(name: Seq<char>, n: nat, is_dir: bool) -> Seq<char> {
    let suffix = " (복원 "@ + decimal(n) + ")"@;
    match stem_and_extension(name) {
        Some((stem, ext)) if !is_dir => stem + suffix + "."@ + ext,
        _ => name + suffix,
    }
}

pub fn conflict_name(name: &str, n: usize, is_dir: bool) -> (r: String)
    ensures
        r@ == conflict_name_of(name@, n as nat, is_dir),
{
    let cs = chars_of(name);
    let len = cs.len();
    let mut k: usize = len;
    while k > 0 && cs[k - 1] != '.'
        invariant
            k <= len,
            len == cs@.len(),
            last_dot_before(cs@, len as int) == last_dot_before(cs@, k as int),
        decreases k,
    {
        k = k - 1;
    }
    let dotdot = same_text(name, "..");
    proof {
        reveal_strlit("..");
        assert(".."@ =~= seq!['.', '.']);
    }
    let mut head = String::from_str(" (복원 ");
    head.append(decimal_text(n).as_str());
    let suffix = head.concat(")");
    let ghost sfx = " (복원 "@ + decimal(n as nat) + ")"@;
    assert(suffix@ == sfx);
    assert(dotdot == (name@ == seq!['.', '.']));
    assert(cs@ == name@);
    proof {
        if k >= 1 {
            assert(last_dot_before(cs@, k as int) == k - 1);
        } else {
            assert(last_dot_before(cs@, k as int) == -1);
        }
    }
    if !is_dir && !dotdot && k > 1 {
        let i = k - 1;
        assert(last_dot_before(cs@, len as int) == i);
        let stem = name.substring_char(0, i);
        let ext = name.substring_char(i + 1, len);
        assert(stem@ =~= cs@.take(i as int));
        assert(ext@ =~= cs@.skip(i + 1));
        let r = String::from_str(stem).concat(suffix.as_str()).concat(".").concat(ext);
        assert(stem_and_extension(name@) == Some((name@.take(i as int), name@.skip(i + 1))));
        r
    } else {
        assert(is_dir || stem_and_extension(name@) is None);
        String::from_str(name).concat(suffix.as_str())
    }
}

} // verus!
