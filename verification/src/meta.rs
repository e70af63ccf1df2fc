//! The state file kept inside a locked folder, and where everything lives.

use vstd::prelude::*;

verus! {

/// Name of the hidden vault directory inside a locked folder.
pub const VAULT_DIR: &'static str = ".folderlock";
/// Where, inside the vault, the user's items are kept while locked.
pub const DATA_DIR: &'static str = "data";
pub const META_FILE: &'static str = "meta.json";
pub const META_TMP_FILE: &'static str = "meta.json.tmp";
/// Name of the unlock program copied into a locked folder.
pub const UNLOCK_EXE_NAME: &'static str = "잠금 해제.exe";

pub const META_VERSION: u32 = 1;

#[derive(Clone, Copy, Debug, PartialEq, Eq, Structural)]
pub enum LockState {
    /// Items are being moved into the vault.
    Locking,
    Locked,
    /// Items are being moved back; the password was already checked.
    Unlocking,
}

#[derive(Debug)]
pub struct UnlockExe {
    pub name: String,
    /// Recorded so that only the file we copied is ever deleted.
    pub sha256: String,
}

impl Clone for UnlockExe {
    fn clone(&self) -> (r: Self)
        ensures
            r == *self,
    {
        UnlockExe { name: self.name.clone(), sha256: self.sha256.clone() }
    }
}

#[derive(Debug)]
pub struct Meta {
    pub version: u32,
    pub state: LockState,
    pub password_hash: String,
    pub unlock_exe: Option<UnlockExe>,
    pub updated_at: String,
}

impl Clone for Meta {
    fn clone(&self) -> (r: Self)
        ensures
            r == *self,
    {
        let unlock_exe = match &self.unlock_exe {
            Some(e) => Some(e.clone()),
            None => None,
        };
        Meta {
            version: self.version,
            state: self.state,
            password_hash: self.password_hash.clone(),
            unlock_exe,
            updated_at: self.updated_at.clone(),
        }
    }
}

/// How paths are spelled on the machine at hand.
#[derive(Clone, Copy, Debug, PartialEq, Eq, Structural)]
pub enum PathStyle {
    /// `/` separates components.
    Unix,
    /// `\` separates components; `/` is accepted as well.
    Windows,
}

/// The separator that `join` inserts.
pub open spec fn separator(style: PathStyle) -> char {
    match style {
        PathStyle::Unix => '/',
        PathStyle::Windows => '\\',
    }
}

/// Whether `c` separates path components.
pub open spec fn is_separator(c: char, style: PathStyle) -> bool {
    c == '/' || (style == PathStyle::Windows && c == '\\')
}

/// `dir` followed by the relative `name`, with a separator between them
/// unless `dir` is empty or already ends with one.
/// A bare Windows drive such as `C:`, to which `Path::join` adds no separator.
pub open spec fn bare_drive(dir: Seq<char>, style: PathStyle) -> bool {
    &&& style == PathStyle::Windows
    &&& dir.len() == 2
    &&& dir[1] == ':'
    &&& (('a' as int) <= (dir[0] as int) <= ('z' as int) || ('A' as int) <= (dir[0] as int) <= ('Z' as int))
}

pub open spec fn joined(dir: Seq<char>, name: Seq<char>, style: PathStyle) -> Seq<char> {
    if dir.len() == 0 || is_separator(dir.last(), style) || bare_drive(dir, style) {
        dir + name
    } else {
        dir.push(separator(style)) + name
    }
}

fn separator_text(style: PathStyle) -> (s: &'static str)
    ensures
        s@ == seq![separator(style)],
{
    match style {
        PathStyle::Unix => {
            proof { reveal_strlit("/"); }
            "/"
        },
        PathStyle::Windows => {
            proof { reveal_strlit("\\"); }
            "\\"
        },
    }
}

/// Appends the relative `name` to `dir` as a path component.
pub fn join(dir: &str, name: &str, style: PathStyle) -> (p: String)
    ensures
        p@ == joined(dir@, name@, style),
{
    let n = dir.unicode_len();
    let base = String::from_str(dir);
    if n == 0 {
        return base.concat(name);
    }
    let last = dir.get_char(n - 1);
    let drive = if n == 2 && style == PathStyle::Windows && last == ':' {
        let d = dir.get_char(0) as u32;
        (97 <= d && d <= 122) || (65 <= d && d <= 90)
    } else {
        false
    };
    if last == '/' || (style == PathStyle::Windows && last == '\\') || drive {
        base.concat(name)
    } else {
        let with_sep = base.concat(separator_text(style));
        proof { assert(dir@.push(separator(style)) =~= dir@ + seq![separator(style)]); }
        with_sep.concat(name)
    }
}

/// Every path that belongs to one folder.
#[derive(Debug)]
pub struct Layout {
    pub root: String,
    pub vault: String,
    pub data: String,
    pub meta: String,
    pub meta_tmp: String,
}

impl Layout {
    pub open spec fn describes(&self, root: Seq<char>, style: PathStyle) -> bool {
        let vault = joined(root, VAULT_DIR@, style);
        &&& self.root@ == root
        &&& self.vault@ == vault
        &&& self.data@ == joined(vault, DATA_DIR@, style)
        &&& self.meta@ == joined(vault, META_FILE@, style)
        &&& self.meta_tmp@ == joined(vault, META_TMP_FILE@, style)
    }

    pub fn new(root: &str, style: PathStyle) -> (l: Layout)
        ensures
            l.describes(root@, style),
    {
        let vault = join(root, VAULT_DIR, style);
        let data = join(vault.as_str(), DATA_DIR, style);
        let meta = join(vault.as_str(), META_FILE, style);
        let meta_tmp = join(vault.as_str(), META_TMP_FILE, style);
        Layout { root: String::from_str(root), vault, data, meta, meta_tmp }
    }
}

} // verus!
