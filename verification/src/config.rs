//! The registered folders and, for each, a spare copy of its password hash.

use vstd::prelude::*;
use crate::guard::{exact_hit, first_from, first_rule_hit, normalize, normalized};
use crate::meta::PathStyle;

verus! {

#[derive(Debug)]
pub struct FolderEntry {
    pub path: String,
    pub password_hash: String,
}

#[derive(Debug)]
pub struct Config {
    pub folders: Vec<FolderEntry>,
}

impl Default for Config {
    fn default() -> (c: Config)
        ensures
            c.folders@.len() == 0,
    {
        Config { folders: Vec::new() }
    }
}

/// The first position whose resolved path has the same comparable form as `target`.
pub open spec fn first_same(resolved: Seq<String>, target: Seq<char>, style: PathStyle) -> int {
    first_from(0, resolved.len() as int, exact_hit(normalized(target, style), resolved, style))
}

impl Config {
    /// The registered folder that is the same folder as `target`.
    /// `resolved[i]` is `folders[i].path` as resolved on disk, and `target` is
    /// resolved the same way.
    pub fn find(&self, resolved: &Vec<String>, target: &str, style: PathStyle) -> (r: Option<usize>)
        requires
            resolved@.len() == self.folders@.len(),
        ensures
            r == (if first_same(resolved@, target@, style) < resolved@.len() {
                Some(first_same(resolved@, target@, style) as usize)
            } else {
                None
            }),
    {
        let n = normalize(target, style);
        let k = first_rule_hit(n.as_str(), resolved, 0, style);
        if k < resolved.len() {
            Some(k)
        } else {
            None
        }
    }
}

impl Config {
    /// Registers a folder with its password hash, after the others.
    pub fn register(&mut self, path: String, password_hash: String)
        ensures
            final(self).folders@ == old(self).folders@.push(FolderEntry { path, password_hash }),
    {
        self.folders.push(FolderEntry { path, password_hash });
    }

    /// Replaces the password hash kept for the folder at position `i`.
    pub fn set_hash(&mut self, i: usize, password_hash: String)
        requires
            i < old(self).folders@.len(),
        ensures
            final(self).folders@ == old(self).folders@.update(
                i as int,
                (FolderEntry { path: old(self).folders@[i as int].path, password_hash }),
            ),
    {
        let e = self.folders.remove(i);
        let FolderEntry { path, password_hash: _ } = e;
        self.folders.insert(i, FolderEntry { path, password_hash });
        assert(self.folders@ =~= old(self).folders@.update(
            i as int,
            (FolderEntry { path: old(self).folders@[i as int].path, password_hash }),
        ));
    }

    /// Takes the folder at position `i` off the list.
    pub fn remove(&mut self, i: usize)
        requires
            i < old(self).folders@.len(),
        ensures
            final(self).folders@ == old(self).folders@.remove(i as int),
    {
        let _ = self.folders.remove(i);
    }
}

} // verus!
