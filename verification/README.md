# 폴더 잠금 (FolderLock)

A Windows (and macOS) app that hides the contents of registered folders
behind a password. File contents are never changed: the folder's top-level
items are renamed into a hidden vault inside the folder, and listing and
deleting the vault are blocked. It keeps casual onlookers out; it is not
encryption.

## Layout

- `src/` — the library, verified with Verus.
  - `task.rs` — every engine operation (lock, unlock, emergency restore,
    resume, password change) as a step machine: a `Task` takes the answer to
    its last file-system request and returns the next request or its result.
    `Engine` creates the tasks.
  - `laws.rs` — what holds of every step of every task: items only move
    whole between the folder and the vault, never onto a name not just found
    free; nothing is deleted but the state files, the vault's directories and
    the unlock program the engine placed; the state file is written before
    anything moves; refusals and the password check come before any change;
    over any history of requests, cut short or resumed, no item is lost.
  - `roundtrip.rs` — what whole runs deliver, over a model of the folder
    that answers every request truthfully and lets every change succeed:
    locking and then unlocking with the right password gives the folder
    back exactly as it was; a lock, unlock or emergency restore cut off at
    any point leaves every item whole under its own name; and a cut-off lock
    followed by a resume (and, where that leaves it locked, an unlock or an
    emergency restore) gives the original folder back.
  - `engine.rs` — folder states, errors, reports, places, status
    classification and restore names.
  - `guard.rs` — which folders may never be locked, and the default rules.
  - `submit.rs` — what follows the confirmation of a dialog (registering a
    folder with its password, unlocking, changing the password, taking a
    folder off the list, the emergency restore), as a step machine: which
    hash authorises a change, how the registered entries and their spare
    hashes change, and what is shown next.
  - `password.rs` — password hashes: a salt and iterated SHA-256, stored as
    `sha256$<salt>$<digest>`; a password matches a stored hash exactly when
    the hash has that form and the password hashed with its salt gives its
    digest.
  - `meta.rs`, `config.rs`, `digest.rs`, `text.rs`, `messages.rs` — the state
    file's layout, the registered folders, SHA-256 fingerprints (through the
    `sha2` crate), text helpers and the texts shown to the user.
- `tests/` — the engine driven over an in-memory file system with crashes
  and failures injected at every step, and tests of the smaller parts.
- `app/` — the desktop program: the `egui` window, the platform operations
  (rename without replacing, hiding, ACL / permission protection), settings
  and log files, the random salt of each new password hash, and the loop
  that carries out each request a task makes.

## Recovering by hand

Files are not encrypted, so a forgotten password can be worked around from an
administrator prompt:

```
icacls "D:\내 폴더\.folderlock" /remove:d *S-1-1-0
icacls "D:\내 폴더\.folderlock\data" /remove:d *S-1-1-0
```

then move the items in `D:\내 폴더\.folderlock\data` back into `D:\내 폴더`.
