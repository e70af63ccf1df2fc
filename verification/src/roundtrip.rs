//! What whole runs deliver: locking a folder and unlocking it with the right
//! password gives the folder back as it was; a run cut off at any point
//! leaves every item whole under its own name; and resuming a cut-off lock,
//! then unlocking, gives the folder back as it was.
//!
//! The folder is modelled by its top-level items (the vault among them,
//! under its own name), the items kept in the vault's data directory and
//! the state file; what lies outside it (the unlock program) by `Outside`.
//! A run is the sequence of a task's states, the answers it was given and
//! the folder after each request; the answers agree with the folder
//! (`answers`) and every changing request succeeds (`effect`). A run cut
//! off is a prefix of such a run: nothing after the cut takes effect.

use vstd::prelude::*;
use crate::digest::fingerprint;
use crate::engine::{chosen_meta, status_of, IoFailure, IoKind, Status};
use crate::guard::refusal;
use crate::meta::{LockState, PathStyle, UNLOCK_EXE_NAME, VAULT_DIR};
use crate::task::{
    exe_of, fresh, fresh_meta, meta_view, ExeV, next, texts, ActionV, CleanupFor, Event, FinishFor, LocV, MetaV, Op, OpenFor, OutcomeV,
    Phase, ProtectFor, RestoreFor, DirsFor, Setup, StepV, WorkV,
};

verus! {

/// A folder: its top-level items by name (the vault among them), the items
/// in the vault's data directory when it exists, and the state file.
pub struct Folder<T> {
    pub root: Map<Seq<char>, T>,
    pub data: Option<Map<Seq<char>, T>>,
    pub meta: Option<MetaV>,
}

/// What lies outside the folder: the unlock program's content, the item a
/// copy of it becomes, and the content of an item.
#[verifier::reject_recursive_types(T)]
pub struct Outside<T> {
    pub program: Seq<u8>,
    pub copy: T,
    pub content: spec_fn(T) -> Seq<u8>,
}

pub open spec fn vault_name() -> Seq<char> {
    VAULT_DIR@
}

/// Two state files that record the same thing (the time stamp aside).
pub open spec fn same_record(a: Option<MetaV>, b: Option<MetaV>) -> bool {
    match (a, b) {
        (None, None) => true,
        (Some(x), Some(y)) => x.version == y.version && x.state == y.state && x.password_hash == y.password_hash
            && x.unlock_exe == y.unlock_exe,
        _ => false,
    }
}

/// The folder's status, as read from it.
pub open spec fn folder_status<T>(f: Folder<T>) -> Status {
    if !f.root.contains_key(vault_name()) {
        Status::Unlocked
    } else {
        match f.meta {
            Some(m) => if m.state == LockState::Locked { Status::Locked } else { Status::Interrupted(m.state) },
            None => if f.data is None || f.data.unwrap().dom().len() == 0 { Status::Stale } else { Status::Broken },
        }
    }
}

/// Whether there is something at `l`.
pub open spec fn there<T>(f: Folder<T>, l: LocV) -> bool {
    match l {
        LocV::Vault => f.root.contains_key(vault_name()),
        LocV::Data => f.data is Some,
        LocV::Meta => f.meta is Some,
        LocV::RootItem(n) => f.root.contains_key(n),
        LocV::DataItem(n) => f.data is Some && f.data.unwrap().contains_key(n),
        _ => false,
    }
}

/// The names listed in the directory `l`.
pub open spec fn listing<T>(f: Folder<T>, l: LocV) -> Set<Seq<char>> {
    match l {
        LocV::Root => f.root.dom(),
        LocV::Data => if f.data is Some { f.data.unwrap().dom() } else { Set::empty() },
        _ => Set::empty(),
    }
}

/// `ev` is what the folder `f` answers to `a` (before `a` takes effect):
/// what is read agrees with the folder, every change succeeds, the folder
/// passes the guard, and the password given is the right one.
pub open spec fn answers<T>(f: Folder<T>, a: ActionV, ev: Event, absolute: bool, has_parent: bool, style: PathStyle, o: Outside<T>) -> bool {
    match a {
        ActionV::Inspect => match ev {
            Event::Inspected(facts) => refusal(absolute, facts, has_parent, style) is None,
            _ => false,
        },
        ActionV::Survey => match ev {
            Event::Surveyed(sv) => status_of(sv) == Ok::<Status, IoFailure>(folder_status(f)),
            _ => false,
        },
        ActionV::LoadMeta => match ev {
            Event::MetaLoaded(m) => same_record(meta_view(chosen_meta(m)), f.meta),
            _ => false,
        },
        ActionV::Probe(l) => match ev {
            Event::Probed(r) => (r is Ok) == there(f, l),
            _ => false,
        },
        ActionV::List(l) => match ev {
            Event::Listed(Ok(v)) => texts(v@).no_duplicates() && texts(v@).to_set() == listing(f, l)
                && texts(v@).len() < usize::MAX,
            _ => false,
        },
        ActionV::Read(LocV::Source(_)) => ev matches Event::Read(Ok(b)) && b@ == o.program,
        ActionV::Read(LocV::RootItem(n)) => match ev {
            Event::Read(Ok(b)) => f.root.contains_key(n) && b@ == (o.content)(f.root[n]),
            Event::Read(Err(e)) => !f.root.contains_key(n) && e.kind == IoKind::NotFound,
            _ => false,
        },
        ActionV::Read(_) => ev is Read,
        ActionV::Verify(_, _) => ev == Event::Verified(true),
        _ => ev == Event::Done(Ok::<(), IoFailure>(())),
    }
}

/// The folder after the request `a` succeeded; a new vault directory is `node`.
pub open spec fn effect<T>(f: Folder<T>, a: ActionV, node: T, o: Outside<T>) -> Folder<T> {
    match a {
        ActionV::CreateDir(LocV::Vault) => Folder { root: f.root.insert(vault_name(), node), ..f },
        ActionV::CreateDir(LocV::Data) => Folder { data: Some(Map::empty()), ..f },
        ActionV::WriteMeta(m) => Folder { meta: Some(m), ..f },
        ActionV::Move(LocV::RootItem(n), LocV::DataItem(m)) =>
            Folder { root: f.root.remove(n), data: Some(f.data.unwrap().insert(m, f.root[n])), ..f },
        ActionV::Move(LocV::DataItem(n), LocV::RootItem(c)) =>
            Folder { root: f.root.insert(c, f.data.unwrap()[n]), data: Some(f.data.unwrap().remove(n)), ..f },
        ActionV::RemoveFile(LocV::Meta) => Folder { meta: None, ..f },
        ActionV::RemoveFile(LocV::RootItem(n)) => Folder { root: f.root.remove(n), ..f },
        ActionV::CopyNew(_, LocV::RootItem(n)) => Folder { root: f.root.insert(n, o.copy), ..f },
        ActionV::RemoveDir(LocV::Data) => Folder { data: None, ..f },
        ActionV::RemoveDir(LocV::Vault) => Folder { root: f.root.remove(vault_name()), ..f },
        _ => f,
    }
}

/// A run of the task set up by `s`: its states `ws`, the answers `evs` it
/// was given (`Start` first), and the folder `fs` before each step. Each step
/// makes a request, the folder answers it and the request takes effect.
pub open spec fn ran<T>(s: Setup, absolute: bool, has_parent: bool, node: T, o: Outside<T>, ws: Seq<WorkV>, evs: Seq<Event>, fs: Seq<Folder<T>>) -> bool {
    &&& ws.len() >= 1
    &&& evs.len() == ws.len()
    &&& fs.len() == ws.len()
    &&& evs[0] == Event::Start
    &&& forall|i: int| 0 <= i < ws.len() - 1 ==> #[trigger] step_taken(s, absolute, has_parent, node, o, ws[i], evs[i], fs[i], ws[i + 1], evs[i + 1], fs[i + 1])
}

pub open spec fn step_taken<T>(s: Setup, absolute: bool, has_parent: bool, node: T, o: Outside<T>, w: WorkV, ev: Event, f: Folder<T>, w2: WorkV, ev2: Event, f2: Folder<T>) -> bool {
    let r = next(s, w, ev, absolute, has_parent);
    &&& r.1 is Do
    &&& w2 == r.0
    &&& answers(f, r.1->Do_0, ev2, absolute, has_parent, s.style, o)
    &&& f2 == effect(f, r.1->Do_0, node, o)
}

/// How the run ends.
pub open spec fn ending(s: Setup, absolute: bool, has_parent: bool, ws: Seq<WorkV>, evs: Seq<Event>) -> StepV {
    next(s, ws.last(), evs.last(), absolute, has_parent).1
}

// ---------- names ----------

/// The names of `ns` but the vault's, in order.
pub open spec fn others(ns: Seq<Seq<char>>) -> Seq<Seq<char>>
    decreases ns.len(),
{
    if ns.len() == 0 {
        Seq::empty()
    } else if ns[0] == vault_name() {
        others(ns.drop_first())
    } else {
        seq![ns[0]] + others(ns.drop_first())
    }
}

proof fn lemma_others(ns: Seq<Seq<char>>)
    requires
        ns.no_duplicates(),
    ensures
        others(ns).no_duplicates(),
        forall|x: Seq<char>| #[trigger] others(ns).contains(x) <==> (ns.contains(x) && x != vault_name()),
        others(ns).len() <= ns.len(),
    decreases ns.len(),
{
    if ns.len() > 0 {
        let rest = ns.drop_first();
        assert(rest.no_duplicates());
        lemma_others(rest);
        assert forall|x: Seq<char>| ns.contains(x) <==> (x == ns[0] || rest.contains(x)) by {
            if ns.contains(x) {
                let i = choose|i: int| 0 <= i < ns.len() && ns[i] == x;
                if i > 0 {
                    assert(rest[i - 1] == x);
                }
            }
            if rest.contains(x) {
                let i = choose|i: int| 0 <= i < rest.len() && rest[i] == x;
                assert(ns[i + 1] == x);
            }
        }
        if ns[0] != vault_name() {
            let o = seq![ns[0]] + others(rest);
            assert forall|x: Seq<char>| o.contains(x) <==> (x == ns[0] || others(rest).contains(x)) by {
                if o.contains(x) {
                    let i = choose|i: int| 0 <= i < o.len() && o[i] == x;
                    if i > 0 {
                        assert(others(rest)[i - 1] == x);
                    }
                }
                if others(rest).contains(x) {
                    let i = choose|i: int| 0 <= i < others(rest).len() && others(rest)[i] == x;
                    assert(o[i + 1] == x);
                }
                if x == ns[0] {
                    assert(o[0] == x);
                }
            }
            assert(!rest.contains(ns[0])) by {
                if rest.contains(ns[0]) {
                    let i = choose|i: int| 0 <= i < rest.len() && rest[i] == ns[0];
                    assert(ns[i + 1] == ns[0]);
                }
            }
            assert forall|i: int, j: int| 0 <= i < o.len() && 0 <= j < o.len() && i != j implies o[i] != o[j] by {
                if i > 0 && j > 0 {
                } else if i == 0 {
                    assert(others(rest).contains(o[j]));
                } else {
                    assert(others(rest).contains(o[i]));
                }
            }
        }
    }
}

/// A listing sorted keeps its names, each once.
proof fn lemma_sorted_listing(v: Seq<Seq<char>>)
    requires
        v.no_duplicates(),
    ensures
        crate::text::sorted_texts(v).no_duplicates(),
        forall|x: Seq<char>| #[trigger] crate::text::sorted_texts(v).contains(x) <==> v.contains(x),
        crate::text::sorted_texts(v).len() == v.len(),
{
    broadcast use vstd::seq_lib::group_to_multiset_ensures;
    crate::text::lemma_text_order_total();
    v.lemma_sort_by_ensures(crate::text::text_order());
    let t = crate::text::sorted_texts(v);
    v.lemma_multiset_has_no_duplicates();
    assert forall|x: Seq<char>| t.contains(x) <==> v.contains(x) by {
        assert(t.to_multiset().count(x) == v.to_multiset().count(x));
    }
    assert forall|x: Seq<char>| t.to_multiset().contains(x) implies t.to_multiset().count(x) == 1 by {
        assert(t.to_multiset().count(x) == v.to_multiset().count(x));
    }
    t.lemma_multiset_has_no_duplicates_conv();
    assert(t.len() == t.to_multiset().len());
    assert(v.len() == v.to_multiset().len());
}

proof fn lemma_take_set(p: Seq<Seq<char>>, k: int)
    requires
        0 <= k < p.len(),
    ensures
        p.take(k + 1).to_set() == p.take(k).to_set().insert(p[k]),
{
    assert(p.take(k + 1) =~= p.take(k).push(p[k]));
    p.take(k).lemma_push_to_set_commute(p[k]);
}

proof fn lemma_take_fresh(p: Seq<Seq<char>>, k: int)
    requires
        0 <= k < p.len(),
        p.no_duplicates(),
    ensures
        !p.take(k).to_set().contains(p[k]),
{
    if p.take(k).to_set().contains(p[k]) {
        assert(p.take(k).contains(p[k]));
        let i = choose|i: int| 0 <= i < k && p.take(k)[i] == p[k];
        assert(p[i] == p[k]);
    }
}

proof fn lemma_take_all(p: Seq<Seq<char>>)
    ensures
        p.take(p.len() as int).to_set() == p.to_set(),
{
    assert(p.take(p.len() as int) =~= p);
}

/// Two requests that the folder answers alike and that do the same to it:
/// they differ at most in the password checked or the program read.
pub open spec fn alike(a: ActionV, b: ActionV) -> bool {
    ||| a == b
    ||| a is Verify && b is Verify
    ||| a matches ActionV::Read(LocV::Source(_)) && b matches ActionV::Read(LocV::Source(_))
    ||| a is CopyNew && b is CopyNew && a->CopyNew_0 is Source && b->CopyNew_0 is Source && a->CopyNew_1 == b->CopyNew_1
}

// ---------- a lock run ----------

pub open spec fn start_folder<T>(d0: Map<Seq<char>, T>) -> Folder<T> {
    Folder { root: d0, data: None, meta: None }
}

/// The unlock program a lock records: none when it has no program to leave.
pub open spec fn exe_record<T>(s: Setup, o: Outside<T>) -> Option<ExeV> {
    if s.exe_src is Some {
        Some(ExeV { name: UNLOCK_EXE_NAME@, sha256: fingerprint(o.program) })
    } else {
        None
    }
}

/// The state file a lock writes first.
pub open spec fn lock_meta<T>(s: Setup, o: Outside<T>) -> MetaV {
    fresh_meta(s, exe_record(s, o))
}

/// The state file a lock records once done.
pub open spec fn locked_meta<T>(s: Setup, o: Outside<T>) -> MetaV {
    MetaV { state: LockState::Locked, ..lock_meta(s, o) }
}

/// What a locked folder holds: the vault, and the copy of the unlock program
/// where the lock had one to leave.
pub open spec fn locked_root<T>(s: Setup, node: T, o: Outside<T>) -> Map<Seq<char>, T> {
    let r = Map::empty().insert(vault_name(), node);
    if s.exe_src is Some {
        r.insert(UNLOCK_EXE_NAME@, o.copy)
    } else {
        r
    }
}

/// The folder once locked: only the vault (and the unlock program) is in it,
/// every item is in the vault, and the state file says so.
pub open spec fn locked_folder<T>(s: Setup, d0: Map<Seq<char>, T>, node: T, o: Outside<T>) -> Folder<T> {
    Folder { root: locked_root(s, node, o), data: Some(d0), meta: Some(locked_meta(s, o)) }
}

/// The folder once every item is in the vault, before anything else.
pub open spec fn filled<T>(s: Setup, d0: Map<Seq<char>, T>, node: T, o: Outside<T>) -> Folder<T> {
    Folder { root: Map::empty().insert(vault_name(), node), data: Some(d0), meta: Some(lock_meta(s, o)) }
}

pub open spec fn locked_outcome(st: StepV) -> bool {
    st matches StepV::Finish(Ok(OutcomeV::Locked(_)))
}

/// The request a lock task in state `w` waits on the answer to.
pub open spec fn lock_awaits(w: WorkV) -> ActionV {
    match w.phase {
        Phase::LockSurvey => ActionV::Survey,
        Phase::LockHashSource => ActionV::Read(LocV::Source(Seq::empty())),
        Phase::LockCreateVault => ActionV::CreateDir(LocV::Vault),
        Phase::LockWriteMeta => ActionV::WriteMeta(w.meta.unwrap()),
        Phase::FinishProbeData(_) => ActionV::Probe(LocV::Data),
        Phase::FinishCreateData(_) => ActionV::CreateDir(LocV::Data),
        Phase::FinishList(_) => ActionV::List(LocV::Root),
        Phase::FinishHashItem(_) => ActionV::Read(LocV::RootItem(w.names[w.scan_at as int])),
        Phase::FinishMove(_) => ActionV::Move(LocV::RootItem(w.pending[w.move_at as int]), LocV::DataItem(w.pending[w.move_at as int])),
        Phase::FinishProbeExe(_) => ActionV::Probe(LocV::RootItem(exe_of(w).name)),
        Phase::FinishCopyExe(_) => ActionV::CopyNew(LocV::Source(Seq::empty()), LocV::RootItem(exe_of(w).name)),
        Phase::FinishWrite(_) => ActionV::WriteMeta(w.meta.unwrap()),
        Phase::ProtectHide(_) => ActionV::Hide(LocV::Vault),
        Phase::ProtectData(_) => ActionV::Protect(LocV::Data),
        Phase::ProtectVault(_) => ActionV::Protect(LocV::Vault),
        _ => ActionV::Inspect,
    }
}

/// The folder while a lock moves items in: the first `k` pending items are in
/// the vault, the others still in the folder.
pub open spec fn moving<T>(s: Setup, d0: Map<Seq<char>, T>, node: T, o: Outside<T>, p: Seq<Seq<char>>, k: int) -> Folder<T> {
    Folder {
        root: d0.remove_keys(p.take(k).to_set()).insert(vault_name(), node),
        data: Some(d0.restrict(p.take(k).to_set())),
        meta: Some(lock_meta(s, o)),
    }
}

/// The item named like the unlock program, where the folder has one, is not
/// a copy of the program (a copy would be taken for the lock's own).
pub open spec fn no_lookalike<T>(s: Setup, d0: Map<Seq<char>, T>, o: Outside<T>) -> bool {
    s.exe_src is Some && d0.contains_key(UNLOCK_EXE_NAME@) ==> fingerprint((o.content)(d0[UNLOCK_EXE_NAME@])) != fingerprint(
        o.program,
    )
}

/// A lock of the folder `d0`: nothing in it is named like the vault, and
/// nothing in it looks like the unlock program.
pub open spec fn lock_ready<T>(s: Setup, d0: Map<Seq<char>, T>, o: Outside<T>) -> bool {
    s.op == Op::Lock && !d0.contains_key(vault_name()) && no_lookalike(s, d0, o)
}

/// The task counts as moved every item of the folder `d0`.
pub open spec fn all_moved<T>(d0: Map<Seq<char>, T>, w: WorkV) -> bool {
    d0.dom().finite() && w.moved as nat == d0.dom().len() && w.lock_warnings.len() == 0
}

/// A lock that ends with its report: it counts every item it moved into the
/// vault, here all of the folder's items `d0`, and warns of nothing.
pub open spec fn locked_report<T>(st: StepV, d0: Map<Seq<char>, T>) -> bool {
    st matches StepV::Finish(Ok(OutcomeV::Locked(rep))) && d0.dom().finite() && rep.moved as nat == d0.dom().len()
        && rep.warnings.len() == 0
}

/// The items queued to move are the folder's items, each once: so there are
/// as many as the folder has.
proof fn lemma_queue_count<T>(p: Seq<Seq<char>>, d0: Map<Seq<char>, T>)
    requires
        p.no_duplicates(),
        forall|x: Seq<char>| #[trigger] p.contains(x) <==> d0.contains_key(x),
    ensures
        d0.dom().finite(),
        d0.dom().len() == p.len(),
{
    assert(d0.dom() =~= p.to_set()) by {
        assert forall|x: Seq<char>| d0.dom().contains(x) <==> p.to_set().contains(x) by {
            assert(p.to_set().contains(x) <==> p.contains(x));
        }
    }
    p.unique_seq_to_set();
    vstd::seq_lib::seq_to_set_is_finite(p);
}

/// What holds of a lock task's state `w` and the folder `g` before its
/// awaited request takes effect.
pub open spec fn lock_inv<T>(s: Setup, d0: Map<Seq<char>, T>, node: T, o: Outside<T>, w: WorkV, g: Folder<T>) -> bool {
    let with_vault = d0.insert(vault_name(), node);
    let m = Some(lock_meta(s, o));
    let listed = Folder { root: with_vault, data: Some(Map::empty()), meta: m };
    match w.phase {
        Phase::LockInspect | Phase::LockSurvey => g == start_folder(d0),
        Phase::LockHashSource => g == start_folder(d0) && s.exe_src is Some,
        Phase::LockCreateVault => g == start_folder(d0) && w.meta == m,
        Phase::LockWriteMeta => g == (Folder { root: with_vault, data: None, meta: None }) && w.meta == m,
        Phase::FinishProbeData(f) => f == FinishFor::Lock && g == (Folder { root: with_vault, data: None, meta: m }) && w.meta == m
            && w.moved == 0 && w.lock_warnings.len() == 0,
        Phase::FinishCreateData(f) => f == FinishFor::Lock && g == (Folder { root: with_vault, data: None, meta: m }) && w.meta == m
            && w.moved == 0 && w.lock_warnings.len() == 0,
        Phase::FinishList(f) => f == FinishFor::Lock && g == listed && w.meta == m && w.moved == 0 && w.lock_warnings.len() == 0,
        Phase::FinishHashItem(f) => {
            &&& f == FinishFor::Lock
            &&& w.moved == 0
            &&& w.lock_warnings.len() == 0
            &&& g == listed
            &&& w.meta == m
            &&& s.exe_src is Some
            &&& w.names.no_duplicates()
            &&& w.names.to_set() == with_vault.dom()
            &&& w.scan_at < w.names.len() < usize::MAX
            &&& w.names[w.scan_at as int] == UNLOCK_EXE_NAME@
            &&& w.pending == others(w.names.take(w.scan_at as int))
        },
        Phase::FinishMove(f) => {
            &&& f == FinishFor::Lock
            &&& w.pending.no_duplicates()
            &&& (forall|x: Seq<char>| #[trigger] w.pending.contains(x) <==> d0.contains_key(x))
            &&& w.move_at < w.pending.len() < usize::MAX
            &&& g == moving(s, d0, node, o, w.pending, w.move_at as int)
            &&& w.meta == m
            &&& w.moved == w.move_at
            &&& w.lock_warnings.len() == 0
        },
        Phase::FinishProbeExe(f) | Phase::FinishCopyExe(f) => f == FinishFor::Lock && g == filled(s, d0, node, o) && w.meta == m
            && s.exe_src is Some && all_moved(d0, w),
        Phase::FinishWrite(f) => f == FinishFor::Lock && g == (Folder { meta: m, ..locked_folder(s, d0, node, o) })
            && w.meta == Some(locked_meta(s, o)) && all_moved(d0, w),
        Phase::ProtectHide(t) | Phase::ProtectData(t) | Phase::ProtectVault(t) =>
            t == ProtectFor::Finish(FinishFor::Lock) && g == locked_folder(s, d0, node, o) && all_moved(d0, w),
        _ => false,
    }
}

/// What a step of a lock run keeps.
pub open spec fn lock_step_ok<T>(s: Setup, d0: Map<Seq<char>, T>, node: T, o: Outside<T>, w: WorkV, g: Folder<T>, r: (WorkV, StepV)) -> bool {
    let e = effect(g, lock_awaits(w), node, o);
    &&& r.1 is Do ==> lock_inv(s, d0, node, o, r.0, e) && alike(r.1->Do_0, lock_awaits(r.0))
    &&& r.1 is Finish ==> locked_outcome(r.1) && locked_report(r.1, d0) && e == locked_folder(s, d0, node, o)
}

proof fn lemma_names_differ()
    ensures
        UNLOCK_EXE_NAME@ != vault_name(),
{
    reveal_strlit("잠금 해제.exe");
    reveal_strlit(".folderlock");
    assert(UNLOCK_EXE_NAME@[0] != vault_name()[0]);
}

proof fn lemma_lock_opening<T>(s: Setup, d0: Map<Seq<char>, T>, node: T, o: Outside<T>, w: WorkV, g: Folder<T>, ev: Event, absolute: bool, has_parent: bool)
    requires
        lock_ready(s, d0, o),
        lock_inv(s, d0, node, o, w, g),
        answers(g, lock_awaits(w), ev, absolute, has_parent, s.style, o),
        w.phase is LockInspect || w.phase is LockSurvey || w.phase is LockHashSource || w.phase is LockCreateVault
            || w.phase is LockWriteMeta,
    ensures
        lock_step_ok(s, d0, node, o, w, g, next(s, w, ev, absolute, has_parent)),
{
    let e = effect(g, lock_awaits(w), node, o);
    if w.phase is LockCreateVault {
        assert(e.root =~= d0.insert(vault_name(), node));
    }
}

proof fn lemma_lock_finish_simple<T>(s: Setup, d0: Map<Seq<char>, T>, node: T, o: Outside<T>, w: WorkV, g: Folder<T>, ev: Event, absolute: bool, has_parent: bool)
    requires
        lock_ready(s, d0, o),
        lock_inv(s, d0, node, o, w, g),
        answers(g, lock_awaits(w), ev, absolute, has_parent, s.style, o),
        w.phase is FinishProbeData || w.phase is FinishCreateData || w.phase is FinishWrite || w.phase is ProtectHide
            || w.phase is ProtectData || w.phase is ProtectVault || w.phase is FinishProbeExe || w.phase is FinishCopyExe,
    ensures
        lock_step_ok(s, d0, node, o, w, g, next(s, w, ev, absolute, has_parent)),
{
    lemma_names_differ();
}

/// The names of `a` followed by `b` but the vault's are those of `a`, then those of `b`.
proof fn lemma_others_append(a: Seq<Seq<char>>, b: Seq<Seq<char>>)
    ensures
        others(a + b) == others(a) + others(b),
    decreases a.len(),
{
    if a.len() == 0 {
        assert(a + b =~= b);
        assert(others(a) + others(b) =~= others(b));
    } else {
        lemma_others_append(a.drop_first(), b);
        assert((a + b).drop_first() =~= a.drop_first() + b);
        assert((a + b)[0] == a[0]);
        if a[0] != vault_name() {
            assert(seq![a[0]] + (others(a.drop_first()) + others(b)) =~= seq![a[0]] + others(a.drop_first()) + others(b));
        }
    }
}

/// Listing the folder queues every item but the vault, as long as no name
/// left is the unlock program's.
proof fn lemma_scan_plain(s: Setup, w: WorkV, f: FinishFor)
    requires
        w.meta is Some,
        forall|j: int| w.scan_at <= j < w.names.len() ==> !crate::task::exe_named(w.meta, #[trigger] w.names[j]),
        w.scan_at <= w.names.len() < usize::MAX,
    ensures
        crate::task::scan(s, w, f) == crate::task::begin_moves(
            s,
            WorkV {
                pending: w.pending + others(w.names.subrange(w.scan_at as int, w.names.len() as int)),
                scan_at: w.names.len() as usize,
                ..w
            },
            f,
        ),
    decreases w.names.len() - w.scan_at,
{
    let len = w.names.len() as int;
    let rest = w.names.subrange(w.scan_at as int, len);
    if w.scan_at >= w.names.len() {
        assert(rest =~= Seq::<Seq<char>>::empty());
        assert(w.pending + others(rest) =~= w.pending);
        assert(WorkV { pending: w.pending + others(rest), scan_at: w.names.len() as usize, ..w } == w);
    } else {
        let name = w.names[w.scan_at as int];
        assert(!crate::task::exe_named(w.meta, w.names[w.scan_at as int]));
        let w1 = WorkV { scan_at: (w.scan_at + 1) as usize, ..w };
        let tail = w.names.subrange(w.scan_at + 1, len);
        assert(rest.drop_first() =~= tail);
        assert(rest[0] == name);
        if name == vault_name() {
            lemma_scan_plain(s, w1, f);
            assert(others(rest) == others(tail));
        } else {
            let w2 = WorkV { pending: w.pending.push(name), scan_at: (w.scan_at + 1) as usize, ..w };
            lemma_scan_plain(s, w2, f);
            assert(others(rest) == seq![name] + others(tail));
            assert(w.pending.push(name) + others(tail) =~= w.pending + others(rest));
        }
    }
}

/// Listing the folder stops at the unlock program's name to read that item.
proof fn lemma_scan_hit(s: Setup, w: WorkV, f: FinishFor, j: int)
    requires
        w.meta is Some,
        w.scan_at <= j < w.names.len() < usize::MAX,
        crate::task::exe_named(w.meta, w.names[j]),
        w.names[j] != vault_name(),
        forall|i: int| w.scan_at <= i < j ==> !crate::task::exe_named(w.meta, #[trigger] w.names[i]),
    ensures
        crate::task::scan(s, w, f) == crate::task::emit(
            WorkV { pending: w.pending + others(w.names.subrange(w.scan_at as int, j)), scan_at: j as usize, ..w },
            Phase::FinishHashItem(f),
            ActionV::Read(LocV::RootItem(w.names[j])),
        ),
    decreases j - w.scan_at,
{
    let sub = w.names.subrange(w.scan_at as int, j);
    if w.scan_at == j {
        assert(sub =~= Seq::<Seq<char>>::empty());
        assert(w.pending + others(sub) =~= w.pending);
        assert(WorkV { pending: w.pending + others(sub), scan_at: j as usize, ..w } == w);
    } else {
        let name = w.names[w.scan_at as int];
        assert(!crate::task::exe_named(w.meta, w.names[w.scan_at as int]));
        let tail = w.names.subrange(w.scan_at + 1, j);
        assert(sub.drop_first() =~= tail);
        assert(sub[0] == name);
        if name == vault_name() {
            let w1 = WorkV { scan_at: (w.scan_at + 1) as usize, ..w };
            lemma_scan_hit(s, w1, f, j);
            assert(others(sub) == others(tail));
        } else {
            let w2 = WorkV { pending: w.pending.push(name), scan_at: (w.scan_at + 1) as usize, ..w };
            lemma_scan_hit(s, w2, f, j);
            assert(others(sub) == seq![name] + others(tail));
            assert(w.pending.push(name) + others(tail) =~= w.pending + others(sub));
        }
    }
}

/// Once the listing is gone through, every item of the folder is queued.
proof fn lemma_lock_queued<T>(s: Setup, d0: Map<Seq<char>, T>, node: T, o: Outside<T>, w: WorkV, g: Folder<T>)
    requires
        lock_ready(s, d0, o),
        g == (Folder { root: d0.insert(vault_name(), node), data: Some(Map::empty()), meta: Some(lock_meta(s, o)) }),
        w.meta == Some(lock_meta(s, o)),
        w.moved == 0,
        w.lock_warnings.len() == 0,
        w.names.no_duplicates(),
        w.names.len() < usize::MAX,
        forall|x: Seq<char>| #[trigger] w.names.contains(x) <==> (x == vault_name() || d0.contains_key(x)),
        w.pending == others(w.names),
    ensures
        ({
            let r = crate::task::begin_moves(s, w, FinishFor::Lock);
            r.1 is Do && lock_inv(s, d0, node, o, r.0, g) && alike(r.1->Do_0, lock_awaits(r.0))
        }),
{
    let p = w.pending;
    lemma_others(w.names);
    assert forall|x: Seq<char>| #[trigger] p.contains(x) <==> d0.contains_key(x) by {}
    assert(p.take(0) =~= Seq::<Seq<char>>::empty());
    assert(p.take(0).to_set() =~= Set::<Seq<char>>::empty());
    if p.len() > 0 {
        assert(g.root =~= d0.remove_keys(p.take(0).to_set()).insert(vault_name(), node));
        assert(g.data.unwrap() =~= d0.restrict(p.take(0).to_set()));
    } else {
        assert(d0.dom() =~= Set::<Seq<char>>::empty()) by {
            assert forall|x: Seq<char>| !d0.contains_key(x) by {
                assert(!p.contains(x));
            }
        }
        assert(d0 =~= Map::<Seq<char>, T>::empty());
        assert(g.root =~= Map::<Seq<char>, T>::empty().insert(vault_name(), node));
        assert(d0.dom().len() == 0);
    }
}

proof fn lemma_lock_list<T>(s: Setup, d0: Map<Seq<char>, T>, node: T, o: Outside<T>, w: WorkV, g: Folder<T>, ev: Event, absolute: bool, has_parent: bool)
    requires
        lock_ready(s, d0, o),
        lock_inv(s, d0, node, o, w, g),
        answers(g, lock_awaits(w), ev, absolute, has_parent, s.style, o),
        w.phase is FinishList,
    ensures
        lock_step_ok(s, d0, node, o, w, g, next(s, w, ev, absolute, has_parent)),
{
    lemma_names_differ();
    if let Event::Listed(Ok(v)) = ev {
        let listed = texts(v@);
        let names = crate::text::sorted_texts(listed);
        lemma_sorted_listing(listed);
        let w1 = WorkV { names, scan_at: 0, pending: Seq::empty(), ..w };
        assert forall|x: Seq<char>| #[trigger] names.contains(x) <==> (x == vault_name() || d0.contains_key(x)) by {
            assert(listed.to_set().contains(x) <==> listed.contains(x));
        }
        assert(names.subrange(0, names.len() as int) =~= names);
        if s.exe_src is Some && d0.contains_key(UNLOCK_EXE_NAME@) {
            assert(names.contains(UNLOCK_EXE_NAME@));
            let j = choose|j: int| 0 <= j < names.len() && names[j] == UNLOCK_EXE_NAME@;
            assert forall|i: int| 0 <= i < j implies !crate::task::exe_named(w1.meta, #[trigger] names[i]) by {}
            lemma_scan_hit(s, w1, FinishFor::Lock, j);
            assert(names.subrange(0, j) =~= names.take(j));
            assert(Seq::<Seq<char>>::empty() + others(names.take(j)) =~= others(names.take(j)));
            assert(names.to_set() =~= d0.insert(vault_name(), node).dom()) by {
                assert forall|x: Seq<char>| names.to_set().contains(x) <==> names.contains(x) by {}
            }
        } else {
            assert forall|i: int| 0 <= i < names.len() implies !crate::task::exe_named(w1.meta, #[trigger] names[i]) by {
                assert(names.contains(names[i]));
            }
            lemma_scan_plain(s, w1, FinishFor::Lock);
            let w3 = WorkV { pending: Seq::empty() + others(names), scan_at: names.len() as usize, ..w1 };
            assert(Seq::<Seq<char>>::empty() + others(names) =~= others(names));
            lemma_lock_queued(s, d0, node, o, w3, g);
        }
    }
}

proof fn lemma_lock_hash_item<T>(s: Setup, d0: Map<Seq<char>, T>, node: T, o: Outside<T>, w: WorkV, g: Folder<T>, ev: Event, absolute: bool, has_parent: bool)
    requires
        lock_ready(s, d0, o),
        lock_inv(s, d0, node, o, w, g),
        answers(g, lock_awaits(w), ev, absolute, has_parent, s.style, o),
        w.phase is FinishHashItem,
    ensures
        lock_step_ok(s, d0, node, o, w, g, next(s, w, ev, absolute, has_parent)),
{
    lemma_names_differ();
    let names = w.names;
    let j = w.scan_at as int;
    let u = UNLOCK_EXE_NAME@;
    assert(names.contains(u));
    assert(names.to_set().contains(u));
    assert(d0.contains_key(u));
    assert(g.root[u] == d0[u]);
    let w2 = WorkV { pending: w.pending.push(u), scan_at: (w.scan_at + 1) as usize, ..w };
    assert(next(s, w, ev, absolute, has_parent) == crate::task::scan(s, w2, FinishFor::Lock));
    assert forall|i: int| w2.scan_at <= i < names.len() implies !crate::task::exe_named(w2.meta, #[trigger] names[i]) by {}
    lemma_scan_plain(s, w2, FinishFor::Lock);
    let rest = names.subrange(j + 1, names.len() as int);
    assert(names =~= names.take(j) + (seq![u] + rest));
    lemma_others_append(names.take(j), seq![u] + rest);
    assert((seq![u] + rest).drop_first() =~= rest);
    assert(others(seq![u] + rest) == seq![u] + others(rest));
    assert(w.pending.push(u) + others(rest) =~= others(names));
    let w3 = WorkV { pending: w2.pending + others(rest), scan_at: names.len() as usize, ..w2 };
    assert forall|x: Seq<char>| #[trigger] names.contains(x) <==> (x == vault_name() || d0.contains_key(x)) by {
        assert(names.to_set().contains(x) <==> names.contains(x));
    }
    lemma_lock_queued(s, d0, node, o, w3, g);
}

proof fn lemma_lock_move<T>(s: Setup, d0: Map<Seq<char>, T>, node: T, o: Outside<T>, w: WorkV, g: Folder<T>, ev: Event, absolute: bool, has_parent: bool)
    requires
        lock_ready(s, d0, o),
        lock_inv(s, d0, node, o, w, g),
        answers(g, lock_awaits(w), ev, absolute, has_parent, s.style, o),
        w.phase is FinishMove,
    ensures
        lock_step_ok(s, d0, node, o, w, g, next(s, w, ev, absolute, has_parent)),
{
    let p = w.pending;
    let k = w.move_at as int;
    let n = p[k];
    let e = effect(g, lock_awaits(w), node, o);
    lemma_take_set(p, k);
    lemma_take_fresh(p, k);
    assert(p.contains(n));
    assert(n != vault_name());
    let t1 = p.take(k + 1).to_set();
    assert(e.root =~= d0.remove_keys(t1).insert(vault_name(), node));
    assert(e.data.unwrap() =~= d0.restrict(t1));
    let r = next(s, w, ev, absolute, has_parent);
    let w1 = WorkV { moved: (w.moved + 1) as usize, move_at: (w.move_at + 1) as usize, ..w };
    assert(ev == Event::Done(Ok::<(), IoFailure>(())));
    assert(r == crate::task::next_move(s, w1, FinishFor::Lock));
    if k + 1 == p.len() {
        lemma_take_all(p);
        assert forall|x: Seq<char>| #[trigger] p.to_set().contains(x) <==> d0.contains_key(x) by {
            assert(p.to_set().contains(x) <==> p.contains(x));
        }
        assert(t1 =~= d0.dom());
        assert(e.root =~= Map::<Seq<char>, T>::empty().insert(vault_name(), node));
        assert(e.data.unwrap() =~= d0);
        assert(e == filled(s, d0, node, o));
        lemma_queue_count(p, d0);
        assert(lock_inv(s, d0, node, o, r.0, e));
    } else {
        assert(e == moving(s, d0, node, o, p, k + 1));
        assert(r.0.pending == p && r.0.move_at == k + 1 && r.0.meta == w.meta);
        assert(lock_inv(s, d0, node, o, r.0, e));
    }
}

proof fn lemma_lock_step<T>(s: Setup, d0: Map<Seq<char>, T>, node: T, o: Outside<T>, w: WorkV, g: Folder<T>, ev: Event, absolute: bool, has_parent: bool)
    requires
        lock_ready(s, d0, o),
        lock_inv(s, d0, node, o, w, g),
        answers(g, lock_awaits(w), ev, absolute, has_parent, s.style, o),
    ensures
        lock_step_ok(s, d0, node, o, w, g, next(s, w, ev, absolute, has_parent)),
{
    if w.phase is LockInspect || w.phase is LockSurvey || w.phase is LockHashSource || w.phase is LockCreateVault
        || w.phase is LockWriteMeta {
        lemma_lock_opening(s, d0, node, o, w, g, ev, absolute, has_parent);
    } else if w.phase is FinishList {
        lemma_lock_list(s, d0, node, o, w, g, ev, absolute, has_parent);
    } else if w.phase is FinishHashItem {
        lemma_lock_hash_item(s, d0, node, o, w, g, ev, absolute, has_parent);
    } else if w.phase is FinishMove {
        lemma_lock_move(s, d0, node, o, w, g, ev, absolute, has_parent);
    } else {
        lemma_lock_finish_simple(s, d0, node, o, w, g, ev, absolute, has_parent);
    }
}

proof fn lemma_lock_run<T>(s: Setup, absolute: bool, has_parent: bool, node: T, o: Outside<T>, ws: Seq<WorkV>, evs: Seq<Event>, fs: Seq<Folder<T>>, d0: Map<Seq<char>, T>, i: int)
    requires
        ran(s, absolute, has_parent, node, o, ws, evs, fs),
        lock_ready(s, d0, o),
        fresh(ws[0]),
        fs[0] == start_folder(d0),
        1 <= i < ws.len(),
    ensures
        lock_inv(s, d0, node, o, ws[i], fs[i - 1]),
        answers(fs[i - 1], lock_awaits(ws[i]), evs[i], absolute, has_parent, s.style, o),
        fs[i] == effect(fs[i - 1], lock_awaits(ws[i]), node, o),
    decreases i,
{
    let j = i - 1;
    assert(step_taken(s, absolute, has_parent, node, o, ws[j], evs[j], fs[j], ws[j + 1], evs[j + 1], fs[j + 1]));
    assert(j + 1 == i);
    let r = next(s, ws[j], evs[j], absolute, has_parent);
    if i > 1 {
        lemma_lock_run(s, absolute, has_parent, node, o, ws, evs, fs, d0, i - 1);
        lemma_lock_step(s, d0, node, o, ws[i - 1], fs[i - 2], evs[i - 1], absolute, has_parent);
    }
    assert(alike(r.1->Do_0, lock_awaits(ws[i])));
    lemma_alike(fs[j], r.1->Do_0, lock_awaits(ws[i]), evs[i], absolute, has_parent, s.style, node, o);
}

/// A lock whose requests all succeed, on a folder that passes the guard,
/// ends locked: only the vault (and the unlock program, where the lock had
/// one to leave) is left in the folder, every item is in the vault under its
/// own name with its content, and the state file says the folder is locked.
pub proof fn law_lock_locks<T>(s: Setup, absolute: bool, has_parent: bool, node: T, o: Outside<T>, ws: Seq<WorkV>, evs: Seq<Event>, fs: Seq<Folder<T>>, d0: Map<Seq<char>, T>)
    requires
        ran(s, absolute, has_parent, node, o, ws, evs, fs),
        lock_ready(s, d0, o),
        fresh(ws[0]),
        fs[0] == start_folder(d0),
        ending(s, absolute, has_parent, ws, evs) is Finish,
    ensures
        locked_outcome(ending(s, absolute, has_parent, ws, evs)),
        locked_report(ending(s, absolute, has_parent, ws, evs), d0),
        fs.last() == locked_folder(s, d0, node, o),
{
    let k = ws.len() - 1;
    if k == 0 {
        assert(ending(s, absolute, has_parent, ws, evs) is Do);
    } else {
        lemma_lock_run(s, absolute, has_parent, node, o, ws, evs, fs, d0, k);
        lemma_lock_step(s, d0, node, o, ws[k], fs[k - 1], evs[k], absolute, has_parent);
    }
}

// ---------- an unlock run ----------

proof fn lemma_alike<T>(f: Folder<T>, a: ActionV, b: ActionV, ev: Event, absolute: bool, has_parent: bool, style: PathStyle, node: T, o: Outside<T>)
    requires
        alike(a, b),
    ensures
        answers(f, a, ev, absolute, has_parent, style, o) == answers(f, b, ev, absolute, has_parent, style, o),
        effect(f, a, node, o) == effect(f, b, node, o),
{
}

pub open spec fn restored_outcome(st: StepV) -> bool {
    st matches StepV::Finish(Ok(OutcomeV::Restored(_)))
}

/// The request an unlock task in state `w` waits on the answer to.
pub open spec fn unlock_awaits(w: WorkV) -> ActionV {
    match w.phase {
        Phase::UnlockSurvey => ActionV::Survey,
        Phase::UnlockMeta => ActionV::LoadMeta,
        Phase::UnlockVerify => ActionV::Verify(Seq::empty(), Seq::empty()),
        Phase::OpenProbeVault(_) => ActionV::Probe(LocV::Vault),
        Phase::OpenVault(_) => ActionV::Unprotect(LocV::Vault),
        Phase::OpenProbeData(_) => ActionV::Probe(LocV::Data),
        Phase::OpenData(_) => ActionV::Unprotect(LocV::Data),
        Phase::RestoreMeta(_) => ActionV::LoadMeta,
        Phase::RestoreMark(_) => ActionV::WriteMeta(MetaV { state: LockState::Unlocking, ..w.meta.unwrap() }),
        Phase::RestoreHashExe(_) => ActionV::Read(LocV::RootItem(exe_of(w).name)),
        Phase::RestoreRemoveExe(_) => ActionV::RemoveFile(LocV::RootItem(exe_of(w).name)),
        Phase::RestoreProbeData(_) => ActionV::Probe(LocV::Data),
        Phase::RestoreList(_) => ActionV::List(LocV::Data),
        Phase::RestoreProbeItem(_) => ActionV::Probe(LocV::DataItem(w.names[w.scan_at as int])),
        Phase::RestoreProbeTarget(_) => ActionV::Probe(LocV::RootItem(w.candidate)),
        Phase::RestoreMove(_) => ActionV::Move(LocV::DataItem(w.names[w.scan_at as int]), LocV::RootItem(w.candidate)),
        Phase::RestoreRemoveMeta(_) => ActionV::RemoveFile(LocV::Meta),
        Phase::RestoreRemoveTmp(_) => ActionV::RemoveFile(LocV::MetaTmp),
        Phase::DirsData(_) => ActionV::RemoveDir(LocV::Data),
        Phase::DirsVault(_) => ActionV::RemoveDir(LocV::Vault),
        _ => ActionV::Survey,
    }
}

/// A locked folder: only the vault (`x`) in it, with the copy of the unlock
/// program where the state file records one (it may be gone), the items `d`
/// in the vault, and a state file that says locked.
pub open spec fn locked_as<T>(f: Folder<T>, d: Map<Seq<char>, T>, x: T, o: Outside<T>) -> bool {
    let only_vault = Map::<Seq<char>, T>::empty().insert(vault_name(), x);
    &&& f.data == Some(d)
    &&& f.meta is Some
    &&& f.meta.unwrap().state == LockState::Locked
    &&& match f.meta.unwrap().unlock_exe {
        None => f.root == only_vault,
        Some(e) => {
            &&& e.name != vault_name()
            &&& f.root == only_vault.insert(e.name, o.copy) || f.root == only_vault
            &&& fingerprint((o.content)(o.copy)) == e.sha256
        },
    }
}

/// The folder while an unlock puts items back: the first `k` names are in
/// the folder again, the others still in the vault.
pub open spec fn restoring<T>(d: Map<Seq<char>, T>, x: T, ns: Seq<Seq<char>>, k: int, meta: Option<MetaV>) -> Folder<T> {
    Folder {
        root: d.restrict(ns.take(k).to_set()).insert(vault_name(), x),
        data: Some(d.remove_keys(ns.take(k).to_set())),
        meta,
    }
}

pub open spec fn in_report(p: Phase) -> bool {
    match p {
        Phase::OpenProbeVault(t) | Phase::OpenVault(t) | Phase::OpenProbeData(t) | Phase::OpenData(t) =>
            t == OpenFor::Restore(RestoreFor::Report),
        Phase::RestoreMeta(g) | Phase::RestoreMark(g) | Phase::RestoreHashExe(g) | Phase::RestoreRemoveExe(g)
        | Phase::RestoreProbeData(g) | Phase::RestoreList(g)
        | Phase::RestoreProbeItem(g) | Phase::RestoreProbeTarget(g) | Phase::RestoreMove(g)
        | Phase::RestoreRemoveMeta(g) | Phase::RestoreRemoveTmp(g) => g == RestoreFor::Report,
        Phase::DirsData(t) | Phase::DirsVault(t) => t == DirsFor::Restore(RestoreFor::Report),
        _ => false,
    }
}

/// What holds of an unlock task's state `w` and the folder `g` before its
/// awaited request takes effect; `l` is the locked folder it started from.
/// While a restore runs without trouble: nothing put back under another
/// name, no warning, and the items counted as restored are those put back.
pub open spec fn restore_clean<T>(d: Map<Seq<char>, T>, w: WorkV) -> bool {
    &&& w.renamed.len() == 0
    &&& w.restore_warnings.len() == 0
    &&& match w.phase {
        Phase::RestoreProbeItem(_) | Phase::RestoreProbeTarget(_) | Phase::RestoreMove(_) => w.restored == w.scan_at,
        Phase::RestoreRemoveMeta(_) | Phase::RestoreRemoveTmp(_) | Phase::DirsData(_) | Phase::DirsVault(_) =>
            d.dom().finite() && w.restored as nat == d.dom().len(),
        _ => w.restored == 0,
    }
}

/// A restore that ends with its report: every item of `d` counted as
/// restored, none put back under another name, and no warning.
pub open spec fn restored_report<T>(st: StepV, d: Map<Seq<char>, T>) -> bool {
    &&& st matches StepV::Finish(Ok(OutcomeV::Restored(rep)))
    &&& d.dom().finite()
    &&& rep.restored as nat == d.dom().len()
    &&& rep.renamed.len() == 0
    &&& rep.warnings.len() == 0
}

pub open spec fn unlock_inv<T>(l: Folder<T>, d: Map<Seq<char>, T>, x: T, w: WorkV, g: Folder<T>) -> bool {
    (in_report(w.phase) ==> restore_clean(d, w)) && match w.phase {
        Phase::UnlockSurvey | Phase::UnlockMeta | Phase::UnlockVerify => g == l,
        Phase::OpenProbeVault(_) | Phase::OpenVault(_) | Phase::OpenProbeData(_) | Phase::OpenData(_) | Phase::RestoreMeta(_) =>
            in_report(w.phase) && g == l && w.failed.len() == 0,
        Phase::RestoreMark(_) => in_report(w.phase) && g == l && w.failed.len() == 0 && same_record(w.meta, l.meta),
        Phase::RestoreHashExe(_) | Phase::RestoreRemoveExe(_) => {
            &&& in_report(w.phase)
            &&& w.failed.len() == 0
            &&& g == (Folder { meta: g.meta, ..l })
            &&& g.meta is Some
            &&& w.meta is Some
            &&& w.meta.unwrap().unlock_exe is Some
            &&& w.meta.unwrap().unlock_exe == l.meta.unwrap().unlock_exe
            &&& w.phase is RestoreRemoveExe ==> l.root.contains_key(exe_of(w).name)
        },
        Phase::RestoreProbeData(_) | Phase::RestoreList(_) => {
            &&& in_report(w.phase)
            &&& w.failed.len() == 0
            &&& g.root == Map::<Seq<char>, T>::empty().insert(vault_name(), x)
            &&& g.data == Some(d)
            &&& g.meta is Some
        },
        Phase::RestoreProbeItem(_) | Phase::RestoreProbeTarget(_) | Phase::RestoreMove(_) => {
            &&& in_report(w.phase)
            &&& w.failed.len() == 0
            &&& w.names.no_duplicates()
            &&& (forall|n: Seq<char>| #[trigger] w.names.contains(n) <==> d.contains_key(n))
            &&& w.scan_at < w.names.len() < usize::MAX
            &&& g == restoring(d, x, w.names, w.scan_at as int, g.meta)
            &&& g.meta is Some
            &&& (w.phase is RestoreProbeItem || (w.attempt == 0 && w.candidate == w.names[w.scan_at as int]))
        },
        Phase::RestoreRemoveMeta(_) => in_report(w.phase) && w.failed.len() == 0
            && g == (Folder { root: d.insert(vault_name(), x), data: Some(Map::empty()), meta: g.meta }) && g.meta is Some,
        Phase::RestoreRemoveTmp(_) | Phase::DirsData(_) => in_report(w.phase)
            && g == (Folder { root: d.insert(vault_name(), x), data: Some(Map::empty()), meta: None }),
        Phase::DirsVault(_) => in_report(w.phase) && g == (Folder { root: d.insert(vault_name(), x), data: None, meta: None }),
        _ => false,
    }
}

pub open spec fn unlock_step_ok<T>(l: Folder<T>, d: Map<Seq<char>, T>, x: T, w: WorkV, g: Folder<T>, node: T, o: Outside<T>, r: (WorkV, StepV)) -> bool {
    let e = effect(g, unlock_awaits(w), node, o);
    &&& r.1 is Do ==> unlock_inv(l, d, x, r.0, e) && alike(r.1->Do_0, unlock_awaits(r.0))
    &&& r.1 is Finish ==> restored_outcome(r.1) && restored_report(r.1, d) && e == start_folder(d)
}

pub open spec fn unlock_start<T>(l: Folder<T>, d: Map<Seq<char>, T>, x: T, o: Outside<T>) -> bool {
    locked_as(l, d, x, o) && !d.contains_key(vault_name())
}

proof fn lemma_unlock_opening<T>(s: Setup, l: Folder<T>, d: Map<Seq<char>, T>, x: T, w: WorkV, g: Folder<T>, ev: Event, absolute: bool, has_parent: bool, node: T, o: Outside<T>)
    requires
        unlock_start(l, d, x, o),
        unlock_inv(l, d, x, w, g),
        answers(g, unlock_awaits(w), ev, absolute, has_parent, s.style, o),
        w.phase is UnlockSurvey || w.phase is UnlockMeta || w.phase is UnlockVerify || w.phase is OpenProbeVault
            || w.phase is OpenVault || w.phase is OpenProbeData || w.phase is OpenData || w.phase is RestoreMeta
            || w.phase is RestoreMark || w.phase is RestoreProbeData,
    ensures
        unlock_step_ok(l, d, x, w, g, node, o, next(s, w, ev, absolute, has_parent)),
{
}

proof fn lemma_unlock_closing<T>(s: Setup, l: Folder<T>, d: Map<Seq<char>, T>, x: T, w: WorkV, g: Folder<T>, ev: Event, absolute: bool, has_parent: bool, node: T, o: Outside<T>)
    requires
        unlock_start(l, d, x, o),
        unlock_inv(l, d, x, w, g),
        answers(g, unlock_awaits(w), ev, absolute, has_parent, s.style, o),
        w.phase is RestoreRemoveMeta || w.phase is RestoreRemoveTmp || w.phase is DirsData || w.phase is DirsVault,
    ensures
        unlock_step_ok(l, d, x, w, g, node, o, next(s, w, ev, absolute, has_parent)),
{
    let e = effect(g, unlock_awaits(w), node, o);
    if w.phase is DirsVault {
        assert(e.root =~= d);
    }
}

proof fn lemma_unlock_list<T>(s: Setup, l: Folder<T>, d: Map<Seq<char>, T>, x: T, w: WorkV, g: Folder<T>, ev: Event, absolute: bool, has_parent: bool, node: T, o: Outside<T>)
    requires
        unlock_start(l, d, x, o),
        unlock_inv(l, d, x, w, g),
        answers(g, unlock_awaits(w), ev, absolute, has_parent, s.style, o),
        w.phase is RestoreList,
    ensures
        unlock_step_ok(l, d, x, w, g, node, o, next(s, w, ev, absolute, has_parent)),
{
    if let Event::Listed(Ok(v)) = ev {
        let listed = texts(v@);
        let names = crate::text::sorted_texts(listed);
        lemma_sorted_listing(listed);
        assert forall|n: Seq<char>| #[trigger] names.contains(n) <==> d.contains_key(n) by {
            assert(listed.to_set().contains(n) <==> listed.contains(n));
        }
        let e = effect(g, unlock_awaits(w), node, o);
        assert(names.take(0) =~= Seq::<Seq<char>>::empty());
        assert(names.take(0).to_set() =~= Set::<Seq<char>>::empty());
        if names.len() > 0 {
            assert(e.root =~= d.restrict(names.take(0).to_set()).insert(vault_name(), x));
            assert(e.data.unwrap() =~= d.remove_keys(names.take(0).to_set()));
            assert(e == restoring(d, x, names, 0, e.meta));
        } else {
            assert(d.dom() =~= Set::<Seq<char>>::empty()) by {
                assert forall|n: Seq<char>| !d.contains_key(n) by {
                    assert(!names.contains(n));
                }
            }
            assert(d =~= Map::<Seq<char>, T>::empty());
            assert(e.root =~= d.insert(vault_name(), x));
        }
    }
}

proof fn lemma_unlock_item<T>(s: Setup, l: Folder<T>, d: Map<Seq<char>, T>, x: T, w: WorkV, g: Folder<T>, ev: Event, absolute: bool, has_parent: bool, node: T, o: Outside<T>)
    requires
        unlock_start(l, d, x, o),
        unlock_inv(l, d, x, w, g),
        answers(g, unlock_awaits(w), ev, absolute, has_parent, s.style, o),
        w.phase is RestoreProbeItem || w.phase is RestoreProbeTarget,
    ensures
        unlock_step_ok(l, d, x, w, g, node, o, next(s, w, ev, absolute, has_parent)),
{
    let ns = w.names;
    let k = w.scan_at as int;
    let n = ns[k];
    lemma_take_fresh(ns, k);
    assert(ns.contains(n));
    assert(n != vault_name());
    if w.phase is RestoreProbeItem {
        if let Event::Probed(Ok(dir)) = ev {
            let p = crate::task::usable(n, dir);
            assert(p(0));
            assert(crate::guard::first_from(0, 1000, p) == 0);
        }
    }
}

proof fn lemma_unlock_move<T>(s: Setup, l: Folder<T>, d: Map<Seq<char>, T>, x: T, w: WorkV, g: Folder<T>, ev: Event, absolute: bool, has_parent: bool, node: T, o: Outside<T>)
    requires
        unlock_start(l, d, x, o),
        unlock_inv(l, d, x, w, g),
        answers(g, unlock_awaits(w), ev, absolute, has_parent, s.style, o),
        w.phase is RestoreMove,
    ensures
        unlock_step_ok(l, d, x, w, g, node, o, next(s, w, ev, absolute, has_parent)),
{
    let ns = w.names;
    let k = w.scan_at as int;
    let n = ns[k];
    let e = effect(g, unlock_awaits(w), node, o);
    lemma_take_set(ns, k);
    lemma_take_fresh(ns, k);
    assert(ns.contains(n));
    assert(n != vault_name());
    let t1 = ns.take(k + 1).to_set();
    assert(e.root =~= d.restrict(t1).insert(vault_name(), x));
    assert(e.data.unwrap() =~= d.remove_keys(t1));
    let r = next(s, w, ev, absolute, has_parent);
    let w1 = WorkV {
        restored: (w.restored + 1) as usize,
        renamed: w.renamed,
        scan_at: (w.scan_at + 1) as usize,
        ..w
    };
    assert(ev == Event::Done(Ok::<(), IoFailure>(())));
    assert(r == crate::task::next_item(w1, RestoreFor::Report));
    if k + 1 == ns.len() {
        lemma_take_all(ns);
        assert forall|m: Seq<char>| #[trigger] ns.to_set().contains(m) <==> d.contains_key(m) by {
            assert(ns.to_set().contains(m) <==> ns.contains(m));
        }
        assert(t1 =~= d.dom());
        assert(e.root =~= d.insert(vault_name(), x));
        assert(e.data.unwrap() =~= Map::<Seq<char>, T>::empty());
        lemma_queue_count(ns, d);
        assert(unlock_inv(l, d, x, r.0, e));
    } else {
        assert(e == restoring(d, x, ns, k + 1, e.meta));
        assert(unlock_inv(l, d, x, r.0, e));
    }
}

proof fn lemma_unlock_exe<T>(s: Setup, l: Folder<T>, d: Map<Seq<char>, T>, x: T, w: WorkV, g: Folder<T>, ev: Event, absolute: bool, has_parent: bool, node: T, o: Outside<T>)
    requires
        unlock_start(l, d, x, o),
        unlock_inv(l, d, x, w, g),
        answers(g, unlock_awaits(w), ev, absolute, has_parent, s.style, o),
        w.phase is RestoreHashExe || w.phase is RestoreRemoveExe,
    ensures
        unlock_step_ok(l, d, x, w, g, node, o, next(s, w, ev, absolute, has_parent)),
{
    let e = effect(g, unlock_awaits(w), node, o);
    let n = exe_of(w).name;
    let only_vault = Map::<Seq<char>, T>::empty().insert(vault_name(), x);
    if w.phase is RestoreRemoveExe {
        assert(!only_vault.contains_key(n));
        assert(e.root =~= only_vault);
    } else if g.root.contains_key(n) {
        assert(!only_vault.contains_key(n));
        assert(g.root[n] == o.copy);
    }
}

proof fn lemma_unlock_step<T>(s: Setup, l: Folder<T>, d: Map<Seq<char>, T>, x: T, w: WorkV, g: Folder<T>, ev: Event, absolute: bool, has_parent: bool, node: T, o: Outside<T>)
    requires
        unlock_start(l, d, x, o),
        unlock_inv(l, d, x, w, g),
        answers(g, unlock_awaits(w), ev, absolute, has_parent, s.style, o),
    ensures
        unlock_step_ok(l, d, x, w, g, node, o, next(s, w, ev, absolute, has_parent)),
{
    if w.phase is RestoreList {
        lemma_unlock_list(s, l, d, x, w, g, ev, absolute, has_parent, node, o);
    } else if w.phase is RestoreProbeItem || w.phase is RestoreProbeTarget {
        lemma_unlock_item(s, l, d, x, w, g, ev, absolute, has_parent, node, o);
    } else if w.phase is RestoreHashExe || w.phase is RestoreRemoveExe {
        lemma_unlock_exe(s, l, d, x, w, g, ev, absolute, has_parent, node, o);
    } else if w.phase is RestoreMove {
        lemma_unlock_move(s, l, d, x, w, g, ev, absolute, has_parent, node, o);
    } else if w.phase is RestoreRemoveMeta || w.phase is RestoreRemoveTmp || w.phase is DirsData || w.phase is DirsVault {
        lemma_unlock_closing(s, l, d, x, w, g, ev, absolute, has_parent, node, o);
    } else {
        lemma_unlock_opening(s, l, d, x, w, g, ev, absolute, has_parent, node, o);
    }
}

proof fn lemma_unlock_run<T>(s: Setup, absolute: bool, has_parent: bool, node: T, o: Outside<T>, ws: Seq<WorkV>, evs: Seq<Event>, fs: Seq<Folder<T>>, l: Folder<T>, d: Map<Seq<char>, T>, x: T, i: int)
    requires
        ran(s, absolute, has_parent, node, o, ws, evs, fs),
        s.op == Op::Unlock || s.op == Op::Emergency,
        fresh(ws[0]),
        fs[0] == l,
        unlock_start(l, d, x, o),
        1 <= i < ws.len(),
    ensures
        unlock_inv(l, d, x, ws[i], fs[i - 1]),
        answers(fs[i - 1], unlock_awaits(ws[i]), evs[i], absolute, has_parent, s.style, o),
        fs[i] == effect(fs[i - 1], unlock_awaits(ws[i]), node, o),
    decreases i,
{
    let j = i - 1;
    assert(step_taken(s, absolute, has_parent, node, o, ws[j], evs[j], fs[j], ws[j + 1], evs[j + 1], fs[j + 1]));
    assert(j + 1 == i);
    let r = next(s, ws[j], evs[j], absolute, has_parent);
    if i > 1 {
        lemma_unlock_run(s, absolute, has_parent, node, o, ws, evs, fs, l, d, x, i - 1);
        lemma_unlock_step(s, l, d, x, ws[i - 1], fs[i - 2], evs[i - 1], absolute, has_parent, node, o);
    }
    assert(alike(r.1->Do_0, unlock_awaits(ws[i])));
    lemma_alike(fs[j], r.1->Do_0, unlock_awaits(ws[i]), evs[i], absolute, has_parent, s.style, node, o);
}

/// An unlock answered with the right password, or an emergency restore, on a
/// locked folder whose requests all succeed, ends restored: every item is
/// back in the folder under its own name with its content, and neither the
/// vault, nor the state file, nor the copy of the unlock program is left.
pub proof fn law_unlock_restores<T>(s: Setup, absolute: bool, has_parent: bool, node: T, o: Outside<T>, ws: Seq<WorkV>, evs: Seq<Event>, fs: Seq<Folder<T>>, d: Map<Seq<char>, T>, x: T)
    requires
        ran(s, absolute, has_parent, node, o, ws, evs, fs),
        s.op == Op::Unlock || s.op == Op::Emergency,
        fresh(ws[0]),
        locked_as(fs[0], d, x, o),
        !d.contains_key(vault_name()),
        ending(s, absolute, has_parent, ws, evs) is Finish,
    ensures
        restored_outcome(ending(s, absolute, has_parent, ws, evs)),
        restored_report(ending(s, absolute, has_parent, ws, evs), d),
        fs.last() == start_folder(d),
{
    let k = ws.len() - 1;
    let l = fs[0];
    if k == 0 {
        assert(ending(s, absolute, has_parent, ws, evs) is Do);
    } else {
        lemma_unlock_run(s, absolute, has_parent, node, o, ws, evs, fs, l, d, x, k);
        lemma_unlock_step(s, l, d, x, ws[k], fs[k - 1], evs[k], absolute, has_parent, node, o);
    }
}

/// Locking a folder and then unlocking it with the right password, every
/// request succeeding, gives the folder back as it was: the same names with
/// the same contents, and no vault, state file or unlock program left. Where
/// the lock leaves the unlock program, its copy has the program's content,
/// and an item of the folder named like the program is not a copy of it.
pub proof fn law_lock_then_unlock<T>(
    s: Setup, u: Setup, absolute: bool, has_parent: bool, node: T, o: Outside<T>,
    ws: Seq<WorkV>, evs: Seq<Event>, fs: Seq<Folder<T>>,
    wu: Seq<WorkV>, evu: Seq<Event>, fu: Seq<Folder<T>>,
    d0: Map<Seq<char>, T>,
)
    requires
        ran(s, absolute, has_parent, node, o, ws, evs, fs),
        lock_ready(s, d0, o),
        s.exe_src is Some ==> (o.content)(o.copy) == o.program,
        fresh(ws[0]),
        fs[0] == start_folder(d0),
        ending(s, absolute, has_parent, ws, evs) is Finish,
        ran(u, absolute, has_parent, node, o, wu, evu, fu),
        u.op == Op::Unlock,
        fresh(wu[0]),
        fu[0] == fs.last(),
        ending(u, absolute, has_parent, wu, evu) is Finish,
    ensures
        locked_outcome(ending(s, absolute, has_parent, ws, evs)),
        locked_report(ending(s, absolute, has_parent, ws, evs), d0),
        restored_outcome(ending(u, absolute, has_parent, wu, evu)),
        restored_report(ending(u, absolute, has_parent, wu, evu), d0),
        fu.last() == start_folder(d0),
{
    law_lock_locks(s, absolute, has_parent, node, o, ws, evs, fs, d0);
    lemma_names_differ();
    assert(locked_as(fu[0], d0, node, o));
    law_unlock_restores(u, absolute, has_parent, node, o, wu, evu, fu, d0, node);
}

proof fn lemma_unlock_inv_kept<T>(l: Folder<T>, d: Map<Seq<char>, T>, x: T, o: Outside<T>, w: WorkV, g: Folder<T>)
    requires
        unlock_start(l, d, x, o),
        unlock_inv(l, d, x, w, g),
    ensures
        kept(d, g),
{
    if w.phase is RestoreProbeItem || w.phase is RestoreProbeTarget || w.phase is RestoreMove {
        let t = w.names.take(w.scan_at as int).to_set();
        assert forall|n: Seq<char>| #[trigger] d.contains_key(n) implies (g.root.contains_key(n) && g.root[n] == d[n]) || (
        g.data is Some && g.data.unwrap().contains_key(n) && g.data.unwrap()[n] == d[n]) by {
            if t.contains(n) {
                assert(g.root.contains_key(n));
            }
        }
    }
}

/// An unlock answered with the right password, or an emergency restore, on a
/// locked folder, whose requests succeed until it is cut off at whatever
/// point (no request after it takes effect), leaves every item whole under
/// its own name: back in the folder, or still in the vault.
pub proof fn law_unlock_cut<T>(s: Setup, absolute: bool, has_parent: bool, node: T, o: Outside<T>, ws: Seq<WorkV>, evs: Seq<Event>, fs: Seq<Folder<T>>, d: Map<Seq<char>, T>, x: T, i: int)
    requires
        ran(s, absolute, has_parent, node, o, ws, evs, fs),
        s.op == Op::Unlock || s.op == Op::Emergency,
        fresh(ws[0]),
        locked_as(fs[0], d, x, o),
        !d.contains_key(vault_name()),
        0 <= i < fs.len(),
    ensures
        kept(d, fs[i]),
{
    let l = fs[0];
    if i > 0 {
        lemma_unlock_run(s, absolute, has_parent, node, o, ws, evs, fs, l, d, x, i);
        lemma_unlock_step(s, l, d, x, ws[i], fs[i - 1], evs[i], absolute, has_parent, node, o);
        let r = next(s, ws[i], evs[i], absolute, has_parent);
        if r.1 is Do {
            lemma_unlock_inv_kept(l, d, x, o, r.0, fs[i]);
        }
    }
}

// ---------- a lock cut off, and resuming it ----------

/// The folder with the vault made and nothing else yet.
pub open spec fn stale_folder<T>(d0: Map<Seq<char>, T>, node: T) -> Folder<T> {
    Folder { root: d0.insert(vault_name(), node), data: None, meta: None }
}

/// The folder with the items `k` in the vault and the others still in it.
pub open spec fn part<T>(d0: Map<Seq<char>, T>, node: T, k: Set<Seq<char>>, meta: Option<MetaV>) -> Folder<T> {
    Folder { root: d0.remove_keys(k).insert(vault_name(), node), data: Some(d0.restrict(k)), meta }
}

/// The vault is made and holds some of the items (none while its data
/// directory is missing); the folder holds the others.
pub open spec fn split_folder<T>(d0: Map<Seq<char>, T>, node: T, g: Folder<T>) -> bool {
    match g.data {
        None => g.root == d0.insert(vault_name(), node),
        Some(dd) => dd.dom().subset_of(d0.dom()) && g == part(d0, node, dd.dom(), g.meta),
    }
}

/// Every item of `d` is whole under its own name: in the folder, or in the vault.
pub open spec fn kept<T>(d: Map<Seq<char>, T>, g: Folder<T>) -> bool {
    forall|n: Seq<char>|
        #[trigger] d.contains_key(n) ==> (g.root.contains_key(n) && g.root[n] == d[n]) || (g.data is Some
            && g.data.unwrap().contains_key(n) && g.data.unwrap()[n] == d[n])
}

proof fn lemma_cut_kept<T>(s: Setup, d0: Map<Seq<char>, T>, node: T, o: Outside<T>, c: Folder<T>)
    requires
        lock_ready(s, d0, o),
        cut_lock(s, d0, node, o, c),
    ensures
        kept(d0, c),
{
}

/// Every item in the vault, and the copy of the unlock program placed, with
/// the state file still saying the lock is under way.
pub open spec fn copied<T>(s: Setup, d0: Map<Seq<char>, T>, node: T, o: Outside<T>) -> Folder<T> {
    Folder { root: locked_root(s, node, o), data: Some(d0), meta: Some(lock_meta(s, o)) }
}

/// What a lock may have left of the folder `d0` when it was cut off.
pub open spec fn cut_lock<T>(s: Setup, d0: Map<Seq<char>, T>, node: T, o: Outside<T>, c: Folder<T>) -> bool {
    ||| c == start_folder(d0)
    ||| c == stale_folder(d0, node)
    ||| c.meta == Some(lock_meta(s, o)) && split_folder(d0, node, c)
    ||| s.exe_src is Some && c == copied(s, d0, node, o)
    ||| c == locked_folder(s, d0, node, o)
    ||| locked_as(c, d0, node, o)
}

/// A lock that can be recovered from: it is ready, and the copy of the
/// unlock program it leaves, where it leaves one, has the program's content.
pub open spec fn recoverable<T>(s: Setup, d0: Map<Seq<char>, T>, o: Outside<T>) -> bool {
    lock_ready(s, d0, o) && (s.exe_src is Some ==> (o.content)(o.copy) == o.program)
}

proof fn lemma_lock_inv_cut<T>(s: Setup, d0: Map<Seq<char>, T>, node: T, o: Outside<T>, w: WorkV, g: Folder<T>)
    requires
        lock_ready(s, d0, o),
        lock_inv(s, d0, node, o, w, g),
    ensures
        cut_lock(s, d0, node, o, g),
{
    let e = Set::<Seq<char>>::empty();
    if w.phase is FinishList || w.phase is FinishHashItem {
        assert(d0.remove_keys(e) =~= d0);
        assert(d0.restrict(e) =~= Map::<Seq<char>, T>::empty());
        assert(g == part(d0, node, g.data.unwrap().dom(), g.meta));
    } else if w.phase is FinishMove {
        let t = w.pending.take(w.move_at as int).to_set();
        assert forall|x: Seq<char>| t.contains(x) implies d0.contains_key(x) by {
            assert(w.pending.take(w.move_at as int).contains(x));
            let j = choose|j: int| 0 <= j < w.move_at && w.pending.take(w.move_at as int)[j] == x;
            assert(w.pending.contains(w.pending[j]));
        }
        assert(d0.restrict(t).dom() =~= t);
    } else if w.phase is FinishProbeExe || w.phase is FinishCopyExe || (w.phase is FinishWrite && s.exe_src is None) {
        assert(d0.remove_keys(d0.dom()) =~= Map::<Seq<char>, T>::empty());
        assert(d0.restrict(d0.dom()) =~= d0);
        assert(g == part(d0, node, g.data.unwrap().dom(), g.meta));
    }
}

/// A lock whose requests succeed until it is cut off, at whatever point (no
/// request after it takes effect), leaves every item whole under its own
/// name: still in the folder, or in the vault; and what it leaves is one of
/// the states that a resume settles.
pub proof fn law_lock_cut<T>(s: Setup, absolute: bool, has_parent: bool, node: T, o: Outside<T>, ws: Seq<WorkV>, evs: Seq<Event>, fs: Seq<Folder<T>>, d0: Map<Seq<char>, T>, i: int)
    requires
        ran(s, absolute, has_parent, node, o, ws, evs, fs),
        lock_ready(s, d0, o),
        fresh(ws[0]),
        fs[0] == start_folder(d0),
        0 <= i < fs.len(),
    ensures
        cut_lock(s, d0, node, o, fs[i]),
        kept(d0, fs[i]),
{
    lemma_lock_cut_state(s, absolute, has_parent, node, o, ws, evs, fs, d0, i);
    lemma_cut_kept(s, d0, node, o, fs[i]);
}

proof fn lemma_lock_cut_state<T>(s: Setup, absolute: bool, has_parent: bool, node: T, o: Outside<T>, ws: Seq<WorkV>, evs: Seq<Event>, fs: Seq<Folder<T>>, d0: Map<Seq<char>, T>, i: int)
    requires
        ran(s, absolute, has_parent, node, o, ws, evs, fs),
        lock_ready(s, d0, o),
        fresh(ws[0]),
        fs[0] == start_folder(d0),
        0 <= i < fs.len(),
    ensures
        cut_lock(s, d0, node, o, fs[i]),
{
    if i > 0 {
        lemma_lock_run(s, absolute, has_parent, node, o, ws, evs, fs, d0, i);
        lemma_lock_step(s, d0, node, o, ws[i], fs[i - 1], evs[i], absolute, has_parent);
        let r = next(s, ws[i], evs[i], absolute, has_parent);
        if r.1 is Do {
            lemma_lock_inv_cut(s, d0, node, o, r.0, fs[i]);
        }
    }
}

/// The request a resuming task in state `w` waits on the answer to.
pub open spec fn resume_awaits(w: WorkV) -> ActionV {
    match w.phase {
        Phase::ResumeSurvey | Phase::ResumeResurvey => ActionV::Survey,
        Phase::ResumeMeta => ActionV::LoadMeta,
        Phase::CleanupTmp(_) => ActionV::RemoveFile(LocV::MetaTmp),
        Phase::DirsData(_) => ActionV::RemoveDir(LocV::Data),
        Phase::DirsVault(_) => ActionV::RemoveDir(LocV::Vault),
        Phase::OpenProbeVault(_) => ActionV::Probe(LocV::Vault),
        Phase::OpenVault(_) => ActionV::Unprotect(LocV::Vault),
        Phase::OpenProbeData(_) => ActionV::Probe(LocV::Data),
        Phase::OpenData(_) => ActionV::Unprotect(LocV::Data),
        _ => lock_awaits(w),
    }
}

/// The state file a resume works from records the unlock program the lock recorded.
pub open spec fn resumed_meta<T>(s: Setup, o: Outside<T>, m: Option<MetaV>) -> bool {
    m is Some && m.unwrap().unlock_exe == exe_record(s, o)
}

pub open spec fn vault_only<T>(node: T) -> Map<Seq<char>, T> {
    Map::empty().insert(vault_name(), node)
}

/// Before a resume moves anything: the folder is split between the folder
/// and the vault, or everything is in the vault and the copy placed.
pub open spec fn pre_move<T>(s: Setup, d0: Map<Seq<char>, T>, node: T, o: Outside<T>, g: Folder<T>) -> bool {
    split_folder(d0, node, g) || (s.exe_src is Some && g.root == locked_root(s, node, o) && g.data == Some(d0))
}

/// The items in the vault while a resume moves in the queued items `p`,
/// the first `k` of them moved.
pub open spec fn resume_moved<T>(d0: Map<Seq<char>, T>, p: Seq<Seq<char>>, k: int) -> Set<Seq<char>> {
    d0.dom().difference(p.to_set()).union(p.take(k).to_set())
}

/// What holds of a resuming task's state `w` and the folder `g` before its
/// awaited request takes effect; `c` is the folder it started from.
pub open spec fn resume_inv<T>(s: Setup, d0: Map<Seq<char>, T>, node: T, o: Outside<T>, c: Folder<T>, w: WorkV, g: Folder<T>) -> bool {
    match w.phase {
        Phase::ResumeSurvey => g == c && cut_lock(s, d0, node, o, c),
        Phase::CleanupTmp(f) => f == CleanupFor::ResumeStale && g == stale_folder(d0, node),
        Phase::DirsData(t) | Phase::DirsVault(t) => t == DirsFor::Cleanup(CleanupFor::ResumeStale) && w.notes.len() == 0
            && g == stale_folder(d0, node),
        Phase::ResumeResurvey => g == start_folder(d0),
        Phase::ResumeMeta => g.meta == Some(lock_meta(s, o)) && pre_move(s, d0, node, o, g),
        Phase::OpenProbeVault(t) | Phase::OpenVault(t) | Phase::OpenProbeData(t) | Phase::OpenData(t) =>
            t == OpenFor::ResumeLocking && g.meta == Some(lock_meta(s, o)) && pre_move(s, d0, node, o, g) && resumed_meta(s, o, w.meta),
        Phase::FinishProbeData(f) => f == FinishFor::Resume && g.meta == Some(lock_meta(s, o)) && pre_move(s, d0, node, o, g)
            && resumed_meta(s, o, w.meta),
        Phase::FinishCreateData(f) => f == FinishFor::Resume && g.meta == Some(lock_meta(s, o)) && g.data is None && split_folder(d0, node, g)
            && resumed_meta(s, o, w.meta),
        Phase::FinishList(f) => f == FinishFor::Resume && g.meta == Some(lock_meta(s, o)) && g.data is Some && pre_move(s, d0, node, o, g)
            && resumed_meta(s, o, w.meta),
        Phase::FinishHashItem(f) => {
            &&& f == FinishFor::Resume
            &&& g.meta == Some(lock_meta(s, o))
            &&& g.data is Some
            &&& pre_move(s, d0, node, o, g)
            &&& resumed_meta(s, o, w.meta)
            &&& s.exe_src is Some
            &&& w.names.no_duplicates()
            &&& w.names.to_set() == g.root.dom()
            &&& w.scan_at < w.names.len() < usize::MAX
            &&& w.names[w.scan_at as int] == UNLOCK_EXE_NAME@
            &&& w.pending == others(w.names.take(w.scan_at as int))
        },
        Phase::FinishMove(f) => {
            &&& f == FinishFor::Resume
            &&& g.meta == Some(lock_meta(s, o))
            &&& resumed_meta(s, o, w.meta)
            &&& w.pending.no_duplicates()
            &&& (forall|x: Seq<char>| #[trigger] w.pending.contains(x) ==> d0.contains_key(x))
            &&& w.move_at < w.pending.len() < usize::MAX
            &&& g == part(d0, node, resume_moved(d0, w.pending, w.move_at as int), g.meta)
        },
        Phase::FinishProbeExe(f) => {
            &&& f == FinishFor::Resume
            &&& s.exe_src is Some
            &&& g.data == Some(d0)
            &&& g.meta == Some(lock_meta(s, o))
            &&& resumed_meta(s, o, w.meta)
            &&& (g.root == vault_only(node) || g.root == locked_root(s, node, o))
        },
        Phase::FinishCopyExe(f) => {
            &&& f == FinishFor::Resume
            &&& s.exe_src is Some
            &&& g.data == Some(d0)
            &&& g.meta == Some(lock_meta(s, o))
            &&& resumed_meta(s, o, w.meta)
            &&& g.root == vault_only(node)
        },
        Phase::FinishWrite(f) => {
            &&& f == FinishFor::Resume
            &&& g.data == Some(d0)
            &&& g.meta == Some(lock_meta(s, o))
            &&& resumed_meta(s, o, w.meta)
            &&& w.meta.unwrap().state == LockState::Locked
            &&& (g.root == vault_only(node) || (s.exe_src is Some && g.root == locked_root(s, node, o)))
        },
        Phase::ProtectHide(t) | Phase::ProtectData(t) | Phase::ProtectVault(t) =>
            (t == ProtectFor::Finish(FinishFor::Resume) || t == ProtectFor::ResumeLocked) && locked_as(g, d0, node, o),
        _ => false,
    }
}

/// How a resume ends: unlocked with the folder as it was, or locked.
pub open spec fn resume_outcome<T>(st: StepV, e: Folder<T>, d0: Map<Seq<char>, T>, node: T, o: Outside<T>) -> bool {
    ||| st == StepV::Finish(Ok(OutcomeV::Now(Status::Unlocked))) && e == start_folder(d0)
    ||| st == StepV::Finish(Ok(OutcomeV::Now(Status::Locked))) && locked_as(e, d0, node, o)
}

pub open spec fn resume_step_ok<T>(s: Setup, d0: Map<Seq<char>, T>, node: T, o: Outside<T>, c: Folder<T>, w: WorkV, g: Folder<T>, r: (WorkV, StepV)) -> bool {
    let e = effect(g, resume_awaits(w), node, o);
    &&& r.1 is Do ==> resume_inv(s, d0, node, o, c, r.0, e) && alike(r.1->Do_0, resume_awaits(r.0))
    &&& r.1 is Finish ==> resume_outcome(r.1, e, d0, node, o)
}

proof fn lemma_resume_begin<T>(s: Setup, u: Setup, d0: Map<Seq<char>, T>, node: T, o: Outside<T>, c: Folder<T>, w: WorkV, g: Folder<T>, ev: Event, absolute: bool, has_parent: bool)
    requires
        recoverable(s, d0, o),
        resume_inv(s, d0, node, o, c, w, g),
        answers(g, resume_awaits(w), ev, absolute, has_parent, u.style, o),
        w.phase is ResumeSurvey || w.phase is ResumeResurvey || w.phase is ResumeMeta || w.phase is CleanupTmp
            || w.phase is DirsData || w.phase is DirsVault,
    ensures
        resume_step_ok(s, d0, node, o, c, w, g, next(u, w, ev, absolute, has_parent)),
{
    lemma_names_differ();
    let e = effect(g, resume_awaits(w), node, o);
    if w.phase is DirsVault {
        assert(e.root =~= d0);
    }
    if w.phase is ResumeSurvey {
        assert(locked_root(s, node, o).contains_key(vault_name()));
        if g.meta == Some(lock_meta(s, o)) && g.data is Some {
            assert(g.root.contains_key(vault_name()));
        }
    }
}

proof fn lemma_resume_open<T>(s: Setup, u: Setup, d0: Map<Seq<char>, T>, node: T, o: Outside<T>, c: Folder<T>, w: WorkV, g: Folder<T>, ev: Event, absolute: bool, has_parent: bool)
    requires
        recoverable(s, d0, o),
        resume_inv(s, d0, node, o, c, w, g),
        answers(g, resume_awaits(w), ev, absolute, has_parent, u.style, o),
        w.phase is OpenProbeVault || w.phase is OpenVault || w.phase is OpenProbeData || w.phase is OpenData
            || w.phase is FinishProbeData || w.phase is FinishCreateData || w.phase is FinishWrite || w.phase is ProtectHide
            || w.phase is ProtectData || w.phase is ProtectVault || w.phase is FinishProbeExe || w.phase is FinishCopyExe,
    ensures
        resume_step_ok(s, d0, node, o, c, w, g, next(u, w, ev, absolute, has_parent)),
{
    lemma_names_differ();
    let e = effect(g, resume_awaits(w), node, o);
    if w.phase is FinishCreateData {
        let k = Set::<Seq<char>>::empty();
        assert(d0.remove_keys(k) =~= d0);
        assert(d0.restrict(k) =~= Map::<Seq<char>, T>::empty());
        assert(e == part(d0, node, e.data.unwrap().dom(), e.meta));
    }
    if w.phase is OpenProbeVault {
        assert(locked_root(s, node, o).contains_key(vault_name()));
        assert(g.root.contains_key(vault_name()));
    }
    if w.phase is FinishProbeExe {
        assert(!vault_only(node).contains_key(UNLOCK_EXE_NAME@));
        assert(locked_root(s, node, o).contains_key(UNLOCK_EXE_NAME@));
    }
    if w.phase is FinishCopyExe {
        assert(e.root =~= locked_root(s, node, o));
    }
}

/// Once the listing is gone through by a resume, the items still in the
/// folder are queued and the task moves on.
proof fn lemma_resume_queued<T>(s: Setup, u: Setup, d0: Map<Seq<char>, T>, node: T, o: Outside<T>, c: Folder<T>, w: WorkV, g: Folder<T>)
    requires
        recoverable(s, d0, o),
        g.meta == Some(lock_meta(s, o)),
        g.data is Some,
        pre_move(s, d0, node, o, g),
        resumed_meta(s, o, w.meta),
        w.pending.no_duplicates(),
        w.pending.len() < usize::MAX,
        forall|x: Seq<char>| #[trigger] w.pending.contains(x) <==> (d0.contains_key(x) && !g.data.unwrap().contains_key(x)),
    ensures
        ({
            let r = crate::task::begin_moves(u, w, FinishFor::Resume);
            r.1 is Do && resume_inv(s, d0, node, o, c, r.0, g) && alike(r.1->Do_0, resume_awaits(r.0))
        }),
{
    let p = w.pending;
    let k = g.data.unwrap().dom();
    assert(p.take(0) =~= Seq::<Seq<char>>::empty());
    if p.len() > 0 {
        assert(p.contains(p[0]));
        let m = resume_moved(d0, p, 0);
        assert(m =~= k) by {
            assert forall|x: Seq<char>| m.contains(x) <==> k.contains(x) by {
                assert(p.to_set().contains(x) <==> p.contains(x));
            }
        }
    } else {
        assert forall|x: Seq<char>| d0.contains_key(x) implies k.contains(x) by {
            assert(!p.contains(x));
        }
        if split_folder(d0, node, g) {
            assert(k =~= d0.dom());
            assert(g.root =~= vault_only(node));
            assert(g.data.unwrap() =~= d0);
        }
    }
}

proof fn lemma_resume_list<T>(s: Setup, u: Setup, d0: Map<Seq<char>, T>, node: T, o: Outside<T>, c: Folder<T>, w: WorkV, g: Folder<T>, ev: Event, absolute: bool, has_parent: bool)
    requires
        recoverable(s, d0, o),
        resume_inv(s, d0, node, o, c, w, g),
        answers(g, resume_awaits(w), ev, absolute, has_parent, u.style, o),
        w.phase is FinishList,
    ensures
        resume_step_ok(s, d0, node, o, c, w, g, next(u, w, ev, absolute, has_parent)),
{
    lemma_names_differ();
    if let Event::Listed(Ok(v)) = ev {
        let k = g.data.unwrap().dom();
        let listed = texts(v@);
        let names = crate::text::sorted_texts(listed);
        lemma_sorted_listing(listed);
        lemma_others(names);
        let w1 = WorkV { names, scan_at: 0, pending: Seq::empty(), ..w };
        assert forall|x: Seq<char>| #[trigger] names.contains(x) <==> g.root.contains_key(x) by {
            assert(listed.to_set().contains(x) <==> listed.contains(x));
        }
        assert(names.subrange(0, names.len() as int) =~= names);
        assert(locked_root(s, node, o).contains_key(UNLOCK_EXE_NAME@) <== s.exe_src is Some);
        if s.exe_src is Some && names.contains(UNLOCK_EXE_NAME@) {
            let j = choose|j: int| 0 <= j < names.len() && names[j] == UNLOCK_EXE_NAME@;
            assert forall|i: int| 0 <= i < j implies !crate::task::exe_named(w1.meta, #[trigger] names[i]) by {}
            lemma_scan_hit(u, w1, FinishFor::Resume, j);
            assert(names.subrange(0, j) =~= names.take(j));
            assert(Seq::<Seq<char>>::empty() + others(names.take(j)) =~= others(names.take(j)));
            assert(names.to_set() =~= g.root.dom()) by {
                assert forall|x: Seq<char>| names.to_set().contains(x) <==> names.contains(x) by {}
            }
        } else {
            assert forall|i: int| 0 <= i < names.len() implies !crate::task::exe_named(w1.meta, #[trigger] names[i]) by {
                assert(names.contains(names[i]));
            }
            lemma_scan_plain(u, w1, FinishFor::Resume);
            let p = others(names);
            let w3 = WorkV { pending: Seq::empty() + p, scan_at: names.len() as usize, ..w1 };
            assert(Seq::<Seq<char>>::empty() + p =~= p);
            assert(split_folder(d0, node, g));
            assert forall|x: Seq<char>| #[trigger] p.contains(x) <==> (d0.contains_key(x) && !g.data.unwrap().contains_key(x)) by {}
            lemma_resume_queued(s, u, d0, node, o, c, w3, g);
        }
    }
}

proof fn lemma_resume_hash_item<T>(s: Setup, u: Setup, d0: Map<Seq<char>, T>, node: T, o: Outside<T>, c: Folder<T>, w: WorkV, g: Folder<T>, ev: Event, absolute: bool, has_parent: bool)
    requires
        recoverable(s, d0, o),
        resume_inv(s, d0, node, o, c, w, g),
        answers(g, resume_awaits(w), ev, absolute, has_parent, u.style, o),
        w.phase is FinishHashItem,
    ensures
        resume_step_ok(s, d0, node, o, c, w, g, next(u, w, ev, absolute, has_parent)),
{
    lemma_names_differ();
    let names = w.names;
    let j = w.scan_at as int;
    let un = UNLOCK_EXE_NAME@;
    assert(names.contains(un));
    assert(names.to_set().contains(un));
    assert(g.root.contains_key(un));
    let rest = names.subrange(j + 1, names.len() as int);
    assert(names =~= names.take(j) + (seq![un] + rest));
    lemma_others_append(names.take(j), seq![un] + rest);
    assert((seq![un] + rest).drop_first() =~= rest);
    assert(others(seq![un] + rest) == seq![un] + others(rest));
    assert forall|x: Seq<char>| #[trigger] names.contains(x) <==> g.root.contains_key(x) by {
        assert(names.to_set().contains(x) <==> names.contains(x));
    }
    lemma_others(names);
    if split_folder(d0, node, g) {
        assert(g.root[un] == d0[un]);
        let w2 = WorkV { pending: w.pending.push(un), scan_at: (w.scan_at + 1) as usize, ..w };
        assert(next(u, w, ev, absolute, has_parent) == crate::task::scan(u, w2, FinishFor::Resume));
        assert forall|i: int| w2.scan_at <= i < names.len() implies !crate::task::exe_named(w2.meta, #[trigger] names[i]) by {}
        lemma_scan_plain(u, w2, FinishFor::Resume);
        assert(w.pending.push(un) + others(rest) =~= others(names));
        let w3 = WorkV { pending: w2.pending + others(rest), scan_at: names.len() as usize, ..w2 };
        assert forall|x: Seq<char>| #[trigger] w3.pending.contains(x) <==> (d0.contains_key(x) && !g.data.unwrap().contains_key(x)) by {}
        lemma_resume_queued(s, u, d0, node, o, c, w3, g);
    } else {
        assert(g.root[un] == o.copy);
        let w2 = WorkV { pending: w.pending, scan_at: (w.scan_at + 1) as usize, ..w };
        assert(next(u, w, ev, absolute, has_parent) == crate::task::scan(u, w2, FinishFor::Resume));
        assert forall|i: int| w2.scan_at <= i < names.len() implies !crate::task::exe_named(w2.meta, #[trigger] names[i]) by {}
        lemma_scan_plain(u, w2, FinishFor::Resume);
        let p = w.pending + others(rest);
        let a = others(names.take(j));
        let b = others(rest);
        let on = others(names);
        assert(on == a + (seq![un] + b));
        assert(on[a.len() as int] == un);
        assert forall|x: Seq<char>| on.contains(x) implies x == un by {
            assert(g.root.contains_key(x));
        }
        if a.len() > 0 {
            assert(on[0] == a[0]);
            assert(on.contains(on[0]));
        }
        if b.len() > 0 {
            assert(on[a.len() as int + 1] == b[0]);
            assert(on.contains(on[a.len() as int + 1]));
        }
        assert(p =~= Seq::<Seq<char>>::empty());
        let w3 = WorkV { pending: p, scan_at: names.len() as usize, ..w2 };
        lemma_resume_queued(s, u, d0, node, o, c, w3, g);
    }
}

proof fn lemma_resume_move<T>(s: Setup, u: Setup, d0: Map<Seq<char>, T>, node: T, o: Outside<T>, c: Folder<T>, w: WorkV, g: Folder<T>, ev: Event, absolute: bool, has_parent: bool)
    requires
        recoverable(s, d0, o),
        resume_inv(s, d0, node, o, c, w, g),
        answers(g, resume_awaits(w), ev, absolute, has_parent, u.style, o),
        w.phase is FinishMove,
    ensures
        resume_step_ok(s, d0, node, o, c, w, g, next(u, w, ev, absolute, has_parent)),
{
    let p = w.pending;
    let k = w.move_at as int;
    let n = p[k];
    let e = effect(g, resume_awaits(w), node, o);
    lemma_take_set(p, k);
    lemma_take_fresh(p, k);
    assert(p.contains(n));
    assert(p.to_set().contains(n));
    let m0 = resume_moved(d0, p, k);
    let m1 = resume_moved(d0, p, k + 1);
    assert(m1 =~= m0.insert(n));
    assert(!m0.contains(n));
    assert(g.root[n] == d0[n]);
    assert(e.root =~= d0.remove_keys(m1).insert(vault_name(), node));
    assert(e.data.unwrap() =~= d0.restrict(m1));
    let r = next(u, w, ev, absolute, has_parent);
    let w1 = WorkV { moved: (w.moved + 1) as usize, move_at: (w.move_at + 1) as usize, ..w };
    assert(ev == Event::Done(Ok::<(), IoFailure>(())));
    assert(r == crate::task::next_move(u, w1, FinishFor::Resume));
    if k + 1 == p.len() {
        lemma_take_all(p);
        assert(m1 =~= d0.dom()) by {
            assert forall|x: Seq<char>| p.to_set().contains(x) implies d0.contains_key(x) by {
                assert(p.contains(x));
            }
        }
        assert(e.root =~= vault_only(node));
        assert(e.data.unwrap() =~= d0);
        assert(resume_inv(s, d0, node, o, c, r.0, e));
    } else {
        assert(e == part(d0, node, m1, e.meta));
        assert(resume_inv(s, d0, node, o, c, r.0, e));
    }
}

proof fn lemma_resume_step<T>(s: Setup, u: Setup, d0: Map<Seq<char>, T>, node: T, o: Outside<T>, c: Folder<T>, w: WorkV, g: Folder<T>, ev: Event, absolute: bool, has_parent: bool)
    requires
        recoverable(s, d0, o),
        resume_inv(s, d0, node, o, c, w, g),
        answers(g, resume_awaits(w), ev, absolute, has_parent, u.style, o),
    ensures
        resume_step_ok(s, d0, node, o, c, w, g, next(u, w, ev, absolute, has_parent)),
{
    if w.phase is FinishList {
        lemma_resume_list(s, u, d0, node, o, c, w, g, ev, absolute, has_parent);
    } else if w.phase is FinishHashItem {
        lemma_resume_hash_item(s, u, d0, node, o, c, w, g, ev, absolute, has_parent);
    } else if w.phase is FinishMove {
        lemma_resume_move(s, u, d0, node, o, c, w, g, ev, absolute, has_parent);
    } else if w.phase is ResumeSurvey || w.phase is ResumeResurvey || w.phase is ResumeMeta || w.phase is CleanupTmp
        || w.phase is DirsData || w.phase is DirsVault {
        lemma_resume_begin(s, u, d0, node, o, c, w, g, ev, absolute, has_parent);
    } else {
        lemma_resume_open(s, u, d0, node, o, c, w, g, ev, absolute, has_parent);
    }
}

proof fn lemma_resume_run<T>(s: Setup, u: Setup, absolute: bool, has_parent: bool, node: T, o: Outside<T>, wr: Seq<WorkV>, evr: Seq<Event>, fr: Seq<Folder<T>>, d0: Map<Seq<char>, T>, c: Folder<T>, i: int)
    requires
        ran(u, absolute, has_parent, node, o, wr, evr, fr),
        u.op == Op::Resume,
        fresh(wr[0]),
        fr[0] == c,
        recoverable(s, d0, o),
        cut_lock(s, d0, node, o, c),
        1 <= i < wr.len(),
    ensures
        resume_inv(s, d0, node, o, c, wr[i], fr[i - 1]),
        answers(fr[i - 1], resume_awaits(wr[i]), evr[i], absolute, has_parent, u.style, o),
        fr[i] == effect(fr[i - 1], resume_awaits(wr[i]), node, o),
    decreases i,
{
    let j = i - 1;
    assert(step_taken(u, absolute, has_parent, node, o, wr[j], evr[j], fr[j], wr[j + 1], evr[j + 1], fr[j + 1]));
    assert(j + 1 == i);
    let r = next(u, wr[j], evr[j], absolute, has_parent);
    if i > 1 {
        lemma_resume_run(s, u, absolute, has_parent, node, o, wr, evr, fr, d0, c, i - 1);
        lemma_resume_step(s, u, d0, node, o, c, wr[i - 1], fr[i - 2], evr[i - 1], absolute, has_parent);
    }
    assert(alike(r.1->Do_0, resume_awaits(wr[i])));
    lemma_alike(fr[j], r.1->Do_0, resume_awaits(wr[i]), evr[i], absolute, has_parent, u.style, node, o);
}

/// A resume whose requests all succeed, on whatever a lock left when it was
/// cut off, ends either unlocked, with the folder exactly as it was before
/// the lock, or locked, with every item in the vault under its own name and
/// a state file that says locked.
pub proof fn law_resume_settles_cut<T>(s: Setup, u: Setup, absolute: bool, has_parent: bool, node: T, o: Outside<T>, wr: Seq<WorkV>, evr: Seq<Event>, fr: Seq<Folder<T>>, d0: Map<Seq<char>, T>)
    requires
        recoverable(s, d0, o),
        cut_lock(s, d0, node, o, fr[0]),
        ran(u, absolute, has_parent, node, o, wr, evr, fr),
        u.op == Op::Resume,
        fresh(wr[0]),
        ending(u, absolute, has_parent, wr, evr) is Finish,
    ensures
        resume_outcome(ending(u, absolute, has_parent, wr, evr), fr.last(), d0, node, o),
{
    let k = wr.len() - 1;
    if k == 0 {
        assert(ending(u, absolute, has_parent, wr, evr) is Do);
    } else {
        lemma_resume_run(s, u, absolute, has_parent, node, o, wr, evr, fr, d0, fr[0], k);
        lemma_resume_step(s, u, d0, node, o, fr[0], wr[k], fr[k - 1], evr[k], absolute, has_parent);
    }
}

proof fn lemma_resume_inv_cut<T>(s: Setup, d0: Map<Seq<char>, T>, node: T, o: Outside<T>, c: Folder<T>, w: WorkV, g: Folder<T>)
    requires
        recoverable(s, d0, o),
        resume_inv(s, d0, node, o, c, w, g),
    ensures
        cut_lock(s, d0, node, o, g),
{
    if w.phase is FinishMove {
        let k = resume_moved(d0, w.pending, w.move_at as int);
        assert forall|x: Seq<char>| k.contains(x) implies d0.contains_key(x) by {
            if w.pending.take(w.move_at as int).to_set().contains(x) {
                assert(w.pending.take(w.move_at as int).contains(x));
                let j = choose|j: int| 0 <= j < w.move_at && w.pending.take(w.move_at as int)[j] == x;
                assert(w.pending.contains(w.pending[j]));
            }
        }
        assert(d0.restrict(k).dom() =~= k);
    } else if (w.phase is FinishProbeExe || w.phase is FinishCopyExe || w.phase is FinishWrite) && g.root == vault_only(node) {
        assert(d0.remove_keys(d0.dom()) =~= Map::<Seq<char>, T>::empty());
        assert(d0.restrict(d0.dom()) =~= d0);
        assert(g == part(d0, node, g.data.unwrap().dom(), g.meta));
    }
}

/// A resume whose requests succeed until it is cut off, at whatever point,
/// on whatever a lock (or an earlier resume) left when it was cut off,
/// leaves every item whole under its own name, and leaves one of the states
/// that a resume settles: so resumes cut off again and again, then one that
/// runs to its end, settle the folder as `law_resume_settles_cut` says.
pub proof fn law_resume_cut<T>(s: Setup, u: Setup, absolute: bool, has_parent: bool, node: T, o: Outside<T>, wr: Seq<WorkV>, evr: Seq<Event>, fr: Seq<Folder<T>>, d0: Map<Seq<char>, T>, i: int)
    requires
        recoverable(s, d0, o),
        cut_lock(s, d0, node, o, fr[0]),
        ran(u, absolute, has_parent, node, o, wr, evr, fr),
        u.op == Op::Resume,
        fresh(wr[0]),
        0 <= i < fr.len(),
    ensures
        cut_lock(s, d0, node, o, fr[i]),
        kept(d0, fr[i]),
{
    if i > 0 {
        lemma_resume_run(s, u, absolute, has_parent, node, o, wr, evr, fr, d0, fr[0], i);
        lemma_resume_step(s, u, d0, node, o, fr[0], wr[i], fr[i - 1], evr[i], absolute, has_parent);
        let r = next(u, wr[i], evr[i], absolute, has_parent);
        if r.1 is Do {
            lemma_resume_inv_cut(s, d0, node, o, fr[0], r.0, fr[i]);
        }
    }
    lemma_cut_kept(s, d0, node, o, fr[i]);
}

/// A lock cut off at any point, then a resume, then, where the resume left
/// the folder locked, an unlock with the right password or an emergency
/// restore, every request of the last two succeeding, gives the folder back
/// exactly as it was before the lock.
pub proof fn law_recovery<T>(
    s: Setup, u: Setup, v: Setup, absolute: bool, has_parent: bool, node: T, o: Outside<T>,
    ws: Seq<WorkV>, evs: Seq<Event>, fs: Seq<Folder<T>>, i: int,
    wr: Seq<WorkV>, evr: Seq<Event>, fr: Seq<Folder<T>>,
    wv: Seq<WorkV>, evv: Seq<Event>, fv: Seq<Folder<T>>,
    d0: Map<Seq<char>, T>,
)
    requires
        ran(s, absolute, has_parent, node, o, ws, evs, fs),
        recoverable(s, d0, o),
        fresh(ws[0]),
        fs[0] == start_folder(d0),
        0 <= i < fs.len(),
        ran(u, absolute, has_parent, node, o, wr, evr, fr),
        u.op == Op::Resume,
        fresh(wr[0]),
        fr[0] == fs[i],
        ending(u, absolute, has_parent, wr, evr) is Finish,
        ending(u, absolute, has_parent, wr, evr) == StepV::Finish(Ok(OutcomeV::Now(Status::Locked))) ==> {
            &&& ran(v, absolute, has_parent, node, o, wv, evv, fv)
            &&& v.op == Op::Unlock || v.op == Op::Emergency
            &&& fresh(wv[0])
            &&& fv[0] == fr.last()
            &&& ending(v, absolute, has_parent, wv, evv) is Finish
        },
    ensures
        ending(u, absolute, has_parent, wr, evr) == StepV::Finish(Ok(OutcomeV::Now(Status::Unlocked))) ==> fr.last() == start_folder(d0),
        ending(u, absolute, has_parent, wr, evr) == StepV::Finish(Ok(OutcomeV::Now(Status::Locked))) ==> {
            &&& restored_outcome(ending(v, absolute, has_parent, wv, evv))
            &&& fv.last() == start_folder(d0)
        },
        ending(u, absolute, has_parent, wr, evr) == StepV::Finish(Ok(OutcomeV::Now(Status::Unlocked)))
            || ending(u, absolute, has_parent, wr, evr) == StepV::Finish(Ok(OutcomeV::Now(Status::Locked))),
{
    law_lock_cut(s, absolute, has_parent, node, o, ws, evs, fs, d0, i);
    law_resume_settles_cut(s, u, absolute, has_parent, node, o, wr, evr, fr, d0);
    if ending(u, absolute, has_parent, wr, evr) == StepV::Finish(Ok(OutcomeV::Now(Status::Locked))) {
        law_unlock_restores(v, absolute, has_parent, node, o, wv, evv, fv, d0, node);
    }
}

// ---------- resuming an empty vault ----------

/// What holds of a resume's state `w` and the folder `g`, started on the
/// folder `f0` that holds an empty vault.
pub open spec fn stale_inv<T>(f0: Folder<T>, w: WorkV, g: Folder<T>) -> bool {
    match w.phase {
        Phase::ResumeSurvey => g == f0,
        Phase::CleanupTmp(f) => f == CleanupFor::ResumeStale && g == f0,
        Phase::DirsData(t) => t == DirsFor::Cleanup(CleanupFor::ResumeStale) && w.notes.len() == 0 && g == f0,
        Phase::DirsVault(t) => t == DirsFor::Cleanup(CleanupFor::ResumeStale) && w.notes.len() == 0
            && g == (Folder { data: None, ..f0 }),
        Phase::ResumeResurvey => g == (Folder { root: f0.root.remove(vault_name()), data: None, ..f0 }),
        _ => false,
    }
}

pub open spec fn stale_step_ok<T>(f0: Folder<T>, w: WorkV, g: Folder<T>, node: T, o: Outside<T>, r: (WorkV, StepV)) -> bool {
    let e = effect(g, resume_awaits(w), node, o);
    &&& r.1 is Do ==> stale_inv(f0, r.0, e) && r.1 == StepV::Do(resume_awaits(r.0))
    &&& r.1 is Finish ==> r.1 == StepV::Finish(Ok(OutcomeV::Now(Status::Unlocked))) && e == (Folder {
        root: f0.root.remove(vault_name()),
        data: None,
        ..f0
    })
}

proof fn lemma_stale_step<T>(u: Setup, f0: Folder<T>, w: WorkV, g: Folder<T>, ev: Event, absolute: bool, has_parent: bool, node: T, o: Outside<T>)
    requires
        folder_status(f0) == Status::Stale,
        stale_inv(f0, w, g),
        answers(g, resume_awaits(w), ev, absolute, has_parent, u.style, o),
    ensures
        stale_step_ok(f0, w, g, node, o, next(u, w, ev, absolute, has_parent)),
{
}

proof fn lemma_stale_run<T>(u: Setup, absolute: bool, has_parent: bool, node: T, o: Outside<T>, wr: Seq<WorkV>, evr: Seq<Event>, fr: Seq<Folder<T>>, i: int)
    requires
        ran(u, absolute, has_parent, node, o, wr, evr, fr),
        u.op == Op::Resume,
        fresh(wr[0]),
        folder_status(fr[0]) == Status::Stale,
        1 <= i < wr.len(),
    ensures
        stale_inv(fr[0], wr[i], fr[i - 1]),
        answers(fr[i - 1], resume_awaits(wr[i]), evr[i], absolute, has_parent, u.style, o),
        fr[i] == effect(fr[i - 1], resume_awaits(wr[i]), node, o),
    decreases i,
{
    let j = i - 1;
    assert(step_taken(u, absolute, has_parent, node, o, wr[j], evr[j], fr[j], wr[j + 1], evr[j + 1], fr[j + 1]));
    assert(j + 1 == i);
    if i > 1 {
        lemma_stale_run(u, absolute, has_parent, node, o, wr, evr, fr, i - 1);
        lemma_stale_step(u, fr[0], wr[i - 1], fr[i - 2], evr[i - 1], absolute, has_parent, node, o);
    }
}

/// Resuming on a folder that holds only an empty vault (no state file, no
/// items in the vault), every request succeeding, clears the vault away and
/// ends unlocked; nothing else in the folder changes.
pub proof fn law_resume_clears_stale<T>(u: Setup, absolute: bool, has_parent: bool, node: T, o: Outside<T>, wr: Seq<WorkV>, evr: Seq<Event>, fr: Seq<Folder<T>>)
    requires
        ran(u, absolute, has_parent, node, o, wr, evr, fr),
        u.op == Op::Resume,
        fresh(wr[0]),
        folder_status(fr[0]) == Status::Stale,
        ending(u, absolute, has_parent, wr, evr) is Finish,
    ensures
        ending(u, absolute, has_parent, wr, evr) == StepV::Finish(Ok(OutcomeV::Now(Status::Unlocked))),
        !fr.last().root.contains_key(vault_name()),
        fr.last().root == fr[0].root.remove(vault_name()),
        fr.last().data is None,
        fr.last().meta is None,
{
    let k = wr.len() - 1;
    if k == 0 {
        assert(ending(u, absolute, has_parent, wr, evr) is Do);
    } else {
        lemma_stale_run(u, absolute, has_parent, node, o, wr, evr, fr, k);
        lemma_stale_step(u, fr[0], wr[k], fr[k - 1], evr[k], absolute, has_parent, node, o);
    }
}

} // verus!
