//! What the app tells its user: the check of a new password and the notices
//! that follow a lock or an unlock.

use vstd::prelude::*;
use crate::engine::{Error, LockReport, RestoreReport, Status};
use crate::meta::LockState;
use crate::task::{pairs, texts, ErrorV, IoV};
use crate::text::{decimal, decimal_text};

verus! {

/// The fewest characters a password may have.
pub const MIN_LEN: usize = 4;

pub open spec fn too_short_text() -> Seq<char> {
    "비밀번호는 "@ + decimal(MIN_LEN as nat) + "자 이상이어야 합니다."@
}

/// What is wrong with a new password typed twice, if anything.
pub open spec fn new_password_problem(a: Seq<char>, b: Seq<char>) -> Option<Seq<char>> {
    if a.len() < MIN_LEN {
        Some(too_short_text())
    } else if a != b {
        Some("두 비밀번호가 다릅니다."@)
    } else {
        None
    }
}

pub open spec fn opt_text(o: Option<String>) -> Option<Seq<char>> {
    match o {
        Some(s) => Some(s@),
        None => None,
    }
}

/// Checks a new password and its repetition: long enough (counted in
/// characters), and the same twice.
pub fn check_new_password(a: &str, b: &str) -> (r: Option<String>)
    ensures
        opt_text(r) == new_password_problem(a@, b@),
{
    if a.unicode_len() < MIN_LEN {
        let mut s = String::from_str("비밀번호는 ");
        s.append(decimal_text(MIN_LEN).as_str());
        return Some(s.concat("자 이상이어야 합니다."));
    }
    if !crate::text::same_text(a, b) {
        return Some(String::from_str("두 비밀번호가 다릅니다."));
    }
    None
}

/// Each text on a line of its own, after what came before.
pub open spec fn lines(ws: Seq<Seq<char>>) -> Seq<char>
    decreases ws.len(),
{
    if ws.len() == 0 {
        Seq::empty()
    } else {
        lines(ws.drop_last()) + "\n"@ + ws.last()
    }
}

/// One line for each item put back under another name.
pub open spec fn renamed_lines(rs: Seq<(Seq<char>, Seq<char>)>) -> Seq<char>
    decreases rs.len(),
{
    if rs.len() == 0 {
        Seq::empty()
    } else {
        renamed_lines(rs.drop_last()) + "\n같은 이름이 있어서 '"@ + rs.last().0 + "'은(는) '"@ + rs.last().1
            + "'(으)로 복원했어요."@
    }
}

/// The notice after locking the folder named `name`.
pub open spec fn lock_text(name: Seq<char>, moved: nat, warnings: Seq<Seq<char>>) -> Seq<char> {
    "'"@ + name + "' 폴더를 잠갔어요 ("@ + decimal(moved) + "개 항목)."@ + lines(warnings)
}

/// The notice after unlocking the folder named `name`.
pub open spec fn restore_text(name: Seq<char>, restored: nat, renamed: Seq<(Seq<char>, Seq<char>)>, warnings: Seq<Seq<char>>) -> Seq<char> {
    "'"@ + name + "' 폴더의 잠금을 해제했어요 ("@ + decimal(restored) + "개 항목)."@ + renamed_lines(renamed)
        + lines(warnings)
}

fn append_lines(s: &mut String, ws: &Vec<String>)
    ensures
        final(s)@ == old(s)@ + lines(texts(ws@)),
{
    let ghost s0 = s@;
    let mut i: usize = 0;
    while i < ws.len()
        invariant
            i <= ws@.len(),
            s@ == s0 + lines(texts(ws@.take(i as int))),
        decreases ws.len() - i,
    {
        proof {
            let t = texts(ws@.take(i + 1));
            assert(t.drop_last() =~= texts(ws@.take(i as int)));
            assert(t.last() == ws@[i as int]@);
        }
        s.append("\n");
        s.append(ws[i].as_str());
        i = i + 1;
        proof {
            reveal_strlit("\n");
            assert(s@ =~= s0 + lines(texts(ws@.take(i as int))));
        }
    }
    assert(ws@.take(ws@.len() as int) =~= ws@);
}

/// The notice after locking the folder named `name` (its last path component).
pub fn lock_notice(name: &str, r: &LockReport) -> (s: String)
    ensures
        s@ == lock_text(name@, r.moved as nat, texts(r.warnings@)),
{
    let mut s = String::from_str("'");
    s.append(name);
    s.append("' 폴더를 잠갔어요 (");
    s.append(decimal_text(r.moved).as_str());
    s.append("개 항목).");
    append_lines(&mut s, &r.warnings);
    proof {
        assert(s@ =~= lock_text(name@, r.moved as nat, texts(r.warnings@)));
    }
    s
}

/// The notice after unlocking the folder named `name` (its last path component).
pub fn restore_notice(name: &str, r: &RestoreReport) -> (s: String)
    ensures
        s@ == restore_text(name@, r.restored as nat, pairs(r.renamed@), texts(r.warnings@)),
{
    let mut s = String::from_str("'");
    s.append(name);
    s.append("' 폴더의 잠금을 해제했어요 (");
    s.append(decimal_text(r.restored).as_str());
    s.append("개 항목).");
    let ghost s0 = s@;
    let mut i: usize = 0;
    while i < r.renamed.len()
        invariant
            i <= r.renamed@.len(),
            s@ == s0 + renamed_lines(pairs(r.renamed@.take(i as int))),
        decreases r.renamed.len() - i,
    {
        proof {
            let t = pairs(r.renamed@.take(i + 1));
            assert(t.drop_last() =~= pairs(r.renamed@.take(i as int)));
            assert(t.last() == (r.renamed@[i as int].0@, r.renamed@[i as int].1@));
        }
        s.append("\n같은 이름이 있어서 '");
        s.append(r.renamed[i].0.as_str());
        s.append("'은(는) '");
        s.append(r.renamed[i].1.as_str());
        s.append("'(으)로 복원했어요.");
        i = i + 1;
        proof {
            assert(s@ =~= s0 + renamed_lines(pairs(r.renamed@.take(i as int))));
        }
    }
    assert(r.renamed@.take(r.renamed@.len() as int) =~= r.renamed@);
    append_lines(&mut s, &r.warnings);
    proof {
        assert(s@ =~= restore_text(name@, r.restored as nat, pairs(r.renamed@), texts(r.warnings@)));
    }
    s
}

// ---------- errors ----------

/// One line for each item that could not be put back.
pub open spec fn failed_lines(f: Seq<(Seq<char>, IoV)>) -> Seq<char>
    decreases f.len(),
{
    if f.len() == 0 {
        Seq::empty()
    } else {
        failed_lines(f.drop_last()) + "\n - "@ + f.last().0 + ": "@ + f.last().1.message
    }
}

/// The text an error is shown with. Of the items that could not be put
/// back, the first five are listed.
pub open spec fn error_text(e: ErrorV) -> Seq<char>
    decreases e,
{
    match e {
        ErrorV::Guard(m) => m,
        ErrorV::AlreadyLocked => "이미 잠겨 있거나 정리가 필요한 폴더입니다."@,
        ErrorV::NotLocked => "잠겨 있지 않은 폴더입니다."@,
        ErrorV::WrongPassword => "비밀번호가 틀렸습니다."@,
        ErrorV::NoPasswordInfo => "비밀번호 정보를 찾을 수 없습니다. 비상 복원을 사용하세요."@,
        ErrorV::Broken => "상태 파일이 없어 비상 복원이 필요합니다."@,
        ErrorV::Io(context, source) => context + ": "@ + source.message,
        ErrorV::Incomplete(f) => decimal(f.len())
            + "개 항목을 되돌리지 못했습니다 (파일은 안전하게 보관 중이며 다시 시도하면 이어서 진행됩니다):"@
            + failed_lines(f.take(if f.len() < 5 { f.len() as int } else { 5 })),
        ErrorV::RollbackFailed(cause, rollback) =>
            "잠금에 실패해 되돌리던 중 멈췄습니다. 파일은 모두 안전하며, 프로그램을 다시 열면 이어서 복구합니다.\n원인: "@
                + error_text(*cause) + "\n되돌리기 오류: "@ + error_text(*rollback),
    }
}

impl Error {
    /// The text the error is shown with.
    pub fn message(&self) -> (s: String)
        ensures
            s@ == error_text(self@),
        decreases self,
    {
        match self {
            Error::Guard(m) => m.clone(),
            Error::AlreadyLocked => String::from_str("이미 잠겨 있거나 정리가 필요한 폴더입니다."),
            Error::NotLocked => String::from_str("잠겨 있지 않은 폴더입니다."),
            Error::WrongPassword => String::from_str("비밀번호가 틀렸습니다."),
            Error::NoPasswordInfo => String::from_str("비밀번호 정보를 찾을 수 없습니다. 비상 복원을 사용하세요."),
            Error::Broken => String::from_str("상태 파일이 없어 비상 복원이 필요합니다."),
            Error::Io { context, source } => {
                let mut s = context.clone();
                s.append(": ");
                s.append(source.message.as_str());
                s
            },
            Error::Incomplete { failed } => {
                let mut s = decimal_text(failed.len());
                s.append("개 항목을 되돌리지 못했습니다 (파일은 안전하게 보관 중이며 다시 시도하면 이어서 진행됩니다):");
                let ghost s0 = s@;
                let ghost fv = crate::task::failures_view(failed@);
                let shown: usize = if failed.len() < 5 { failed.len() } else { 5 };
                let mut i: usize = 0;
                while i < shown
                    invariant
                        i <= shown <= failed@.len(),
                        fv == crate::task::failures_view(failed@),
                        s@ == s0 + failed_lines(fv.take(i as int)),
                    decreases shown - i,
                {
                    proof {
                        let t = fv.take(i + 1);
                        assert(t.drop_last() =~= fv.take(i as int));
                        assert(t.last() == (failed@[i as int].0@, failed@[i as int].1@));
                    }
                    s.append("\n - ");
                    s.append(failed[i].0.as_str());
                    s.append(": ");
                    s.append(failed[i].1.message.as_str());
                    i = i + 1;
                    proof {
                        assert(s@ =~= s0 + failed_lines(fv.take(i as int)));
                    }
                }
                s
            },
            Error::RollbackFailed { cause, rollback } => {
                let mut s = String::from_str(
                    "잠금에 실패해 되돌리던 중 멈췄습니다. 파일은 모두 안전하며, 프로그램을 다시 열면 이어서 복구합니다.\n원인: ",
                );
                s.append((**cause).message().as_str());
                s.append("\n되돌리기 오류: ");
                s.append((**rollback).message().as_str());
                s
            },
        }
    }
}

// ---------- confirming an emergency restore ----------

/// A white-space character, as `char::is_whitespace` (Unicode `White_Space`) has it.
pub open spec fn white(c: char) -> bool {
    c == '\u{9}' || c == '\u{A}' || c == '\u{B}' || c == '\u{C}' || c == '\u{D}'
        || c == '\u{20}' || c == '\u{85}' || c == '\u{A0}' || c == '\u{1680}' || c == '\u{2000}'
        || c == '\u{2001}' || c == '\u{2002}' || c == '\u{2003}' || c == '\u{2004}' || c == '\u{2005}'
        || c == '\u{2006}' || c == '\u{2007}' || c == '\u{2008}' || c == '\u{2009}' || c == '\u{200A}'
        || c == '\u{2028}' || c == '\u{2029}' || c == '\u{202F}' || c == '\u{205F}' || c == '\u{3000}'
}

fn is_white(c: char) -> (b: bool)
    ensures
        b == white(c),
{
    c == '\u{9}' || c == '\u{A}' || c == '\u{B}' || c == '\u{C}' || c == '\u{D}'
        || c == '\u{20}' || c == '\u{85}' || c == '\u{A0}' || c == '\u{1680}' || c == '\u{2000}'
        || c == '\u{2001}' || c == '\u{2002}' || c == '\u{2003}' || c == '\u{2004}' || c == '\u{2005}'
        || c == '\u{2006}' || c == '\u{2007}' || c == '\u{2008}' || c == '\u{2009}' || c == '\u{200A}'
        || c == '\u{2028}' || c == '\u{2029}' || c == '\u{202F}' || c == '\u{205F}' || c == '\u{3000}'
}

pub open spec fn trim_start(s: Seq<char>) -> Seq<char>
    decreases s.len(),
{
    if s.len() > 0 && white(s[0]) {
        trim_start(s.drop_first())
    } else {
        s
    }
}

pub open spec fn trim_end(s: Seq<char>) -> Seq<char>
    decreases s.len(),
{
    if s.len() > 0 && white(s.last()) {
        trim_end(s.drop_last())
    } else {
        s
    }
}

/// `s` without white space at either end, as `str::trim` gives it.
pub open spec fn trimmed(s: Seq<char>) -> Seq<char> {
    trim_end(trim_start(s))
}

/// The word typed to confirm an emergency restore.
pub open spec fn confirm_word() -> Seq<char> {
    "복원"@
}

/// Whether the confirmation typed for an emergency restore is the word
/// 복원, white space around it aside.
pub fn confirmed(confirm: &str) -> (b: bool)
    ensures
        b == (trimmed(confirm@) == confirm_word()),
{
    let cs = crate::text::chars_of(confirm);
    let n = cs.len();
    let mut i: usize = 0;
    assert(cs@.subrange(0, n as int) =~= cs@);
    while i < n && is_white(cs[i])
        invariant
            i <= n,
            n == cs@.len(),
            trim_start(cs@) == trim_start(cs@.subrange(i as int, n as int)),
        decreases n - i,
    {
        assert(cs@.subrange(i as int, n as int).drop_first() =~= cs@.subrange(i + 1, n as int));
        i = i + 1;
    }
    proof {
        if i < n {
            assert(cs@.subrange(i as int, n as int)[0] == cs@[i as int]);
        }
        assert(trim_start(cs@) == cs@.subrange(i as int, n as int));
    }
    let mut j: usize = n;
    while j > i && is_white(cs[j - 1])
        invariant
            i <= j <= n,
            n == cs@.len(),
            trimmed(cs@) == trim_end(cs@.subrange(i as int, j as int)),
        decreases j,
    {
        assert(cs@.subrange(i as int, j as int).drop_last() =~= cs@.subrange(i as int, j - 1));
        j = j - 1;
    }
    proof {
        if j > i {
            assert(cs@.subrange(i as int, j as int).last() == cs@[j - 1]);
        }
        assert(trimmed(cs@) == cs@.subrange(i as int, j as int));
        assert(cs@ == confirm@);
    }
    let t = confirm.substring_char(i, j);
    crate::text::same_text(t, "복원")
}

// ---------- after resuming at start-up ----------

/// What is said, once a folder's cut-off work has been resumed at start-up:
/// nothing when nothing was cut off or the folder is broken (it is shown as
/// such), the work finished when it was, and the error otherwise. The flag
/// says whether it is an error.
pub open spec fn resume_text(name: Seq<char>, before: Option<Status>, after: Result<Status, ErrorV>) -> Option<(bool, Seq<char>)> {
    match after {
        Ok(now) => match before {
            Some(Status::Interrupted(state)) => Some((
                false,
                "'"@ + name + "' 폴더의 중단됐던 "@ + (if state == LockState::Locking { "잠그기"@ } else { "잠금 해제"@ })
                    + "를 마저 끝냈어요 ("@ + (if now == Status::Locked { "잠김"@ } else { "열림"@ }) + ")."@,
            )),
            _ => None,
        },
        Err(ErrorV::Broken) => None,
        Err(e) => Some((true, "'"@ + name + "': "@ + error_text(e))),
    }
}

pub open spec fn notice_view(n: Option<(bool, String)>) -> Option<(bool, Seq<char>)> {
    match n {
        Some((flag, t)) => Some((flag, t@)),
        None => None,
    }
}

/// The notice, if any, after resuming the folder named `name` at start-up,
/// given its status before and what the resume returned.
pub fn resume_notice(name: &str, before: Option<Status>, after: &Result<Status, Error>) -> (n: Option<(bool, String)>)
    ensures
        notice_view(n) == resume_text(name@, before, match after { Ok(st) => Ok(*st), Err(e) => Err(e@) }),
{
    match after {
        Ok(now) => match before {
            Some(Status::Interrupted(state)) => {
                let mut t = String::from_str("'");
                t.append(name);
                t.append("' 폴더의 중단됐던 ");
                if state == LockState::Locking {
                    t.append("잠그기");
                } else {
                    t.append("잠금 해제");
                }
                t.append("를 마저 끝냈어요 (");
                if *now == Status::Locked {
                    t.append("잠김");
                } else {
                    t.append("열림");
                }
                t.append(").");
                proof {
                    reveal_strlit("'");
                }
                Some((false, t))
            },
            _ => None,
        },
        Err(Error::Broken) => None,
        Err(e) => {
            let mut t = String::from_str("'");
            t.append(name);
            t.append("': ");
            t.append(e.message().as_str());
            Some((true, t))
        },
    }
}

} // verus!
