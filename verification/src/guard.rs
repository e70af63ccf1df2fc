//! Which folders may never be locked.

use vstd::prelude::*;
use crate::meta::PathStyle;
use crate::text::{chars_of, ends_with_chars, has_prefix, has_suffix, starts_with_chars};
use vstd::utf8::encode_utf8;

verus! {

/// The three kinds of forbidden targets.
#[derive(Debug)]
pub struct Rules {
    /// These folders themselves are forbidden (their subfolders are not).
    pub forbidden_exact: Vec<String>,
    /// These folders and everything below them are forbidden.
    pub forbidden_tree: Vec<String>,
    /// A folder holding any of these paths is forbidden.
    pub must_not_contain: Vec<String>,
}

impl Default for Rules {
    fn default() -> (r: Rules)
        ensures
            r.forbidden_exact@.len() == 0,
            r.forbidden_tree@.len() == 0,
            r.must_not_contain@.len() == 0,
    {
        Rules { forbidden_exact: Vec::new(), forbidden_tree: Vec::new(), must_not_contain: Vec::new() }
    }
}

/// `s` in lower case, as `str::to_lowercase` computes it.
pub uninterp spec fn lowercase(s: Seq<char>) -> Seq<char>;

/// Calls `str::to_lowercase`. Trusted: the result is what `lowercase` names.
#[verifier::external_body]
fn to_lower(s: &str) -> (r: String)
    ensures
        r@ == lowercase(s@),
{
    s.to_lowercase()
}

/// Calls `Path::is_absolute` on `s`. Nothing is promised of the answer: it
/// depends on the platform's path syntax.
#[verifier::external_body]
fn path_is_absolute(s: &str) -> bool {
    std::path::Path::new(s).is_absolute()
}

/// Calls `Path::parent` on `s` and tells whether there is one. Nothing is
/// promised of the answer: it depends on the platform's path syntax.
#[verifier::external_body]
fn path_has_parent(s: &str) -> bool {
    std::path::Path::new(s).parent().is_some()
}

pub open spec fn is_slash(c: char) -> bool {
    c == '/' || c == '\\'
}

pub open spec fn verbatim_prefix() -> Seq<char> {
    seq!['\\', '\\', '?', '\\']
}

pub open spec fn unc_marker() -> Seq<char> {
    seq!['U', 'N', 'C', '\\']
}

/// Drops a leading `\\?\` unless what follows is `UNC\`.
pub open spec fn strip_verbatim(s: Seq<char>) -> Seq<char> {
    if has_prefix(s, verbatim_prefix()) && !has_prefix(s.skip(4), unc_marker()) {
        s.skip(4)
    } else {
        s
    }
}

/// Drops trailing `/` and `\`, keeping at least one character and a drive root such as `C:\`.
pub open spec fn trim_trailing(s: Seq<char>) -> Seq<char>
    decreases s.len(),
{
    if s.len() > 1 && is_slash(s.last()) && !has_suffix(s, seq![':', '\\']) {
        trim_trailing(s.drop_last())
    } else {
        s
    }
}

/// The comparable form of a resolved path.
pub open spec fn normalized(s: Seq<char>, style: PathStyle) -> Seq<char> {
    let t = trim_trailing(strip_verbatim(s));
    if style == PathStyle::Windows {
        lowercase(t)
    } else {
        t
    }
}

/// The comparable form of a path as resolved on disk: a leading `\\?\` is
/// dropped (except before `UNC\`), trailing separators are dropped, and on
/// Windows the text is lower-cased.
pub fn normalize(resolved: &str, style: PathStyle) -> (n: String)
    ensures
        n@ == normalized(resolved@, style),
{
    let cs = chars_of(resolved);
    let total = cs.len();
    let mut start: usize = 0;
    let v = vec!['\\', '\\', '?', '\\'];
    let unc = vec!['U', 'N', 'C', '\\'];
    if starts_with_chars(&cs, &v) {
        let mut rest: Vec<char> = Vec::new();
        let mut k: usize = 4;
        while k < total
            invariant
                4 <= k <= total,
                total == cs@.len(),
                rest@ == cs@.subrange(4, k as int),
            decreases total - k,
        {
            rest.push(cs[k]);
            k = k + 1;
            assert(rest@ =~= cs@.subrange(4, k as int));
        }
        assert(rest@ =~= cs@.skip(4));
        if !starts_with_chars(&rest, &unc) {
            start = 4;
        }
    }
    assert(v@ == verbatim_prefix());
    assert(unc@ == unc_marker());
    let ghost stripped = strip_verbatim(resolved@);
    assert(stripped =~= cs@.skip(start as int));
    // Trailing separators are dropped one at a time.
    let mut end: usize = total;
    while end - start > 1 && (cs[end - 1] == '/' || cs[end - 1] == '\\')
        && !(cs[end - 1] == '\\' && cs[end - 2] == ':')
        invariant
            start <= end <= total,
            end - start >= 1 || end == start,
            total == cs@.len(),
            stripped == cs@.skip(start as int),
            trim_trailing(stripped) == trim_trailing(cs@.subrange(start as int, end as int)),
        decreases end,
    {
        proof {
            let cur = cs@.subrange(start as int, end as int);
            assert(cur.last() == cs@[end - 1]);
            assert(!has_suffix(cur, seq![':', '\\'])) by {
                if has_suffix(cur, seq![':', '\\']) {
                    assert(cur.skip(cur.len() - 2)[1] == cur.last());
                    assert(cur.skip(cur.len() - 2)[0] == cs@[end - 2]);
                }
            }
            assert(cur.drop_last() =~= cs@.subrange(start as int, end - 1));
        }
        end = end - 1;
    }
    proof {
        let cur = cs@.subrange(start as int, end as int);
        if cur.len() > 1 && is_slash(cur.last()) {
            assert(cur.last() == cs@[end - 1]);
            assert(cur.skip(cur.len() - 2) =~= seq![cs@[end - 2], cs@[end - 1]]);
        }
        assert(trim_trailing(cur) == cur);
        assert(cs@ == resolved@);
    }
    let trimmed = resolved.substring_char(start, end);
    assert(trimmed@ =~= cs@.subrange(start as int, end as int));
    match style {
        PathStyle::Windows => to_lower(trimmed),
        PathStyle::Unix => String::from_str(trimmed),
    }
}

/// `outer` with a separator at its end (the one the platform writes, unless it already ends in one).
pub open spec fn with_trailing_separator(outer: Seq<char>, style: PathStyle) -> Seq<char> {
    if outer.len() > 0 && is_slash(outer.last()) {
        outer
    } else if style == PathStyle::Windows {
        outer.push('\\')
    } else {
        outer.push('/')
    }
}

/// `inner` is `outer` or lies below it.
pub open spec fn within(inner: Seq<char>, outer: Seq<char>, style: PathStyle) -> bool {
    inner == outer || has_prefix(inner, with_trailing_separator(outer, style))
}

/// Whether `inner` is the same as `outer` or lies below it (both in comparable form).
pub fn is_within(inner: &str, outer: &str, style: PathStyle) -> (b: bool)
    ensures
        b == within(inner@, outer@, style),
{
    let i = chars_of(inner);
    let mut o = chars_of(outer);
    if i.len() == o.len() && starts_with_chars(&i, &o) {
        assert(i@ =~= o@);
        return true;
    }
    proof {
        if i@ == o@ {
            assert(i@.take(o@.len() as int) =~= i@);
        }
    }
    let n = o.len();
    if n > 0 && (o[n - 1] == '/' || o[n - 1] == '\\') {
    } else {
        match style {
            PathStyle::Windows => o.push('\\'),
            PathStyle::Unix => o.push('/'),
        }
    }
    starts_with_chars(&i, &o)
}

/// Whether two folders are the same or one holds the other (both as resolved on disk).
pub fn overlaps(a: &str, b: &str, style: PathStyle) -> (r: bool)
    ensures
        r == (within(normalized(a@, style), normalized(b@, style), style)
            || within(normalized(b@, style), normalized(a@, style), style)),
{
    let a = normalize(a, style);
    let b = normalize(b, style);
    is_within(a.as_str(), b.as_str(), style) || is_within(b.as_str(), a.as_str(), style)
}

/// What the file system said about the folder to be locked.
#[derive(Clone, Copy, Debug, PartialEq, Eq, Structural)]
pub enum EntryKind {
    /// A symbolic link, junction or other reparse point.
    Link,
    Dir,
    /// Anything else (a plain file, a device, ...).
    Other,
}

/// What had to be read from disk before deciding whether a folder may be locked.
#[derive(Debug)]
pub struct TargetFacts {
    /// The folder's own metadata (links not followed), or the error text.
    pub entry: Result<EntryKind, String>,
    /// The folder as resolved on disk (the path as given where it cannot be resolved).
    pub resolved: String,
    /// Whether its volume supports the protection the engine applies, or the error text.
    pub volume: Result<bool, String>,
    /// Each rule path as resolved on disk, in the order of the engine's rules.
    pub resolved_rules: Rules,
}

/// Why a folder may not be locked.
#[derive(Clone, Copy, Debug, PartialEq, Eq, Structural)]
pub enum Refusal {
    NotAbsolute,
    Unreadable,
    Link,
    NotFolder,
    Network,
    WholeDrive,
    /// The folder is the `forbidden_exact` rule at this position.
    SystemFolder(usize),
    /// The folder lies within the `forbidden_tree` rule at this position.
    BelowForbidden(usize),
    /// The folder holds the `must_not_contain` rule at this position.
    HoldsProtected(usize),
    Unsupported,
    VolumeUnreadable,
}

/// The first position at or after `i`, below `len`, where `p` holds; `len` if none.
pub open spec fn first_from(i: int, len: int, p: spec_fn(int) -> bool) -> int
    decreases len - i,
{
    if i >= len {
        len
    } else if p(i) {
        i
    } else {
        first_from(i + 1, len, p)
    }
}

/// The position found lies between the start and the end.
pub proof fn lemma_first_from_range(i: int, len: int, p: spec_fn(int) -> bool)
    requires
        i <= len,
    ensures
        i <= first_from(i, len, p) <= len,
    decreases len - i,
{
    if i < len && !p(i) {
        lemma_first_from_range(i + 1, len, p);
    }
}

/// The `forbidden_exact` rule equal to `n`.
pub open spec fn exact_hit(n: Seq<char>, resolved: Seq<String>, style: PathStyle) -> spec_fn(int) -> bool {
    |i: int| normalized(resolved[i]@, style) == n
}

/// The `forbidden_tree` rule holding `n`.
pub open spec fn tree_hit(n: Seq<char>, resolved: Seq<String>, style: PathStyle) -> spec_fn(int) -> bool {
    |i: int| within(n, normalized(resolved[i]@, style), style)
}

/// The `must_not_contain` rule that lies within `n`.
pub open spec fn holds_hit(n: Seq<char>, resolved: Seq<String>, style: PathStyle) -> spec_fn(int) -> bool {
    |i: int| within(normalized(resolved[i]@, style), n, style)
}

/// Why the folder may not be locked, if it may not; `absolute` is what
/// `Path::is_absolute` said of the folder as given, `has_parent` what
/// `Path::parent` said of its comparable form.
pub open spec fn refusal(absolute: bool, facts: TargetFacts, has_parent: bool, style: PathStyle) -> Option<Refusal> {
    if !absolute {
        Some(Refusal::NotAbsolute)
    } else {
        match facts.entry {
            Err(_) => Some(Refusal::Unreadable),
            Ok(EntryKind::Link) => Some(Refusal::Link),
            Ok(EntryKind::Other) => Some(Refusal::NotFolder),
            Ok(EntryKind::Dir) => {
                let n = normalized(facts.resolved@, style);
                let exact = facts.resolved_rules.forbidden_exact@;
                let tree = facts.resolved_rules.forbidden_tree@;
                let holds = facts.resolved_rules.must_not_contain@;
                let e = first_from(0, exact.len() as int, exact_hit(n, exact, style));
                let t = first_from(0, tree.len() as int, tree_hit(n, tree, style));
                let h = first_from(0, holds.len() as int, holds_hit(n, holds, style));
                if has_prefix(n, seq!['\\', '\\']) {
                    Some(Refusal::Network)
                } else if !has_parent || has_suffix(n, seq![':', '\\']) || (encode_utf8(n).len() as usize) <= 3 {
                    Some(Refusal::WholeDrive)
                } else if e < exact.len() {
                    Some(Refusal::SystemFolder(e as usize))
                } else if t < tree.len() {
                    Some(Refusal::BelowForbidden(t as usize))
                } else if h < holds.len() {
                    Some(Refusal::HoldsProtected(h as usize))
                } else {
                    match facts.volume {
                        Ok(true) => None,
                        Ok(false) => Some(Refusal::Unsupported),
                        Err(_) => Some(Refusal::VolumeUnreadable),
                    }
                }
            },
        }
    }
}

/// A position where `p` holds, at or after `i`, is not before the first one.
pub proof fn lemma_first_from_found(i: int, len: int, p: spec_fn(int) -> bool, j: int)
    requires
        i <= j < len,
        p(j),
    ensures
        first_from(i, len, p) <= j,
    decreases j - i,
{
    if i < j && !p(i) {
        lemma_first_from_found(i + 1, len, p, j);
    }
}

/// The first position found, when there is one, is where `p` holds.
pub proof fn lemma_first_from_hit(i: int, len: int, p: spec_fn(int) -> bool)
    requires
        i <= len,
        first_from(i, len, p) < len,
    ensures
        p(first_from(i, len, p)),
    decreases len - i,
{
    if i < len && !p(i) {
        lemma_first_from_hit(i + 1, len, p);
    }
}

/// A folder is refused when it is a `forbidden_exact` rule, when it is a
/// `forbidden_tree` rule itself or lies below one, and when it holds a
/// `must_not_contain` rule (or is it): each rule covers these folders
/// whatever the other facts, rules or answers are.
pub proof fn law_rules_refuse(absolute: bool, facts: TargetFacts, has_parent: bool, style: PathStyle, i: int)
    requires
        0 <= i,
    ensures
        i < facts.resolved_rules.forbidden_exact@.len()
            && normalized(facts.resolved@, style) == normalized(facts.resolved_rules.forbidden_exact@[i]@, style)
            ==> refusal(absolute, facts, has_parent, style) is Some,
        i < facts.resolved_rules.forbidden_tree@.len()
            && normalized(facts.resolved@, style) == normalized(facts.resolved_rules.forbidden_tree@[i]@, style)
            ==> refusal(absolute, facts, has_parent, style) is Some,
        i < facts.resolved_rules.forbidden_tree@.len() && has_prefix(
            normalized(facts.resolved@, style),
            with_trailing_separator(normalized(facts.resolved_rules.forbidden_tree@[i]@, style), style),
        ) ==> refusal(absolute, facts, has_parent, style) is Some,
        i < facts.resolved_rules.must_not_contain@.len() && (normalized(facts.resolved_rules.must_not_contain@[i]@, style)
            == normalized(facts.resolved@, style) || has_prefix(
            normalized(facts.resolved_rules.must_not_contain@[i]@, style),
            with_trailing_separator(normalized(facts.resolved@, style), style),
        )) ==> refusal(absolute, facts, has_parent, style) is Some,
{
    let n = normalized(facts.resolved@, style);
    let exact = facts.resolved_rules.forbidden_exact@;
    let tree = facts.resolved_rules.forbidden_tree@;
    let holds = facts.resolved_rules.must_not_contain@;
    if i < exact.len() && exact_hit(n, exact, style)(i) {
        lemma_first_from_found(0, exact.len() as int, exact_hit(n, exact, style), i);
    }
    if i < tree.len() && tree_hit(n, tree, style)(i) {
        lemma_first_from_found(0, tree.len() as int, tree_hit(n, tree, style), i);
    }
    if i < holds.len() && holds_hit(n, holds, style)(i) {
        lemma_first_from_found(0, holds.len() as int, holds_hit(n, holds, style), i);
    }
}

/// The message shown for a refusal; rule paths are shown as written in `rules`.
pub open spec fn refusal_text(r: Refusal, facts: TargetFacts, rules: Rules) -> Seq<char> {
    match r {
        Refusal::NotAbsolute => "절대 경로가 아닙니다."@,
        Refusal::Unreadable => "폴더를 읽을 수 없습니다: "@ + facts.entry->Err_0@,
        Refusal::Link => "바로 가기(링크·정션) 폴더는 잠글 수 없습니다."@,
        Refusal::NotFolder => "폴더가 아닙니다."@,
        Refusal::Network => "네트워크 폴더는 잠글 수 없습니다."@,
        Refusal::WholeDrive => "드라이브 전체는 잠글 수 없습니다."@,
        Refusal::SystemFolder(i) => "시스템이 쓰는 폴더라 잠글 수 없습니다: "@ + rules.forbidden_exact@[i as int]@,
        Refusal::BelowForbidden(i) => "이 위치 아래의 폴더는 잠글 수 없습니다: "@ + rules.forbidden_tree@[i as int]@,
        Refusal::HoldsProtected(i) => "폴더 잠금 프로그램이 쓰는 파일이 들어 있어 잠글 수 없습니다: "@
            + rules.must_not_contain@[i as int]@,
        Refusal::Unsupported => "NTFS 드라이브의 폴더만 잠글 수 있습니다 (USB 메모리 등은 지원하지 않음)."@,
        Refusal::VolumeUnreadable => "드라이브 정보를 읽을 수 없습니다: "@ + facts.volume->Err_0@,
    }
}

/// The rule lists of `facts` line up with those of `rules`.
pub open spec fn facts_match(facts: TargetFacts, rules: Rules) -> bool {
    &&& facts.resolved_rules.forbidden_exact@.len() == rules.forbidden_exact@.len()
    &&& facts.resolved_rules.forbidden_tree@.len() == rules.forbidden_tree@.len()
    &&& facts.resolved_rules.must_not_contain@.len() == rules.must_not_contain@.len()
}

/// `r` is the answer owed for this refusal (or its absence).
pub open spec fn answers(r: Result<(), String>, why: Option<Refusal>, facts: TargetFacts, rules: Rules) -> bool {
    match why {
        None => r is Ok,
        Some(x) => r matches Err(m) && m@ == refusal_text(x, facts, rules),
    }
}

/// Which rule of `kind` applies first: 0 equal, 1 holding `n`, 2 held by `n`.
pub(crate) fn first_rule_hit(n: &str, resolved: &Vec<String>, kind: u8, style: PathStyle) -> (k: usize)
    requires
        kind <= 2,
    ensures
        k == first_from(0, resolved@.len() as int,
            if kind == 0 { exact_hit(n@, resolved@, style) }
            else if kind == 1 { tree_hit(n@, resolved@, style) }
            else { holds_hit(n@, resolved@, style) }),
{
    let ghost p = if kind == 0 { exact_hit(n@, resolved@, style) }
        else if kind == 1 { tree_hit(n@, resolved@, style) }
        else { holds_hit(n@, resolved@, style) };
    let mut i: usize = 0;
    while i < resolved.len()
        invariant
            i <= resolved@.len(),
            kind <= 2,
            p == (if kind == 0 { exact_hit(n@, resolved@, style) }
                else if kind == 1 { tree_hit(n@, resolved@, style) }
                else { holds_hit(n@, resolved@, style) }),
            first_from(0, resolved@.len() as int, p) == first_from(i as int, resolved@.len() as int, p),
        decreases resolved.len() - i,
    {
        let r = normalize(resolved[i].as_str(), style);
        let hit = if kind == 0 {
            crate::text::same_text(r.as_str(), n)
        } else if kind == 1 {
            is_within(n, r.as_str(), style)
        } else {
            is_within(r.as_str(), n, style)
        };
        proof {
            assert(r@ == normalized(resolved@[i as int]@, style));
            if kind == 0 {
                assert(hit == p(i as int));
            } else if kind == 1 {
                assert(p == tree_hit(n@, resolved@, style));
                assert(hit == within(n@, r@, style));
                assert(hit == p(i as int));
            } else {
                assert(p == holds_hit(n@, resolved@, style));
                assert(hit == within(r@, n@, style));
                assert(hit == p(i as int));
            }
        }
        if hit {
            return i;
        }
        i = i + 1;
    }
    i
}

/// Decides whether the folder may be locked, given what was read from disk,
/// what `Path::is_absolute` said of the folder as given (`absolute`) and what
/// `Path::parent` said of its comparable form (`has_parent`).
pub fn decide(absolute: bool, facts: &TargetFacts, has_parent: bool, rules: &Rules, style: PathStyle) -> (r: Result<(), String>)
    requires
        facts_match(*facts, *rules),
    ensures
        answers(r, refusal(absolute, *facts, has_parent, style), *facts, *rules),
{
    if !absolute {
        return Err(String::from_str("절대 경로가 아닙니다."));
    }
    match &facts.entry {
        Err(e) => return Err(String::from_str("폴더를 읽을 수 없습니다: ").concat(e.as_str())),
        Ok(EntryKind::Link) => return Err(String::from_str("바로 가기(링크·정션) 폴더는 잠글 수 없습니다.")),
        Ok(EntryKind::Other) => return Err(String::from_str("폴더가 아닙니다.")),
        Ok(EntryKind::Dir) => {},
    }
    let n = normalize(facts.resolved.as_str(), style);
    let nc = chars_of(n.as_str());
    let unc = vec!['\\', '\\'];
    let drive = vec![':', '\\'];
    assert(unc@ =~= seq!['\\', '\\']);
    assert(drive@ =~= seq![':', '\\']);
    if starts_with_chars(&nc, &unc) {
        return Err(String::from_str("네트워크 폴더는 잠글 수 없습니다."));
    }
    let blen = n.as_str().len();
    if !has_parent || ends_with_chars(&nc, &drive) || blen <= 3 {
        return Err(String::from_str("드라이브 전체는 잠글 수 없습니다."));
    }
    let e = first_rule_hit(n.as_str(), &facts.resolved_rules.forbidden_exact, 0, style);
    if e < rules.forbidden_exact.len() {
        return Err(String::from_str("시스템이 쓰는 폴더라 잠글 수 없습니다: ").concat(rules.forbidden_exact[e].as_str()));
    }
    let t = first_rule_hit(n.as_str(), &facts.resolved_rules.forbidden_tree, 1, style);
    if t < rules.forbidden_tree.len() {
        return Err(String::from_str("이 위치 아래의 폴더는 잠글 수 없습니다: ").concat(rules.forbidden_tree[t].as_str()));
    }
    let h = first_rule_hit(n.as_str(), &facts.resolved_rules.must_not_contain, 2, style);
    if h < rules.must_not_contain.len() {
        return Err(String::from_str("폴더 잠금 프로그램이 쓰는 파일이 들어 있어 잠글 수 없습니다: ")
            .concat(rules.must_not_contain[h].as_str()));
    }
    match &facts.volume {
        Ok(true) => Ok(()),
        Ok(false) => Err(String::from_str("NTFS 드라이브의 폴더만 잠글 수 있습니다 (USB 메모리 등은 지원하지 않음).")),
        Err(e) => Err(String::from_str("드라이브 정보를 읽을 수 없습니다: ").concat(e.as_str())),
    }
}

/// Decides whether `root` (as given) may be locked. The platform's path
/// syntax is asked whether `root` is absolute and whether the comparable form
/// has a parent; the answer is the one `decide` gives for those two answers.
pub fn check(root: &str, facts: &TargetFacts, rules: &Rules, style: PathStyle) -> (r: Result<(), String>)
    requires
        facts_match(*facts, *rules),
    ensures
        exists|absolute: bool, has_parent: bool|
            answers(r, refusal(absolute, *facts, has_parent, style), *facts, *rules),
{
    let absolute = path_is_absolute(root);
    let n = normalize(facts.resolved.as_str(), style);
    let has_parent = path_has_parent(n.as_str());
    decide(absolute, facts, has_parent, rules, style)
}

// ---------- the rules a platform starts with ----------

/// What the default rules are made from, as read from the environment.
#[derive(Debug)]
pub struct RuleSources {
    /// The program's own file.
    pub current_exe: Option<String>,
    /// Windows: the values of `SystemRoot`, `windir`, `ProgramFiles`,
    /// `ProgramFiles(x86)`, `ProgramW6432`, `ProgramData`, `APPDATA` and
    /// `LOCALAPPDATA`, in that order (`None` where unset).
    pub system_dirs: Vec<Option<String>>,
    /// Windows: the values of `OneDrive`, `OneDriveConsumer` and `OneDriveCommercial`.
    pub cloud_dirs: Vec<Option<String>>,
    /// The home folder: `USERPROFILE` on Windows, `HOME` elsewhere.
    pub home: Option<String>,
    /// Windows: the value of `PUBLIC`.
    pub public: Option<String>,
    /// Elsewhere: whether iCloud keeps the desktop (`Desktop`) in sync.
    pub icloud_desktop: bool,
    /// Elsewhere: whether iCloud keeps the documents (`Documents`) in sync.
    pub icloud_documents: bool,
}

/// The values that are set, in order.
pub open spec fn present(v: Seq<Option<String>>) -> Seq<Seq<char>>
    decreases v.len(),
{
    if v.len() == 0 {
        Seq::empty()
    } else {
        present(v.drop_last()) + match v.last() {
            Some(x) => seq![x@],
            None => Seq::empty(),
        }
    }
}

/// Each name, as a path below `home`.
pub open spec fn under(home: Seq<char>, names: Seq<Seq<char>>, style: PathStyle) -> Seq<Seq<char>> {
    Seq::new(names.len(), |i: int| crate::meta::joined(home, names[i], style))
}

pub open spec fn str_views(v: Seq<&str>) -> Seq<Seq<char>> {
    Seq::new(v.len(), |i: int| v[i]@)
}

pub open spec fn windows_syncs() -> Seq<&'static str> {
    seq!["Dropbox", "iCloudDrive", "Google Drive", "MYBOX"]
}

pub open spec fn windows_personal() -> Seq<&'static str> {
    seq!["Desktop", "Documents", "Downloads", "Pictures", "Music", "Videos", "Favorites", "Links", "Contacts",
        "Saved Games", "Searches", "3D Objects"]
}

pub open spec fn unix_system() -> Seq<&'static str> {
    seq!["/System", "/Library", "/Applications", "/usr", "/bin", "/sbin", "/etc", "/var", "/private/etc", "/private/var"]
}

pub open spec fn unix_syncs() -> Seq<&'static str> {
    seq!["Dropbox", "Google Drive", "MYBOX", "OneDrive"]
}

pub open spec fn unix_personal() -> Seq<&'static str> {
    seq!["Desktop", "Documents", "Downloads", "Pictures", "Music", "Movies"]
}

pub open spec fn opt_seq(o: Option<String>) -> Seq<Seq<char>> {
    match o {
        Some(x) => seq![x@],
        None => Seq::empty(),
    }
}

/// The folders below which nothing may be locked.
pub open spec fn default_tree(src: RuleSources, style: PathStyle) -> Seq<Seq<char>> {
    if style == PathStyle::Windows {
        present(src.system_dirs@) + present(src.cloud_dirs@) + match src.home {
            Some(h) => seq![crate::meta::joined(h@, "AppData"@, style)] + under(h@, str_views(windows_syncs()), style),
            None => Seq::empty(),
        }
    } else {
        str_views(unix_system()) + match src.home {
            Some(h) => seq![crate::meta::joined(h@, "Library"@, style)] + under(h@, str_views(unix_syncs()), style)
                + (if src.icloud_desktop { seq![crate::meta::joined(h@, "Desktop"@, style)] } else { Seq::empty() })
                + (if src.icloud_documents { seq![crate::meta::joined(h@, "Documents"@, style)] } else { Seq::empty() }),
            None => Seq::empty(),
        }
    }
}

/// The folders that may not be locked themselves.
pub open spec fn default_exact(src: RuleSources, style: PathStyle) -> Seq<Seq<char>> {
    if style == PathStyle::Windows {
        (match src.home {
            Some(h) => under(h@, str_views(windows_personal()), style) + seq![h@],
            None => Seq::empty(),
        }) + opt_seq(src.public) + seq!["C:\\Users"@]
    } else {
        match src.home {
            Some(h) => under(h@, str_views(unix_personal()), style) + seq![h@],
            None => Seq::empty(),
        }
    }
}

/// On Windows, with a home folder `h`: the home folder, its usual folders
/// (Desktop, Documents, Downloads, Pictures, Music, Videos, Favorites, Links,
/// Contacts, Saved Games, Searches, 3D Objects), the public folder and
/// `C:\\Users` may not be locked themselves; `AppData` and the cloud-synced
/// folders in it (Dropbox, iCloudDrive, Google Drive, MYBOX) may hold nothing
/// locked, nor may the system and cloud folders the environment names.
pub proof fn law_windows_defaults(src: RuleSources, h: String)
    requires
        src.home == Some(h),
    ensures
        default_exact(src, PathStyle::Windows).contains(crate::meta::joined(h@, "Desktop"@, PathStyle::Windows)),
        default_exact(src, PathStyle::Windows).contains(crate::meta::joined(h@, "Documents"@, PathStyle::Windows)),
        default_exact(src, PathStyle::Windows).contains(crate::meta::joined(h@, "Downloads"@, PathStyle::Windows)),
        default_exact(src, PathStyle::Windows).contains(crate::meta::joined(h@, "Pictures"@, PathStyle::Windows)),
        default_exact(src, PathStyle::Windows).contains(crate::meta::joined(h@, "Music"@, PathStyle::Windows)),
        default_exact(src, PathStyle::Windows).contains(crate::meta::joined(h@, "Videos"@, PathStyle::Windows)),
        default_exact(src, PathStyle::Windows).contains(crate::meta::joined(h@, "Favorites"@, PathStyle::Windows)),
        default_exact(src, PathStyle::Windows).contains(crate::meta::joined(h@, "Links"@, PathStyle::Windows)),
        default_exact(src, PathStyle::Windows).contains(crate::meta::joined(h@, "Contacts"@, PathStyle::Windows)),
        default_exact(src, PathStyle::Windows).contains(crate::meta::joined(h@, "Saved Games"@, PathStyle::Windows)),
        default_exact(src, PathStyle::Windows).contains(crate::meta::joined(h@, "Searches"@, PathStyle::Windows)),
        default_exact(src, PathStyle::Windows).contains(crate::meta::joined(h@, "3D Objects"@, PathStyle::Windows)),
        default_exact(src, PathStyle::Windows).contains(h@),
        default_exact(src, PathStyle::Windows).contains("C:\\Users"@),
        src.public matches Some(p) ==> default_exact(src, PathStyle::Windows).contains(p@),
        default_tree(src, PathStyle::Windows).contains(crate::meta::joined(h@, "AppData"@, PathStyle::Windows)),
        default_tree(src, PathStyle::Windows).contains(crate::meta::joined(h@, "Dropbox"@, PathStyle::Windows)),
        default_tree(src, PathStyle::Windows).contains(crate::meta::joined(h@, "iCloudDrive"@, PathStyle::Windows)),
        default_tree(src, PathStyle::Windows).contains(crate::meta::joined(h@, "Google Drive"@, PathStyle::Windows)),
        default_tree(src, PathStyle::Windows).contains(crate::meta::joined(h@, "MYBOX"@, PathStyle::Windows)),
        forall|k: int| 0 <= k < src.system_dirs@.len() && #[trigger] src.system_dirs@[k] is Some
            ==> default_tree(src, PathStyle::Windows).contains(src.system_dirs@[k].unwrap()@),
        forall|k: int| 0 <= k < src.cloud_dirs@.len() && #[trigger] src.cloud_dirs@[k] is Some
            ==> default_tree(src, PathStyle::Windows).contains(src.cloud_dirs@[k].unwrap()@),
{
    let exact = default_exact(src, PathStyle::Windows);
    let tree = default_tree(src, PathStyle::Windows);
    let personal = under(h@, str_views(windows_personal()), PathStyle::Windows);
    let syncs = under(h@, str_views(windows_syncs()), PathStyle::Windows);
    assert forall|k: int| 0 <= k < personal.len() implies exact.contains(#[trigger] personal[k]) by {
        assert(exact[k] == personal[k]);
    }
    assert(exact.contains(exact[personal.len() as int]));
    assert(exact.contains(exact[exact.len() - 1]));
    if let Some(p) = src.public {
        assert(exact.contains(exact[personal.len() as int + 1]));
    }
    assert(personal[0] == crate::meta::joined(h@, "Desktop"@, PathStyle::Windows));
    assert(personal[1] == crate::meta::joined(h@, "Documents"@, PathStyle::Windows));
    assert(personal[2] == crate::meta::joined(h@, "Downloads"@, PathStyle::Windows));
    assert(personal[3] == crate::meta::joined(h@, "Pictures"@, PathStyle::Windows));
    assert(personal[4] == crate::meta::joined(h@, "Music"@, PathStyle::Windows));
    assert(personal[5] == crate::meta::joined(h@, "Videos"@, PathStyle::Windows));
    assert(personal[6] == crate::meta::joined(h@, "Favorites"@, PathStyle::Windows));
    assert(personal[7] == crate::meta::joined(h@, "Links"@, PathStyle::Windows));
    assert(personal[8] == crate::meta::joined(h@, "Contacts"@, PathStyle::Windows));
    assert(personal[9] == crate::meta::joined(h@, "Saved Games"@, PathStyle::Windows));
    assert(personal[10] == crate::meta::joined(h@, "Searches"@, PathStyle::Windows));
    assert(personal[11] == crate::meta::joined(h@, "3D Objects"@, PathStyle::Windows));
    let pre = present(src.system_dirs@) + present(src.cloud_dirs@);
    assert(tree.contains(tree[pre.len() as int]));
    assert forall|k: int| 0 <= k < syncs.len() implies tree.contains(#[trigger] syncs[k]) by {
        assert(tree[pre.len() + 1 + k] == syncs[k]);
    }
    assert(syncs[0] == crate::meta::joined(h@, "Dropbox"@, PathStyle::Windows));
    assert(syncs[1] == crate::meta::joined(h@, "iCloudDrive"@, PathStyle::Windows));
    assert(syncs[2] == crate::meta::joined(h@, "Google Drive"@, PathStyle::Windows));
    assert(syncs[3] == crate::meta::joined(h@, "MYBOX"@, PathStyle::Windows));
    assert forall|k: int| 0 <= k < src.system_dirs@.len() && #[trigger] src.system_dirs@[k] is Some
        implies tree.contains(src.system_dirs@[k].unwrap()@) by {
        lemma_present_has(src.system_dirs@, k);
        let m = choose|m: int| 0 <= m < present(src.system_dirs@).len() && present(src.system_dirs@)[m] == src.system_dirs@[k].unwrap()@;
        assert(tree[m] == src.system_dirs@[k].unwrap()@);
    }
    assert forall|k: int| 0 <= k < src.cloud_dirs@.len() && #[trigger] src.cloud_dirs@[k] is Some
        implies tree.contains(src.cloud_dirs@[k].unwrap()@) by {
        lemma_present_has(src.cloud_dirs@, k);
        let m = choose|m: int| 0 <= m < present(src.cloud_dirs@).len() && present(src.cloud_dirs@)[m] == src.cloud_dirs@[k].unwrap()@;
        assert(tree[present(src.system_dirs@).len() + m] == src.cloud_dirs@[k].unwrap()@);
    }
}

/// Every value that is set is among those `present` keeps.
proof fn lemma_present_has(v: Seq<Option<String>>, k: int)
    requires
        0 <= k < v.len(),
        v[k] is Some,
    ensures
        exists|m: int| 0 <= m < present(v).len() && present(v)[m] == v[k].unwrap()@,
    decreases v.len(),
{
    let last = v.len() - 1;
    if k == last {
        let m = present(v.drop_last()).len() as int;
        assert(present(v)[m] == v[k].unwrap()@);
    } else {
        assert(v.drop_last()[k] == v[k]);
        lemma_present_has(v.drop_last(), k);
        let m = choose|m: int| 0 <= m < present(v.drop_last()).len() && present(v.drop_last())[m] == v[k].unwrap()@;
        assert(present(v)[m] == v[k].unwrap()@);
    }
}

/// Elsewhere, with a home folder `h`: the home folder and its usual folders
/// (Desktop, Documents, Downloads, Pictures, Music, Movies) may not be locked
/// themselves; the system folders, `Library` and the cloud-synced folders
/// (Dropbox, Google Drive, MYBOX, OneDrive) may hold nothing locked, nor may
/// the desktop and documents where iCloud keeps them in sync.
pub proof fn law_unix_defaults(src: RuleSources, h: String)
    requires
        src.home == Some(h),
    ensures
        default_exact(src, PathStyle::Unix).contains(crate::meta::joined(h@, "Desktop"@, PathStyle::Unix)),
        default_exact(src, PathStyle::Unix).contains(crate::meta::joined(h@, "Documents"@, PathStyle::Unix)),
        default_exact(src, PathStyle::Unix).contains(crate::meta::joined(h@, "Downloads"@, PathStyle::Unix)),
        default_exact(src, PathStyle::Unix).contains(crate::meta::joined(h@, "Pictures"@, PathStyle::Unix)),
        default_exact(src, PathStyle::Unix).contains(crate::meta::joined(h@, "Music"@, PathStyle::Unix)),
        default_exact(src, PathStyle::Unix).contains(crate::meta::joined(h@, "Movies"@, PathStyle::Unix)),
        default_exact(src, PathStyle::Unix).contains(h@),
        default_tree(src, PathStyle::Unix).contains("/System"@),
        default_tree(src, PathStyle::Unix).contains("/Library"@),
        default_tree(src, PathStyle::Unix).contains("/Applications"@),
        default_tree(src, PathStyle::Unix).contains("/usr"@),
        default_tree(src, PathStyle::Unix).contains("/bin"@),
        default_tree(src, PathStyle::Unix).contains("/sbin"@),
        default_tree(src, PathStyle::Unix).contains("/etc"@),
        default_tree(src, PathStyle::Unix).contains("/var"@),
        default_tree(src, PathStyle::Unix).contains("/private/etc"@),
        default_tree(src, PathStyle::Unix).contains("/private/var"@),
        default_tree(src, PathStyle::Unix).contains(crate::meta::joined(h@, "Library"@, PathStyle::Unix)),
        default_tree(src, PathStyle::Unix).contains(crate::meta::joined(h@, "Dropbox"@, PathStyle::Unix)),
        default_tree(src, PathStyle::Unix).contains(crate::meta::joined(h@, "Google Drive"@, PathStyle::Unix)),
        default_tree(src, PathStyle::Unix).contains(crate::meta::joined(h@, "MYBOX"@, PathStyle::Unix)),
        default_tree(src, PathStyle::Unix).contains(crate::meta::joined(h@, "OneDrive"@, PathStyle::Unix)),
        src.icloud_desktop ==> default_tree(src, PathStyle::Unix).contains(crate::meta::joined(h@, "Desktop"@, PathStyle::Unix)),
        src.icloud_documents ==> default_tree(src, PathStyle::Unix).contains(crate::meta::joined(h@, "Documents"@, PathStyle::Unix)),
{
    let exact = default_exact(src, PathStyle::Unix);
    let tree = default_tree(src, PathStyle::Unix);
    let personal = under(h@, str_views(unix_personal()), PathStyle::Unix);
    let syncs = under(h@, str_views(unix_syncs()), PathStyle::Unix);
    let sys = str_views(unix_system());
    assert forall|k: int| 0 <= k < personal.len() implies exact.contains(#[trigger] personal[k]) by {
        assert(exact[k] == personal[k]);
    }
    assert(exact.contains(exact[personal.len() as int]));
    assert(personal[0] == crate::meta::joined(h@, "Desktop"@, PathStyle::Unix));
    assert(personal[1] == crate::meta::joined(h@, "Documents"@, PathStyle::Unix));
    assert(personal[2] == crate::meta::joined(h@, "Downloads"@, PathStyle::Unix));
    assert(personal[3] == crate::meta::joined(h@, "Pictures"@, PathStyle::Unix));
    assert(personal[4] == crate::meta::joined(h@, "Music"@, PathStyle::Unix));
    assert(personal[5] == crate::meta::joined(h@, "Movies"@, PathStyle::Unix));
    assert forall|k: int| 0 <= k < sys.len() implies tree.contains(#[trigger] sys[k]) by {
        assert(tree[k] == sys[k]);
    }
    assert(sys[0] == "/System"@);
    assert(sys[1] == "/Library"@);
    assert(sys[2] == "/Applications"@);
    assert(sys[3] == "/usr"@);
    assert(sys[4] == "/bin"@);
    assert(sys[5] == "/sbin"@);
    assert(sys[6] == "/etc"@);
    assert(sys[7] == "/var"@);
    assert(sys[8] == "/private/etc"@);
    assert(sys[9] == "/private/var"@);
    assert(tree.contains(tree[sys.len() as int]));
    assert forall|k: int| 0 <= k < syncs.len() implies tree.contains(#[trigger] syncs[k]) by {
        assert(tree[sys.len() + 1 + k] == syncs[k]);
    }
    assert(syncs[0] == crate::meta::joined(h@, "Dropbox"@, PathStyle::Unix));
    assert(syncs[1] == crate::meta::joined(h@, "Google Drive"@, PathStyle::Unix));
    assert(syncs[2] == crate::meta::joined(h@, "MYBOX"@, PathStyle::Unix));
    assert(syncs[3] == crate::meta::joined(h@, "OneDrive"@, PathStyle::Unix));
    if src.icloud_desktop {
        assert(tree.contains(tree[sys.len() as int + 1 + syncs.len()]));
    }
    if src.icloud_documents {
        assert(tree.contains(tree[tree.len() - 1]));
    }
}

fn push_present(out: &mut Vec<String>, v: &Vec<Option<String>>)
    ensures
        crate::task::texts(final(out)@) == crate::task::texts(old(out)@) + present(v@),
{
    let ghost o0 = crate::task::texts(out@);
    let mut i: usize = 0;
    while i < v.len()
        invariant
            i <= v@.len(),
            crate::task::texts(out@) == o0 + present(v@.take(i as int)),
        decreases v.len() - i,
    {
        proof {
            assert(v@.take(i + 1).drop_last() =~= v@.take(i as int));
        }
        match &v[i] {
            Some(x) => push_text(out, x.clone()),
            None => {},
        }
        i = i + 1;
        assert(crate::task::texts(out@) =~= o0 + present(v@.take(i as int)));
    }
    assert(v@.take(v@.len() as int) =~= v@);
}

fn push_under(out: &mut Vec<String>, home: &str, names: &Vec<&str>, style: PathStyle)
    ensures
        crate::task::texts(final(out)@) == crate::task::texts(old(out)@) + under(home@, str_views(names@), style),
{
    let ghost o0 = crate::task::texts(out@);
    let mut i: usize = 0;
    while i < names.len()
        invariant
            i <= names@.len(),
            crate::task::texts(out@) == o0 + under(home@, str_views(names@.take(i as int)), style),
        decreases names.len() - i,
    {
        let p = crate::meta::join(home, names[i], style);
        proof { crate::task::lemma_texts_push(out@, p); }
        out.push(p);
        i = i + 1;
        assert(crate::task::texts(out@) =~= o0 + under(home@, str_views(names@.take(i as int)), style));
    }
    assert(names@.take(names@.len() as int) =~= names@);
}

fn push_text(out: &mut Vec<String>, x: String)
    ensures
        crate::task::texts(final(out)@) == crate::task::texts(old(out)@) + seq![x@],
{
    proof { crate::task::lemma_texts_push(out@, x); }
    out.push(x);
    assert(crate::task::texts(out@) =~= crate::task::texts(old(out)@) + seq![x@]);
}

/// The platform's default rules (`style` tells Windows from the others):
/// system and program folders and cloud-synced folders may hold nothing
/// locked, the home folder and its usual folders may not be locked
/// themselves, and no locked folder may hold the program or `extra_protected`.
pub fn default_rules(extra_protected: &Vec<String>, src: &RuleSources, style: PathStyle) -> (r: Rules)
    ensures
        crate::task::texts(r.must_not_contain@) == crate::task::texts(extra_protected@) + opt_seq(src.current_exe),
        crate::task::texts(r.forbidden_tree@) == default_tree(*src, style),
        crate::task::texts(r.forbidden_exact@) == default_exact(*src, style),
{
    let mut must: Vec<String> = Vec::new();
    let mut i: usize = 0;
    while i < extra_protected.len()
        invariant
            i <= extra_protected@.len(),
            crate::task::texts(must@) == crate::task::texts(extra_protected@.take(i as int)),
        decreases extra_protected.len() - i,
    {
        push_text(&mut must, extra_protected[i].clone());
        i = i + 1;
        assert(crate::task::texts(must@) =~= crate::task::texts(extra_protected@.take(i as int)));
    }
    assert(extra_protected@.take(extra_protected@.len() as int) =~= extra_protected@);
    match &src.current_exe {
        Some(e) => push_text(&mut must, e.clone()),
        None => {},
    }
    assert(crate::task::texts(must@) =~= crate::task::texts(extra_protected@) + opt_seq(src.current_exe));
    let mut tree: Vec<String> = Vec::new();
    let mut exact: Vec<String> = Vec::new();
    match style {
        PathStyle::Windows => {
            push_present(&mut tree, &src.system_dirs);
            push_present(&mut tree, &src.cloud_dirs);
            match &src.home {
                Some(h) => {
                    push_text(&mut tree, crate::meta::join(h.as_str(), "AppData", style));
                    let syncs = vec!["Dropbox", "iCloudDrive", "Google Drive", "MYBOX"];
                    assert(syncs@ == windows_syncs());
                    push_under(&mut tree, h.as_str(), &syncs, style);
                    let subs = vec!["Desktop", "Documents", "Downloads", "Pictures", "Music", "Videos", "Favorites",
                        "Links", "Contacts", "Saved Games", "Searches", "3D Objects"];
                    assert(subs@ == windows_personal());
                    push_under(&mut exact, h.as_str(), &subs, style);
                    push_text(&mut exact, h.clone());
                },
                None => {},
            }
            match &src.public {
                Some(p) => push_text(&mut exact, p.clone()),
                None => {},
            }
            push_text(&mut exact, String::from_str("C:\\Users"));
        },
        PathStyle::Unix => {
            let system = vec!["/System", "/Library", "/Applications", "/usr", "/bin", "/sbin", "/etc", "/var",
                "/private/etc", "/private/var"];
            assert(system@ == unix_system());
            let mut k: usize = 0;
            while k < system.len()
                invariant
                    k <= system@.len(),
                    system@ == unix_system(),
                    crate::task::texts(tree@) == str_views(system@.take(k as int)),
                decreases system.len() - k,
            {
                push_text(&mut tree, String::from_str(system[k]));
                k = k + 1;
                assert(crate::task::texts(tree@) =~= str_views(system@.take(k as int)));
            }
            assert(system@.take(system@.len() as int) =~= system@);
            match &src.home {
                Some(h) => {
                    push_text(&mut tree, crate::meta::join(h.as_str(), "Library", style));
                    let syncs = vec!["Dropbox", "Google Drive", "MYBOX", "OneDrive"];
                    assert(syncs@ == unix_syncs());
                    push_under(&mut tree, h.as_str(), &syncs, style);
                    if src.icloud_desktop {
                        push_text(&mut tree, crate::meta::join(h.as_str(), "Desktop", style));
                    }
                    if src.icloud_documents {
                        push_text(&mut tree, crate::meta::join(h.as_str(), "Documents", style));
                    }
                    let subs = vec!["Desktop", "Documents", "Downloads", "Pictures", "Music", "Movies"];
                    assert(subs@ == unix_personal());
                    push_under(&mut exact, h.as_str(), &subs, style);
                    push_text(&mut exact, h.clone());
                },
                None => {},
            }
        },
    }
    assert(crate::task::texts(tree@) =~= default_tree(*src, style));
    assert(crate::task::texts(exact@) =~= default_exact(*src, style));
    Rules { forbidden_exact: exact, forbidden_tree: tree, must_not_contain: must }
}

} // verus!
