//! Classifies an input string as a remote locator or a local path.
//!
//! The decision is a pure function of the string. Shapes that are known to be
//! local paths are recognised first; only then is the string tested for the
//! shapes of a network locator.

use vstd::prelude::*;
use crate::text::{
    ascii_fold, case_fold, chars_of, has_prefix, has_prefix_ignore_ascii_case,
    has_prefix_ignore_case, starts_with_ignore_case, is_ascii_digit, is_ascii_letter, is_digit,
    is_letter, is_space, is_white_space, lemma_trim_keeps_prefix, starts_with,
    starts_with_ignore_ascii_case, trim, trimmed,
};

verus! {

/// What the pipeline is asked to work on.
#[derive(Clone, Copy, Debug, PartialEq, Eq, Structural)]
pub enum PipelineInput {
    /// A string to hand to the download tool.
    RemoteLocator,
    /// A path in the local file system.
    LocalPath,
}

/// A letter, a colon, then a slash or a backslash: `C:\` or `d:/`.
pub open spec fn is_drive_path(t: Seq<char>) -> bool {
    &&& t.len() >= 3
    &&& is_ascii_letter(t[0])
    &&& t[1] == ':'
    &&& (t[2] == '\\' || t[2] == '/')
}

/// The shapes that are always taken for a local path.
pub open spec fn looks_local(t: Seq<char>) -> bool {
    ||| has_prefix(t, "./"@)
    ||| has_prefix(t, "../"@)
    ||| has_prefix(t, ".\\"@)
    ||| has_prefix(t, "..\\"@)
    ||| has_prefix(t, "/"@)
    ||| has_prefix(t, "~/"@)
    ||| is_drive_path(t)
    ||| has_prefix(t, "\\\\"@)
    ||| has_prefix_ignore_ascii_case(t, "file://"@)
}

/// `http://`, `https://` or `ftp://` in front, without regard to the case of
/// the letters.
pub open spec fn has_remote_scheme(t: Seq<char>) -> bool {
    ||| has_prefix_ignore_case(t, "http://"@)
    ||| has_prefix_ignore_case(t, "https://"@)
    ||| has_prefix_ignore_case(t, "ftp://"@)
}

/// A character of a host label: a letter, a digit or a hyphen.
pub open spec fn is_label_char(c: char) -> bool {
    is_ascii_letter(c) || is_ascii_digit(c) || c == '-'
}

/// A character that may occur in a dotted host name.
pub open spec fn is_host_char(c: char) -> bool {
    is_label_char(c) || c == '.'
}

/// The first character of what may follow a host name.
pub open spec fn is_tail_start(c: char) -> bool {
    c == '/' || c == ':' || c == '?' || c == '#'
}

/// One or more non-empty labels with a single dot between neighbours.
pub open spec fn is_dotted_labels(d: Seq<char>) -> bool {
    &&& d.len() > 0
    &&& forall|k: int| 0 <= k < d.len() ==> is_host_char(#[trigger] d[k])
    &&& d[0] != '.'
    &&& d.last() != '.'
    &&& forall|k: int| #![trigger d[k]] 0 <= k < d.len() - 1 ==> !(d[k] == '.' && d[k + 1] == '.')
}

/// Nothing, or a path, port, query or fragment without white space.
pub open spec fn is_locator_tail(r: Seq<char>) -> bool {
    r.len() == 0 || (is_tail_start(r[0]) && forall|k: int|
        1 <= k < r.len() ==> !is_white_space(#[trigger] r[k]))
}

/// `t` reads as dotted labels up to `dot`, a dot, a top-level label of 2 to
/// 63 letters up to `end`, and a locator tail.
pub open spec fn bare_domain_split(t: Seq<char>, dot: int, end: int) -> bool {
    &&& 0 < dot < end <= t.len()
    &&& is_dotted_labels(t.subrange(0, dot))
    &&& t[dot] == '.'
    &&& 2 <= end - dot - 1 <= 63
    &&& forall|k: int| dot < k < end ==> is_ascii_letter(#[trigger] t[k])
    &&& is_locator_tail(t.subrange(end, t.len() as int))
}

/// A host name written without a scheme, such as `example.com/path`.
pub open spec fn is_bare_domain(t: Seq<char>) -> bool {
    exists|dot: int, end: int| bare_domain_split(t, dot, end)
}

/// Whether the trimmed input `t` is a remote locator.
pub open spec fn is_remote_shape(t: Seq<char>) -> bool {
    &&& t.len() > 0
    &&& !looks_local(t)
    &&& (has_remote_scheme(t) || has_prefix(t, "//"@) || is_bare_domain(t))
}

/// The class of the input `s`.
pub open spec fn classification(s: Seq<char>) -> PipelineInput {
    if is_remote_shape(trimmed(s)) {
        PipelineInput::RemoteLocator
    } else {
        PipelineInput::LocalPath
    }
}

/// Trimming keeps a prefix that holds no white space.
proof fn lemma_prefix_survives_trim(s: Seq<char>, p: Seq<char>)
    requires
        has_prefix(s, p),
        p.len() > 0,
        forall|k: int| 0 <= k < p.len() ==> !is_white_space(#[trigger] p[k]),
    ensures
        has_prefix(trimmed(s), p),
{
    assert forall|k: int| 0 <= k < p.len() implies !is_white_space(#[trigger] s[k]) by {
        assert(s.subrange(0, p.len() as int)[k] == p[k]);
    }
    lemma_trim_keeps_prefix(s, p.len() as int);
    assert forall|k: int| 0 <= k < p.len() implies trimmed(s).subrange(0, p.len() as int)[k]
        == p[k] by {
        assert(s.subrange(0, p.len() as int)[k] == p[k]);
    }
}

/// Trimming keeps a prefix that matches, ASCII case aside, a pattern made of
/// lower-case letters, colons and slashes.
proof fn lemma_folded_prefix_survives_trim(s: Seq<char>, p: Seq<char>)
    requires
        has_prefix_ignore_ascii_case(s, p),
        p.len() > 0,
        forall|k: int|
            0 <= k < p.len() ==> 0x61 <= (#[trigger] p[k]) as u32 <= 0x7A || p[k] == ':' || p[k]
                == '/',
    ensures
        has_prefix_ignore_ascii_case(trimmed(s), p),
{
    assert forall|k: int| 0 <= k < p.len() implies !is_white_space(#[trigger] s[k]) by {
        assert(ascii_fold(s[k]) == ascii_fold(p[k]));
    }
    lemma_trim_keeps_prefix(s, p.len() as int);
    assert forall|k: int| 0 <= k < p.len() implies ascii_fold(#[trigger] trimmed(s)[k])
        == ascii_fold(p[k]) by {
        assert(ascii_fold(s[k]) == ascii_fold(p[k]));
    }
}

/// Trimming keeps a prefix that matches, case aside, a pattern made of
/// lower-case letters, colons and slashes.
proof fn lemma_scheme_survives_trim(s: Seq<char>, p: Seq<char>)
    requires
        has_prefix_ignore_case(s, p),
        p.len() > 0,
        forall|k: int|
            0 <= k < p.len() ==> 0x61 <= (#[trigger] p[k]) as u32 <= 0x7A || p[k] == ':' || p[k]
                == '/',
    ensures
        has_prefix_ignore_case(trimmed(s), p),
{
    assert forall|k: int| 0 <= k < p.len() implies !is_white_space(#[trigger] s[k]) by {
        assert(case_fold(s[k]) == case_fold(p[k]));
    }
    lemma_trim_keeps_prefix(s, p.len() as int);
    assert forall|k: int| 0 <= k < p.len() implies case_fold(#[trigger] trimmed(s)[k])
        == case_fold(p[k]) by {
        assert(case_fold(s[k]) == case_fold(p[k]));
    }
}

/// An input that begins with the shape of a local path is classified as a
/// local path, whatever follows: `./`, `../`, `.\`, `..\`, `/`, `~/`, a drive
/// letter with its colon and separator, `\\`, or `file://` in any ASCII case.
pub proof fn lemma_local_shape_is_local_path(s: Seq<char>)
    requires
        looks_local(s),
    ensures
        classification(s) == PipelineInput::LocalPath,
{
    reveal_strlit("./");
    reveal_strlit("../");
    reveal_strlit(".\\");
    reveal_strlit("..\\");
    reveal_strlit("/");
    reveal_strlit("~/");
    reveal_strlit("\\\\");
    reveal_strlit("file://");
    let t = trimmed(s);
    if has_prefix(s, "./"@) {
        lemma_prefix_survives_trim(s, "./"@);
    } else if has_prefix(s, "../"@) {
        lemma_prefix_survives_trim(s, "../"@);
    } else if has_prefix(s, ".\\"@) {
        lemma_prefix_survives_trim(s, ".\\"@);
    } else if has_prefix(s, "..\\"@) {
        lemma_prefix_survives_trim(s, "..\\"@);
    } else if has_prefix(s, "/"@) {
        lemma_prefix_survives_trim(s, "/"@);
    } else if has_prefix(s, "~/"@) {
        lemma_prefix_survives_trim(s, "~/"@);
    } else if is_drive_path(s) {
        lemma_trim_keeps_prefix(s, 3);
        assert(is_drive_path(t));
    } else if has_prefix(s, "\\\\"@) {
        lemma_prefix_survives_trim(s, "\\\\"@);
    } else {
        lemma_folded_prefix_survives_trim(s, "file://"@);
    }
    assert(looks_local(t));
}

/// A string that begins with `//` begins with `/`, which is the shape of a
/// local path: among the remote shapes the leading `//` never decides.
pub proof fn lemma_double_slash_is_local(t: Seq<char>)
    requires
        has_prefix(t, "//"@),
    ensures
        looks_local(t),
        !is_remote_shape(t),
{
    reveal_strlit("//");
    reveal_strlit("/");
    assert(t.subrange(0, 2)[0] == '/');
    assert(t.subrange(0, 1) =~= "/"@);
}

/// An input that begins with `http://`, `https://` or `ftp://`, in any mix of
/// upper and lower case, is classified as a remote locator.
pub proof fn lemma_scheme_is_remote_locator(s: Seq<char>)
    requires
        has_remote_scheme(s),
    ensures
        classification(s) == PipelineInput::RemoteLocator,
{
    reveal_strlit("http://");
    reveal_strlit("https://");
    reveal_strlit("ftp://");
    let t = trimmed(s);
    if has_prefix_ignore_case(s, "http://"@) {
        lemma_scheme_survives_trim(s, "http://"@);
    } else if has_prefix_ignore_case(s, "https://"@) {
        lemma_scheme_survives_trim(s, "https://"@);
    } else {
        lemma_scheme_survives_trim(s, "ftp://"@);
    }
    assert(has_remote_scheme(t));
    assert(t.len() >= 6);
    assert(case_fold(t[0]) == 0x68 || case_fold(t[0]) == 0x66);
    assert(case_fold(t[1]) == 0x74);
    lemma_not_local(t);
}

/// A string whose first two characters are letters other than `i` in second
/// place has none of the local shapes.
proof fn lemma_not_local(t: Seq<char>)
    requires
        t.len() >= 2,
        is_ascii_letter(t[0]),
        is_ascii_letter(t[1]),
        ascii_fold(t[1]) != 0x69,
    ensures
        !looks_local(t),
{
    reveal_strlit("./");
    reveal_strlit("../");
    reveal_strlit(".\\");
    reveal_strlit("..\\");
    reveal_strlit("/");
    reveal_strlit("~/");
    reveal_strlit("\\\\");
    reveal_strlit("file://");
    if has_prefix(t, "./"@) {
        assert(t.subrange(0, 2)[0] == '.');
    }
    if has_prefix(t, "../"@) {
        assert(t.subrange(0, 3)[0] == '.');
    }
    if has_prefix(t, ".\\"@) {
        assert(t.subrange(0, 2)[0] == '.');
    }
    if has_prefix(t, "..\\"@) {
        assert(t.subrange(0, 3)[0] == '.');
    }
    if has_prefix(t, "/"@) {
        assert(t.subrange(0, 1)[0] == '/');
    }
    if has_prefix(t, "~/"@) {
        assert(t.subrange(0, 2)[0] == '~');
    }
    if has_prefix(t, "\\\\"@) {
        assert(t.subrange(0, 2)[0] == '\\');
    }
    if has_prefix_ignore_ascii_case(t, "file://"@) {
        assert(ascii_fold(t[1]) == ascii_fold("file://"@[1]));
    }
}

/// Decides [`is_host_char`].
fn host_char(c: char) -> (r: bool)
    ensures
        r == is_host_char(c),
{
    is_letter(c) || is_digit(c) || c == '-' || c == '.'
}

/// Decides [`is_drive_path`].
fn drive_path(t: &Vec<char>) -> (r: bool)
    ensures
        r == is_drive_path(t@),
{
    t.len() >= 3 && is_letter(t[0]) && t[1] == ':' && (t[2] == '\\' || t[2] == '/')
}

/// Decides [`looks_local`].
fn local_shape(t: &Vec<char>) -> (r: bool)
    ensures
        r == looks_local(t@),
{
    starts_with(t, &chars_of("./")) || starts_with(t, &chars_of("../")) || starts_with(
        t,
        &chars_of(".\\"),
    ) || starts_with(t, &chars_of("..\\")) || starts_with(t, &chars_of("/")) || starts_with(
        t,
        &chars_of("~/"),
    ) || drive_path(t) || starts_with(t, &chars_of("\\\\")) || starts_with_ignore_ascii_case(
        t,
        &chars_of("file://"),
    )
}

/// Decides [`has_remote_scheme`].
fn remote_scheme(t: &Vec<char>) -> (r: bool)
    ensures
        r == has_remote_scheme(t@),
{
    starts_with_ignore_case(t, &chars_of("http://")) || starts_with_ignore_case(
        t,
        &chars_of("https://"),
    ) || starts_with_ignore_case(t, &chars_of("ftp://"))
}

/// A split of `t` can only sit where the host characters end and where the
/// trailing letters begin.
proof fn lemma_split_is_forced(t: Seq<char>, dot: int, end: int, lo: int, hi: int)
    requires
        bare_domain_split(t, dot, end),
        0 <= lo <= hi <= t.len(),
        forall|k: int| 0 <= k < hi ==> is_host_char(#[trigger] t[k]),
        hi < t.len() ==> !is_host_char(t[hi]),
        forall|k: int| lo <= k < hi ==> is_ascii_letter(#[trigger] t[k]),
        lo > 0 ==> !is_ascii_letter(t[lo - 1]),
    ensures
        end == hi,
        lo > 0,
        dot == lo - 1,
{
    let d = t.subrange(0, dot);
    assert forall|k: int| 0 <= k < end implies is_host_char(#[trigger] t[k]) by {
        if k < dot {
            assert(d[k] == t[k]);
        }
    }
    if end < hi {
        let r = t.subrange(end, t.len() as int);
        assert(r[0] == t[end]);
        assert(is_host_char(t[end]));
    }
    if end > hi {
        assert(is_host_char(t[hi]));
    }
    assert(end == hi);
    if lo == 0 || dot < lo - 1 {
        assert(is_ascii_letter(t[dot]) || dot + 1 < lo);
        if dot + 1 < lo {
            assert(is_ascii_letter(t[lo - 1]));
        }
    }
    if lo > 0 && dot > lo - 1 {
        assert(is_ascii_letter(t[dot]));
    }
}

/// Decides [`is_locator_tail`] for what follows index `end`.
fn locator_tail(t: &Vec<char>, end: usize) -> (r: bool)
    requires
        end <= t.len(),
    ensures
        r == is_locator_tail(t@.subrange(end as int, t.len() as int)),
{
    let ghost rest = t@.subrange(end as int, t.len() as int);
    if end == t.len() {
        return true;
    }
    let c = t[end];
    assert(rest[0] == c);
    if !(c == '/' || c == ':' || c == '?' || c == '#') {
        return false;
    }
    let mut k: usize = end + 1;
    while k < t.len()
        invariant
            end < k <= t.len(),
            rest == t@.subrange(end as int, t.len() as int),
            forall|j: int| 1 <= j < k - end ==> !is_white_space(#[trigger] rest[j]),
        decreases t.len() - k,
    {
        if is_space(t[k]) {
            assert(rest[k - end] == t@[k as int]);
            return false;
        }
        assert(rest[k - end] == t@[k as int]);
        k += 1;
    }
    true
}

/// Decides [`is_dotted_labels`] for the first `n` characters of `t`, all of
/// which are known to be host characters.
fn dotted_labels(t: &Vec<char>, n: usize) -> (r: bool)
    requires
        n <= t.len(),
        forall|k: int| 0 <= k < n ==> is_host_char(#[trigger] t@[k]),
    ensures
        r == is_dotted_labels(t@.subrange(0, n as int)),
{
    let ghost d = t@.subrange(0, n as int);
    if n == 0 {
        return false;
    }
    assert(d[0] == t@[0] && d.last() == t@[n - 1]);
    if t[0] == '.' || t[n - 1] == '.' {
        return false;
    }
    assert forall|k: int| 0 <= k < d.len() implies is_host_char(#[trigger] d[k]) by {
        assert(d[k] == t@[k]);
    }
    let mut k: usize = 0;
    while k + 1 < n
        invariant
            k < n <= t.len(),
            d == t@.subrange(0, n as int),
            forall|j: int| #![trigger d[j]] 0 <= j < k ==> !(d[j] == '.' && d[j + 1] == '.'),
        decreases n - k,
    {
        if t[k] == '.' && t[k + 1] == '.' {
            assert(d[k as int] == '.' && d[k + 1] == '.');
            return false;
        }
        assert(d[k as int] == t@[k as int] && d[k + 1] == t@[k + 1]);
        k += 1;
    }
    true
}

/// Decides [`is_bare_domain`].
pub fn bare_domain(t: &Vec<char>) -> (r: bool)
    ensures
        r == is_bare_domain(t@),
{
    let n = t.len();
    let mut hi: usize = 0;
    while hi < n && host_char(t[hi])
        invariant
            hi <= n == t.len(),
            forall|k: int| 0 <= k < hi ==> is_host_char(#[trigger] t@[k]),
        decreases n - hi,
    {
        hi += 1;
    }
    let mut lo: usize = hi;
    while lo > 0 && is_letter(t[lo - 1])
        invariant
            lo <= hi <= t.len(),
            forall|k: int| lo <= k < hi ==> is_ascii_letter(#[trigger] t@[k]),
        decreases lo,
    {
        lo -= 1;
    }
    proof {
        assert forall|dot: int, end: int| bare_domain_split(t@, dot, end) implies end == hi && lo
            > 0 && dot == lo - 1 by {
            lemma_split_is_forced(t@, dot, end, lo as int, hi as int);
        }
    }
    if lo == 0 {
        return false;
    }
    let dot: usize = lo - 1;
    let r = dot > 0 && t[dot] == '.' && hi - lo >= 2 && hi - lo <= 63 && locator_tail(t, hi)
        && dotted_labels(t, dot);
    assert(r == bare_domain_split(t@, dot as int, hi as int));
    r
}

/// Whether `s` reads as a remote locator rather than a local path.
///
/// White space around the input is ignored. The empty input and every shape
/// of a local path (relative, absolute, home-relative, drive, UNC, `file://`)
/// give `false`; after that a known scheme, a leading `//` or a bare host
/// name give `true`, and anything else `false`.
pub fn is_probable_url(s: &str) -> (r: bool)
    ensures
        r == is_remote_shape(trimmed(s@)),
        r == (classification(s@) == PipelineInput::RemoteLocator),
{
    let v = chars_of(s);
    let t = trim(&v);
    if t.len() == 0 {
        return false;
    }
    if local_shape(&t) {
        return false;
    }
    remote_scheme(&t) || starts_with(&t, &chars_of("//")) || bare_domain(&t)
}

/// Classifies `input` as a remote locator or a local path.
pub fn classify(input: &str) -> (r: PipelineInput)
    ensures
        r == classification(input@),
{
    if is_probable_url(input) {
        PipelineInput::RemoteLocator
    } else {
        PipelineInput::LocalPath
    }
}

} // verus!
