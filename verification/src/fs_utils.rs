//! Decisions about files that need no access to the file system: which names
//! to try for an input without an extension, and which of the files of a
//! directory has a given extension.

use vstd::prelude::*;
use crate::text::{ascii_fold, chars_of, concat3, fold_ascii, str_view};

verus! {

/// How many extensions are tried for an input without one.
pub const MEDIA_EXTENSION_COUNT: usize = 12;

/// The extensions that are tried for an input without one, in this order.
pub open spec fn media_extensions() -> Seq<Seq<char>> {
    seq![
        "mp4"@,
        "mkv"@,
        "webm"@,
        "mov"@,
        "m4a"@,
        "mp3"@,
        "wav"@,
        "flac"@,
        "avi"@,
        "m4v"@,
        "aac"@,
        "opus"@,
    ]
}

/// The `k`-th extension of [`media_extensions`].
pub fn media_extension(k: usize) -> (ext: &'static str)
    requires
        k < MEDIA_EXTENSION_COUNT,
    ensures
        ext@ == media_extensions()[k as int],
{
    if k == 0 {
        "mp4"
    } else if k == 1 {
        "mkv"
    } else if k == 2 {
        "webm"
    } else if k == 3 {
        "mov"
    } else if k == 4 {
        "m4a"
    } else if k == 5 {
        "mp3"
    } else if k == 6 {
        "wav"
    } else if k == 7 {
        "flac"
    } else if k == 8 {
        "avi"
    } else if k == 9 {
        "m4v"
    } else if k == 10 {
        "aac"
    } else {
        "opus"
    }
}

/// Whether a file name holds a dot, and so an extension of its own.
pub open spec fn has_apparent_extension(file_name: Seq<char>) -> bool {
    file_name.contains('.')
}

/// The name that is tried for `file_name` with the `k`-th extension.
pub open spec fn sibling_name(file_name: Seq<char>, k: int) -> Seq<char> {
    file_name + "."@ + media_extensions()[k]
}

/// The names that are tried in the directory of an input that does not exist
/// as given: none where its file name has an extension of its own, else the
/// file name with each of the media extensions, in order.
pub open spec fn is_candidate_list(names: Seq<String>, file_name: Seq<char>) -> bool {
    if has_apparent_extension(file_name) {
        names.len() == 0
    } else {
        &&& names.len() == MEDIA_EXTENSION_COUNT
        &&& forall|k: int|
            0 <= k < MEDIA_EXTENSION_COUNT ==> (#[trigger] names[k])@ == sibling_name(file_name, k)
    }
}

/// Decides [`has_apparent_extension`].
pub fn has_dot(file_name: &str) -> (r: bool)
    ensures
        r == has_apparent_extension(file_name@),
{
    let v = chars_of(file_name);
    let mut i: usize = 0;
    while i < v.len()
        invariant
            i <= v.len(),
            v@ == file_name@,
            forall|k: int| 0 <= k < i ==> v@[k] != '.',
        decreases v.len() - i,
    {
        if v[i] == '.' {
            return true;
        }
        i += 1;
    }
    false
}

/// The file names to look for beside an input that does not exist as given.
pub fn extension_candidates(file_name: &str) -> (names: Vec<String>)
    ensures
        is_candidate_list(names@, file_name@),
{
    let mut names: Vec<String> = Vec::new();
    if has_dot(file_name) {
        return names;
    }
    let mut k: usize = 0;
    while k < MEDIA_EXTENSION_COUNT
        invariant
            k <= MEDIA_EXTENSION_COUNT,
            names.len() == k,
            forall|j: int| 0 <= j < k ==> (#[trigger] names@[j])@ == sibling_name(file_name@, j),
        decreases MEDIA_EXTENSION_COUNT - k,
    {
        names.push(concat3(file_name, ".", media_extension(k)));
        k += 1;
    }
    names
}

/// What stands for an input path once extensions have been tried.
#[derive(Debug, PartialEq, Eq)]
pub enum Inferred {
    /// The input exists as it was given.
    AsGiven,
    /// The file of this name exists in the directory of the input.
    Sibling(String),
}

/// `k` is the first of the tried names that exists.
pub open spec fn is_first_existing(exists: Seq<bool>, k: int) -> bool {
    &&& 0 <= k < exists.len()
    &&& k < MEDIA_EXTENSION_COUNT
    &&& exists[k]
    &&& forall|j: int| 0 <= j < k ==> !exists[j]
}

/// None of the tried names exists.
pub open spec fn none_exists(exists: Seq<bool>) -> bool {
    forall|j: int| 0 <= j < exists.len() && j < MEDIA_EXTENSION_COUNT ==> !exists[j]
}

/// What [`try_infer_with_exts`] gives for an input path of which it is known
/// whether it exists, what its file name is, and which of the names of
/// [`extension_candidates`] exist in its directory.
pub open spec fn is_inference(
    candidate_exists: bool,
    file_name: Option<Seq<char>>,
    exists: Seq<bool>,
    r: Option<Inferred>,
) -> bool {
    if candidate_exists {
        r == Some(Inferred::AsGiven)
    } else {
        match file_name {
            None => r is None,
            Some(name) => if has_apparent_extension(name) || none_exists(exists) {
                r is None
            } else {
                &&& r matches Some(Inferred::Sibling(found))
                &&& exists|k: int| #[trigger]
                    is_first_existing(exists, k) && found@ == sibling_name(name, k)
            },
        }
    }
}

/// Finds the file that an input path stands for.
///
/// An input that exists is taken as given. One that does not exist and has no
/// file name, or whose file name holds a dot, stands for nothing. For any
/// other, `exists[k]` tells whether the `k`-th name of
/// [`extension_candidates`] exists in the directory of the input, and the
/// first that does is taken; answers that are missing count as `false`.
pub fn try_infer_with_exts(candidate_exists: bool, file_name: Option<&str>, exists: &Vec<bool>) -> (r:
    Option<Inferred>)
    ensures
        is_inference(candidate_exists, str_view(file_name), exists@, r),
{
    if candidate_exists {
        return Some(Inferred::AsGiven);
    }
    let name = match file_name {
        Some(name) => name,
        None => {
            return None;
        },
    };
    if has_dot(name) {
        return None;
    }
    let mut k: usize = 0;
    while k < MEDIA_EXTENSION_COUNT && k < exists.len()
        invariant
            k <= MEDIA_EXTENSION_COUNT,
            k <= exists.len(),
            !candidate_exists,
            str_view(file_name) == Some(name@),
            !has_apparent_extension(name@),
            forall|j: int| 0 <= j < k ==> !exists@[j],
        decreases MEDIA_EXTENSION_COUNT - k,
    {
        if exists[k] {
            let found = concat3(name, ".", media_extension(k));
            assert(is_first_existing(exists@, k as int) && found@ == sibling_name(name@, k as int));
            assert(!none_exists(exists@)) by {
                assert(exists@[k as int]);
            }
            return Some(Inferred::Sibling(found));
        }
        k += 1;
    }
    None
}

/// Equal once the ASCII letters of both are folded to one case.
pub open spec fn eq_ignore_ascii_case(a: Seq<char>, b: Seq<char>) -> bool {
    a.len() == b.len() && forall|i: int| 0 <= i < a.len() ==> ascii_fold(#[trigger] a[i]) == ascii_fold(b[i])
}

/// Decides [`eq_ignore_ascii_case`].
pub fn same_ignoring_ascii_case(a: &str, b: &str) -> (r: bool)
    ensures
        r == eq_ignore_ascii_case(a@, b@),
{
    let x = chars_of(a);
    let y = chars_of(b);
    if x.len() != y.len() {
        return false;
    }
    let mut i: usize = 0;
    while i < x.len()
        invariant
            i <= x.len() == y.len(),
            x@ == a@,
            y@ == b@,
            forall|k: int| 0 <= k < i ==> ascii_fold(#[trigger] x@[k]) == ascii_fold(y@[k]),
        decreases x.len() - i,
    {
        if fold_ascii(x[i]) != fold_ascii(y[i]) {
            return false;
        }
        i += 1;
    }
    true
}

/// Whether the file with this extension counts as one with the extension
/// `ext`.
pub open spec fn has_wanted_extension(extension: Option<String>, ext: Seq<char>) -> bool {
    extension matches Some(e) && eq_ignore_ascii_case(e@, ext)
}

/// Finds the first file whose extension is `ext`, ASCII case aside.
///
/// `extensions` holds, for each regular file of a directory tree in the order
/// in which the tree is walked, the extension of its name where it has one
/// that is valid text.
pub fn find_first_with_ext(extensions: &Vec<Option<String>>, ext: &str) -> (r: Option<usize>)
    ensures
        match r {
            Some(i) => {
                &&& i < extensions.len()
                &&& has_wanted_extension(extensions@[i as int], ext@)
                &&& forall|j: int| 0 <= j < i ==> !has_wanted_extension(extensions@[j], ext@)
            },
            None => forall|j: int|
                0 <= j < extensions.len() ==> !has_wanted_extension(extensions@[j], ext@),
        },
{
    let mut i: usize = 0;
    while i < extensions.len()
        invariant
            i <= extensions.len(),
            forall|j: int| 0 <= j < i ==> !has_wanted_extension(extensions@[j], ext@),
        decreases extensions.len() - i,
    {
        let hit = match &extensions[i] {
            Some(e) => same_ignoring_ascii_case(e.as_str(), ext),
            None => false,
        };
        if hit {
            return Some(i);
        }
        i += 1;
    }
    None
}

} // verus!
