//! The catalog of model files: which entries of a remote listing are model
//! files, and in what order they are offered.

use vstd::prelude::*;
use crate::constants::CACHE_TTL_SECS;
use crate::text::{
    chars_of, contains, ends_with, has_prefix, has_substring, has_suffix, lemma_lex_asymmetric,
    lemma_lex_irreflexive, lemma_lex_total, lemma_lex_transitive, less_than, lex_less,
    lowercase_of, starts_with, to_lowercase,
};

verus! {

/// One entry of the remote listing.
#[derive(Debug, PartialEq, Eq)]
pub struct HfFile {
    /// The file's name, relative to the repository root.
    pub rfilename: String,
    /// The file's size in bytes, where the listing gives it.
    pub size: Option<u64>,
}

impl Clone for HfFile {
    fn clone(&self) -> (r: Self)
        ensures
            r == *self,
    {
        HfFile { rfilename: self.rfilename.clone(), size: self.size }
    }
}

/// A listing entry together with the lower-case form of its name, by which it
/// is ordered and searched.
#[derive(Debug, PartialEq, Eq)]
pub struct KeyedFile {
    /// The lower-case form of the file's name.
    pub key: String,
    /// The entry itself.
    pub file: HfFile,
}

impl Clone for KeyedFile {
    fn clone(&self) -> (r: Self)
        ensures
            r == *self,
    {
        KeyedFile { key: self.key.clone(), file: self.file.clone() }
    }
}

/// A lower-cased name that carries one of the marks of a quantized model.
pub open spec fn has_quantized_marker(name: Seq<char>) -> bool {
    ||| has_substring(name, "-q"@)
    ||| has_substring(name, ".q"@)
    ||| has_substring(name, "-q5"@)
    ||| has_substring(name, "-q8"@)
}

/// A name of the form `ggml-<anything>.bin` or `ggml-<anything>.gguf`.
pub open spec fn is_model_name(name: Seq<char>) -> bool {
    has_prefix(name, "ggml-"@) && (has_suffix(name, ".bin"@) || has_suffix(name, ".gguf"@))
}

/// Whether the lower-cased name `key` belongs to the kind of model that the
/// caller prefers.
pub open spec fn is_preferred(key: Seq<char>, prefer_quantized: bool) -> bool {
    has_quantized_marker(key) == prefer_quantized
}

/// The entry named `a` is offered strictly before the entry named `b`:
/// preferred entries first, then in lexicographic order of the lower-cased
/// names.
pub open spec fn ranks_before(a: Seq<char>, b: Seq<char>, prefer_quantized: bool) -> bool {
    if is_preferred(a, prefer_quantized) != is_preferred(b, prefer_quantized) {
        is_preferred(a, prefer_quantized)
    } else {
        lex_less(a, b)
    }
}

/// The test for keyed entries whose key is `key`.
pub open spec fn keyed(key: Seq<char>) -> spec_fn(KeyedFile) -> bool {
    |e: KeyedFile| e.key@ == key
}

/// `out` holds the entries of `entries` in ranked order: no entry stands
/// after one that it ranks before, and the entries of one key are those of
/// `entries`, in the same order.
pub open spec fn is_ranking_of(
    out: Seq<KeyedFile>,
    entries: Seq<KeyedFile>,
    prefer_quantized: bool,
) -> bool {
    &&& forall|i: int, j: int|
        0 <= i < j < out.len() ==> !ranks_before(
            (#[trigger] out[j]).key@,
            (#[trigger] out[i]).key@,
            prefer_quantized,
        )
    &&& forall|key: Seq<char>| #[trigger] out.filter(keyed(key)) == entries.filter(keyed(key))
}

/// The name by which a listing entry is ordered and searched: the lower-case
/// form of its file name.
pub open spec fn folded_name(f: HfFile) -> Seq<char> {
    lowercase_of(f.rfilename@)
}

/// The test for entries that are model files.
pub open spec fn model_files() -> spec_fn(HfFile) -> bool {
    |f: HfFile| is_model_name(f.rfilename@)
}

/// The test for entries whose lower-cased name is `key`.
pub open spec fn named(key: Seq<char>) -> spec_fn(HfFile) -> bool {
    |f: HfFile| folded_name(f) == key
}

/// `out` holds the model files of `files` in the order of the catalog: no
/// entry stands after one that it ranks before, and the entries of one
/// lower-cased name are the model files of that name, in the order of `files`.
pub open spec fn is_catalog_of(out: Seq<HfFile>, files: Seq<HfFile>, prefer_quantized: bool) -> bool {
    &&& forall|i: int, j: int|
        0 <= i < j < out.len() ==> !ranks_before(
            folded_name(#[trigger] out[j]),
            folded_name(#[trigger] out[i]),
            prefer_quantized,
        )
    &&& forall|key: Seq<char>| #[trigger]
        out.filter(named(key)) == files.filter(model_files()).filter(named(key))
}

/// `entries` holds the entries of `files`, in order, each with the lower-case
/// form of its name.
pub open spec fn is_keying_of(entries: Seq<KeyedFile>, files: Seq<HfFile>) -> bool {
    &&& entries.len() == files.len()
    &&& forall|i: int|
        0 <= i < entries.len() ==> (#[trigger] entries[i]).file == files[i] && entries[i].key@
            == folded_name(files[i])
}

/// Of two names at most one ranks before the other, and no name ranks before
/// itself.
pub proof fn lemma_rank_asymmetric(a: Seq<char>, b: Seq<char>, prefer_quantized: bool)
    ensures
        !(ranks_before(a, b, prefer_quantized) && ranks_before(b, a, prefer_quantized)),
        ranks_before(a, b, prefer_quantized) ==> a != b,
{
    lemma_lex_asymmetric(a, b);
    lemma_lex_irreflexive(a);
}

/// Where `a` does not come after `b` and `b` does not come after `c`, `a` does
/// not come after `c`.
pub proof fn lemma_rank_chain(a: Seq<char>, b: Seq<char>, c: Seq<char>, prefer_quantized: bool)
    requires
        !ranks_before(b, a, prefer_quantized),
        !ranks_before(c, b, prefer_quantized),
    ensures
        !ranks_before(c, a, prefer_quantized),
{
    lemma_lex_total(a, b);
    if lex_less(c, a) && lex_less(a, b) {
        lemma_lex_transitive(c, a, b);
    }
}

/// What ranks before `b` also ranks before whatever does not rank before `b`.
pub proof fn lemma_rank_strict_chain(
    a: Seq<char>,
    b: Seq<char>,
    c: Seq<char>,
    prefer_quantized: bool,
)
    requires
        ranks_before(a, b, prefer_quantized),
        !ranks_before(c, b, prefer_quantized),
    ensures
        ranks_before(a, c, prefer_quantized),
{
    lemma_lex_total(b, c);
    if lex_less(a, b) && lex_less(b, c) {
        lemma_lex_transitive(a, b, c);
    }
}

/// A sequence none of whose entries passes a test has nothing left after
/// filtering by it.
proof fn lemma_filter_none<T>(s: Seq<T>, pred: spec_fn(T) -> bool)
    requires
        forall|k: int| 0 <= k < s.len() ==> !pred(#[trigger] s[k]),
    ensures
        s.filter(pred) == Seq::<T>::empty(),
    decreases s.len(),
{
    reveal(Seq::filter);
    if s.len() > 0 {
        let t = s.drop_last();
        assert forall|k: int| 0 <= k < t.len() implies !pred(#[trigger] t[k]) by {
            assert(t[k] == s[k]);
        }
        lemma_filter_none(t, pred);
    }
}

/// Filtering by a test that `x` passes keeps every occurrence of `x`.
proof fn lemma_filter_keeps_count<T>(s: Seq<T>, pred: spec_fn(T) -> bool, x: T)
    requires
        pred(x),
    ensures
        s.filter(pred).to_multiset().count(x) == s.to_multiset().count(x),
    decreases s.len(),
{
    reveal(Seq::filter);
    if s.len() > 0 {
        let t = s.drop_last();
        let l = s.last();
        assert(s =~= t.push(l));
        lemma_filter_keeps_count(t, pred, x);
        vstd::seq_lib::to_multiset_build(t, l);
        if pred(l) {
            vstd::seq_lib::to_multiset_build(t.filter(pred), l);
        }
    }
}

/// A catalog holds the model files of the listing, each as often as the
/// listing has it, and nothing else.
pub proof fn lemma_catalog_holds_the_model_files(
    out: Seq<HfFile>,
    files: Seq<HfFile>,
    prefer_quantized: bool,
)
    requires
        is_catalog_of(out, files, prefer_quantized),
    ensures
        out.to_multiset() == files.filter(model_files()).to_multiset(),
        out.len() == files.filter(model_files()).len(),
        forall|i: int| 0 <= i < out.len() ==> is_model_name((#[trigger] out[i]).rfilename@),
{
    let kept = files.filter(model_files());
    assert forall|x: HfFile| out.to_multiset().count(x) == kept.to_multiset().count(x) by {
        let key = folded_name(x);
        lemma_filter_keeps_count(out, named(key), x);
        lemma_filter_keeps_count(kept, named(key), x);
        assert(out.filter(named(key)) == kept.filter(named(key)));
    }
    assert(out.to_multiset() =~= kept.to_multiset());
    out.to_multiset_ensures();
    kept.to_multiset_ensures();
    assert forall|i: int| 0 <= i < out.len() implies is_model_name(
        (#[trigger] out[i]).rfilename@,
    ) by {
        assert(out.contains(out[i]));
        assert(out.to_multiset().count(out[i]) > 0);
        assert(kept.to_multiset().count(out[i]) > 0);
        assert(kept.contains(out[i]));
        let j = choose|j: int| 0 <= j < kept.len() && kept[j] == out[i];
        files.lemma_filter_pred(model_files(), j);
    }
}

/// No two entries have the same name.
pub open spec fn names_are_unique(s: Seq<HfFile>) -> bool {
    forall|i: int, j: int|
        0 <= i < s.len() && 0 <= j < s.len() && i != j ==> (#[trigger] s[i]).rfilename@
            != (#[trigger] s[j]).rfilename@
}

/// The catalog of a listing whose entries are unique by name has entries
/// that are unique by name.
pub proof fn lemma_catalog_keeps_names_unique(
    out: Seq<HfFile>,
    files: Seq<HfFile>,
    prefer_quantized: bool,
)
    requires
        is_catalog_of(out, files, prefer_quantized),
        names_are_unique(files),
    ensures
        names_are_unique(out),
{
    let kept = files.filter(model_files());
    lemma_catalog_holds_the_model_files(out, files, prefer_quantized);
    assert(files.no_duplicates());
    files.lemma_multiset_has_no_duplicates();
    files.to_multiset_ensures();
    kept.to_multiset_ensures();
    out.to_multiset_ensures();
    assert forall|x: HfFile| kept.to_multiset().contains(x) implies kept.to_multiset().count(x)
        == 1 by {
        assert(kept.contains(x));
        let k = choose|k: int| 0 <= k < kept.len() && kept[k] == x;
        files.lemma_filter_pred(model_files(), k);
        lemma_filter_keeps_count(files, model_files(), x);
        files.lemma_filter_contains_rev(model_files(), x);
    }
    out.lemma_multiset_has_no_duplicates_conv();
    assert forall|i: int, j: int| 0 <= i < out.len() && 0 <= j < out.len() && i != j implies (
    #[trigger] out[i]).rfilename@ != (#[trigger] out[j]).rfilename@ by {
        let (x, y) = (out[i], out[j]);
        assert(out.contains(x) && out.contains(y));
        assert(kept.to_multiset().count(x) > 0 && kept.to_multiset().count(y) > 0);
        assert(kept.contains(x) && kept.contains(y));
        files.lemma_filter_contains_rev(model_files(), x);
        files.lemma_filter_contains_rev(model_files(), y);
        let p = choose|p: int| 0 <= p < files.len() && files[p] == x;
        let q = choose|q: int| 0 <= q < files.len() && files[q] == y;
        assert(x != y);
        assert(p != q);
    }
}

/// No file stands after one that it ranks before.
spec fn files_ranked(s: Seq<HfFile>, prefer_quantized: bool) -> bool {
    forall|i: int, j: int|
        0 <= i < j < s.len() ==> !ranks_before(
            folded_name(#[trigger] s[j]),
            folded_name(#[trigger] s[i]),
            prefer_quantized,
        )
}

/// Two ranked sequences that agree on the files of every lower-cased name
/// are the same sequence.
proof fn lemma_ranked_classes_fix_order(a: Seq<HfFile>, b: Seq<HfFile>, prefer_quantized: bool)
    requires
        files_ranked(a, prefer_quantized),
        files_ranked(b, prefer_quantized),
        forall|key: Seq<char>| #[trigger] a.filter(named(key)) == b.filter(named(key)),
    ensures
        a == b,
    decreases a.len(),
{
    reveal(Seq::filter);
    if a.len() == 0 || b.len() == 0 {
        if a.len() > 0 {
            let k = folded_name(a[0]);
            a.lemma_filter_contains(named(k), 0);
            assert(b.filter(named(k)) == a.filter(named(k)));
        }
        if b.len() > 0 {
            let k = folded_name(b[0]);
            b.lemma_filter_contains(named(k), 0);
            assert(a.filter(named(k)) == b.filter(named(k)));
        }
        assert(a =~= b);
    } else {
        let x = a.last();
        let y = b.last();
        let kx = folded_name(x);
        let ky = folded_name(y);
        let a0 = a.drop_last();
        let b0 = b.drop_last();
        assert(a =~= a0.push(x));
        assert(b =~= b0.push(y));
        assert(a.filter(named(kx)) == b.filter(named(kx)));
        assert(a.filter(named(ky)) == b.filter(named(ky)));
        a.lemma_filter_contains(named(kx), a.len() - 1);
        b.lemma_filter_contains_rev(named(kx), x);
        b.lemma_filter_contains(named(ky), b.len() - 1);
        a.lemma_filter_contains_rev(named(ky), y);
        let j = choose|j: int| 0 <= j < b.len() && b[j] == x;
        let i = choose|i: int| 0 <= i < a.len() && a[i] == y;
        assert(kx == ky) by {
            lemma_lex_total(kx, ky);
            lemma_rank_asymmetric(kx, kx, prefer_quantized);
            if j < b.len() - 1 {
                assert(!ranks_before(folded_name(b[b.len() - 1]), folded_name(b[j]), prefer_quantized));
            }
            if i < a.len() - 1 {
                assert(!ranks_before(folded_name(a[a.len() - 1]), folded_name(a[i]), prefer_quantized));
            }
        }
        a0.lemma_filter_push(x, named(kx));
        b0.lemma_filter_push(y, named(kx));
        assert(a0.filter(named(kx)).push(x).last() == x);
        assert(b0.filter(named(kx)).push(y).last() == y);
        assert(x == y);
        assert forall|key: Seq<char>| #[trigger] a0.filter(named(key)) == b0.filter(named(key)) by {
            a0.lemma_filter_push(x, named(key));
            b0.lemma_filter_push(x, named(key));
            assert(a.filter(named(key)) == b.filter(named(key)));
            if folded_name(x) == key {
                assert(a0.filter(named(key)) =~= a0.filter(named(key)).push(x).drop_last());
                assert(b0.filter(named(key)) =~= b0.filter(named(key)).push(x).drop_last());
            }
        }
        assert(files_ranked(a0, prefer_quantized)) by {
            assert forall|p: int, q: int| 0 <= p < q < a0.len() implies !ranks_before(
                folded_name(#[trigger] a0[q]),
                folded_name(#[trigger] a0[p]),
                prefer_quantized,
            ) by {
                assert(a0[p] == a[p] && a0[q] == a[q]);
            }
        }
        assert(files_ranked(b0, prefer_quantized)) by {
            assert forall|p: int, q: int| 0 <= p < q < b0.len() implies !ranks_before(
                folded_name(#[trigger] b0[q]),
                folded_name(#[trigger] b0[p]),
                prefer_quantized,
            ) by {
                assert(b0[p] == b[p] && b0[q] == b[q]);
            }
        }
        lemma_ranked_classes_fix_order(a0, b0, prefer_quantized);
    }
}

/// A listing has one catalog only: the order of the model files is fixed by
/// the listing and the preference.
pub proof fn lemma_catalog_is_unique(
    a: Seq<HfFile>,
    b: Seq<HfFile>,
    files: Seq<HfFile>,
    prefer_quantized: bool,
)
    requires
        is_catalog_of(a, files, prefer_quantized),
        is_catalog_of(b, files, prefer_quantized),
    ensures
        a == b,
{
    assert forall|key: Seq<char>| #[trigger] a.filter(named(key)) == b.filter(named(key)) by {
        assert(a.filter(named(key)) == files.filter(model_files()).filter(named(key)));
        assert(b.filter(named(key)) == files.filter(model_files()).filter(named(key)));
    }
    lemma_ranked_classes_fix_order(a, b, prefer_quantized);
}

/// `s` is in ranked order.
spec fn is_ranked(s: Seq<KeyedFile>, prefer_quantized: bool) -> bool {
    forall|i: int, j: int|
        0 <= i < j < s.len() ==> !ranks_before(
            (#[trigger] s[j]).key@,
            (#[trigger] s[i]).key@,
            prefer_quantized,
        )
}

/// Placing `x` before the entries that it ranks before, and after one that
/// it does not rank before, keeps a ranked sequence ranked.
proof fn lemma_insert_keeps_ranked(s: Seq<KeyedFile>, pos: int, x: KeyedFile, prefer_quantized: bool)
    requires
        is_ranked(s, prefer_quantized),
        0 <= pos <= s.len(),
        forall|k: int|
            pos <= k < s.len() ==> ranks_before(x.key@, (#[trigger] s[k]).key@, prefer_quantized),
        pos > 0 ==> !ranks_before(x.key@, s[pos - 1].key@, prefer_quantized),
    ensures
        is_ranked(s.insert(pos, x), prefer_quantized),
{
    let t = s.insert(pos, x);
    assert forall|i: int, j: int| 0 <= i < j < t.len() implies !ranks_before(
        (#[trigger] t[j]).key@,
        (#[trigger] t[i]).key@,
        prefer_quantized,
    ) by {
        if j == pos {
            assert(t[i] == s[i]);
            if i < pos - 1 {
                assert(!ranks_before(s[pos - 1].key@, s[i].key@, prefer_quantized));
            } else {
                lemma_rank_asymmetric(s[i].key@, s[i].key@, prefer_quantized);
            }
            lemma_rank_chain(s[i].key@, s[pos - 1].key@, x.key@, prefer_quantized);
        } else if i == pos {
            assert(t[j] == s[j - 1]);
            lemma_rank_asymmetric(x.key@, s[j - 1].key@, prefer_quantized);
        } else {
            let si = if i < pos { i } else { i - 1 };
            let sj = if j < pos { j } else { j - 1 };
            assert(t[i] == s[si] && t[j] == s[sj]);
        }
    }
}

/// Placing `x` before entries that it ranks before adds `x` at the end of
/// the entries of its own key and leaves those of other keys as they were.
proof fn lemma_insert_keeps_keys(
    s: Seq<KeyedFile>,
    pos: int,
    x: KeyedFile,
    key: Seq<char>,
    prefer_quantized: bool,
)
    requires
        0 <= pos <= s.len(),
        forall|k: int|
            pos <= k < s.len() ==> ranks_before(x.key@, (#[trigger] s[k]).key@, prefer_quantized),
    ensures
        s.insert(pos, x).filter(keyed(key)) == if x.key@ == key {
            s.filter(keyed(key)).push(x)
        } else {
            s.filter(keyed(key))
        },
{
    let pred = keyed(key);
    let a = s.subrange(0, pos);
    let b = s.subrange(pos, s.len() as int);
    assert(s =~= a + b);
    Seq::filter_distributes_over_add(a, b, pred);
    Seq::filter_distributes_over_add(a.push(x), b, pred);
    a.lemma_filter_push(x, pred);
    if x.key@ == key {
        assert forall|k: int| 0 <= k < b.len() implies !pred(#[trigger] b[k]) by {
            assert(b[k] == s[pos + k]);
            lemma_rank_asymmetric(x.key@, s[pos + k].key@, prefer_quantized);
        }
        lemma_filter_none(b, pred);
        assert(a.filter(pred).push(x) + b.filter(pred) =~= (a.filter(pred) + b.filter(pred)).push(
            x,
        ));
    }
}

/// The entry itself, without its key.
spec fn file_of() -> spec_fn(KeyedFile) -> HfFile {
    |e: KeyedFile| e.file
}

/// Every key is the lower-case form of its entry's name.
spec fn keys_agree(s: Seq<KeyedFile>) -> bool {
    forall|k: int| 0 <= k < s.len() ==> (#[trigger] s[k]).key@ == folded_name(s[k].file)
}

/// Where the keys are the lower-cased names, picking the entries of one key
/// and picking the files of that name come to the same.
proof fn lemma_filter_by_key_or_name(s: Seq<KeyedFile>, key: Seq<char>)
    requires
        keys_agree(s),
    ensures
        s.map_values(file_of()).filter(named(key)) == s.filter(keyed(key)).map_values(file_of()),
    decreases s.len(),
{
    reveal(Seq::filter);
    if s.len() == 0 {
        assert(s.map_values(file_of()) =~= Seq::<HfFile>::empty());
        assert(s.filter(keyed(key)).map_values(file_of()) =~= Seq::<HfFile>::empty());
    } else {
        let t = s.drop_last();
        let x = s.last();
        assert(s =~= t.push(x));
        assert forall|k: int| 0 <= k < t.len() implies (#[trigger] t[k]).key@ == folded_name(
            t[k].file,
        ) by {
            assert(t[k] == s[k]);
        }
        lemma_filter_by_key_or_name(t, key);
        t.lemma_push_map_commute(file_of(), x);
        t.map_values(file_of()).lemma_filter_push(x.file, named(key));
        t.lemma_filter_push(x, keyed(key));
        t.filter(keyed(key)).lemma_push_map_commute(file_of(), x);
    }
}

/// Whether a lower-cased file name carries one of the marks of a quantized
/// model: `-q`, `.q`, `-q5` or `-q8`.
pub fn is_quantized_name(name: &str) -> (r: bool)
    ensures
        r == has_quantized_marker(name@),
{
    let v = chars_of(name);
    contains(&v, &chars_of("-q")) || contains(&v, &chars_of(".q")) || contains(
        &v,
        &chars_of("-q5"),
    ) || contains(&v, &chars_of("-q8"))
}

/// Whether `name` is the name of a model file.
pub fn is_model_file_name(name: &str) -> (r: bool)
    ensures
        r == is_model_name(name@),
{
    let v = chars_of(name);
    starts_with(&v, &chars_of("ggml-")) && (ends_with(&v, &chars_of(".bin")) || ends_with(
        &v,
        &chars_of(".gguf"),
    ))
}

/// Whether the entry with the lower-cased name `a` is offered strictly before
/// the one with the lower-cased name `b`.
pub fn key_ranks_before(a: &str, b: &str, prefer_quantized: bool) -> (r: bool)
    ensures
        r == ranks_before(a@, b@, prefer_quantized),
{
    let pa = is_quantized_name(a) == prefer_quantized;
    let pb = is_quantized_name(b) == prefer_quantized;
    if pa != pb {
        pa
    } else {
        less_than(&chars_of(a), &chars_of(b))
    }
}

/// Gives each entry of `files` the lower-case form of its name as its key.
pub fn with_keys(files: &Vec<HfFile>) -> (entries: Vec<KeyedFile>)
    ensures
        is_keying_of(entries@, files@),
{
    let mut entries: Vec<KeyedFile> = Vec::new();
    let mut i: usize = 0;
    while i < files.len()
        invariant
            i <= files.len(),
            is_keying_of(entries@, files@.take(i as int)),
        decreases files.len() - i,
    {
        let key = to_lowercase(files[i].rfilename.as_str());
        entries.push(KeyedFile { key, file: files[i].clone() });
        i += 1;
    }
    assert(files@.take(files.len() as int) =~= files@);
    entries
}

/// Puts keyed entries in ranked order.
///
/// Entries of the preferred kind come first, each group in ascending
/// lexicographic order of the keys; entries with equal keys keep their order.
pub fn rank_files(entries: Vec<KeyedFile>, prefer_quantized: bool) -> (out: Vec<KeyedFile>)
    ensures
        is_ranking_of(out@, entries@, prefer_quantized),
{
    let mut out: Vec<KeyedFile> = Vec::new();
    let mut i: usize = 0;
    proof {
        reveal(Seq::filter);
        assert(entries@.take(0) =~= Seq::<KeyedFile>::empty());
    }
    while i < entries.len()
        invariant
            i <= entries.len(),
            is_ranking_of(out@, entries@.take(i as int), prefer_quantized),
        decreases entries.len() - i,
    {
        let e = &entries[i];
        let ghost prev = entries@.take(i as int);
        let ghost old_out = out@;
        let mut pos: usize = out.len();
        while pos > 0 && key_ranks_before(
            e.key.as_str(),
            out[pos - 1].key.as_str(),
            prefer_quantized,
        )
            invariant
                pos <= out.len(),
                forall|k: int|
                    pos <= k < out.len() ==> ranks_before(
                        e.key@,
                        (#[trigger] out[k]).key@,
                        prefer_quantized,
                    ),
            decreases pos,
        {
            pos -= 1;
        }
        proof {
            assert(entries@.take(i + 1) =~= prev.push(*e));
            lemma_insert_keeps_ranked(old_out, pos as int, *e, prefer_quantized);
            assert forall|key: Seq<char>| #[trigger]
                old_out.insert(pos as int, *e).filter(keyed(key)) == prev.push(*e).filter(
                    keyed(key),
                ) by {
                lemma_insert_keeps_keys(old_out, pos as int, *e, key, prefer_quantized);
                prev.lemma_filter_push(*e, keyed(key));
            }
        }
        out.insert(pos, e.clone());
        i += 1;
    }
    assert(entries@.take(entries.len() as int) =~= entries@);
    out
}

/// Keeps the model files of a listing and puts them in catalog order.
///
/// An entry stays if its name has the form `ggml-<anything>.bin` or
/// `ggml-<anything>.gguf`. Entries of the preferred kind come first, each
/// group in ascending order of the lower-cased name; entries whose lower-cased
/// names are equal keep the order of the listing.
pub fn filter_and_sort_files(files: Vec<HfFile>, prefer_quantized: bool) -> (out: Vec<HfFile>)
    ensures
        is_catalog_of(out@, files@, prefer_quantized),
{
    let mut kept: Vec<HfFile> = Vec::new();
    let mut i: usize = 0;
    proof {
        reveal(Seq::filter);
        assert(files@.take(0) =~= Seq::<HfFile>::empty());
    }
    while i < files.len()
        invariant
            i <= files.len(),
            kept@ == files@.take(i as int).filter(model_files()),
        decreases files.len() - i,
    {
        proof {
            assert(files@.take(i + 1) =~= files@.take(i as int).push(files@[i as int]));
            files@.take(i as int).lemma_filter_push(files@[i as int], model_files());
        }
        if is_model_file_name(files[i].rfilename.as_str()) {
            kept.push(files[i].clone());
        }
        i += 1;
    }
    assert(files@.take(files.len() as int) =~= files@);
    let entries = with_keys(&kept);
    let ghost given = entries@;
    let ranked = rank_files(entries, prefer_quantized);
    proof {
        assert(given.map_values(file_of()) =~= kept@);
        assert(keys_agree(given));
        assert forall|k: int| 0 <= k < ranked.len() implies (#[trigger] ranked@[k]).key@
            == folded_name(ranked@[k].file) by {
            let e = ranked@[k];
            let pred = keyed(e.key@);
            ranked@.lemma_filter_contains(pred, k);
            given.lemma_filter_contains_rev(pred, e);
            let j = choose|j: int| 0 <= j < given.len() && given[j] == e;
            assert(given[j].key@ == folded_name(given[j].file));
        }
        assert forall|key: Seq<char>| #[trigger]
            ranked@.map_values(file_of()).filter(named(key)) == kept@.filter(named(key)) by {
            lemma_filter_by_key_or_name(ranked@, key);
            lemma_filter_by_key_or_name(given, key);
        }
    }
    let mut out: Vec<HfFile> = Vec::new();
    let mut k: usize = 0;
    while k < ranked.len()
        invariant
            k <= ranked.len(),
            out@ == ranked@.take(k as int).map_values(file_of()),
        decreases ranked.len() - k,
    {
        out.push(ranked[k].file.clone());
        k += 1;
        assert(ranked@.take(k as int).map_values(file_of()) =~= ranked@.take(k - 1).map_values(
            file_of(),
        ).push(ranked@[k - 1].file));
    }
    assert(ranked@.take(ranked.len() as int) =~= ranked@);
    out
}

/// When the cached listing was last written, seen from now.
#[derive(Clone, Copy, Debug, PartialEq, Eq, Structural)]
pub enum CacheStamp {
    /// There is no cached listing, or its time of writing cannot be read.
    Missing,
    /// The cached listing was written this many whole seconds ago.
    Age(u64),
    /// The cached listing claims to have been written in the future.
    Future,
}

/// What the catalog lookup waits for.
#[derive(Clone, Copy, Debug, PartialEq, Eq, Structural)]
pub enum CatalogState {
    /// The age of the cached listing.
    AwaitStamp,
    /// The content of the cached listing.
    AwaitCached,
    /// The remote listing.
    AwaitFetched,
    /// Nothing: the lookup has ended.
    Finished,
}

/// An answer from the outside world to the last action of a catalog lookup.
#[derive(Debug, PartialEq, Eq)]
pub enum CatalogEvent {
    /// The answer to [`CatalogAction::ProbeCache`].
    Stamp(CacheStamp),
    /// The answer to [`CatalogAction::ReadCache`]: the entries of the cached
    /// listing, or `None` where it cannot be read or understood.
    Cached(Option<Vec<HfFile>>),
    /// The answer to [`CatalogAction::Fetch`]: the entries of the remote
    /// listing, or `None` where the transport failed or the server refused.
    Fetched(Option<Vec<HfFile>>),
}

/// Why a catalog lookup failed.
#[derive(Clone, Copy, Debug, PartialEq, Eq, Structural)]
pub enum CatalogError {
    /// No fresh listing could be fetched and no usable cache was at hand.
    CatalogUnavailable,
}

/// What the caller of a catalog lookup is to do next.
#[derive(Debug, PartialEq, Eq)]
pub enum CatalogAction {
    /// Find out when the cached listing was written.
    ProbeCache,
    /// Read and parse the cached listing.
    ReadCache,
    /// Fetch the listing from the remote repository.
    Fetch,
    /// The lookup has ended: this is the catalog, taken from the cache.
    Serve(Vec<HfFile>),
    /// The lookup has ended: write `listing` to the cache, ignoring any
    /// failure to do so, and take `catalog` as the catalog.
    StoreAndServe { listing: Vec<HfFile>, catalog: Vec<HfFile> },
    /// The lookup has ended without a catalog.
    Fail(CatalogError),
    /// The event answered no action of this lookup; nothing has changed.
    Nothing,
}

/// A catalog lookup in progress.
#[derive(Clone, Copy, Debug, PartialEq, Eq, Structural)]
pub struct CatalogLookup {
    /// Whether entries of quantized models come first in the catalog.
    pub prefer_quantized: bool,
    /// What the lookup waits for.
    pub state: CatalogState,
}

/// Whether a cached listing with this stamp is served without asking the
/// remote repository: it is known to be less than 24 hours old.
pub open spec fn is_fresh(stamp: CacheStamp) -> bool {
    stamp matches CacheStamp::Age(age) && age < CACHE_TTL_SECS
}

/// Whether a lookup that started as `start` asks first for `first`.
pub open spec fn is_lookup_start(refresh: bool, prefer_quantized: bool, start: CatalogLookup, first: CatalogAction) -> bool {
    &&& start.prefer_quantized == prefer_quantized
    &&& if refresh {
        start.state == CatalogState::AwaitFetched && first is Fetch
    } else {
        start.state == CatalogState::AwaitStamp && first is ProbeCache
    }
}

/// Whether `event` takes the lookup `before` to `after` with `action` to do.
pub open spec fn is_lookup_step(
    before: CatalogLookup,
    event: CatalogEvent,
    after: CatalogLookup,
    action: CatalogAction,
) -> bool {
    &&& after.prefer_quantized == before.prefer_quantized
    &&& match (before.state, event) {
        (CatalogState::AwaitStamp, CatalogEvent::Stamp(stamp)) => if is_fresh(stamp) {
            after.state == CatalogState::AwaitCached && action is ReadCache
        } else {
            after.state == CatalogState::AwaitFetched && action is Fetch
        },
        (CatalogState::AwaitCached, CatalogEvent::Cached(Some(files))) => {
            &&& after.state == CatalogState::Finished
            &&& action matches CatalogAction::Serve(catalog)
            &&& is_catalog_of(catalog@, files@, before.prefer_quantized)
        },
        (CatalogState::AwaitCached, CatalogEvent::Cached(None)) => {
            after.state == CatalogState::AwaitFetched && action is Fetch
        },
        (CatalogState::AwaitFetched, CatalogEvent::Fetched(Some(files))) => {
            &&& after.state == CatalogState::Finished
            &&& action matches CatalogAction::StoreAndServe { listing, catalog }
            &&& listing@ == files@
            &&& is_catalog_of(catalog@, files@, before.prefer_quantized)
        },
        (CatalogState::AwaitFetched, CatalogEvent::Fetched(None)) => {
            &&& after.state == CatalogState::Finished
            &&& action == CatalogAction::Fail(CatalogError::CatalogUnavailable)
        },
        _ => after.state == before.state && action is Nothing,
    }
}

/// A lookup that was not told to refresh, and finds a readable cached listing
/// written less than 24 hours ago, ends by serving the catalog of that
/// listing, and never asks for the remote listing on the way.
pub proof fn lemma_fresh_cache_is_served(
    prefer_quantized: bool,
    age: u64,
    files: Vec<HfFile>,
    start: CatalogLookup,
    first: CatalogAction,
    probed: CatalogLookup,
    second: CatalogAction,
    read: CatalogLookup,
    third: CatalogAction,
)
    requires
        age < CACHE_TTL_SECS,
        is_lookup_start(false, prefer_quantized, start, first),
        is_lookup_step(start, CatalogEvent::Stamp(CacheStamp::Age(age)), probed, second),
        is_lookup_step(probed, CatalogEvent::Cached(Some(files)), read, third),
    ensures
        first is ProbeCache,
        second is ReadCache,
        third matches CatalogAction::Serve(catalog) && is_catalog_of(
            catalog@,
            files@,
            prefer_quantized,
        ),
        read.state == CatalogState::Finished,
{
}

/// A lookup that finds the cached listing missing, written 24 hours ago or
/// earlier, or stamped in the future asks for the remote listing next, and so
/// does one that was told to refresh, before it looks at the cache at all.
pub proof fn lemma_stale_cache_is_fetched(
    prefer_quantized: bool,
    stamp: CacheStamp,
    start: CatalogLookup,
    first: CatalogAction,
    probed: CatalogLookup,
    second: CatalogAction,
    forced: CatalogLookup,
    forced_first: CatalogAction,
)
    requires
        !is_fresh(stamp),
        is_lookup_start(false, prefer_quantized, start, first),
        is_lookup_step(start, CatalogEvent::Stamp(stamp), probed, second),
        is_lookup_start(true, prefer_quantized, forced, forced_first),
    ensures
        second is Fetch,
        probed.state == CatalogState::AwaitFetched,
        forced_first is Fetch,
        forced.state == CatalogState::AwaitFetched,
{
}

/// Once the remote listing has been asked for, its answer ends the lookup:
/// with the catalog of the fetched listing, or with
/// [`CatalogError::CatalogUnavailable`]. A cached listing is not served then.
pub proof fn lemma_fetch_ends_lookup(
    before: CatalogLookup,
    fetched: Option<Vec<HfFile>>,
    after: CatalogLookup,
    action: CatalogAction,
)
    requires
        before.state == CatalogState::AwaitFetched,
        is_lookup_step(before, CatalogEvent::Fetched(fetched), after, action),
    ensures
        after.state == CatalogState::Finished,
        fetched is None ==> action == CatalogAction::Fail(CatalogError::CatalogUnavailable),
        fetched matches Some(files) ==> (action matches CatalogAction::StoreAndServe {
            listing,
            catalog,
        } && listing@ == files@ && is_catalog_of(catalog@, files@, before.prefer_quantized)),
{
}

/// Starts a lookup of the catalog.
///
/// With `refresh` the remote listing is fetched at once. Without it the
/// cached listing is looked at first, and the remote listing is fetched only
/// where the cache is missing, 24 hours old or older, or unreadable.
pub fn fetch_hf_files_cached(refresh: bool, prefer_quantized: bool) -> (r: (
    CatalogLookup,
    CatalogAction,
))
    ensures
        is_lookup_start(refresh, prefer_quantized, r.0, r.1),
{
    if refresh {
        (CatalogLookup { prefer_quantized, state: CatalogState::AwaitFetched }, CatalogAction::Fetch)
    } else {
        (
            CatalogLookup { prefer_quantized, state: CatalogState::AwaitStamp },
            CatalogAction::ProbeCache,
        )
    }
}

impl CatalogLookup {
    /// Takes the answer to the last action and says what to do next.
    ///
    /// A cached listing is read only where its stamp shows it to be less than
    /// 24 hours old, and served only where it can be read and understood; the
    /// remote listing is fetched otherwise. A failed fetch ends the lookup
    /// without a catalog: an older cache is never served in its place. Both
    /// sources go through [`filter_and_sort_files`].
    pub fn step(self, event: CatalogEvent) -> (r: (CatalogLookup, CatalogAction))
        ensures
            is_lookup_step(self, event, r.0, r.1),
    {
        let prefer_quantized = self.prefer_quantized;
        match (self.state, event) {
            (CatalogState::AwaitStamp, CatalogEvent::Stamp(stamp)) => {
                let fresh = match stamp {
                    CacheStamp::Age(age) => age < CACHE_TTL_SECS,
                    _ => false,
                };
                if fresh {
                    (
                        CatalogLookup { prefer_quantized, state: CatalogState::AwaitCached },
                        CatalogAction::ReadCache,
                    )
                } else {
                    (
                        CatalogLookup { prefer_quantized, state: CatalogState::AwaitFetched },
                        CatalogAction::Fetch,
                    )
                }
            },
            (CatalogState::AwaitCached, CatalogEvent::Cached(Some(files))) => {
                let catalog = filter_and_sort_files(files, prefer_quantized);
                (
                    CatalogLookup { prefer_quantized, state: CatalogState::Finished },
                    CatalogAction::Serve(catalog),
                )
            },
            (CatalogState::AwaitCached, CatalogEvent::Cached(None)) => {
                (
                    CatalogLookup { prefer_quantized, state: CatalogState::AwaitFetched },
                    CatalogAction::Fetch,
                )
            },
            (CatalogState::AwaitFetched, CatalogEvent::Fetched(Some(files))) => {
                let listing = copy_files(&files);
                let catalog = filter_and_sort_files(files, prefer_quantized);
                (
                    CatalogLookup { prefer_quantized, state: CatalogState::Finished },
                    CatalogAction::StoreAndServe { listing, catalog },
                )
            },
            (CatalogState::AwaitFetched, CatalogEvent::Fetched(None)) => {
                (
                    CatalogLookup { prefer_quantized, state: CatalogState::Finished },
                    CatalogAction::Fail(CatalogError::CatalogUnavailable),
                )
            },
            (state, _) => (CatalogLookup { prefer_quantized, state }, CatalogAction::Nothing),
        }
    }
}

/// A copy of `files`, entry by entry.
pub fn copy_files(files: &Vec<HfFile>) -> (r: Vec<HfFile>)
    ensures
        r@ == files@,
{
    let mut r: Vec<HfFile> = Vec::new();
    let mut i: usize = 0;
    while i < files.len()
        invariant
            i <= files.len(),
            r@ == files@.take(i as int),
        decreases files.len() - i,
    {
        r.push(files[i].clone());
        i += 1;
        assert(files@.take(i as int) =~= files@.take(i - 1).push(files@[i - 1]));
    }
    assert(files@.take(files.len() as int) =~= files@);
    r
}

} // verus!
