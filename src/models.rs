//! Recognising model files by name, and choosing the model to start with.

use vstd::prelude::*;
use crate::path::{FsPath, PathView, strs_view};

verus! {

/// Whether `s` begins with `prefix`.
pub open spec fn starts_with(s: Seq<char>, prefix: Seq<char>) -> bool {
    prefix.len() <= s.len() && s.take(prefix.len() as int) == prefix
}

/// Whether `s` ends with `suffix`.
pub open spec fn ends_with(s: Seq<char>, suffix: Seq<char>) -> bool {
    suffix.len() <= s.len() && s.skip(s.len() - suffix.len()) == suffix
}

/// Whether a file name has the extension `gguf`. A name that is nothing but
/// the dot and the extension is a hidden file without one.
pub open spec fn has_gguf_extension(name: Seq<char>) -> bool {
    name.len() > ".gguf"@.len() && ends_with(name, ".gguf"@)
}

/// Whether a file is a component of the speech model rather than a text
/// model.
pub open spec fn is_speech_component(name: Seq<char>) -> bool {
    starts_with(name, "t3_"@) || starts_with(name, "s3gen"@) || starts_with(name, "ve_"@)
}

/// Whether a file name marks a model for the text-generation server.
pub open spec fn is_text_model(name: Seq<char>) -> bool {
    has_gguf_extension(name) && !is_speech_component(name)
}

/// Whether a file name marks the selectable model of the speech backend.
pub open spec fn is_speech_model(name: Seq<char>) -> bool {
    has_gguf_extension(name) && starts_with(name, "s3gen"@)
}

/// The text models among `names`, in their order.
pub open spec fn text_names(names: Seq<Seq<char>>) -> Seq<Seq<char>>
    decreases names.len(),
{
    if names.len() == 0 {
        Seq::empty()
    } else if is_text_model(names.last()) {
        text_names(names.drop_last()).push(names.last())
    } else {
        text_names(names.drop_last())
    }
}

/// The speech models among `names`, in their order.
pub open spec fn speech_names(names: Seq<Seq<char>>) -> Seq<Seq<char>>
    decreases names.len(),
{
    if names.len() == 0 {
        Seq::empty()
    } else if is_speech_model(names.last()) {
        speech_names(names.drop_last()).push(names.last())
    } else {
        speech_names(names.drop_last())
    }
}

/// The first text model among `names`.
pub open spec fn first_text_model(names: Seq<Seq<char>>) -> Option<Seq<char>>
    decreases names.len(),
{
    if names.len() == 0 {
        None
    } else if is_text_model(names[0]) {
        Some(names[0])
    } else {
        first_text_model(names.drop_first())
    }
}

/// The model started with the application: the default model when it is in
/// `dir`, else the first text model among the directory's entries `names`.
pub open spec fn startup_model(dir: PathView, default_exists: bool, names: Seq<Seq<char>>) -> Option<PathView> {
    if default_exists {
        Some(dir.push("LFM-1.2B-INT8.gguf"@))
    } else {
        match first_text_model(names) {
            Some(n) => Some(dir.push(n)),
            None => None,
        }
    }
}

/// Whether `s` begins with `prefix`.
pub fn has_prefix(s: &str, prefix: &str) -> (r: bool)
    ensures
        r == starts_with(s@, prefix@),
{
    let n = s.unicode_len();
    let m = prefix.unicode_len();
    if m > n {
        return false;
    }
    let mut i: usize = 0;
    while i < m
        invariant
            i <= m <= n,
            n == s@.len(),
            m == prefix@.len(),
            s@.take(i as int) == prefix@.take(i as int),
        decreases m - i,
    {
        if s.get_char(i) != prefix.get_char(i) {
            assert(s@.take(m as int)[i as int] != prefix@[i as int]);
            return false;
        }
        i = i + 1;
        assert(s@.take(i as int) =~= prefix@.take(i as int));
    }
    assert(prefix@.take(m as int) =~= prefix@);
    true
}

/// Whether `s` ends with `suffix`.
pub fn has_suffix(s: &str, suffix: &str) -> (r: bool)
    ensures
        r == ends_with(s@, suffix@),
{
    let n = s.unicode_len();
    let m = suffix.unicode_len();
    if m > n {
        return false;
    }
    let start = n - m;
    let mut i: usize = 0;
    while i < m
        invariant
            i <= m <= n,
            start == n - m,
            n == s@.len(),
            m == suffix@.len(),
            s@.skip(start as int).take(i as int) == suffix@.take(i as int),
        decreases m - i,
    {
        if s.get_char(start + i) != suffix.get_char(i) {
            assert(s@.skip(start as int)[i as int] != suffix@[i as int]);
            return false;
        }
        i = i + 1;
        assert(s@.skip(start as int).take(i as int) =~= suffix@.take(i as int));
    }
    assert(suffix@.take(m as int) =~= suffix@);
    assert(s@.skip(start as int).take(m as int) =~= s@.skip(start as int));
    true
}

/// Whether `name` has the extension `gguf`.
pub fn is_gguf(name: &str) -> (r: bool)
    ensures
        r == has_gguf_extension(name@),
{
    name.unicode_len() > ".gguf".unicode_len() && has_suffix(name, ".gguf")
}

/// Whether `name` is a text model for the server.
pub fn text_model(name: &str) -> (r: bool)
    ensures
        r == is_text_model(name@),
{
    is_gguf(name) && !(has_prefix(name, "t3_") || has_prefix(name, "s3gen") || has_prefix(name, "ve_"))
}

/// Whether `name` is the selectable model of the speech backend.
pub fn speech_model(name: &str) -> (r: bool)
    ensures
        r == is_speech_model(name@),
{
    is_gguf(name) && has_prefix(name, "s3gen")
}

/// A model file offered for selection.
#[derive(Debug)]
pub struct ModelFile {
    pub name: String,
    pub path: FsPath,
}

/// The text models among the entries `names` of `dir`, in their order.
pub fn text_models(dir: &FsPath, names: &Vec<String>) -> (r: Vec<ModelFile>)
    ensures
        r@.len() == text_names(strs_view(names@)).len(),
        forall|i: int| 0 <= i < r@.len() ==> {
            &&& (#[trigger] r@[i]).name@ == text_names(strs_view(names@))[i]
            &&& r@[i].path@ == dir@.push(r@[i].name@)
        },
{
    let ghost nv = strs_view(names@);
    let mut r: Vec<ModelFile> = Vec::new();
    let mut k: usize = 0;
    while k < names.len()
        invariant
            k <= names@.len(),
            nv == strs_view(names@),
            r@.len() == text_names(nv.take(k as int)).len(),
            forall|i: int| 0 <= i < r@.len() ==> {
                &&& (#[trigger] r@[i]).name@ == text_names(nv.take(k as int))[i]
                &&& r@[i].path@ == dir@.push(r@[i].name@)
            },
        decreases names@.len() - k,
    {
        assert(nv.take(k + 1 as int).drop_last() =~= nv.take(k as int));
        if text_model(names[k].as_str()) {
            r.push(ModelFile { name: names[k].clone(), path: dir.child(names[k].as_str()) });
        }
        k = k + 1;
    }
    assert(nv.take(names@.len() as int) =~= nv);
    r
}

/// The speech models among the entries `names` of `dir`, in their order.
pub fn speech_models(dir: &FsPath, names: &Vec<String>) -> (r: Vec<ModelFile>)
    ensures
        r@.len() == speech_names(strs_view(names@)).len(),
        forall|i: int| 0 <= i < r@.len() ==> {
            &&& (#[trigger] r@[i]).name@ == speech_names(strs_view(names@))[i]
            &&& r@[i].path@ == dir@.push(r@[i].name@)
        },
{
    let ghost nv = strs_view(names@);
    let mut r: Vec<ModelFile> = Vec::new();
    let mut k: usize = 0;
    while k < names.len()
        invariant
            k <= names@.len(),
            nv == strs_view(names@),
            r@.len() == speech_names(nv.take(k as int)).len(),
            forall|i: int| 0 <= i < r@.len() ==> {
                &&& (#[trigger] r@[i]).name@ == speech_names(nv.take(k as int))[i]
                &&& r@[i].path@ == dir@.push(r@[i].name@)
            },
        decreases names@.len() - k,
    {
        assert(nv.take(k + 1 as int).drop_last() =~= nv.take(k as int));
        if speech_model(names[k].as_str()) {
            r.push(ModelFile { name: names[k].clone(), path: dir.child(names[k].as_str()) });
        }
        k = k + 1;
    }
    assert(nv.take(names@.len() as int) =~= nv);
    r
}

/// The directories searched for speech models: `dir` itself, then its
/// bundled speech-model folder.
pub fn speech_model_dirs(dir: &FsPath) -> (r: Vec<FsPath>)
    ensures
        r@.len() == 2,
        r@[0]@ == dir@,
        r@[1]@ == dir@.push("tts-chatterbox-q4-k-m"@),
{
    vec![dir.duplicate(), dir.child("tts-chatterbox-q4-k-m")]
}

/// The path of the default model in `dir`.
pub fn default_model_path(dir: &FsPath) -> (r: FsPath)
    ensures
        r@ == dir@.push("LFM-1.2B-INT8.gguf"@),
{
    dir.child("LFM-1.2B-INT8.gguf")
}

/// The model to start with: the default model when `default_exists`, else
/// the first text model among the entries `names` of `dir`, else none.
pub fn choose_startup_model(dir: &FsPath, default_exists: bool, names: &Vec<String>) -> (r: Option<FsPath>)
    ensures
        match startup_model(dir@, default_exists, strs_view(names@)) {
            Some(p) => r matches Some(q) && q@ == p,
            None => r is None,
        },
{
    if default_exists {
        return Some(default_model_path(dir));
    }
    let ghost nv = strs_view(names@);
    let mut k: usize = 0;
    assert(nv.skip(0) =~= nv);
    while k < names.len()
        invariant
            k <= names@.len(),
            nv == strs_view(names@),
            !default_exists,
            first_text_model(nv) == first_text_model(nv.skip(k as int)),
        decreases names@.len() - k,
    {
        assert(nv.skip(k as int)[0] == nv[k as int]);
        if text_model(names[k].as_str()) {
            assert(nv[k as int] == names@[k as int]@);
            assert(first_text_model(nv.skip(k as int)) == Some(nv[k as int]));
            let p = dir.child(names[k].as_str());
            return Some(p);
        }
        assert(nv.skip(k as int).drop_first() =~= nv.skip(k + 1 as int));
        k = k + 1;
    }
    assert(nv.skip(k as int).len() == 0);
    None
}

/// Where the caller's override of the models directory points.
#[derive(Clone, Copy, Debug, PartialEq, Eq, Structural)]
pub enum PathKind {
    File,
    Dir,
    Missing,
}

/// The models directory: a directory named by the override; the directory
/// holding a file named by the override; else `fallback`.
pub open spec fn models_dir_spec(over: Option<PathView>, kind: PathKind, fallback: PathView) -> PathView {
    match over {
        Some(p) => match kind {
            PathKind::File => if p.len() > 0 { p.drop_last() } else { fallback },
            PathKind::Dir => p,
            PathKind::Missing => fallback,
        },
        None => fallback,
    }
}

/// Chooses the models directory; `kind` is what the override names on disk.
pub fn models_dir(over: Option<FsPath>, kind: PathKind, fallback: FsPath) -> (r: FsPath)
    ensures
        r@ == models_dir_spec(
            match over {
                Some(p) => Some(p@),
                None => None,
            },
            kind,
            fallback@,
        ),
{
    match over {
        Some(p) => match kind {
            PathKind::File => if p.len() > 0 {
                p.parent()
            } else {
                fallback
            },
            PathKind::Dir => p,
            PathKind::Missing => fallback,
        },
        None => fallback,
    }
}

} // verus!
