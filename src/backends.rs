//! The two backends this application supervises: where their executables
//! are found on each platform, and the command lines they are given.

use vstd::prelude::*;
use crate::locator::{BackendDescriptor, rel_paths_view};
use crate::path::{FsPath, PathView, strs_view};

verus! {

/// The host operating system, which decides file and folder names.
#[derive(Clone, Copy, Debug, PartialEq, Eq, Structural)]
pub enum Platform {
    Windows,
    MacOs,
    Linux,
}

/// One command-line argument: plain text, or a path that the caller renders
/// in the host's own form.
#[derive(Debug)]
pub enum Arg {
    Word(String),
    Path(FsPath),
}

/// The value of an argument.
pub enum ArgView {
    Word(Seq<char>),
    Path(PathView),
}

pub open spec fn arg_view(a: Arg) -> ArgView {
    match a {
        Arg::Word(w) => ArgView::Word(w@),
        Arg::Path(p) => ArgView::Path(p@),
    }
}

pub open spec fn args_view(v: Seq<Arg>) -> Seq<ArgView> {
    v.map_values(|a: Arg| arg_view(a))
}

/// The three places under an ancestor where a backend's folder may lie: the
/// development tree, the release tree and the packaged resources.
pub open spec fn layouts(folder: Seq<char>) -> Seq<PathView> {
    seq![
        seq!["src-tauri"@, "bin"@, folder],
        seq!["bin"@, folder],
        seq!["resources"@, "bin"@, folder],
    ]
}

pub open spec fn server_folder(p: Platform) -> Seq<char> {
    match p {
        Platform::Windows => "llama-win"@,
        Platform::MacOs => "llama-mac"@,
        Platform::Linux => "llama-lin"@,
    }
}

/// The server's executable names; macOS builds may carry an architecture
/// or platform suffix.
pub open spec fn server_exe_names(p: Platform) -> Seq<PathView> {
    match p {
        Platform::Windows => seq![seq!["llama-server.exe"@]],
        Platform::MacOs => seq![
            seq!["llama-server"@],
            seq!["llama-server-macos"@],
            seq!["llama-server-macos-arm64"@],
            seq!["llama-server-macos-x86_64"@],
            seq!["llama-server-arm64"@],
            seq!["llama-server-x86_64"@],
        ],
        Platform::Linux => seq![seq!["llama-server"@]],
    }
}

pub open spec fn speech_folder(p: Platform) -> Seq<char> {
    match p {
        Platform::Windows => "tts-win"@,
        Platform::MacOs => "tts-mac"@,
        Platform::Linux => "tts-lin"@,
    }
}

pub open spec fn speech_exe_file(p: Platform) -> Seq<char> {
    match p {
        Platform::Windows => "tts-inference.exe"@,
        _ => "tts-inference"@,
    }
}

/// The speech executable lies in a folder of its own name (a one-directory
/// bundle); an older single-file build lies directly in the platform folder.
pub open spec fn speech_exe_names(p: Platform) -> Seq<PathView> {
    seq![seq!["tts-inference"@, speech_exe_file(p)], seq![speech_exe_file(p)]]
}

fn layout_dirs(folder: &str) -> (r: Vec<Vec<String>>)
    ensures
        rel_paths_view(r@) == layouts(folder@),
{
    let dev = vec!["src-tauri".to_string(), "bin".to_string(), folder.to_string()];
    let rel = vec!["bin".to_string(), folder.to_string()];
    let res = vec!["resources".to_string(), "bin".to_string(), folder.to_string()];
    assert(strs_view(dev@) =~= seq!["src-tauri"@, "bin"@, folder@]);
    assert(strs_view(rel@) =~= seq!["bin"@, folder@]);
    assert(strs_view(res@) =~= seq!["resources"@, "bin"@, folder@]);
    let r = vec![dev, rel, res];
    assert(rel_paths_view(r@) =~= layouts(folder@));
    r
}

fn single(name: &str) -> (r: Vec<String>)
    ensures
        strs_view(r@) == seq![name@],
{
    let r = vec![name.to_string()];
    assert(strs_view(r@) =~= seq![name@]);
    r
}

/// How to find the long-running text-generation server on `p`.
pub fn server_descriptor(p: Platform) -> (d: BackendDescriptor)
    ensures
        d.name@ == "llama-server"@,
        d.bases() == layouts(server_folder(p)),
        d.names() == server_exe_names(p),
        d.sibling_names().len() == 0,
{
    let folder = match p {
        Platform::Windows => "llama-win",
        Platform::MacOs => "llama-mac",
        Platform::Linux => "llama-lin",
    };
    let names = match p {
        Platform::Windows => vec![single("llama-server.exe")],
        Platform::MacOs => vec![
            single("llama-server"),
            single("llama-server-macos"),
            single("llama-server-macos-arm64"),
            single("llama-server-macos-x86_64"),
            single("llama-server-arm64"),
            single("llama-server-x86_64"),
        ],
        Platform::Linux => vec![single("llama-server")],
    };
    assert(rel_paths_view(names@) =~= server_exe_names(p));
    let d = BackendDescriptor {
        name: "llama-server".to_string(),
        base_dirs: layout_dirs(folder),
        exe_names: names,
        siblings: Vec::new(),
    };
    assert(d.sibling_names() =~= Seq::<Seq<char>>::empty());
    d
}

/// How to find the one-shot speech-synthesis executable on `p`.
pub fn speech_descriptor(p: Platform) -> (d: BackendDescriptor)
    ensures
        d.name@ == "tts-inference"@,
        d.bases() == layouts(speech_folder(p)),
        d.names() == speech_exe_names(p),
        d.sibling_names().len() == 0,
{
    let folder = match p {
        Platform::Windows => "tts-win",
        Platform::MacOs => "tts-mac",
        Platform::Linux => "tts-lin",
    };
    let file = match p {
        Platform::Windows => "tts-inference.exe",
        _ => "tts-inference",
    };
    let bundled = vec!["tts-inference".to_string(), file.to_string()];
    assert(strs_view(bundled@) =~= seq!["tts-inference"@, speech_exe_file(p)]);
    let names = vec![bundled, single(file)];
    assert(rel_paths_view(names@) =~= speech_exe_names(p));
    let d = BackendDescriptor {
        name: "tts-inference".to_string(),
        base_dirs: layout_dirs(folder),
        exe_names: names,
        siblings: Vec::new(),
    };
    assert(d.sibling_names() =~= Seq::<Seq<char>>::empty());
    d
}

/// The server's command line: the model, then the fixed serving parameters
/// (context size, port, bind address and sampling settings).
pub open spec fn server_args_spec(model: PathView) -> Seq<ArgView> {
    seq![
        ArgView::Word("-m"@), ArgView::Path(model),
        ArgView::Word("--ctx-size"@), ArgView::Word("4096"@),
        ArgView::Word("--port"@), ArgView::Word("8081"@),
        ArgView::Word("--host"@), ArgView::Word("127.0.0.1"@),
        ArgView::Word("-n"@), ArgView::Word("256"@),
        ArgView::Word("--temp"@), ArgView::Word("0.7"@),
        ArgView::Word("--top-p"@), ArgView::Word("0.9"@),
        ArgView::Word("--top-k"@), ArgView::Word("40"@),
        ArgView::Word("--repeat-penalty"@), ArgView::Word("1.1"@),
    ]
}

fn word(s: &str) -> (r: Arg)
    ensures
        arg_view(r) == ArgView::Word(s@),
{
    Arg::Word(s.to_string())
}

/// The arguments that start the server on `model`.
pub fn server_args(model: &FsPath) -> (r: Vec<Arg>)
    ensures
        args_view(r@) == server_args_spec(model@),
{
    let r = vec![
        word("-m"), Arg::Path(model.duplicate()),
        word("--ctx-size"), word("4096"),
        word("--port"), word("8081"),
        word("--host"), word("127.0.0.1"),
        word("-n"), word("256"),
        word("--temp"), word("0.7"),
        word("--top-p"), word("0.9"),
        word("--top-k"), word("40"),
        word("--repeat-penalty"), word("1.1"),
    ];
    assert(args_view(r@) =~= server_args_spec(model@));
    r
}

} // verus!
