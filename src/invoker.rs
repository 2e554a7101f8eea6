//! One-shot runs of the speech backend: checking the inputs before the run
//! and reading its outcome after.

use vstd::prelude::*;
use vstd::string::*;
use crate::backends::{Arg, ArgView, args_view};
use crate::error::BackendError;
use crate::locator::ResolvedExecutable;
use crate::path::{FsPath, PathView, paths_view, parent_of, contains_path};

verus! {

/// The files a speech model at `model` needs: the model itself, then the
/// two components expected beside it.
pub open spec fn speech_artifacts_spec(model: PathView) -> Seq<PathView> {
    seq![
        model,
        parent_of(model).push("ve_fp32-f16.gguf"@),
        parent_of(model).push("t3_cfg-q4_k_m.gguf"@),
    ]
}

/// The first of `paths` that is not in `fs`.
pub open spec fn first_missing(paths: Seq<PathView>, fs: Set<PathView>) -> Option<PathView>
    decreases paths.len(),
{
    if paths.len() == 0 {
        None
    } else if !fs.contains(paths[0]) {
        Some(paths[0])
    } else {
        first_missing(paths.drop_first(), fs)
    }
}

/// The speech backend's command line.
pub open spec fn speech_args_spec(text: Seq<char>, output: PathView, model: PathView) -> Seq<ArgView> {
    let a = speech_artifacts_spec(model);
    seq![
        ArgView::Word("--text"@), ArgView::Word(text),
        ArgView::Word("--output"@), ArgView::Path(output),
        ArgView::Word("--model_gguf"@), ArgView::Path(a[0]),
        ArgView::Word("--vae_gguf"@), ArgView::Path(a[1]),
        ArgView::Word("--clip_gguf"@), ArgView::Path(a[2]),
    ]
}

/// A checked one-shot run: start `exe` with `args` from the executable's
/// directory, and wait for it.
#[derive(Debug)]
pub struct Invocation {
    pub exe: ResolvedExecutable,
    pub output: FsPath,
    pub args: Vec<Arg>,
}

/// A run that succeeded: the artifact it wrote and what it printed.
#[derive(Debug)]
pub struct InvocationResult {
    pub output: FsPath,
    pub stdout: Vec<u8>,
    pub stderr: Vec<u8>,
}

/// The files the speech model at `model` needs, in the order they are
/// checked.
pub fn speech_artifacts(model: &FsPath) -> (r: Vec<FsPath>)
    ensures
        paths_view(r@) == speech_artifacts_spec(model@),
{
    let dir = model.parent();
    let r = vec![model.duplicate(), dir.child("ve_fp32-f16.gguf"), dir.child("t3_cfg-q4_k_m.gguf")];
    assert(paths_view(r@) =~= speech_artifacts_spec(model@));
    r
}

/// Checks the speech model's files against `files`, the paths that exist,
/// and builds the run that writes `text` as speech to `output`. The first
/// missing file is reported by `MissingArtifact`.
pub fn prepare_speech(
    exe: ResolvedExecutable,
    model_path: &FsPath,
    text: &String,
    output: FsPath,
    files: &Vec<FsPath>,
) -> (r: Result<Invocation, BackendError>)
    ensures
        match first_missing(speech_artifacts_spec(model_path@), paths_view(files@).to_set()) {
            Some(p) => r matches Err(BackendError::MissingArtifact { path }) && path@ == p,
            None => r matches Ok(inv) && {
                &&& inv.exe == exe
                &&& inv.output@ == output@
                &&& args_view(inv.args@) == speech_args_spec(text@, output@, model_path@)
            },
        },
{
    let arts = speech_artifacts(model_path);
    let ghost av = paths_view(arts@);
    let ghost fs = paths_view(files@).to_set();
    let mut i: usize = 0;
    assert(av.skip(0) =~= av);
    while i < arts.len()
        invariant
            i <= arts@.len(),
            av == paths_view(arts@),
            av == speech_artifacts_spec(model_path@),
            fs == paths_view(files@).to_set(),
            first_missing(av, fs) == first_missing(av.skip(i as int), fs),
        decreases arts@.len() - i,
    {
        assert(av.skip(i as int)[0] == av[i as int]);
        if !contains_path(files, &arts[i]) {
            return Err(BackendError::MissingArtifact { path: arts[i].duplicate() });
        }
        assert(av.skip(i as int).drop_first() =~= av.skip(i + 1 as int));
        i = i + 1;
    }
    assert(av.skip(i as int).len() == 0);
    let args = vec![
        Arg::Word("--text".to_string()), Arg::Word(text.clone()),
        Arg::Word("--output".to_string()), Arg::Path(output.duplicate()),
        Arg::Word("--model_gguf".to_string()), Arg::Path(arts[0].duplicate()),
        Arg::Word("--vae_gguf".to_string()), Arg::Path(arts[1].duplicate()),
        Arg::Word("--clip_gguf".to_string()), Arg::Path(arts[2].duplicate()),
    ];
    assert(args_view(args@) =~= speech_args_spec(text@, output@, model_path@));
    Ok(Invocation { exe, output, args })
}

/// Reads the outcome of a run: exit code zero is success, with the artifact's
/// path; anything else (another code, or none when the process was killed by
/// a signal) fails with the exact captured output.
pub fn finish_invocation(inv: Invocation, code: Option<i32>, stdout: Vec<u8>, stderr: Vec<u8>) -> (r: Result<InvocationResult, BackendError>)
    ensures
        code == Some(0i32) ==> r == Ok::<InvocationResult, BackendError>(InvocationResult { output: inv.output, stdout, stderr }),
        code != Some(0i32) ==> r == Err::<InvocationResult, BackendError>(BackendError::InvocationFailed { code, stdout, stderr }),
{
    let success = match code {
        Some(c) => c == 0,
        None => false,
    };
    if success {
        Ok(InvocationResult { output: inv.output, stdout, stderr })
    } else {
        Err(BackendError::InvocationFailed { code, stdout, stderr })
    }
}

/// The character of a decimal digit.
pub open spec fn digit_char(d: int) -> char {
    seq!['0', '1', '2', '3', '4', '5', '6', '7', '8', '9'][d]
}

/// The decimal notation of `n`, without leading zeros.
pub open spec fn decimal(n: nat) -> Seq<char>
    decreases n,
{
    if n < 10 {
        seq![digit_char(n as int)]
    } else {
        decimal(n / 10).push(digit_char((n % 10) as int))
    }
}

/// The name of the audio file written by a run started at `millis`
/// milliseconds after the Unix epoch.
pub open spec fn speech_output_name(millis: nat) -> Seq<char> {
    "genhat_tts_"@ + decimal(millis) + ".wav"@
}

fn digit_str(d: u8) -> (r: &'static str)
    requires
        d < 10,
    ensures
        r@ == seq![digit_char(d as int)],
{
    proof {
        reveal_strlit("0");
        reveal_strlit("1");
        reveal_strlit("2");
        reveal_strlit("3");
        reveal_strlit("4");
        reveal_strlit("5");
        reveal_strlit("6");
        reveal_strlit("7");
        reveal_strlit("8");
        reveal_strlit("9");
    }
    match d {
        0 => "0",
        1 => "1",
        2 => "2",
        3 => "3",
        4 => "4",
        5 => "5",
        6 => "6",
        7 => "7",
        8 => "8",
        _ => "9",
    }
}

/// Appends the decimal notation of `n` to `s`.
pub fn push_decimal(s: &mut String, n: u128)
    ensures
        final(s)@ == old(s)@ + decimal(n as nat),
{
    let mut digits: Vec<u8> = Vec::new();
    let mut q: u128 = n;
    let ghost mut tail: Seq<char> = Seq::empty();
    while q >= 10
        invariant
            decimal(n as nat) == decimal(q as nat) + tail,
            tail.len() == digits@.len(),
            forall|i: int| 0 <= i < digits@.len() ==> digits@[i] < 10 && tail[tail.len() - 1 - i] == digit_char(
                #[trigger] digits@[i] as int,
            ),
        decreases q,
    {
        let d = (q % 10) as u8;
        proof {
            let t2 = seq![digit_char(d as int)] + tail;
            assert(decimal(q as nat) == decimal((q / 10) as nat).push(digit_char(d as int)));
            assert(decimal((q / 10) as nat).push(digit_char(d as int)) + tail =~= decimal((q / 10) as nat) + t2);
            tail = t2;
        }
        digits.push(d);
        q = q / 10;
    }
    let first = q as u8;
    proof {
        tail = seq![digit_char(first as int)] + tail;
    }
    digits.push(first);
    let ghost start = s@;
    let mut k: usize = digits.len();
    while k > 0
        invariant
            k <= digits@.len(),
            decimal(n as nat) == tail,
            tail.len() == digits@.len(),
            forall|i: int| 0 <= i < digits@.len() ==> digits@[i] < 10 && tail[tail.len() - 1 - i] == digit_char(
                #[trigger] digits@[i] as int,
            ),
            s@ == start + tail.take(digits@.len() - k),
        decreases k,
    {
        k = k - 1;
        let piece = digit_str(digits[k]);
        s.append(piece);
        assert(tail.take(digits@.len() - k) =~= tail.take(digits@.len() - k - 1).push(tail[digits@.len() - 1 - k]));
    }
    assert(tail.take(digits@.len() as int) =~= tail);
}

/// Where a run started at `millis` milliseconds after the Unix epoch writes
/// its audio: a file named by the time, in the temporary directory.
pub fn speech_output_path(temp_dir: &FsPath, millis: u128) -> (r: FsPath)
    ensures
        r@ == temp_dir@.push(speech_output_name(millis as nat)),
{
    let mut name = String::from_str("genhat_tts_");
    push_decimal(&mut name, millis);
    name.append(".wav");
    temp_dir.child(name.as_str())
}

} // verus!
