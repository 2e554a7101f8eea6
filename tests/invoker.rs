use genhat::backends::Arg;
use genhat::error::BackendError;
use genhat::invoker::{finish_invocation, prepare_speech, push_decimal, speech_artifacts, speech_output_path, Invocation};
use genhat::locator::ResolvedExecutable;
use genhat::path::FsPath;

fn p(s: &str) -> FsPath {
    let mut parts: Vec<String> = Vec::new();
    if s.starts_with('/') {
        parts.push("/".to_string());
    }
    for c in s.split('/').filter(|c| !c.is_empty()) {
        parts.push(c.to_string());
    }
    FsPath::from_parts(parts)
}

fn exe() -> ResolvedExecutable {
    ResolvedExecutable::from_path(p("/app/bin/tts-lin/tts-inference/tts-inference"))
}

fn all_files() -> Vec<FsPath> {
    vec![p("/m/s3gen.gguf"), p("/m/ve_fp32-f16.gguf"), p("/m/t3_cfg-q4_k_m.gguf")]
}

fn prepared() -> Invocation {
    prepare_speech(exe(), &p("/m/s3gen.gguf"), &"hello".to_string(), p("/tmp/out.wav"), &all_files()).unwrap()
}

#[test]
fn artifacts_lie_beside_the_model() {
    assert_eq!(
        speech_artifacts(&p("/m/s3gen.gguf")),
        vec![p("/m/s3gen.gguf"), p("/m/ve_fp32-f16.gguf"), p("/m/t3_cfg-q4_k_m.gguf")]
    );
}

#[test]
fn each_missing_artifact_is_named() {
    let files = all_files();
    for missing in 0..3 {
        let present: Vec<FsPath> =
            files.iter().enumerate().filter(|(i, _)| *i != missing).map(|(_, f)| f.clone()).collect();
        match prepare_speech(exe(), &p("/m/s3gen.gguf"), &"hi".to_string(), p("/tmp/o.wav"), &present) {
            Err(BackendError::MissingArtifact { path }) => assert_eq!(path, files[missing]),
            other => panic!("unexpected {:?}", other),
        }
    }
    match prepare_speech(exe(), &p("/m/s3gen.gguf"), &"hi".to_string(), p("/tmp/o.wav"), &vec![]) {
        Err(BackendError::MissingArtifact { path }) => assert_eq!(path, p("/m/s3gen.gguf")),
        other => panic!("unexpected {:?}", other),
    }
}

#[test]
fn command_line_of_a_speech_run() {
    let inv = prepared();
    assert_eq!(inv.output, p("/tmp/out.wav"));
    assert_eq!(inv.exe.dir(), &p("/app/bin/tts-lin/tts-inference"));
    let rendered: Vec<String> = inv
        .args
        .iter()
        .map(|a| match a {
            Arg::Word(w) => w.clone(),
            Arg::Path(q) => q.parts.join("|"),
        })
        .collect();
    assert_eq!(
        rendered,
        vec![
            "--text",
            "hello",
            "--output",
            "/|tmp|out.wav",
            "--model_gguf",
            "/|m|s3gen.gguf",
            "--vae_gguf",
            "/|m|ve_fp32-f16.gguf",
            "--clip_gguf",
            "/|m|t3_cfg-q4_k_m.gguf"
        ]
    );
}

#[test]
fn success_returns_the_artifact() {
    let r = finish_invocation(prepared(), Some(0), b"ok".to_vec(), vec![]).unwrap();
    assert_eq!(r.output, p("/tmp/out.wav"));
    assert_eq!(r.stdout, b"ok".to_vec());
    assert!(r.stderr.is_empty());
}

#[test]
fn failure_carries_the_exact_output() {
    let out = b"partial\n".to_vec();
    let err = b"model load failed: \xff bad\n".to_vec();
    match finish_invocation(prepared(), Some(3), out.clone(), err.clone()) {
        Err(BackendError::InvocationFailed { code, stdout, stderr }) => {
            assert_eq!(code, Some(3));
            assert_eq!(stdout, out);
            assert_eq!(stderr, err);
        }
        other => panic!("unexpected {:?}", other),
    }
    match finish_invocation(prepared(), None, vec![], vec![]) {
        Err(BackendError::InvocationFailed { code, .. }) => assert_eq!(code, None),
        other => panic!("unexpected {:?}", other),
    }
}

#[test]
fn output_file_is_named_by_the_time() {
    assert_eq!(speech_output_path(&p("/tmp"), 1700000000123), p("/tmp/genhat_tts_1700000000123.wav"));
    assert_eq!(speech_output_path(&p("/tmp"), 0), p("/tmp/genhat_tts_0.wav"));
    let mut s = "n=".to_string();
    push_decimal(&mut s, u128::MAX);
    assert_eq!(s, format!("n={}", u128::MAX));
    let mut t = String::new();
    push_decimal(&mut t, 10);
    assert_eq!(t, "10");
}
