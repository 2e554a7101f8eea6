use genhat::diagnostics::tagged_line;
use genhat::models::{
    choose_startup_model, is_gguf, models_dir, speech_model, speech_model_dirs, speech_models, text_model, text_models,
    PathKind,
};
use genhat::path::FsPath;

fn p(s: &str) -> FsPath {
    let mut parts: Vec<String> = Vec::new();
    if s.starts_with('/') {
        parts.push("/".to_string());
    }
    for c in s.split('/').filter(|c| !c.is_empty()) {
        parts.push(c.to_string());
    }
    FsPath::from_parts(parts)
}

fn names(v: &[&str]) -> Vec<String> {
    v.iter().map(|s| s.to_string()).collect()
}

#[test]
fn gguf_extension() {
    assert!(is_gguf("a.gguf"));
    assert!(is_gguf("..gguf"));
    assert!(!is_gguf(".gguf"));
    assert!(!is_gguf("a.gguf.part"));
    assert!(!is_gguf("agguf"));
    assert!(!is_gguf(""));
}

#[test]
fn speech_components_are_not_text_models() {
    assert!(text_model("LFM-1.2B-INT8.gguf"));
    assert!(!text_model("t3_cfg-q4_k_m.gguf"));
    assert!(!text_model("s3gen-bf16.gguf"));
    assert!(!text_model("ve_fp32-f16.gguf"));
    assert!(!text_model("readme.md"));
    assert!(speech_model("s3gen-bf16.gguf"));
    assert!(!speech_model("t3_cfg-q4_k_m.gguf"));
    assert!(!speech_model("s3gen.bin"));
}

#[test]
fn text_models_keep_order_and_paths() {
    let dir = p("/models");
    let r = text_models(&dir, &names(&["b.gguf", "ve_x.gguf", "a.gguf", "x.txt"]));
    assert_eq!(r.len(), 2);
    assert_eq!(r[0].name, "b.gguf");
    assert_eq!(r[0].path, p("/models/b.gguf"));
    assert_eq!(r[1].name, "a.gguf");
    assert_eq!(r[1].path, p("/models/a.gguf"));
    assert!(text_models(&dir, &vec![]).is_empty());
}

#[test]
fn speech_models_are_found_in_both_directories() {
    let dir = p("/models");
    let dirs = speech_model_dirs(&dir);
    assert_eq!(dirs, vec![p("/models"), p("/models/tts-chatterbox-q4-k-m")]);
    let r = speech_models(&dirs[1], &names(&["s3gen-bf16.gguf", "t3_cfg.gguf", "LFM.gguf"]));
    assert_eq!(r.len(), 1);
    assert_eq!(r[0].name, "s3gen-bf16.gguf");
    assert_eq!(r[0].path, p("/models/tts-chatterbox-q4-k-m/s3gen-bf16.gguf"));
}

#[test]
fn startup_choice() {
    let dir = p("/models");
    assert_eq!(
        choose_startup_model(&dir, true, &vec![]),
        Some(p("/models/LFM-1.2B-INT8.gguf"))
    );
    assert_eq!(
        choose_startup_model(&dir, false, &names(&["t3_a.gguf", "custom.gguf", "z.gguf"])),
        Some(p("/models/custom.gguf"))
    );
    assert_eq!(choose_startup_model(&dir, false, &names(&["ve_a.gguf", "x.bin"])), None);
    assert_eq!(choose_startup_model(&dir, false, &vec![]), None);
}

#[test]
fn models_directory_override() {
    let fallback = p("/repo/models");
    assert_eq!(models_dir(Some(p("/data/m/x.gguf")), PathKind::File, fallback.clone()), p("/data/m"));
    assert_eq!(models_dir(Some(p("/data/m")), PathKind::Dir, fallback.clone()), p("/data/m"));
    assert_eq!(models_dir(Some(p("/nowhere")), PathKind::Missing, fallback.clone()), fallback);
    assert_eq!(models_dir(None, PathKind::Missing, fallback.clone()), fallback);
}

#[test]
fn tagged_lines() {
    assert_eq!(tagged_line("stdout", "listening on 8081"), "[stdout] listening on 8081");
    assert_eq!(tagged_line("stderr", ""), "[stderr] ");
}
