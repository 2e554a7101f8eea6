use genhat::backends::{server_args, Arg};
use genhat::error::BackendError;
use genhat::locator::ResolvedExecutable;
use genhat::path::FsPath;
use genhat::supervisor::{LogRecord, Supervisor, SupervisorState};

fn p(s: &str) -> FsPath {
    let mut parts: Vec<String> = Vec::new();
    if s.starts_with('/') {
        parts.push("/".to_string());
    }
    for c in s.split('/').filter(|c| !c.is_empty()) {
        parts.push(c.to_string());
    }
    FsPath::from_parts(parts)
}

fn exe() -> ResolvedExecutable {
    ResolvedExecutable::from_path(p("/app/bin/llama-lin/llama-server"))
}

/// Counts the processes alive after replaying a journal.
fn alive_after(journal: &[LogRecord]) -> Vec<u32> {
    let mut alive: Vec<u32> = Vec::new();
    for r in journal {
        match r {
            LogRecord::Launched { pid, .. } => alive.push(*pid),
            LogRecord::Terminated { pid } => alive.retain(|q| q != pid),
            _ => {}
        }
    }
    alive
}

fn switch(sup: &mut Supervisor, model: &str, pid: u32) -> Result<u32, BackendError> {
    let plan = sup.begin_switch(p(model), true, Ok(exe()))?;
    sup.finish_switch(plan, Ok(pid))
}

#[test]
fn stop_on_idle_is_a_no_op() {
    let mut sup = Supervisor::new();
    assert_eq!(sup.stop(), None);
    assert!(sup.is_idle());
    assert!(sup.journal().is_empty());
}

#[test]
fn missing_model_changes_nothing() {
    let mut sup = Supervisor::new();
    match sup.begin_switch(p("/m/gone.gguf"), false, Ok(exe())) {
        Err(BackendError::ModelNotFound { path }) => assert_eq!(path, p("/m/gone.gguf")),
        other => panic!("unexpected {:?}", other),
    }
    assert!(sup.is_idle());
    assert!(sup.journal().is_empty());
    assert_eq!(switch(&mut sup, "/m/a.gguf", 10).unwrap(), 10);
    let before = sup.journal().len();
    assert!(matches!(
        sup.begin_switch(p("/m/gone.gguf"), false, Ok(exe())),
        Err(BackendError::ModelNotFound { .. })
    ));
    assert_eq!(sup.journal().len(), before);
    match sup.state() {
        SupervisorState::Running { model_path, pid } => {
            assert_eq!(model_path, &p("/m/a.gguf"));
            assert_eq!(*pid, 10);
        }
        other => panic!("unexpected {:?}", other),
    }
}

#[test]
fn switching_terminates_the_old_process_before_launching_the_new() {
    let mut sup = Supervisor::new();
    switch(&mut sup, "/m/a.gguf", 10).unwrap();
    let plan = sup.begin_switch(p("/m/b.gguf"), true, Ok(exe())).unwrap();
    assert_eq!(plan.terminate, Some(10));
    assert_eq!(plan.model_path, p("/m/b.gguf"));
    assert!(sup.is_idle());
    sup.finish_switch(plan, Ok(20)).unwrap();
    let j = sup.journal();
    assert_eq!(j.len(), 3);
    assert!(matches!(&j[0], LogRecord::Launched { pid: 10, .. }));
    assert!(matches!(&j[1], LogRecord::Terminated { pid: 10 }));
    match &j[2] {
        LogRecord::Launched { exe: e, model_path, pid } => {
            assert_eq!(*pid, 20);
            assert_eq!(model_path, &p("/m/b.gguf"));
            assert_eq!(e, &p("/app/bin/llama-lin/llama-server"));
        }
        other => panic!("unexpected {:?}", other),
    }
    assert_eq!(alive_after(j), vec![20]);
}

#[test]
fn at_most_one_process_is_alive_over_many_switches() {
    let mut sup = Supervisor::new();
    for i in 0..20u32 {
        let model = format!("/m/model{}.gguf", i % 3);
        switch(&mut sup, &model, 100 + i).unwrap();
        let j = sup.journal();
        for k in 0..=j.len() {
            assert!(alive_after(&j[..k]).len() <= 1);
        }
        assert_eq!(alive_after(j), vec![100 + i]);
    }
    let terminations = sup.journal().iter().filter(|r| matches!(r, LogRecord::Terminated { .. })).count();
    assert_eq!(terminations, 19);
}

#[test]
fn launch_failure_leaves_the_supervisor_idle() {
    let mut sup = Supervisor::new();
    switch(&mut sup, "/m/a.gguf", 7).unwrap();
    let plan = sup.begin_switch(p("/m/b.gguf"), true, Ok(exe())).unwrap();
    match sup.finish_switch(plan, Err("permission denied".to_string())) {
        Err(BackendError::LaunchFailed { reason }) => assert_eq!(reason, "permission denied"),
        other => panic!("unexpected {:?}", other),
    }
    assert!(sup.is_idle());
    assert!(matches!(sup.journal().last(), Some(LogRecord::LaunchFailed { .. })));
    assert!(alive_after(sup.journal()).is_empty());
    assert_eq!(sup.stop(), None);
}

#[test]
fn resolution_failure_is_passed_on_and_keeps_the_process() {
    let mut sup = Supervisor::new();
    switch(&mut sup, "/m/a.gguf", 7).unwrap();
    let err = BackendError::ResolutionFailed { backend: "llama-server".to_string(), checked: vec![] };
    assert!(matches!(
        sup.begin_switch(p("/m/b.gguf"), true, Err(err)),
        Err(BackendError::ResolutionFailed { .. })
    ));
    assert!(!sup.is_idle());
    assert_eq!(sup.journal().len(), 1);
}

#[test]
fn stop_terminates_the_running_process_once() {
    let mut sup = Supervisor::new();
    switch(&mut sup, "/m/a.gguf", 7).unwrap();
    assert_eq!(sup.stop(), Some(7));
    assert!(sup.is_idle());
    assert_eq!(sup.stop(), None);
    assert_eq!(sup.journal().len(), 2);
}

#[test]
fn shutdown_leaves_idle_with_at_most_one_termination() {
    let mut idle = Supervisor::new();
    assert_eq!(idle.shutdown(), None);
    assert!(idle.is_idle());
    assert!(idle.journal().is_empty());

    let mut running = Supervisor::new();
    switch(&mut running, "/m/a.gguf", 42).unwrap();
    assert_eq!(running.shutdown(), Some(42));
    assert!(running.is_idle());
    assert_eq!(running.journal().len(), 2);
    assert!(matches!(running.journal()[1], LogRecord::Terminated { pid: 42 }));
}

#[test]
fn plan_carries_the_server_command_line() {
    let mut sup = Supervisor::new();
    let plan = sup.begin_switch(p("/m/a.gguf"), true, Ok(exe())).unwrap();
    assert_eq!(plan.terminate, None);
    assert_eq!(plan.exe.dir(), &p("/app/bin/llama-lin"));
    let words: Vec<String> = plan
        .args
        .iter()
        .map(|a| match a {
            Arg::Word(w) => w.clone(),
            Arg::Path(_) => "<path>".to_string(),
        })
        .collect();
    assert_eq!(
        words,
        vec![
            "-m", "<path>", "--ctx-size", "4096", "--port", "8081", "--host", "127.0.0.1", "-n", "256",
            "--temp", "0.7", "--top-p", "0.9", "--top-k", "40", "--repeat-penalty", "1.1"
        ]
    );
    assert!(matches!(&plan.args[1], Arg::Path(m) if *m == p("/m/a.gguf")));
    assert_eq!(server_args(&p("/m/a.gguf")).len(), 18);
}

#[test]
fn startup_launches_the_default_model() {
    let mut sup = Supervisor::new();
    let dir = p("/models");
    let names = vec!["custom.gguf".to_string(), "LFM-1.2B-INT8.gguf".to_string()];
    let chosen = sup.startup(&dir, true, &names).unwrap();
    assert_eq!(chosen, p("/models/LFM-1.2B-INT8.gguf"));
    let plan = sup.begin_switch(chosen, true, Ok(exe())).unwrap();
    sup.finish_switch(plan, Ok(5)).unwrap();
    match sup.state() {
        SupervisorState::Running { model_path, pid } => {
            assert_eq!(model_path, &p("/models/LFM-1.2B-INT8.gguf"));
            assert_eq!(*pid, 5);
        }
        other => panic!("unexpected {:?}", other),
    }
}

#[test]
fn startup_falls_back_to_another_text_model() {
    let mut sup = Supervisor::new();
    let dir = p("/models");
    let names = vec!["s3gen-x.gguf".to_string(), "notes.txt".to_string(), "custom.gguf".to_string()];
    let chosen = sup.startup(&dir, false, &names).unwrap();
    assert_eq!(chosen, p("/models/custom.gguf"));
    assert!(sup.journal().is_empty());
}

#[test]
fn startup_without_models_stays_idle_and_records_it() {
    let mut sup = Supervisor::new();
    let dir = p("/models");
    assert!(sup.startup(&dir, false, &vec![]).is_none());
    assert!(sup.is_idle());
    assert_eq!(sup.journal().len(), 1);
    match &sup.journal()[0] {
        LogRecord::NoModelsFound { dir: d } => assert_eq!(d, &p("/models")),
        other => panic!("unexpected {:?}", other),
    }
}
