//! Scenario tests for the expansion-service core: the cache's identity
//! discipline, the environment bracket, and the dispatcher's failure
//! conversion, driven the way the embedding program drives them.
use proc_macro_srv::cache::ExpanderCache;
use proc_macro_srv::env_scope::capture_env;
use proc_macro_srv::env_scope::check_distinct_names;
use proc_macro_srv::env_scope::close_scope;
use proc_macro_srv::env_scope::restore_actions;
use proc_macro_srv::env_scope::restore_dir;
use proc_macro_srv::env_scope::EnvAction;
use proc_macro_srv::srv::expand_conclude;
use proc_macro_srv::srv::expand_load_failure;
use proc_macro_srv::srv::load_error_message;
use proc_macro_srv::srv::stat_error_message;
use proc_macro_srv::srv::ExpandRequest;
use proc_macro_srv::srv::HandleResolution;
use proc_macro_srv::srv::InvokeOutcome;
use proc_macro_srv::srv::MacroKind;
use proc_macro_srv::srv::PanicMessage;
use proc_macro_srv::srv::ProcMacroSrv;

#[test]
fn cache_identity_unchanged_mtime_reuses_handle() {
    let mut srv = ProcMacroSrv::new();
    let path = String::from("/plugins/libfoo.so");
    let mut loads: u32 = 0;

    // First request: nothing cached yet, a load is needed.
    let r1 = srv.resolve_step(&path, Ok(7));
    assert_eq!(r1, HandleResolution::Missing(7));
    loads += 1;
    assert!(srv.has_capacity());
    let h1 = srv.note_loaded(&path, 7);

    // Second request against the unchanged artifact: same handle, no load.
    let r2 = srv.resolve_step(&path, Ok(7));
    assert_eq!(r2, HandleResolution::Ready(h1));
    assert_eq!(loads, 1);
}

#[test]
fn cache_invalidation_on_rebuild_loads_fresh_handle() {
    let mut srv = ProcMacroSrv::new();
    let path = String::from("/plugins/libfoo.so");

    assert_eq!(srv.resolve_step(&path, Ok(100)), HandleResolution::Missing(100));
    let h1 = srv.note_loaded(&path, 100);

    // The artifact was rebuilt: new modification time, new identity.
    assert_eq!(srv.resolve_step(&path, Ok(200)), HandleResolution::Missing(200));
    let h2 = srv.note_loaded(&path, 200);
    assert_ne!(h1, h2);

    // The old identity still resolves to the old handle.
    assert_eq!(srv.resolve_step(&path, Ok(100)), HandleResolution::Ready(h1));
    assert_eq!(srv.resolve_step(&path, Ok(200)), HandleResolution::Ready(h2));
}

#[test]
fn load_failure_inserts_nothing() {
    let mut srv = ProcMacroSrv::new();
    let path = String::from("/plugins/missing.so");

    // The path does not exist: the stat step fails, the cache is untouched.
    let r = srv.resolve_step(&path, Err(String::from("No such file or directory")));
    assert_eq!(
        r,
        HandleResolution::Failed(String::from(
            "Failed to get file metadata for /plugins/missing.so: No such file or directory"
        ))
    );

    // The artifact appears; the same path now stats fine and the cache
    // still has no entry for it: exactly one load follows.
    assert_eq!(srv.resolve_step(&path, Ok(42)), HandleResolution::Missing(42));
    let h = srv.note_loaded(&path, 42);
    assert_eq!(srv.resolve_step(&path, Ok(42)), HandleResolution::Ready(h));
}

#[test]
fn note_loaded_is_idempotent_per_identity() {
    let mut srv = ProcMacroSrv::new();
    let path = String::from("/plugins/libbar.so");
    let h1 = srv.note_loaded(&path, 5);
    let h2 = srv.note_loaded(&path, 5);
    assert_eq!(h1, h2);
}

#[test]
fn distinct_paths_get_distinct_handles() {
    let mut srv = ProcMacroSrv::new();
    let a = String::from("/plugins/a.so");
    let b = String::from("/plugins/b.so");
    let ha = srv.note_loaded(&a, 1);
    let hb = srv.note_loaded(&b, 1);
    assert_ne!(ha, hb);
    assert_eq!(srv.resolve_step(&a, Ok(1)), HandleResolution::Ready(ha));
    assert_eq!(srv.resolve_step(&b, Ok(1)), HandleResolution::Ready(hb));
}

#[test]
fn cache_lookup_direct() {
    let mut cache = ExpanderCache::new();
    let path = String::from("/plugins/libfoo.so");
    assert_eq!(cache.lookup(&path, 9), None);
    let h = cache.register(&path, 9);
    assert_eq!(cache.lookup(&path, 9), Some(h));
    assert_eq!(cache.lookup(&path, 10), None);
}

#[test]
fn env_bracket_restore_actions_are_exact() {
    // One variable previously unset, one previously set.
    let overrides = vec![
        (String::from("K"), String::from("V")),
        (String::from("L"), String::from("new")),
    ];
    let current = vec![None, Some(String::from("old"))];
    let snap = capture_env(&overrides, &current, None);
    let acts = restore_actions(&snap);
    assert_eq!(
        acts,
        vec![
            EnvAction::RemoveVar(String::from("K")),
            EnvAction::SetVar(String::from("L"), String::from("old")),
        ]
    );
    assert_eq!(restore_dir(&snap), None);
}

#[test]
fn env_bracket_simulated_restores_prior_state() {
    // Drive the bracket against a simulated process environment and check
    // that carrying out the restore actions recreates it exactly, on the
    // failure path of the wrapped call as well.
    let mut env: Vec<(String, String)> = vec![(String::from("L"), String::from("old"))];
    let overrides = vec![
        (String::from("K"), String::from("V")),
        (String::from("L"), String::from("new")),
    ];
    let before = env.clone();

    let current: Vec<Option<String>> = overrides
        .iter()
        .map(|(n, _)| env.iter().find(|(en, _)| en == n).map(|(_, v)| v.clone()))
        .collect();
    let snap = capture_env(&overrides, &current, None);

    // Apply the overrides to the simulated environment.
    for (n, v) in &overrides {
        env.retain(|(en, _)| en != n);
        env.push((n.clone(), v.clone()));
    }
    assert!(env.iter().any(|(n, v)| n.as_str() == "K" && v.as_str() == "V"));

    // The wrapped call fails; the restore still runs.
    let outcome = expand_conclude(InvokeOutcome::Failed(String::from("bad input")));
    assert!(outcome.is_err());

    for act in restore_actions(&snap) {
        match act {
            EnvAction::SetVar(n, v) => {
                env.retain(|(en, _)| en != &n);
                env.push((n, v));
            }
            EnvAction::RemoveVar(n) => env.retain(|(en, _)| en != &n),
        }
    }
    let mut restored = env.clone();
    restored.sort();
    let mut expected = before.clone();
    expected.sort();
    assert_eq!(restored, expected);
}

#[test]
fn close_scope_hands_back_actions_and_directory() {
    let overrides = vec![(String::from("K"), String::from("V"))];
    let current = vec![Some(String::from("orig"))];
    let snap = capture_env(&overrides, &current, Some(String::from("/prev")));
    let (acts, dir) = close_scope(snap);
    assert_eq!(
        acts,
        vec![EnvAction::SetVar(String::from("K"), String::from("orig"))]
    );
    assert_eq!(dir, Some(String::from("/prev")));
}

#[test]
fn workdir_bracket_returns_recorded_directory() {
    let overrides: Vec<(String, String)> = Vec::new();
    let current: Vec<Option<String>> = Vec::new();
    let snap = capture_env(&overrides, &current, Some(String::from("/work/before")));
    // Whatever directory the call ran in or left behind, the restore step
    // hands back exactly the recorded one.
    assert_eq!(restore_dir(&snap), Some(String::from("/work/before")));
}

#[test]
fn abort_becomes_diagnostic_and_service_stays_usable() {
    let mut srv = ProcMacroSrv::new();
    let path = String::from("/plugins/libfoo.so");
    let h = srv.note_loaded(&path, 1);

    // The transformer aborts abnormally: a diagnostic value, not a fault.
    let r = expand_conclude(InvokeOutcome::Aborted(String::from("stack smashed")));
    assert_eq!(
        r,
        Err(PanicMessage(String::from(
            "transformer aborted abnormally: stack smashed"
        )))
    );

    // The dispatcher serves unrelated requests afterwards.
    assert_eq!(srv.resolve_step(&path, Ok(1)), HandleResolution::Ready(h));
    let ok = expand_conclude(InvokeOutcome::Expanded(vec![1, 2, 3]));
    assert_eq!(ok, Ok(vec![1, 2, 3]));
}

#[test]
fn failed_transform_keeps_message() {
    let r = expand_conclude(InvokeOutcome::Failed(String::from("unbalanced tree")));
    assert_eq!(r, Err(PanicMessage(String::from("unbalanced tree"))));
}

#[test]
fn diagnostic_messages_are_exact() {
    let path = String::from("/plugins/libfoo.so");
    let detail = String::from("permission denied");
    assert_eq!(
        stat_error_message(&path, &detail),
        "Failed to get file metadata for /plugins/libfoo.so: permission denied"
    );
    assert_eq!(
        load_error_message(&path, &detail),
        "Cannot create expander for /plugins/libfoo.so: permission denied"
    );
    let p = expand_load_failure(&String::from("not a plugin"));
    assert_eq!(p.0, "failed to load macro: not a plugin");
}

#[test]
fn distinct_names_check() {
    let distinct = vec![
        (String::from("A"), String::from("1")),
        (String::from("B"), String::from("2")),
    ];
    assert!(check_distinct_names(&distinct));
    let dup = vec![
        (String::from("A"), String::from("1")),
        (String::from("A"), String::from("2")),
    ];
    assert!(!check_distinct_names(&dup));
    let empty: Vec<(String, String)> = Vec::new();
    assert!(check_distinct_names(&empty));
}

#[test]
fn end_to_end_expand_scenario() {
    // Artifact A (mtime T1) declares transformer `foo`, function-like.
    let mut srv = ProcMacroSrv::new();
    let a = String::from("/plugins/libA.so");
    let t1: u128 = 1_000;
    let capabilities = vec![(String::from("foo"), MacroKind::FunctionLike)];
    assert_eq!(capabilities[0].1, MacroKind::FunctionLike);

    let request = ExpandRequest {
        lib: a.clone(),
        macro_name: String::from("foo"),
        macro_body: b"x".to_vec(),
        attributes: None,
        env: vec![(String::from("K"), String::from("V"))],
        current_dir: None,
    };
    assert!(request.check_env_mapping());

    // Resolve: first contact, load once.
    assert_eq!(srv.resolve_step(&request.lib, Ok(t1)), HandleResolution::Missing(t1));
    let handle = srv.note_loaded(&request.lib, t1);

    // Bracket: K was unset before the call.
    let current = vec![None];
    let snap = capture_env(&request.env, &current, None);

    // The plugin expands leaf-tree "x" into some output tree.
    let invoked = InvokeOutcome::Expanded(b"expanded(x)".to_vec());
    let result = expand_conclude(invoked);
    assert_eq!(result, Ok(b"expanded(x)".to_vec()));

    // Post-call, the bracket removes K again: it ends unset.
    let acts = restore_actions(&snap);
    assert_eq!(acts, vec![EnvAction::RemoveVar(String::from("K"))]);

    // The same artifact is served from the cache from now on.
    assert_eq!(srv.resolve_step(&request.lib, Ok(t1)), HandleResolution::Ready(handle));
}
