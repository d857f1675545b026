use tool_reconciler::install::{install_tool, InstallEvents, InstallOutcome, InstallRequest};
use tool_reconciler::model::{
    requirements_eq, Environment, Outcome, ReceiptLookup, Requirement, ToolError, ToolOptions,
};
use tool_reconciler::name::PackageName;
use tool_reconciler::store::ReceiptStore;

fn b(s: &str) -> Vec<u8> {
    s.as_bytes().to_vec()
}

fn requirement(name: &str, source: &str) -> Requirement {
    Requirement { name: b(name), source: b(source), extras: Vec::new() }
}

fn options_none() -> ToolOptions {
    ToolOptions { index_url: None, prerelease: None, compile_bytecode: None }
}

fn environment(interp: &str, eps: &[&str]) -> Environment {
    Environment { interpreter: b(interp), entrypoints: eps.iter().map(|e| b(e)).collect() }
}

fn plain_request(pkg: &str) -> InstallRequest {
    InstallRequest {
        package: b(pkg),
        from: None,
        python: None,
        force: false,
        reinstall: false,
        upgrade: false,
        options: options_none(),
    }
}

fn fresh_events(name: &str, eps: &[&str]) -> InstallEvents {
    InstallEvents {
        interpreter: b("cpython-3"),
        primary: Outcome::Success(requirement(name, ">=1")),
        with_requirements: Outcome::Success(Vec::new()),
        env_compatible: true,
        update: Outcome::Success(environment("cpython-3", eps)),
        fresh_resolve: Outcome::Success(()),
        sync: Outcome::Success(environment("cpython-3", eps)),
    }
}

fn name_of(s: &str) -> PackageName {
    PackageName::parse(&b(s)).unwrap()
}

#[test]
fn fresh_install_writes_receipt_env_and_shims() {
    let mut store = ReceiptStore::new();
    let req = plain_request("black");
    let r = install_tool(&mut store, &req, fresh_events("black", &["black", "blackd"]));
    assert_eq!(r, Ok(InstallOutcome::Installed));
    let name = name_of("black");
    match store.get_receipt(&name) {
        ReceiptLookup::Valid(rec) => {
            assert_eq!(rec.requirements.len(), 1);
            assert_eq!(rec.requirements[0].name, b("black"));
            assert_eq!(rec.entrypoints, vec![b("black"), b("blackd")]);
        }
        _ => panic!("expected a valid receipt"),
    }
    let env = store.get_environment(&name).unwrap();
    assert_eq!(env.interpreter, b("cpython-3"));
    assert_eq!(store.list_names(), vec![b("black")]);
}

#[test]
fn second_identical_install_is_a_no_op() {
    let mut store = ReceiptStore::new();
    let req = plain_request("black");
    let first = install_tool(&mut store, &req, fresh_events("black", &["black"]));
    assert_eq!(first, Ok(InstallOutcome::Installed));
    let receipt_before = match store.get_receipt(&name_of("black")) {
        ReceiptLookup::Valid(rec) => rec,
        _ => panic!("expected a valid receipt"),
    };
    let second = install_tool(&mut store, &req, fresh_events("black", &["black"]));
    assert_eq!(second, Ok(InstallOutcome::AlreadyInstalled));
    let receipt_after = match store.get_receipt(&name_of("black")) {
        ReceiptLookup::Valid(rec) => rec,
        _ => panic!("expected a valid receipt"),
    };
    assert!(requirements_eq(&receipt_before.requirements, &receipt_after.requirements));
    assert!(receipt_before.options.same(&receipt_after.options));
}

#[test]
fn identical_install_with_new_options_rewrites_only_options() {
    let mut store = ReceiptStore::new();
    let req = plain_request("black");
    install_tool(&mut store, &req, fresh_events("black", &["black"])).unwrap();
    let mut req2 = plain_request("black");
    req2.options = ToolOptions {
        index_url: Some(b("https://mirror.example")),
        prerelease: None,
        compile_bytecode: Some(true),
    };
    let second = install_tool(&mut store, &req2, fresh_events("black", &["black"]));
    assert_eq!(second, Ok(InstallOutcome::AlreadyInstalled));
    match store.get_receipt(&name_of("black")) {
        ReceiptLookup::Valid(rec) => {
            assert_eq!(rec.options.index_url, Some(b("https://mirror.example")));
            assert_eq!(rec.options.compile_bytecode, Some(true));
            assert_eq!(rec.requirements[0].name, b("black"));
        }
        _ => panic!("expected a valid receipt"),
    }
}

#[test]
fn name_conflict_fails_without_mutation() {
    let mut store = ReceiptStore::new();
    let mut req = plain_request("black");
    req.from = Some(b("httpie==3"));
    // the resolver answers for `--from`, and its name differs
    let mut ev = fresh_events("httpie", &["http"]);
    ev.primary = Outcome::Success(requirement("httpie", "==3"));
    let r = install_tool(&mut store, &req, ev);
    assert_eq!(r, Err(ToolError::NameConflict));
    assert!(matches!(store.get_receipt(&name_of("httpie")), ReceiptLookup::Absent));
    assert!(store.get_environment(&name_of("httpie")).is_none());
    assert_eq!(store.list_names().len(), 0);
}

#[test]
fn name_conflict_on_unparseable_positional_beats_resolver_failure() {
    let mut store = ReceiptStore::new();
    let mut req = plain_request("black==1.0");
    req.from = Some(b("black"));
    let mut ev = fresh_events("black", &["black"]);
    ev.primary = Outcome::Failure;
    let r = install_tool(&mut store, &req, ev);
    assert_eq!(r, Err(ToolError::NameConflict));
}

#[test]
fn matching_from_name_is_accepted() {
    let mut store = ReceiptStore::new();
    let mut req = plain_request("Black");
    req.from = Some(b("black==24.1"));
    let mut ev = fresh_events("black", &["black"]);
    ev.primary = Outcome::Success(requirement("black", "==24.1"));
    let r = install_tool(&mut store, &req, ev);
    assert_eq!(r, Ok(InstallOutcome::Installed));
}

#[test]
fn failing_resolution_for_new_tool_leaves_no_trace() {
    let mut store = ReceiptStore::new();
    let req = plain_request("ruff");
    let mut ev = fresh_events("ruff", &["ruff"]);
    ev.fresh_resolve = Outcome::Failure;
    let r = install_tool(&mut store, &req, ev);
    assert_eq!(r, Err(ToolError::ResolutionFailure));
    assert!(matches!(store.get_receipt(&name_of("ruff")), ReceiptLookup::Absent));
    assert!(store.get_environment(&name_of("ruff")).is_none());
    assert_eq!(store.list_names().len(), 0);
}

#[test]
fn damaged_receipt_forces_full_reinstall() {
    let mut store = ReceiptStore::new();
    let name = name_of("ruff");
    // an earlier install, then the receipt file is damaged from outside
    install_tool(&mut store, &plain_request("ruff"), fresh_events("ruff", &["ruff-old"])).unwrap();
    store.record_damaged_receipt(&name);
    assert!(matches!(store.get_receipt(&name), ReceiptLookup::Invalid));
    let r = install_tool(&mut store, &plain_request("ruff"), fresh_events("ruff", &["ruff"]));
    assert_eq!(r, Ok(InstallOutcome::Installed));
    match store.get_receipt(&name) {
        ReceiptLookup::Valid(rec) => assert_eq!(rec.entrypoints, vec![b("ruff")]),
        _ => panic!("expected a valid receipt"),
    }
    // the stale shim is gone, the fresh one is present
    assert!(!store.shim_conflict(&vec![b("ruff")], &name));
    let probe_other = name_of("other");
    assert!(store.shim_conflict(&vec![b("ruff")], &probe_other));
    assert!(!store.shim_conflict(&vec![b("ruff-old")], &probe_other));
}

#[test]
fn in_place_update_replaces_old_entrypoints() {
    let mut store = ReceiptStore::new();
    install_tool(&mut store, &plain_request("mypy"), fresh_events("mypy", &["mypy", "stubgen"]))
        .unwrap();
    // same tool, different requirements: an in-place update
    let mut ev = fresh_events("mypy", &["mypy"]);
    ev.primary = Outcome::Success(requirement("mypy", ">=2"));
    let r = install_tool(&mut store, &plain_request("mypy"), ev);
    assert_eq!(r, Ok(InstallOutcome::Updated));
    let other = name_of("other");
    assert!(store.shim_conflict(&vec![b("mypy")], &other));
    // the shim of the old receipt that the update no longer exposes is gone
    assert!(!store.shim_conflict(&vec![b("stubgen")], &other));
}

#[test]
fn incompatible_interpreter_takes_the_fresh_path() {
    let mut store = ReceiptStore::new();
    install_tool(&mut store, &plain_request("black"), fresh_events("black", &["black"])).unwrap();
    let mut req = plain_request("black");
    req.python = Some(b("cpython-4"));
    let mut ev = fresh_events("black", &["black"]);
    ev.primary = Outcome::Success(requirement("black", ">=2"));
    ev.env_compatible = false;
    let r = install_tool(&mut store, &req, ev);
    assert_eq!(r, Ok(InstallOutcome::Installed));
}

#[test]
fn entrypoint_collision_with_foreign_tool_is_fatal() {
    let mut store = ReceiptStore::new();
    install_tool(&mut store, &plain_request("black"), fresh_events("black", &["fmt"])).unwrap();
    // another tool exposing the same shim name, without force
    let r = install_tool(&mut store, &plain_request("yapf"), fresh_events("yapf", &["fmt"]));
    assert_eq!(r, Err(ToolError::EntrypointCollision));
}

#[test]
fn force_overwrites_a_foreign_shim() {
    let mut store = ReceiptStore::new();
    install_tool(&mut store, &plain_request("black"), fresh_events("black", &["fmt"])).unwrap();
    let mut req = plain_request("yapf");
    req.force = true;
    let r = install_tool(&mut store, &req, fresh_events("yapf", &["fmt"]));
    assert_eq!(r, Ok(InstallOutcome::Installed));
    let probe = name_of("black");
    // the shim now belongs to the new tool
    assert!(store.shim_conflict(&vec![b("fmt")], &probe));
}

#[test]
fn held_lock_fails_the_install() {
    let mut store = ReceiptStore::new();
    assert!(store.acquire_lock());
    let r = install_tool(&mut store, &plain_request("black"), fresh_events("black", &["black"]));
    assert_eq!(r, Err(ToolError::LockFailure));
}

#[test]
fn lock_is_released_after_an_install() {
    let mut store = ReceiptStore::new();
    install_tool(&mut store, &plain_request("black"), fresh_events("black", &["black"])).unwrap();
    // a fresh acquisition succeeds, so the install released the lock
    assert!(store.acquire_lock());
}
