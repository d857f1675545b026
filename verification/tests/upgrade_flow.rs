use tool_reconciler::install::{install_tool, InstallEvents, InstallOutcome, InstallRequest};
use tool_reconciler::model::{
    Environment, Outcome, ReceiptLookup, Requirement, ToolError, ToolOptions,
};
use tool_reconciler::name::PackageName;
use tool_reconciler::store::ReceiptStore;
use tool_reconciler::upgrade::{upgrade_tools, UpgradeStatus};

fn b(s: &str) -> Vec<u8> {
    s.as_bytes().to_vec()
}

fn requirement(name: &str, source: &str) -> Requirement {
    Requirement { name: b(name), source: b(source), extras: Vec::new() }
}

fn options_none() -> ToolOptions {
    ToolOptions { index_url: None, prerelease: None, compile_bytecode: None }
}

fn environment(interp: &str, eps: &[&str]) -> Environment {
    Environment { interpreter: b(interp), entrypoints: eps.iter().map(|e| b(e)).collect() }
}

fn name_of(s: &str) -> PackageName {
    PackageName::parse(&b(s)).unwrap()
}

fn installed(store: &mut ReceiptStore, name: &str, eps: &[&str]) {
    let req = InstallRequest {
        package: b(name),
        from: None,
        python: None,
        force: false,
        reinstall: false,
        upgrade: false,
        options: options_none(),
    };
    let ev = InstallEvents {
        interpreter: b("cpython-3"),
        primary: Outcome::Success(requirement(name, ">=1")),
        with_requirements: Outcome::Success(Vec::new()),
        env_compatible: true,
        update: Outcome::Failure,
        fresh_resolve: Outcome::Success(()),
        sync: Outcome::Success(environment("cpython-3", eps)),
    };
    assert_eq!(install_tool(store, &req, ev), Ok(InstallOutcome::Installed));
}

#[test]
fn empty_upgrade_is_a_success_with_nothing_to_do() {
    let mut store = ReceiptStore::new();
    let rep = upgrade_tools(&mut store, None, &options_none(), &options_none(), &Vec::new())
        .unwrap();
    assert_eq!(rep.status, UpgradeStatus::NothingToUpgrade);
    assert_eq!(rep.upgraded.len(), 0);
    assert_eq!(rep.failed.len(), 0);
    assert_eq!(store.list_names().len(), 0);
    assert!(store.acquire_lock());
}

#[test]
fn upgrade_all_upgrades_every_valid_tool() {
    let mut store = ReceiptStore::new();
    installed(&mut store, "black", &["black"]);
    installed(&mut store, "ruff", &["ruff"]);
    let updates = vec![
        Outcome::Success(environment("cpython-3", &["black"])),
        Outcome::Success(environment("cpython-3", &["ruff"])),
    ];
    let rep = upgrade_tools(&mut store, None, &options_none(), &options_none(), &updates).unwrap();
    assert_eq!(rep.status, UpgradeStatus::AllUpgraded);
    assert_eq!(rep.upgraded, vec![b("black"), b("ruff")]);
    assert_eq!(rep.failed.len(), 0);
}

#[test]
fn upgrade_all_processes_names_in_ascending_order() {
    let mut store = ReceiptStore::new();
    installed(&mut store, "ruff", &["ruff"]);
    installed(&mut store, "black", &["black"]);
    // the listing keeps insertion order; processing is ascending by name
    assert_eq!(store.list_names(), vec![b("ruff"), b("black")]);
    let updates = vec![
        Outcome::Success(environment("cpython-3", &["black-new"])),
        Outcome::Success(environment("cpython-3", &["ruff-new"])),
    ];
    let rep = upgrade_tools(&mut store, None, &options_none(), &options_none(), &updates).unwrap();
    assert_eq!(rep.status, UpgradeStatus::AllUpgraded);
    assert_eq!(rep.upgraded, vec![b("black"), b("ruff")]);
    // reply 0 went to `black`, reply 1 to `ruff`
    match store.get_receipt(&name_of("black")) {
        ReceiptLookup::Valid(rec) => assert_eq!(rec.entrypoints, vec![b("black-new")]),
        _ => panic!("expected a valid receipt"),
    }
    match store.get_receipt(&name_of("ruff")) {
        ReceiptLookup::Valid(rec) => assert_eq!(rec.entrypoints, vec![b("ruff-new")]),
        _ => panic!("expected a valid receipt"),
    }
}

#[test]
fn one_broken_tool_never_aborts_the_batch() {
    let mut store = ReceiptStore::new();
    installed(&mut store, "black", &["black"]);
    installed(&mut store, "ruff", &["ruff"]);
    // ruff loses its environment: receipt present, environment missing
    store.remove_environment(&name_of("ruff"));
    let updates = vec![
        Outcome::Success(environment("cpython-3", &["black"])),
        Outcome::Success(environment("cpython-3", &["ruff"])),
    ];
    let rep = upgrade_tools(&mut store, None, &options_none(), &options_none(), &updates).unwrap();
    assert_eq!(rep.status, UpgradeStatus::SomeFailed);
    assert_eq!(rep.upgraded, vec![b("black")]);
    assert_eq!(rep.failed, vec![b("ruff")]);
}

#[test]
fn explicit_missing_target_fails_the_invocation() {
    let mut store = ReceiptStore::new();
    let target = name_of("black");
    let updates = vec![Outcome::Success(environment("cpython-3", &["black"]))];
    let r = upgrade_tools(&mut store, Some(&target), &options_none(), &options_none(), &updates);
    assert!(matches!(r, Err(ToolError::MissingTool)));
    assert!(store.acquire_lock());
}

#[test]
fn explicit_damaged_target_asks_for_a_reinstall() {
    let mut store = ReceiptStore::new();
    installed(&mut store, "black", &["black"]);
    store.record_damaged_receipt(&name_of("black"));
    let target = name_of("black");
    let updates = vec![Outcome::Success(environment("cpython-3", &["black"]))];
    let r = upgrade_tools(&mut store, Some(&target), &options_none(), &options_none(), &updates);
    assert!(matches!(r, Err(ToolError::InvalidReceipt)));
}

#[test]
fn upgrade_keeps_the_requirement_set_and_merges_options() {
    let mut store = ReceiptStore::new();
    installed(&mut store, "black", &["black"]);
    let cli = ToolOptions { index_url: None, prerelease: Some(true), compile_bytecode: None };
    let filesystem = ToolOptions {
        index_url: Some(b("https://fallback.example")),
        prerelease: Some(false),
        compile_bytecode: None,
    };
    let target = name_of("black");
    let updates = vec![Outcome::Success(environment("cpython-3", &["black", "blackd"]))];
    let rep = upgrade_tools(&mut store, Some(&target), &cli, &filesystem, &updates).unwrap();
    assert_eq!(rep.status, UpgradeStatus::AllUpgraded);
    match store.get_receipt(&target) {
        ReceiptLookup::Valid(rec) => {
            // the requirement set is never edited by an upgrade
            assert_eq!(rec.requirements.len(), 1);
            assert_eq!(rec.requirements[0].name, b("black"));
            assert_eq!(rec.requirements[0].source, b(">=1"));
            // command line beats the filesystem default; an unset command-line
            // field falls through
            assert_eq!(rec.options.prerelease, Some(true));
            assert_eq!(rec.options.index_url, Some(b("https://fallback.example")));
            assert_eq!(rec.entrypoints, vec![b("black"), b("blackd")]);
        }
        _ => panic!("expected a valid receipt"),
    }
}

#[test]
fn failed_update_is_recorded_per_tool() {
    let mut store = ReceiptStore::new();
    installed(&mut store, "black", &["black"]);
    installed(&mut store, "ruff", &["ruff"]);
    let updates = vec![
        Outcome::Failure,
        Outcome::Success(environment("cpython-3", &["ruff"])),
    ];
    let rep = upgrade_tools(&mut store, None, &options_none(), &options_none(), &updates).unwrap();
    assert_eq!(rep.status, UpgradeStatus::SomeFailed);
    assert_eq!(rep.upgraded, vec![b("ruff")]);
    assert_eq!(rep.failed, vec![b("black")]);
}

#[test]
fn held_lock_fails_the_upgrade() {
    let mut store = ReceiptStore::new();
    assert!(store.acquire_lock());
    let r = upgrade_tools(&mut store, None, &options_none(), &options_none(), &Vec::new());
    assert!(matches!(r, Err(ToolError::LockFailure)));
}
