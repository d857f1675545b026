//! Laws of the reconciler, proved once and for all over the specification.

use vstd::prelude::*;
use crate::install::{
    InstallEventsV, InstallOutcome, InstallRequestV, install_spec, no_change_requested,
    primary_spec,
};
use crate::kvseq::{kv_find, lemma_kv_find_set};
use crate::model::{Outcome, ReceiptEntryV, RequirementV, ToolError, ToolOptionsV};
use crate::name::parse_name_spec;
use crate::store::{StoreV, store_inv};
use crate::upgrade::{UpgradeStatus, upgrade_spec};

verus! {

/// Name-conflict rejection: when `--from` is given and the positional name
/// does not parse, or parses to a name other than the resolved `--from`
/// name, the install fails with `NameConflict` — whatever the resolver and
/// builder answered — and the store is not touched.
pub proof fn lemma_name_conflict_rejected(s0: StoreV, req: InstallRequestV, ev: InstallEventsV)
    requires
        req.from is Some,
        parse_name_spec(req.package) is None || (ev.primary matches Outcome::Success(p)
            && Some(p.name) != parse_name_spec(req.package)),
    ensures
        install_spec(s0, req, ev) == (s0, Err::<InstallOutcome, ToolError>(ToolError::NameConflict)),
{
}

/// Resolution before mutation: for a brand-new tool — no receipt, no
/// environment — a failing resolution of the candidate set leaves the store
/// exactly as it was: no new environment, no receipt, no entrypoints.
pub proof fn lemma_resolution_before_mutation(
    s0: StoreV,
    req: InstallRequestV,
    ev: InstallEventsV,
    p: RequirementV,
)
    requires
        primary_spec(req, ev) == Ok::<RequirementV, ToolError>(p),
        ev.with_requirements is Success,
        !s0.locked,
        kv_find(s0.receipts, p.name) is None,
        kv_find(s0.envs, p.name) is None,
        ev.fresh_resolve is Failure,
    ensures
        install_spec(s0, req, ev) == (
            s0,
            Err::<InstallOutcome, ToolError>(ToolError::ResolutionFailure),
        ),
{
}

/// Idempotence: a second install of the identical request — same package,
/// `--from`, `--with` resolutions and options, with none of force, reinstall
/// or upgrade — performs no mutation at all: the store is returned exactly
/// as the first install left it, with the "already installed" outcome.
///
/// When an interpreter was requested, the second run's compatibility reply
/// must be positive: an environment the first run just installed for that
/// request does satisfy it, but the interpreter check is a collaborator, so
/// its reply is a free value of the model.
pub proof fn lemma_install_idempotent(
    s0: StoreV,
    req: InstallRequestV,
    ev1: InstallEventsV,
    ev2: InstallEventsV,
)
    requires
        !s0.locked,
        no_change_requested(req),
        install_spec(s0, req, ev1).1 is Ok,
        ev2.primary == ev1.primary,
        ev2.with_requirements == ev1.with_requirements,
        req.python is Some ==> ev2.env_compatible,
    ensures
        ({
            let s1 = install_spec(s0, req, ev1).0;
            install_spec(s1, req, ev2) == (
                s1,
                Ok::<InstallOutcome, ToolError>(InstallOutcome::AlreadyInstalled),
            )
        }),
{
    let (s1, r1) = install_spec(s0, req, ev1);
    let p = match primary_spec(req, ev1) {
        Ok(p) => p,
        Err(e) => {
            assert(false);
            arbitrary()
        },
    };
    let aux = match ev1.with_requirements {
        Outcome::Success(a) => a,
        Outcome::Failure => {
            assert(false);
            arbitrary()
        },
    };
    let name = p.name;
    let cand = crate::install::candidate_spec(p, aux);
    let entry = kv_find(s0.receipts, name);
    let forced = entry == Some(ReceiptEntryV::Damaged);
    let sa = if forced {
        StoreV { envs: crate::kvseq::kv_del(s0.envs, name), ..s0 }
    } else {
        s0
    };
    let usable = kv_find(sa.envs, name) is Some && (req.python is None || ev1.env_compatible);
    match crate::install::prior_receipt(entry) {
        Some(r) => {
            if usable && r.requirements == cand && no_change_requested(req) {
                // First run took the idempotence short-circuit itself.
                if r.options == req.options {
                    assert(s1 == sa);
                } else {
                    lemma_kv_find_set(
                        sa.receipts,
                        name,
                        ReceiptEntryV::Parsed(crate::model::ToolReceiptV { options: req.options, ..r }),
                        name,
                    );
                }
            } else {
                lemma_install_mutation_writes(s0, req, ev1, p, aux);
            }
        },
        None => {
            lemma_install_mutation_writes(s0, req, ev1, p, aux);
        },
    }
}

/// After a successful mutating install, the receipt holds exactly the
/// candidate set and the requested options, and the environment is present.
proof fn lemma_install_mutation_writes(
    s0: StoreV,
    req: InstallRequestV,
    ev: InstallEventsV,
    p: RequirementV,
    aux: Seq<RequirementV>,
)
    requires
        !s0.locked,
        primary_spec(req, ev) == Ok::<RequirementV, ToolError>(p),
        ev.with_requirements == Outcome::<Seq<RequirementV>>::Success(aux),
        install_spec(s0, req, ev).1 is Ok,
        ({
            // the run did not take the idempotence short-circuit
            let entry = kv_find(s0.receipts, p.name);
            let sa = if entry == Some(ReceiptEntryV::Damaged) {
                StoreV { envs: crate::kvseq::kv_del(s0.envs, p.name), ..s0 }
            } else {
                s0
            };
            let usable = kv_find(sa.envs, p.name) is Some && (req.python is None
                || ev.env_compatible);
            !(crate::install::prior_receipt(entry) matches Some(r) && usable && r.requirements
                == crate::install::candidate_spec(p, aux) && no_change_requested(req))
        }),
    ensures
        ({
            let s1 = install_spec(s0, req, ev).0;
            &&& s1.locked == s0.locked
            &&& kv_find(s1.receipts, p.name) matches Some(ReceiptEntryV::Parsed(r))
                && r.requirements == crate::install::candidate_spec(p, aux) && r.options
                == req.options
            &&& kv_find(s1.envs, p.name) is Some
        }),
{
    let s1 = install_spec(s0, req, ev).0;
    let name = p.name;
    let cand = crate::install::candidate_spec(p, aux);
    let entry = kv_find(s0.receipts, name);
    let forced = entry == Some(ReceiptEntryV::Damaged);
    let sa = if forced {
        StoreV { envs: crate::kvseq::kv_del(s0.envs, name), ..s0 }
    } else {
        s0
    };
    let usable = kv_find(sa.envs, name) is Some && (req.python is None || ev.env_compatible);
    if usable {
        let e = match ev.update {
            Outcome::Success(e) => e,
            Outcome::Failure => {
                assert(false);
                arbitrary()
            },
        };
        let s2 = StoreV { envs: crate::kvseq::kv_set(sa.envs, name, e), ..sa };
        let s3 = match crate::install::prior_receipt(entry) {
            Some(r) => StoreV {
                shims: crate::kvseq::kv_del_all(s2.shims, r.entrypoints),
                ..s2
            },
            None => s2,
        };
        let receipt = crate::model::ToolReceiptV {
            requirements: cand,
            options: req.options,
            python: req.python,
            entrypoints: e.entrypoints,
        };
        lemma_kv_find_set(s3.receipts, name, ReceiptEntryV::Parsed(receipt), name);
        lemma_kv_find_set(sa.envs, name, e, name);
    } else {
        let e = match ev.sync {
            Outcome::Success(e) => e,
            Outcome::Failure => {
                assert(false);
                arbitrary()
            },
        };
        let created = crate::model::EnvironmentV {
            interpreter: ev.interpreter,
            entrypoints: Seq::empty(),
        };
        let s2 = StoreV { envs: crate::kvseq::kv_set(sa.envs, name, created), ..sa };
        let s3 = StoreV { shims: crate::kvseq::kv_del_value(s2.shims, name), ..s2 };
        let s4 = StoreV { envs: crate::kvseq::kv_set(s3.envs, name, e), ..s3 };
        let receipt = crate::model::ToolReceiptV {
            requirements: cand,
            options: req.options,
            python: req.python,
            entrypoints: e.entrypoints,
        };
        lemma_kv_find_set(s4.receipts, name, ReceiptEntryV::Parsed(receipt), name);
        lemma_kv_find_set(s3.envs, name, e, name);
    }
}

/// Invalid-receipt recovery: a receipt that is present but unparseable has
/// the stale environment deleted at once — even when everything after
/// fails — and forces a full reinstall rather than any reuse; after a
/// successful reinstall the tool's shims are exactly the entrypoints of the
/// freshly synced environment, never stale ones.
pub proof fn lemma_invalid_receipt_recovery(
    s0: StoreV,
    req: InstallRequestV,
    ev: InstallEventsV,
    p: RequirementV,
)
    requires
        store_inv(s0),
        !s0.locked,
        primary_spec(req, ev) == Ok::<RequirementV, ToolError>(p),
        ev.with_requirements is Success,
        kv_find(s0.receipts, p.name) == Some(ReceiptEntryV::Damaged),
    ensures
        ({
            let (s1, r1) = install_spec(s0, req, ev);
            &&& ev.fresh_resolve is Failure ==> s1 == (StoreV {
                envs: crate::kvseq::kv_del(s0.envs, p.name),
                ..s0
            }) && r1 == Err::<InstallOutcome, ToolError>(ToolError::ResolutionFailure)
            &&& r1 is Ok ==> r1 == Ok::<InstallOutcome, ToolError>(InstallOutcome::Installed)
            &&& ev.sync matches Outcome::Success(e) ==> r1 is Ok ==> forall|sn: Seq<u8>|
                #![trigger kv_find(s1.shims, sn)]
                (kv_find(s1.shims, sn) == Some(p.name)) == e.entrypoints.contains(sn)
        }),
{
    let (s1, r1) = install_spec(s0, req, ev);
    let name = p.name;
    let sa = StoreV { envs: crate::kvseq::kv_del(s0.envs, name), ..s0 };
    crate::kvseq::lemma_kv_find_del(s0.envs, name, name);
    assert(kv_find(sa.envs, name) is None);
    match ev.fresh_resolve {
        Outcome::Failure => {},
        Outcome::Success(u) => {
            match ev.sync {
                Outcome::Failure => {},
                Outcome::Success(e) => {
                    let created = crate::model::EnvironmentV {
                        interpreter: ev.interpreter,
                        entrypoints: Seq::empty(),
                    };
                    let s2 = StoreV { envs: crate::kvseq::kv_set(sa.envs, name, created), ..sa };
                    let s3 = StoreV { shims: crate::kvseq::kv_del_value(s2.shims, name), ..s2 };
                    let s4 = StoreV { envs: crate::kvseq::kv_set(s3.envs, name, e), ..s3 };
                    crate::kvseq::lemma_kv_find_del_value(s0.shims, name, Seq::<u8>::empty());
                    assert forall|sn: Seq<u8>|
                        (kv_find(#[trigger] crate::kvseq::kv_set_all(
                            s3.shims,
                            e.entrypoints,
                            name,
                        ), sn) == Some(name)) == e.entrypoints.contains(sn) by {
                        crate::kvseq::lemma_kv_find_del_value(s0.shims, name, sn);
                        crate::kvseq::lemma_kv_find_set_all(s3.shims, e.entrypoints, name, sn);
                    }
                },
            }
        },
    }
}

/// Upgrading one tool touches no other tool's receipt or environment, and
/// keeps the store well formed.
proof fn lemma_upgrade_one_preserves(
    s: StoreV,
    name: Seq<u8>,
    cli: ToolOptionsV,
    filesystem: ToolOptionsV,
    update: Outcome<crate::model::EnvironmentV>,
    other: Seq<u8>,
)
    requires
        store_inv(s),
    ensures
        store_inv(crate::upgrade::upgrade_one_spec(s, name, cli, filesystem, update).0),
        other != name ==> {
            let sx = crate::upgrade::upgrade_one_spec(s, name, cli, filesystem, update).0;
            &&& kv_find(sx.receipts, other) == kv_find(s.receipts, other)
            &&& kv_find(sx.envs, other) == kv_find(s.envs, other)
        },
        crate::upgrade::upgrade_one_spec(s, name, cli, filesystem, update).0.locked == s.locked,
{
    match crate::upgrade::missing_reason(s, name) {
        Some(e) => {},
        None => match kv_find(s.receipts, name) {
            Some(ReceiptEntryV::Parsed(r)) => match update {
                Outcome::Failure => {},
                Outcome::Success(e) => {
                    let s2 = StoreV { envs: crate::kvseq::kv_set(s.envs, name, e), ..s };
                    let s3 = StoreV {
                        shims: crate::kvseq::kv_del_all(s2.shims, r.entrypoints),
                        ..s2
                    };
                    crate::kvseq::lemma_kv_set_unique(s.envs, name, e);
                    crate::kvseq::lemma_kv_find_set(s.envs, name, e, other);
                    crate::kvseq::lemma_kv_find_del_all(s2.shims, r.entrypoints, other);
                    let options = crate::model::combine_spec(
                        cli,
                        crate::model::combine_spec(r.options, filesystem),
                    );
                    let receipt = crate::model::ToolReceiptV {
                        requirements: r.requirements,
                        options,
                        python: r.python,
                        entrypoints: e.entrypoints,
                    };
                    crate::kvseq::lemma_kv_set_unique(
                        s3.receipts,
                        name,
                        ReceiptEntryV::Parsed(receipt),
                    );
                    crate::kvseq::lemma_kv_find_set(
                        s3.receipts,
                        name,
                        ReceiptEntryV::Parsed(receipt),
                        other,
                    );
                    crate::kvseq::lemma_kv_find_set_all(s3.shims, e.entrypoints, name, other);
                },
            },
            _ => {},
        },
    }
}

/// In a batch, each target's outcome is decided by its own receipt,
/// environment and builder reply alone: a ready tool with a successful
/// update is reported upgraded, any other is reported failed.
proof fn lemma_upgrade_batch_outcomes(
    s: StoreV,
    targets: Seq<Seq<u8>>,
    cli: ToolOptionsV,
    filesystem: ToolOptionsV,
    updates: Seq<Outcome<crate::model::EnvironmentV>>,
    i: int,
)
    requires
        store_inv(s),
        forall|a: int, b: int| 0 <= a < b < targets.len() ==> targets[a] != targets[b],
        0 <= i < targets.len(),
        updates.len() >= targets.len(),
    ensures
        ({
            let (sf, up, fl) = crate::upgrade::upgrade_batch_spec(s, targets, cli, filesystem, updates);
            &&& (crate::upgrade::missing_reason(s, targets[i]) is None && updates[i] is Success)
                ==> up.contains(targets[i])
            &&& !(crate::upgrade::missing_reason(s, targets[i]) is None && updates[i] is Success)
                ==> fl.contains(targets[i])
        }),
    decreases targets.len(),
{
    let (s1, r1) = crate::upgrade::upgrade_one_spec(s, targets[0], cli, filesystem, updates[0]);
    let (s2, up, fl) = crate::upgrade::upgrade_batch_spec(
        s1,
        targets.drop_first(),
        cli,
        filesystem,
        updates.drop_first(),
    );
    if i == 0 {
        assert(r1 is Ok <==> (crate::upgrade::missing_reason(s, targets[0]) is None
            && updates[0] is Success));
        match r1 {
            Ok(u) => {
                assert((seq![targets[0]] + up)[0] == targets[0]);
            },
            Err(e) => {
                assert((seq![targets[0]] + fl)[0] == targets[0]);
            },
        }
    } else {
        lemma_upgrade_one_preserves(s, targets[0], cli, filesystem, updates[0], targets[i]);
        assert(forall|a: int, b: int|
            0 <= a < b < targets.drop_first().len() ==> targets.drop_first()[a]
                != targets.drop_first()[b]);
        assert(targets.drop_first()[i - 1] == targets[i]);
        assert(updates.drop_first()[i - 1] == updates[i]);
        lemma_upgrade_batch_outcomes(
            s1,
            targets.drop_first(),
            cli,
            filesystem,
            updates.drop_first(),
            i - 1,
        );
        assert(crate::upgrade::missing_reason(s1, targets[i]) == crate::upgrade::missing_reason(
            s,
            targets[i],
        ));
        if up.contains(targets[i]) {
            let k = choose|k: int| 0 <= k < up.len() && up[k] == targets[i];
            assert((seq![targets[0]] + up)[k + 1] == targets[i]);
        }
        if fl.contains(targets[i]) {
            let k = choose|k: int| 0 <= k < fl.len() && fl[k] == targets[i];
            assert((seq![targets[0]] + fl)[k + 1] == targets[i]);
        }
    }
}

/// Batch independence: upgrading all tools, a ready tool is upgraded even
/// when another installed tool is missing its environment or has an
/// unparseable receipt; the broken tool is reported failed, and the overall
/// outcome is a failure while every tool was still attempted.
pub proof fn lemma_upgrade_batch_independence(
    s0: StoreV,
    cli: ToolOptionsV,
    filesystem: ToolOptionsV,
    updates: Seq<Outcome<crate::model::EnvironmentV>>,
    i: int,
    j: int,
)
    requires
        store_inv(s0),
        !s0.locked,
        ({
            // names are processed in ascending byte-wise order; reply `i`
            // belongs to the tool at position `i` of that order
            let targets = crate::order::sort_names(crate::store::kv_keys(s0.receipts));
            &&& 0 <= i < targets.len()
            &&& 0 <= j < targets.len()
            &&& updates.len() >= targets.len()
            &&& crate::upgrade::missing_reason(s0, targets[i]) is None
            &&& updates[i] is Success
            &&& crate::upgrade::missing_reason(s0, targets[j]) is Some
        }),
    ensures
        ({
            let targets = crate::order::sort_names(crate::store::kv_keys(s0.receipts));
            let (sx, rx) = upgrade_spec(s0, None, cli, filesystem, updates);
            &&& rx matches Ok(rep)
            &&& rx matches Ok(rep) ==> {
                &&& rep.upgraded.contains(targets[i])
                &&& rep.failed.contains(targets[j])
                &&& rep.status == UpgradeStatus::SomeFailed
            }
        }),
{
    let listed = crate::store::kv_keys(s0.receipts);
    let targets = crate::order::sort_names(listed);
    let base = StoreV { locked: true, ..s0 };
    assert(crate::order::distinct_names(listed)) by {
        assert(forall|a: int| 0 <= a < listed.len() ==> listed[a] == s0.receipts[a].0);
    }
    crate::order::lemma_sort_names_props(listed);
    assert(crate::upgrade::missing_reason(base, targets[i]) is None);
    assert(crate::upgrade::missing_reason(base, targets[j]) is Some);
    lemma_upgrade_batch_outcomes(base, targets, cli, filesystem, updates, i);
    lemma_upgrade_batch_outcomes(base, targets, cli, filesystem, updates, j);
    let (sf, up, fl) = crate::upgrade::upgrade_batch_spec(base, targets, cli, filesystem, updates);
    assert(fl.contains(targets[j]));
    assert(fl.len() > 0);
}

/// Empty upgrade: with no tool installed, upgrading all tools succeeds with
/// a "nothing to upgrade" outcome and performs no mutation at all.
pub proof fn lemma_empty_upgrade(
    s0: StoreV,
    cli: ToolOptionsV,
    filesystem: ToolOptionsV,
    updates: Seq<Outcome<crate::model::EnvironmentV>>,
)
    requires
        !s0.locked,
        s0.receipts.len() == 0,
    ensures
        ({
            let (sx, rx) = upgrade_spec(s0, None, cli, filesystem, updates);
            &&& sx == s0
            &&& rx matches Ok(rep)
            &&& rx matches Ok(rep) ==> rep.status == UpgradeStatus::NothingToUpgrade
                && rep.upgraded.len() == 0 && rep.failed.len() == 0
        }),
{
    assert(crate::store::kv_keys(s0.receipts).len() == 0);
}

} // verus!
