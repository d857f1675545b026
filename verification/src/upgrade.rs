//! Upgrade reconciliation for one or all installed tools.
//!
//! An upgrade re-resolves each target against the requirement set stored in
//! its receipt — upgrading changes which versions are chosen, never what was
//! requested — and updates the environment in place. Options are merged per
//! field, preferring command-line overrides over the receipt's stored
//! options over filesystem defaults. In a batch, one tool's failure never
//! aborts the rest, but overall success requires every attempted tool to
//! succeed; an empty target set is a success that mutates nothing.

use vstd::prelude::*;
use crate::bytes::copy_bytes;
use crate::kvseq::{kv_del_all, kv_find, kv_set};
use crate::model::{
    Environment, EnvironmentV, Outcome, ReceiptEntryV, ReceiptLookup, ToolError, ToolOptions,
    ToolOptionsV, ToolReceipt, ToolReceiptV, combine_spec,
};
use crate::install::{install_executables, install_executables_spec};
use crate::name::PackageName;
use crate::store::{ReceiptStore, StoreV, kv_keys, store_inv};

verus! {

/// How a whole upgrade invocation ended.
#[derive(PartialEq, Eq, Structural, Clone, Copy, Debug)]
pub enum UpgradeStatus {
    /// No tool is installed; nothing to upgrade, and nothing was touched.
    NothingToUpgrade,
    /// Every attempted tool was upgraded.
    AllUpgraded,
    /// At least one tool failed; the rest were still attempted.
    SomeFailed,
}

/// Per-tool outcomes of an upgrade invocation, in processing order.
pub struct UpgradeReport {
    pub upgraded: Vec<Vec<u8>>,
    pub failed: Vec<Vec<u8>>,
    pub status: UpgradeStatus,
}

/// Mathematical value of an `UpgradeReport`.
#[verifier::ext_equal]
pub ghost struct UpgradeReportV {
    pub upgraded: Seq<Seq<u8>>,
    pub failed: Seq<Seq<u8>>,
    pub status: UpgradeStatus,
}

impl DeepView for UpgradeReport {
    type V = UpgradeReportV;

    open spec fn deep_view(&self) -> UpgradeReportV {
        UpgradeReportV {
            upgraded: self.upgraded.deep_view(),
            failed: self.failed.deep_view(),
            status: self.status,
        }
    }
}

/// Why a target cannot be upgraded, if it cannot: it needs a parseable
/// receipt and a present environment.
pub open spec fn missing_reason(s: StoreV, name: Seq<u8>) -> Option<ToolError> {
    match kv_find(s.receipts, name) {
        None => Some(ToolError::MissingTool),
        Some(ReceiptEntryV::Damaged) => Some(ToolError::InvalidReceipt),
        Some(ReceiptEntryV::Parsed(r)) => if kv_find(s.envs, name) is None {
            Some(ToolError::MissingTool)
        } else {
            None
        },
    }
}

/// Upgrade of a single target: require receipt and environment, merge the
/// options (command line over receipt over filesystem defaults), update the
/// environment in place with the receipt's unchanged requirement set, then
/// replace the old entrypoints and persist the merged receipt.
pub open spec fn upgrade_one_spec(
    s: StoreV,
    name: Seq<u8>,
    cli: ToolOptionsV,
    filesystem: ToolOptionsV,
    update: Outcome<EnvironmentV>,
) -> (StoreV, Result<(), ToolError>) {
    match missing_reason(s, name) {
        Some(e) => (s, Err(e)),
        None => match kv_find(s.receipts, name) {
            Some(ReceiptEntryV::Parsed(r)) => {
                let options = combine_spec(cli, combine_spec(r.options, filesystem));
                match update {
                    Outcome::Failure => (s, Err(ToolError::ResolutionFailure)),
                    Outcome::Success(e) => {
                        let s2 = StoreV { envs: kv_set(s.envs, name, e), ..s };
                        let s3 = StoreV { shims: kv_del_all(s2.shims, r.entrypoints), ..s2 };
                        let receipt = ToolReceiptV {
                            requirements: r.requirements,
                            options,
                            python: r.python,
                            entrypoints: e.entrypoints,
                        };
                        let (s4, w) = install_executables_spec(s3, name, e, receipt, true);
                        (s4, Ok(()))
                    },
                }
            },
            _ => (s, Err(ToolError::MissingTool)),
        },
    }
}

/// The batch: targets processed in order, each against the store the
/// previous ones left; reply `i` of the builder belongs to target `i`.
pub open spec fn upgrade_batch_spec(
    s: StoreV,
    targets: Seq<Seq<u8>>,
    cli: ToolOptionsV,
    filesystem: ToolOptionsV,
    updates: Seq<Outcome<EnvironmentV>>,
) -> (StoreV, Seq<Seq<u8>>, Seq<Seq<u8>>)
    decreases targets.len(),
{
    if targets.len() == 0 {
        (s, Seq::empty(), Seq::empty())
    } else {
        let (s1, r1) = upgrade_one_spec(s, targets[0], cli, filesystem, updates[0]);
        let (s2, up, fl) = upgrade_batch_spec(
            s1,
            targets.drop_first(),
            cli,
            filesystem,
            updates.drop_first(),
        );
        match r1 {
            Ok(u) => (s2, seq![targets[0]] + up, fl),
            Err(e) => (s2, up, seq![targets[0]] + fl),
        }
    }
}

/// The whole upgrade invocation. An all-tools upgrade processes the
/// installed names in ascending byte-wise order, independent of the order
/// the store's listing returned them. An explicit target that is missing or
/// invalid fails the invocation with nothing mutated; in the all-tools batch
/// such tools are recorded as failures and the rest still run. The lock is
/// held across the batch and released on every exit path.
pub open spec fn upgrade_spec(
    s0: StoreV,
    target: Option<Seq<u8>>,
    cli: ToolOptionsV,
    filesystem: ToolOptionsV,
    updates: Seq<Outcome<EnvironmentV>>,
) -> (StoreV, Result<UpgradeReportV, ToolError>) {
    if s0.locked {
        (s0, Err(ToolError::LockFailure))
    } else {
        let targets = match target {
            Some(n) => seq![n],
            None => crate::order::sort_names(kv_keys(s0.receipts)),
        };
        if targets.len() == 0 {
            (
                s0,
                Ok(UpgradeReportV {
                    upgraded: Seq::empty(),
                    failed: Seq::empty(),
                    status: UpgradeStatus::NothingToUpgrade,
                }),
            )
        } else {
            match target {
                Some(n) => match missing_reason(s0, n) {
                    Some(e) => (s0, Err(e)),
                    None => upgrade_finish_spec(s0, targets, cli, filesystem, updates),
                },
                None => upgrade_finish_spec(s0, targets, cli, filesystem, updates),
            }
        }
    }
}

/// Run the batch under the lock and fold its outcomes into a report.
pub open spec fn upgrade_finish_spec(
    s0: StoreV,
    targets: Seq<Seq<u8>>,
    cli: ToolOptionsV,
    filesystem: ToolOptionsV,
    updates: Seq<Outcome<EnvironmentV>>,
) -> (StoreV, Result<UpgradeReportV, ToolError>) {
    let (s1, up, fl) = upgrade_batch_spec(
        StoreV { locked: true, ..s0 },
        targets,
        cli,
        filesystem,
        updates,
    );
    let status = if fl.len() == 0 {
        UpgradeStatus::AllUpgraded
    } else {
        UpgradeStatus::SomeFailed
    };
    (
        StoreV { locked: false, ..s1 },
        Ok(UpgradeReportV { upgraded: up, failed: fl, status }),
    )
}

/// Upgrade one target in place.
fn upgrade_one(
    store: &mut ReceiptStore,
    name: &PackageName,
    cli: &ToolOptions,
    filesystem: &ToolOptions,
    update: &Outcome<Environment>,
) -> (r: Result<(), ToolError>)
    requires
        store_inv(old(store)@),
    ensures
        store_inv(final(store)@),
        (final(store)@, r) == upgrade_one_spec(
            old(store)@,
            name.deep_view(),
            cli.deep_view(),
            filesystem.deep_view(),
            update.deep_view(),
        ),
{
    let ghost s0 = store@;
    let ghost namev = name.deep_view();
    let lookup = store.get_receipt(name);
    let receipt: ToolReceipt = match lookup {
        ReceiptLookup::Absent => {
            return Err(ToolError::MissingTool);
        },
        ReceiptLookup::Invalid => {
            return Err(ToolError::InvalidReceipt);
        },
        ReceiptLookup::Valid(r) => r,
    };
    let ghost rv = receipt.deep_view();
    assert(kv_find(s0.receipts, namev) == Some(ReceiptEntryV::Parsed(rv)));
    let existing = store.get_environment(name);
    if existing.is_none() {
        return Err(ToolError::MissingTool);
    }
    assert(missing_reason(s0, namev) is None);

    // Effective options: command line over receipt over filesystem defaults.
    let options = cli.combine(&receipt.options.combine(filesystem));

    match update {
        Outcome::Failure => Err(ToolError::ResolutionFailure),
        Outcome::Success(e) => {
            let ghost ev_env = e.deep_view();
            let stored = e.copy();
            let kept = e.copy();
            store.set_environment(name, stored);
            let ghost s2 = StoreV { envs: kv_set(s0.envs, namev, ev_env), ..s0 };
            assert(store@ =~= s2);
            store.remove_shims_named(&receipt.entrypoints);
            let ghost s3 = StoreV { shims: kv_del_all(s2.shims, rv.entrypoints), ..s2 };
            assert(store@ =~= s3);
            let new_receipt = ToolReceipt {
                requirements: receipt.requirements,
                options,
                python: receipt.python,
                entrypoints: crate::bytes::copy_bytes_list(&kept.entrypoints),
            };
            assert(new_receipt.deep_view() =~= (ToolReceiptV {
                requirements: rv.requirements,
                options: combine_spec(cli.deep_view(), combine_spec(
                    rv.options,
                    filesystem.deep_view(),
                )),
                python: rv.python,
                entrypoints: ev_env.entrypoints,
            }));
            let w = install_executables(store, name, &kept, new_receipt, true);
            assert(w is Ok);
            Ok(())
        },
    }
}

/// Upgrade one named tool, or every installed tool in ascending byte-wise
/// name order.
///
/// `updates` holds the environment builder's reply for each target, in the
/// order the targets are processed; replies past the target count are
/// ignored. The lock is released on every exit path.
pub fn upgrade_tools(
    store: &mut ReceiptStore,
    target: Option<&PackageName>,
    cli: &ToolOptions,
    filesystem: &ToolOptions,
    updates: &Vec<Outcome<Environment>>,
) -> (r: Result<UpgradeReport, ToolError>)
    requires
        store_inv(old(store)@),
        updates@.len() >= match target {
            Some(n) => 1int,
            None => old(store)@.receipts.len() as int,
        },
    ensures
        store_inv(final(store)@),
        final(store)@.locked == old(store)@.locked,
        ({
            let (sx, rx) = upgrade_spec(
                old(store)@,
                match target {
                    Some(n) => Some(n.deep_view()),
                    None => None,
                },
                cli.deep_view(),
                filesystem.deep_view(),
                updates.deep_view(),
            );
            final(store)@ == sx && (match (r, rx) {
                (Ok(rep), Ok(repv)) => rep.deep_view() == repv,
                (Err(e), Err(ev)) => e == ev,
                _ => false,
            })
        }),
{
    let ghost s0 = store@;
    let ghost cliv = cli.deep_view();
    let ghost fsv = filesystem.deep_view();
    let ghost updatesv = updates.deep_view();
    if !store.acquire_lock() {
        assert(store@ =~= s0);
        return Err(ToolError::LockFailure);
    }

    // The targets: the explicit one, or every installed tool in ascending
    // byte-wise name order, whatever order the listing returned.
    let targets: Vec<Vec<u8>> = match target {
        Some(n) => {
            let mut one: Vec<Vec<u8>> = Vec::new();
            one.push(copy_bytes(&n.bytes));
            one
        },
        None => crate::order::sorted_names(&store.list_names()),
    };
    let ghost targetsv = targets.deep_view();
    proof {
        match target {
            Some(n) => {
                crate::bytes::lemma_bytes_deep_view(targets@[0]);
                assert(targetsv =~= seq![n.deep_view()]);
            },
            None => {
                crate::order::lemma_sort_names_props(kv_keys(s0.receipts));
                assert(targetsv.len() == s0.receipts.len());
            },
        }
    }

    if targets.len() == 0 {
        store.release_lock();
        assert(store@ =~= s0);
        return Ok(UpgradeReport {
            upgraded: Vec::new(),
            failed: Vec::new(),
            status: UpgradeStatus::NothingToUpgrade,
        });
    }

    // An explicit target that cannot be upgraded fails the invocation with
    // nothing mutated.
    match target {
        Some(n) => {
            let lookup = store.get_receipt(n);
            match lookup {
                ReceiptLookup::Absent => {
                    store.release_lock();
                    assert(store@ =~= s0);
                    return Err(ToolError::MissingTool);
                },
                ReceiptLookup::Invalid => {
                    store.release_lock();
                    assert(store@ =~= s0);
                    return Err(ToolError::InvalidReceipt);
                },
                ReceiptLookup::Valid(rec) => {
                    if store.get_environment(n).is_none() {
                        store.release_lock();
                        assert(store@ =~= s0);
                        return Err(ToolError::MissingTool);
                    }
                },
            }
            assert(missing_reason(s0, n.deep_view()) is None);
        },
        None => {},
    }

    // The batch: one tool's failure never aborts the rest.
    let ghost base = StoreV { locked: true, ..s0 };
    assert(store@ =~= base);
    let n = targets.len();
    let mut upgraded: Vec<Vec<u8>> = Vec::new();
    let mut failed: Vec<Vec<u8>> = Vec::new();
    let mut i: usize = 0;
    proof {
        assert(targetsv.skip(0) =~= targetsv);
        assert(updatesv.skip(0) =~= updatesv);
        assert(upgraded.deep_view() =~= Seq::<Seq<u8>>::empty());
        assert(failed.deep_view() =~= Seq::<Seq<u8>>::empty());
    }
    while i < n
        invariant
            n == targets.len(),
            i <= n,
            updates.len() >= n,
            targetsv == targets.deep_view(),
            updatesv == updates.deep_view(),
            cliv == cli.deep_view(),
            fsv == filesystem.deep_view(),
            store_inv(store@),
            ({
                let (sf, u2, f2) = upgrade_batch_spec(
                    store@,
                    targetsv.skip(i as int),
                    cliv,
                    fsv,
                    updatesv.skip(i as int),
                );
                upgrade_batch_spec(base, targetsv, cliv, fsv, updatesv) == (
                    sf,
                    upgraded.deep_view() + u2,
                    failed.deep_view() + f2,
                )
            }),
        decreases n - i,
    {
        let ghost before = store@;
        proof {
            assert(targetsv.skip(i as int)[0] == targetsv[i as int]);
            assert(updatesv.skip(i as int)[0] == updatesv[i as int]);
            assert(targetsv.skip(i as int).drop_first() =~= targetsv.skip(i as int + 1));
            assert(updatesv.skip(i as int).drop_first() =~= updatesv.skip(i as int + 1));
            crate::bytes::lemma_bytes_deep_view(targets@[i as int]);
        }
        let tool = PackageName { bytes: copy_bytes(&targets[i]) };
        let step = upgrade_one(store, &tool, cli, filesystem, &updates[i]);
        let ghost upv = upgraded.deep_view();
        let ghost flv = failed.deep_view();
        match step {
            Ok(unit) => {
                upgraded.push(copy_bytes(&targets[i]));
                proof {
                    crate::bytes::lemma_bytes_deep_view(upgraded@[upgraded@.len() - 1]);
                    assert(upgraded.deep_view() =~= upv.push(targetsv[i as int]));
                    assert(upv.push(targetsv[i as int]) =~= upv + seq![targetsv[i as int]]);
                }
            },
            Err(e) => {
                failed.push(copy_bytes(&targets[i]));
                proof {
                    crate::bytes::lemma_bytes_deep_view(failed@[failed@.len() - 1]);
                    assert(failed.deep_view() =~= flv.push(targetsv[i as int]));
                    assert(flv.push(targetsv[i as int]) =~= flv + seq![targetsv[i as int]]);
                }
            },
        }
        proof {
            let (sf, u2, f2) = upgrade_batch_spec(
                store@,
                targetsv.skip(i as int + 1),
                cliv,
                fsv,
                updatesv.skip(i as int + 1),
            );
            match step {
                Ok(unit) => {
                    assert(upv + (seq![targetsv[i as int]] + u2) =~= upgraded.deep_view() + u2);
                    assert(flv + f2 =~= failed.deep_view() + f2);
                },
                Err(e) => {
                    assert(flv + (seq![targetsv[i as int]] + f2) =~= failed.deep_view() + f2);
                    assert(upv + u2 =~= upgraded.deep_view() + u2);
                },
            }
        }
        i += 1;
    }
    proof {
        assert(targetsv.skip(n as int) =~= Seq::<Seq<u8>>::empty());
        assert(upgraded.deep_view() + Seq::<Seq<u8>>::empty() =~= upgraded.deep_view());
        assert(failed.deep_view() + Seq::<Seq<u8>>::empty() =~= failed.deep_view());
    }
    let status = if failed.len() == 0 {
        UpgradeStatus::AllUpgraded
    } else {
        UpgradeStatus::SomeFailed
    };
    store.release_lock();
    Ok(UpgradeReport { upgraded, failed, status })
}

} // verus!
