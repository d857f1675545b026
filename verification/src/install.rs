//! Install reconciliation for a single tool.
//!
//! The algorithm resolves the primary requirement (from `--from` if given,
//! else the positional package), rejects a name conflict before any further
//! work, concatenates the auxiliary `--with` requirements into the candidate
//! set, and then decides against the store: reuse the install untouched,
//! update the environment in place, or recreate it — validating a fresh
//! resolution before anything destructive happens.
//!
//! Requirement resolution and environment building are outside
//! collaborators. Their replies are passed in as an `InstallEvents` value, so
//! the reconciler is verified for every reply they can give; replies for
//! calls the algorithm does not reach are ignored.

use vstd::prelude::*;
use crate::bytes::{bytes_eq, copy_bytes, copy_bytes_list, copy_opt_bytes};
use crate::kvseq::{kv_del, kv_del_all, kv_del_value, kv_find, kv_set, kv_set_all};
use crate::model::{
    Environment, EnvironmentV, Outcome, ReceiptEntryV, ReceiptLookup, Requirement, RequirementV,
    ToolError, ToolOptions, ToolOptionsV, ToolReceipt, ToolReceiptV, copy_requirements,
    requirements_eq,
};
use crate::name::{PackageName, parse_name_spec};
use crate::store::{ReceiptStore, StoreV, shim_conflict_spec, store_inv};

verus! {

/// What an install request asks for.
pub struct InstallRequest {
    /// Raw positional package argument.
    pub package: Vec<u8>,
    /// Raw `--from` specification, if given.
    pub from: Option<Vec<u8>>,
    /// Requested interpreter, if given.
    pub python: Option<Vec<u8>>,
    /// Reinstall even when already satisfied, overwriting foreign shims.
    pub force: bool,
    /// A reinstall was requested through the resolver settings.
    pub reinstall: bool,
    /// An upgrade was requested through the resolver settings.
    pub upgrade: bool,
    /// Options to attach to the tool.
    pub options: ToolOptions,
}

/// Mathematical value of an `InstallRequest`.
#[verifier::ext_equal]
pub ghost struct InstallRequestV {
    pub package: Seq<u8>,
    pub from: Option<Seq<u8>>,
    pub python: Option<Seq<u8>>,
    pub force: bool,
    pub reinstall: bool,
    pub upgrade: bool,
    pub options: ToolOptionsV,
}

impl DeepView for InstallRequest {
    type V = InstallRequestV;

    open spec fn deep_view(&self) -> InstallRequestV {
        InstallRequestV {
            package: self.package@,
            from: self.from.deep_view(),
            python: self.python.deep_view(),
            force: self.force,
            reinstall: self.reinstall,
            upgrade: self.upgrade,
            options: self.options.deep_view(),
        }
    }
}

/// The replies of the outside collaborators for one install run.
pub struct InstallEvents {
    /// The interpreter resolved for this run (always required, since turning
    /// unnamed sources into concrete package identities needs one).
    pub interpreter: Vec<u8>,
    /// Resolution of the from-or-positional specification.
    pub primary: Outcome<Requirement>,
    /// Resolution of the `--with` requirement sources.
    pub with_requirements: Outcome<Vec<Requirement>>,
    /// Whether the existing environment satisfies the interpreter request.
    pub env_compatible: bool,
    /// Result of updating the existing environment in place.
    pub update: Outcome<Environment>,
    /// Result of the non-mutating resolution against a fresh-environment plan.
    pub fresh_resolve: Outcome<()>,
    /// Result of syncing the freshly created environment.
    pub sync: Outcome<Environment>,
}

/// Mathematical value of `InstallEvents`.
#[verifier::ext_equal]
pub ghost struct InstallEventsV {
    pub interpreter: Seq<u8>,
    pub primary: Outcome<RequirementV>,
    pub with_requirements: Outcome<Seq<RequirementV>>,
    pub env_compatible: bool,
    pub update: Outcome<EnvironmentV>,
    pub fresh_resolve: Outcome<()>,
    pub sync: Outcome<EnvironmentV>,
}

impl DeepView for InstallEvents {
    type V = InstallEventsV;

    open spec fn deep_view(&self) -> InstallEventsV {
        InstallEventsV {
            interpreter: self.interpreter@,
            primary: self.primary.deep_view(),
            with_requirements: self.with_requirements.deep_view(),
            env_compatible: self.env_compatible,
            update: self.update.deep_view(),
            fresh_resolve: self.fresh_resolve.deep_view(),
            sync: self.sync.deep_view(),
        }
    }
}

/// How an install run ended.
#[derive(PartialEq, Eq, Structural, Clone, Copy, Debug)]
pub enum InstallOutcome {
    /// The request was already satisfied; at most the receipt options changed.
    AlreadyInstalled,
    /// The existing environment was updated in place.
    Updated,
    /// A fresh environment was created and synced.
    Installed,
}

/// The primary requirement, after the name-conflict check: with `--from`
/// given, the positional argument must parse as a plain package name and
/// match the resolved `--from` name, whatever the resolver answered.
pub open spec fn primary_spec(req: InstallRequestV, ev: InstallEventsV) -> Result<
    RequirementV,
    ToolError,
> {
    if req.from is Some && parse_name_spec(req.package) is None {
        Err(ToolError::NameConflict)
    } else {
        match ev.primary {
            Outcome::Failure => Err(ToolError::ResolutionFailure),
            Outcome::Success(p) => if req.from is Some && Some(p.name) != parse_name_spec(
                req.package,
            ) {
                Err(ToolError::NameConflict)
            } else {
                Ok(p)
            },
        }
    }
}

/// The candidate requirement set: the primary requirement first, then the
/// auxiliary requirements, in order.
pub open spec fn candidate_spec(p: RequirementV, aux: Seq<RequirementV>) -> Seq<RequirementV> {
    seq![p] + aux
}

/// The parseable prior receipt, if any.
pub open spec fn prior_receipt(entry: Option<ReceiptEntryV>) -> Option<ToolReceiptV> {
    match entry {
        Some(ReceiptEntryV::Parsed(r)) => Some(r),
        _ => None,
    }
}

/// Neither force, reinstall nor upgrade was requested.
pub open spec fn no_change_requested(req: InstallRequestV) -> bool {
    !req.force && !req.reinstall && !req.upgrade
}

/// Entrypoint installation and receipt persistence: every shim the
/// environment exposes is written, owned by `name`, and the receipt is
/// persisted — unless a same-named shim belongs to another tool and
/// overwriting was not allowed, which is fatal and mutates nothing here.
pub open spec fn install_executables_spec(
    s: StoreV,
    name: Seq<u8>,
    env: EnvironmentV,
    receipt: ToolReceiptV,
    allow_overwrite: bool,
) -> (StoreV, Result<(), ToolError>) {
    if !allow_overwrite && shim_conflict_spec(s.shims, env.entrypoints, name) {
        (s, Err(ToolError::EntrypointCollision))
    } else {
        (
            StoreV {
                shims: kv_set_all(s.shims, env.entrypoints, name),
                receipts: kv_set(s.receipts, name, ReceiptEntryV::Parsed(receipt)),
                ..s
            },
            Ok(()),
        )
    }
}

/// Write the new receipt and entrypoints for the finished environment.
pub open spec fn finish_spec(
    s: StoreV,
    name: Seq<u8>,
    cand: Seq<RequirementV>,
    req: InstallRequestV,
    env: EnvironmentV,
    kind: InstallOutcome,
    forced: bool,
) -> (StoreV, Result<InstallOutcome, ToolError>) {
    let receipt = ToolReceiptV {
        requirements: cand,
        options: req.options,
        python: req.python,
        entrypoints: env.entrypoints,
    };
    let (s2, r) = install_executables_spec(s, name, env, receipt, req.force || forced);
    match r {
        Ok(u) => (s2, Ok(kind)),
        Err(e) => (s2, Err(e)),
    }
}

/// The mutating arm: in-place update when a usable environment exists;
/// otherwise resolution is validated first, and only then is the fresh
/// environment created, the tool's old shims dropped, and the plan synced.
pub open spec fn mutate_spec(
    s: StoreV,
    name: Seq<u8>,
    cand: Seq<RequirementV>,
    req: InstallRequestV,
    ev: InstallEventsV,
    usable: bool,
    prior: Option<ToolReceiptV>,
    forced: bool,
) -> (StoreV, Result<InstallOutcome, ToolError>) {
    if usable {
        match ev.update {
            Outcome::Failure => (s, Err(ToolError::ResolutionFailure)),
            Outcome::Success(e) => {
                let s2 = StoreV { envs: kv_set(s.envs, name, e), ..s };
                let s3 = match prior {
                    Some(r) => StoreV { shims: kv_del_all(s2.shims, r.entrypoints), ..s2 },
                    None => s2,
                };
                finish_spec(s3, name, cand, req, e, InstallOutcome::Updated, forced)
            },
        }
    } else {
        match ev.fresh_resolve {
            Outcome::Failure => (s, Err(ToolError::ResolutionFailure)),
            Outcome::Success(u) => {
                let created = EnvironmentV {
                    interpreter: ev.interpreter,
                    entrypoints: Seq::empty(),
                };
                let s2 = StoreV { envs: kv_set(s.envs, name, created), ..s };
                let s3 = StoreV { shims: kv_del_value(s2.shims, name), ..s2 };
                match ev.sync {
                    Outcome::Failure => (s3, Err(ToolError::ResolutionFailure)),
                    Outcome::Success(e) => {
                        let s4 = StoreV { envs: kv_set(s3.envs, name, e), ..s3 };
                        finish_spec(s4, name, cand, req, e, InstallOutcome::Installed, forced)
                    },
                }
            },
        }
    }
}

/// Reconciliation proper, once the candidate set is in hand: the three-way
/// receipt lookup (a damaged receipt deletes the stale environment at once
/// and forces a reinstall), the interpreter-compatibility filter, the
/// idempotence short-circuit, and the mutating arm.
pub open spec fn reconcile_spec(
    s0: StoreV,
    name: Seq<u8>,
    cand: Seq<RequirementV>,
    req: InstallRequestV,
    ev: InstallEventsV,
) -> (StoreV, Result<InstallOutcome, ToolError>) {
    let entry = kv_find(s0.receipts, name);
    let forced = entry == Some(ReceiptEntryV::Damaged);
    let s1 = if forced {
        StoreV { envs: kv_del(s0.envs, name), ..s0 }
    } else {
        s0
    };
    let usable = kv_find(s1.envs, name) is Some && (req.python is None || ev.env_compatible);
    match prior_receipt(entry) {
        Some(r) => if usable && r.requirements == cand && no_change_requested(req) {
            if r.options == req.options {
                (s1, Ok(InstallOutcome::AlreadyInstalled))
            } else {
                (
                    StoreV {
                        receipts: kv_set(
                            s1.receipts,
                            name,
                            ReceiptEntryV::Parsed(ToolReceiptV { options: req.options, ..r }),
                        ),
                        ..s1
                    },
                    Ok(InstallOutcome::AlreadyInstalled),
                )
            }
        } else {
            mutate_spec(s1, name, cand, req, ev, usable, Some(r), forced)
        },
        None => mutate_spec(s1, name, cand, req, ev, usable, None, forced),
    }
}

/// The whole install run: name resolution and the conflict check come before
/// the lock; the lock is released on every exit path.
pub open spec fn install_spec(s0: StoreV, req: InstallRequestV, ev: InstallEventsV) -> (
    StoreV,
    Result<InstallOutcome, ToolError>,
) {
    match primary_spec(req, ev) {
        Err(e) => (s0, Err(e)),
        Ok(p) => match ev.with_requirements {
            Outcome::Failure => (s0, Err(ToolError::ResolutionFailure)),
            Outcome::Success(aux) => if s0.locked {
                (s0, Err(ToolError::LockFailure))
            } else {
                reconcile_spec(s0, p.name, candidate_spec(p, aux), req, ev)
            },
        },
    }
}

/// Write the shims the environment exposes and persist the receipt,
/// applying the collision policy: a same-named shim is overwritten only when
/// it belongs to this tool or overwriting was allowed.
pub fn install_executables(
    store: &mut ReceiptStore,
    name: &PackageName,
    env: &Environment,
    receipt: ToolReceipt,
    allow_overwrite: bool,
) -> (r: Result<(), ToolError>)
    requires
        store_inv(old(store)@),
    ensures
        store_inv(final(store)@),
        (final(store)@, r) == install_executables_spec(
            old(store)@,
            name.deep_view(),
            env.deep_view(),
            receipt.deep_view(),
            allow_overwrite,
        ),
{
    if !allow_overwrite && store.shim_conflict(&env.entrypoints, name) {
        return Err(ToolError::EntrypointCollision);
    }
    store.set_shims_owned(&env.entrypoints, name);
    store.add_receipt(name, receipt);
    Ok(())
}

/// Install a tool: the verified decision algorithm over the store, given the
/// collaborators' replies.
pub fn install_tool(store: &mut ReceiptStore, req: &InstallRequest, ev: InstallEvents) -> (r:
    Result<InstallOutcome, ToolError>)
    requires
        store_inv(old(store)@),
    ensures
        store_inv(final(store)@),
        (final(store)@, r) == install_spec(old(store)@, req.deep_view(), ev.deep_view()),
        final(store)@.locked == old(store)@.locked,
{
    let ghost s0 = store@;
    let ghost reqv = req.deep_view();
    let ghost evv = ev.deep_view();
    let InstallEvents {
        interpreter,
        primary,
        with_requirements,
        env_compatible,
        update,
        fresh_resolve,
        sync,
    } = ev;

    // Resolve the primary requirement and check the name conflict (before
    // the lock, and whatever the resolver answered).
    let from_given = req.from.is_some();
    let parsed_positional: Option<PackageName> = if from_given {
        let p = PackageName::parse(&req.package);
        if p.is_none() {
            return Err(ToolError::NameConflict);
        }
        p
    } else {
        None
    };
    let primary_req: Requirement = match primary {
        Outcome::Failure => {
            return Err(ToolError::ResolutionFailure);
        },
        Outcome::Success(p) => {
            if from_given {
                let matches_positional = match &parsed_positional {
                    Some(pos) => bytes_eq(&p.name, &pos.bytes),
                    None => false,
                };
                if !matches_positional {
                    return Err(ToolError::NameConflict);
                }
            }
            p
        },
    };
    assert(primary_spec(reqv, evv) == Ok::<RequirementV, ToolError>(primary_req.deep_view()));

    // The auxiliary requirements, then the candidate set: primary first.
    let aux: Vec<Requirement> = match with_requirements {
        Outcome::Failure => {
            return Err(ToolError::ResolutionFailure);
        },
        Outcome::Success(w) => w,
    };
    let ghost primv = primary_req.deep_view();
    let ghost auxv = aux.deep_view();
    let ghost auxseq = aux@;
    let name = PackageName { bytes: copy_bytes(&primary_req.name) };
    let ghost namev = name.deep_view();
    let mut candidate: Vec<Requirement> = Vec::new();
    candidate.push(primary_req);
    let ghost firstv = candidate@;
    let mut rest = aux;
    candidate.append(&mut rest);
    proof {
        assert(candidate@ == firstv + auxseq);
        assert(firstv.len() == 1);
        assert forall|j: int| 0 <= j < candidate@.len() implies candidate.deep_view()[j]
            == candidate_spec(primv, auxv)[j] by {
            if j == 0 {
                assert(candidate@[0] == firstv[0]);
                assert(firstv[0].deep_view() == primv);
            } else {
                assert(candidate@[j] == auxseq[j - 1]);
                assert(auxv[j - 1] == auxseq[j - 1].deep_view());
            }
        }
        assert(candidate.deep_view() =~= candidate_spec(primv, auxv));
    }
    let ghost candv = candidate.deep_view();

    // Acquire the exclusive lock; nothing was mutated yet.
    if !store.acquire_lock() {
        assert(store@ =~= s0);
        return Err(ToolError::LockFailure);
    }

    // Step 4: three-way receipt lookup. A damaged receipt deletes the stale
    // environment at once and forces a full reinstall.
    let lookup = store.get_receipt(&name);
    let ghost entry = kv_find(s0.receipts, namev);
    let mut forced = false;
    let mut prior: Option<ToolReceipt> = None;
    match lookup {
        ReceiptLookup::Absent => {},
        ReceiptLookup::Valid(r) => {
            prior = Some(r);
        },
        ReceiptLookup::Invalid => {
            store.remove_environment(&name);
            forced = true;
        },
    }
    proof {
        assert(prior.deep_view() == prior_receipt(entry));
        assert(forced == (entry == Some(ReceiptEntryV::Damaged)));
    }
    let ghost s1 = if forced {
        StoreV { envs: kv_del(s0.envs, namev), ..s0 }
    } else {
        s0
    };
    assert(store@ =~= (StoreV { locked: true, ..s1 }));

    // Step 5: the existing environment, excluded from reuse when it does not
    // satisfy an explicitly requested interpreter.
    let existing = store.get_environment(&name);
    let usable: bool = match &existing {
        Some(e) => req.python.is_none() || env_compatible,
        None => false,
    };
    assert(usable == (kv_find(s1.envs, namev) is Some && (reqv.python is None
        || evv.env_compatible)));

    // Step 6: idempotence short-circuit.
    match &prior {
        Some(prior_receipt) => {
            if usable && requirements_eq(&prior_receipt.requirements, &candidate) && !req.force
                && !req.reinstall && !req.upgrade {
                if !prior_receipt.options.same(&req.options) {
                    let rewritten = ToolReceipt {
                        requirements: copy_requirements(&prior_receipt.requirements),
                        options: req.options.copy(),
                        python: copy_opt_bytes(&prior_receipt.python),
                        entrypoints: copy_bytes_list(&prior_receipt.entrypoints),
                    };
                    store.add_receipt(&name, rewritten);
                }
                store.release_lock();
                return Ok(InstallOutcome::AlreadyInstalled);
            }
        },
        None => {},
    }

    // Step 7: a mutation is required.
    let built: Environment;
    let kind: InstallOutcome;
    let ghost mut spre = s1;
    let ghost mut builtv = EnvironmentV { interpreter: Seq::empty(), entrypoints: Seq::empty() };
    if usable {
        // 7a. A usable environment exists: update it in place; on success
        // the entrypoints of the old receipt — the ground truth for what is
        // on the PATH — are removed.
        match update {
            Outcome::Failure => {
                store.release_lock();
                return Err(ToolError::ResolutionFailure);
            },
            Outcome::Success(e) => {
                let ghost ev_env = e.deep_view();
                let env_copy = e.copy();
                store.set_environment(&name, e);
                let ghost s2 = StoreV { envs: kv_set(s1.envs, namev, ev_env), ..s1 };
                assert(store@ =~= (StoreV { locked: true, ..s2 }));
                match &prior {
                    Some(r) => store.remove_shims_named(&r.entrypoints),
                    None => {},
                }
                let ghost s3 = match prior_receipt(entry) {
                    Some(rv) => StoreV { shims: kv_del_all(s2.shims, rv.entrypoints), ..s2 },
                    None => s2,
                };
                assert(store@ =~= (StoreV { locked: true, ..s3 }));
                built = env_copy;
                kind = InstallOutcome::Updated;
                proof {
                    spre = s3;
                    builtv = ev_env;
                    assert(evv.update == Outcome::Success(ev_env));
                    assert(mutate_spec(s1, namev, candv, reqv, evv, usable,
                        prior_receipt(entry), forced) == finish_spec(spre, namev, candv, reqv,
                        builtv, InstallOutcome::Updated, forced));
                }
            },
        }
    } else {
        // 7b. No usable environment: validate resolution first; only then
        // create the environment, drop the tool's old shims, and sync.
        match fresh_resolve {
            Outcome::Failure => {
                store.release_lock();
                return Err(ToolError::ResolutionFailure);
            },
            Outcome::Success(unit) => {
                let fresh = Environment { interpreter, entrypoints: Vec::new() };
                let ghost created = EnvironmentV {
                    interpreter: evv.interpreter,
                    entrypoints: Seq::empty(),
                };
                assert(fresh.deep_view().entrypoints =~= Seq::<Seq<u8>>::empty());
                assert(fresh.deep_view() =~= created);
                store.set_environment(&name, fresh);
                let ghost s2 = StoreV { envs: kv_set(s1.envs, namev, created), ..s1 };
                assert(store@ =~= (StoreV { locked: true, ..s2 }));
                store.remove_shims_owned_by(&name);
                let ghost s3 = StoreV { shims: kv_del_value(s2.shims, namev), ..s2 };
                assert(store@ =~= (StoreV { locked: true, ..s3 }));
                match sync {
                    Outcome::Failure => {
                        store.release_lock();
                        assert(store@ =~= s3);
                        return Err(ToolError::ResolutionFailure);
                    },
                    Outcome::Success(e) => {
                        let ghost ev_env = e.deep_view();
                        let env_copy = e.copy();
                        store.set_environment(&name, e);
                        let ghost s4 = StoreV { envs: kv_set(s3.envs, namev, ev_env), ..s3 };
                        assert(store@ =~= (StoreV { locked: true, ..s4 }));
                        built = env_copy;
                        kind = InstallOutcome::Installed;
                        proof {
                            spre = s4;
                            builtv = ev_env;
                            assert(evv.sync == Outcome::Success(ev_env));
                            assert(mutate_spec(s1, namev, candv, reqv, evv, usable,
                                prior_receipt(entry), forced) == finish_spec(spre, namev, candv,
                                reqv, builtv, InstallOutcome::Installed, forced));
                        }
                    },
                }
            },
        }
    }
    assert(store@ == (StoreV { locked: true, ..spre }));
    assert(built.deep_view() == builtv);
    assert(mutate_spec(s1, namev, candv, reqv, evv, usable, prior_receipt(entry), forced)
        == finish_spec(spre, namev, candv, reqv, builtv, kind, forced));

    // Step 8: write the new receipt and the entrypoints.
    let receipt = ToolReceipt {
        requirements: candidate,
        options: req.options.copy(),
        python: copy_opt_bytes(&req.python),
        entrypoints: copy_bytes_list(&built.entrypoints),
    };
    let ghost receiptv = receipt.deep_view();
    assert(receiptv =~= (ToolReceiptV {
        requirements: candv,
        options: reqv.options,
        python: reqv.python,
        entrypoints: builtv.entrypoints,
    }));
    let allow_overwrite = req.force || forced;
    let r = install_executables(store, &name, &built, receipt, allow_overwrite);
    proof {
        let locked_pre = StoreV { locked: true, ..spre };
        if !allow_overwrite && shim_conflict_spec(spre.shims, builtv.entrypoints, namev) {
            assert(install_executables_spec(locked_pre, namev, builtv, receiptv, allow_overwrite).0
                =~= locked_pre);
        } else {
            assert(install_executables_spec(locked_pre, namev, builtv, receiptv, allow_overwrite).0
                =~= (StoreV {
                locked: true,
                ..install_executables_spec(spre, namev, builtv, receiptv, allow_overwrite).0
            }));
        }
    }
    store.release_lock();
    let ghost outcome = install_executables_spec(spre, namev, builtv, receiptv, allow_overwrite);
    assert(store@ =~= outcome.0);
    match r {
        Ok(unit) => Ok(kind),
        Err(e) => Err(e),
    }
}

} // verus!
