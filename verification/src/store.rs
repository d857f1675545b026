//! The receipt store: a model of the installation root.
//!
//! The store holds, per tool, the receipt file (possibly damaged), the
//! installed environment, and the shared directory of entrypoint shims, each
//! shim tagged with the tool that owns it. It also owns the exclusive lock
//! over the root: at most one mutating reconciliation runs at a time. The
//! reconcilers acquire the lock on entry, and their contracts prove that it
//! is released again on every exit path, success and failure alike.

use vstd::prelude::*;
use crate::bytes::{bytes_eq, copy_bytes};
use crate::kvseq::{
    kv_del, kv_del_all, kv_del_value, kv_find, kv_set, kv_set_all, kv_unique,
    lemma_kv_del_absent, lemma_kv_del_is_remove, lemma_kv_del_unique, lemma_kv_del_value_push,
    lemma_kv_find_del_value, lemma_kv_set_is_push, lemma_kv_set_is_update, lemma_kv_set_unique,
};
use crate::model::{
    Environment, EnvironmentV, ReceiptEntryV, ReceiptLookup, StoredReceipt, ToolReceipt,
};
use crate::name::PackageName;

verus! {

/// One keyed entry of an on-disk table.
pub struct Slot<T> {
    pub key: Vec<u8>,
    pub val: T,
}

impl<T: DeepView> DeepView for Slot<T> {
    type V = (Seq<u8>, T::V);

    open spec fn deep_view(&self) -> (Seq<u8>, T::V) {
        (self.key@, self.val.deep_view())
    }
}

/// Mathematical value of the installation root.
#[verifier::ext_equal]
pub ghost struct StoreV {
    /// Receipt file per tool name.
    pub receipts: Seq<(Seq<u8>, ReceiptEntryV)>,
    /// Installed environment per tool name.
    pub envs: Seq<(Seq<u8>, EnvironmentV)>,
    /// Entrypoint shim directory: shim name to owning tool name.
    pub shims: Seq<(Seq<u8>, Seq<u8>)>,
    /// Whether the exclusive lock is held.
    pub locked: bool,
}

/// Every table keys its entries uniquely.
pub open spec fn store_inv(s: StoreV) -> bool {
    &&& kv_unique(s.receipts)
    &&& kv_unique(s.envs)
    &&& kv_unique(s.shims)
}

/// Persisted mapping from tool name to receipt, environment and shims,
/// with the exclusive installation-root lock.
pub struct ReceiptStore {
    receipts: Vec<Slot<StoredReceipt>>,
    envs: Vec<Slot<Environment>>,
    shims: Vec<Slot<Vec<u8>>>,
    locked: bool,
}

impl View for ReceiptStore {
    type V = StoreV;

    closed spec fn view(&self) -> StoreV {
        StoreV {
            receipts: self.receipts.deep_view(),
            envs: self.envs.deep_view(),
            shims: self.shims.deep_view(),
            locked: self.locked,
        }
    }
}

/// Index of the slot carrying `key`, with its meaning for `kv_find`.
fn slot_find<T: DeepView>(v: &Vec<Slot<T>>, key: &Vec<u8>) -> (r: Option<usize>)
    ensures
        match r {
            Some(i) => i < v.len() && v@[i as int].key@ == key@ && kv_find(
                v.deep_view(),
                key@,
            ) == Some(v@[i as int].val.deep_view()),
            None => kv_find(v.deep_view(), key@) is None,
        },
{
    let n = v.len();
    let mut i: usize = 0;
    assert(v.deep_view().skip(0) =~= v.deep_view());
    while i < n
        invariant
            n == v.len(),
            i <= n,
            kv_find(v.deep_view(), key@) == kv_find(v.deep_view().skip(i as int), key@),
        decreases n - i,
    {
        let ghost dv = v.deep_view();
        proof {
            assert(dv.skip(i as int)[0] == dv[i as int]);
            assert(dv.skip(i as int).drop_first() =~= dv.skip(i as int + 1));
        }
        if bytes_eq(&v[i].key, key) {
            assert(dv[i as int].0 == key@);
            return Some(i);
        }
        assert(dv[i as int].0 != key@);
        i += 1;
    }
    assert(v.deep_view().skip(n as int) =~= Seq::<(Seq<u8>, T::V)>::empty());
    None
}

/// Bind `key` to `val`, replacing an existing binding in place.
fn slot_set<T: DeepView>(v: &mut Vec<Slot<T>>, key: Vec<u8>, val: T)
    requires
        kv_unique(old(v).deep_view()),
    ensures
        final(v).deep_view() == kv_set(old(v).deep_view(), key@, val.deep_view()),
        kv_unique(final(v).deep_view()),
{
    let ghost dv0 = v.deep_view();
    let ghost keyv = key@;
    let ghost valv = val.deep_view();
    match slot_find(v, &key) {
        Some(i) => {
            proof {
                lemma_kv_set_is_update(dv0, keyv, valv, i as int);
            }
            v.set(i, Slot { key, val });
            assert(v.deep_view() =~= dv0.update(i as int, (keyv, valv)));
            proof {
                lemma_kv_set_unique(dv0, keyv, valv);
            }
        },
        None => {
            proof {
                lemma_kv_set_is_push(dv0, keyv, valv);
            }
            v.push(Slot { key, val });
            assert(v.deep_view() =~= dv0.push((keyv, valv)));
            proof {
                lemma_kv_set_unique(dv0, keyv, valv);
            }
        },
    }
}

/// Drop the binding for `key`; absence is not an error.
fn slot_del<T: DeepView>(v: &mut Vec<Slot<T>>, key: &Vec<u8>)
    requires
        kv_unique(old(v).deep_view()),
    ensures
        final(v).deep_view() == kv_del(old(v).deep_view(), key@),
        kv_unique(final(v).deep_view()),
{
    let ghost dv0 = v.deep_view();
    match slot_find(v, key) {
        Some(i) => {
            proof {
                lemma_kv_del_is_remove(dv0, key@, i as int);
            }
            v.remove(i);
            assert(v.deep_view() =~= dv0.remove(i as int));
            proof {
                lemma_kv_del_unique(dv0, key@);
            }
        },
        None => {
            proof {
                lemma_kv_del_absent(dv0, key@);
            }
            assert(v.deep_view() =~= dv0);
        },
    }
}

impl ReceiptStore {
    /// An empty installation root, unlocked.
    pub fn new() -> (r: ReceiptStore)
        ensures
            r@ == (StoreV {
                receipts: Seq::empty(),
                envs: Seq::empty(),
                shims: Seq::empty(),
                locked: false,
            }),
            store_inv(r@),
    {
        let r = ReceiptStore { receipts: Vec::new(), envs: Vec::new(), shims: Vec::new(), locked: false };
        proof {
            assert(r.receipts.deep_view() =~= Seq::<(Seq<u8>, ReceiptEntryV)>::empty());
            assert(r.envs.deep_view() =~= Seq::<(Seq<u8>, EnvironmentV)>::empty());
            assert(r.shims.deep_view() =~= Seq::<(Seq<u8>, Seq<u8>)>::empty());
        }
        r
    }

    /// Take the exclusive lock; fails when it is already held.
    pub fn acquire_lock(&mut self) -> (r: bool)
        ensures
            r == !old(self)@.locked,
            final(self)@ == (StoreV { locked: true, ..old(self)@ }),
    {
        if self.locked {
            false
        } else {
            self.locked = true;
            true
        }
    }

    /// Release the exclusive lock.
    pub fn release_lock(&mut self)
        ensures
            final(self)@ == (StoreV { locked: false, ..old(self)@ }),
    {
        self.locked = false;
    }

    /// Three-way receipt lookup: absent, valid, or present but unparseable.
    /// A damaged receipt is reported as `Invalid`, never as `Absent`.
    pub fn get_receipt(&self, name: &PackageName) -> (r: ReceiptLookup)
        ensures
            match r {
                ReceiptLookup::Absent => kv_find(self@.receipts, name.deep_view()) is None,
                ReceiptLookup::Valid(rec) => kv_find(self@.receipts, name.deep_view())
                    == Some(ReceiptEntryV::Parsed(rec.deep_view())),
                ReceiptLookup::Invalid => kv_find(self@.receipts, name.deep_view())
                    == Some(ReceiptEntryV::Damaged),
            },
    {
        match slot_find(&self.receipts, &name.bytes) {
            Some(i) => match &self.receipts[i].val {
                StoredReceipt::Parsed(rec) => ReceiptLookup::Valid(rec.copy()),
                StoredReceipt::Damaged => ReceiptLookup::Invalid,
            },
            None => ReceiptLookup::Absent,
        }
    }

    /// Atomically overwrite the stored receipt for `name`.
    pub fn add_receipt(&mut self, name: &PackageName, receipt: ToolReceipt)
        requires
            store_inv(old(self)@),
        ensures
            final(self)@ == (StoreV {
                receipts: kv_set(
                    old(self)@.receipts,
                    name.deep_view(),
                    ReceiptEntryV::Parsed(receipt.deep_view()),
                ),
                ..old(self)@
            }),
            store_inv(final(self)@),
    {
        slot_set(&mut self.receipts, copy_bytes(&name.bytes), StoredReceipt::Parsed(receipt));
    }

    /// Record that the receipt file for `name` is present but cannot be
    /// parsed, as after damage from outside this process.
    pub fn record_damaged_receipt(&mut self, name: &PackageName)
        requires
            store_inv(old(self)@),
        ensures
            final(self)@ == (StoreV {
                receipts: kv_set(old(self)@.receipts, name.deep_view(), ReceiptEntryV::Damaged),
                ..old(self)@
            }),
            store_inv(final(self)@),
    {
        slot_set(&mut self.receipts, copy_bytes(&name.bytes), StoredReceipt::Damaged);
    }

    /// The environment installed for `name`, if any.
    pub fn get_environment(&self, name: &PackageName) -> (r: Option<Environment>)
        ensures
            r.deep_view() == kv_find(self@.envs, name.deep_view()),
    {
        match slot_find(&self.envs, &name.bytes) {
            Some(i) => Some(self.envs[i].val.copy()),
            None => None,
        }
    }

    /// Install or replace the environment for `name`.
    pub fn set_environment(&mut self, name: &PackageName, env: Environment)
        requires
            store_inv(old(self)@),
        ensures
            final(self)@ == (StoreV {
                envs: kv_set(old(self)@.envs, name.deep_view(), env.deep_view()),
                ..old(self)@
            }),
            store_inv(final(self)@),
    {
        slot_set(&mut self.envs, copy_bytes(&name.bytes), env);
    }

    /// Delete the environment for `name`; deleting an absent environment is
    /// a success (idempotent delete).
    pub fn remove_environment(&mut self, name: &PackageName)
        requires
            store_inv(old(self)@),
        ensures
            final(self)@ == (StoreV {
                envs: kv_del(old(self)@.envs, name.deep_view()),
                ..old(self)@
            }),
            store_inv(final(self)@),
    {
        slot_del(&mut self.envs, &name.bytes);
    }

    /// Names of all installed tools, in the store's stable order.
    pub fn list_names(&self) -> (r: Vec<Vec<u8>>)
        ensures
            r.deep_view() == kv_keys(self@.receipts),
    {
        let n = self.receipts.len();
        let mut out: Vec<Vec<u8>> = Vec::new();
        let mut i: usize = 0;
        while i < n
            invariant
                n == self.receipts.len(),
                i <= n,
                out.len() == i,
                forall|j: int| 0 <= j < i ==> out@[j]@ == self.receipts@[j].key@,
            decreases n - i,
        {
            let item = copy_bytes(&self.receipts[i].key);
            out.push(item);
            i += 1;
        }
        proof {
            assert forall|j: int| 0 <= j < n implies out.deep_view()[j] == kv_keys(
                self@.receipts,
            )[j] by {
                crate::bytes::lemma_bytes_deep_view(out@[j]);
                assert(self@.receipts[j] == self.receipts@[j].deep_view());
            }
            assert(out.deep_view() =~= kv_keys(self@.receipts));
        }
        out
    }

    /// Whether some shim named in `names` belongs to a tool other than
    /// `owner`.
    pub fn shim_conflict(&self, names: &Vec<Vec<u8>>, owner: &PackageName) -> (r: bool)
        ensures
            r == shim_conflict_spec(self@.shims, names.deep_view(), owner.deep_view()),
    {
        let n = names.len();
        let mut i: usize = 0;
        while i < n
            invariant
                n == names.len(),
                i <= n,
                forall|j: int| 0 <= j < i ==> !name_conflicts(
                    self@.shims,
                    names.deep_view(),
                    owner.deep_view(),
                    j,
                ),
            decreases n - i,
        {
            proof {
                crate::bytes::lemma_bytes_deep_view(names@[i as int]);
            }
            match slot_find(&self.shims, &names[i]) {
                Some(k) => {
                    let other = !bytes_eq(&self.shims[k].val, &owner.bytes);
                    proof {
                        crate::bytes::lemma_bytes_deep_view(self.shims@[k as int].val);
                    }
                    if other {
                        assert(name_conflicts(
                            self@.shims,
                            names.deep_view(),
                            owner.deep_view(),
                            i as int,
                        ));
                        return true;
                    }
                },
                None => {},
            }
            assert(!name_conflicts(self@.shims, names.deep_view(), owner.deep_view(), i as int));
            i += 1;
        }
        false
    }

    /// Delete the shims carrying the given names.
    pub fn remove_shims_named(&mut self, names: &Vec<Vec<u8>>)
        requires
            store_inv(old(self)@),
        ensures
            final(self)@ == (StoreV {
                shims: kv_del_all(old(self)@.shims, names.deep_view()),
                ..old(self)@
            }),
            store_inv(final(self)@),
    {
        let ghost shims0 = self.shims.deep_view();
        let ghost keys = names.deep_view();
        let n = names.len();
        let mut i: usize = 0;
        while i < n
            invariant
                n == names.len(),
                i <= n,
                keys == names.deep_view(),
                shims0 == old(self)@.shims,
                self.shims.deep_view() == kv_del_all(shims0, keys.take(i as int)),
                kv_unique(self.shims.deep_view()),
                self.receipts == old(self).receipts,
                self.envs == old(self).envs,
                self.locked == old(self).locked,
            decreases n - i,
        {
            proof {
                crate::bytes::lemma_bytes_deep_view(names@[i as int]);
                assert(keys.take(i as int + 1).drop_last() =~= keys.take(i as int));
                assert(keys.take(i as int + 1).last() == keys[i as int]);
            }
            slot_del(&mut self.shims, &names[i]);
            i += 1;
        }
        assert(keys.take(n as int) =~= keys);
    }

    /// Delete every shim owned by `owner`.
    pub fn remove_shims_owned_by(&mut self, owner: &PackageName)
        requires
            store_inv(old(self)@),
        ensures
            final(self)@ == (StoreV {
                shims: kv_del_value(old(self)@.shims, owner.deep_view()),
                ..old(self)@
            }),
            store_inv(final(self)@),
    {
        let ghost shims0 = self.shims.deep_view();
        let ghost ownerv = owner.deep_view();
        let n = self.shims.len();
        let mut kept: Vec<Slot<Vec<u8>>> = Vec::new();
        let mut i: usize = 0;
        while i < n
            invariant
                n == self.shims.len(),
                i <= n,
                shims0 == self.shims.deep_view(),
                ownerv == owner.deep_view(),
                kept.deep_view() == kv_del_value(shims0.take(i as int), ownerv),
            decreases n - i,
        {
            let ghost prevkept = kept.deep_view();
            proof {
                assert(shims0.take(i as int + 1) =~= shims0.take(i as int).push(shims0[i as int]));
                lemma_kv_del_value_push(shims0.take(i as int), shims0[i as int], ownerv);
                crate::bytes::lemma_bytes_deep_view(self.shims@[i as int].val);
            }
            let keep = !bytes_eq(&self.shims[i].val, &owner.bytes);
            if keep {
                let slot = Slot {
                    key: copy_bytes(&self.shims[i].key),
                    val: copy_bytes(&self.shims[i].val),
                };
                proof {
                    crate::bytes::lemma_bytes_deep_view(slot.val);
                }
                let ghost slotv = slot.deep_view();
                kept.push(slot);
                assert(kept.deep_view() =~= prevkept.push(slotv));
                assert(slotv == shims0[i as int]);
            }
            i += 1;
        }
        assert(shims0.take(n as int) =~= shims0);
        self.shims = kept;
        proof {
            lemma_kv_find_del_value(shims0, ownerv, Seq::<u8>::empty());
        }
    }

    /// Write a shim owned by `owner` for every name in `names`, replacing
    /// same-named shims.
    pub fn set_shims_owned(&mut self, names: &Vec<Vec<u8>>, owner: &PackageName)
        requires
            store_inv(old(self)@),
        ensures
            final(self)@ == (StoreV {
                shims: kv_set_all(old(self)@.shims, names.deep_view(), owner.deep_view()),
                ..old(self)@
            }),
            store_inv(final(self)@),
    {
        let ghost shims0 = self.shims.deep_view();
        let ghost keys = names.deep_view();
        let ghost ownerv = owner.deep_view();
        let n = names.len();
        let mut i: usize = 0;
        while i < n
            invariant
                n == names.len(),
                i <= n,
                keys == names.deep_view(),
                ownerv == owner.deep_view(),
                shims0 == old(self)@.shims,
                self.shims.deep_view() == kv_set_all(shims0, keys.take(i as int), ownerv),
                kv_unique(self.shims.deep_view()),
                self.receipts == old(self).receipts,
                self.envs == old(self).envs,
                self.locked == old(self).locked,
            decreases n - i,
        {
            proof {
                crate::bytes::lemma_bytes_deep_view(names@[i as int]);
                assert(keys.take(i as int + 1).drop_last() =~= keys.take(i as int));
                assert(keys.take(i as int + 1).last() == keys[i as int]);
            }
            let key = copy_bytes(&names[i]);
            let val = copy_bytes(&owner.bytes);
            proof {
                crate::bytes::lemma_bytes_deep_view(val);
            }
            slot_set(&mut self.shims, key, val);
            i += 1;
        }
        assert(keys.take(n as int) =~= keys);
    }
}

/// The tool names carried by a table, in order.
pub open spec fn kv_keys<V>(s: Seq<(Seq<u8>, V)>) -> Seq<Seq<u8>> {
    Seq::new(s.len(), |i: int| s[i].0)
}

/// Entry `i` of `names` collides: a shim of that name belongs to another tool.
pub open spec fn name_conflicts(
    shims: Seq<(Seq<u8>, Seq<u8>)>,
    names: Seq<Seq<u8>>,
    owner: Seq<u8>,
    i: int,
) -> bool {
    match kv_find(shims, names[i]) {
        Some(o) => o != owner,
        None => false,
    }
}

/// Some requested shim name belongs to another tool.
pub open spec fn shim_conflict_spec(
    shims: Seq<(Seq<u8>, Seq<u8>)>,
    names: Seq<Seq<u8>>,
    owner: Seq<u8>,
) -> bool {
    exists|i: int| 0 <= i < names.len() && name_conflicts(shims, names, owner, i)
}

} // verus!
