//! Data model: requirements, options, receipts and environments.
//!
//! A receipt records what was last successfully installed for a tool: its
//! ordered requirement list, the options it was installed with, the
//! interpreter request, and the entrypoint shims it wrote. Equality between
//! requirement lists is exact structural, ordered equality — duplicates and
//! order are meaningful — and is what the idempotence check rests on.

use vstd::prelude::*;
use crate::bytes::{bytes_eq, bytes_list_eq, copy_bytes, copy_bytes_list, copy_opt_bytes, opt_bytes_eq};

verus! {

/// One requirement declaration: a resolved package name, its version
/// constraint or exact source, and its extras.
pub struct Requirement {
    pub name: Vec<u8>,
    pub source: Vec<u8>,
    pub extras: Vec<Vec<u8>>,
}

/// Mathematical value of a `Requirement`.
#[verifier::ext_equal]
pub ghost struct RequirementV {
    pub name: Seq<u8>,
    pub source: Seq<u8>,
    pub extras: Seq<Seq<u8>>,
}

impl DeepView for Requirement {
    type V = RequirementV;

    open spec fn deep_view(&self) -> RequirementV {
        RequirementV {
            name: self.name@,
            source: self.source@,
            extras: self.extras.deep_view(),
        }
    }
}

impl Requirement {
    /// A fresh copy of the requirement.
    pub fn copy(&self) -> (r: Requirement)
        ensures
            r.deep_view() == self.deep_view(),
    {
        Requirement {
            name: copy_bytes(&self.name),
            source: copy_bytes(&self.source),
            extras: copy_bytes_list(&self.extras),
        }
    }

    /// Structural equality of two requirements.
    pub fn same(&self, other: &Requirement) -> (r: bool)
        ensures
            r == (self.deep_view() == other.deep_view()),
    {
        bytes_eq(&self.name, &other.name) && bytes_eq(&self.source, &other.source)
            && bytes_list_eq(&self.extras, &other.extras)
    }
}

/// A fresh copy of an ordered requirement list.
pub fn copy_requirements(v: &Vec<Requirement>) -> (r: Vec<Requirement>)
    ensures
        r.deep_view() == v.deep_view(),
{
    let n = v.len();
    let mut out: Vec<Requirement> = Vec::new();
    let mut i: usize = 0;
    while i < n
        invariant
            n == v.len(),
            i <= n,
            out.len() == i,
            forall|j: int| 0 <= j < i ==> out.deep_view()[j] == v.deep_view()[j],
        decreases n - i,
    {
        let ghost prev = out@;
        let item = v[i].copy();
        out.push(item);
        proof {
            assert forall|j: int| 0 <= j < i + 1 implies out.deep_view()[j] == v.deep_view()[j] by {
                if j < i {
                    assert(out@[j] == prev[j]);
                }
            }
        }
        i += 1;
    }
    assert(out.deep_view() =~= v.deep_view());
    out
}

/// Exact structural, ordered equality of two requirement lists.
pub fn requirements_eq(a: &Vec<Requirement>, b: &Vec<Requirement>) -> (r: bool)
    ensures
        r == (a.deep_view() == b.deep_view()),
{
    if a.len() != b.len() {
        assert(a.deep_view().len() != b.deep_view().len());
        return false;
    }
    let n = a.len();
    let mut i: usize = 0;
    while i < n
        invariant
            n == a.len() == b.len(),
            i <= n,
            forall|j: int| 0 <= j < i ==> a.deep_view()[j] == b.deep_view()[j],
        decreases n - i,
    {
        if !a[i].same(&b[i]) {
            assert(a.deep_view()[i as int] != b.deep_view()[i as int]);
            return false;
        }
        assert(a.deep_view()[i as int] == b.deep_view()[i as int]);
        i += 1;
    }
    assert(a.deep_view() =~= b.deep_view());
    true
}

/// Resolver and installer configuration attached to a tool. Every field is
/// optional; merging is per field, preferring the first operand.
pub struct ToolOptions {
    pub index_url: Option<Vec<u8>>,
    pub prerelease: Option<bool>,
    pub compile_bytecode: Option<bool>,
}

/// Mathematical value of `ToolOptions`.
#[verifier::ext_equal]
pub ghost struct ToolOptionsV {
    pub index_url: Option<Seq<u8>>,
    pub prerelease: Option<bool>,
    pub compile_bytecode: Option<bool>,
}

impl DeepView for ToolOptions {
    type V = ToolOptionsV;

    open spec fn deep_view(&self) -> ToolOptionsV {
        ToolOptionsV {
            index_url: self.index_url.deep_view(),
            prerelease: self.prerelease,
            compile_bytecode: self.compile_bytecode,
        }
    }
}

/// Per-field merge, preferring `a`: explicit value over fallback.
pub open spec fn combine_spec(a: ToolOptionsV, b: ToolOptionsV) -> ToolOptionsV {
    ToolOptionsV {
        index_url: if a.index_url is Some {
            a.index_url
        } else {
            b.index_url
        },
        prerelease: if a.prerelease is Some {
            a.prerelease
        } else {
            b.prerelease
        },
        compile_bytecode: if a.compile_bytecode is Some {
            a.compile_bytecode
        } else {
            b.compile_bytecode
        },
    }
}

impl ToolOptions {
    /// A fresh copy of the options.
    pub fn copy(&self) -> (r: ToolOptions)
        ensures
            r.deep_view() == self.deep_view(),
    {
        ToolOptions {
            index_url: copy_opt_bytes(&self.index_url),
            prerelease: self.prerelease,
            compile_bytecode: self.compile_bytecode,
        }
    }

    /// Structural equality of two option sets.
    pub fn same(&self, other: &ToolOptions) -> (r: bool)
        ensures
            r == (self.deep_view() == other.deep_view()),
    {
        let index_same = opt_bytes_eq(&self.index_url, &other.index_url);
        let pre_same = match (self.prerelease, other.prerelease) {
            (Some(x), Some(y)) => x == y,
            (None, None) => true,
            _ => false,
        };
        let compile_same = match (self.compile_bytecode, other.compile_bytecode) {
            (Some(x), Some(y)) => x == y,
            (None, None) => true,
            _ => false,
        };
        index_same && pre_same && compile_same
    }

    /// Merge with a fallback, preferring the explicit fields of `self`.
    pub fn combine(&self, fallback: &ToolOptions) -> (r: ToolOptions)
        ensures
            r.deep_view() == combine_spec(self.deep_view(), fallback.deep_view()),
    {
        ToolOptions {
            index_url: if self.index_url.is_some() {
                copy_opt_bytes(&self.index_url)
            } else {
                copy_opt_bytes(&fallback.index_url)
            },
            prerelease: if self.prerelease.is_some() {
                self.prerelease
            } else {
                fallback.prerelease
            },
            compile_bytecode: if self.compile_bytecode.is_some() {
                self.compile_bytecode
            } else {
                fallback.compile_bytecode
            },
        }
    }
}

/// Persisted record of what was last successfully installed for a tool.
pub struct ToolReceipt {
    /// Ordered requirement list; order and duplicates are significant.
    pub requirements: Vec<Requirement>,
    /// Options the tool was installed with.
    pub options: ToolOptions,
    /// The interpreter request given at install time, if any.
    pub python: Option<Vec<u8>>,
    /// Names of the entrypoint shims this install wrote.
    pub entrypoints: Vec<Vec<u8>>,
}

/// Mathematical value of a `ToolReceipt`.
#[verifier::ext_equal]
pub ghost struct ToolReceiptV {
    pub requirements: Seq<RequirementV>,
    pub options: ToolOptionsV,
    pub python: Option<Seq<u8>>,
    pub entrypoints: Seq<Seq<u8>>,
}

impl DeepView for ToolReceipt {
    type V = ToolReceiptV;

    open spec fn deep_view(&self) -> ToolReceiptV {
        ToolReceiptV {
            requirements: self.requirements.deep_view(),
            options: self.options.deep_view(),
            python: self.python.deep_view(),
            entrypoints: self.entrypoints.deep_view(),
        }
    }
}

impl ToolReceipt {
    /// A fresh copy of the receipt.
    pub fn copy(&self) -> (r: ToolReceipt)
        ensures
            r.deep_view() == self.deep_view(),
    {
        ToolReceipt {
            requirements: copy_requirements(&self.requirements),
            options: self.options.copy(),
            python: copy_opt_bytes(&self.python),
            entrypoints: copy_bytes_list(&self.entrypoints),
        }
    }
}

/// A receipt file as it stands on disk: parseable, or present but damaged.
pub enum StoredReceipt {
    Parsed(ToolReceipt),
    Damaged,
}

/// Mathematical value of a stored receipt file.
pub ghost enum ReceiptEntryV {
    Parsed(ToolReceiptV),
    Damaged,
}

impl DeepView for StoredReceipt {
    type V = ReceiptEntryV;

    open spec fn deep_view(&self) -> ReceiptEntryV {
        match self {
            StoredReceipt::Parsed(r) => ReceiptEntryV::Parsed(r.deep_view()),
            StoredReceipt::Damaged => ReceiptEntryV::Damaged,
        }
    }
}

/// Three-way result of looking a receipt up: no file, a parseable file, or a
/// file that exists but cannot be parsed. `Invalid` is never silently folded
/// into `Absent`; callers decide policy.
pub enum ReceiptLookup {
    Absent,
    Valid(ToolReceipt),
    Invalid,
}

/// A filesystem-backed environment bound to one tool: the interpreter it was
/// created with and the entrypoints its installed distribution exposes.
pub struct Environment {
    pub interpreter: Vec<u8>,
    pub entrypoints: Vec<Vec<u8>>,
}

/// Mathematical value of an `Environment`.
#[verifier::ext_equal]
pub ghost struct EnvironmentV {
    pub interpreter: Seq<u8>,
    pub entrypoints: Seq<Seq<u8>>,
}

impl DeepView for Environment {
    type V = EnvironmentV;

    open spec fn deep_view(&self) -> EnvironmentV {
        EnvironmentV {
            interpreter: self.interpreter@,
            entrypoints: self.entrypoints.deep_view(),
        }
    }
}

impl Environment {
    /// A fresh copy of the environment description.
    pub fn copy(&self) -> (r: Environment)
        ensures
            r.deep_view() == self.deep_view(),
    {
        Environment {
            interpreter: copy_bytes(&self.interpreter),
            entrypoints: copy_bytes_list(&self.entrypoints),
        }
    }
}

/// The reply an outside collaborator gave: its result, or a failure.
pub enum Outcome<T> {
    Success(T),
    Failure,
}

impl<T: DeepView> DeepView for Outcome<T> {
    type V = Outcome<T::V>;

    open spec fn deep_view(&self) -> Outcome<T::V> {
        match self {
            Outcome::Success(t) => Outcome::Success(t.deep_view()),
            Outcome::Failure => Outcome::Failure,
        }
    }
}

/// Typed failures of the reconciler.
#[derive(PartialEq, Eq, Structural, Clone, Copy, Debug)]
pub enum ToolError {
    /// The positional name and the resolved `--from` name disagree.
    NameConflict,
    /// A stored receipt exists but cannot be parsed.
    InvalidReceipt,
    /// An upgrade target has no receipt or no environment.
    MissingTool,
    /// The resolver cannot satisfy the requirement set.
    ResolutionFailure,
    /// The installation root is already locked.
    LockFailure,
    /// A same-named entrypoint belongs to another tool and force was not given.
    EntrypointCollision,
}

} // verus!
