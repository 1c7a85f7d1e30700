//! Branches of the task, document and graph store: when a branch counts as existing, and the
//! checks made before one is created, checked out, renamed or deleted.

use vstd::prelude::*;

use crate::error::StoreError;
use crate::graph::opt_view;
use crate::text::{chars_eq, chars_of, string_of, trim_seq, trim_str};

verus! {

broadcast use vstd::string::group_string_axioms;

/// The branch a workspace starts on.
pub const DEFAULT_BRANCH: &'static str = "main";

/// Where a branch name turns up in the store: as a branch of its own, as the branch of a
/// reasoning reference, or as the branch of document entries.
#[derive(Clone, Copy, Debug)]
pub struct BranchPresence {
    pub in_branches: bool,
    pub in_reasoning_refs: bool,
    pub in_doc_entries: bool,
}

/// A branch exists when its name turns up anywhere in the store.
pub fn branch_known(p: BranchPresence) -> (r: bool)
    ensures
        r == (p.in_branches || p.in_reasoning_refs || p.in_doc_entries),
{
    p.in_branches || p.in_reasoning_refs || p.in_doc_entries
}

/// A workspace needs its default branch set up when nothing in it names a branch yet.
pub fn needs_default_branch(has_branch_data: bool) -> (r: bool)
    ensures
        r == !has_branch_data,
{
    !has_branch_data
}

/// A checkout is set to `branch` only when none is set and the branch exists.
pub fn should_set_checkout(checkout_is_set: bool, branch_exists: bool) -> (r: bool)
    ensures
        r == (!checkout_is_set && branch_exists),
{
    !checkout_is_set && branch_exists
}

/// The invalid-input error `m`.
pub open spec fn fails_with<T>(r: Result<T, StoreError>, m: Seq<char>) -> bool {
    r matches Err(StoreError::InvalidInput(x)) && x@ == m
}

/// What the store says of the branch asked to be deleted (its name trimmed).
#[derive(Clone, Debug)]
pub struct BranchDeleteFacts {
    pub exists: bool,
    pub checked_out: Option<String>,
    pub has_children: bool,
    pub referenced: bool,
}

/// The checks before deleting branch `name`: it must be named, exist, not be checked out,
/// have no branches based on it, and not be used by a reasoning reference.
pub open spec fn branch_delete_spec(name: Seq<char>, f: BranchDeleteFacts) -> Result<Seq<char>, StoreError> {
    let b = trim_seq(name);
    if b.len() == 0 {
        Err(StoreError::InvalidInput("name must not be empty"))
    } else if !f.exists {
        Err(StoreError::UnknownBranch)
    } else if opt_view(f.checked_out) == Some(b) {
        Err(StoreError::InvalidInput("cannot delete the currently checked-out branch"))
    } else if f.has_children {
        Err(StoreError::InvalidInput("branch has dependent branches; delete or rebase them first"))
    } else if f.referenced {
        Err(StoreError::InvalidInput("branch is referenced by reasoning refs; move them before deletion"))
    } else {
        Ok(b)
    }
}

/// The same outcome, errors compared by their kind and message.
pub open spec fn same_outcome(r: Result<String, StoreError>, s: Result<Seq<char>, StoreError>) -> bool {
    match (r, s) {
        (Ok(a), Ok(b)) => a@ == b,
        (Err(StoreError::InvalidInput(m)), Err(StoreError::InvalidInput(n))) => m@ == n@,
        (Err(StoreError::UnknownBranch), Err(StoreError::UnknownBranch)) => true,
        (Err(StoreError::BranchAlreadyExists), Err(StoreError::BranchAlreadyExists)) => true,
        _ => false,
    }
}

fn same_text(a: &String, b: &[char]) -> (r: bool)
    ensures
        r == (a@ == b@),
{
    let v = chars_of(a.as_str());
    chars_eq(v.as_slice(), b)
}

/// Decides whether branch `name` may be deleted; on success, the trimmed name.
pub fn check_branch_delete(name: &str, facts: &BranchDeleteFacts) -> (r: Result<String, StoreError>)
    ensures
        same_outcome(r, branch_delete_spec(name@, *facts)),
{
    let b = trim_str(name);
    if b.len() == 0 {
        return Err(StoreError::InvalidInput("name must not be empty"));
    }
    if !facts.exists {
        return Err(StoreError::UnknownBranch);
    }
    match &facts.checked_out {
        Some(c) => {
            if same_text(c, b.as_slice()) {
                return Err(StoreError::InvalidInput("cannot delete the currently checked-out branch"));
            }
        },
        None => {},
    }
    if facts.has_children {
        return Err(
            StoreError::InvalidInput("branch has dependent branches; delete or rebase them first"),
        );
    }
    if facts.referenced {
        return Err(
            StoreError::InvalidInput("branch is referenced by reasoning refs; move them before deletion"),
        );
    }
    Ok(string_of(b.as_slice()))
}

/// The branch that is checked out is never deleted.
pub proof fn lemma_checked_out_branch_survives(name: Seq<char>, f: BranchDeleteFacts)
    requires
        opt_view(f.checked_out) == Some(trim_seq(name)),
    ensures
        branch_delete_spec(name, f) is Err,
{
}

/// The checks before renaming branch `from` to `to` (both trimmed): both named, different,
/// `from` existing and `to` not.
pub open spec fn branch_rename_spec(from: Seq<char>, to: Seq<char>, from_exists: bool, to_exists: bool) -> Result<
    (Seq<char>, Seq<char>),
    StoreError,
> {
    let f = trim_seq(from);
    let t = trim_seq(to);
    if f.len() == 0 {
        Err(StoreError::InvalidInput("from must not be empty"))
    } else if t.len() == 0 {
        Err(StoreError::InvalidInput("to must not be empty"))
    } else if f == t {
        Err(StoreError::InvalidInput("from and to must differ"))
    } else if !from_exists {
        Err(StoreError::UnknownBranch)
    } else if to_exists {
        Err(StoreError::BranchAlreadyExists)
    } else {
        Ok((f, t))
    }
}

/// Decides whether branch `from` may be renamed to `to`; `from_exists` and `to_exists` say
/// whether the trimmed names exist. On success, the two trimmed names.
pub fn check_branch_rename(from: &str, to: &str, from_exists: bool, to_exists: bool) -> (r: Result<
    (String, String),
    StoreError,
>)
    ensures
        match (r, branch_rename_spec(from@, to@, from_exists, to_exists)) {
            (Ok((a, b)), Ok((x, y))) => a@ == x && b@ == y,
            (Err(StoreError::InvalidInput(m)), Err(StoreError::InvalidInput(n))) => m@ == n@,
            (Err(StoreError::UnknownBranch), Err(StoreError::UnknownBranch)) => true,
            (Err(StoreError::BranchAlreadyExists), Err(StoreError::BranchAlreadyExists)) => true,
            _ => false,
        },
{
    let f = trim_str(from);
    let t = trim_str(to);
    if f.len() == 0 {
        return Err(StoreError::InvalidInput("from must not be empty"));
    }
    if t.len() == 0 {
        return Err(StoreError::InvalidInput("to must not be empty"));
    }
    if chars_eq(f.as_slice(), t.as_slice()) {
        return Err(StoreError::InvalidInput("from and to must differ"));
    }
    if !from_exists {
        return Err(StoreError::UnknownBranch);
    }
    if to_exists {
        return Err(StoreError::BranchAlreadyExists);
    }
    Ok((string_of(f.as_slice()), string_of(t.as_slice())))
}

/// A branch can be checked out when it is named and exists.
pub fn check_checkout_branch(branch: &str, exists: bool) -> (r: Result<(), StoreError>)
    ensures
        trim_seq(branch@).len() == 0 ==> fails_with(r, "branch must not be empty"@),
        trim_seq(branch@).len() > 0 && !exists ==> r matches Err(StoreError::UnknownBranch),
        trim_seq(branch@).len() > 0 && exists ==> r is Ok,
{
    if trim_str(branch).len() == 0 {
        return Err(StoreError::InvalidInput("branch must not be empty"));
    }
    if !exists {
        return Err(StoreError::UnknownBranch);
    }
    Ok(())
}

/// A new branch needs a name not taken yet.
pub fn check_new_branch_name(name: &str, exists: bool) -> (r: Result<(), StoreError>)
    ensures
        trim_seq(name@).len() == 0 ==> fails_with(r, "name must not be empty"@),
        trim_seq(name@).len() > 0 && exists ==> r matches Err(StoreError::BranchAlreadyExists),
        trim_seq(name@).len() > 0 && !exists ==> r is Ok,
{
    if trim_str(name).len() == 0 {
        return Err(StoreError::InvalidInput("name must not be empty"));
    }
    if exists {
        return Err(StoreError::BranchAlreadyExists);
    }
    Ok(())
}

/// Where a new branch starts from, as far as the request and the checkout tell.
#[derive(Debug)]
pub enum BaseChoice {
    /// This branch.
    Use(String),
    /// No base was given and nothing is checked out: the workspace's default branch has to
    /// be set up first, and the base chosen after that.
    Bootstrap,
}

/// The base of a new branch: the one given (it must not be blank), else the checked-out
/// branch, else whatever setting up the default branch gives.
pub fn choose_branch_base(from: Option<&str>, checkout: Option<String>) -> (r: Result<
    BaseChoice,
    StoreError,
>)
    ensures
        match from {
            Some(f) => if trim_seq(f@).len() == 0 {
                fails_with(r, "from must not be empty"@)
            } else {
                r matches Ok(BaseChoice::Use(b)) && b@ == f@
            },
            None => match checkout {
                Some(c) => r matches Ok(BaseChoice::Use(b)) && b@ == c@,
                None => r matches Ok(BaseChoice::Bootstrap),
            },
        },
{
    match from {
        Some(f) => {
            if trim_str(f).len() == 0 {
                return Err(StoreError::InvalidInput("from must not be empty"));
            }
            Ok(BaseChoice::Use(string_of(chars_of(f).as_slice())))
        },
        None => match checkout {
            Some(c) => Ok(BaseChoice::Use(c)),
            None => Ok(BaseChoice::Bootstrap),
        },
    }
}

/// The base once the default branch has been set up: the checkout then set, else the
/// default branch when it exists.
pub fn base_after_bootstrap(checkout: Option<String>, default_exists: bool) -> (r: Result<
    String,
    StoreError,
>)
    ensures
        match checkout {
            Some(c) => r matches Ok(b) && b@ == c@,
            None => if default_exists {
                r matches Ok(b) && b@ == DEFAULT_BRANCH@
            } else {
                fails_with(r, "from is required when no checkout branch is set"@)
            },
        },
{
    match checkout {
        Some(c) => Ok(c),
        None => {
            if default_exists {
                Ok(string_of(chars_of(DEFAULT_BRANCH).as_slice()))
            } else {
                Err(StoreError::InvalidInput("from is required when no checkout branch is set"))
            }
        },
    }
}

} // verus!
