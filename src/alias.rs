//! Connection aliases: the `alias` command's actions and the rule for a new alias.

use vstd::prelude::*;

verus! {

/// What the `alias` command does.
#[derive(Debug, Clone)]
pub enum AliasAction {
    Add { alias: String, target: String },
    Remove { alias: String },
    List { target: Option<String> },
}

/// Why a new alias is refused.
#[derive(Debug, Clone, PartialEq, Eq)]
pub enum AliasError {
    /// The alias already points to the profile of this name.
    AliasExists(String),
    /// A profile already has the alias as its name.
    NameTaken,
}

/// Decides whether `alias` may be created: it must not point anywhere yet
/// (`points_to` names the profile it points to, if any), and no profile may
/// bear it as its name.
pub fn check_new_alias(points_to: Option<String>, name_taken: bool) -> (r: Result<(), AliasError>)
    ensures
        points_to matches Some(n) ==> r == Err::<(), AliasError>(AliasError::AliasExists(n)),
        points_to is None && name_taken ==> r == Err::<(), AliasError>(AliasError::NameTaken),
        points_to is None && !name_taken ==> r is Ok,
{
    match points_to {
        Some(n) => Err(AliasError::AliasExists(n)),
        None => if name_taken {
            Err(AliasError::NameTaken)
        } else {
            Ok(())
        },
    }
}

} // verus!
