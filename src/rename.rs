//! Renaming a project: validation first, then the identity rewrite, and only
//! then the move of the directory.
//!
//! Both preconditions are checked before anything changes. The deploy
//! manifest is rewritten in the project's old place before the directory
//! moves; where the rewrite fails, no move is asked for and the workspace
//! stays as it was. A failure of the move itself, after the rewrite, is not
//! rolled back.
use vstd::prelude::*;
use crate::identity::{
    identity_error_fits, identity_rewritten, identity_succeeds, update_identity, DeployFormat,
    IdentityError,
};
use crate::registry::{is_consumer, Category, Listing};

verus! {

/// Why a rename did not happen.
#[derive(Debug, Clone, PartialEq, Eq)]
pub enum RenameError {
    /// No category holds a project of the old name.
    ProjectNotFound(String),
    /// The project's category already holds an entry of the new name.
    DestinationAlreadyExists(String),
    /// The deploy manifest could not be rewritten.
    Identity(IdentityError),
}

/// A validated rename: the category of the project, and whether its deploy
/// identity must be rewritten before the move.
#[derive(Debug, Clone, Copy, PartialEq, Eq, Structural)]
pub struct RenamePlan {
    pub category: Category,
    pub rewrite_identity: bool,
}

/// What remains to be done once the rename is cleared: write the deploy
/// manifest where there is one to write, then move the directory.
#[derive(Debug, Clone, PartialEq, Eq)]
pub struct RenameSteps {
    /// The new bytes of the deploy manifest, in its old place.
    pub manifest: Option<(DeployFormat, Vec<u8>)>,
    /// A web-facing project without a deploy manifest: worth a warning.
    pub manifest_missing: bool,
}

/// Checks that a rename can go ahead: the project is found, by the fixed
/// category order, and its category holds nothing of the new name yet.
pub fn plan_rename(listing: &Listing, current: &str, new_name: &str) -> (r: Result<
    RenamePlan,
    RenameError,
>)
    ensures
        match listing.first_holding(current@) {
            None => r matches Err(RenameError::ProjectNotFound(n)) && n@ == current@,
            Some(c) => if listing.holds(c, new_name@) {
                r matches Err(RenameError::DestinationAlreadyExists(n)) && n@ == new_name@
            } else {
                r == Ok::<RenamePlan, RenameError>(
                    RenamePlan { category: c, rewrite_identity: is_consumer(c) },
                )
            },
        },
{
    let category = match listing.find_project(current) {
        Ok(c) => c,
        Err(_) => return Err(RenameError::ProjectNotFound(current.to_owned())),
    };
    if listing.holds_name(category, new_name) {
        return Err(RenameError::DestinationAlreadyExists(new_name.to_owned()));
    }
    Ok(RenamePlan { category, rewrite_identity: category.is_consumer() })
}

/// Rewrites the deploy identity a plan asks for, given the project's deploy
/// manifest (its format and text) where it has one. The rename may go on,
/// with the steps returned, exactly when no rewrite was needed or it
/// succeeded; where it fails the error comes back and no step is left to do.
pub fn stage_rename(plan: RenamePlan, deploy: Option<(DeployFormat, &str)>, new_name: &str) -> (r:
    Result<RenameSteps, RenameError>)
    ensures
        !plan.rewrite_identity ==> r == Ok::<RenameSteps, RenameError>(
            RenameSteps { manifest: None, manifest_missing: false },
        ),
        plan.rewrite_identity && deploy is None ==> r == Ok::<RenameSteps, RenameError>(
            RenameSteps { manifest: None, manifest_missing: true },
        ),
        deploy matches Some((format, content)) ==> (plan.rewrite_identity ==> match r {
            Ok(steps) => steps.manifest matches Some((f, b)) && f == format && identity_rewritten(
                format,
                content@,
                new_name@,
                b@,
            ) && !steps.manifest_missing,
            Err(e) => e matches RenameError::Identity(ie) && identity_error_fits(format, content@, ie),
        }),
        deploy matches Some((format, content)) ==> (plan.rewrite_identity ==> (r is Ok
            <==> identity_succeeds(format, content@, new_name@))),
{
    if !plan.rewrite_identity {
        return Ok(RenameSteps { manifest: None, manifest_missing: false });
    }
    match deploy {
        None => Ok(RenameSteps { manifest: None, manifest_missing: true }),
        Some((format, content)) => match update_identity(format, content, new_name) {
            Ok(bytes) => Ok(RenameSteps { manifest: Some((format, bytes)), manifest_missing: false }),
            Err(e) => Err(RenameError::Identity(e)),
        },
    }
}

} // verus!
