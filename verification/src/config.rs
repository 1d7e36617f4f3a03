//! The user's identity as the repository's configuration gives it.

use vstd::prelude::*;

verus! {

/// Name and e-mail address of the user, each where the configuration has
/// it.
#[derive(Debug, Clone, PartialEq, Eq)]
pub struct GitConfig {
    pub user_name: Option<String>,
    pub user_email: Option<String>,
}

} // verus!
