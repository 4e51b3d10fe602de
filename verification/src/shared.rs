use vstd::prelude::*;

verus! {

/// The profile shown for a signed-in user.
#[derive(Debug, Clone, PartialEq)]
pub struct UserProfile {
    pub name: String,
    pub email: String,
    pub avatar_url: Option<String>,
}

/// Whether the application shell shows the public or the signed-in layout.
#[derive(Debug, Clone, Copy, PartialEq, Eq, Structural)]
pub enum LayoutMode {
    Public,
    Authenticated,
}

} // verus!
