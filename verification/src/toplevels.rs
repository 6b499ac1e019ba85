//! Open windows, as the compositor lists them.

use vstd::prelude::*;

verus! {

/// One open window.
#[derive(Debug, Clone)]
pub struct ToplevelState {
    pub title: String,
    /// The application id the window declares.
    pub app_id: String,
    /// A second id under which the application may be known instead.
    pub gtk_app_id: Option<String>,
}

/// Whether a window with the given ids belongs to the application `id`: its
/// declared id or its alternate id is `id`.
pub open spec fn window_matches(
    app_id: Seq<char>,
    gtk_app_id: Option<Seq<char>>,
    id: Seq<char>,
) -> bool {
    app_id == id || gtk_app_id == Some(id)
}

impl ToplevelState {
    /// The alternate id as a sequence of characters.
    pub open spec fn alternate(&self) -> Option<Seq<char>> {
        match self.gtk_app_id {
            Some(gid) => Some(gid@),
            None => None,
        }
    }

    /// Whether the window belongs to the application `id`.
    pub open spec fn matches(&self, id: Seq<char>) -> bool {
        window_matches(self.app_id@, self.alternate(), id)
    }

    /// Whether the window belongs to the application `id`.
    pub fn matches_id(&self, id: &String) -> (b: bool)
        ensures
            b == self.matches(id@),
    {
        if self.app_id == *id {
            return true;
        }
        match &self.gtk_app_id {
            Some(gid) => *gid == *id,
            None => false,
        }
    }
}

} // verus!
