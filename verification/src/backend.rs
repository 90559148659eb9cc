//! The two kinds of tree, and where the tree of a backend lies.

use vstd::prelude::*;
use crate::error::{fails_with, CatalogError};
use crate::paths::{home_dir, join, joined_path};
use crate::text::str_view;

verus! {

/// The two shapes of a tree of logs.
#[derive(Clone, Copy, Debug, PartialEq, Eq, Structural)]
pub enum TreeKind {
    /// One directory per project under a root named `projects`.
    Projects,
    /// Year, month and day directories under a root named `sessions`.
    Sessions,
}

impl TreeKind {
    /// The name of the root of a tree of this shape.
    pub open spec fn root_part(self) -> Seq<char> {
        match self {
            TreeKind::Projects => "projects"@,
            TreeKind::Sessions => "sessions"@,
        }
    }

    /// The name of the root of a tree of this shape.
    pub fn root_name(self) -> (name: &'static str)
        ensures
            name@ == self.root_part(),
    {
        match self {
            TreeKind::Projects => "projects",
            TreeKind::Sessions => "sessions",
        }
    }
}

/// A backend as its user names it.
#[derive(Clone, Debug, PartialEq, Eq)]
pub struct Backend {
    /// The shape of its tree.
    pub kind: TreeKind,
    /// The tag that its records carry in `app_type`.
    pub tag: String,
    /// The name of its directory within the home directory.
    pub home_part: String,
}

/// The root of a backend's tree: the root name of its shape under the
/// override directory, or under the backend's directory in the home
/// directory where no override is given. `None` where neither is known.
pub open spec fn backend_root(
    backend: Backend,
    override_dir: Option<Seq<char>>,
    home: Option<Seq<char>>,
) -> Option<Seq<char>> {
    match override_dir {
        Some(base) => Some(joined_path(base, backend.kind.root_part())),
        None => match home {
            Some(h) => Some(
                joined_path(joined_path(h, backend.home_part@), backend.kind.root_part()),
            ),
            None => None,
        },
    }
}

/// The root of a backend's tree, from the override directory and the home
/// directory as far as they are known.
pub fn resolve_backend_root(
    backend: &Backend,
    override_dir: Option<&str>,
    home: Option<&str>,
) -> (r: Result<String, CatalogError>)
    ensures
        match backend_root(*backend, str_view(override_dir), str_view(home)) {
            Some(root) => r matches Ok(p) && p@ == root,
            None => fails_with(r, CatalogError::Environment),
        },
{
    match override_dir {
        Some(base) => Ok(join(base, backend.kind.root_name())),
        None => match home {
            Some(h) => {
                let dir = join(h, backend.home_part.as_str());
                Ok(join(dir.as_str(), backend.kind.root_name()))
            },
            None => Err(CatalogError::Environment),
        },
    }
}

/// The root of a backend's tree. Without an override directory the home
/// directory of the user is asked for, and the call fails where there is
/// none.
pub fn get_conversations_dir(backend: &Backend, override_dir: Option<&str>) -> (r: Result<
    String,
    CatalogError,
>)
    ensures
        override_dir matches Some(o) ==> (r matches Ok(p) && p@ == joined_path(
            o@,
            backend.kind.root_part(),
        )),
        override_dir is None ==> match r {
            Ok(p) => exists|h: Seq<char>| #[trigger]
                backend_root(*backend, None, Some(h)) == Some(p@),
            Err(e) => e == CatalogError::Environment,
        },
{
    match override_dir {
        Some(base) => resolve_backend_root(backend, Some(base), None),
        None => {
            let home = home_dir();
            match &home {
                Some(h) => resolve_backend_root(backend, None, Some(h.as_str())),
                None => resolve_backend_root(backend, None, None),
            }
        },
    }
}

} // verus!
