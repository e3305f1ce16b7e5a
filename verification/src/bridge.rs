//! Conventions of the host-bridge target, where the engine runs behind a
//! hosted script module: handles are small positive integers, text
//! crosses as UTF-8, and status words signal success by being nonzero.

use vstd::prelude::*;

verus! {

/// The metadata table a bridge query targets.
#[derive(Debug, Clone, Copy, PartialEq, Eq, Structural)]
pub enum StreamKind {
    General,
    Video,
    Audio,
    Text,
    Other,
    Image,
    Menu,
}

impl StreamKind {
    /// The numeric code the bridge assigns to this category.
    pub open spec fn code_spec(self) -> int {
        match self {
            StreamKind::General => 0,
            StreamKind::Video => 1,
            StreamKind::Audio => 2,
            StreamKind::Text => 3,
            StreamKind::Other => 4,
            StreamKind::Image => 5,
            StreamKind::Menu => 6,
        }
    }

    /// The category as the integer the bridge expects.
    pub fn code(self) -> (r: i32)
        ensures
            r == self.code_spec(),
    {
        match self {
            StreamKind::General => 0,
            StreamKind::Video => 1,
            StreamKind::Audio => 2,
            StreamKind::Text => 3,
            StreamKind::Other => 4,
            StreamKind::Image => 5,
            StreamKind::Menu => 6,
        }
    }
}

/// Judges a raw handle the bridge returned: only a positive value names a
/// live instance.
pub fn accept_handle(raw: i32) -> (r: Option<i32>)
    ensures
        r == if raw > 0 {
            Some(raw)
        } else {
            None::<i32>
        },
{
    if raw > 0 {
        Some(raw)
    } else {
        None
    }
}

/// Judges a status word of the bridge: any nonzero value is success.
pub fn status_succeeded(status: i32) -> (r: bool)
    ensures
        r == (status != 0),
{
    status != 0
}

} // verus!
