//! The positioning mode that a `G90` or `G91` selects.

use vstd::prelude::*;

verus! {

/// The mode that a token with this code and value selects, if it selects
/// one: `G90` is absolute (`false`), `G91` incremental (`true`).
pub open spec fn selected_mode(code: char, value: int) -> Option<bool> {
    if code == 'G' && value == 90 {
        Some(false)
    } else if code == 'G' && value == 91 {
        Some(true)
    } else {
        None
    }
}

/// A positioning mode: absolute or incremental.
#[derive(Debug, PartialEq, Eq)]
pub struct PositioningMode {
    code: char,
    value: i32,
    incremental: bool,
}

impl PositioningMode {
    #[verifier::type_invariant]
    spec fn consistent(self) -> bool {
        selected_mode(self.code, self.value as int) == Some(self.incremental)
    }

    /// Whether the mode is incremental.
    pub closed spec fn is_incremental(&self) -> bool {
        self.incremental
    }

    /// The mode that a token selects. A token that selects none is no error:
    /// the line then leaves the mode as it is.
    pub fn new(code: char, value: i32) -> (mode: Option<Self>)
        ensures
            match mode {
                Some(m) => selected_mode(code, value as int) == Some(m.is_incremental()),
                None => selected_mode(code, value as int) is None,
            },
    {
        if code == 'G' && value == 90 {
            Some(Self { code, value, incremental: false })
        } else if code == 'G' && value == 91 {
            Some(Self { code, value, incremental: true })
        } else {
            None
        }
    }

    /// Whether the mode is incremental.
    pub fn get_incremental(&self) -> (incremental: bool)
        ensures
            incremental == self.is_incremental(),
    {
        self.incremental
    }
}

} // verus!
