//! Which memory sizes are valid.
use crate::error::initial_too_large_text;
use crate::error::maximum_below_initial_text;
use crate::error::maximum_too_large_text;
use vstd::prelude::*;

verus! {

/// The largest number of pages that a memory can have: 65536 pages of 64KiB are the 4GiB
/// that a 32-bit address reaches.
pub const LINEAR_MEMORY_MAX_PAGES: u32 = 65536;

/// The number that an optional limit holds.
pub open spec fn limit_count(limit: Option<u32>) -> Option<nat> {
    match limit {
        Some(most) => Some(most as nat),
        None => None,
    }
}

/// Why `initial` and `maximum` pages are no valid limits of a memory, if they are not.
pub open spec fn limits_defect(initial: nat, maximum: Option<nat>) -> Option<Seq<char>> {
    if initial > LINEAR_MEMORY_MAX_PAGES {
        Some(crate::error::initial_too_large(LINEAR_MEMORY_MAX_PAGES as nat))
    } else {
        match maximum {
            None => None,
            Some(most) => if initial > most {
                Some(crate::error::maximum_below_initial(most, initial))
            } else if most > LINEAR_MEMORY_MAX_PAGES {
                Some(crate::error::maximum_too_large(LINEAR_MEMORY_MAX_PAGES as nat))
            } else {
                None
            },
        }
    }
}

/// `initial` is at most `maximum`, and neither is above [`LINEAR_MEMORY_MAX_PAGES`].
pub open spec fn limits_valid(initial: nat, maximum: Option<nat>) -> bool {
    &&& initial <= LINEAR_MEMORY_MAX_PAGES
    &&& maximum matches Some(most) ==> initial <= most <= LINEAR_MEMORY_MAX_PAGES
}

/// Checks that a memory may start with `initial` pages and be limited to `maximum` pages.
///
/// # Errors
///
/// Returns a text that says why the limits are invalid, if `initial` is greater than
/// `maximum` or either is greater than [`LINEAR_MEMORY_MAX_PAGES`].
pub fn validate_memory(initial: u32, maximum: Option<u32>) -> (result: Result<(), String>)
    ensures
        result is Ok <==> limits_valid(initial as nat, limit_count(maximum)),
        result matches Err(text) ==> Some(text@) == limits_defect(
            initial as nat,
            limit_count(maximum),
        ),
{
    if initial > LINEAR_MEMORY_MAX_PAGES {
        return Err(initial_too_large_text(LINEAR_MEMORY_MAX_PAGES as usize));
    }
    if let Some(most) = maximum {
        if initial > most {
            return Err(maximum_below_initial_text(most as usize, initial as usize));
        }
        if most > LINEAR_MEMORY_MAX_PAGES {
            return Err(maximum_too_large_text(LINEAR_MEMORY_MAX_PAGES as usize));
        }
    }
    Ok(())
}

} // verus!
