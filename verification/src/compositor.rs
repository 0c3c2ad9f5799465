//! Bookkeeping decisions of the compositor and its windowing front end.
use vstd::prelude::*;

verus! {

/// The kinds of context a plugin can be given.
#[derive(Debug, Clone, Copy, Hash, PartialEq, Eq, PartialOrd, Ord, Structural)]
pub enum PluginContextType {
    Compositor,
}

/// Where a window to be destroyed was found.
#[derive(Debug, Clone, Copy, PartialEq, Eq, Structural)]
pub enum WindowLocation {
    /// At this index of the windows requested but not yet opened.
    Requested(usize),
    /// At this index of the open windows.
    Open(usize),
    /// Nowhere.
    Missing,
}

/// Where `s` holds `x` first, searching from the start.
fn find_first(s: &[u64], x: u64) -> (r: Option<usize>)
    ensures
        match r {
            Some(i) => i < s@.len() && s@[i as int] == x && forall|j: int| 0 <= j < i ==> s@[j] != x,
            None => forall|j: int| 0 <= j < s@.len() ==> s@[j] != x,
        },
{
    let mut i: usize = 0;
    while i < s.len()
        invariant
            0 <= i <= s@.len(),
            forall|j: int| 0 <= j < i ==> s@[j] != x,
        decreases s@.len() - i,
    {
        if s[i] == x {
            return Some(i);
        }
        i = i + 1;
    }
    None
}

/// Finds the window `target` among the requested windows first and then
/// among the open ones, by identity; the first match in a list is the one
/// taken.
pub fn locate_window(requested: &[u64], open: &[u64], target: u64) -> (r: WindowLocation)
    ensures
        match r {
            WindowLocation::Requested(i) => i < requested@.len() && requested@[i as int] == target
                && forall|j: int| 0 <= j < i ==> requested@[j] != target,
            WindowLocation::Open(i) => !requested@.contains(target) && i < open@.len()
                && open@[i as int] == target && forall|j: int| 0 <= j < i ==> open@[j] != target,
            WindowLocation::Missing => !requested@.contains(target) && !open@.contains(target),
        },
{
    match find_first(requested, target) {
        Some(i) => WindowLocation::Requested(i),
        None => match find_first(open, target) {
            Some(i) => WindowLocation::Open(i),
            None => WindowLocation::Missing,
        },
    }
}

} // verus!
