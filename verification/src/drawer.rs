//! The height of the log view as the user shortens it, makes it taller,
//! drags its edge, or folds it away.

use vstd::prelude::*;

verus! {

/// The number of lines the log view keeps.
pub const DEFAULT_LOG_LIMIT: usize = 1000;

/// The height of the log view before the user has changed it.
pub const DEFAULT_LOG_HEIGHT: i32 = 220;

/// The least height of the log view: that of a folded one.
pub const MIN_LOG_HEIGHT: i32 = 72;

/// The greatest height of the log view.
pub const MAX_LOG_HEIGHT: i32 = 900;

/// The height of what stands above the lines: the title and the buttons.
pub const LOG_HEADER_HEIGHT: i32 = 56;

/// By how much a press of a button changes the height.
pub const HEIGHT_STEP: i32 = 40;

/// A height, kept within the least and the greatest.
pub open spec fn clamped(height: int) -> int {
    if height < MIN_LOG_HEIGHT {
        MIN_LOG_HEIGHT as int
    } else if height > MAX_LOG_HEIGHT {
        MAX_LOG_HEIGHT as int
    } else {
        height
    }
}

/// How high the log view is, how high it was before it was folded, and
/// whether it is folded.
#[derive(Debug, Clone, Copy, PartialEq, Eq, Structural)]
pub struct DrawerLayout {
    pub height: i32,
    pub expanded_height: i32,
    pub minimized: bool,
}

impl DrawerLayout {
    /// Whether both heights lie within the least and the greatest.
    pub open spec fn wf(self) -> bool {
        &&& MIN_LOG_HEIGHT <= self.height <= MAX_LOG_HEIGHT
        &&& MIN_LOG_HEIGHT <= self.expanded_height <= MAX_LOG_HEIGHT
    }

    /// The layout of a log view that the user has not touched.
    pub fn new() -> (r: Self)
        ensures
            r == (DrawerLayout {
                height: DEFAULT_LOG_HEIGHT,
                expanded_height: DEFAULT_LOG_HEIGHT,
                minimized: false,
            }),
            r.wf(),
    {
        DrawerLayout {
            height: DEFAULT_LOG_HEIGHT,
            expanded_height: DEFAULT_LOG_HEIGHT,
            minimized: false,
        }
    }

    fn clamp(height: i64) -> (r: i32)
        ensures
            r == clamped(height as int),
    {
        if height < MIN_LOG_HEIGHT as i64 {
            MIN_LOG_HEIGHT
        } else if height > MAX_LOG_HEIGHT as i64 {
            MAX_LOG_HEIGHT
        } else {
            height as i32
        }
    }

    /// The height to ask for the whole view, its header included.
    pub fn height_request(&self) -> (r: i64)
        ensures
            r == self.height + LOG_HEADER_HEIGHT,
    {
        self.height as i64 + LOG_HEADER_HEIGHT as i64
    }

    /// Makes the view one step shorter, but no shorter than the least
    /// height.
    pub fn shorter(&mut self)
        ensures
            final(self).height == clamped(old(self).height - HEIGHT_STEP),
            final(self).expanded_height == final(self).height,
            final(self).minimized == old(self).minimized,
            final(self).wf(),
    {
        let height = Self::clamp(self.height as i64 - HEIGHT_STEP as i64);
        self.height = height;
        self.expanded_height = height;
    }

    /// Makes the view one step taller, but no taller than the greatest
    /// height.
    pub fn taller(&mut self)
        ensures
            final(self).height == clamped(old(self).height + HEIGHT_STEP),
            final(self).expanded_height == final(self).height,
            final(self).minimized == old(self).minimized,
            final(self).wf(),
    {
        let height = Self::clamp(self.height as i64 + HEIGHT_STEP as i64);
        self.height = height;
        self.expanded_height = height;
    }

    /// Follows a drag of the view's edge that began at the height `start`
    /// and has moved down by `moved`. A view dragged above the least height
    /// counts as unfolded, at that height.
    pub fn drag(&mut self, start: i32, moved: i32)
        ensures
            final(self).height == clamped(start - moved),
            clamped(start - moved) > MIN_LOG_HEIGHT ==> final(self).expanded_height == clamped(
                start - moved,
            ) && !final(self).minimized,
            clamped(start - moved) == MIN_LOG_HEIGHT ==> final(self).expanded_height == old(self)
                .expanded_height && final(self).minimized == old(self).minimized,
            old(self).wf() ==> final(self).wf(),
    {
        let next = Self::clamp(start as i64 - moved as i64);
        self.height = next;
        if next > MIN_LOG_HEIGHT {
            self.expanded_height = next;
            self.minimized = false;
        }
    }

    /// Folds the view to the least height, or unfolds it to the height it
    /// had before it was folded.
    pub fn toggle_minimized(&mut self)
        ensures
            old(self).minimized ==> *final(self) == (DrawerLayout {
                height: old(self).expanded_height,
                expanded_height: old(self).expanded_height,
                minimized: false,
            }),
            !old(self).minimized ==> *final(self) == (DrawerLayout {
                height: MIN_LOG_HEIGHT,
                expanded_height: old(self).height,
                minimized: true,
            }),
            old(self).wf() ==> final(self).wf(),
    {
        if self.minimized {
            self.height = self.expanded_height;
            self.minimized = false;
        } else {
            self.expanded_height = self.height;
            self.height = MIN_LOG_HEIGHT;
            self.minimized = true;
        }
    }
}

} // verus!
