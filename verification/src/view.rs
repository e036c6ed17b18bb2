//! The view selector: which image is put on the screen.

use vstd::prelude::*;

verus! {

/// What the screen shows: the image that the video output points at, or one
/// cached target picked by its index, for diagnosis.
#[derive(Clone, Copy, Debug, PartialEq, Eq)]
pub enum ViewMode {
    Game,
    Color(usize),
    Depth(usize),
}

impl ViewMode {
    /// The mode names something that exists among `colors` color targets and
    /// `depths` depth targets.
    pub open spec fn valid(self, colors: usize, depths: usize) -> bool {
        match self {
            ViewMode::Game => true,
            ViewMode::Color(i) => i < colors,
            ViewMode::Depth(i) => i < depths,
        }
    }

    /// The mode that follows `self`: the next color target, after the last of
    /// them the first depth target, after the last of those the game view.
    pub open spec fn successor(self, colors: usize, depths: usize) -> ViewMode {
        match self {
            ViewMode::Game => if colors > 0 {
                ViewMode::Color(0)
            } else if depths > 0 {
                ViewMode::Depth(0)
            } else {
                ViewMode::Game
            },
            ViewMode::Color(i) => if i + 1 < colors {
                ViewMode::Color((i + 1) as usize)
            } else if depths > 0 {
                ViewMode::Depth(0)
            } else {
                ViewMode::Game
            },
            ViewMode::Depth(i) => if i + 1 < depths {
                ViewMode::Depth((i + 1) as usize)
            } else {
                ViewMode::Game
            },
        }
    }

    /// Place of the mode on the ring of all modes: the game view, then the
    /// color targets, then the depth targets.
    pub open spec fn place(self, colors: usize) -> int {
        match self {
            ViewMode::Game => 0,
            ViewMode::Color(i) => 1 + i,
            ViewMode::Depth(i) => 1 + colors + i,
        }
    }

    /// Advances to the next mode. The counts are those of the caches now, so
    /// a target created since the last step is reached without a restart.
    pub fn cycle(self, colors: usize, depths: usize) -> (next: ViewMode)
        ensures
            next == self.successor(colors, depths),
            next.valid(colors, depths),
    {
        match self {
            ViewMode::Game => {
                if colors > 0 {
                    ViewMode::Color(0)
                } else if depths > 0 {
                    ViewMode::Depth(0)
                } else {
                    ViewMode::Game
                }
            },
            ViewMode::Color(i) => {
                if i < usize::MAX && i + 1 < colors {
                    ViewMode::Color(i + 1)
                } else if depths > 0 {
                    ViewMode::Depth(0)
                } else {
                    ViewMode::Game
                }
            },
            ViewMode::Depth(i) => {
                if i < usize::MAX && i + 1 < depths {
                    ViewMode::Depth(i + 1)
                } else {
                    ViewMode::Game
                }
            },
        }
    }
}

/// From any mode, valid or stale, and any cache population the successor is
/// the game view or names a target that exists.
pub proof fn lemma_successor_valid(mode: ViewMode, colors: usize, depths: usize)
    ensures
        mode.successor(colors, depths).valid(colors, depths),
{
}

/// Every valid mode has a place of its own on the ring, and the places are
/// the numbers below the ring's size.
pub proof fn lemma_place_is_one_to_one(a: ViewMode, b: ViewMode, colors: usize, depths: usize)
    requires
        a.valid(colors, depths),
        b.valid(colors, depths),
    ensures
        0 <= a.place(colors) < 1 + colors + depths,
        a.place(colors) == b.place(colors) ==> a == b,
{
}

/// The modes form one ring without branches: while the caches keep their
/// size, a step from a valid mode moves one place forward and wraps from the
/// last place to the game view.
pub proof fn lemma_cycle_is_ring(mode: ViewMode, colors: usize, depths: usize)
    requires
        mode.valid(colors, depths),
    ensures
        mode.successor(colors, depths).place(colors) == (mode.place(colors) + 1) % (1 + colors
            + depths),
{
    let n = 1 + colors + depths;
    let p = mode.place(colors);
    if p + 1 < n {
        assert((p + 1) % n == p + 1) by (nonlinear_arith)
            requires
                0 <= p + 1 < n,
        ;
    } else {
        assert((p + 1) % n == 0) by (nonlinear_arith)
            requires
                p + 1 == n,
                n > 0,
        ;
    }
}

} // verus!
