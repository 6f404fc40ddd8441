//! The island window's geometry: how large the window is, where it goes to be
//! centred on its monitor, and the window level that keeps it above
//! full-screen apps.
use vstd::prelude::*;
use vstd::string::*;

verus! {

broadcast use vstd::string::group_string_axioms;

/// What the expanded island shows.
#[derive(Clone, Copy, Debug, PartialEq, Eq, Structural)]
pub enum ExpandedView {
    List,
    Detail,
    Empty,
}

pub open spec fn view_named(value: Seq<char>) -> ExpandedView {
    if value == "detail"@ {
        ExpandedView::Detail
    } else if value == "empty"@ {
        ExpandedView::Empty
    } else {
        ExpandedView::List
    }
}

impl ExpandedView {
    /// The view the front end names: `detail`, `empty`, or else the list.
    pub fn from_wire(value: &str) -> (r: Self)
        ensures
            r == view_named(value@),
    {
        if crate::text::str_eq(value, "detail") {
            ExpandedView::Detail
        } else if crate::text::str_eq(value, "empty") {
            ExpandedView::Empty
        } else {
            ExpandedView::List
        }
    }
}

pub const COLLAPSED_HEIGHT: u32 = 88;
pub const LIST_BASE_HEIGHT: u32 = 108;
pub const LIST_ROW_HEIGHT: u32 = 72;
pub const LIST_ROW_GAP: u32 = 12;
pub const DETAIL_HEIGHT: u32 = 300;
pub const EMPTY_HEIGHT: u32 = 280;
pub const LIST_MAX_HEIGHT: u32 = 360;

/// The rows the list makes room for: at least one, counted in 32 bits.
pub open spec fn list_rows(session_count: usize) -> nat {
    (if session_count > 1 {
        session_count as nat
    } else {
        1nat
    }) % 0x1_0000_0000
}

/// The list's natural height for `rows` rows: a base, each row, and a gap
/// between rows.
pub open spec fn list_natural_height(rows: nat) -> int {
    LIST_BASE_HEIGHT + rows * LIST_ROW_HEIGHT + (if rows > 0 { rows - 1 } else { 0 }) * LIST_ROW_GAP
}

/// The expanded island's height: fixed for the detail and empty views; for
/// the list, its natural height up to a maximum.
pub open spec fn height_of(view: ExpandedView, session_count: usize) -> int {
    match view {
        ExpandedView::Detail => DETAIL_HEIGHT as int,
        ExpandedView::Empty => EMPTY_HEIGHT as int,
        ExpandedView::List => {
            let h = list_natural_height(list_rows(session_count));
            if h < LIST_MAX_HEIGHT {
                h
            } else {
                LIST_MAX_HEIGHT as int
            }
        },
    }
}

/// The expanded island's height for `session_count` sessions.
pub fn expanded_height(expanded_view: ExpandedView, session_count: usize) -> (r: u32)
    requires
        expanded_view == ExpandedView::List ==> list_natural_height(list_rows(session_count))
            <= u32::MAX,
    ensures
        r == height_of(expanded_view, session_count),
{
    match expanded_view {
        ExpandedView::Detail => DETAIL_HEIGHT,
        ExpandedView::Empty => EMPTY_HEIGHT,
        ExpandedView::List => {
            let count: usize = if session_count > 1 {
                session_count
            } else {
                1
            };
            let rows: u32 = (count as u64 % 0x1_0000_0000) as u32;
            let gaps: u32 = if rows > 0 {
                (rows - 1) * LIST_ROW_GAP
            } else {
                0
            };
            let h = LIST_BASE_HEIGHT + rows * LIST_ROW_HEIGHT + gaps;
            if h < LIST_MAX_HEIGHT {
                h
            } else {
                LIST_MAX_HEIGHT
            }
        },
    }
}

/// The expanded island never grows past the list's maximum height.
pub proof fn lemma_expanded_height_bounded(view: ExpandedView, session_count: usize)
    ensures
        height_of(view, session_count) <= LIST_MAX_HEIGHT,
{
}

/// More sessions never make the list shorter (while the count fits 32 bits).
pub proof fn lemma_list_height_monotone(a: usize, b: usize)
    requires
        a <= b,
        b < 0x1_0000_0000,
    ensures
        height_of(ExpandedView::List, a) <= height_of(ExpandedView::List, b),
{
    assert(list_rows(a) <= list_rows(b));
    let ra = list_rows(a);
    let rb = list_rows(b);
    assert(ra >= 1 && rb >= 1);
    assert(list_natural_height(ra) <= list_natural_height(rb)) by (nonlinear_arith)
        requires
            1 <= ra <= rb,
            list_natural_height(ra) == 108 + ra * 72 + (ra - 1) * 12,
            list_natural_height(rb) == 108 + rb * 72 + (rb - 1) * 12,
    ;
}

/// The window level that keeps the island above status items, screen savers
/// and the shielding window of full-screen apps.
pub open spec fn overlay_level(status: isize, screensaver: isize, shielding: isize) -> int {
    let m = if status >= screensaver {
        status as int
    } else {
        screensaver as int
    };
    if m >= shielding + 1 {
        m
    } else {
        shielding + 1
    }
}

pub fn fullscreen_overlay_level(status_level: isize, screensaver_level: isize, shielding_level: isize) -> (r:
    isize)
    requires
        shielding_level < isize::MAX,
    ensures
        r == overlay_level(status_level, screensaver_level, shielding_level),
{
    let m = if status_level >= screensaver_level {
        status_level
    } else {
        screensaver_level
    };
    let above = shielding_level + 1;
    if m >= above {
        m
    } else {
        above
    }
}

/// The overlay level is at least each level it is chosen over, and above the
/// shielding window.
pub proof fn lemma_overlay_level_dominates(status: isize, screensaver: isize, shielding: isize)
    requires
        shielding < isize::MAX,
    ensures
        overlay_level(status, screensaver, shielding) >= status,
        overlay_level(status, screensaver, shielding) >= screensaver,
        overlay_level(status, screensaver, shielding) > shielding,
{
}

/// The island stays an ordinary window; it is never made a panel.
pub fn should_promote_window_to_panel() -> (r: bool)
    ensures
        !r,
{
    false
}

/// The window's width when expanded and when collapsed, where the window is
/// placed by the host rather than by the AppKit panel.
pub const EXPANDED_WINDOW_WIDTH: u32 = 620;
pub const COLLAPSED_WINDOW_WIDTH: u32 = 420;

/// The window's width and height: wide and as tall as the expanded view when
/// expanded, else narrow and collapsed.
pub open spec fn window_size_of(expanded: bool, view: ExpandedView, session_count: usize) -> (int, int) {
    if expanded {
        (EXPANDED_WINDOW_WIDTH as int, height_of(view, session_count))
    } else {
        (COLLAPSED_WINDOW_WIDTH as int, COLLAPSED_HEIGHT as int)
    }
}

/// The window's size for the island's state.
pub fn window_size(expanded: bool, expanded_view: ExpandedView, session_count: usize) -> (r: (u32, u32))
    requires
        expanded && expanded_view == ExpandedView::List ==> list_natural_height(list_rows(session_count))
            <= u32::MAX,
    ensures
        r.0 == window_size_of(expanded, expanded_view, session_count).0,
        r.1 == window_size_of(expanded, expanded_view, session_count).1,
{
    if expanded {
        (EXPANDED_WINDOW_WIDTH, expanded_height(expanded_view, session_count))
    } else {
        (COLLAPSED_WINDOW_WIDTH, COLLAPSED_HEIGHT)
    }
}

/// A width read as a 32-bit signed number (`as i32`).
pub open spec fn signed_width(w: u32) -> int {
    if w <= 0x7fff_ffff {
        w as int
    } else {
        w - 0x1_0000_0000
    }
}

/// Half of `d`, rounded toward zero (integer division by two).
pub open spec fn half_toward_zero(d: int) -> int {
    if d >= 0 {
        d / 2
    } else {
        -((-d) / 2)
    }
}

/// The left edge that centres a window of `width` on a monitor that starts at
/// `monitor_x` and is `monitor_width` wide.
pub open spec fn centred_x(monitor_x: i32, monitor_width: u32, width: u32) -> int {
    monitor_x + half_toward_zero(signed_width(monitor_width) - signed_width(width))
}

/// Where the window's left edge goes to centre it on the monitor.
pub fn island_x(monitor_x: i32, monitor_width: u32, width: u32) -> (r: i32)
    requires
        i32::MIN <= signed_width(monitor_width) - signed_width(width) <= i32::MAX,
        i32::MIN <= centred_x(monitor_x, monitor_width, width) <= i32::MAX,
    ensures
        r == centred_x(monitor_x, monitor_width, width),
{
    let mw: i64 = if monitor_width <= 0x7fff_ffff {
        monitor_width as i64
    } else {
        monitor_width as i64 - 0x1_0000_0000
    };
    let w: i64 = if width <= 0x7fff_ffff {
        width as i64
    } else {
        width as i64 - 0x1_0000_0000
    };
    let d: i64 = mw - w;
    let half: i64 = if d >= 0 {
        d / 2
    } else {
        -((-d) / 2)
    };
    (monitor_x as i64 + half) as i32
}

} // verus!
