//! Taking a picture of the editor's own window: when to try, and which window
//! is meant.

use vstd::prelude::*;

verus! {

/// Frames that the window gets to settle.
pub const SETTLE_FRAMES: u32 = 30;

/// After this many frames the window will never come.
pub const MAX_FRAMES: u32 = 630;

/// What a frame does about the picture.
#[derive(Debug, Clone, Copy, PartialEq, Eq, Structural)]
pub enum CaptureStep {
    Wait,
    /// Try to take it. A failure is reported now and then.
    Try { report: bool },
    GiveUp,
}

pub open spec fn capture_step_spec(frames: u32) -> CaptureStep {
    if frames < SETTLE_FRAMES {
        CaptureStep::Wait
    } else if frames > MAX_FRAMES {
        CaptureStep::GiveUp
    } else {
        CaptureStep::Try { report: frames % 60 == 0 }
    }
}

/// What the frame with this number does.
pub fn capture_step(frames: u32) -> (r: CaptureStep)
    ensures
        r == capture_step_spec(frames),
{
    if frames < SETTLE_FRAMES {
        CaptureStep::Wait
    } else if frames > MAX_FRAMES {
        CaptureStep::GiveUp
    } else {
        CaptureStep::Try { report: frames % 60 == 0 }
    }
}

/// A window on the screen.
#[derive(Debug, Clone, Copy, PartialEq, Eq, Structural)]
pub struct ScreenWindow {
    pub id: u32,
    pub owner: i32,
    pub width: u32,
    pub height: u32,
}

/// A window of the process `owner` that is no small helper.
pub open spec fn is_own(w: ScreenWindow, owner: i32) -> bool {
    w.owner == owner && w.width >= 400 && w.height >= 300
}

pub open spec fn area(w: ScreenWindow) -> int {
    w.width * w.height
}

/// The first of the largest windows of a process among the first `n`.
pub open spec fn largest_own(windows: Seq<ScreenWindow>, owner: i32, n: int) -> Option<ScreenWindow>
    decreases n,
{
    if n <= 0 {
        None
    } else {
        let best = largest_own(windows, owner, n - 1);
        let w = windows[n - 1];
        if is_own(w, owner) && (best is None || area(w) > area(best->0)) {
            Some(w)
        } else {
            best
        }
    }
}

/// Law: the window that is found belongs to the process, and none that does is
/// larger; one is found wherever there is one.
pub proof fn law_largest_window_found(windows: Seq<ScreenWindow>, owner: i32, n: int)
    requires
        0 <= n <= windows.len(),
    ensures
        match largest_own(windows, owner, n) {
            Some(best) => windows.contains(best) && is_own(best, owner) && (forall|i: int|
                0 <= i < n && is_own(#[trigger] windows[i], owner) ==> area(windows[i]) <= area(
                    best,
                )),
            None => forall|i: int| 0 <= i < n ==> !is_own(#[trigger] windows[i], owner),
        },
    decreases n,
{
    if n > 0 {
        law_largest_window_found(windows, owner, n - 1);
        assert(windows[n - 1] == windows[n - 1]);
    }
}

/// The largest window of a process, by its number.
pub fn own_window_id(windows: &Vec<ScreenWindow>, owner: i32) -> (r: Option<u32>)
    ensures
        r == (match largest_own(windows@, owner, windows.len() as int) {
            Some(w) => Some(w.id),
            None => None,
        }),
{
    let mut best: Option<ScreenWindow> = None;
    let mut i: usize = 0;
    while i < windows.len()
        invariant
            i <= windows.len(),
            best == largest_own(windows@, owner, i as int),
        decreases windows.len() - i,
    {
        let w: ScreenWindow = windows[i];
        if w.owner == owner && w.width >= 400 && w.height >= 300 {
            let larger: bool = match best {
                Some(b) => area_of(w) > area_of(b),
                None => true,
            };
            if larger {
                best = Some(w);
            }
        }
        i += 1;
    }
    match best {
        Some(w) => Some(w.id),
        None => None,
    }
}

fn area_of(w: ScreenWindow) -> (r: u64)
    ensures
        r == area(w),
{
    let width: u64 = w.width as u64;
    let height: u64 = w.height as u64;
    assert(width * height <= 0xffff_ffff * 0xffff_ffff) by (nonlinear_arith)
        requires
            width <= 0xffff_ffff,
            height <= 0xffff_ffff,
    ;
    width * height
}

} // verus!
