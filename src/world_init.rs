//! Window bookkeeping: the latest size reported by resize events, and the exit request.
use vstd::prelude::*;
use crate::win_info::WinInfo;

verus! {

/// The window systems.
pub struct WorldInitPlugin;

impl WorldInitPlugin {
    /// Whether the application should exit: exactly when the exit key is held.
    pub fn app_exit_listener(exit_pressed: bool) -> (r: bool)
        ensures
            r == exit_pressed,
    {
        exit_pressed
    }

    /// Applies the resize events of a frame in order: the last one gives the window size;
    /// with none, the size is kept.
    pub fn resize_listener(win_info: &mut WinInfo, events: &Vec<WinInfo>)
        ensures
            events@.len() == 0 ==> *final(win_info) == *old(win_info),
            events@.len() > 0 ==> *final(win_info) == events@.last(),
    {
        let n = events.len();
        let mut i: usize = 0;
        while i < n
            invariant
                n == events@.len(),
                0 <= i <= n,
                i == 0 ==> *win_info == *old(win_info),
                i > 0 ==> *win_info == events@[i - 1],
            decreases n - i,
        {
            *win_info = events[i];
            i += 1;
        }
    }
}

} // verus!
