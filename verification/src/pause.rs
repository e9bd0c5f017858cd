use vstd::prelude::*;

use crate::menu::{menu_down, menu_up, spec_menu_down, spec_menu_up, MenuKey};

verus! {

/// What the pause screen leads to.
#[derive(Debug, Clone, Copy, PartialEq, Eq, Structural)]
pub enum PauseResult {
    Resume,
    SaveAndResume,
    MainMenu,
    Quit,
}

/// The number of lines of the pause screen.
pub const PAUSE_ITEMS: usize = 4;

/// The result of picking a line of the pause screen.
pub open spec fn spec_pause_result(line: usize) -> PauseResult {
    if line == 0 {
        PauseResult::Resume
    } else if line == 1 {
        PauseResult::SaveAndResume
    } else if line == 2 {
        PauseResult::MainMenu
    } else {
        PauseResult::Quit
    }
}

pub fn pause_result(line: usize) -> (r: PauseResult)
    ensures
        r == spec_pause_result(line),
{
    match line {
        0 => PauseResult::Resume,
        1 => PauseResult::SaveAndResume,
        2 => PauseResult::MainMenu,
        _ => PauseResult::Quit,
    }
}

/// The pause screen: the line selected, and the line picked during the current frame.
pub struct PauseMenu {
    pub selected: usize,
    pub action: Option<usize>,
}

impl PauseMenu {
    pub fn new() -> (m: PauseMenu)
        ensures
            m.selected == 0,
            m.action is None,
    {
        PauseMenu { selected: 0, action: None }
    }

    /// A key of the frame: closing the window quits and Escape resumes at once; Return picks
    /// the selected line (the last pick of the frame counts); the arrows move.
    pub fn key(&mut self, key: MenuKey) -> (now: Option<PauseResult>)
        ensures
            now == (if key == MenuKey::Close {
                Some(PauseResult::Quit)
            } else if key == MenuKey::Back {
                Some(PauseResult::Resume)
            } else {
                None::<PauseResult>
            }),
            final(self).selected == (if key == MenuKey::Up {
                spec_menu_up(old(self).selected)
            } else if key == MenuKey::Down {
                spec_menu_down(old(self).selected, PAUSE_ITEMS)
            } else {
                old(self).selected
            }),
            final(self).action == (if key == MenuKey::Confirm {
                Some(old(self).selected)
            } else {
                old(self).action
            }),
    {
        match key {
            MenuKey::Close => Some(PauseResult::Quit),
            MenuKey::Back => Some(PauseResult::Resume),
            MenuKey::Up => {
                self.selected = menu_up(self.selected);
                None
            },
            MenuKey::Down => {
                self.selected = menu_down(self.selected, PAUSE_ITEMS);
                None
            },
            MenuKey::Confirm => {
                self.action = Some(self.selected);
                None
            },
            _ => None,
        }
    }

    /// The end of a frame: the result of the line picked during it, if any.
    pub fn end_frame(&mut self) -> (r: Option<PauseResult>)
        ensures
            r == (match old(self).action {
                Some(l) => Some(spec_pause_result(l)),
                None => None::<PauseResult>,
            }),
            final(self).selected == old(self).selected,
            final(self).action is None,
    {
        let r = match self.action {
            Some(l) => Some(pause_result(l)),
            None => None,
        };
        self.action = None;
        r
    }
}

} // verus!
