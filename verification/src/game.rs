use vstd::prelude::*;

use crate::utils::{dialogue_pages, split_dialogue};

verus! {

/// What the main menu asks for.
#[derive(Debug, PartialEq, Eq, Structural)]
pub enum AppState {
    Play,
    Quit,
}

/// The number of frames during which no dialogue opens after one closes.
pub const CLOSE_COOLDOWN: u32 = 30;

/// The dialogue on screen, page by page, and the pause that follows it.
#[derive(Debug)]
pub struct DialogueState {
    pub pages: Vec<String>,
    pub current_page: usize,
    pub close_cooldown: u32,
}

impl DialogueState {
    /// No dialogue, no pause.
    pub fn new() -> (d: DialogueState)
        ensures
            d.pages@.len() == 0,
            d.current_page == 0,
            d.close_cooldown == 0,
    {
        DialogueState { pages: Vec::new(), current_page: 0, close_cooldown: 0 }
    }

    /// A dialogue is on screen while it has pages.
    pub fn is_active(&self) -> (b: bool)
        ensures
            b == (self.pages@.len() > 0),
    {
        !self.pages.is_empty()
    }

    /// Closes the dialogue and starts the pause before the next one.
    pub fn close(&mut self)
        ensures
            final(self).pages@.len() == 0,
            final(self).current_page == 0,
            final(self).close_cooldown == CLOSE_COOLDOWN,
    {
        self.pages.clear();
        self.current_page = 0;
        self.close_cooldown = 30;
    }

    /// One frame of the pause goes by.
    pub fn tick_cooldown(&mut self)
        ensures
            final(self).pages@ == old(self).pages@,
            final(self).current_page == old(self).current_page,
            final(self).close_cooldown == (if old(self).close_cooldown > 0 {
                old(self).close_cooldown - 1
            } else {
                0
            }),
    {
        if self.close_cooldown > 0 {
            self.close_cooldown -= 1;
        }
    }

    /// A dialogue may open once the pause is over.
    pub fn can_open(&self) -> (b: bool)
        ensures
            b == (self.close_cooldown == 0),
    {
        self.close_cooldown == 0
    }

    /// Shows the pages of `text` (see [`dialogue_pages`]) from the first one.
    pub fn open(&mut self, text: &str)
        ensures
            final(self).pages@.map_values(|p: String| p@) == dialogue_pages(text@),
            final(self).current_page == 0,
            final(self).close_cooldown == old(self).close_cooldown,
    {
        self.pages = split_dialogue(text);
        self.current_page = 0;
    }

    /// Goes to the next page; after the last page the dialogue closes. Returns whether it closed.
    pub fn advance(&mut self) -> (closed: bool)
        requires
            old(self).current_page < usize::MAX,
        ensures
            closed == (old(self).current_page + 1 >= old(self).pages@.len()),
            closed ==> final(self).pages@.len() == 0 && final(self).current_page == 0
                && final(self).close_cooldown == CLOSE_COOLDOWN,
            !closed ==> final(self).pages@ == old(self).pages@ && final(self).current_page
                == old(self).current_page + 1 && final(self).close_cooldown == old(
                self,
            ).close_cooldown,
    {
        self.current_page += 1;
        if self.current_page >= self.pages.len() {
            self.close();
            true
        } else {
            false
        }
    }
}

/// The pause left after `n` frames, from a pause of `c` frames: the value of `close_cooldown`
/// after `n` calls of [`DialogueState::tick_cooldown`], each of which takes one step of this
/// recursion (its `ensures`).
pub open spec fn cooldown_after(c: u32, n: nat) -> u32
    decreases n,
{
    if n == 0 {
        c
    } else if cooldown_after(c, (n - 1) as nat) > 0 {
        (cooldown_after(c, (n - 1) as nat) - 1) as u32
    } else {
        0
    }
}

/// Law: after a dialogue closes, no dialogue can open during the next 29 frames, and one
/// can from the 30th frame on (each frame calls `tick_cooldown` once): after any number `n`
/// of frames, a dialogue can open (the pause is 0) exactly when `n >= 30`.
pub proof fn law_reopen_after_cooldown(n: nat)
    ensures
        (cooldown_after(CLOSE_COOLDOWN, n) == 0) == (n >= CLOSE_COOLDOWN),
        n < CLOSE_COOLDOWN ==> cooldown_after(CLOSE_COOLDOWN, n) == CLOSE_COOLDOWN - n,
        n >= CLOSE_COOLDOWN ==> cooldown_after(CLOSE_COOLDOWN, n) == 0,
    decreases n,
{
    if n > 0 {
        law_reopen_after_cooldown((n - 1) as nat);
    }
}

} // verus!
