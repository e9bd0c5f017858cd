use vstd::prelude::*;

verus! {

/// The phases of a screen transition.
#[derive(Debug, Clone, Copy, PartialEq, Eq, Structural)]
pub enum TransitionPhase {
    /// No transition.
    Idle,
    /// The screen closes (the current map is still shown).
    FadeOut,
    /// The screen stays black.
    BlackPause,
    /// The screen opens on the new map.
    FadeIn,
}

/// Where a transition leads: (target map, target entry).
pub type Target = (String, String);

/// The value of a target.
pub open spec fn target_view(t: Target) -> (Seq<char>, Seq<char>) {
    (t.0@, t.1@)
}

pub open spec fn opt_target_view(t: Option<Target>) -> Option<(Seq<char>, Seq<char>)> {
    match t {
        Some(x) => Some(target_view(x)),
        None => None,
    }
}

/// The phases of a screen transition and the target it carries until the screen is black.
///
/// The target is held exactly while the screen closes: it is handed out, once, when the
/// closing phase ends.
pub struct TransitionState {
    phase: TransitionPhase,
    pending: Option<Target>,
}

/// The phase that follows `p` when it has run its length; `with_pause` tells whether a black
/// pause comes between closing and opening.
pub open spec fn next_phase(p: TransitionPhase, with_pause: bool) -> TransitionPhase {
    match p {
        TransitionPhase::Idle => TransitionPhase::Idle,
        TransitionPhase::FadeOut => if with_pause {
            TransitionPhase::BlackPause
        } else {
            TransitionPhase::FadeIn
        },
        TransitionPhase::BlackPause => TransitionPhase::FadeIn,
        TransitionPhase::FadeIn => TransitionPhase::Idle,
    }
}

impl TransitionState {
    #[verifier::type_invariant]
    spec fn holds_target_while_closing(self) -> bool {
        (self.phase == TransitionPhase::FadeOut) == (self.pending is Some)
    }

    pub closed spec fn spec_phase(&self) -> TransitionPhase {
        self.phase
    }

    pub closed spec fn spec_pending(&self) -> Option<(Seq<char>, Seq<char>)> {
        opt_target_view(self.pending)
    }

    /// The target is held exactly while the screen closes.
    pub open spec fn holds_target_exactly_while_closing(&self) -> bool {
        (self.spec_phase() == TransitionPhase::FadeOut) == (self.spec_pending() is Some)
    }

    /// No transition under way.
    pub fn new() -> (t: TransitionState)
        ensures
            t.spec_phase() == TransitionPhase::Idle,
            t.spec_pending() is None,
            t.holds_target_exactly_while_closing(),
    {
        TransitionState { phase: TransitionPhase::Idle, pending: None }
    }

    pub fn phase(&self) -> (p: TransitionPhase)
        ensures
            p == self.spec_phase(),
    {
        self.phase
    }

    pub fn is_active(&self) -> (b: bool)
        ensures
            b == (self.spec_phase() != TransitionPhase::Idle),
    {
        self.phase != TransitionPhase::Idle
    }

    /// Starts closing the screen towards `(target_map, target_entry)`; a transition already
    /// under way is left as it is.
    pub fn start(&mut self, target_map: String, target_entry: String) -> (started: bool)
        ensures
            started == (old(self).spec_phase() == TransitionPhase::Idle),
            started ==> final(self).spec_phase() == TransitionPhase::FadeOut && final(self).spec_pending() == Some((target_map@, target_entry@)),
            !started ==> final(self).spec_phase() == old(self).spec_phase() && final(self).spec_pending() == old(self).spec_pending(),
            final(self).holds_target_exactly_while_closing(),
    {
        proof {
            use_type_invariant(&*self);
        }
        if self.phase != TransitionPhase::Idle {
            return false;
        }
        *self = TransitionState { phase: TransitionPhase::FadeOut, pending: Some((target_map, target_entry)) };
        true
    }

    /// The current phase has run its length. When the closing phase ends, the target is
    /// handed out; at any other time nothing is.
    pub fn phase_done(&mut self, with_pause: bool) -> (target: Option<Target>)
        ensures
            final(self).spec_phase() == next_phase(old(self).spec_phase(), with_pause),
            opt_target_view(target) == old(self).spec_pending(),
            final(self).spec_pending() is None || final(self).spec_pending() == old(self).spec_pending(),
            old(self).spec_phase() != TransitionPhase::FadeOut ==> final(self).spec_pending()
                == old(self).spec_pending(),
            old(self).spec_phase() == TransitionPhase::FadeOut ==> final(self).spec_pending() is None,
            final(self).holds_target_exactly_while_closing(),
    {
        proof {
            use_type_invariant(&*self);
        }
        match self.phase {
            TransitionPhase::Idle => None,
            TransitionPhase::FadeOut => {
                let next = if with_pause {
                    TransitionPhase::BlackPause
                } else {
                    TransitionPhase::FadeIn
                };
                let mut old_state = TransitionState { phase: next, pending: None };
                std::mem::swap(self, &mut old_state);
                proof {
                    use_type_invariant(&old_state);
                }
                old_state.pending
            },
            TransitionPhase::BlackPause => {
                self.phase = TransitionPhase::FadeIn;
                None
            },
            TransitionPhase::FadeIn => {
                self.phase = TransitionPhase::Idle;
                None
            },
        }
    }
}

/// The targets that a transition hands out over successive ends of phases, from the phase
/// `phase` holding `pending`, with the pause choices `pauses` (as `phase_done` states it).
pub open spec fn handed_out(
    phase: TransitionPhase,
    pending: Option<(Seq<char>, Seq<char>)>,
    pauses: Seq<bool>,
) -> Seq<Option<(Seq<char>, Seq<char>)>>
    decreases pauses.len(),
{
    if pauses.len() == 0 {
        Seq::empty()
    } else {
        let next_pending = if phase == TransitionPhase::FadeOut {
            None
        } else {
            pending
        };
        seq![pending] + handed_out(next_phase(phase, pauses[0]), next_pending, pauses.drop_first())
    }
}

/// Law: a started transition hands its target out exactly once, when its closing phase ends;
/// no later end of phase hands anything out (until a new transition starts).
pub proof fn law_target_handed_out_once(target: (Seq<char>, Seq<char>), pauses: Seq<bool>)
    requires
        pauses.len() >= 1,
    ensures
        handed_out(TransitionPhase::FadeOut, Some(target), pauses)[0] == Some(target),
        forall|i: int|
            1 <= i < pauses.len() ==> #[trigger] handed_out(TransitionPhase::FadeOut, Some(target), pauses)[i] is None,
{
    let rest = pauses.drop_first();
    let p1 = next_phase(TransitionPhase::FadeOut, pauses[0]);
    lemma_nothing_after_closing(p1, rest);
    assert forall|i: int| 1 <= i < pauses.len() implies #[trigger] handed_out(TransitionPhase::FadeOut, Some(target), pauses)[i] is None by {
        assert(handed_out(TransitionPhase::FadeOut, Some(target), pauses)[i] == handed_out(p1, None, rest)[i - 1]);
    }
}

/// Once the closing phase is over, no end of phase hands anything out.
proof fn lemma_nothing_after_closing(phase: TransitionPhase, pauses: Seq<bool>)
    requires
        phase != TransitionPhase::FadeOut,
    ensures
        handed_out(phase, None, pauses).len() == pauses.len(),
        forall|i: int| 0 <= i < pauses.len() ==> #[trigger] handed_out(phase, None, pauses)[i] is None,
    decreases pauses.len(),
{
    if pauses.len() > 0 {
        let rest = pauses.drop_first();
        let p1 = next_phase(phase, pauses[0]);
        lemma_nothing_after_closing(p1, rest);
        assert forall|i: int| 0 <= i < pauses.len() implies #[trigger] handed_out(phase, None, pauses)[i] is None by {
            if i > 0 {
                assert(handed_out(phase, None, pauses)[i] == handed_out(p1, None, rest)[i - 1]);
            }
        }
    }
}

/// Law: a fade (no black pause) comes back to rest after two ends of phase, an iris (with
/// the black pause) after three; from rest, ends of phase change nothing.
pub proof fn law_transition_cycle()
    ensures
        next_phase(next_phase(TransitionPhase::FadeOut, false), false) == TransitionPhase::Idle,
        next_phase(next_phase(next_phase(TransitionPhase::FadeOut, true), true), true) == TransitionPhase::Idle,
        forall|p: bool| next_phase(TransitionPhase::Idle, p) == TransitionPhase::Idle,
{
}

} // verus!
