use vstd::prelude::*;

verus! {

/// Coarse classification of a competitor's action state, as computed by the
/// recording parser's classifier.
#[derive(Clone, Copy, Debug, PartialEq, Eq, Structural)]
pub enum BroadState {
    Hitstun,
    Ground,
    Attack,
    GenericInactionable,
    Dead,
    Special,
    /// Any other state in which the competitor can act.
    OtherActionable,
    /// Any other state in which the competitor cannot act.
    OtherInactionable,
}

/// One competitor's facts at one timestep.
#[derive(Clone, Copy, Debug, PartialEq, Eq, Structural)]
pub struct Frame {
    /// Identifier of the fighter controlled on this frame.
    pub character: u8,
    pub state: BroadState,
    /// Whether the action state is one of the two grab actions.
    pub grab: bool,
    /// Index within the current action's animation, in hundredths of a frame.
    pub anim_frame: u32,
    /// Accumulated damage, in hundredths of a percent.
    pub percent: u32,
}

/// One animation frame, in the unit of `Frame::anim_frame`.
pub const ANIM_FRAME_UNIT: u32 = 100;

/// One percent of damage, in the unit of `Frame::percent`.
pub const PERCENT_UNIT: u32 = 100;

impl BroadState {
    /// The defender is being hit, lies on the ground, or attacks: the states
    /// that mark the end of the last hit.
    pub open spec fn spec_is_hit(self) -> bool {
        self is Hitstun || self is Ground || self is Attack
    }

    /// The defender could have escaped: it attacks, acts, is in a special
    /// state, or is inactionable for a reason other than being hit.
    pub open spec fn spec_defender_free(self) -> bool {
        self is Attack || self is GenericInactionable || self is Special || self is OtherActionable
    }

    /// The attacker commits to an action that counts toward the combo.
    pub open spec fn spec_is_offensive(self) -> bool {
        self is Attack || self is Special
    }

    pub fn is_hit(&self) -> (r: bool)
        ensures
            r == self.spec_is_hit(),
    {
        match self {
            BroadState::Hitstun | BroadState::Ground | BroadState::Attack => true,
            _ => false,
        }
    }

    pub fn defender_free(&self) -> (r: bool)
        ensures
            r == self.spec_defender_free(),
    {
        match self {
            BroadState::Attack
            | BroadState::GenericInactionable
            | BroadState::Special
            | BroadState::OtherActionable => true,
            _ => false,
        }
    }

    pub fn is_offensive(&self) -> (r: bool)
        ensures
            r == self.spec_is_offensive(),
    {
        match self {
            BroadState::Attack | BroadState::Special => true,
            _ => false,
        }
    }

    pub fn is_hitstun(&self) -> (r: bool)
        ensures
            r == (*self is Hitstun),
    {
        match self {
            BroadState::Hitstun => true,
            _ => false,
        }
    }

    pub fn is_dead(&self) -> (r: bool)
        ensures
            r == (*self is Dead),
    {
        match self {
            BroadState::Dead => true,
            _ => false,
        }
    }
}

} // verus!
