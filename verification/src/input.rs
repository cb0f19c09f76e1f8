use vstd::prelude::*;

verus! {

/// The movement keys held this frame.
#[derive(Clone, Copy, PartialEq, Eq, Structural, Debug)]
pub struct MoveKeys {
    pub forward: bool,
    pub back: bool,
    pub left: bool,
    pub right: bool,
    pub sprint_left: bool,
    pub sprint_right: bool,
    pub jump: bool,
}

/// What the held keys ask of the player: `forward` and `strafe` are -1, 0
/// or 1 along the view's forward and right axes.
#[derive(Clone, Copy, PartialEq, Eq, Structural, Debug)]
pub struct Intent {
    pub forward: i8,
    pub strafe: i8,
    pub moving: bool,
    pub sprint: bool,
    pub jump: bool,
}

/// `1` for a held key, `0` otherwise.
pub open spec fn held(b: bool) -> int {
    if b { 1 } else { 0 }
}

/// Opposite keys cancel; the player moves when a direction is left over,
/// sprints with either shift key and jumps with the jump key.
pub fn movement_intent(keys: MoveKeys) -> (intent: Intent)
    ensures
        intent.forward == held(keys.forward) - held(keys.back),
        intent.strafe == held(keys.right) - held(keys.left),
        intent.moving == (intent.forward != 0 || intent.strafe != 0),
        intent.sprint == (keys.sprint_left || keys.sprint_right),
        intent.jump == keys.jump,
{
    let mut forward: i8 = 0;
    let mut strafe: i8 = 0;
    if keys.forward {
        forward = forward + 1;
    }
    if keys.back {
        forward = forward - 1;
    }
    if keys.left {
        strafe = strafe - 1;
    }
    if keys.right {
        strafe = strafe + 1;
    }
    Intent {
        forward,
        strafe,
        moving: forward != 0 || strafe != 0,
        sprint: keys.sprint_left || keys.sprint_right,
        jump: keys.jump,
    }
}

} // verus!
