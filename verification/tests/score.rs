use hex_fps::input::{movement_intent, MoveKeys};
use hex_fps::score::Scoreboard;
use hex_fps::shootable::Shootable;

#[test]
fn scoreboard_counts_shots_and_hits() {
    let mut board = Scoreboard::new();
    assert_eq!((board.score(), board.shots(), board.hits(), board.pending_respawns()), (0, 0, 0, 0));
    board.record_shot(true);
    board.record_shot(false);
    board.record_shot(true);
    assert_eq!(board.score(), 200);
    assert_eq!(board.shots(), 3);
    assert_eq!(board.hits(), 2);
    assert_eq!(board.pending_respawns(), 2);
    board.take_respawn();
    assert_eq!(board.pending_respawns(), 1);
    assert_eq!(board.score(), 200);
}

#[test]
fn score_is_one_hundred_per_hit() {
    let mut board = Scoreboard::new();
    for i in 0..1000u32 {
        board.record_shot(i % 3 == 0);
        assert_eq!(board.score(), 100 * board.hits());
        assert!(board.hits() <= board.shots());
        assert!(board.pending_respawns() <= board.hits());
    }
    assert_eq!(board.hits(), 334);
}

fn keys(forward: bool, back: bool, left: bool, right: bool) -> MoveKeys {
    MoveKeys { forward, back, left, right, sprint_left: false, sprint_right: false, jump: false }
}

#[test]
fn opposite_keys_cancel() {
    let i = movement_intent(keys(true, true, false, false));
    assert_eq!((i.forward, i.strafe, i.moving), (0, 0, false));
    let i = movement_intent(keys(true, true, true, true));
    assert!(!i.moving);
    let i = movement_intent(keys(true, false, true, true));
    assert_eq!((i.forward, i.strafe, i.moving), (1, 0, true));
    let i = movement_intent(keys(false, true, true, false));
    assert_eq!((i.forward, i.strafe, i.moving), (-1, -1, true));
    let i = movement_intent(keys(false, false, false, true));
    assert_eq!((i.forward, i.strafe, i.moving), (0, 1, true));
}

#[test]
fn sprint_and_jump() {
    let mut k = keys(true, false, false, false);
    assert!(!movement_intent(k).sprint);
    k.sprint_right = true;
    assert!(movement_intent(k).sprint);
    k.sprint_right = false;
    k.sprint_left = true;
    k.jump = true;
    let i = movement_intent(k);
    assert!(i.sprint && i.jump);
}

#[test]
fn struck_collider_is_no_longer_shootable() {
    let mut s = Shootable::new();
    assert!(!s.is_shootable(3, 1));
    s.register(3, 1);
    s.register(4, 1);
    assert!(s.is_shootable(3, 1));
    assert!(!s.is_shootable(3, 2));
    assert!(!s.is_shootable(1, 3));
    s.retire(3, 1);
    assert!(!s.is_shootable(3, 1));
    assert!(s.is_shootable(4, 1));
    s.retire(4, 1);
    s.retire(4, 1);
    assert!(!s.is_shootable(4, 1));
}
