use asset::{duration_to_nanos, AnimationController, AnimationSet, SpriteSheet};

fn set() -> AnimationSet {
    AnimationSet::new().with_animation("walk".to_string(), 0..4).with_animation("idle".to_string(), 4..6)
}

fn controller() -> AnimationController {
    AnimationController::new(set(), SpriteSheet { columns: 4, rows: 2 }, 10)
}

#[test]
fn animation_set_lookup() {
    let mut set = set();
    assert_eq!(set.get("walk"), Some(0..4));
    assert_eq!(set.get("idle"), Some(4..6));
    assert_eq!(set.get("run"), None);
    set.add_animation("walk".to_string(), 2..3);
    assert_eq!(set.get("walk"), Some(2..3));
    assert_eq!(set.get("idle"), Some(4..6));
}

#[test]
fn controller_starts_still_on_frame_zero() {
    let mut c = controller();
    assert_eq!(c.frame(), 0);
    c.advance(1_000);
    assert_eq!(c.frame(), 0);
}

#[test]
fn frames_follow_elapsed_time() {
    let mut c = controller();
    c.play("walk", None, None);
    assert_eq!(c.frame(), 0);
    c.advance(25);
    assert_eq!(c.frame(), 2);
    c.advance(20);
    assert_eq!(c.frame(), 0);
}

#[test]
fn next_animation_follows_spent_repetitions() {
    let mut c = controller();
    c.play("walk", Some(1), Some(("idle".to_string(), None)));
    c.advance(25);
    assert_eq!(c.frame(), 2);
    c.advance(20);
    assert_eq!(c.frame(), 4);
    c.advance(35);
    assert_eq!(c.frame(), 5);
}

#[test]
fn last_frame_stays_without_next() {
    let mut c = controller();
    c.play("walk", Some(0), None);
    c.advance(40);
    assert_eq!(c.frame(), 3);
    c.advance(1_000);
    assert_eq!(c.frame(), 3);
}

#[test]
fn leftover_time_plays_in_the_next_animation() {
    let mut c = controller();
    c.play("walk", Some(1), Some(("idle".to_string(), Some(5))));
    c.advance(95);
    assert_eq!(c.frame(), 8);
}

#[test]
fn repetitions_count_down_by_laps() {
    let mut c = controller();
    c.play("walk", Some(3), None);
    c.advance(50);
    assert_eq!(c.frame(), 5);
}

#[test]
fn sheet_cells_run_row_by_row() {
    let sheet = SpriteSheet { columns: 4, rows: 2 };
    assert_eq!(sheet.cell(0), (0, 0));
    assert_eq!(sheet.cell(3), (3, 0));
    assert_eq!(sheet.cell(6), (2, 1));
    assert_eq!(controller().sheet().columns, 4);
}

#[test]
fn durations_become_nanoseconds() {
    assert_eq!(duration_to_nanos(0, 0), 0);
    assert_eq!(duration_to_nanos(2, 500), 2_000_000_500);
}

#[test]
fn play_accepts_a_successor_outside_the_set() {
    let mut c = controller();
    c.play("idle", None, Some(("run".to_string(), None)));
    assert_eq!(c.frame(), 4);
}
