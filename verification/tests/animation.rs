use webgame::animation::{Animated, AnimationTable, Entity, State};

fn game_table() -> AnimationTable {
    AnimationTable::game_animations(&[10, 11, 12], &[20, 21, 22, 23])
}

fn frames_shown(a: &mut Animated, n: usize) -> Vec<u32> {
    let mut shown = vec![a.tile()];
    for _ in 0..n {
        a.update(1);
        shown.push(a.tile());
    }
    shown
}

#[test]
fn empty_table_has_nothing() {
    let t = AnimationTable::new();
    assert!(t.get(Entity::Character, State::Walking).is_none());
    assert!(t.get(Entity::Character, State::Running).is_none());
    assert!(t.get(Entity::Monster, State::Walking).is_none());
    assert!(t.get(Entity::Monster, State::Running).is_none());
}

#[test]
fn insert_animation_keeps_order() {
    let mut t = AnimationTable::new();
    t.insert_animation(Entity::Monster, State::Running, &[3, 1, 2]);
    assert_eq!(t.get(Entity::Monster, State::Running), Some(&vec![3, 1, 2]));
    assert!(t.get(Entity::Monster, State::Walking).is_none());
}

#[test]
fn insert_transition_reverses() {
    let mut t = AnimationTable::new();
    t.insert_transition(Entity::Monster, State::Walking, &[3, 1, 2]);
    assert_eq!(t.get(Entity::Monster, State::Walking), Some(&vec![2, 1, 3]));
}

#[test]
fn insert_replaces_previous_entry() {
    let mut t = AnimationTable::new();
    t.insert_animation(Entity::Character, State::Walking, &[1, 2]);
    t.insert_animation(Entity::Character, State::Walking, &[5]);
    assert_eq!(t.get(Entity::Character, State::Walking), Some(&vec![5]));
}

#[test]
fn game_animations_content() {
    let t = game_table();
    assert_eq!(t.get(Entity::Character, State::Walking), Some(&vec![10, 11, 12]));
    assert_eq!(t.get(Entity::Character, State::Running), Some(&vec![23, 22, 21, 20]));
    assert!(t.get(Entity::Monster, State::Walking).is_none());
    assert!(t.get(Entity::Monster, State::Running).is_none());
}

#[test]
fn new_shows_first_tile() {
    let t = game_table();
    let a = Animated::new(&t, Entity::Character, State::Walking);
    assert_eq!(a.tile(), 10);
}

#[test]
fn loop_wraps_around() {
    let t = game_table();
    let mut a = Animated::new(&t, Entity::Character, State::Walking);
    assert_eq!(frames_shown(&mut a, 7), vec![10, 11, 12, 10, 11, 12, 10, 11]);
}

#[test]
fn update_zero_frames_changes_nothing() {
    let t = game_table();
    let mut a = Animated::new(&t, Entity::Character, State::Walking);
    a.update(1);
    a.update(0);
    assert_eq!(a.tile(), 11);
}

#[test]
fn update_adds_up() {
    let t = game_table();
    let mut a = Animated::new(&t, Entity::Character, State::Walking);
    let mut b = Animated::new(&t, Entity::Character, State::Walking);
    a.set_transition(&t, State::Running);
    b.set_transition(&t, State::Running);
    a.update(2);
    a.update(3);
    b.update(5);
    assert_eq!(a.tile(), b.tile());
    assert_eq!(frames_shown(&mut a, 4), frames_shown(&mut b, 4));
}

#[test]
fn loop_period_is_its_length() {
    let t = game_table();
    let mut a = Animated::new(&t, Entity::Character, State::Walking);
    a.update(2);
    let before = a.tile();
    a.update(3);
    assert_eq!(a.tile(), before);
}

#[test]
fn transition_plays_in_order_then_loop_resumes() {
    let t = game_table();
    let mut a = Animated::new(&t, Entity::Character, State::Walking);
    a.update(1);
    a.set_transition(&t, State::Running);
    assert_eq!(frames_shown(&mut a, 6), vec![20, 21, 22, 23, 11, 12, 10]);
}

#[test]
fn set_transition_replaces_pending_one() {
    let t = game_table();
    let mut a = Animated::new(&t, Entity::Character, State::Walking);
    a.set_transition(&t, State::Running);
    a.update(2);
    a.set_transition(&t, State::Running);
    assert_eq!(frames_shown(&mut a, 4), vec![20, 21, 22, 23, 10]);
}

#[test]
fn set_state_restarts_loop_and_keeps_transition() {
    let mut t = AnimationTable::new();
    t.insert_animation(Entity::Monster, State::Walking, &[1, 2, 3]);
    t.insert_animation(Entity::Monster, State::Running, &[30, 31]);
    let mut a = Animated::new(&t, Entity::Monster, State::Walking);
    a.update(2);
    assert_eq!(a.tile(), 3);
    a.set_transition(&t, State::Running);
    a.set_state(&t, State::Running);
    assert_eq!(frames_shown(&mut a, 4), vec![31, 30, 30, 31, 30]);
}

#[test]
fn transition_over_empty_loop() {
    let mut t = AnimationTable::new();
    t.insert_animation(Entity::Monster, State::Walking, &[]);
    t.insert_transition(Entity::Monster, State::Running, &[5, 6, 7]);
    let mut a = Animated::new(&t, Entity::Monster, State::Walking);
    a.set_transition(&t, State::Running);
    assert_eq!(a.tile(), 5);
    a.update(2);
    assert_eq!(a.tile(), 7);
    a.update(1);
}

#[test]
fn single_tile_loop_stays() {
    let mut t = AnimationTable::new();
    t.insert_animation(Entity::Monster, State::Running, &[9]);
    let mut a = Animated::new(&t, Entity::Monster, State::Running);
    assert_eq!(frames_shown(&mut a, 3), vec![9, 9, 9, 9]);
}

#[test]
fn has_tile_and_can_advance() {
    let mut t = AnimationTable::new();
    t.insert_animation(Entity::Monster, State::Walking, &[]);
    t.insert_transition(Entity::Monster, State::Running, &[5, 6]);
    let mut a = Animated::new(&t, Entity::Monster, State::Walking);
    assert!(!a.has_tile());
    assert!(a.can_advance(0));
    assert!(!a.can_advance(1));
    a.set_transition(&t, State::Running);
    assert!(a.has_tile());
    assert!(a.can_advance(2));
    assert!(!a.can_advance(3));
    let g = game_table();
    let b = Animated::new(&g, Entity::Character, State::Walking);
    assert!(b.has_tile());
    assert!(b.can_advance(1000));
}
