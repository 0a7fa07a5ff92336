use locomotion::{Player, PlayerRegistry, Vec3};

#[test]
fn default_player_is_at_rest() {
    let player = Player::default();
    assert_eq!(player.walk_velocity(), Vec3::zero());
    assert!(!player.jump());
}

#[test]
fn new_keeps_what_it_is_given() {
    let player = Player::new(Vec3::new(-3, 0, 4), true).expect("slow and level");
    assert_eq!(player.walk_velocity(), Vec3::new(-3, 0, 4));
    assert!(player.jump());
}

#[test]
fn new_accepts_top_speed_and_no_more() {
    assert!(Player::new(Vec3::new(2_000_000, 0, 0), false).is_some());
    assert!(Player::new(Vec3::new(0, 0, -2_000_000), false).is_some());
    assert!(Player::new(Vec3::new(1_200_000, 0, 1_600_000), false).is_some());
    assert_eq!(Player::new(Vec3::new(2_000_001, 0, 0), false), None);
    assert_eq!(Player::new(Vec3::new(1_200_000, 0, 1_600_001), false), None);
    assert_eq!(Player::new(Vec3::new(i32::MIN, 0, i32::MAX), true), None);
}

#[test]
fn new_refuses_a_velocity_off_the_ground_plane() {
    assert_eq!(Player::new(Vec3::new(0, 1, 0), false), None);
    assert_eq!(Player::new(Vec3::new(0, -1, 0), false), None);
}

#[test]
fn empty_registry_finds_nobody() {
    let players = PlayerRegistry::new();
    assert_eq!(players.get(0), None);
    assert_eq!(players.get(u64::MAX), None);
}

#[test]
fn registry_finds_what_was_inserted() {
    let mut players = PlayerRegistry::new();
    let a = Player::new(Vec3::new(1, 0, 0), false).expect("valid");
    let b = Player::new(Vec3::new(2, 0, 0), true).expect("valid");
    players.insert(10, a);
    players.insert(20, b);
    assert_eq!(players.get(10), Some(a));
    assert_eq!(players.get(20), Some(b));
    assert_eq!(players.get(30), None);
}

#[test]
fn registry_insert_replaces() {
    let mut players = PlayerRegistry::new();
    let a = Player::new(Vec3::new(1, 0, 0), false).expect("valid");
    let b = Player::new(Vec3::new(2, 0, 0), true).expect("valid");
    players.insert(10, a);
    players.insert(10, b);
    assert_eq!(players.get(10), Some(b));
    players.remove(10);
    assert_eq!(players.get(10), None);
}

#[test]
fn registry_remove_leaves_the_others() {
    let mut players = PlayerRegistry::new();
    let a = Player::new(Vec3::new(1, 0, 0), false).expect("valid");
    let b = Player::new(Vec3::new(2, 0, 0), true).expect("valid");
    let c = Player::new(Vec3::new(3, 0, 0), true).expect("valid");
    players.insert(1, a);
    players.insert(2, b);
    players.insert(3, c);
    players.remove(2);
    assert_eq!(players.get(1), Some(a));
    assert_eq!(players.get(2), None);
    assert_eq!(players.get(3), Some(c));
    players.remove(2);
    players.remove(77);
    assert_eq!(players.get(1), Some(a));
    assert_eq!(players.get(3), Some(c));
}

#[test]
fn registry_set_all_overwrites_each_state() {
    let mut players = PlayerRegistry::new();
    players.insert(1, Player::default());
    players.insert(2, Player::new(Vec3::new(2, 0, 0), true).expect("valid"));
    let state = Player::new(Vec3::new(0, 0, 9), false).expect("valid");
    players.set_all(state);
    assert_eq!(players.get(1), Some(state));
    assert_eq!(players.get(2), Some(state));
    assert_eq!(players.get(3), None);
}
