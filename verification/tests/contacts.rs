use locomotion::{
    classify, inject_walk, modify_contacts, resolve_side, resolve_walk, target_for,
    ContactDecision, ContactError, ContactManifold, ContactPair, GroundClassification, KeySnapshot,
    Player, PlayerCamera, PlayerRegistry, Side, Vec3, GROUND_THRESHOLD, ONE,
};

const PLAYER: u64 = 7;
const FLOOR: u64 = 11;

fn walking_forward(jump: bool) -> Player {
    let keys = KeySnapshot { down: true, jump_pressed: jump, ..KeySnapshot::released() };
    resolve_walk(&keys, &PlayerCamera::default())
}

fn manifold(normal: Vec3) -> ContactManifold {
    ContactManifold { normal, tangent_velocity: Vec3::new(5, 6, 7) }
}

fn registry_with(collider: u64, player: Player) -> PlayerRegistry {
    let mut players = PlayerRegistry::new();
    players.insert(collider, player);
    players
}

const KEEP: ContactDecision = ContactDecision { keep_enabled: true, grounded_jump: false };

#[test]
fn threshold_is_ninety_five_hundredths() {
    assert_eq!(GROUND_THRESHOLD, 950_000);
}

#[test]
fn side_other_swaps() {
    assert_eq!(Side::First.other(), Side::Second);
    assert_eq!(Side::Second.other(), Side::First);
}

#[test]
fn flat_ground_is_ground() {
    assert_eq!(classify(&Vec3::new(0, ONE, 0), Side::First), GroundClassification::Ground);
    assert_eq!(classify(&Vec3::new(0, -ONE, 0), Side::Second), GroundClassification::Ground);
}

#[test]
fn ceiling_is_not_ground() {
    assert_eq!(classify(&Vec3::new(0, -ONE, 0), Side::First), GroundClassification::NonGround);
    assert_eq!(classify(&Vec3::new(0, ONE, 0), Side::Second), GroundClassification::NonGround);
}

#[test]
fn wall_is_not_ground() {
    assert_eq!(classify(&Vec3::new(ONE, 0, 0), Side::First), GroundClassification::NonGround);
    assert_eq!(classify(&Vec3::new(ONE, 0, 0), Side::Second), GroundClassification::NonGround);
    assert_eq!(classify(&Vec3::new(0, 0, -ONE), Side::First), GroundClassification::NonGround);
}

#[test]
fn both_sides_of_the_threshold() {
    let gentle = Vec3::new(280_000, 960_000, 0);
    let steep = Vec3::new(341_174, 940_000, 0);
    assert_eq!(classify(&gentle, Side::First), GroundClassification::Ground);
    assert_eq!(classify(&steep, Side::First), GroundClassification::NonGround);
}

#[test]
fn threshold_itself_is_not_ground() {
    assert_eq!(classify(&Vec3::new(0, 950_000, 0), Side::First), GroundClassification::NonGround);
    assert_eq!(classify(&Vec3::new(0, 950_001, 0), Side::First), GroundClassification::Ground);
    assert_eq!(classify(&Vec3::new(0, -950_000, 0), Side::Second), GroundClassification::NonGround);
    assert_eq!(classify(&Vec3::new(0, -950_001, 0), Side::Second), GroundClassification::Ground);
}

#[test]
fn classification_agrees_across_sides() {
    let normals = [
        Vec3::new(0, ONE, 0),
        Vec3::new(0, -ONE, 0),
        Vec3::new(ONE, 0, 0),
        Vec3::new(280_000, 960_000, 0),
        Vec3::new(-341_174, 940_000, 12),
        Vec3::new(0, 950_000, 0),
        Vec3::new(0, 950_001, 0),
        Vec3::new(0, 0, 0),
        Vec3::new(i32::MAX, i32::MAX, i32::MAX),
    ];
    for n in normals {
        for side in [Side::First, Side::Second] {
            assert_eq!(classify(&n, side), classify(&n.neg(), side.other()), "{:?}", n);
        }
    }
}

#[test]
fn classify_takes_the_most_negative_normal() {
    let n = Vec3::new(i32::MIN, i32::MIN, i32::MIN);
    assert_eq!(classify(&n, Side::First), GroundClassification::NonGround);
    assert_eq!(classify(&n, Side::Second), GroundClassification::Ground);
}

#[test]
fn target_keeps_or_flips_the_walk_velocity() {
    let player = walking_forward(false);
    assert_eq!(target_for(&player, Side::First), Vec3::new(0, 0, -2_000_000));
    assert_eq!(target_for(&player, Side::Second), Vec3::new(0, 0, 2_000_000));
}

#[test]
fn resolve_side_cases() {
    let player = walking_forward(false);
    let players = registry_with(PLAYER, player);
    assert_eq!(resolve_side(PLAYER, FLOOR, &players), Ok(Some((Side::First, player))));
    assert_eq!(resolve_side(FLOOR, PLAYER, &players), Ok(Some((Side::Second, player))));
    assert_eq!(resolve_side(FLOOR, 12, &players), Ok(None));
    assert_eq!(
        resolve_side(PLAYER, PLAYER, &players),
        Err(ContactError::TwoPlayers { collider1: PLAYER, collider2: PLAYER })
    );
}

#[test]
fn forward_walk_is_injected_into_flat_ground() {
    let player = walking_forward(false);
    assert_eq!(player.walk_velocity(), Vec3::new(0, 0, -2 * ONE));
    let players = registry_with(PLAYER, player);
    let mut pair = ContactPair {
        collider1: PLAYER,
        collider2: FLOOR,
        manifolds: vec![manifold(Vec3::new(0, ONE, 0))],
    };
    assert_eq!(modify_contacts(&mut pair, &players), Ok(KEEP));
    assert_eq!(
        pair,
        ContactPair {
            collider1: PLAYER,
            collider2: FLOOR,
            manifolds: vec![ContactManifold {
                normal: Vec3::new(0, ONE, 0),
                tangent_velocity: Vec3::new(0, 0, -2 * ONE),
            }],
        }
    );
    assert_eq!(pair.manifolds[0].tangent_velocity.norm_squared(), 4_000_000_000_000);
}

#[test]
fn swapping_the_player_side_flips_the_target() {
    let player = resolve_walk(
        &KeySnapshot { down: true, right: true, ..KeySnapshot::released() },
        &PlayerCamera::default(),
    );
    let players = registry_with(PLAYER, player);
    let mut as_first = ContactPair {
        collider1: PLAYER,
        collider2: FLOOR,
        manifolds: vec![manifold(Vec3::new(0, ONE, 0))],
    };
    let mut as_second = ContactPair {
        collider1: FLOOR,
        collider2: PLAYER,
        manifolds: vec![manifold(Vec3::new(0, -ONE, 0))],
    };
    assert_eq!(modify_contacts(&mut as_first, &players), Ok(KEEP));
    assert_eq!(modify_contacts(&mut as_second, &players), Ok(KEEP));
    let one = as_first.manifolds[0].tangent_velocity;
    let two = as_second.manifolds[0].tangent_velocity;
    assert_eq!(one, Vec3::new(-1_414_212, 0, -1_414_212));
    assert_eq!(two, Vec3::new(1_414_212, 0, 1_414_212));
    assert_eq!(two, one.neg());
    assert_eq!(one.norm_squared(), two.norm_squared());
}

#[test]
fn two_players_in_one_pair_are_refused() {
    let mut players = registry_with(PLAYER, walking_forward(true));
    players.insert(8, Player::default());
    let mut pair = ContactPair {
        collider1: PLAYER,
        collider2: 8,
        manifolds: vec![manifold(Vec3::new(0, ONE, 0)), manifold(Vec3::new(0, -ONE, 0))],
    };
    assert_eq!(
        modify_contacts(&mut pair, &players),
        Err(ContactError::TwoPlayers { collider1: PLAYER, collider2: 8 })
    );
    assert_eq!(
        pair.manifolds,
        vec![manifold(Vec3::new(0, ONE, 0)), manifold(Vec3::new(0, -ONE, 0))]
    );
    let mut swapped = ContactPair { collider1: 8, collider2: PLAYER, manifolds: vec![] };
    assert_eq!(
        modify_contacts(&mut swapped, &players),
        Err(ContactError::TwoPlayers { collider1: 8, collider2: PLAYER })
    );
}

#[test]
fn resting_player_gets_a_zero_target_every_step() {
    let mut players = PlayerRegistry::new();
    players.insert(PLAYER, Player::default());
    for _step in 0..5 {
        locomotion::walk_tick(
            &KeySnapshot::released(),
            Some(PlayerCamera::default()),
            &mut players,
        );
        let mut pair = ContactPair {
            collider1: PLAYER,
            collider2: FLOOR,
            manifolds: vec![manifold(Vec3::new(0, ONE, 0))],
        };
        assert_eq!(modify_contacts(&mut pair, &players), Ok(KEEP));
        assert_eq!(pair.manifolds[0].tangent_velocity, Vec3::zero());
    }
}

#[test]
fn wall_contact_is_left_untouched() {
    let players = registry_with(PLAYER, walking_forward(true));
    let mut pair = ContactPair {
        collider1: PLAYER,
        collider2: FLOOR,
        manifolds: vec![manifold(Vec3::new(ONE, 0, 0))],
    };
    assert_eq!(classify(&pair.manifolds[0].normal, Side::First), GroundClassification::NonGround);
    assert_eq!(modify_contacts(&mut pair, &players), Ok(KEEP));
    assert_eq!(pair.manifolds, vec![manifold(Vec3::new(ONE, 0, 0))]);
}

#[test]
fn pair_without_player_is_left_untouched() {
    let players = registry_with(PLAYER, walking_forward(true));
    let mut pair = ContactPair {
        collider1: FLOOR,
        collider2: 12,
        manifolds: vec![manifold(Vec3::new(0, ONE, 0)), manifold(Vec3::new(0, -ONE, 0))],
    };
    assert_eq!(modify_contacts(&mut pair, &players), Ok(KEEP));
    assert_eq!(
        pair.manifolds,
        vec![manifold(Vec3::new(0, ONE, 0)), manifold(Vec3::new(0, -ONE, 0))]
    );
    let nobody = PlayerRegistry::new();
    let mut other = ContactPair {
        collider1: PLAYER,
        collider2: FLOOR,
        manifolds: vec![manifold(Vec3::new(0, ONE, 0))],
    };
    assert_eq!(modify_contacts(&mut other, &nobody), Ok(KEEP));
    assert_eq!(other.manifolds, vec![manifold(Vec3::new(0, ONE, 0))]);
}

#[test]
fn jump_on_ground_is_reported() {
    let players = registry_with(PLAYER, walking_forward(true));
    let mut pair = ContactPair {
        collider1: PLAYER,
        collider2: FLOOR,
        manifolds: vec![manifold(Vec3::new(ONE, 0, 0)), manifold(Vec3::new(0, ONE, 0))],
    };
    assert_eq!(
        modify_contacts(&mut pair, &players),
        Ok(ContactDecision { keep_enabled: true, grounded_jump: true })
    );
}

#[test]
fn jump_against_a_wall_is_not_reported() {
    let players = registry_with(PLAYER, walking_forward(true));
    let mut pair = ContactPair {
        collider1: FLOOR,
        collider2: PLAYER,
        manifolds: vec![manifold(Vec3::new(ONE, 0, 0)), manifold(Vec3::new(0, ONE, 0))],
    };
    assert_eq!(modify_contacts(&mut pair, &players), Ok(KEEP));
}

#[test]
fn no_jump_without_intent() {
    let players = registry_with(PLAYER, walking_forward(false));
    let mut pair = ContactPair {
        collider1: PLAYER,
        collider2: FLOOR,
        manifolds: vec![manifold(Vec3::new(0, ONE, 0))],
    };
    assert_eq!(modify_contacts(&mut pair, &players), Ok(KEEP));
}

#[test]
fn only_ground_manifolds_of_a_pair_are_written() {
    let players = registry_with(PLAYER, walking_forward(false));
    let mut pair = ContactPair {
        collider1: PLAYER,
        collider2: FLOOR,
        manifolds: vec![
            manifold(Vec3::new(0, ONE, 0)),
            manifold(Vec3::new(ONE, 0, 0)),
            manifold(Vec3::new(280_000, 960_000, 0)),
            manifold(Vec3::new(0, -ONE, 0)),
            manifold(Vec3::new(341_174, 940_000, 0)),
        ],
    };
    assert_eq!(modify_contacts(&mut pair, &players), Ok(KEEP));
    let target = Vec3::new(0, 0, -2 * ONE);
    let kept = Vec3::new(5, 6, 7);
    let written: Vec<Vec3> = pair.manifolds.iter().map(|m| m.tangent_velocity).collect();
    assert_eq!(written, vec![target, kept, target, kept, kept]);
    let normals: Vec<Vec3> = pair.manifolds.iter().map(|m| m.normal).collect();
    assert_eq!(
        normals,
        vec![
            Vec3::new(0, ONE, 0),
            Vec3::new(ONE, 0, 0),
            Vec3::new(280_000, 960_000, 0),
            Vec3::new(0, -ONE, 0),
            Vec3::new(341_174, 940_000, 0),
        ]
    );
}

#[test]
fn pair_without_manifolds() {
    let players = registry_with(PLAYER, walking_forward(true));
    let mut pair = ContactPair { collider1: PLAYER, collider2: FLOOR, manifolds: vec![] };
    assert_eq!(modify_contacts(&mut pair, &players), Ok(KEEP));
    assert!(pair.manifolds.is_empty());
}

#[test]
fn inject_walk_reports_ground() {
    let player = walking_forward(false);
    let mut grounded = ContactPair {
        collider1: 1,
        collider2: 2,
        manifolds: vec![manifold(Vec3::new(0, -ONE, 0))],
    };
    assert!(inject_walk(&mut grounded, &player, Side::Second));
    assert_eq!(grounded.manifolds[0].tangent_velocity, Vec3::new(0, 0, 2 * ONE));
    let mut airborne = ContactPair {
        collider1: 1,
        collider2: 2,
        manifolds: vec![manifold(Vec3::new(0, -ONE, 0))],
    };
    assert!(!inject_walk(&mut airborne, &player, Side::First));
    assert_eq!(airborne.manifolds[0].tangent_velocity, Vec3::new(5, 6, 7));
}

#[test]
fn end_to_end_tick_then_contact() {
    let mut players = PlayerRegistry::new();
    players.insert(PLAYER, Player::default());
    let keys = KeySnapshot { down: true, jump_pressed: true, ..KeySnapshot::released() };
    locomotion::walk_tick(&keys, Some(PlayerCamera::default()), &mut players);
    let mut pair = ContactPair {
        collider1: PLAYER,
        collider2: FLOOR,
        manifolds: vec![ContactManifold { normal: Vec3::new(0, ONE, 0), tangent_velocity: Vec3::zero() }],
    };
    assert_eq!(
        modify_contacts(&mut pair, &players),
        Ok(ContactDecision { keep_enabled: true, grounded_jump: true })
    );
    assert_eq!(pair.manifolds[0].tangent_velocity, Vec3::new(0, 0, -2 * ONE));
    let held = KeySnapshot { down: true, ..KeySnapshot::released() };
    locomotion::walk_tick(&held, Some(PlayerCamera::default()), &mut players);
    assert_eq!(modify_contacts(&mut pair, &players), Ok(KEEP));
    assert_eq!(pair.manifolds[0].tangent_velocity, Vec3::new(0, 0, -2 * ONE));
}
