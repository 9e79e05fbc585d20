use spirit_battle::element::SpiritType;
use spirit_battle::moves::{Move, MoveType};
use spirit_battle::roster::{combine_spirits, count_matching, Player, ROSTER_CAPACITY};
use spirit_battle::spirit::Spirit;

fn member(element: SpiritType, max_health: u32, attack: u32) -> Spirit {
    Spirit {
        element,
        max_health,
        health: max_health / 2,
        defense: 3,
        base_defense: 1,
        attack,
        stamina: 7,
        moves: [
            Move { name: "Blast".to_string(), effect: MoveType::DamageOne(4) },
            Move { name: "Inferno".to_string(), effect: MoveType::DamageMany(3) },
            Move { name: "Recombust".to_string(), effect: MoveType::Heal(8) },
            Move { name: "Heat".to_string(), effect: MoveType::Defend(2) },
        ],
    }
}

fn attacks(player: &Player) -> Vec<u32> {
    player.spirits.iter().map(|s| s.attack).collect()
}

#[test]
fn roster_capacity_is_twenty_five() {
    assert_eq!(ROSTER_CAPACITY, 25);
}

#[test]
fn counting_goes_by_element_and_level() {
    let roster = vec![
        member(SpiritType::Fire(0), 10, 0),
        member(SpiritType::Fire(1), 10, 1),
        member(SpiritType::Water(0), 10, 2),
        member(SpiritType::Fire(0), 10, 3),
    ];
    assert_eq!(count_matching(&roster, &SpiritType::Fire(0)), 2);
    assert_eq!(count_matching(&roster, &SpiritType::Fire(1)), 1);
    assert_eq!(count_matching(&roster, &SpiritType::Water(0)), 1);
    assert_eq!(count_matching(&roster, &SpiritType::Slime(0)), 0);
}

#[test]
fn four_fire_spirits_fuse_into_one() {
    let mut player = Player {
        spirits: vec![
            member(SpiritType::Fire(0), 12, 0),
            member(SpiritType::Water(0), 11, 1),
            member(SpiritType::Fire(0), 13, 2),
            member(SpiritType::Fire(0), 14, 3),
            member(SpiritType::Fire(1), 40, 4),
            member(SpiritType::Fire(0), 15, 5),
        ],
    };
    assert!(combine_spirits(&mut player, 2));
    assert_eq!(player.spirits.len(), 3);
    let fused = &player.spirits[0];
    assert_eq!(fused.element, SpiritType::Fire(1));
    assert_eq!(fused.max_health, 52);
    assert_eq!(fused.health, 52);
    assert_eq!(fused.defense, 1);
    assert_eq!(fused.base_defense, 1);
    assert_eq!(fused.attack, 2);
    assert_eq!(fused.stamina, 7);
    assert_eq!(fused.moves[0].name, "Blast");
    assert_eq!(attacks(&player), vec![2, 1, 4]);
    assert_eq!(count_matching(&player.spirits, &SpiritType::Fire(0)), 0);
    assert_eq!(count_matching(&player.spirits, &SpiritType::Fire(1)), 2);
}

#[test]
fn one_spirit_too_few_leaves_the_roster_unchanged() {
    let mut player = Player {
        spirits: vec![
            member(SpiritType::Fire(0), 12, 0),
            member(SpiritType::Water(0), 11, 1),
            member(SpiritType::Fire(0), 13, 2),
            member(SpiritType::Fire(0), 14, 3),
            member(SpiritType::Fire(1), 40, 4),
        ],
    };
    assert!(!combine_spirits(&mut player, 0));
    assert_eq!(attacks(&player), vec![0, 1, 2, 3, 4]);
    assert_eq!(player.spirits[0].max_health, 12);
    assert_eq!(player.spirits[0].health, 6);
    assert_eq!(player.spirits[0].defense, 3);
}

#[test]
fn fusion_consumes_the_last_of_the_kind() {
    let mut player = Player {
        spirits: vec![
            member(SpiritType::Slime(0), 10, 0),
            member(SpiritType::Slime(0), 10, 1),
            member(SpiritType::Light(0), 10, 2),
            member(SpiritType::Slime(0), 10, 3),
            member(SpiritType::Slime(0), 10, 4),
        ],
    };
    assert!(combine_spirits(&mut player, 0));
    assert_eq!(player.spirits[0].element, SpiritType::Slime(1));
    assert_eq!(player.spirits[0].attack, 0);
    assert_eq!(player.spirits[0].max_health, 40);
    assert_eq!(attacks(&player), vec![0, 0, 1, 2]);
}

#[test]
fn higher_levels_require_more() {
    let mut few = Player {
        spirits: (0..5).map(|k| member(SpiritType::Water(1), 40, k)).collect(),
    };
    assert!(!combine_spirits(&mut few, 4));
    assert_eq!(few.spirits.len(), 5);
    let mut enough = Player {
        spirits: (0..6).map(|k| member(SpiritType::Water(1), 40, k)).collect(),
    };
    assert!(combine_spirits(&mut enough, 4));
    assert_eq!(enough.spirits.len(), 1);
    assert_eq!(enough.spirits[0].element, SpiritType::Water(2));
    assert_eq!(enough.spirits[0].max_health, 160);
    assert_eq!(enough.spirits[0].attack, 4);
}

#[test]
fn ethereal_spirits_require_three_then_seven() {
    let mut dark = Player {
        spirits: (0..3).map(|k| member(SpiritType::Dark(0), 10, k)).collect(),
    };
    assert!(combine_spirits(&mut dark, 1));
    assert_eq!(attacks(&dark), vec![1]);
    let mut light = Player {
        spirits: (0..6).map(|k| member(SpiritType::Light(1), 10, k)).collect(),
    };
    assert!(!combine_spirits(&mut light, 0));
    light.spirits.push(member(SpiritType::Light(1), 10, 6));
    assert!(combine_spirits(&mut light, 0));
    assert_eq!(light.spirits.len(), 1);
    assert_eq!(light.spirits[0].element, SpiritType::Light(2));
}

#[test]
fn the_highest_level_does_not_fuse() {
    let mut player = Player {
        spirits: (0..12).map(|k| member(SpiritType::Fire(2), 160, k)).collect(),
    };
    assert!(!combine_spirits(&mut player, 0));
    assert_eq!(player.spirits.len(), 12);
    assert_eq!(attacks(&player), (0..12).collect::<Vec<u32>>());
}

#[test]
fn an_empty_cell_does_not_fuse() {
    let mut player = Player {
        spirits: (0..4).map(|k| member(SpiritType::Fire(0), 10, k)).collect(),
    };
    assert!(!combine_spirits(&mut player, 4));
    assert!(!combine_spirits(&mut player, 24));
    assert_eq!(player.spirits.len(), 4);
    let mut nobody = Player { spirits: Vec::new() };
    assert!(!combine_spirits(&mut nobody, 0));
}
