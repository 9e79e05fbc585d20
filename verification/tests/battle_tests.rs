use spirit_battle::battle::{Battle, BattleState, Combatant, PlayerSpirit, ENEMY_COUNTDOWN};
use spirit_battle::effects::{CombatEffect, CombatEffects, TICK_WINDOW};
use spirit_battle::element::SpiritType;
use spirit_battle::enemy_turn::{count_living_enemies, EnemyCombat};
use spirit_battle::menus::{select_fighter, select_target, InventoryState};
use spirit_battle::moves::{Move, MoveType};
use spirit_battle::outcome::{collect_enemy_elements, collect_survivors, spoils, WatchSpirits};
use spirit_battle::play::PlayState;
use spirit_battle::player_turn::WatchAttack;
use spirit_battle::roster::Player;
use spirit_battle::spirit::Spirit;
use spirit_battle::tick::TickEffects;

fn fighter(element: SpiritType, health: u32, attack: u32, defense: i32) -> Spirit {
    Spirit {
        element,
        max_health: health,
        health,
        defense,
        base_defense: defense,
        attack,
        stamina: 5,
        moves: [
            Move { name: "Slash".to_string(), effect: MoveType::DamageOne(10) },
            Move { name: "Radiant".to_string(), effect: MoveType::DamageMany(3) },
            Move { name: "Heal".to_string(), effect: MoveType::Heal(8) },
            Move { name: "Protect".to_string(), effect: MoveType::Defend(2) },
        ],
    }
}

fn three_on_one() -> Battle {
    let enemies = vec![
        fighter(SpiritType::Fire(0), 5, 8, 0),
        fighter(SpiritType::Water(0), 5, 8, 0),
        fighter(SpiritType::Slime(0), 5, 8, 0),
    ];
    let roster = vec![fighter(SpiritType::Light(2), 40, 14, 0)];
    Battle::begin(7, &enemies, &roster)
}

fn queues(battle: &Battle) -> Vec<Vec<CombatEffect>> {
    battle.combatants.iter().map(|c| c.effects.effects.clone()).collect()
}

fn healths(battle: &Battle) -> Vec<u32> {
    battle.combatants.iter().map(|c| c.spirit.health).collect()
}

const PAST_WINDOW: u64 = TICK_WINDOW + 1;

#[test]
fn a_new_state_awaits_selection() {
    let state = BattleState::new();
    assert!(state.in_combat);
    assert!(!state.retreating);
    assert_eq!(state.enemy_attacking, None);
    assert!(!state.activate);
    assert!(!state.animating);
    assert_eq!(state.combat_move, None);
    assert_eq!(state.active_entity, None);
    assert_eq!(state.encounter_entity, None);
    assert_eq!(state.notification, None);
    assert!(!state.notifying());
    assert!(!state.animating());
}

#[test]
fn notifications_hold_input_back() {
    let mut state = BattleState::new();
    state.notify("Ember uses Blast!".to_string());
    assert!(state.notifying());
    assert!(state.animating());
    assert_eq!(state.notification, Some("Ember uses Blast!".to_string()));
    state.want_attack();
    assert!(!state.activate);
    state.clear_notification();
    assert!(!state.notifying());
    assert!(!state.animating());
    state.want_attack();
    assert!(state.activate);
}

#[test]
fn commit_is_rejected_while_animating_or_enemies_pending() {
    let mut state = BattleState::new();
    state.set_animating(true);
    assert!(state.animating());
    state.want_attack();
    assert!(!state.activate);
    state.set_animating(false);
    state.enemy_attacking = Some(0);
    state.want_attack();
    assert!(!state.activate);
    state.enemy_attacking = None;
    state.want_attack();
    assert!(state.activate);
}

#[test]
fn finishing_an_attack_hands_over_to_the_enemies() {
    let mut state = BattleState::new();
    state.activate = true;
    state.combat_move = Some(2);
    state.finish_attack();
    assert!(!state.activate);
    assert_eq!(state.enemy_attacking, Some(2));
    assert_eq!(ENEMY_COUNTDOWN, 2);
    assert!(state.animating);
    assert_eq!(state.combat_move, Some(2));
}

#[test]
fn retreat_clears_the_active_spirit() {
    let mut state = BattleState::new();
    state.active_entity = Some(3);
    state.retreat();
    assert_eq!(state.active_entity, None);
    assert!(state.retreating);
    assert!(state.in_combat);
}

#[test]
fn a_battle_begins_with_enemies_before_allies() {
    let enemies = vec![fighter(SpiritType::Fire(0), 5, 8, 2), fighter(SpiritType::Dark(1), 9, 8, 2)];
    let roster = vec![
        fighter(SpiritType::Water(0), 12, 3, 1),
        fighter(SpiritType::Slime(0), 13, 4, 0),
    ];
    let battle = Battle::begin(42, &enemies, &roster);
    assert_eq!(battle.combatants.len(), 4);
    assert!(battle.combatants[0].player.is_none());
    assert!(battle.combatants[1].player.is_none());
    assert_eq!(battle.combatants[1].spirit.element, SpiritType::Dark(1));
    assert!(battle.combatants[2].player.unwrap().active);
    assert!(!battle.combatants[3].player.unwrap().active);
    assert_eq!(battle.combatants[2].spirit.max_health, 12);
    assert_eq!(battle.combatants[3].spirit.attack, 4);
    assert!(battle.combatants.iter().all(|c| !c.effects.active()));
    assert_eq!(battle.state.encounter_entity, Some(42));
    assert_eq!(battle.state.combat_move, Some(0));
    assert_eq!(battle.state.active_entity, Some(2));
    assert!(battle.state.in_combat);
    assert!(!battle.state.activate);
    assert_eq!(battle.get_active_ally(), Some(2));
    assert_eq!(count_living_enemies(&battle), 2);
}

#[test]
fn a_battle_without_a_roster_has_no_cursor() {
    let enemies = vec![fighter(SpiritType::Fire(0), 5, 8, 2)];
    let battle = Battle::begin(1, &enemies, &Vec::new());
    assert_eq!(battle.state.combat_move, None);
    assert_eq!(battle.state.active_entity, None);
    assert_eq!(battle.get_active_ally(), None);
}

#[test]
fn the_selected_move_belongs_to_the_active_spirit() {
    let mut battle = three_on_one();
    let picked = battle.state.get_move(&battle.combatants).unwrap();
    assert_eq!(picked.name, "Slash");
    battle.state.combat_move = Some(3);
    let picked = battle.state.get_move(&battle.combatants).unwrap();
    assert_eq!(picked.name, "Protect");
    assert_eq!(picked.effect, MoveType::Defend(2));
    battle.state.combat_move = Some(4);
    assert!(battle.state.get_move(&battle.combatants).is_none());
    battle.state.combat_move = None;
    assert!(battle.state.get_move(&battle.combatants).is_none());
    battle.state.combat_move = Some(0);
    battle.state.active_entity = Some(9);
    assert!(battle.state.get_move(&battle.combatants).is_none());
}

#[test]
fn nothing_happens_without_a_commit() {
    let mut battle = three_on_one();
    let sound = WatchAttack::resolve(&mut battle, &[0, 0, 0]);
    assert_eq!(sound, None);
    assert!(queues(&battle).iter().all(|q| q.is_empty()));
    assert_eq!(battle.state.enemy_attacking, None);
    assert!(!battle.state.animating);
}

#[test]
fn a_wide_attack_hits_three_enemies_and_wins_the_battle() {
    let mut battle = three_on_one();
    battle.state.combat_move = Some(1);
    battle.want_attack();
    assert!(battle.state.activate);
    let sound = WatchAttack::resolve(&mut battle, &[0, 0, 0]);
    assert_eq!(sound, Some(SpiritType::Light(2)));
    // 3 * (14 * 3 + 37) * 1000 * 2 / 90000 = 5.27
    assert_eq!(
        queues(&battle),
        vec![
            vec![CombatEffect::Damage(5)],
            vec![CombatEffect::Damage(5)],
            vec![CombatEffect::Damage(5)],
            vec![],
        ]
    );
    assert!(!battle.state.activate);
    assert_eq!(battle.state.enemy_attacking, Some(2));
    assert!(battle.state.animating);

    let mut play_state = PlayState::InBattle;
    let mut player = Player { spirits: vec![fighter(SpiritType::Light(2), 40, 14, 0)] };
    for tick in 1..=5u32 {
        assert!(TickEffects.run(&mut battle, PAST_WINDOW));
        assert_eq!(healths(&battle), vec![5 - tick, 5 - tick, 5 - tick, 40]);
        if tick < 5 {
            assert!(battle.state.animating);
            let report = WatchSpirits.run(&mut battle, &mut play_state, &mut player);
            assert!(!report.won);
            assert!(matches!(play_state, PlayState::InBattle));
        }
    }
    assert!(!battle.state.animating);
    let report = WatchSpirits.run(&mut battle, &mut play_state, &mut player);
    assert!(report.won);
    assert!(!report.retreated);
    assert!(!battle.state.in_combat);
    assert!(battle.combatants.is_empty());
    match play_state {
        PlayState::Looting { captured, lost } => {
            assert_eq!(
                captured,
                vec![SpiritType::Fire(0), SpiritType::Water(0), SpiritType::Slime(0)]
            );
            assert!(lost.is_empty());
        },
        _ => panic!("the battle should have been won"),
    }
    assert_eq!(player.spirits.len(), 4);
    assert_eq!(player.spirits[0].element, SpiritType::Light(2));
    assert_eq!(player.spirits[0].health, 40);
    assert_eq!(player.spirits[1].element, SpiritType::Fire(0));
    assert_eq!(player.spirits[2].element, SpiritType::Water(0));
    assert_eq!(player.spirits[3].element, SpiritType::Slime(0));
    for recruit in player.spirits[1..].iter() {
        assert_eq!(recruit.health, recruit.max_health);
        assert!(recruit.max_health >= 10 && recruit.max_health <= 19);
        assert_eq!(recruit.defense, recruit.base_defense);
    }
}

#[test]
fn a_wide_attack_reaches_only_the_first_three_living() {
    let enemies = vec![
        fighter(SpiritType::Fire(0), 5, 8, 0),
        fighter(SpiritType::Fire(0), 5, 8, 0),
        fighter(SpiritType::Fire(0), 5, 8, 0),
        fighter(SpiritType::Fire(0), 5, 8, 0),
        fighter(SpiritType::Fire(0), 5, 8, 0),
    ];
    let roster = vec![fighter(SpiritType::Light(2), 40, 14, 0)];
    let mut battle = Battle::begin(7, &enemies, &roster);
    battle.combatants[1].spirit.health = 0;
    battle.state.combat_move = Some(1);
    battle.want_attack();
    WatchAttack::resolve(&mut battle, &[-100, 0, 100]);
    // 3 * 79 * (900 | 1000 | 1100) * 2 / 90000 = 4.74 | 5.27 | 5.79
    assert_eq!(
        queues(&battle),
        vec![
            vec![CombatEffect::Damage(4)],
            vec![],
            vec![CombatEffect::Damage(5)],
            vec![CombatEffect::Damage(5)],
            vec![],
            vec![],
        ]
    );
}

#[test]
fn a_single_strike_hits_the_first_living_enemy_and_sheds_defense() {
    let mut battle = three_on_one();
    battle.combatants[0].spirit.health = 0;
    battle.combatants[1].spirit.defense = 4;
    battle.state.combat_move = Some(0);
    battle.want_attack();
    let sound = WatchAttack::resolve(&mut battle, &[100, -100, -100]);
    assert_eq!(sound, Some(SpiritType::Light(2)));
    // 10 * 79 * 1100 * 2 / 90000 = 19.31, less 16 / 4
    assert_eq!(
        queues(&battle),
        vec![
            vec![],
            vec![CombatEffect::Damage(15), CombatEffect::ShedDefense(1)],
            vec![],
            vec![],
        ]
    );
    assert_eq!(battle.state.enemy_attacking, Some(2));
}

#[test]
fn healing_and_defending_target_the_user() {
    let mut battle = three_on_one();
    battle.state.combat_move = Some(2);
    battle.want_attack();
    let sound = WatchAttack::resolve(&mut battle, &[100, 100, 100]);
    assert_eq!(sound, None);
    assert_eq!(queues(&battle), vec![vec![], vec![], vec![], vec![CombatEffect::Heal(13)]]);
    assert!(battle.state.animating);

    let mut other = three_on_one();
    other.state.combat_move = Some(3);
    other.want_attack();
    WatchAttack::resolve(&mut other, &[0, 0, 0]);
    assert_eq!(queues(&other), vec![vec![], vec![], vec![], vec![CombatEffect::Defense(2)]]);
}

#[test]
fn a_random_turn_stays_within_the_jitter() {
    for _ in 0..50 {
        let mut battle = three_on_one();
        battle.state.combat_move = Some(0);
        battle.want_attack();
        let sound = WatchAttack.run(&mut battle);
        assert_eq!(sound, Some(SpiritType::Light(2)));
        // 10 * 79 * (900 ..= 1100) * 2 / 90000 = 15.8 ..= 19.31
        match queues(&battle)[0][..] {
            [CombatEffect::Damage(amount), CombatEffect::ShedDefense(1)] => {
                assert!((15..=19).contains(&amount));
            },
            _ => panic!("the first enemy should have been struck"),
        }
    }
}

#[test]
fn no_commit_while_any_queue_is_active() {
    let mut battle = three_on_one();
    battle.state.combat_move = Some(1);
    battle.want_attack();
    WatchAttack::resolve(&mut battle, &[0, 0, 0]);
    battle.want_attack();
    assert!(!battle.state.activate);
    TickEffects.run(&mut battle, PAST_WINDOW);
    assert!(battle.combatants.iter().any(|c| c.effects.active()));
    battle.state.enemy_attacking = None;
    battle.want_attack();
    assert!(!battle.state.activate);
    assert_eq!(WatchAttack::resolve(&mut battle, &[0, 0, 0]), None);
    assert_eq!(queues(&battle)[0], vec![CombatEffect::Damage(4)]);
}

#[test]
fn time_below_the_window_only_runs_the_timer_down() {
    let mut battle = three_on_one();
    battle.combatants[0].effects.enqueue(CombatEffect::Damage(2));
    battle.state.animating = true;
    assert!(!TickEffects.run(&mut battle, 30_000_000));
    assert_eq!(battle.combatants[0].effects.duration, 70_000_000);
    assert_eq!(battle.combatants[1].effects.duration, TICK_WINDOW);
    assert_eq!(healths(&battle), vec![5, 5, 5, 40]);
    assert!(battle.state.animating);
    assert!(!TickEffects.run(&mut battle, 70_000_000));
    assert!(TickEffects.run(&mut battle, 1));
    assert_eq!(healths(&battle), vec![4, 5, 5, 40]);
    assert_eq!(battle.combatants[0].effects.duration, TICK_WINDOW);
    assert!(battle.state.animating);
    assert!(TickEffects.run(&mut battle, PAST_WINDOW));
    assert_eq!(healths(&battle), vec![3, 5, 5, 40]);
    assert!(!battle.state.animating);
    assert!(!TickEffects.run(&mut battle, PAST_WINDOW));
}

#[test]
fn the_acting_enemy_follows_the_countdown() {
    let mut battle = three_on_one();
    battle.state.enemy_attacking = Some(2);
    assert_eq!(EnemyCombat::next_actor(&battle), Some((2, 3)));
    battle.state.enemy_attacking = Some(9);
    assert_eq!(EnemyCombat::next_actor(&battle), Some((2, 3)));
    battle.state.enemy_attacking = Some(1);
    assert_eq!(EnemyCombat::next_actor(&battle), Some((1, 3)));
    battle.combatants[0].spirit.health = 0;
    assert_eq!(EnemyCombat::next_actor(&battle), Some((2, 3)));
    battle.state.enemy_attacking = Some(0);
    assert_eq!(EnemyCombat::next_actor(&battle), Some((1, 3)));
    battle.state.enemy_attacking = None;
    assert_eq!(EnemyCombat::next_actor(&battle), None);
}

#[test]
fn enemies_wait_for_the_battle_to_settle() {
    let mut battle = three_on_one();
    battle.state.enemy_attacking = Some(2);
    battle.state.animating = true;
    assert_eq!(EnemyCombat::next_actor(&battle), None);
    battle.state.animating = false;
    battle.state.notification = Some("...".to_string());
    assert_eq!(EnemyCombat::next_actor(&battle), None);
    battle.state.notification = None;
    battle.state.retreating = true;
    assert_eq!(EnemyCombat::next_actor(&battle), None);
    battle.state.retreating = false;
    battle.combatants[3].player = Some(PlayerSpirit { active: false });
    assert_eq!(EnemyCombat::next_actor(&battle), None);
    battle.combatants[3].player = Some(PlayerSpirit { active: true });
    for enemy in 0..3 {
        battle.combatants[enemy].spirit.health = 0;
    }
    assert_eq!(EnemyCombat::next_actor(&battle), None);
    let action = Move { name: "(Fight)".to_string(), effect: MoveType::DamageOne(2) };
    let report = EnemyCombat::resolve(&mut battle, &action, 0);
    assert!(!report.acted);
    assert_eq!(report.sound, None);
    assert_eq!(battle.state.enemy_attacking, Some(2));
    assert!(queues(&battle).iter().all(|q| q.is_empty()));
}

#[test]
fn an_enemy_strike_lands_on_the_active_ally() {
    let mut battle = three_on_one();
    battle.state.enemy_attacking = Some(2);
    let action = Move { name: "(Advance)".to_string(), effect: MoveType::DamageOne(40) };
    let report = EnemyCombat::resolve(&mut battle, &action, 0);
    assert!(report.acted);
    assert_eq!(report.sound, Some(SpiritType::Slime(0)));
    // 40 * (8 + 37) * 1000 * 2 / 90000 = 40
    assert_eq!(
        queues(&battle)[3],
        vec![CombatEffect::Damage(40), CombatEffect::ShedDefense(1)]
    );
    assert_eq!(
        battle.state.notification,
        Some("Lesser Slime uses (Advance)!\nIt deals 40 damage to your Holy Angel!".to_string())
    );
    assert_eq!(battle.state.enemy_attacking, Some(1));
    assert!(battle.state.animating);
    assert!(battle.state.animating());
}

#[test]
fn an_enemy_wide_attack_does_not_shed_defense() {
    let mut battle = three_on_one();
    battle.state.enemy_attacking = Some(0);
    let action = Move { name: "(Thrash)".to_string(), effect: MoveType::DamageMany(3) };
    let report = EnemyCombat::resolve(&mut battle, &action, 100);
    assert!(report.acted);
    assert_eq!(report.sound, Some(SpiritType::Fire(0)));
    // 3 * 45 * 1100 * 2 / 90000 = 3.3
    assert_eq!(queues(&battle)[3], vec![CombatEffect::Damage(3)]);
    assert_eq!(
        battle.state.notification,
        Some("Ember uses (Thrash)!\nIt deals 3 damage to your Holy Angel!".to_string())
    );
    assert_eq!(battle.state.enemy_attacking, None);
}

#[test]
fn an_enemy_heals_and_defends_itself() {
    let mut battle = three_on_one();
    battle.state.enemy_attacking = Some(1);
    let heal = Move { name: "(Revive)".to_string(), effect: MoveType::Heal(4) };
    let report = EnemyCombat::resolve(&mut battle, &heal, 0);
    assert!(report.acted);
    assert_eq!(report.sound, None);
    assert_eq!(queues(&battle)[1], vec![CombatEffect::Heal(9)]);
    assert!(queues(&battle)[3].is_empty());
    assert_eq!(
        battle.state.notification,
        Some("Nymph uses (Revive)!\nIt heals 9!".to_string())
    );
    assert_eq!(battle.state.enemy_attacking, Some(0));

    battle.state.notification = None;
    battle.state.animating = false;
    let defend = Move { name: "(Defend))".to_string(), effect: MoveType::Defend(2) };
    let report = EnemyCombat::resolve(&mut battle, &defend, 0);
    assert!(report.acted);
    assert_eq!(queues(&battle)[0], vec![CombatEffect::Defense(2)]);
    assert_eq!(
        battle.state.notification,
        Some("Ember uses (Defend))!\nIt raises its defense by 2!".to_string())
    );
    assert_eq!(battle.state.enemy_attacking, None);
}

#[test]
fn a_random_enemy_turn_uses_one_of_its_moves() {
    let names = ["Slash", "Radiant", "Heal", "Protect"];
    let mut seen = [false; 4];
    for _ in 0..200 {
        let mut battle = three_on_one();
        battle.state.enemy_attacking = Some(0);
        let report = EnemyCombat.run(&mut battle);
        assert!(report.acted);
        assert_eq!(battle.state.enemy_attacking, None);
        let line = battle.state.notification.clone().unwrap();
        let used = names.iter().position(|n| line.starts_with(&format!("Ember uses {}!", n)));
        seen[used.unwrap()] = true;
        let queued: usize = queues(&battle).iter().map(|q| q.len()).sum();
        assert!(queued == 1 || queued == 2);
    }
    assert!(seen.iter().all(|s| *s));
}

#[test]
fn a_fallen_fighter_forces_a_retreat() {
    let enemies = vec![fighter(SpiritType::Fire(0), 5, 8, 0)];
    let roster = vec![fighter(SpiritType::Water(0), 12, 3, 1), fighter(SpiritType::Slime(0), 13, 4, 0)];
    let mut battle = Battle::begin(1, &enemies, &roster);
    battle.combatants[1].spirit.health = 0;
    let mut play_state = PlayState::InBattle;
    let mut player = Player { spirits: Vec::new() };
    let report = WatchSpirits.run(&mut battle, &mut play_state, &mut player);
    assert!(report.retreated);
    assert!(!report.won);
    assert!(battle.state.retreating);
    assert_eq!(battle.state.active_entity, None);
    assert!(battle.state.in_combat);
    assert!(!battle.combatants[1].player.unwrap().active);
    assert!(matches!(play_state, PlayState::InBattle));
    assert!(player.spirits.is_empty());
    let again = WatchSpirits.run(&mut battle, &mut play_state, &mut player);
    assert!(!again.retreated);
    assert!(battle.state.retreating);
}

#[test]
fn the_player_is_beaten_when_no_spirit_is_left() {
    let enemies = vec![fighter(SpiritType::Fire(0), 5, 8, 0)];
    let roster = vec![fighter(SpiritType::Water(0), 12, 3, 1), fighter(SpiritType::Slime(0), 13, 4, 0)];
    let mut battle = Battle::begin(1, &enemies, &roster);
    battle.combatants[1].spirit.health = 0;
    battle.combatants[2].spirit.health = 0;
    let mut play_state = PlayState::InBattle;
    let mut player = Player { spirits: roster };
    let report = WatchSpirits.run(&mut battle, &mut play_state, &mut player);
    assert!(!report.retreated);
    assert!(!report.won);
    assert!(matches!(play_state, PlayState::GameOver));
    assert!(!battle.state.in_combat);
    assert!(!battle.state.retreating);
    assert_eq!(player.spirits.len(), 2);
    assert_eq!(battle.combatants.len(), 3);
}

#[test]
fn outcomes_are_only_watched_in_battle() {
    let mut battle = three_on_one();
    for enemy in 0..3 {
        battle.combatants[enemy].spirit.health = 0;
    }
    let mut play_state = PlayState::InWorld;
    let mut player = Player { spirits: Vec::new() };
    let report = WatchSpirits.run(&mut battle, &mut play_state, &mut player);
    assert!(!report.won && !report.retreated);
    assert!(matches!(play_state, PlayState::InWorld));
    assert_eq!(battle.combatants.len(), 4);
    assert!(battle.state.in_combat);
}

#[test]
fn a_full_roster_loses_every_capture() {
    let enemies = vec![fighter(SpiritType::Fire(0), 5, 8, 0), fighter(SpiritType::Dark(1), 5, 8, 0)];
    let roster: Vec<Spirit> = (0..25).map(|k| fighter(SpiritType::Water(0), 20, k, 0)).collect();
    let mut battle = Battle::begin(3, &enemies, &roster);
    battle.combatants[0].spirit.health = 0;
    battle.combatants[1].spirit.health = 0;
    let mut play_state = PlayState::InBattle;
    let mut player = Player { spirits: roster };
    let report = WatchSpirits.run(&mut battle, &mut play_state, &mut player);
    assert!(report.won);
    match play_state {
        PlayState::Looting { captured, lost } => {
            assert!(captured.is_empty());
            assert_eq!(lost, vec![SpiritType::Fire(0), SpiritType::Dark(1)]);
        },
        _ => panic!("the battle should have been won"),
    }
    assert_eq!(player.spirits.len(), 25);
    for (k, spirit) in player.spirits.iter().enumerate() {
        assert_eq!(spirit.attack, k as u32);
        assert_eq!(spirit.element, SpiritType::Water(0));
    }
}

#[test]
fn captures_fill_the_roster_up_to_its_capacity() {
    let enemies = vec![
        fighter(SpiritType::Fire(0), 5, 8, 0),
        fighter(SpiritType::Dark(1), 5, 8, 0),
        fighter(SpiritType::Slime(2), 5, 8, 0),
    ];
    let roster: Vec<Spirit> = (0..24).map(|k| fighter(SpiritType::Water(0), 20, k, 0)).collect();
    let mut battle = Battle::begin(3, &enemies, &roster);
    for enemy in 0..3 {
        battle.combatants[enemy].spirit.health = 0;
    }
    battle.combatants[5].spirit.health = 0;
    battle.combatants[6].spirit.health = 7;
    let (captured, lost) = spoils(&battle, 24);
    assert_eq!(captured, vec![SpiritType::Fire(0)]);
    assert_eq!(lost, vec![SpiritType::Dark(1), SpiritType::Slime(2)]);
    assert_eq!(spoils(&battle, 22).0.len(), 3);
    assert_eq!(spoils(&battle, 25).0.len(), 0);
    assert_eq!(spoils(&battle, 30).1.len(), 3);
    assert_eq!(
        collect_enemy_elements(&battle),
        vec![SpiritType::Fire(0), SpiritType::Dark(1), SpiritType::Slime(2)]
    );
    assert_eq!(collect_survivors(&battle).len(), 23);

    let mut play_state = PlayState::InBattle;
    let mut player = Player { spirits: roster };
    let report = WatchSpirits.run(&mut battle, &mut play_state, &mut player);
    assert!(report.won);
    assert_eq!(player.spirits.len(), 24);
    assert_eq!(player.spirits[1].attack, 1);
    assert_eq!(player.spirits[2].attack, 3);
    assert_eq!(player.spirits[2].health, 7);
    assert_eq!(player.spirits[23].element, SpiritType::Fire(0));
    assert!(player.spirits[23].max_health >= 10 && player.spirits[23].max_health <= 19);
}

#[test]
fn victory_with_given_recruits() {
    let mut battle = three_on_one();
    for enemy in 0..3 {
        battle.combatants[enemy].spirit.health = 0;
    }
    battle.combatants[3].spirit.health = 11;
    let mut play_state = PlayState::InBattle;
    let mut player = Player { spirits: vec![fighter(SpiritType::Light(2), 40, 14, 0)] };
    let recruits = vec![fighter(SpiritType::Fire(0), 15, 1, 0)];
    let report = WatchSpirits::resolve(&mut battle, &mut play_state, &mut player, recruits);
    assert!(report.won);
    assert_eq!(player.spirits.len(), 2);
    assert_eq!(player.spirits[0].health, 11);
    assert_eq!(player.spirits[1].max_health, 15);
    assert_eq!(battle.state.encounter_entity, Some(7));
}

#[test]
fn a_new_fighter_is_sent_in_by_the_cursor() {
    let enemies = vec![fighter(SpiritType::Fire(0), 5, 8, 0)];
    let roster = vec![
        fighter(SpiritType::Water(0), 12, 3, 1),
        fighter(SpiritType::Slime(0), 13, 4, 0),
        fighter(SpiritType::Dark(0), 14, 5, 0),
    ];
    let mut battle = Battle::begin(1, &enemies, &roster);
    battle.combatants[1].spirit.health = 0;
    battle.state.retreat();
    battle.state.enemy_attacking = Some(1);
    battle.state.notification = Some("...".to_string());
    let cursor = InventoryState { index: 2 };
    assert!(select_fighter(&cursor, &mut battle));
    assert_eq!(battle.state.active_entity, Some(3));
    assert!(!battle.state.retreating);
    assert_eq!(battle.state.enemy_attacking, None);
    assert_eq!(battle.state.notification, None);
    assert!(!battle.combatants[1].player.unwrap().active);
    assert!(!battle.combatants[2].player.unwrap().active);
    assert!(battle.combatants[3].player.unwrap().active);
    assert!(battle.combatants[0].player.is_none());
    assert_eq!(battle.get_active_ally(), Some(3));
}

#[test]
fn a_fallen_spirit_cannot_be_sent_in() {
    let enemies = vec![fighter(SpiritType::Fire(0), 5, 8, 0)];
    let roster = vec![fighter(SpiritType::Water(0), 12, 3, 1), fighter(SpiritType::Slime(0), 13, 4, 0)];
    let mut battle = Battle::begin(1, &enemies, &roster);
    battle.combatants[1].spirit.health = 0;
    battle.state.retreat();
    assert!(!select_fighter(&InventoryState { index: 0 }, &mut battle));
    assert!(battle.state.retreating);
    assert_eq!(battle.state.active_entity, None);
    assert!(!battle.combatants[1].player.unwrap().active);
    assert!(!battle.combatants[2].player.unwrap().active);
    assert!(!select_fighter(&InventoryState { index: 5 }, &mut battle));
    assert!(select_fighter(&InventoryState { index: 1 }, &mut battle));
    assert_eq!(battle.state.active_entity, Some(2));
}

#[test]
fn combatants_can_be_built_by_hand() {
    let battle = Battle {
        state: BattleState::new(),
        combatants: vec![Combatant {
            spirit: fighter(SpiritType::Fire(0), 5, 8, 0),
            player: Some(PlayerSpirit { active: true }),
            effects: CombatEffects::new(Vec::new()),
        }],
    };
    assert_eq!(battle.get_active_ally(), Some(0));
    assert_eq!(count_living_enemies(&battle), 0);
    assert!(Battle::new().combatants.is_empty());
}

#[test]
fn a_heal_runs_out_at_full_health() {
    let healer = Spirit {
        element: SpiritType::Fire(0),
        max_health: 10,
        health: 4,
        defense: 0,
        base_defense: 0,
        attack: 10,
        stamina: 5,
        moves: [
            Move { name: "Blast".to_string(), effect: MoveType::DamageOne(4) },
            Move { name: "Inferno".to_string(), effect: MoveType::DamageMany(3) },
            Move { name: "Recombust".to_string(), effect: MoveType::Heal(8) },
            Move { name: "Heat".to_string(), effect: MoveType::Defend(2) },
        ],
    };
    let mut battle = Battle::begin(1, &vec![fighter(SpiritType::Water(0), 5, 8, 0)], &vec![healer]);
    battle.state.combat_move = Some(2);
    select_target(&mut battle);
    assert!(battle.state.activate);
    assert_eq!(WatchAttack.run(&mut battle), None);
    assert_eq!(queues(&battle), vec![vec![], vec![CombatEffect::Heal(13)]]);
    for tick in 1..=6u32 {
        assert!(TickEffects.run(&mut battle, PAST_WINDOW));
        assert_eq!(healths(&battle), vec![5, 4 + tick]);
        assert!(battle.state.animating);
    }
    assert_eq!(queues(&battle)[1], vec![CombatEffect::Heal(7)]);
    assert!(TickEffects.run(&mut battle, PAST_WINDOW));
    assert_eq!(healths(&battle), vec![5, 10]);
    assert!(queues(&battle)[1].is_empty());
    assert!(!battle.state.animating);
    assert!(!TickEffects.run(&mut battle, PAST_WINDOW));
    assert_eq!(healths(&battle), vec![5, 10]);
}

#[test]
fn a_round_goes_from_the_player_to_each_enemy_and_back() {
    let mut battle = three_on_one();
    battle.combatants[3].spirit.max_health = 4000;
    battle.combatants[3].spirit.health = 4000;
    battle.state.combat_move = Some(3);
    battle.want_attack();
    WatchAttack.run(&mut battle);
    let mut acted = 0;
    for _ in 0..400 {
        assert!(battle.check());
        if battle.state.animating() {
            assert!(!EnemyCombat.run(&mut battle).acted);
        } else if EnemyCombat.run(&mut battle).acted {
            acted += 1;
            assert!(battle.state.notifying());
            battle.want_attack();
            assert!(!battle.state.activate);
            battle.state.clear_notification();
        }
        TickEffects.run(&mut battle, PAST_WINDOW);
        if battle.state.enemy_attacking.is_none() && !battle.state.animating() {
            break;
        }
    }
    assert_eq!(acted, 3);
    assert_eq!(battle.state.enemy_attacking, None);
    battle.want_attack();
    assert!(battle.state.activate);
}

#[test]
fn battles_can_be_checked_for_order() {
    let mut battle = three_on_one();
    assert!(battle.check());
    battle.combatants[0].effects.enqueue(CombatEffect::Damage(1));
    assert!(!battle.check());
    battle.state.animating = true;
    assert!(battle.check());
    battle.state.activate = true;
    assert!(!battle.check());
    battle.state.activate = false;
    battle.combatants[1].spirit.health = 6;
    assert!(!battle.check());
    battle.combatants[1].spirit.health = 5;
    battle.combatants[2].spirit.defense = -1;
    assert!(!battle.check());
    battle.combatants[2].spirit.defense = 0;
    battle.combatants[2].spirit.element = SpiritType::Slime(3);
    assert!(!battle.check());
    let mut pending = three_on_one();
    pending.state.activate = true;
    assert!(pending.check());
    pending.state.enemy_attacking = Some(0);
    assert!(!pending.check());
}

#[test]
fn rosters_can_be_checked_for_order() {
    let mut player = Player {
        spirits: vec![fighter(SpiritType::Fire(0), 5, 8, 0), fighter(SpiritType::Dark(2), 5, 8, 1)],
    };
    assert!(player.check());
    assert!(player.spirits[1].check());
    assert!(SpiritType::Dark(2).check());
    assert!(!SpiritType::Dark(3).check());
    player.spirits[1].health = 9;
    assert!(!player.spirits[1].check());
    assert!(!player.check());
    assert!(Player { spirits: Vec::new() }.check());
}

#[test]
fn a_commit_without_a_fighter_or_a_move_waits() {
    let mut battle = three_on_one();
    battle.combatants[3].spirit.health = 0;
    battle.state.activate = true;
    assert_eq!(WatchAttack::resolve(&mut battle, &[0, 0, 0]), None);
    assert!(battle.state.activate);
    assert_eq!(battle.state.enemy_attacking, None);
    assert!(queues(&battle).iter().all(|q| q.is_empty()));

    let mut other = three_on_one();
    other.state.activate = true;
    other.state.combat_move = None;
    assert_eq!(WatchAttack.run(&mut other), None);
    assert!(other.state.activate);
    assert!(queues(&other).iter().all(|q| q.is_empty()));

    let mut alone = three_on_one();
    for enemy in 0..3 {
        alone.combatants[enemy].spirit.health = 0;
    }
    alone.state.combat_move = Some(0);
    alone.want_attack();
    assert_eq!(WatchAttack.run(&mut alone), Some(SpiritType::Light(2)));
    assert!(queues(&alone).iter().all(|q| q.is_empty()));
    assert!(!alone.state.activate);
    assert_eq!(alone.state.enemy_attacking, Some(2));
    assert!(alone.state.animating);
}
