use spirit_battle::battle::{Battle, BattleState};
use spirit_battle::element::SpiritType;
use spirit_battle::menus::{
    HandleBattleMenu, HandleInventory, HandleLootMenu, HandleMainMenu, HandleMove, InventoryState,
};
use spirit_battle::moves::{Move, MoveType};
use spirit_battle::play::{Direction, InputState, PlayState, SoundCue};
use spirit_battle::roster::Player;
use spirit_battle::spirit::Spirit;

fn walker(element: SpiritType, health: u32, attack: u32) -> Spirit {
    Spirit {
        element,
        max_health: 20,
        health,
        defense: 0,
        base_defense: 0,
        attack,
        stamina: 5,
        moves: [
            Move { name: "Blast".to_string(), effect: MoveType::DamageOne(4) },
            Move { name: "Inferno".to_string(), effect: MoveType::DamageMany(3) },
            Move { name: "Recombust".to_string(), effect: MoveType::Heal(8) },
            Move { name: "Heat".to_string(), effect: MoveType::Defend(2) },
        ],
    }
}

fn menu_state(cursor: usize) -> BattleState {
    let mut state = BattleState::new();
    state.combat_move = Some(cursor);
    state.active_entity = Some(1);
    state
}

#[test]
fn the_move_cursor_walks_a_two_by_two_grid() {
    let steps = [
        (0, Direction::Up, 2),
        (0, Direction::Down, 2),
        (0, Direction::Left, 3),
        (0, Direction::Right, 1),
        (1, Direction::Up, 3),
        (1, Direction::Down, 3),
        (1, Direction::Left, 0),
        (1, Direction::Right, 2),
        (2, Direction::Up, 0),
        (2, Direction::Down, 0),
        (2, Direction::Left, 1),
        (2, Direction::Right, 3),
        (3, Direction::Up, 1),
        (3, Direction::Down, 1),
        (3, Direction::Left, 2),
        (3, Direction::Right, 0),
    ];
    for (from, direction, to) in steps {
        let mut state = menu_state(from);
        let mut input = InputState::Move(direction);
        let sound = HandleBattleMenu.run(&PlayState::InBattle, &mut input, &mut state);
        assert_eq!(sound, Some(SoundCue::Blip));
        assert_eq!(state.combat_move, Some(to));
        assert_eq!(input, InputState::Rest);
    }
}

#[test]
fn the_move_cursor_stays_in_range_from_anywhere() {
    let mut state = menu_state(usize::MAX);
    let mut input = InputState::Move(Direction::Right);
    HandleBattleMenu.run(&PlayState::InBattle, &mut input, &mut state);
    assert_eq!(state.combat_move, Some((usize::MAX % 4 + 1) % 4));
    let mut none = BattleState::new();
    let mut input = InputState::Move(Direction::Right);
    let sound = HandleBattleMenu.run(&PlayState::InBattle, &mut input, &mut none);
    assert_eq!(sound, None);
    assert_eq!(none.combat_move, None);
    assert_eq!(input, InputState::Rest);
}

#[test]
fn select_commits_and_escape_retreats() {
    let mut state = menu_state(0);
    let mut input = InputState::Select;
    assert_eq!(HandleBattleMenu.run(&PlayState::InBattle, &mut input, &mut state), None);
    assert!(state.activate);
    assert_eq!(input, InputState::Rest);

    let mut pending = menu_state(0);
    pending.enemy_attacking = Some(1);
    let mut input = InputState::Select;
    HandleBattleMenu.run(&PlayState::InBattle, &mut input, &mut pending);
    assert!(!pending.activate);
    assert_eq!(input, InputState::Rest);

    let mut input = InputState::Escape;
    HandleBattleMenu.run(&PlayState::InBattle, &mut input, &mut state);
    assert!(state.retreating);
    assert_eq!(state.active_entity, None);
    assert_eq!(input, InputState::Rest);
}

#[test]
fn a_notification_is_acknowledged_before_anything_else() {
    let mut state = menu_state(0);
    state.notify("Imp uses (Fight)!".to_string());
    state.animating = true;
    let mut input = InputState::Select;
    assert_eq!(HandleBattleMenu.run(&PlayState::InBattle, &mut input, &mut state), None);
    assert!(state.notifying());
    assert_eq!(input, InputState::Select);
    state.animating = false;
    let mut rest = InputState::Rest;
    assert_eq!(HandleBattleMenu.run(&PlayState::InBattle, &mut rest, &mut state), None);
    assert!(state.notifying());
    let sound = HandleBattleMenu.run(&PlayState::InBattle, &mut input, &mut state);
    assert_eq!(sound, Some(SoundCue::Confirm));
    assert!(!state.notifying());
    assert!(!state.activate);
    assert_eq!(input, InputState::Rest);
}

#[test]
fn the_battle_menu_sleeps_outside_battle_and_during_retreat() {
    let mut state = menu_state(0);
    let mut input = InputState::Select;
    assert_eq!(HandleBattleMenu.run(&PlayState::InWorld, &mut input, &mut state), None);
    assert!(!state.activate);
    assert_eq!(input, InputState::Select);
    state.retreating = true;
    assert_eq!(HandleBattleMenu.run(&PlayState::InBattle, &mut input, &mut state), None);
    assert!(!state.activate);
    assert_eq!(input, InputState::Select);
}

#[test]
fn the_roster_cursor_stays_on_its_grid() {
    let mut cursor = InventoryState::new();
    assert_eq!(cursor.index, 0);
    assert!(!cursor.move_cursor(Direction::Up));
    assert!(!cursor.move_cursor(Direction::Left));
    assert!(cursor.move_cursor(Direction::Right));
    assert_eq!(cursor.index, 1);
    assert!(cursor.move_cursor(Direction::Down));
    assert_eq!(cursor.index, 6);
    assert!(cursor.move_cursor(Direction::Left));
    assert_eq!(cursor.index, 5);
    assert!(cursor.move_cursor(Direction::Left));
    assert_eq!(cursor.index, 4);
    assert!(!cursor.move_cursor(Direction::Up));
    assert!(cursor.move_cursor(Direction::Down));
    assert!(cursor.move_cursor(Direction::Up));
    assert_eq!(cursor.index, 4);
    cursor.index = 19;
    assert!(cursor.move_cursor(Direction::Down));
    assert_eq!(cursor.index, 24);
    assert!(!cursor.move_cursor(Direction::Down));
    assert!(!cursor.move_cursor(Direction::Right));
    assert_eq!(cursor.index, 24);
    cursor.index = 20;
    assert!(!cursor.move_cursor(Direction::Down));
    assert!(cursor.move_cursor(Direction::Right));
    assert_eq!(cursor.index, 21);
}

#[test]
fn the_roster_screen_fuses_between_battles() {
    let mut play_state = PlayState::Combining;
    let mut battle = Battle::new();
    let mut cursor = InventoryState { index: 1 };
    let mut player = Player {
        spirits: (0..4).map(|k| walker(SpiritType::Fire(0), 20, k)).collect(),
    };
    let mut input = InputState::Move(Direction::Right);
    let sound = HandleInventory.run(&mut play_state, &mut input, &mut battle, &mut cursor, &mut player);
    assert_eq!(sound, Some(SoundCue::Blip));
    assert_eq!(cursor.index, 2);
    assert_eq!(input, InputState::Rest);

    let mut input = InputState::Select;
    let sound = HandleInventory.run(&mut play_state, &mut input, &mut battle, &mut cursor, &mut player);
    assert_eq!(sound, Some(SoundCue::Collide));
    assert_eq!(player.spirits.len(), 1);
    assert_eq!(player.spirits[0].element, SpiritType::Fire(1));
    assert_eq!(player.spirits[0].attack, 2);
    assert_eq!(player.spirits[0].max_health, 80);
    assert_eq!(input, InputState::Rest);

    let mut input = InputState::Select;
    let sound = HandleInventory.run(&mut play_state, &mut input, &mut battle, &mut cursor, &mut player);
    assert_eq!(sound, None);
    assert_eq!(player.spirits.len(), 1);
    assert_eq!(input, InputState::Rest);

    let mut input = InputState::Escape;
    let sound = HandleInventory.run(&mut play_state, &mut input, &mut battle, &mut cursor, &mut player);
    assert_eq!(sound, Some(SoundCue::Cancel));
    assert!(matches!(play_state, PlayState::InWorld));
    assert_eq!(input, InputState::Rest);
}

#[test]
fn the_roster_screen_sends_in_a_fighter_during_a_retreat() {
    let roster = vec![walker(SpiritType::Water(0), 0, 0), walker(SpiritType::Slime(0), 9, 1)];
    let mut battle = Battle::begin(1, &vec![walker(SpiritType::Fire(0), 5, 8)], &roster);
    battle.state.retreat();
    let mut play_state = PlayState::InBattle;
    let mut cursor = InventoryState { index: 0 };
    let mut player = Player { spirits: roster };

    let mut input = InputState::Select;
    let sound = HandleInventory.run(&mut play_state, &mut input, &mut battle, &mut cursor, &mut player);
    assert_eq!(sound, None);
    assert!(battle.state.retreating);
    assert_eq!(input, InputState::Rest);

    let mut input = InputState::Escape;
    let sound = HandleInventory.run(&mut play_state, &mut input, &mut battle, &mut cursor, &mut player);
    assert_eq!(sound, None);
    assert_eq!(input, InputState::Escape);
    assert!(matches!(play_state, PlayState::InBattle));

    let mut input = InputState::Move(Direction::Right);
    HandleInventory.run(&mut play_state, &mut input, &mut battle, &mut cursor, &mut player);
    assert_eq!(cursor.index, 1);
    let mut input = InputState::Select;
    let sound = HandleInventory.run(&mut play_state, &mut input, &mut battle, &mut cursor, &mut player);
    assert_eq!(sound, Some(SoundCue::Confirm));
    assert!(!battle.state.retreating);
    assert_eq!(battle.state.active_entity, Some(2));
    assert_eq!(player.spirits.len(), 2);
}

#[test]
fn the_roster_screen_sleeps_elsewhere() {
    let mut play_state = PlayState::InBattle;
    let mut battle = Battle::new();
    let mut cursor = InventoryState { index: 3 };
    let mut player = Player { spirits: Vec::new() };
    let mut input = InputState::Move(Direction::Left);
    let sound = HandleInventory.run(&mut play_state, &mut input, &mut battle, &mut cursor, &mut player);
    assert_eq!(sound, None);
    assert_eq!(cursor.index, 3);
    assert_eq!(input, InputState::Move(Direction::Left));
    let mut world = PlayState::InWorld;
    let sound = HandleInventory.run(&mut world, &mut input, &mut battle, &mut cursor, &mut player);
    assert_eq!(sound, None);
    assert_eq!(cursor.index, 3);
}

#[test]
fn the_spoils_are_left_by_select_or_escape() {
    for key in [InputState::Select, InputState::Escape] {
        let mut play_state = PlayState::Looting {
            captured: vec![SpiritType::Fire(0)],
            lost: Vec::new(),
        };
        let mut input = key;
        assert_eq!(HandleLootMenu.run(&mut play_state, &mut input), Some(SoundCue::Confirm));
        assert!(matches!(play_state, PlayState::InWorld));
        assert_eq!(input, InputState::Rest);
    }
    let mut play_state = PlayState::Looting { captured: Vec::new(), lost: Vec::new() };
    let mut input = InputState::Move(Direction::Up);
    assert_eq!(HandleLootMenu.run(&mut play_state, &mut input), None);
    assert!(matches!(play_state, PlayState::Looting { .. }));
    assert_eq!(input, InputState::Move(Direction::Up));
    let mut battle = PlayState::InBattle;
    let mut input = InputState::Select;
    assert_eq!(HandleLootMenu.run(&mut battle, &mut input), None);
    assert!(matches!(battle, PlayState::InBattle));
}

#[test]
fn the_main_menu_picks_entries_by_direction() {
    let entries = [
        (Direction::Up, 0),
        (Direction::Right, 1),
        (Direction::Down, 2),
        (Direction::Left, 3),
    ];
    for (direction, entry) in entries {
        let mut play_state = PlayState::MainMenu(0);
        let mut input = InputState::Move(direction);
        assert_eq!(HandleMainMenu.run(&mut play_state, &mut input), Some(SoundCue::Blip));
        assert!(matches!(play_state, PlayState::MainMenu(e) if e == entry));
        assert_eq!(input, InputState::Rest);
    }
}

#[test]
fn the_game_starts_from_the_first_entry_only() {
    let mut play_state = PlayState::MainMenu(0);
    let mut input = InputState::Select;
    assert_eq!(HandleMainMenu.run(&mut play_state, &mut input), Some(SoundCue::Confirm));
    assert!(matches!(play_state, PlayState::Stairs(0)));
    assert_eq!(input, InputState::Rest);

    let mut other = PlayState::MainMenu(2);
    let mut input = InputState::Select;
    assert_eq!(HandleMainMenu.run(&mut other, &mut input), None);
    assert!(matches!(other, PlayState::MainMenu(2)));
    assert_eq!(input, InputState::Select);
}

#[test]
fn any_key_leaves_the_game_over_screen() {
    for key in [InputState::Select, InputState::Escape, InputState::Move(Direction::Down)] {
        let mut play_state = PlayState::GameOver;
        let mut input = key;
        assert_eq!(HandleMainMenu.run(&mut play_state, &mut input), Some(SoundCue::Confirm));
        assert!(matches!(play_state, PlayState::MainMenu(0)));
        assert_eq!(input, InputState::Rest);
    }
    let mut play_state = PlayState::GameOver;
    let mut input = InputState::Rest;
    assert_eq!(HandleMainMenu.run(&mut play_state, &mut input), None);
    assert!(matches!(play_state, PlayState::GameOver));
}

#[test]
fn walking_and_opening_the_roster() {
    let mut play_state = PlayState::InWorld;
    let mut input = InputState::Move(Direction::Left);
    let report = HandleMove.run(&mut play_state, &mut input);
    assert_eq!(report.walk, Some(Direction::Left));
    assert_eq!(report.sound, None);
    assert_eq!(input, InputState::Rest);
    assert!(matches!(play_state, PlayState::InWorld));

    let mut input = InputState::Escape;
    let report = HandleMove.run(&mut play_state, &mut input);
    assert_eq!(report.walk, None);
    assert_eq!(report.sound, Some(SoundCue::Cancel));
    assert!(matches!(play_state, PlayState::Combining));
    assert_eq!(input, InputState::Rest);

    let mut input = InputState::Move(Direction::Left);
    let report = HandleMove.run(&mut play_state, &mut input);
    assert_eq!(report.walk, None);
    assert_eq!(input, InputState::Move(Direction::Left));
    let mut world = PlayState::InWorld;
    let mut input = InputState::Select;
    let report = HandleMove.run(&mut world, &mut input);
    assert_eq!(report.walk, None);
    assert_eq!(report.sound, None);
    assert_eq!(input, InputState::Select);
}

#[test]
fn the_cursor_can_be_moved_directly() {
    let mut state = menu_state(1);
    assert!(state.select_move(Direction::Down));
    assert_eq!(state.combat_move, Some(3));
    assert!(state.select_move(Direction::Right));
    assert_eq!(state.combat_move, Some(0));
    let mut none = BattleState::new();
    assert!(!none.select_move(Direction::Up));
    assert_eq!(none.combat_move, None);
}
