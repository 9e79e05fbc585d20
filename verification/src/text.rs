//! The words of the game: spirit names, move descriptions and the lines of
//! the combat log.

use vstd::prelude::*;
use vstd::string::StringExecFns;
use crate::element::{can_upgrade, required_spirits, SpiritType};
use crate::moves::{Move, MoveType};
use crate::spirit::Spirit;

verus! {

/// The character of a decimal digit.
pub open spec fn digit_char(digit: int) -> char {
    if digit == 0 {
        '0'
    } else if digit == 1 {
        '1'
    } else if digit == 2 {
        '2'
    } else if digit == 3 {
        '3'
    } else if digit == 4 {
        '4'
    } else if digit == 5 {
        '5'
    } else if digit == 6 {
        '6'
    } else if digit == 7 {
        '7'
    } else if digit == 8 {
        '8'
    } else {
        '9'
    }
}

/// A number written in decimal, without sign or padding.
pub open spec fn decimal(n: nat) -> Seq<char>
    decreases n,
{
    if n < 10 {
        seq![digit_char(n as int)]
    } else {
        decimal(n / 10).push(digit_char((n % 10) as int))
    }
}

/// What a spirit of the element is called at its level.
pub open spec fn name_of(element: SpiritType) -> Seq<char> {
    match element {
        SpiritType::Fire(level) => if level == 0 {
            "Ember"@
        } else if level == 1 {
            "Fire Elemental"@
        } else if level == 2 {
            "Grand Efreet"@
        } else {
            "Unknown"@
        },
        SpiritType::Water(level) => if level == 0 {
            "Nymph"@
        } else if level == 1 {
            "Water Maiden"@
        } else if level == 2 {
            "Leviathan"@
        } else {
            "Unknown"@
        },
        SpiritType::Slime(level) => if level == 0 {
            "Lesser Slime"@
        } else if level == 1 {
            "Slime"@
        } else if level == 2 {
            "Greater Slime"@
        } else {
            "Unknown"@
        },
        SpiritType::Dark(level) => if level == 0 {
            "Imp"@
        } else if level == 1 {
            "Fiend"@
        } else if level == 2 {
            "War sDominator"@
        } else {
            "Unknown"@
        },
        SpiritType::Light(level) => if level == 0 {
            "Wisp"@
        } else if level == 1 {
            "Guardian"@
        } else if level == 2 {
            "Holy Angel"@
        } else {
            "Unknown"@
        },
    }
}

/// What kind of being the element is, for the level line.
pub open spec fn kind_of(element: SpiritType) -> Seq<char> {
    match element {
        SpiritType::Fire(_) => " Fire Elemental"@,
        SpiritType::Water(_) => " Water Elemental"@,
        SpiritType::Slime(_) => " Slime"@,
        SpiritType::Light(_) => " Spirit of Light"@,
        SpiritType::Dark(_) => " Spirit of Darkness"@,
    }
}

/// How a fusion of the element is worded, up to the number required.
pub open spec fn fusion_verb(element: SpiritType) -> Seq<char> {
    match element {
        SpiritType::Fire(_) => "Can combust with "@,
        SpiritType::Water(_) => "Can mingle with "@,
        SpiritType::Slime(_) => "Can absorb "@,
        SpiritType::Light(_) => "Can accept the sacrifies of "@,
        SpiritType::Dark(_) => "Can consume "@,
    }
}

/// The line that tells what a spirit's level is.
pub open spec fn level_line(element: SpiritType) -> Seq<char> {
    "Level "@ + decimal(element.spec_level() as nat) + kind_of(element)
}

/// The line that tells whether and how a spirit can fuse.
pub open spec fn collide_line(element: SpiritType) -> Seq<char> {
    if element.spec_level() == crate::element::MAX_LEVEL {
        "Cannot exceed its current power"@
    } else {
        fusion_verb(element) + decimal(element.spec_required() as nat) + " "@ + name_of(element)
            + " to become a "@ + name_of(element.at_level((element.spec_level() + 1) as u32))
    }
}

/// What a move does, in words.
pub open spec fn effect_line(effect: MoveType) -> Seq<char> {
    match effect {
        MoveType::DamageMany(amount) => "Deals ~"@ + decimal(amount as nat)
            + " damage to 3 enemies"@,
        MoveType::DamageOne(amount) => "Deals ~"@ + decimal(amount as nat)
            + " damage and strips defense"@,
        MoveType::Heal(amount) => "Heals you for ~"@ + decimal(amount as nat),
        MoveType::Defend(amount) => "Raises your defence by ~"@ + decimal(amount as nat),
    }
}

/// A move's name over its description.
pub open spec fn move_line(name: Seq<char>, effect: MoveType) -> Seq<char> {
    name + "\n"@ + effect_line(effect)
}

/// How every combat-log line begins: who uses what.
pub open spec fn uses_line(user: SpiritType, move_name: Seq<char>) -> Seq<char> {
    name_of(user) + " uses "@ + move_name
}

/// The combat-log line of an attack.
pub open spec fn damage_line(
    user: SpiritType,
    move_name: Seq<char>,
    target: SpiritType,
    amount: nat,
    is_enemy: bool,
) -> Seq<char> {
    uses_line(user, move_name) + "!\nIt deals "@ + decimal(amount) + " damage to "@ + (if is_enemy {
        "your"@
    } else {
        "the enemy"@
    }) + " "@ + name_of(target) + "!"@
}

/// The combat-log line of a heal.
pub open spec fn heal_line(user: SpiritType, move_name: Seq<char>, amount: nat) -> Seq<char> {
    uses_line(user, move_name) + "!\nIt heals "@ + decimal(amount) + "!"@
}

/// The combat-log line of a defense move.
pub open spec fn defense_line(user: SpiritType, move_name: Seq<char>, amount: nat) -> Seq<char> {
    uses_line(user, move_name) + "!\nIt raises its defense by "@ + decimal(amount) + "!"@
}

/// A spirit's health over its maximum.
pub open spec fn health_line(health: nat, max_health: nat) -> Seq<char> {
    decimal(health) + " / "@ + decimal(max_health)
}

/// The grade of an attack or stamina value.
pub open spec fn grade(value: u32) -> Seq<char> {
    if value == 0 {
        "F-"@
    } else if value == 1 {
        "F"@
    } else if value == 2 {
        "F+"@
    } else if value == 3 {
        "D-"@
    } else if value == 4 {
        "D"@
    } else if value == 5 {
        "D+"@
    } else if value == 6 {
        "C-"@
    } else if value == 7 {
        "C"@
    } else if value == 8 {
        "C+"@
    } else if value == 9 {
        "B-"@
    } else if value == 10 {
        "B"@
    } else if value == 11 {
        "B+"@
    } else if value == 12 {
        "A-"@
    } else if value == 13 {
        "A"@
    } else {
        "A+"@
    }
}

/// The grade of a resting defense.
pub open spec fn defense_grade(value: i32) -> Seq<char> {
    if value == 0 {
        "F"@
    } else if value == 1 {
        "D"@
    } else if value == 2 {
        "C"@
    } else if value == 3 {
        "B"@
    } else {
        "A"@
    }
}

/// The line that grades a spirit's attack, stamina and resting defense.
pub open spec fn ratings_line(attack: u32, stamina: u32, base_defense: i32) -> Seq<char> {
    "Ratings: x("@ + grade(attack) + ")h("@ + grade(stamina) + ")d("@ + defense_grade(base_defense)
        + ")"@
}

fn digit_text(digit: u32) -> (text: &'static str)
    requires
        digit < 10,
    ensures
        text@ == seq![digit_char(digit as int)],
{
    proof {
        reveal_strlit("0");
        reveal_strlit("1");
        reveal_strlit("2");
        reveal_strlit("3");
        reveal_strlit("4");
        reveal_strlit("5");
        reveal_strlit("6");
        reveal_strlit("7");
        reveal_strlit("8");
        reveal_strlit("9");
    }
    let text = if digit == 0 {
        "0"
    } else if digit == 1 {
        "1"
    } else if digit == 2 {
        "2"
    } else if digit == 3 {
        "3"
    } else if digit == 4 {
        "4"
    } else if digit == 5 {
        "5"
    } else if digit == 6 {
        "6"
    } else if digit == 7 {
        "7"
    } else if digit == 8 {
        "8"
    } else {
        "9"
    };
    assert(text@ =~= seq![digit_char(digit as int)]);
    text
}

/// Appends a number in decimal.
pub fn push_decimal(text: &mut String, n: u32)
    ensures
        final(text)@ == old(text)@ + decimal(n as nat),
    decreases n,
{
    if n >= 10 {
        push_decimal(text, n / 10);
    }
    text.append(digit_text(n % 10));
    assert(text@ =~= old(text)@ + decimal(n as nat));
}

/// What a spirit of the element is called at its level.
pub fn spirit_name(element: &SpiritType) -> (name: String)
    ensures
        name@ == name_of(*element),
{
    let name = match element {
        SpiritType::Fire(0) => "Ember",
        SpiritType::Fire(1) => "Fire Elemental",
        SpiritType::Fire(2) => "Grand Efreet",
        SpiritType::Water(0) => "Nymph",
        SpiritType::Water(1) => "Water Maiden",
        SpiritType::Water(2) => "Leviathan",
        SpiritType::Slime(0) => "Lesser Slime",
        SpiritType::Slime(1) => "Slime",
        SpiritType::Slime(2) => "Greater Slime",
        SpiritType::Dark(0) => "Imp",
        SpiritType::Dark(1) => "Fiend",
        SpiritType::Dark(2) => "War sDominator",
        SpiritType::Light(0) => "Wisp",
        SpiritType::Light(1) => "Guardian",
        SpiritType::Light(2) => "Holy Angel",
        _ => "Unknown",
    };
    name.to_owned()
}

/// The line that tells what a spirit's level is.
pub fn spirit_level_text(element: &SpiritType) -> (text: String)
    ensures
        text@ == level_line(*element),
{
    let mut text = "Level ".to_owned();
    push_decimal(&mut text, element.level());
    text.append(
        match element {
            SpiritType::Fire(_) => " Fire Elemental",
            SpiritType::Water(_) => " Water Elemental",
            SpiritType::Slime(_) => " Slime",
            SpiritType::Light(_) => " Spirit of Light",
            SpiritType::Dark(_) => " Spirit of Darkness",
        },
    );
    text
}

/// The line that tells whether and how a spirit can fuse.
pub fn collide_text(element: &SpiritType) -> (text: String)
    requires
        element.well_formed(),
    ensures
        text@ == collide_line(*element),
{
    if !can_upgrade(element) {
        "Cannot exceed its current power".to_owned()
    } else {
        let mut text = match element {
            SpiritType::Fire(_) => "Can combust with ",
            SpiritType::Water(_) => "Can mingle with ",
            SpiritType::Slime(_) => "Can absorb ",
            SpiritType::Light(_) => "Can accept the sacrifies of ",
            SpiritType::Dark(_) => "Can consume ",
        }.to_owned();
        push_decimal(&mut text, required_spirits(element));
        text.append(" ");
        text.append(spirit_name(element).as_str());
        text.append(" to become a ");
        text.append(spirit_name(&element.next_level()).as_str());
        text
    }
}

/// A move's name over its description.
pub fn move_text(combat_move: &Move) -> (text: String)
    ensures
        text@ == move_line(combat_move.name@, combat_move.effect),
{
    let mut text = combat_move.name.clone();
    text.append("\n");
    let ghost head = text@;
    match combat_move.effect {
        MoveType::DamageMany(amount) => {
            text.append("Deals ~");
            push_decimal(&mut text, amount);
            text.append(" damage to 3 enemies");
        },
        MoveType::DamageOne(amount) => {
            text.append("Deals ~");
            push_decimal(&mut text, amount);
            text.append(" damage and strips defense");
        },
        MoveType::Heal(amount) => {
            text.append("Heals you for ~");
            push_decimal(&mut text, amount);
        },
        MoveType::Defend(amount) => {
            text.append("Raises your defence by ~");
            push_decimal(&mut text, amount);
        },
    }
    assert(text@ =~= head + effect_line(combat_move.effect));
    text
}

fn uses_text(combat_move: &Move, spirit: &Spirit) -> (text: String)
    ensures
        text@ == uses_line(spirit.element, combat_move.name@),
{
    let mut text = spirit_name(&spirit.element);
    text.append(" uses ");
    text.append(combat_move.name.as_str());
    text
}

/// The combat-log line of an attack.
pub fn damage_one_text(
    combat_move: &Move,
    spirit: &Spirit,
    target: &Spirit,
    amount: u32,
    is_enemy: bool,
) -> (text: String)
    ensures
        text@ == damage_line(
            spirit.element,
            combat_move.name@,
            target.element,
            amount as nat,
            is_enemy,
        ),
{
    let mut text = uses_text(combat_move, spirit);
    text.append("!\nIt deals ");
    push_decimal(&mut text, amount);
    text.append(" damage to ");
    text.append(
        if is_enemy {
            "your"
        } else {
            "the enemy"
        },
    );
    text.append(" ");
    text.append(spirit_name(&target.element).as_str());
    text.append("!");
    text
}

/// The combat-log line of a heal.
pub fn heal_text(combat_move: &Move, spirit: &Spirit, amount: u32) -> (text: String)
    ensures
        text@ == heal_line(spirit.element, combat_move.name@, amount as nat),
{
    let mut text = uses_text(combat_move, spirit);
    text.append("!\nIt heals ");
    push_decimal(&mut text, amount);
    text.append("!");
    text
}

/// The combat-log line of a defense move.
pub fn defense_text(combat_move: &Move, spirit: &Spirit, amount: u32) -> (text: String)
    ensures
        text@ == defense_line(spirit.element, combat_move.name@, amount as nat),
{
    let mut text = uses_text(combat_move, spirit);
    text.append("!\nIt raises its defense by ");
    push_decimal(&mut text, amount);
    text.append("!");
    text
}

/// A spirit's health over its maximum.
pub fn health(spirit: &Spirit) -> (text: String)
    ensures
        text@ == health_line(spirit.health as nat, spirit.max_health as nat),
{
    let mut text = String::new();
    push_decimal(&mut text, spirit.health);
    text.append(" / ");
    push_decimal(&mut text, spirit.max_health);
    assert(text@ =~= health_line(spirit.health as nat, spirit.max_health as nat));
    text
}

fn grade_text(value: u32) -> (text: &'static str)
    ensures
        text@ == grade(value),
{
    match value {
        0 => "F-",
        1 => "F",
        2 => "F+",
        3 => "D-",
        4 => "D",
        5 => "D+",
        6 => "C-",
        7 => "C",
        8 => "C+",
        9 => "B-",
        10 => "B",
        11 => "B+",
        12 => "A-",
        13 => "A",
        _ => "A+",
    }
}

/// The line that grades a spirit's attack, stamina and resting defense.
pub fn iv_text(spirit: &Spirit) -> (text: String)
    ensures
        text@ == ratings_line(spirit.attack, spirit.stamina, spirit.base_defense),
{
    let mut text = "Ratings: x(".to_owned();
    text.append(grade_text(spirit.attack));
    text.append(")h(");
    text.append(grade_text(spirit.stamina));
    text.append(")d(");
    text.append(
        match spirit.base_defense {
            0 => "F",
            1 => "D",
            2 => "C",
            3 => "B",
            _ => "A",
        },
    );
    text.append(")");
    text
}

} // verus!
