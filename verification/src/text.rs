//! The texts the interface shows.
use vstd::prelude::*;
use crate::directions::Coord;
use crate::transfer::TransferType;

verus! {

/// The character of a decimal digit.
pub open spec fn spec_digit(d: nat) -> char {
    (48 + d) as char
}

/// The decimal digits of a natural number, most significant first.
pub open spec fn spec_digits(n: nat) -> Seq<char>
    decreases n,
{
    if n < 10 {
        seq![spec_digit(n)]
    } else {
        spec_digits(n / 10).push(spec_digit(n % 10))
    }
}

/// The decimal text of an integer, with a leading minus sign where it is negative.
pub open spec fn spec_decimal(n: int) -> Seq<char> {
    if n < 0 {
        seq!['-'] + spec_digits((-n) as nat)
    } else {
        spec_digits(n as nat)
    }
}

/// The text of one decimal digit.
fn digit_text(d: u64) -> (res: &'static str)
    requires
        d < 10,
    ensures
        res@ == seq![spec_digit(d as nat)],
{
    proof {
        reveal_strlit("0");
        reveal_strlit("1");
        reveal_strlit("2");
        reveal_strlit("3");
        reveal_strlit("4");
        reveal_strlit("5");
        reveal_strlit("6");
        reveal_strlit("7");
        reveal_strlit("8");
        reveal_strlit("9");
    }
    if d == 0 {
        "0"
    } else if d == 1 {
        "1"
    } else if d == 2 {
        "2"
    } else if d == 3 {
        "3"
    } else if d == 4 {
        "4"
    } else if d == 5 {
        "5"
    } else if d == 6 {
        "6"
    } else if d == 7 {
        "7"
    } else if d == 8 {
        "8"
    } else {
        "9"
    }
}

/// The decimal digits of a natural number, most significant first.
fn digits_text(n: u64) -> (res: String)
    ensures
        res@ == spec_digits(n as nat),
    decreases n,
{
    if n < 10 {
        String::from_str(digit_text(n))
    } else {
        digits_text(n / 10).concat(digit_text(n % 10))
    }
}

/// The decimal text of an integer, as `Display` writes it: its digits, with a
/// leading minus sign where it is negative.
pub fn decimal_text(n: i64) -> (res: String)
    ensures
        res@ == spec_decimal(n as int),
{
    if n < 0 {
        let magnitude: u64 = (0i128 - n as i128) as u64;
        proof {
            reveal_strlit("-");
        }
        let res = String::from_str("-").concat(digits_text(magnitude).as_str());
        assert(res@ =~= seq!['-'] + spec_digits((-n) as nat));
        res
    } else {
        digits_text(n as u64)
    }
}

/// The label of the camping amount.
pub fn amount_label(amount: i32) -> (res: String)
    ensures
        res@ == "Amount: "@ + spec_decimal(amount as int),
{
    String::from_str("Amount: ").concat(decimal_text(amount as i64).as_str())
}

/// The text of a coordinate, as the stairs' position is shown: `x, y`.
pub fn coord_text(c: Coord) -> (res: String)
    ensures
        res@ == spec_decimal(c.x as int) + ", "@ + spec_decimal(c.y as int),
{
    decimal_text(c.x as i64).concat(", ").concat(decimal_text(c.y as i64).as_str())
}

/// The price of a shop item: the amount followed by `g`.
pub fn price_text(price: i64) -> (res: String)
    ensures
        res@ == spec_decimal(price as int) + "g"@,
{
    decimal_text(price).concat("g")
}

/// The label of an inventory item: its name and description.
pub fn item_label(name: &str, description: &str) -> (res: String)
    ensures
        res@ == name@ + ": "@ + description@,
{
    String::from_str(name).concat(": ").concat(description)
}

/// The weight an inventory carries, out of its capacity where it has one.
pub fn weight_text(total: i64, capacity: Option<i64>) -> (res: String)
    ensures
        res@ == match capacity {
            Some(c) => spec_decimal(total as int) + "/"@ + spec_decimal(c as int),
            None => spec_decimal(total as int),
        },
{
    match capacity {
        Some(c) => decimal_text(total).concat("/").concat(decimal_text(c).as_str()),
        None => decimal_text(total),
    }
}

/// The word for what a transfer moves.
pub open spec fn spec_transfer_word(t: TransferType) -> Seq<char> {
    match t {
        TransferType::Money => "money"@,
        TransferType::Food => "food"@,
    }
}

/// The description of a transfer dialog.
pub fn transfer_description(transfer_type: TransferType, from_name: &str, to_name: &str) -> (res: String)
    ensures
        res@ == "Transferring "@ + spec_transfer_word(transfer_type) + " from "@ + from_name@ + " to "@ + to_name@,
{
    let word = match transfer_type {
        TransferType::Money => "money",
        TransferType::Food => "food",
    };
    String::from_str("Transferring ").concat(word).concat(" from ").concat(from_name).concat(" to ").concat(to_name)
}

/// How far a fight has come.
#[derive(Debug)]
pub enum FightPhaseView {
    /// The enemy has appeared.
    Pre,
    /// The damage is known: what the enemy does, what each piece of equipment
    /// takes off it, and what the party takes.
    Resolved { start_damage: i64, total_damage: i64, equipment_effects: Vec<(String, i64)> },
}

/// A fight as the interface describes it.
#[derive(Debug)]
pub struct FightView {
    pub enemy_name: String,
    pub phase: FightPhaseView,
}

/// The line that opens every fight description.
pub open spec fn spec_attack_line(enemy: Seq<char>) -> Seq<char> {
    "You are attacked by a "@ + enemy + "."@
}

/// The lines that say what each piece of equipment takes off the damage.
pub open spec fn spec_effect_lines(effects: Seq<(String, i64)>) -> Seq<char>
    decreases effects.len(),
{
    if effects.len() == 0 {
        Seq::empty()
    } else {
        let last = effects.last();
        spec_effect_lines(effects.drop_last()) + "\nYour "@ + last.0@ + " reduces it by "@
            + spec_decimal(last.1 as int) + " damage."@
    }
}

/// The description of a fight.
pub open spec fn spec_fight_description(fight: FightView) -> Seq<char> {
    match fight.phase {
        FightPhaseView::Pre => spec_attack_line(fight.enemy_name@),
        FightPhaseView::Resolved { start_damage, total_damage, equipment_effects } =>
            spec_attack_line(fight.enemy_name@) + "\nIt does "@ + spec_decimal(start_damage as int) + " damage."@
                + spec_effect_lines(equipment_effects@) + "\nYou take "@ + spec_decimal(total_damage as int)
                + " damage"@,
    }
}

/// The description of a fight: who attacks, and, once resolved, the damage it
/// does, what each piece of equipment takes off it, and what the party takes.
pub fn fight_description(fight: &FightView) -> (res: String)
    ensures
        res@ == spec_fight_description(*fight),
{
    let attack = String::from_str("You are attacked by a ").concat(fight.enemy_name.as_str()).concat(".");
    match &fight.phase {
        FightPhaseView::Pre => attack,
        FightPhaseView::Resolved { start_damage, total_damage, equipment_effects } => {
            let mut result = attack.concat("\nIt does ").concat(decimal_text(*start_damage).as_str()).concat(" damage.");
            let ghost head = result@;
            let mut i: usize = 0;
            while i < equipment_effects.len()
                invariant
                    i <= equipment_effects@.len(),
                    result@ == head + spec_effect_lines(equipment_effects@.take(i as int)),
                decreases equipment_effects@.len() - i,
            {
                let (name, effect) = &equipment_effects[i];
                result = result.concat("\nYour ").concat(name.as_str()).concat(" reduces it by ")
                    .concat(decimal_text(*effect).as_str()).concat(" damage.");
                proof {
                    let t = equipment_effects@.take(i as int + 1);
                    assert(t.drop_last() =~= equipment_effects@.take(i as int));
                    assert(t.last() == equipment_effects@[i as int]);
                }
                i = i + 1;
            }
            assert(equipment_effects@.take(i as int) =~= equipment_effects@);
            result.concat("\nYou take ").concat(decimal_text(*total_damage).as_str()).concat(" damage")
        },
    }
}

/// The three labels of a scouted encounter: its id, its monster's name and its distance.
pub open spec fn spec_scout_labels(found: Option<(u32, String, i64)>) -> (Seq<char>, Seq<char>, Seq<char>) {
    match found {
        Some((id, name, distance)) => (spec_decimal(id as int), name@, spec_decimal(distance as int)),
        None => ("0"@, "ERROR"@, "0"@),
    }
}

/// The labels of a scouted encounter, where the scouting results hold it; else
/// the error labels.
pub fn scout_labels(found: Option<(u32, String, i64)>) -> (res: (String, String, String))
    ensures
        (res.0@, res.1@, res.2@) == spec_scout_labels(found),
{
    match found {
        Some((id, name, distance)) => (decimal_text(id as i64), name, decimal_text(distance)),
        None => (String::from_str("0"), String::from_str("ERROR"), String::from_str("0")),
    }
}


/// The labels of an inventory display.
#[derive(Debug)]
pub struct InventoryLabels {
    pub name: String,
    pub money: String,
    pub food: String,
    pub weight: String,
}

/// The labels of an inventory display: its name, its money, its food, and the
/// weight it carries as `weight_text` writes it.
pub fn inventory_labels(display_name: &str, cash: i64, food: i64, total_weight: i64, capacity: Option<i64>) -> (res: InventoryLabels)
    ensures
        res.name@ == display_name@,
        res.money@ == spec_decimal(cash as int),
        res.food@ == spec_decimal(food as int),
        res.weight@ == match capacity {
            Some(c) => spec_decimal(total_weight as int) + "/"@ + spec_decimal(c as int),
            None => spec_decimal(total_weight as int),
        },
{
    InventoryLabels {
        name: String::from_str(display_name),
        money: decimal_text(cash),
        food: decimal_text(food),
        weight: weight_text(total_weight, capacity),
    }
}
/// How many line breaks a text holds.
pub open spec fn spec_line_breaks(s: Seq<char>) -> nat
    decreases s.len(),
{
    if s.len() == 0 {
        0
    } else {
        spec_line_breaks(s.drop_last()) + if s.last() == '\n' { 1nat } else { 0nat }
    }
}

/// Whether a text holds no line break.
pub open spec fn spec_one_line(s: Seq<char>) -> bool {
    forall|i: int| 0 <= i < s.len() ==> s[i] != '\n'
}

proof fn lemma_line_breaks_concat(a: Seq<char>, b: Seq<char>)
    ensures
        spec_line_breaks(a + b) == spec_line_breaks(a) + spec_line_breaks(b),
    decreases b.len(),
{
    if b.len() > 0 {
        assert((a + b).drop_last() =~= a + b.drop_last());
        lemma_line_breaks_concat(a, b.drop_last());
    } else {
        assert(a + b =~= a);
    }
}

proof fn lemma_one_line_no_breaks(s: Seq<char>)
    requires
        spec_one_line(s),
    ensures
        spec_line_breaks(s) == 0,
    decreases s.len(),
{
    if s.len() > 0 {
        assert(s[s.len() - 1] != '\n');
        lemma_one_line_no_breaks(s.drop_last());
    }
}

proof fn lemma_digits_one_line(n: nat)
    ensures
        spec_one_line(spec_digits(n)),
    decreases n,
{
    let d = spec_digits(n);
    if n >= 10 {
        lemma_digits_one_line(n / 10);
    }
    assert forall|i: int| 0 <= i < d.len() implies d[i] != '\n' by {
        if i == d.len() - 1 {
            let c = spec_digit(n % 10);
            assert(48 <= 48 + n % 10 < 58);
            assert(c as int == 48 + n % 10);
        }
    }
}

proof fn lemma_decimal_one_line(n: int)
    ensures
        spec_one_line(spec_decimal(n)),
{
    lemma_digits_one_line(if n < 0 { (-n) as nat } else { n as nat });
    reveal_strlit("-");
}

/// The line an equipment effect adds to a fight description.
pub open spec fn spec_effect_line(name: Seq<char>, amount: i64) -> Seq<char> {
    "\nYour "@ + name + " reduces it by "@ + spec_decimal(amount as int) + " damage."@
}

proof fn lemma_effect_line_one_break(name: Seq<char>, amount: i64)
    requires
        spec_one_line(name),
    ensures
        spec_line_breaks(spec_effect_line(name, amount)) == 1,
{
    reveal_strlit("\nYour ");
    reveal_strlit("Your ");
    reveal_strlit(" reduces it by ");
    reveal_strlit(" damage.");
    assert("\nYour "@ =~= seq!['\n'] + "Your "@);
    lemma_decimal_one_line(amount as int);
    lemma_one_line_no_breaks("Your "@);
    lemma_one_line_no_breaks(" reduces it by "@);
    lemma_one_line_no_breaks(" damage."@);
    lemma_one_line_no_breaks(name);
    lemma_one_line_no_breaks(spec_decimal(amount as int));
    assert(spec_line_breaks(seq!['\n']) == 1) by {
        assert(seq!['\n'].drop_last() =~= Seq::<char>::empty());
        assert(spec_line_breaks(Seq::<char>::empty()) == 0);
        assert(seq!['\n'].last() == '\n');
    }
    lemma_line_breaks_concat(seq!['\n'], "Your "@);
    lemma_line_breaks_concat("\nYour "@, name);
    lemma_line_breaks_concat("\nYour "@ + name, " reduces it by "@);
    lemma_line_breaks_concat("\nYour "@ + name + " reduces it by "@, spec_decimal(amount as int));
    lemma_line_breaks_concat("\nYour "@ + name + " reduces it by "@ + spec_decimal(amount as int), " damage."@);
}

/// Every equipment effect, whatever its amount, adds its own line to the fight
/// description, after those of the effects before it: one more effect adds
/// exactly its line, and the effect part holds one line per effect.
pub proof fn lemma_effect_lines_one_per_effect(effects: Seq<(String, i64)>, e: (String, i64))
    requires
        forall|i: int| 0 <= i < effects.len() ==> spec_one_line(#[trigger] effects[i].0@),
        spec_one_line(e.0@),
    ensures
        spec_effect_lines(effects.push(e)) == spec_effect_lines(effects) + "\nYour "@ + e.0@
            + " reduces it by "@ + spec_decimal(e.1 as int) + " damage."@,
        spec_line_breaks(spec_effect_lines(effects)) == effects.len(),
    decreases effects.len(),
{
    assert(effects.push(e).drop_last() =~= effects);
    if effects.len() > 0 {
        let last = effects.last();
        assert(spec_one_line(effects[effects.len() - 1].0@));
        assert forall|i: int| 0 <= i < effects.drop_last().len() implies spec_one_line(#[trigger] effects.drop_last()[i].0@) by {
            assert(effects.drop_last()[i] == effects[i]);
        }
        lemma_effect_lines_one_per_effect(effects.drop_last(), last);
        lemma_effect_line_one_break(last.0@, last.1);
        lemma_line_breaks_concat(spec_effect_lines(effects.drop_last()), spec_effect_line(last.0@, last.1));
        assert(spec_effect_lines(effects) =~= spec_effect_lines(effects.drop_last()) + spec_effect_line(last.0@, last.1));
    }
}

/// A fight description holds one line per step of the fight: the attack alone
/// before the fight is resolved; once resolved, the attack, the damage it does,
/// one line for every piece of equipment, whatever it takes off, and the damage
/// the party takes.
pub proof fn lemma_fight_description_lines(fight: FightView)
    requires
        spec_one_line(fight.enemy_name@),
        fight.phase matches FightPhaseView::Resolved { equipment_effects, .. }
            ==> forall|i: int| 0 <= i < equipment_effects@.len() ==> spec_one_line(#[trigger] equipment_effects@[i].0@),
    ensures
        spec_line_breaks(spec_fight_description(fight)) == match fight.phase {
            FightPhaseView::Pre => 0,
            FightPhaseView::Resolved { equipment_effects, .. } => equipment_effects@.len() + 2,
        },
{
    reveal_strlit("You are attacked by a ");
    reveal_strlit(".");
    let attack = spec_attack_line(fight.enemy_name@);
    lemma_one_line_no_breaks("You are attacked by a "@);
    lemma_one_line_no_breaks("."@);
    lemma_one_line_no_breaks(fight.enemy_name@);
    lemma_line_breaks_concat("You are attacked by a "@, fight.enemy_name@);
    lemma_line_breaks_concat("You are attacked by a "@ + fight.enemy_name@, "."@);
    match fight.phase {
        FightPhaseView::Pre => {},
        FightPhaseView::Resolved { start_damage, total_damage, equipment_effects } => {
            reveal_strlit("\nIt does ");
            reveal_strlit("It does ");
            reveal_strlit(" damage.");
            reveal_strlit("\nYou take ");
            reveal_strlit("You take ");
            reveal_strlit(" damage");
            assert("\nIt does "@ =~= seq!['\n'] + "It does "@);
            assert("\nYou take "@ =~= seq!['\n'] + "You take "@);
            assert(spec_line_breaks(seq!['\n']) == 1) by {
                assert(seq!['\n'].drop_last() =~= Seq::<char>::empty());
                assert(spec_line_breaks(Seq::<char>::empty()) == 0);
                assert(seq!['\n'].last() == '\n');
            }
            lemma_one_line_no_breaks("It does "@);
            lemma_one_line_no_breaks("You take "@);
            lemma_one_line_no_breaks(" damage."@);
            lemma_one_line_no_breaks(" damage"@);
            lemma_decimal_one_line(start_damage as int);
            lemma_decimal_one_line(total_damage as int);
            lemma_one_line_no_breaks(spec_decimal(start_damage as int));
            lemma_one_line_no_breaks(spec_decimal(total_damage as int));
            lemma_line_breaks_concat(seq!['\n'], "It does "@);
            lemma_line_breaks_concat(seq!['\n'], "You take "@);
            let e = equipment_effects@;
            if e.len() > 0 {
                assert forall|i: int| 0 <= i < e.drop_last().len() implies spec_one_line(#[trigger] e.drop_last()[i].0@) by {
                    assert(e.drop_last()[i] == e[i]);
                }
                assert(spec_one_line(e[e.len() - 1].0@));
                lemma_effect_lines_one_per_effect(e.drop_last(), e.last());
                assert(e.drop_last().push(e.last()) =~= e);
                lemma_effect_line_one_break(e.last().0@, e.last().1);
                lemma_line_breaks_concat(spec_effect_lines(e.drop_last()), spec_effect_line(e.last().0@, e.last().1));
                assert(spec_effect_lines(e) =~= spec_effect_lines(e.drop_last()) + spec_effect_line(e.last().0@, e.last().1));
            } else {
                assert(spec_line_breaks(spec_effect_lines(e)) == 0);
            }
            let a = attack + "\nIt does "@;
            let b = a + spec_decimal(start_damage as int);
            let c = b + " damage."@;
            let d = c + spec_effect_lines(e);
            let f = d + "\nYou take "@;
            let g = f + spec_decimal(total_damage as int);
            lemma_line_breaks_concat(attack, "\nIt does "@);
            lemma_line_breaks_concat(a, spec_decimal(start_damage as int));
            lemma_line_breaks_concat(b, " damage."@);
            lemma_line_breaks_concat(c, spec_effect_lines(e));
            lemma_line_breaks_concat(d, "\nYou take "@);
            lemma_line_breaks_concat(f, spec_decimal(total_damage as int));
            lemma_line_breaks_concat(g, " damage"@);
            assert(spec_fight_description(fight) == g + " damage"@);
        },
    }
}

} // verus!
