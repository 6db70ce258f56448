//! The lines the game writes to its log: each as a text over its parts, and a
//! function that builds it.

use vstd::prelude::*;
use vstd::string::StringExecFns;
use crate::entity::{Object, ObjectView};
use crate::text::{append_decimal, decimal_text};

verus! {

/// What `Debug` formatting prints for an entity.
pub uninterp spec fn debug_text(o: ObjectView) -> Seq<char>;

/// Formats the entity with `{:?}`: the text that the derived `Debug` prints,
/// which depends on the entity's fields alone.
#[verifier::external_body]
pub(crate) fn debug_string(o: &Object) -> (s: String)
    ensures
        s@ == debug_text(o@),
{
    format!("{:?}", o)
}

/// The line for reaching a character level.
pub open spec fn level_up_text(level: int) -> Seq<char> {
    "Your battle skills grow stronger! You reached level "@ + decimal_text(level) + "!"@
}

/// The line for reaching a character level.
pub fn level_up_message(level: i32) -> (s: String)
    ensures
        s@ == level_up_text(level as int),
{
    let mut s = String::from_str("Your battle skills grow stronger! You reached level ");
    append_decimal(&mut s, level);
    s.append("!");
    s
}

/// The line for the death of a monster that was worth `xp` experience.
pub open spec fn monster_death_text(name: Seq<char>, xp: int) -> Seq<char> {
    name + " is dead! You gain "@ + decimal_text(xp) + " experience points."@
}

/// The line for the death of a monster that was worth `xp` experience.
pub fn monster_death_message(name: &str, xp: i32) -> (s: String)
    ensures
        s@ == monster_death_text(name@, xp as int),
{
    let mut s = String::from_str(name);
    s.append(" is dead! You gain ");
    append_decimal(&mut s, xp);
    s.append(" experience points.");
    s
}

/// The name of what is left of a dead monster.
pub open spec fn remains_text(name: Seq<char>) -> Seq<char> {
    "remains of "@ + name
}

/// The name of what is left of a dead monster.
pub fn remains_name(name: &str) -> (s: String)
    ensures
        s@ == remains_text(name@),
{
    let mut s = String::from_str("remains of ");
    s.append(name);
    s
}

/// The line for an item that the full inventory has no room for.
pub open spec fn inventory_full_text(name: Seq<char>) -> Seq<char> {
    "Your inventory is full, cannot pick up "@ + name + "."@
}

/// The line for an item that the full inventory has no room for.
pub fn inventory_full_message(name: &str) -> (s: String)
    ensures
        s@ == inventory_full_text(name@),
{
    let mut s = String::from_str("Your inventory is full, cannot pick up ");
    s.append(name);
    s.append(".");
    s
}

/// The line for an item that was picked up.
pub open spec fn picked_up_text(name: Seq<char>) -> Seq<char> {
    "You picked up a "@ + name + "!"@
}

/// The line for an item that was picked up.
pub fn picked_up_message(name: &str) -> (s: String)
    ensures
        s@ == picked_up_text(name@),
{
    let mut s = String::from_str("You picked up a ");
    s.append(name);
    s.append("!");
    s
}

/// The line for a lightning bolt that strikes a monster.
pub open spec fn lightning_text(name: Seq<char>, damage: int) -> Seq<char> {
    "A lightning bolt strikes the "@ + name + " with a loud thunder! The damage is "@
        + decimal_text(damage) + " hit points."@
}

/// The line for a lightning bolt that strikes a monster.
pub fn lightning_message(name: &str, damage: i32) -> (s: String)
    ensures
        s@ == lightning_text(name@, damage as int),
{
    let mut s = String::from_str("A lightning bolt strikes the ");
    s.append(name);
    s.append(" with a loud thunder! The damage is ");
    append_decimal(&mut s, damage);
    s.append(" hit points.");
    s
}

/// The line for a monster that was confused.
pub open spec fn confused_text(name: Seq<char>) -> Seq<char> {
    "The eyes of "@ + name + " look vacant, as he starts to stumble around!"@
}

/// The line for a monster that was confused.
pub fn confused_message(name: &str) -> (s: String)
    ensures
        s@ == confused_text(name@),
{
    let mut s = String::from_str("The eyes of ");
    s.append(name);
    s.append(" look vacant, as he starts to stumble around!");
    s
}

/// The line for the explosion of a fireball of a radius.
pub open spec fn fireball_text(radius: int) -> Seq<char> {
    "The fireball explodes, burning everything within "@ + decimal_text(radius) + " tiles!"@
}

/// The line for the explosion of a fireball of a radius.
pub fn fireball_message(radius: i32) -> (s: String)
    ensures
        s@ == fireball_text(radius as int),
{
    let mut s = String::from_str("The fireball explodes, burning everything within ");
    append_decimal(&mut s, radius);
    s.append(" tiles!");
    s
}

/// The line for an entity that a fireball burns.
pub open spec fn burned_text(name: Seq<char>, damage: int) -> Seq<char> {
    "The "@ + name + " get burned for "@ + decimal_text(damage) + " hit points."@
}

/// The line for an entity that a fireball burns.
pub fn burned_message(name: &str, damage: i32) -> (s: String)
    ensures
        s@ == burned_text(name@, damage as int),
{
    let mut s = String::from_str("The ");
    s.append(name);
    s.append(" get burned for ");
    append_decimal(&mut s, damage);
    s.append(" hit points.");
    s
}

/// The line for an item that was dropped.
pub open spec fn dropped_text(name: Seq<char>) -> Seq<char> {
    "You dropped a "@ + name + "."@
}

/// The line for an item that was dropped.
pub fn dropped_message(name: &str) -> (s: String)
    ensures
        s@ == dropped_text(name@),
{
    let mut s = String::from_str("You dropped a ");
    s.append(name);
    s.append(".");
    s
}

/// The line for an entity of the inventory that cannot be used.
pub open spec fn unusable_text(name: Seq<char>) -> Seq<char> {
    "The "@ + name + " cannot be used."@
}

/// The line for an entity of the inventory that cannot be used.
pub fn unusable_message(name: &str) -> (s: String)
    ensures
        s@ == unusable_text(name@),
{
    let mut s = String::from_str("The ");
    s.append(name);
    s.append(" cannot be used.");
    s
}

/// The line for an attack that takes hit points.
pub open spec fn attack_text(attacker: Seq<char>, target: Seq<char>, damage: int) -> Seq<char> {
    attacker + " attacks "@ + target + " for "@ + decimal_text(damage) + " hit points."@
}

/// The line for an attack that takes hit points.
pub fn attack_message(attacker: &str, target: &str, damage: i32) -> (s: String)
    ensures
        s@ == attack_text(attacker@, target@, damage as int),
{
    let mut s = String::from_str(attacker);
    s.append(" attacks ");
    s.append(target);
    s.append(" for ");
    append_decimal(&mut s, damage);
    s.append(" hit points.");
    s
}

/// The line for an attack that takes none.
pub open spec fn no_effect_text(attacker: Seq<char>, target: Seq<char>) -> Seq<char> {
    attacker + " attacks "@ + target + " but it has no effect!"@
}

/// The line for an attack that takes none.
pub fn no_effect_message(attacker: &str, target: &str) -> (s: String)
    ensures
        s@ == no_effect_text(attacker@, target@),
{
    let mut s = String::from_str(attacker);
    s.append(" attacks ");
    s.append(target);
    s.append(" but it has no effect!");
    s
}

/// The complaint about equipping (`verb` is "equip") or taking off (`verb` is
/// "dequip") an entity that is not `what` ("an Item", "an Equipment").
pub open spec fn cannot_text(verb: Seq<char>, o: ObjectView, what: Seq<char>) -> Seq<char> {
    "Can't "@ + verb + " "@ + debug_text(o) + " because it's not "@ + what + "."@
}

/// The complaint about equipping or taking off an entity that is not `what`.
pub fn cannot_message(verb: &str, o: &Object, what: &str) -> (s: String)
    ensures
        s@ == cannot_text(verb@, o@, what@),
{
    let mut s = String::from_str("Can't ");
    s.append(verb);
    s.append(" ");
    let described = debug_string(o);
    s.append(described.as_str());
    s.append(" because it's not ");
    s.append(what);
    s.append(".");
    s
}

/// The line for an item that was equipped on a slot.
pub open spec fn equipped_text(name: Seq<char>, slot: Seq<char>) -> Seq<char> {
    "Equipped "@ + name + " on "@ + slot + "."@
}

/// The line for an item that was equipped on a slot.
pub fn equipped_message(name: &str, slot: &str) -> (s: String)
    ensures
        s@ == equipped_text(name@, slot@),
{
    let mut s = String::from_str("Equipped ");
    s.append(name);
    s.append(" on ");
    s.append(slot);
    s.append(".");
    s
}

/// The line for an item that was taken off a slot.
pub open spec fn dequipped_text(name: Seq<char>, slot: Seq<char>) -> Seq<char> {
    "Dequipped "@ + name + " from "@ + slot + "."@
}

/// The line for an item that was taken off a slot.
pub fn dequipped_message(name: &str, slot: &str) -> (s: String)
    ensures
        s@ == dequipped_text(name@, slot@),
{
    let mut s = String::from_str("Dequipped ");
    s.append(name);
    s.append(" from ");
    s.append(slot);
    s.append(".");
    s
}

/// The line for a monster whose confusion is over.
pub open spec fn recovered_text(name: Seq<char>) -> Seq<char> {
    "The "@ + name + " is no longer confused!"@
}

/// The line for a monster whose confusion is over.
pub fn recovered_message(name: &str) -> (s: String)
    ensures
        s@ == recovered_text(name@),
{
    let mut s = String::from_str("The ");
    s.append(name);
    s.append(" is no longer confused!");
    s
}

} // verus!
