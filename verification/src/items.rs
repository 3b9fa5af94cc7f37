//! Items, the catalog that describes them, and what a player carries.

use vstd::prelude::*;
use vstd::string::StringExecFns;

use crate::text::{append_decimal, append_signed, is_text, same_text};

verus! {

#[derive(Debug, Clone, Copy, PartialEq, Eq, Hash, Structural)]
pub enum ItemCategory {
    Consumable,
    Equipment,
    KeyItem,
}

#[derive(Debug, Clone, Copy, PartialEq, Eq, Hash, Structural)]
pub enum StatType {
    Attack,
    Defense,
    MaxHp,
}

/// What an item does. Multipliers are held as the percentage they add, rounded
/// to a whole number.
#[derive(Debug, Clone, Copy, PartialEq, Eq, Structural)]
pub enum ItemEffect {
    StatBonus { stat: StatType, amount: i32 },
    Heal { amount: i32 },
    RevealFog { radius: u32 },
    SpeedMultiplier { percent: i32 },
    BuffSpeed { percent: i32, duration_secs: u32 },
}

#[derive(Debug, Clone)]
pub struct ItemDef {
    pub id: String,
    pub display_name: String,
    pub description: String,
    pub category: ItemCategory,
    pub stackable: bool,
    pub max_stack: u32,
    pub effects: Vec<ItemEffect>,
}

/// All known items.
#[derive(Debug, Clone)]
pub struct ItemCatalog {
    pub items: Vec<ItemDef>,
}

/// A stack of one item that a player carries.
#[derive(Debug, Clone)]
pub struct InventorySlot {
    pub item_id: String,
    pub quantity: u32,
}

#[derive(Debug, Clone, Copy, PartialEq, Eq, Hash, Structural)]
pub enum EquipmentSlot {
    Weapon,
    Armor,
    Accessory,
    Feet,
    ToeRings,
}

/// Items that a player wears, by slot.
#[derive(Debug, Clone)]
pub struct EquipmentLoadout {
    pub weapon: Option<String>,
    pub armor: Option<String>,
    pub accessory: Option<String>,
    pub feet: Option<String>,
    pub toe_rings: Option<String>,
}

/// The first item of the list with the id.
pub open spec fn find_item(items: Seq<ItemDef>, id: Seq<char>) -> Option<ItemDef>
    decreases items.len(),
{
    if items.len() == 0 {
        None
    } else if items[0].id@ == id {
        Some(items[0])
    } else {
        find_item(items.drop_first(), id)
    }
}

/// Name of an item; its id where the catalog does not know it.
pub open spec fn item_name(catalog: ItemCatalog, id: Seq<char>) -> Seq<char> {
    match find_item(catalog.items@, id) {
        Some(def) => def.display_name@,
        None => id,
    }
}

/// The first stack of the item that is carried.
pub open spec fn find_stack(inventory: Seq<InventorySlot>, id: Seq<char>) -> Option<InventorySlot>
    decreases inventory.len(),
{
    if inventory.len() == 0 {
        None
    } else if inventory[0].item_id@ == id {
        Some(inventory[0])
    } else {
        find_stack(inventory.drop_first(), id)
    }
}

/// The item worn in a slot.
pub open spec fn worn(equipment: EquipmentLoadout, slot: EquipmentSlot) -> Option<Seq<char>> {
    crate::text::option_text(
        match slot {
            EquipmentSlot::Weapon => equipment.weapon,
            EquipmentSlot::Armor => equipment.armor,
            EquipmentSlot::Accessory => equipment.accessory,
            EquipmentSlot::Feet => equipment.feet,
            EquipmentSlot::ToeRings => equipment.toe_rings,
        },
    )
}

/// Some slot wears the item.
pub open spec fn wears(equipment: EquipmentLoadout, id: Seq<char>) -> bool {
    exists|slot: EquipmentSlot| #[trigger] worn(equipment, slot) == Some(id)
}

/// Label of a stack: the name, with the count where there are several.
pub open spec fn stack_text(name: Seq<char>, quantity: u32) -> Seq<char> {
    if quantity > 1 {
        name + " x"@ + crate::text::decimal_text(quantity as nat)
    } else {
        name
    }
}

/// How an effect reads in a tooltip.
pub open spec fn effect_text(effect: ItemEffect) -> Seq<char> {
    match effect {
        ItemEffect::StatBonus { stat, amount } => (if amount > 0 {
            "+"@
        } else {
            ""@
        }) + crate::text::signed_text(amount as int) + " "@ + (match stat {
            StatType::Attack => "ATK"@,
            StatType::Defense => "DEF"@,
            StatType::MaxHp => "HP"@,
        }),
        ItemEffect::Heal { amount } => "Heals "@ + crate::text::signed_text(amount as int) + " HP"@,
        ItemEffect::RevealFog { radius } => "Reveals fog (radius "@ + crate::text::decimal_text(
            radius as nat,
        ) + ")"@,
        ItemEffect::SpeedMultiplier { percent } => "+"@ + crate::text::signed_text(percent as int)
            + "% movement speed"@,
        ItemEffect::BuffSpeed { percent, duration_secs } => "+"@ + crate::text::signed_text(
            percent as int,
        ) + "% speed for "@ + crate::text::decimal_text((duration_secs / 60) as nat) + " min"@,
    }
}

/// The first `count` effects, two spaces between each.
pub open spec fn effects_text(effects: Seq<ItemEffect>, count: int) -> Seq<char>
    decreases count,
{
    if count <= 0 {
        Seq::empty()
    } else if count == 1 {
        effect_text(effects[0])
    } else {
        effects_text(effects, count - 1) + "  "@ + effect_text(effects[count - 1])
    }
}

impl ItemCatalog {
    /// The description of an item.
    pub fn get(&self, id: &str) -> (found: Option<&ItemDef>)
        ensures
            match found {
                Some(def) => find_item(self.items@, id@) == Some(*def),
                None => find_item(self.items@, id@) is None,
            },
    {
        let mut i: usize = 0;
        assert(self.items@.skip(0) =~= self.items@);
        while i < self.items.len()
            invariant
                i <= self.items.len(),
                find_item(self.items@, id@) == find_item(self.items@.skip(i as int), id@),
            decreases self.items.len() - i,
        {
            let ghost rest = self.items@.skip(i as int);
            assert(rest[0] == self.items@[i as int]);
            assert(rest.drop_first() =~= self.items@.skip(i + 1));
            if same_text(self.items[i].id.as_str(), id) {
                return Some(&self.items[i]);
            }
            i = i + 1;
        }
        None
    }

    /// Name of an item; its id where the catalog does not know it.
    pub fn name_of(&self, id: &str) -> (name: String)
        ensures
            name@ == item_name(*self, id@),
    {
        match self.get(id) {
            Some(def) => def.display_name.clone(),
            None => String::from_str(id),
        }
    }
}

/// The first stack of the item that is carried.
pub fn stack_of<'a>(inventory: &'a Vec<InventorySlot>, id: &str) -> (found: Option<
    &'a InventorySlot,
>)
    ensures
        match found {
            Some(slot) => find_stack(inventory@, id@) == Some(*slot),
            None => find_stack(inventory@, id@) is None,
        },
{
    let mut i: usize = 0;
    assert(inventory@.skip(0) =~= inventory@);
    while i < inventory.len()
        invariant
            i <= inventory.len(),
            find_stack(inventory@, id@) == find_stack(inventory@.skip(i as int), id@),
        decreases inventory.len() - i,
    {
        let ghost rest = inventory@.skip(i as int);
        assert(rest[0] == inventory@[i as int]);
        assert(rest.drop_first() =~= inventory@.skip(i + 1));
        if same_text(inventory[i].item_id.as_str(), id) {
            return Some(&inventory[i]);
        }
        i = i + 1;
    }
    None
}

impl EquipmentLoadout {
    /// The item worn in a slot.
    pub fn get_slot(&self, slot: EquipmentSlot) -> (item: &Option<String>)
        ensures
            crate::text::option_text(*item) == worn(*self, slot),
    {
        match slot {
            EquipmentSlot::Weapon => &self.weapon,
            EquipmentSlot::Armor => &self.armor,
            EquipmentSlot::Accessory => &self.accessory,
            EquipmentSlot::Feet => &self.feet,
            EquipmentSlot::ToeRings => &self.toe_rings,
        }
    }

    /// Whether some slot wears the item.
    pub fn has_equipped(&self, id: &str) -> (wearing: bool)
        ensures
            wearing == wears(*self, id@),
    {
        let wearing = is_text(&self.weapon, id) || is_text(&self.armor, id) || is_text(
            &self.accessory,
            id,
        ) || is_text(&self.feet, id) || is_text(&self.toe_rings, id);
        proof {
            if wearing {
                assert(worn(*self, EquipmentSlot::Weapon) == Some(id@) || worn(
                    *self,
                    EquipmentSlot::Armor,
                ) == Some(id@) || worn(*self, EquipmentSlot::Accessory) == Some(id@) || worn(
                    *self,
                    EquipmentSlot::Feet,
                ) == Some(id@) || worn(*self, EquipmentSlot::ToeRings) == Some(id@));
            } else if wears(*self, id@) {
                let slot = choose|slot: EquipmentSlot| #[trigger] worn(*self, slot) == Some(id@);
                match slot {
                    EquipmentSlot::Weapon => {},
                    EquipmentSlot::Armor => {},
                    EquipmentSlot::Accessory => {},
                    EquipmentSlot::Feet => {},
                    EquipmentSlot::ToeRings => {},
                }
            }
        }
        wearing
    }
}

/// Label of a stack: the name, with the count where there are several.
pub fn stack_label(name: &str, quantity: u32) -> (label: String)
    ensures
        label@ == stack_text(name@, quantity),
{
    let mut label = String::from_str(name);
    if quantity > 1 {
        label.append(" x");
        append_decimal(&mut label, quantity as u64);
    }
    label
}

/// How an effect reads in a tooltip.
pub fn effect_label(effect: &ItemEffect) -> (label: String)
    ensures
        label@ == effect_text(*effect),
{
    match effect {
        ItemEffect::StatBonus { stat, amount } => {
            let mut label = String::from_str(
                if *amount > 0 {
                    "+"
                } else {
                    ""
                },
            );
            append_signed(&mut label, *amount as i64);
            label.append(" ");
            label.append(
                match stat {
                    StatType::Attack => "ATK",
                    StatType::Defense => "DEF",
                    StatType::MaxHp => "HP",
                },
            );
            label
        },
        ItemEffect::Heal { amount } => {
            let mut label = String::from_str("Heals ");
            append_signed(&mut label, *amount as i64);
            label.append(" HP");
            label
        },
        ItemEffect::RevealFog { radius } => {
            let mut label = String::from_str("Reveals fog (radius ");
            append_decimal(&mut label, *radius as u64);
            label.append(")");
            label
        },
        ItemEffect::SpeedMultiplier { percent } => {
            let mut label = String::from_str("+");
            append_signed(&mut label, *percent as i64);
            label.append("% movement speed");
            label
        },
        ItemEffect::BuffSpeed { percent, duration_secs } => {
            let mut label = String::from_str("+");
            append_signed(&mut label, *percent as i64);
            label.append("% speed for ");
            append_decimal(&mut label, (*duration_secs / 60) as u64);
            label.append(" min");
            label
        },
    }
}

/// All effects on one line, two spaces between each; empty without effects.
pub fn effects_label(effects: &Vec<ItemEffect>) -> (label: String)
    ensures
        label@ == effects_text(effects@, effects.len() as int),
{
    let mut label = String::new();
    let mut i: usize = 0;
    while i < effects.len()
        invariant
            i <= effects.len(),
            label@ == effects_text(effects@, i as int),
        decreases effects.len() - i,
    {
        if i > 0 {
            label.append("  ");
        }
        let one = effect_label(&effects[i]);
        let ghost before = label@;
        label.append(one.as_str());
        assert(i == 0 ==> label@ =~= one@);
        i = i + 1;
    }
    label
}

/// Heading of an item's category.
pub fn category_label(category: ItemCategory) -> (label: &'static str)
    ensures
        label@ == (match category {
            ItemCategory::Consumable => "Consumable"@,
            ItemCategory::Equipment => "Equipment"@,
            ItemCategory::KeyItem => "Key Item"@,
        }),
{
    match category {
        ItemCategory::Consumable => "Consumable",
        ItemCategory::Equipment => "Equipment",
        ItemCategory::KeyItem => "Key Item",
    }
}

/// The first item of that id in the catalog is the one that counts, by its name
/// too.
pub proof fn first_item_counts(catalog: ItemCatalog, id: Seq<char>, i: int)
    requires
        0 <= i < catalog.items.len(),
        catalog.items@[i].id@ == id,
        forall|j: int| 0 <= j < i ==> (#[trigger] catalog.items@[j]).id@ != id,
    ensures
        find_item(catalog.items@, id) == Some(catalog.items@[i]),
        item_name(catalog, id) == catalog.items@[i].display_name@,
{
    lemma_first_item(catalog.items@, id, i);
}

proof fn lemma_first_item(items: Seq<ItemDef>, id: Seq<char>, i: int)
    requires
        0 <= i <= items.len(),
        i < items.len() ==> items[i].id@ == id,
        forall|j: int| 0 <= j < i ==> (#[trigger] items[j]).id@ != id,
    ensures
        find_item(items, id) == (if i < items.len() {
            Some(items[i])
        } else {
            None
        }),
    decreases i,
{
    if i > 0 {
        let rest = items.drop_first();
        assert(items[0].id@ != id);
        assert forall|j: int| 0 <= j < i - 1 implies (#[trigger] rest[j]).id@ != id by {
            assert(rest[j] == items[j + 1]);
        }
        lemma_first_item(rest, id, i - 1);
    }
}

/// An item that the catalog does not list is not known, and is called by its
/// id.
pub proof fn unlisted_items_are_unknown(catalog: ItemCatalog, id: Seq<char>)
    requires
        forall|j: int| 0 <= j < catalog.items.len() ==> (#[trigger] catalog.items@[j]).id@ != id,
    ensures
        find_item(catalog.items@, id) is None,
        item_name(catalog, id) == id,
{
    lemma_first_item(catalog.items@, id, catalog.items.len() as int);
}

/// The first stack of an item is the one that counts.
pub proof fn first_stack_counts(inventory: Seq<InventorySlot>, id: Seq<char>, i: int)
    requires
        0 <= i <= inventory.len(),
        i < inventory.len() ==> inventory[i].item_id@ == id,
        forall|j: int| 0 <= j < i ==> (#[trigger] inventory[j]).item_id@ != id,
    ensures
        i < inventory.len() ==> find_stack(inventory, id) == Some(inventory[i]),
        i == inventory.len() ==> find_stack(inventory, id) is None,
    decreases i,
{
    if i > 0 {
        let rest = inventory.drop_first();
        assert(inventory[0].item_id@ != id);
        assert forall|j: int| 0 <= j < i - 1 implies (#[trigger] rest[j]).item_id@ != id by {
            assert(rest[j] == inventory[j + 1]);
        }
        first_stack_counts(rest, id, i - 1);
    }
}

/// An item is worn exactly where one of the five slots holds it.
pub proof fn worn_in_one_of_five_slots(equipment: EquipmentLoadout, id: Seq<char>)
    ensures
        wears(equipment, id) <==> {
            ||| equipment.weapon matches Some(item) && item@ == id
            ||| equipment.armor matches Some(item) && item@ == id
            ||| equipment.accessory matches Some(item) && item@ == id
            ||| equipment.feet matches Some(item) && item@ == id
            ||| equipment.toe_rings matches Some(item) && item@ == id
        },
        worn(equipment, EquipmentSlot::Weapon) is Some <==> equipment.weapon is Some,
        worn(equipment, EquipmentSlot::Armor) is Some <==> equipment.armor is Some,
        worn(equipment, EquipmentSlot::Accessory) is Some <==> equipment.accessory is Some,
        worn(equipment, EquipmentSlot::Feet) is Some <==> equipment.feet is Some,
        worn(equipment, EquipmentSlot::ToeRings) is Some <==> equipment.toe_rings is Some,
{
    assert(equipment.weapon matches Some(item) ==> worn(equipment, EquipmentSlot::Weapon) == Some(
        item@,
    ));
    assert(equipment.armor matches Some(item) ==> worn(equipment, EquipmentSlot::Armor) == Some(
        item@,
    ));
    assert(equipment.accessory matches Some(item) ==> worn(equipment, EquipmentSlot::Accessory)
        == Some(item@));
    assert(equipment.feet matches Some(item) ==> worn(equipment, EquipmentSlot::Feet) == Some(
        item@,
    ));
    assert(equipment.toe_rings matches Some(item) ==> worn(equipment, EquipmentSlot::ToeRings)
        == Some(item@));
}

/// A stack says its number exactly where there are several.
pub proof fn stacks_say_their_number(name: Seq<char>, quantity: u32)
    ensures
        quantity <= 1 ==> stack_text(name, quantity) == name,
        quantity >= 2 ==> stack_text(name, quantity) == name + seq![' ', 'x']
            + crate::text::decimal_text(quantity as nat),
{
    reveal_strlit(" x");
    assert(" x"@ =~= seq![' ', 'x']);
}

/// How every kind of effect reads: the number that it is about stands between
/// what it does and what it acts on.
pub proof fn effects_read_as_they_are(effect: ItemEffect)
    ensures
        match effect {
            ItemEffect::Heal { amount } => effect_text(effect) == "Heals "@
                + crate::text::signed_text(amount as int) + " HP"@,
            ItemEffect::RevealFog { radius } => effect_text(effect) == "Reveals fog (radius "@
                + crate::text::decimal_text(radius as nat) + ")"@,
            ItemEffect::SpeedMultiplier { percent } => effect_text(effect) == "+"@
                + crate::text::signed_text(percent as int) + "% movement speed"@,
            ItemEffect::BuffSpeed { percent, duration_secs } => effect_text(effect) == "+"@
                + crate::text::signed_text(percent as int) + "% speed for "@
                + crate::text::decimal_text(duration_secs as nat / 60) + " min"@,
            ItemEffect::StatBonus { stat: StatType::Attack, amount } => amount > 0
                ==> effect_text(effect) == "+"@ + crate::text::signed_text(amount as int) + " "@
                + "ATK"@,
            ItemEffect::StatBonus { stat: StatType::Defense, amount } => amount > 0
                ==> effect_text(effect) == "+"@ + crate::text::signed_text(amount as int) + " "@
                + "DEF"@,
            ItemEffect::StatBonus { stat: StatType::MaxHp, amount } => amount > 0
                ==> effect_text(effect) == "+"@ + crate::text::signed_text(amount as int) + " "@
                + "HP"@,
        },
        match effect {
            ItemEffect::StatBonus { stat, amount } => amount <= 0 ==> effect_text(effect)
                == crate::text::signed_text(amount as int) + " "@ + (match stat {
                StatType::Attack => "ATK"@,
                StatType::Defense => "DEF"@,
                StatType::MaxHp => "HP"@,
            }),
            _ => true,
        },
{
    reveal_strlit("");
    if let ItemEffect::StatBonus { stat, amount } = effect {
        if amount <= 0 {
            assert(""@ + crate::text::signed_text(amount as int) =~= crate::text::signed_text(
                amount as int,
            ));
        }
    }
}

/// Effects stand in their order, two spaces between any two.
pub proof fn effects_stand_in_order(effects: Seq<ItemEffect>, count: int)
    requires
        1 <= count < effects.len(),
    ensures
        effects_text(effects, 0).len() == 0,
        effects_text(effects, 1) == effect_text(effects[0]),
        effects_text(effects, count + 1) == effects_text(effects, count) + seq![' ', ' ']
            + effect_text(effects[count]),
{
    reveal_strlit("  ");
    assert("  "@ =~= seq![' ', ' ']);
}

} // verus!
