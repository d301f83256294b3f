use vstd::prelude::*;
use crate::class::Class;

verus! {

/// An entity that can be picked from the inventory menu.
#[derive(Debug, Clone, Copy, PartialEq, Eq, Structural, PartialOrd, Ord, Hash)]
pub enum Item {
    // guns
    Pistol,
    Shotgun,
    Rifle,
    Revolver,
    Flintlock,
    Ak47,
    Sword,
    Uzi,
    Forcefield,
    PlasmaPistol,
    PlasmaShotgun,
    Sniper,
    // explosives
    C4,
    SmokeGrenade,
    Grenade,
    RocketLauncher,
    // misc
    Flashlight,
    Binoculars,
}

/// The numeric base subtracted from an item's code to get its row in its section.
pub open spec fn class_base(c: Class) -> int {
    match c {
        Class::Gun => 0,
        Class::Explosive => 20,
        Class::Misc => 30,
    }
}

impl Item {
    /// The item's code: its section's base plus its row within the section.
    pub open spec fn code(self) -> int {
        match self {
            Item::Pistol => 1,
            Item::Shotgun => 2,
            Item::Rifle => 3,
            Item::Revolver => 4,
            Item::Flintlock => 5,
            Item::Ak47 => 6,
            Item::Sword => 7,
            Item::Uzi => 8,
            Item::Forcefield => 9,
            Item::PlasmaPistol => 10,
            Item::PlasmaShotgun => 11,
            Item::Sniper => 12,
            Item::C4 => 21,
            Item::SmokeGrenade => 23,
            Item::Grenade => 25,
            Item::RocketLauncher => 28,
            Item::Flashlight => 31,
            Item::Binoculars => 32,
        }
    }

    pub open spec fn spec_class(self) -> Class {
        match self {
            Item::Pistol | Item::Shotgun | Item::Rifle | Item::Revolver | Item::Flintlock
            | Item::Ak47 | Item::Sword | Item::Uzi | Item::Forcefield | Item::PlasmaPistol
            | Item::PlasmaShotgun | Item::Sniper => Class::Gun,
            Item::C4 | Item::SmokeGrenade | Item::Grenade | Item::RocketLauncher => Class::Explosive,
            Item::Flashlight | Item::Binoculars => Class::Misc,
        }
    }

    /// The row the item occupies in its section's list.
    pub open spec fn spec_order(self) -> int {
        self.code() - class_base(self.spec_class())
    }

    /// The label shown for the item.
    pub open spec fn label(self) -> Seq<char> {
        match self {
            Item::Pistol => "Pistol"@,
            Item::Shotgun => "Shotgun"@,
            Item::Rifle => "Rifle"@,
            Item::Revolver => "Revolver"@,
            Item::Flintlock => "Flintlock"@,
            Item::Ak47 => "AK-47"@,
            Item::Sword => "Sword"@,
            Item::Uzi => "Uzi"@,
            Item::Forcefield => "Forcefield"@,
            Item::PlasmaPistol => "Plasma Pistol"@,
            Item::PlasmaShotgun => "Plasma Shotgun"@,
            Item::Sniper => "Sniper"@,
            Item::C4 => "C4"@,
            Item::SmokeGrenade => "Smoke Grenades"@,
            Item::Grenade => "Grenades"@,
            Item::RocketLauncher => "Rocket Launcher"@,
            Item::Flashlight => "Flashlight"@,
            Item::Binoculars => "Binoculars"@,
        }
    }

    /// The section of the menu that holds this item.
    pub fn class(self) -> (r: Class)
        ensures
            r == self.spec_class(),
    {
        match self {
            Item::Pistol | Item::Shotgun | Item::Rifle | Item::Revolver | Item::Flintlock
            | Item::Ak47 | Item::Sword | Item::Uzi | Item::Forcefield | Item::PlasmaPistol
            | Item::PlasmaShotgun | Item::Sniper => Class::Gun,
            Item::C4 | Item::SmokeGrenade | Item::Grenade | Item::RocketLauncher => Class::Explosive,
            Item::Flashlight | Item::Binoculars => Class::Misc,
        }
    }

    /// The item's code.
    fn code_value(self) -> (r: i32)
        ensures
            r == self.code(),
    {
        match self {
            Item::Pistol => 1,
            Item::Shotgun => 2,
            Item::Rifle => 3,
            Item::Revolver => 4,
            Item::Flintlock => 5,
            Item::Ak47 => 6,
            Item::Sword => 7,
            Item::Uzi => 8,
            Item::Forcefield => 9,
            Item::PlasmaPistol => 10,
            Item::PlasmaShotgun => 11,
            Item::Sniper => 12,
            Item::C4 => 21,
            Item::SmokeGrenade => 23,
            Item::Grenade => 25,
            Item::RocketLauncher => 28,
            Item::Flashlight => 31,
            Item::Binoculars => 32,
        }
    }

    /// The row the item occupies in its section's list.
    pub fn order(self) -> (r: i32)
        ensures
            r == self.spec_order(),
            1 <= r <= 12,
    {
        match self.class() {
            Class::Gun => self.code_value(),
            Class::Explosive => self.code_value() - 20,
            Class::Misc => self.code_value() - 30,
        }
    }

    /// The label shown for the item.
    pub fn name(self) -> (r: &'static str)
        ensures
            r@ == self.label(),
    {
        match self {
            Item::Pistol => "Pistol",
            Item::Shotgun => "Shotgun",
            Item::Rifle => "Rifle",
            Item::Revolver => "Revolver",
            Item::Flintlock => "Flintlock",
            Item::Ak47 => "AK-47",
            Item::Sword => "Sword",
            Item::Uzi => "Uzi",
            Item::Forcefield => "Forcefield",
            Item::PlasmaPistol => "Plasma Pistol",
            Item::PlasmaShotgun => "Plasma Shotgun",
            Item::Sniper => "Sniper",
            Item::C4 => "C4",
            Item::SmokeGrenade => "Smoke Grenades",
            Item::Grenade => "Grenades",
            Item::RocketLauncher => "Rocket Launcher",
            Item::Flashlight => "Flashlight",
            Item::Binoculars => "Binoculars",
        }
    }
}

impl Default for Item {
    fn default() -> (r: Item)
        ensures
            r == Item::Pistol,
    {
        Item::Pistol
    }
}

} // verus!
