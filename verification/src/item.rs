//! Pickup items and the kinds of agents a bot can target.

use vstd::prelude::*;

verus! {

/// Everything that can lie on the floor and be picked up.
#[derive(Clone, Copy, Debug, PartialEq, Eq, Hash, Structural)]
pub enum ItemKind {
    Medkit,
    Medpack,
    Ammo,
    Grenade,
    PlasmaGun,
    Ak47,
    M4,
    Glock,
    RailGun,
    MasterKey,
}

impl Default for ItemKind {
    /// The plain medkit is the default item.
    fn default() -> (r: ItemKind)
        ensures
            r == ItemKind::Medkit,
    {
        ItemKind::Medkit
    }
}

/// The weapons an item can stand for.
#[derive(Clone, Copy, Debug, PartialEq, Eq, Hash, Structural)]
pub enum WeaponKind {
    PlasmaRifle,
    Ak47,
    M4,
    Glock,
    RailGun,
}

/// The weapon a weapon item unlocks; consumables and keys unlock none.
pub open spec fn associated_weapon_spec(kind: ItemKind) -> Option<WeaponKind> {
    match kind {
        ItemKind::PlasmaGun => Some(WeaponKind::PlasmaRifle),
        ItemKind::Ak47 => Some(WeaponKind::Ak47),
        ItemKind::M4 => Some(WeaponKind::M4),
        ItemKind::Glock => Some(WeaponKind::Glock),
        ItemKind::RailGun => Some(WeaponKind::RailGun),
        ItemKind::Medkit => None,
        ItemKind::Medpack => None,
        ItemKind::Ammo => None,
        ItemKind::Grenade => None,
        ItemKind::MasterKey => None,
    }
}

impl ItemKind {
    /// The weapon this item gives its owner, if it is a weapon item.
    pub fn associated_weapon(&self) -> (r: Option<WeaponKind>)
        ensures
            r == associated_weapon_spec(*self),
    {
        match self {
            ItemKind::PlasmaGun => Some(WeaponKind::PlasmaRifle),
            ItemKind::Ak47 => Some(WeaponKind::Ak47),
            ItemKind::M4 => Some(WeaponKind::M4),
            ItemKind::Glock => Some(WeaponKind::Glock),
            ItemKind::RailGun => Some(WeaponKind::RailGun),
            ItemKind::Medkit
            | ItemKind::Medpack
            | ItemKind::Ammo
            | ItemKind::Grenade
            | ItemKind::MasterKey => None,
        }
    }
}

/// The species of a hostile bot.
#[derive(Clone, Copy, Debug, PartialEq, Eq, Hash, Structural)]
pub enum BotKind {
    Zombie,
    Mutant,
    Parasite,
}

/// What kind of agent a bot's potential target is.
#[derive(Clone, Copy, Debug, PartialEq, Eq, Structural)]
pub enum TargetKind {
    Player,
    Bot(BotKind),
}

} // verus!
