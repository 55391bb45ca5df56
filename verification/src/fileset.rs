//! The kinds of file roots that game script can come from.
use vstd::prelude::*;

verus! {

/// Where a file was loaded from. The order of the variants is the order in which the game
/// loads them, from the engine's own files up to the mod being checked.
#[derive(Clone, Copy, Debug, PartialEq, Eq, Structural)]
pub enum FileKind {
    /// Script that is built into the validator itself.
    Internal,
    /// The `clausewitz` directory of the game engine.
    Clausewitz,
    /// The `jomini` directory of the game engine.
    Jomini,
    /// The base game files.
    Vanilla,
    /// A DLC directory, by its position in the load order.
    Dlc(u8),
    /// An extra mod loaded before the one being checked, by its position in the load order.
    LoadedMod(u8),
    /// The mod being checked.
    Mod,
}

impl FileKind {
    /// Whether files of this kind are part of the unmodded game.
    pub open spec fn spec_counts_as_vanilla(self) -> bool {
        match self {
            FileKind::Clausewitz | FileKind::Jomini | FileKind::Vanilla | FileKind::Dlc(_) => true,
            _ => false,
        }
    }

    pub fn counts_as_vanilla(&self) -> (b: bool)
        ensures
            b == self.spec_counts_as_vanilla(),
    {
        match self {
            FileKind::Clausewitz | FileKind::Jomini | FileKind::Vanilla | FileKind::Dlc(_) => true,
            _ => false,
        }
    }

    /// Position of this kind in the load order, used to order locations.
    pub open spec fn spec_rank(self) -> int {
        match self {
            FileKind::Internal => 0,
            FileKind::Clausewitz => 1,
            FileKind::Jomini => 2,
            FileKind::Vanilla => 3,
            FileKind::Dlc(n) => 4 + n,
            FileKind::LoadedMod(n) => 260 + n,
            FileKind::Mod => 516,
        }
    }

    pub fn rank(&self) -> (r: u32)
        ensures
            r == self.spec_rank(),
    {
        match self {
            FileKind::Internal => 0,
            FileKind::Clausewitz => 1,
            FileKind::Jomini => 2,
            FileKind::Vanilla => 3,
            FileKind::Dlc(n) => 4 + *n as u32,
            FileKind::LoadedMod(n) => 260 + *n as u32,
            FileKind::Mod => 516,
        }
    }
}

} // verus!
