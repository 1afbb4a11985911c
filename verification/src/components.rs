//! Plain component and resource types carried by entities or shared by
//! systems: tags, the mine catalogue entry, and the progress ledger.

use vstd::prelude::*;

verus! {

/// Tag for entities that belong to the base/terrain layer.
#[derive(Clone, Copy, Debug)]
pub struct Base;

/// Tag marking one collision-map entity as the minable terrain layer.
#[derive(Clone, Copy, Debug)]
pub struct MiningMapTag;

impl MiningMapTag {
    pub fn new() -> MiningMapTag {
        MiningMapTag
    }
}

impl Default for MiningMapTag {
    fn default() -> MiningMapTag {
        MiningMapTag
    }
}

/// Tag for the player entity.
#[derive(Clone, Copy, Debug)]
pub struct Player;

/// A mine's catalogue entry: display names, the cost to unlock it, and its
/// per-block yield and duration.
#[derive(Clone, Debug)]
pub struct Mine {
    pub name: String,
    pub block_name: String,
    pub unlock_cost: u64,
    pub money_per_block: u64,
    pub tick_per_block: u32,
}

impl Mine {
    pub fn new(
        name: String,
        block_name: String,
        unlock_cost: u64,
        money_per_block: u64,
        tick_per_block: u32,
    ) -> (m: Mine)
        ensures
            m.name == name,
            m.block_name == block_name,
            m.unlock_cost == unlock_cost,
            m.money_per_block == money_per_block,
            m.tick_per_block == tick_per_block,
    {
        Mine { name, block_name, unlock_cost, money_per_block, tick_per_block }
    }
}

/// A character statistic kind.
#[derive(PartialEq, Eq, Hash, Copy, Clone, Debug)]
pub enum Stats {
    Health,
    Defense,
    Attack,
    Mana,
}

/// The global mining ledger. `block_progress` counts qualifying mine events
/// against the current target tile and returns to zero on completion;
/// `mined` and `money` only ever grow.
#[derive(Clone, Copy, Debug, PartialEq, Eq, Structural)]
pub struct Progress {
    pub current_mine: u32,
    pub block_progress: u32,
    pub money_per_block: u32,
    pub mined: u64,
    pub money: u64,
}

impl Progress {
    /// Channeled progress never passes the completion threshold.
    pub open spec fn wf(&self) -> bool {
        self.block_progress <= 5
    }

    pub fn new(
        current_mine: u32,
        block_progress: u32,
        money_per_block: u32,
        mined: u64,
        money: u64,
    ) -> (p: Progress)
        ensures
            p.current_mine == current_mine,
            p.block_progress == block_progress,
            p.money_per_block == money_per_block,
            p.mined == mined,
            p.money == money,
    {
        Progress { current_mine, block_progress, money_per_block, mined, money }
    }
}

impl Default for Progress {
    /// The ledger at process start: everything zero.
    fn default() -> (p: Progress)
        ensures
            p.current_mine == 0,
            p.block_progress == 0,
            p.money_per_block == 0,
            p.mined == 0,
            p.money == 0,
    {
        Progress { current_mine: 0, block_progress: 0, money_per_block: 0, mined: 0, money: 0 }
    }
}

} // verus!
