//! Mission-local fabrication stock, resource deposits and planetary field power.

use vstd::prelude::*;

use crate::state::CellPos;
use crate::text::{decimal, push_decimal};

verus! {

/// A one-shot resource cache on the map.
#[derive(Debug, Clone)]
pub struct ResourceDeposit {
    pub id: String,
    pub position: CellPos,
    pub yield_fu: u32,
    pub asset_id: String,
    pub depleted: bool,
}

/// Finite fabrication stock in fabrication units (fabU).
///
/// Stock is authored at mission start, grows by recovered deposits and refunds,
/// and is either available, reserved by queued plans, or spent.
#[derive(Debug, Clone)]
pub struct FabricationState {
    pub authored_start_fu: u32,
    pub recovered_fu: u32,
    pub available_fu: u32,
    pub reserved_fu: u32,
    pub spent_fu: u32,
    pub refunded_fu: u32,
}

/// Why a fabrication request was refused.
#[derive(Debug, Clone, PartialEq, Eq)]
pub enum FabricationError {
    DepositNotFound(String),
    DepositDepleted(String),
    InsufficientStock { requested_fu: u32, available_fu: u32 },
    ReservationMismatch { requested_fu: u32, reserved_fu: u32 },
}

impl FabricationError {
    /// The explanation shown to the player.
    pub open spec fn message_spec(self) -> Seq<char> {
        match self {
            FabricationError::DepositNotFound(id) => "deposit "@ + id@ + " is not on this map"@,
            FabricationError::DepositDepleted(id) => "deposit "@ + id@ + " is already depleted"@,
            FabricationError::InsufficientStock { requested_fu, available_fu } => "need "@ + decimal(
                requested_fu as nat,
            ) + " fabU but only "@ + decimal(available_fu as nat) + " fabU is available"@,
            FabricationError::ReservationMismatch { requested_fu, reserved_fu } => "cannot spend "@ + decimal(
                requested_fu as nat,
            ) + " fabU from "@ + decimal(reserved_fu as nat) + " fabU reserved"@,
        }
    }

    /// The explanation shown to the player (see `message_spec`).
    pub fn message(&self) -> (text: String)
        ensures
            text@ == self.message_spec(),
    {
        match self {
            FabricationError::DepositNotFound(id) => {
                let mut text = "deposit ".to_owned();
                text.append(id.as_str());
                text.append(" is not on this map");
                text
            },
            FabricationError::DepositDepleted(id) => {
                let mut text = "deposit ".to_owned();
                text.append(id.as_str());
                text.append(" is already depleted");
                text
            },
            FabricationError::InsufficientStock { requested_fu, available_fu } => {
                let mut text = "need ".to_owned();
                push_decimal(&mut text, *requested_fu as u64);
                text.append(" fabU but only ");
                push_decimal(&mut text, *available_fu as u64);
                text.append(" fabU is available");
                text
            },
            FabricationError::ReservationMismatch { requested_fu, reserved_fu } => {
                let mut text = "cannot spend ".to_owned();
                push_decimal(&mut text, *requested_fu as u64);
                text.append(" fabU from ");
                push_decimal(&mut text, *reserved_fu as u64);
                text.append(" fabU reserved");
                text
            },
        }
    }
}

impl FabricationState {
    /// Fresh mission stock: everything authored is available.
    pub open spec fn new_spec(authored_start_fu: u32) -> Self {
        FabricationState {
            authored_start_fu,
            recovered_fu: 0,
            available_fu: authored_start_fu,
            reserved_fu: 0,
            spent_fu: 0,
            refunded_fu: 0,
        }
    }

    /// Held stock minus its sources: zero whenever every unit is accounted for.
    pub open spec fn balance(self) -> int {
        self.available_fu + self.reserved_fu + self.spent_fu - self.authored_start_fu
            - self.recovered_fu - self.refunded_fu
    }

    /// Every field but the named ones is equal between two states.
    pub open spec fn same_sources(self, other: Self) -> bool {
        &&& self.authored_start_fu == other.authored_start_fu
        &&& self.recovered_fu == other.recovered_fu
        &&& self.refunded_fu == other.refunded_fu
    }

    /// Fresh mission stock: everything authored is available.
    pub fn new(authored_start_fu: u32) -> (state: Self)
        ensures
            state.authored_start_fu == authored_start_fu,
            state.available_fu == authored_start_fu,
            state.recovered_fu == 0,
            state.reserved_fu == 0,
            state.spent_fu == 0,
            state.refunded_fu == 0,
            state == Self::new_spec(authored_start_fu),
            state.balance() == 0,
    {
        FabricationState {
            authored_start_fu,
            recovered_fu: 0,
            available_fu: authored_start_fu,
            reserved_fu: 0,
            spent_fu: 0,
            refunded_fu: 0,
        }
    }

    /// Whether `amount` can be taken from available stock.
    pub fn can_reserve(&self, amount: u32) -> (ok: bool)
        ensures
            ok == (amount <= self.available_fu),
    {
        amount <= self.available_fu
    }

    /// Move `amount` from available to reserved stock.
    pub fn reserve(&mut self, amount: u32) -> (result: Result<(), FabricationError>)
        requires
            amount <= old(self).available_fu ==> old(self).reserved_fu + amount <= u32::MAX,
        ensures
            amount <= old(self).available_fu <==> result is Ok,
            result is Ok ==> {
                &&& final(self).available_fu == old(self).available_fu - amount
                &&& final(self).reserved_fu == old(self).reserved_fu + amount
                &&& final(self).spent_fu == old(self).spent_fu
                &&& final(self).same_sources(*old(self))
            },
            result is Err ==> {
                &&& *final(self) == *old(self)
                &&& result == Err::<(), FabricationError>(
                    FabricationError::InsufficientStock {
                        requested_fu: amount,
                        available_fu: old(self).available_fu,
                    },
                )
            },
            final(self).balance() == old(self).balance(),
    {
        if !self.can_reserve(amount) {
            return Err(
                FabricationError::InsufficientStock {
                    requested_fu: amount,
                    available_fu: self.available_fu,
                },
            );
        }
        self.available_fu = self.available_fu - amount;
        self.reserved_fu = self.reserved_fu + amount;
        Ok(())
    }

    /// Return up to `amount` of reserved stock to available stock.
    pub fn release_reservation(&mut self, amount: u32)
        requires
            old(self).available_fu + (if amount <= old(self).reserved_fu {
                amount
            } else {
                old(self).reserved_fu
            }) <= u32::MAX,
        ensures
            ({
                let released = if amount <= old(self).reserved_fu {
                    amount
                } else {
                    old(self).reserved_fu
                };
                &&& final(self).reserved_fu == old(self).reserved_fu - released
                &&& final(self).available_fu == old(self).available_fu + released
            }),
            final(self).spent_fu == old(self).spent_fu,
            final(self).same_sources(*old(self)),
            final(self).balance() == old(self).balance(),
    {
        let released = if amount <= self.reserved_fu {
            amount
        } else {
            self.reserved_fu
        };
        self.reserved_fu = self.reserved_fu - released;
        self.available_fu = self.available_fu + released;
    }

    /// Spend `amount` of reserved stock.
    pub fn spend_reservation(&mut self, amount: u32) -> (result: Result<(), FabricationError>)
        requires
            amount <= old(self).reserved_fu ==> old(self).spent_fu + amount <= u32::MAX,
        ensures
            amount <= old(self).reserved_fu <==> result is Ok,
            result is Ok ==> {
                &&& final(self).reserved_fu == old(self).reserved_fu - amount
                &&& final(self).spent_fu == old(self).spent_fu + amount
                &&& final(self).available_fu == old(self).available_fu
                &&& final(self).same_sources(*old(self))
            },
            result is Err ==> {
                &&& *final(self) == *old(self)
                &&& result == Err::<(), FabricationError>(
                    FabricationError::ReservationMismatch {
                        requested_fu: amount,
                        reserved_fu: old(self).reserved_fu,
                    },
                )
            },
            final(self).balance() == old(self).balance(),
    {
        if amount > self.reserved_fu {
            return Err(
                FabricationError::ReservationMismatch {
                    requested_fu: amount,
                    reserved_fu: self.reserved_fu,
                },
            );
        }
        self.reserved_fu = self.reserved_fu - amount;
        self.spent_fu = self.spent_fu + amount;
        Ok(())
    }

    /// Spend `amount` of available stock without a reservation.
    pub fn spend_immediately(&mut self, amount: u32) -> (result: Result<(), FabricationError>)
        requires
            amount <= old(self).available_fu ==> old(self).spent_fu + amount <= u32::MAX,
        ensures
            amount <= old(self).available_fu <==> result is Ok,
            result is Ok ==> {
                &&& final(self).available_fu == old(self).available_fu - amount
                &&& final(self).spent_fu == old(self).spent_fu + amount
                &&& final(self).reserved_fu == old(self).reserved_fu
                &&& final(self).same_sources(*old(self))
            },
            result is Err ==> {
                &&& *final(self) == *old(self)
                &&& result == Err::<(), FabricationError>(
                    FabricationError::InsufficientStock {
                        requested_fu: amount,
                        available_fu: old(self).available_fu,
                    },
                )
            },
            final(self).balance() == old(self).balance(),
    {
        if !self.can_reserve(amount) {
            return Err(
                FabricationError::InsufficientStock {
                    requested_fu: amount,
                    available_fu: self.available_fu,
                },
            );
        }
        self.available_fu = self.available_fu - amount;
        self.spent_fu = self.spent_fu + amount;
        Ok(())
    }

    /// Return `amount` to available stock as a refund.
    pub fn refund(&mut self, amount: u32)
        requires
            old(self).available_fu + amount <= u32::MAX,
            old(self).refunded_fu + amount <= u32::MAX,
        ensures
            final(self).available_fu == old(self).available_fu + amount,
            final(self).refunded_fu == old(self).refunded_fu + amount,
            final(self).reserved_fu == old(self).reserved_fu,
            final(self).spent_fu == old(self).spent_fu,
            final(self).authored_start_fu == old(self).authored_start_fu,
            final(self).recovered_fu == old(self).recovered_fu,
            final(self).balance() == old(self).balance(),
    {
        self.available_fu = self.available_fu + amount;
        self.refunded_fu = self.refunded_fu + amount;
    }

    /// Held stock (available, reserved, spent) minus its sources (authored,
    /// recovered, refunded).
    pub fn balance_error(&self) -> (error: i64)
        ensures
            error == self.balance(),
    {
        self.available_fu as i64 + self.reserved_fu as i64 + self.spent_fu as i64
            - self.authored_start_fu as i64 - self.recovered_fu as i64 - self.refunded_fu as i64
    }
}

impl Default for FabricationState {
    fn default() -> (state: Self)
        ensures
            state.authored_start_fu == 0,
            state.recovered_fu == 0,
            state.available_fu == 0,
            state.reserved_fu == 0,
            state.spent_fu == 0,
            state.refunded_fu == 0,
    {
        FabricationState::new(0)
    }
}

/// A map-authored field generator.
#[derive(Debug, Clone)]
pub struct PowerSource {
    pub id: String,
    pub position: CellPos,
    pub output_eu_per_tick: u32,
    pub enabled: bool,
    pub asset_id: String,
}

/// One tick of field power accounting, in energy units (eU).
#[derive(Debug, Clone, Copy, PartialEq, Eq, Structural)]
pub struct PowerLedger {
    pub authored_generation_eu: u32,
    pub turbine_generation_eu: u32,
    pub allocated_demand_eu: u32,
    pub curtailed_supply_eu: u32,
    pub deficit_eu: u32,
}

/// Allocation priority of powered devices, highest first.
#[derive(Debug, Clone, Copy, PartialEq, Eq, Structural, PartialOrd, Ord, Hash)]
pub enum PowerClass {
    Safety,
    Transport,
    Process,
    Interface,
}

impl PowerClass {
    /// Position in allocation order: Safety 0, Transport 1, Process 2, Interface 3.
    pub open spec fn rank_spec(self) -> u8 {
        match self {
            PowerClass::Safety => 0,
            PowerClass::Transport => 1,
            PowerClass::Process => 2,
            PowerClass::Interface => 3,
        }
    }

    /// Position in allocation order: Safety 0, Transport 1, Process 2, Interface 3.
    #[verifier::when_used_as_spec(rank_spec)]
    pub fn rank(self) -> (r: u8)
        ensures
            r == self.rank_spec(),
    {
        match self {
            PowerClass::Safety => 0,
            PowerClass::Transport => 1,
            PowerClass::Process => 2,
            PowerClass::Interface => 3,
        }
    }
}

impl PowerLedger {
    /// A ledger with every counter at zero.
    pub open spec fn zero() -> Self {
        PowerLedger {
            authored_generation_eu: 0,
            turbine_generation_eu: 0,
            allocated_demand_eu: 0,
            curtailed_supply_eu: 0,
            deficit_eu: 0,
        }
    }

    /// Total generation available this tick.
    pub fn supply_eu(&self) -> (supply: u32)
        requires
            self.authored_generation_eu + self.turbine_generation_eu <= u32::MAX,
        ensures
            supply == self.authored_generation_eu + self.turbine_generation_eu,
    {
        self.authored_generation_eu + self.turbine_generation_eu
    }

    /// Start a new tick of accounting with the given generation.
    pub fn reset(&mut self, authored_generation_eu: u32, turbine_generation_eu: u32)
        ensures
            *final(self) == (PowerLedger {
                authored_generation_eu,
                turbine_generation_eu,
                allocated_demand_eu: 0,
                curtailed_supply_eu: 0,
                deficit_eu: 0,
            }),
    {
        *self = PowerLedger {
            authored_generation_eu,
            turbine_generation_eu,
            allocated_demand_eu: 0,
            curtailed_supply_eu: 0,
            deficit_eu: 0,
        };
    }
}

impl Default for PowerLedger {
    fn default() -> (ledger: Self)
        ensures
            ledger == (PowerLedger {
                authored_generation_eu: 0,
                turbine_generation_eu: 0,
                allocated_demand_eu: 0,
                curtailed_supply_eu: 0,
                deficit_eu: 0,
            }),
    {
        PowerLedger {
            authored_generation_eu: 0,
            turbine_generation_eu: 0,
            allocated_demand_eu: 0,
            curtailed_supply_eu: 0,
            deficit_eu: 0,
        }
    }
}

} // verus!
