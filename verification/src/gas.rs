//! Gas metering: opcode weight tiers, per-instruction charges and the
//! quadratic charge for memory expansion.
use vstd::prelude::*;

use std::collections::HashMap;

use crate::VmError;

verus! {

/// Cost tiers of the machine's instructions.
#[derive(Debug, Clone, Copy, PartialEq, Eq, Structural)]
pub enum GasTier {
    /// Negligible work (HALT, TRAP).
    Base,
    /// Plain stack arithmetic (ADD, SUB, PUSH).
    VeryLow,
    /// Multiplication.
    Low,
    /// Guarded arithmetic (DIV); also the tier of an opcode with no entry.
    Mid,
    /// Linear memory traffic (LOAD, STORE).
    High,
    /// System calls.
    Extrinsic,
}

impl GasTier {
    /// The fixed charge of a tier.
    pub open spec fn spec_base_cost(self) -> u64 {
        match self {
            GasTier::Base => 1,
            GasTier::VeryLow => 3,
            GasTier::Low => 5,
            GasTier::Mid => 8,
            GasTier::High => 20,
            GasTier::Extrinsic => 150,
        }
    }

    /// Returns the fixed charge of this tier.
    pub fn base_cost(&self) -> (cost: u64)
        ensures
            cost == self.spec_base_cost(),
    {
        match self {
            GasTier::Base => 1,
            GasTier::VeryLow => 3,
            GasTier::Low => 5,
            GasTier::Mid => 8,
            GasTier::High => 20,
            GasTier::Extrinsic => 150,
        }
    }
}

/// `weights` with the default weight of each opcode that has one entered, in
/// opcode order; the entries of other opcodes stay.
pub open spec fn with_default_weights(weights: Map<u8, GasTier>) -> Map<u8, GasTier> {
    weights.insert(0x00u8, GasTier::Base).insert(0x0Fu8, GasTier::Base).insert(0x10u8, GasTier::VeryLow).insert(
        0x11u8,
        GasTier::VeryLow,
    ).insert(0x12u8, GasTier::Low).insert(0x13u8, GasTier::Mid).insert(0x20u8, GasTier::VeryLow).insert(
        0x30u8,
        GasTier::High,
    ).insert(0x31u8, GasTier::High).insert(0x50u8, GasTier::Extrinsic)
}

/// The opcode weights every new meter starts with.
pub open spec fn default_weights() -> Map<u8, GasTier> {
    map![
        0x00u8 => GasTier::Base,
        0x0Fu8 => GasTier::Base,
        0x10u8 => GasTier::VeryLow,
        0x11u8 => GasTier::VeryLow,
        0x12u8 => GasTier::Low,
        0x13u8 => GasTier::Mid,
        0x20u8 => GasTier::VeryLow,
        0x30u8 => GasTier::High,
        0x31u8 => GasTier::High,
        0x50u8 => GasTier::Extrinsic
    ]
}

/// Abstract state of a [`GasMeterEngine`].
#[verifier::ext_equal]
pub struct GasView {
    /// The budget.
    pub max_limit: u64,
    /// Gas charged so far.
    pub spent: u64,
    /// Tier of each opcode that has an entry.
    pub weights: Map<u8, GasTier>,
    /// Memory pages already paid for.
    pub active_memory_pages: usize,
}

impl GasView {
    /// A fresh meter with budget `gas_limit`: nothing spent, no pages paid for,
    /// the default weights.
    pub open spec fn initial(gas_limit: u64) -> GasView {
        GasView { max_limit: gas_limit, spent: 0, weights: default_weights(), active_memory_pages: 0 }
    }

    /// The tier an opcode is charged at: its entry, or `Mid` when it has none.
    pub open spec fn tier_of(self, opcode: u8) -> GasTier {
        if self.weights.contains_key(opcode) {
            self.weights[opcode]
        } else {
            GasTier::Mid
        }
    }

    /// The charge for executing `opcode`.
    pub open spec fn fee_of(self, opcode: u8) -> u64 {
        self.tier_of(opcode).spec_base_cost()
    }

    /// What is left of the budget, zero once it is used up.
    pub open spec fn remaining(self) -> u64 {
        if self.spent <= self.max_limit {
            (self.max_limit - self.spent) as u64
        } else {
            0
        }
    }

    /// This meter with `amount` more gas spent.
    pub open spec fn charged(self, amount: int) -> GasView {
        GasView {
            max_limit: self.max_limit,
            spent: (self.spent + amount) as u64,
            weights: self.weights,
            active_memory_pages: self.active_memory_pages,
        }
    }

    /// Charging for `opcode`: refused, with nothing charged, when the charge would
    /// pass the budget.
    pub open spec fn consume_outcome(self, opcode: u8) -> (GasView, Result<(), VmError>) {
        let fee = self.fee_of(opcode);
        if self.spent + fee > self.max_limit {
            (self, Err(VmError::OutOfGas { budget: self.remaining(), required: fee }))
        } else {
            (self.charged(fee as int), Ok(()))
        }
    }

    /// The charge for growing from the pages paid for to `target_pages`: four
    /// times the square of the pages added.
    pub open spec fn expansion_cost(self, target_pages: usize) -> int {
        let added = target_pages - self.active_memory_pages;
        added * added * 4
    }

    /// Paying for memory up to `target_pages`: free when no pages are added;
    /// refused when the charge passes `u64` (reported as requiring `u64::MAX`) or
    /// the budget, else charged and the new page count recorded.
    pub open spec fn expansion_outcome(self, target_pages: usize) -> (GasView, Result<(), VmError>) {
        let cost = self.expansion_cost(target_pages);
        if target_pages <= self.active_memory_pages {
            (self, Ok(()))
        } else if cost > u64::MAX {
            (self, Err(VmError::OutOfGas { budget: self.remaining(), required: u64::MAX }))
        } else if self.spent + cost > self.max_limit {
            (self, Err(VmError::OutOfGas { budget: self.remaining(), required: cost as u64 }))
        } else {
            (
                GasView {
                    max_limit: self.max_limit,
                    spent: (self.spent + cost) as u64,
                    weights: self.weights,
                    active_memory_pages: target_pages,
                },
                Ok(()),
            )
        }
    }
}

/// Every tier costs at least one unit of gas.
pub proof fn lemma_every_tier_costs_gas(tier: GasTier)
    ensures
        1 <= tier.spec_base_cost() <= 150,
{
}

/// A meter that has not overspent never overspends: every charge, successful or
/// refused, leaves the spent gas within the budget, never lowers it and never
/// changes the budget; a successful instruction charge adds exactly the fee of the
/// opcode's tier, and what remains is the budget less what is spent.
pub proof fn lemma_charges_stay_within_budget(g: GasView, opcode: u8, target_pages: usize)
    requires
        g.spent <= g.max_limit,
    ensures
        g.consume_outcome(opcode).0.spent <= g.max_limit,
        g.expansion_outcome(target_pages).0.spent <= g.max_limit,
        g.consume_outcome(opcode).0.spent >= g.spent,
        g.expansion_outcome(target_pages).0.spent >= g.spent,
        g.consume_outcome(opcode).0.max_limit == g.max_limit,
        g.expansion_outcome(target_pages).0.max_limit == g.max_limit,
        g.consume_outcome(opcode).1 is Ok ==> g.consume_outcome(opcode).0.spent == g.spent + g.fee_of(opcode),
        g.remaining() + g.spent == g.max_limit,
{
    if target_pages > g.active_memory_pages {
        let added = target_pages - g.active_memory_pages;
        assert(added * added * 4 >= 0) by (nonlinear_arith);
    }
}

/// Costlier tiers charge strictly more: Base < VeryLow < Low < Mid < High <
/// Extrinsic, and an opcode with no entry is charged as Mid.
pub proof fn lemma_tier_costs_increase(g: GasView, opcode: u8)
    ensures
        GasTier::Base.spec_base_cost() < GasTier::VeryLow.spec_base_cost(),
        GasTier::VeryLow.spec_base_cost() < GasTier::Low.spec_base_cost(),
        GasTier::Low.spec_base_cost() < GasTier::Mid.spec_base_cost(),
        GasTier::Mid.spec_base_cost() < GasTier::High.spec_base_cost(),
        GasTier::High.spec_base_cost() < GasTier::Extrinsic.spec_base_cost(),
        !g.weights.contains_key(opcode) ==> g.fee_of(opcode) == GasTier::Mid.spec_base_cost(),
        g.weights.contains_key(opcode) ==> g.fee_of(opcode) == g.weights[opcode].spec_base_cost(),
{
}

/// A refused charge changes nothing.
pub proof fn lemma_refused_charge_changes_nothing(g: GasView, opcode: u8, target_pages: usize)
    ensures
        g.consume_outcome(opcode).1 is Err ==> g.consume_outcome(opcode).0 == g,
        g.expansion_outcome(target_pages).1 is Err ==> g.expansion_outcome(target_pages).0 == g,
{
}

/// Gas accounting of one machine.
#[derive(Debug, Clone)]
pub struct GasMeterEngine {
    /// The budget.
    pub max_limit: u64,
    /// Gas charged so far.
    pub spent: u64,
    /// Tier of each opcode that has an entry.
    pub opcode_weight_matrix: HashMap<u8, GasTier>,
    /// Memory pages already paid for.
    pub active_memory_pages: usize,
}

impl View for GasMeterEngine {
    type V = GasView;

    open spec fn view(&self) -> GasView {
        GasView {
            max_limit: self.max_limit,
            spent: self.spent,
            weights: self.opcode_weight_matrix@,
            active_memory_pages: self.active_memory_pages,
        }
    }
}

impl GasMeterEngine {
    /// A meter with budget `gas_limit`, nothing spent, no pages paid for and the
    /// default opcode weights.
    pub fn new(gas_limit: u64) -> (meter: Self)
        ensures
            meter@ == GasView::initial(gas_limit),
    {
        let mut meter = GasMeterEngine {
            max_limit: gas_limit,
            spent: 0,
            opcode_weight_matrix: HashMap::with_capacity(256),
            active_memory_pages: 0,
        };
        meter.bootstrap_default_weight_matrix();
        proof {
            assert(with_default_weights(Map::<u8, GasTier>::empty()) =~= default_weights());
        }
        meter
    }

    /// Enters the default weight of every opcode that has one.
    fn bootstrap_default_weight_matrix(&mut self)
        ensures
            final(self)@.weights == with_default_weights(old(self)@.weights),
            final(self).max_limit == old(self).max_limit,
            final(self).spent == old(self).spent,
            final(self).active_memory_pages == old(self).active_memory_pages,
    {
        broadcast use vstd::std_specs::hash::group_hash_axioms;

        self.opcode_weight_matrix.insert(0x00, GasTier::Base);
        self.opcode_weight_matrix.insert(0x0F, GasTier::Base);
        self.opcode_weight_matrix.insert(0x10, GasTier::VeryLow);
        self.opcode_weight_matrix.insert(0x11, GasTier::VeryLow);
        self.opcode_weight_matrix.insert(0x12, GasTier::Low);
        self.opcode_weight_matrix.insert(0x13, GasTier::Mid);
        self.opcode_weight_matrix.insert(0x20, GasTier::VeryLow);
        self.opcode_weight_matrix.insert(0x30, GasTier::High);
        self.opcode_weight_matrix.insert(0x31, GasTier::High);
        self.opcode_weight_matrix.insert(0x50, GasTier::Extrinsic);
    }

    /// Charges the fee of `opcode`'s tier; fails with `OutOfGas` and charges
    /// nothing when the budget cannot cover it.
    pub fn consume_resource(&mut self, opcode: u8) -> (r: Result<(), VmError>)
        ensures
            final(self)@ == old(self)@.consume_outcome(opcode).0,
            r == old(self)@.consume_outcome(opcode).1,
    {
        broadcast use vstd::std_specs::hash::group_hash_axioms;

        let tier = match self.opcode_weight_matrix.get(&opcode) {
            Some(t) => *t,
            None => GasTier::Mid,
        };
        let base_fee = tier.base_cost();
        let target_expenditure = match self.spent.checked_add(base_fee) {
            Some(total) => total,
            None => {
                return Err(
                    VmError::OutOfGas { budget: self.max_limit.saturating_sub(self.spent), required: base_fee },
                );
            },
        };
        if target_expenditure > self.max_limit {
            return Err(
                VmError::OutOfGas { budget: self.max_limit.saturating_sub(self.spent), required: base_fee },
            );
        }
        self.spent = target_expenditure;
        Ok(())
    }

    /// Charges four times the square of the pages added when `target_pages`
    /// passes the pages already paid for, and records `target_pages`; fails with
    /// `OutOfGas` and changes nothing when the charge passes `u64` or the budget.
    pub fn penalize_memory_expansion(&mut self, target_pages: usize) -> (r: Result<(), VmError>)
        ensures
            final(self)@ == old(self)@.expansion_outcome(target_pages).0,
            r == old(self)@.expansion_outcome(target_pages).1,
    {
        if target_pages <= self.active_memory_pages {
            return Ok(());
        }
        let added_pages = (target_pages - self.active_memory_pages) as u64;
        let budget = self.max_limit.saturating_sub(self.spent);
        let structural_cost = match added_pages.checked_mul(added_pages) {
            Some(square) => match square.checked_mul(4) {
                Some(cost) => cost,
                None => return Err(VmError::OutOfGas { budget, required: u64::MAX }),
            },
            None => {
                proof {
                    assert(added_pages * added_pages * 4 > u64::MAX) by (nonlinear_arith)
                        requires
                            added_pages * added_pages > u64::MAX,
                    ;
                }
                return Err(VmError::OutOfGas { budget, required: u64::MAX });
            },
        };
        let updated_spend = match self.spent.checked_add(structural_cost) {
            Some(total) => total,
            None => return Err(VmError::OutOfGas { budget, required: structural_cost }),
        };
        if updated_spend > self.max_limit {
            return Err(VmError::OutOfGas { budget, required: structural_cost });
        }
        self.spent = updated_spend;
        self.active_memory_pages = target_pages;
        Ok(())
    }

    /// What is left of the budget, zero once it is used up.
    pub fn get_remaining_gas(&self) -> (left: u64)
        ensures
            left == self@.remaining(),
    {
        self.max_limit.saturating_sub(self.spent)
    }

    /// Sets the tier `opcode` is charged at.
    pub fn mutate_opcode_tier(&mut self, opcode: u8, target_tier: GasTier)
        ensures
            final(self)@ == (GasView { weights: old(self)@.weights.insert(opcode, target_tier), ..old(self)@ }),
    {
        broadcast use vstd::std_specs::hash::group_hash_axioms;

        self.opcode_weight_matrix.insert(opcode, target_tier);
    }
}

} // verus!
