//! Support powers: whether the host fires a power a player asks for, and
//! the cooldown each team's power then waits out.

use vstd::prelude::*;

use crate::table::{insert_entry, lemma_insert_lookup, lemma_unique_insert, lookup, lookup_u64, remove_key_u64, unique_keys};

verus! {

/// Why a support power was not fired.
#[derive(Clone, Copy, Debug, PartialEq, Eq, Structural)]
pub enum SupportRefusal {
    /// The target point lies off the map.
    OffMap,
    /// The player's faction has no such power.
    NotForFaction,
    /// The structure the power needs is missing.
    MissingTech,
    /// The power is still cooling down.
    CoolingDown,
}

/// The cooldowns that run, per team and power (`key` names both), in
/// milliseconds left.
pub struct SupportCooldowns {
    pub remaining: Vec<(u64, u64)>,
}

/// The time a power still waits; none when it never fired.
pub open spec fn cooldown_left(remaining: Seq<(u64, u64)>, key: u64) -> u64 {
    match lookup(remaining, key) {
        Some(ms) => ms,
        None => 0,
    }
}

/// The host's decision on a request, checks in order: the target point, the
/// faction, the required structure, then the cooldown.
pub open spec fn support_decision(
    remaining: Seq<(u64, u64)>,
    key: u64,
    target_on_map: bool,
    faction_has_power: bool,
    tech_met: bool,
) -> Result<(), SupportRefusal> {
    if !target_on_map {
        Err(SupportRefusal::OffMap)
    } else if !faction_has_power {
        Err(SupportRefusal::NotForFaction)
    } else if !tech_met {
        Err(SupportRefusal::MissingTech)
    } else if cooldown_left(remaining, key) > 0 {
        Err(SupportRefusal::CoolingDown)
    } else {
        Ok(())
    }
}

impl SupportCooldowns {
    pub open spec fn well_formed(&self) -> bool {
        unique_keys(self.remaining@)
    }

    /// No power has fired yet.
    pub fn new() -> (cooldowns: SupportCooldowns)
        ensures
            cooldowns.well_formed(),
            cooldowns.remaining@.len() == 0,
    {
        SupportCooldowns { remaining: Vec::new() }
    }

    /// How long the power under `key` still waits.
    pub fn remaining_for(&self, key: u64) -> (ms: u64)
        ensures
            ms == cooldown_left(self.remaining@, key),
    {
        match lookup_u64(&self.remaining, key) {
            Some(ms) => ms,
            None => 0,
        }
    }

    /// A player asks to fire the power under `key`. When every check passes
    /// the power fires and starts its cooldown of `cooldown_ms`; otherwise
    /// nothing changes and the first failed check is returned.
    pub fn request(
        &mut self,
        key: u64,
        target_on_map: bool,
        faction_has_power: bool,
        tech_met: bool,
        cooldown_ms: u64,
    ) -> (decision: Result<(), SupportRefusal>)
        requires
            old(self).well_formed(),
        ensures
            final(self).well_formed(),
            decision == support_decision(old(self).remaining@, key, target_on_map, faction_has_power, tech_met),
            decision is Ok ==> final(self).remaining@ == insert_entry(old(self).remaining@, key, cooldown_ms),
            decision is Err ==> final(self).remaining@ == old(self).remaining@,
    {
        if !target_on_map {
            return Err(SupportRefusal::OffMap);
        }
        if !faction_has_power {
            return Err(SupportRefusal::NotForFaction);
        }
        if !tech_met {
            return Err(SupportRefusal::MissingTech);
        }
        if self.remaining_for(key) > 0 {
            return Err(SupportRefusal::CoolingDown);
        }
        proof {
            lemma_unique_insert(self.remaining@, key, cooldown_ms);
        }
        remove_key_u64(&mut self.remaining, key);
        self.remaining.push((key, cooldown_ms));
        Ok(())
    }
}

/// A power that fired with a cooldown cannot fire again before the cooldown
/// has run.
pub proof fn law_fired_power_waits_its_cooldown(
    remaining: Seq<(u64, u64)>,
    key: u64,
    cooldown_ms: u64,
    target_on_map: bool,
    faction_has_power: bool,
    tech_met: bool,
)
    requires
        cooldown_ms > 0,
    ensures
        support_decision(insert_entry(remaining, key, cooldown_ms), key, target_on_map, faction_has_power, tech_met) is Err,
{
    lemma_insert_lookup(remaining, key, cooldown_ms, key);
}

} // verus!
