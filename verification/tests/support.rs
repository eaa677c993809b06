use open_rts::host::RTS_ONLINE_PROTOCOL;
use open_rts::netcmd::{CommandEnvelope, CommandInbox};
use open_rts::support::{SupportCooldowns, SupportRefusal};

const ORBITAL_STRIKE: u64 = 1;
const RADAR_SWEEP: u64 = 2;
const RADAR_SWEEP_COOLDOWN_MS: u64 = 45_000;

#[test]
fn host_validates_faction_tech_and_cooldown_for_support_powers() {
    // Player 2 plays the Alliance and owns a radar uplink: the radar sweep is
    // theirs, the orbital strike is not.
    let faction_has = |power: u64| power == RADAR_SWEEP;
    let mut inbox: CommandInbox<u64> = CommandInbox::new();
    for (sequence, power) in [(1, ORBITAL_STRIKE), (2, RADAR_SWEEP), (3, RADAR_SWEEP)] {
        assert!(inbox.enqueue(2, CommandEnvelope { protocol: RTS_ONLINE_PROTOCOL, sequence, command: power }));
    }
    let mut cooldowns = SupportCooldowns::new();
    let mut decisions = Vec::new();
    for (_, power) in inbox.take_pending() {
        decisions.push(cooldowns.request(power, true, faction_has(power), true, RADAR_SWEEP_COOLDOWN_MS));
    }
    assert_eq!(decisions, vec![Err(SupportRefusal::NotForFaction), Ok(()), Err(SupportRefusal::CoolingDown)]);
    assert_eq!(cooldowns.remaining_for(ORBITAL_STRIKE), 0);
    assert_eq!(cooldowns.remaining_for(RADAR_SWEEP), RADAR_SWEEP_COOLDOWN_MS);
}

#[test]
fn support_powers_check_the_target_and_the_tech_first() {
    let mut cooldowns = SupportCooldowns::new();
    assert_eq!(cooldowns.request(RADAR_SWEEP, false, true, true, 10), Err(SupportRefusal::OffMap));
    assert_eq!(cooldowns.request(RADAR_SWEEP, true, true, false, 10), Err(SupportRefusal::MissingTech));
    assert_eq!(cooldowns.remaining_for(RADAR_SWEEP), 0);
    assert_eq!(cooldowns.request(RADAR_SWEEP, true, true, true, 0), Ok(()));
    assert_eq!(cooldowns.request(RADAR_SWEEP, true, true, true, 10), Ok(()));
    assert_eq!(cooldowns.request(RADAR_SWEEP, true, true, true, 10), Err(SupportRefusal::CoolingDown));
}
