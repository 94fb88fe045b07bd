use gear_trading::account::OrderFill;
use gear_trading::agents::{Agent, GearHedger};
use gear_trading::bicoast::BiCoastAgent;
use gear_trading::fixed::TARGET_UNBOUNDED;
use gear_trading::quote::Tick;

#[test]
fn bicoast_starts_with_one_epoch() {
    // scale 0.001, exposure 100_000, half-width 0.2: one epoch is
    // scale * exposure / span = 500 micro.
    let agent = BiCoastAgent::new(1_000_000, 200_000, 1_000, 100_000);
    assert_eq!(agent.epoch_target, 500);
    assert_eq!(agent.gear_hedger.target, 500);
    assert_eq!(agent.gear_hedger.gear_f.p_0, 800_000);
    assert_eq!(agent.gear_hedger.gear_f.p_n, 1_200_000);
    assert_eq!(agent.exposure(), 0);
    assert!(agent.is_active());
    assert!(!agent.to_be_closed());
}

#[test]
fn bicoast_recalibrates_on_target() {
    let mut agent = BiCoastAgent::new(1_000_000, 100_000, 1_000, 100_000);
    let epoch = agent.epoch_target;
    // Stage a price away from the middle, then hit the target.
    agent.gear_hedger.tentative_price = 1_050_000;
    let r = agent.target_action();
    assert_eq!(r, 0);
    assert_eq!(agent.gear_hedger.target, 2 * epoch);
    // The band recenters on the staged price, with the old full width as
    // the new half-width.
    assert_eq!(agent.gear_hedger.gear_f.p_0, 850_000);
    assert_eq!(agent.gear_hedger.gear_f.p_n, 1_250_000);
}

#[test]
fn bicoast_mid_price() {
    let agent = BiCoastAgent::new(1_000_000, 100_000, 1_000, 100_000);
    assert_eq!(agent.mid_price(), 1_000_000);
}

// Priming an agent stages the fill on top of the pending trade before
// booking it; this is how merged agents inherit a position.
#[test]
fn priming_adds_to_the_staged_trade() {
    let mut agent = GearHedger::symmetric(800_000, 1_200_000, 1_000, 1_000, 100_000,
        TARGET_UNBOUNDED);
    agent.next_exposure_and_fill(&OrderFill { price: 900_000, units: 25_000 });
    assert_eq!(agent.exposure(), 25_000);
    assert_eq!(agent.pl.price_average, 900_000);
    assert_eq!(agent.tentative_price, 900_000);
    assert_eq!(agent.next_sell_price, 901_000);
    assert_eq!(agent.next_buy_price, 899_000);

    agent.next_exposure_and_fill(&OrderFill { price: 950_000, units: 5_000 });
    assert_eq!(agent.exposure(), 30_000);
}

// The bi-coastal stubs leave quotes and fills alone.
#[test]
fn bicoast_stubs_do_nothing() {
    let mut agent = BiCoastAgent::new(1_000_000, 100_000, 1_000, 100_000);
    let t = Tick { time: 0, bid: 900_000, ask: 900_000 };
    assert_eq!(agent.next_exposure(&t), 0);
    assert_eq!(agent.target_exposure(&t), 0);
    agent.update_on_fill(&OrderFill { price: 900_000, units: 10 });
    assert_eq!(agent.exposure(), 0);
}
