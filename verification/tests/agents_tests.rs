use gear_trading::account::OrderFill;
use gear_trading::agents::{Agent, GAgent, GearHedger};
use gear_trading::fixed::{SCALE, TARGET_UNBOUNDED};
use gear_trading::pl::AgentPL;
use gear_trading::quote::Tick;

#[test]
fn agents_exploration() {
    assert_eq!(2 + 2, 4);
}

fn fill_staged(agent: &mut GearHedger) {
    let fill = OrderFill { price: agent.tentative_price, units: agent.tentative_exposure };
    agent.update_on_fill(&fill);
}

// The canonical three-tick ride of a symmetric agent: fully long below
// the band, flat at the middle, fully short above.
#[test]
fn symetric() {
    let mut gear = GearHedger::symmetric(800_000, 1_200_000, 1_000, 1_000, 100_000,
        TARGET_UNBOUNDED);

    gear.next_exposure(&Tick { time: 0, bid: 700_000, ask: 700_100 });
    fill_staged(&mut gear);
    assert_eq!(gear.exposure(), gear.max_exposure);

    gear.next_exposure(&Tick { time: 0, bid: 1_000_000, ask: 1_000_000 });
    fill_staged(&mut gear);
    assert_eq!(gear.exposure(), 0);

    gear.next_exposure(&Tick { time: 0, bid: 1_200_000, ask: 1_200_000 });
    fill_staged(&mut gear);
    assert_eq!(gear.exposure(), -gear.max_exposure);
}

// A segment agent with a ten-money target: two rising ticks trade it
// through the band and realize a profit that retires it.
#[test]
fn target() {
    let mut agent = GAgent::Segment {
        price0: 1_001_000,
        exposure0: 100_000,
        pricen: 1_021_000,
        exposuren: -100_000,
        scale: 1_000,
        target: 10_000_000,
    }
    .build()
    .unwrap();

    agent.next_exposure(&Tick { time: 0, bid: 1_010_000, ask: 1_010_000 });
    fill_staged(&mut agent);
    assert_eq!(agent.exposure(), 10_000);
    assert!(agent.is_active());

    agent.next_exposure(&Tick { time: 0, bid: 1_012_000, ask: 1_012_000 });
    fill_staged(&mut agent);
    assert_eq!(agent.exposure(), 0);
    assert!(agent.pl.cum_profit > 0);
    assert!(!agent.is_active());
}

// The one-sided buyer's first tick: the ask crosses the armed purchase
// wire; the fill rearms the wires one grid step around the fill price.
#[test]
fn buyer_first_tick() {
    let mut agent = GearHedger::buyer(1_000_000, 2_000_000, 10_000, 10_000, 1_000);
    let wanted = agent.next_exposure(&Tick { time: 0, bid: 1_500_000, ask: 1_510_000 });
    assert_eq!(wanted, 490);
    assert_eq!(agent.tentative_price, 1_510_000);
    fill_staged(&mut agent);
    assert_eq!(agent.exposure(), 490);
    assert_eq!(agent.next_buy_price, 1_500_000);
    assert_eq!(agent.next_sell_price, 1_520_000);
}

// A tick strictly inside the trip-wire band leaves the staged trade and
// the reported exposure unchanged.
#[test]
fn quiet_inside_band() {
    let mut agent = GearHedger::symmetric(800_000, 1_200_000, 1_000, 1_000, 100_000,
        TARGET_UNBOUNDED);
    agent.next_exposure(&Tick { time: 0, bid: 700_000, ask: 700_000 });
    fill_staged(&mut agent);
    assert_eq!(agent.exposure(), 100_000);
    // The wires now stand at 699_000 and 701_000.
    let staged_price = agent.tentative_price;
    let r = agent.next_exposure(&Tick { time: 0, bid: 700_100, ask: 700_900 });
    assert_eq!(r, 100_000);
    assert_eq!(agent.tentative_price, staged_price);
    assert_eq!(agent.tentative_exposure, 100_000);
}

// Once a tick values the position above the target, the agent goes flat
// and inactive.
#[test]
fn profit_take() {
    let mut agent = GearHedger::symmetric(800_000, 1_200_000, 1_000, 1_000, 100_000,
        5_000_000_000);
    agent.next_exposure(&Tick { time: 0, bid: 700_000, ask: 700_000 });
    fill_staged(&mut agent);
    assert_eq!(agent.exposure(), 100_000);
    // Long 100_000 from 0.7; at 0.84 the marked profit is fully above target.
    let r = agent.next_exposure(&Tick { time: 0, bid: 840_000, ask: 840_000 });
    assert_eq!(r, 0);
    assert_eq!(agent.tentative_exposure, 0);
    assert!(!agent.is_active());
    fill_staged(&mut agent);
    assert_eq!(agent.exposure(), 0);
    assert!(!agent.is_active());
    assert!(agent.pl.cum_profit > agent.target);
}

// Merging two symmetric agents with disjoint bands covers the union of
// the bands and sums the targets.
#[test]
fn merge_disjoint_bands() {
    let a = GearHedger::symmetric(800_000, 1_000_000, 1_000, 1_000, 1_000, 7_000_000);
    let b = GearHedger::symmetric(1_200_000, 1_400_000, 3_000, 3_000, 1_000, 5_000_000);
    let merged = a.merge_flat(&b);
    assert!(merged.active);
    assert_eq!(merged.gear_f.p_0, 800_000);
    assert_eq!(merged.gear_f.p_n, 1_400_000);
    assert_eq!(merged.max_exposure, 2_000);
    assert_eq!(merged.scale_up, 2_000);
    assert_eq!(merged.scale_down, 2_000);
    assert_eq!(merged.target, 12_000_000);
    assert_eq!(merged.exposure(), 0);
    assert_eq!(merged.pl.cum_profit, 0);
}

// Merging replays both positions into the merged book.
#[test]
fn merge_replays_positions() {
    let mut a = GearHedger::symmetric(800_000, 1_000_000, 1_000, 1_000, 1_000, 7_000_000);
    a.next_exposure(&Tick { time: 0, bid: 700_000, ask: 700_000 });
    let fill = OrderFill { price: a.tentative_price, units: a.tentative_exposure };
    a.update_on_fill(&fill);
    assert_eq!(a.exposure(), 1_000);
    let b = GearHedger::symmetric(1_200_000, 1_400_000, 3_000, 3_000, 1_000, 5_000_000);
    let merged = a.merge_flat(&b);
    assert_eq!(merged.exposure(), 1_000);
    assert_eq!(merged.pl.cum_profit, 0);
    assert_eq!(merged.pl.price_average, 700_000);
}

#[test]
fn pl_buy_sell_books_return() {
    let mut pl = AgentPL { exposure: 0, price_average: 0, cum_profit: 0, unrealized_pl: 0 };
    pl.buy(1_000_000, 100);
    assert_eq!(pl.exposure, 100);
    assert_eq!(pl.price_average, 1_000_000);
    assert_eq!(pl.cum_profit, 0);

    // Closing 50 units 10% above the entry realizes 5 units of return.
    pl.sell(1_100_000, 50);
    assert_eq!(pl.exposure, 50);
    assert_eq!(pl.price_average, 1_000_000);
    assert_eq!(pl.cum_profit, 5_000_000);

    // Selling through zero closes the rest at 20% and reopens short.
    pl.sell(1_200_000, 100);
    assert_eq!(pl.exposure, -50);
    assert_eq!(pl.price_average, 1_200_000);
    assert_eq!(pl.cum_profit, 5_000_000 + 10_000_000);
}

#[test]
fn pl_average_is_weighted() {
    let mut pl = AgentPL { exposure: 0, price_average: 0, cum_profit: 0, unrealized_pl: 0 };
    pl.buy(1_000_000, 100);
    pl.buy(1_200_000, 300);
    assert_eq!(pl.exposure, 400);
    assert_eq!(pl.price_average, 1_150_000);
}

#[test]
fn pl_at_price_marks_position() {
    let mut pl = AgentPL { exposure: 0, price_average: 0, cum_profit: 0, unrealized_pl: 0 };
    pl.buy(1_000_000, 100);
    assert_eq!(pl.pl_at_price(1_050_000), 5_000_000);
    assert_eq!(pl.uPL(1_050_000), 5_000_000);
    assert_eq!(pl.total_profit(1_050_000), 5_000_000);
    assert_eq!(pl.unrealized_pl, 5_000_000);
}

#[test]
fn build_symmetric_form() {
    let h = GAgent::Symmetric {
        pmid: 1_000_000,
        span: 200_000,
        scale: 1_000,
        exposure: 100_000,
        target: TARGET_UNBOUNDED,
    }
    .build()
    .unwrap();
    assert_eq!(h.gear_f.p_0, 800_000);
    assert_eq!(h.gear_f.p_n, 1_200_000);
    assert_eq!(h.max_exposure, 100_000);
    assert_eq!(h.next_buy_price, 1_000_000);
    assert_eq!(h.next_sell_price, 1_000_000);
    assert!(h.active);
    assert_eq!(h.exposure(), 0);
}

#[test]
fn build_rejects_bad_parameters() {
    let no_span = GAgent::Symmetric {
        pmid: 1_000_000,
        span: 0,
        scale: 1_000,
        exposure: 100_000,
        target: 0,
    };
    assert!(no_span.build().is_none());
    let no_exposure = GAgent::Segment {
        price0: 1_000_000,
        exposure0: 0,
        pricen: 2_000_000,
        exposuren: 0,
        scale: 1_000,
        target: 0,
    };
    assert!(no_exposure.build().is_none());
}

#[test]
fn build_buy_sell_jump() {
    let b = GAgent::Buy { price0: 1_000_000, price1: 2_000_000, scale: 1_000,
        exposure: 500 }.build().unwrap();
    assert_eq!(b.gear_f.g_0, SCALE);
    assert_eq!(b.gear_f.g_n, 0);
    assert_eq!(b.target, TARGET_UNBOUNDED);
    assert_eq!(b.next_buy_price, 2_000_000);

    let s = GAgent::Sell { price0: 1_000_000, price1: 2_000_000, scale: 1_000,
        exposure: 500 }.build().unwrap();
    assert_eq!(s.gear_f.g_0, 0);
    assert_eq!(s.gear_f.g_n, -SCALE);
    assert_eq!(s.next_sell_price, 1_000_000);

    let j = GAgent::JumpLong { price0: 1_000_000, scale: 1_000, exposure: 500 }
        .build()
        .unwrap();
    assert_eq!(j.gear_f.g_0, SCALE);
    assert_eq!(j.gear_f.g_n, 0);
    assert_eq!(j.gear_f.p_0, 1_000_000);
}

#[test]
fn build_cl_form() {
    let h = GAgent::CL {
        direction: 1,
        price: 1_000_000,
        scale: 1_000,
        size: 10,
        i0: None,
        imax: 100,
        target: None,
    }
    .build()
    .unwrap();
    // The flat price shifts one step up; the band is one hundred steps wide.
    assert_eq!(h.gear_f.p_0, 901_000);
    assert_eq!(h.gear_f.p_n, 1_101_000);
    assert_eq!(h.max_exposure, 1_000);
    assert_eq!(h.target, 10_000);
    assert_eq!(h.scale_up, 1_000);
}

#[test]
fn build_ohlc_clips_arms() {
    let h = GAgent::OHLC {
        open: 1_000_000,
        high: 1_300_000,
        low: 900_000,
        close: 1_200_000,
        scale: 1_000,
        exposure: 1_000,
        target: None,
    }
    .build()
    .unwrap();
    // Anchor 1.2: the long arm saturates at the full exposure, the short
    // arm is clipped by the 1:3 arm ratio.
    assert_eq!(h.gear_f.p_0, 900_000);
    assert_eq!(h.gear_f.p_n, 1_300_000);
    assert_eq!(h.max_exposure, 1_000);
    assert_eq!(h.gear_f.g_0, SCALE);
    assert_eq!(h.gear_f.g_n, -333_000);
    assert_eq!(h.target, TARGET_UNBOUNDED);
}

#[test]
fn build_coastline_form() {
    let h = GAgent::Coastline {
        direction: 1,
        price0: 1_000_000,
        scale: 1_000,
        size: 10,
        imax: 100,
    }
    .build()
    .unwrap();
    assert_eq!(h.gear_f.p_0, 900_000);
    assert_eq!(h.gear_f.p_n, 1_100_000);
    assert_eq!(h.gear_f.g_0, 100 * SCALE);
    assert_eq!(h.max_exposure, 1_000);
    assert_eq!(h.target, 10_000);
}

#[test]
fn constant_agent() {
    let h = GearHedger::constant(-5_000);
    assert_eq!(h.max_exposure, 5_000);
    assert_eq!(h.gear_f.g_0, -SCALE);
    assert_eq!(h.gear_f.g_n, -SCALE);
    assert!(h.active);
    assert_eq!(h.exposure(), 0);
}

#[test]
fn close_stages_flat() {
    let mut agent = GearHedger::symmetric(800_000, 1_200_000, 1_000, 1_000, 100_000,
        TARGET_UNBOUNDED);
    agent.next_exposure(&Tick { time: 0, bid: 700_000, ask: 700_000 });
    fill_staged(&mut agent);
    let r = agent.close(&Tick { time: 0, bid: 900_000, ask: 900_100 });
    assert_eq!(r, 0);
    // Long, so the flat trade is valued at the bid.
    assert_eq!(agent.tentative_price, 900_000);
    assert_eq!(agent.tentative_exposure, 0);
}
