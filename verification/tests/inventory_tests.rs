use gear_trading::account::OrderFill;
use gear_trading::agents::{Agent, GearHedger};
use gear_trading::fixed::TARGET_UNBOUNDED;
use gear_trading::inventory::AgentInventory;
use gear_trading::quote::Tick;

fn band_agent(lo: i64, hi: i64) -> GearHedger {
    GearHedger::symmetric(lo, hi, 1_000, 1_000, 100_000, TARGET_UNBOUNDED)
}

#[test]
fn insert_get_remove() {
    let mut inv = AgentInventory::new();
    assert_eq!(inv.len(), 0);
    inv.insert(String::from("alpha"), band_agent(800_000, 1_200_000));
    inv.insert(String::from("beta"), band_agent(1_800_000, 2_200_000));
    assert_eq!(inv.len(), 2);
    assert!(inv.get(&String::from("alpha")).is_some());
    assert!(inv.get(&String::from("gamma")).is_none());

    // Re-inserting a name replaces the member.
    inv.insert(String::from("alpha"), band_agent(700_000, 900_000));
    assert_eq!(inv.len(), 2);
    assert_eq!(inv.get(&String::from("alpha")).unwrap().gear_f.p_0, 700_000);

    let gone = inv.remove(&String::from("beta"));
    assert!(gone.is_some());
    assert_eq!(inv.len(), 1);
    assert!(inv.remove(&String::from("beta")).is_none());
}

// The broadcast caveat: one fill goes to every active member, and a
// member whose staged trade matches its book is untouched by it.
#[test]
fn broadcast_touches_only_the_trader() {
    let mut inv = AgentInventory::new();
    inv.insert(String::from("a"), band_agent(800_000, 1_200_000));
    inv.insert(String::from("b"), band_agent(1_800_000, 2_200_000));

    // At 2.0, member a wants to be fully short; member b sits at its own
    // band middle and wants exactly its current flat book.
    let tick = Tick { time: 0, bid: 2_000_000, ask: 2_000_000 };
    let target = inv.next_exposure(&tick);
    assert_eq!(target, -100_000);

    let fill = OrderFill { price: 2_000_000, units: -100_000 };
    inv.update_on_fill(&fill);

    let a = inv.get(&String::from("a")).unwrap();
    assert_eq!(a.pl.exposure, -100_000);
    assert_eq!(a.next_sell_price, 2_001_000);
    assert_eq!(a.next_buy_price, 1_999_000);

    // b traded nothing: accounting and trip-wires unchanged.
    let b = inv.get(&String::from("b")).unwrap();
    assert_eq!(b.pl.exposure, 0);
    assert_eq!(b.pl.cum_profit, 0);
    assert_eq!(b.next_sell_price, 2_000_000);
    assert_eq!(b.next_buy_price, 2_000_000);

    assert_eq!(inv.exposure(), -100_000);
}

#[test]
fn deactivated_members_sit_out() {
    let mut inv = AgentInventory::new();
    inv.insert(String::from("a"), band_agent(800_000, 1_200_000));
    inv.deactivate();
    let tick = Tick { time: 0, bid: 2_000_000, ask: 2_000_000 };
    assert_eq!(inv.next_exposure(&tick), 0);
    assert_eq!(inv.exposure(), 0);
    assert!(inv.is_active());
    assert!(!inv.to_be_closed());
}

#[test]
fn merge_prefers_other() {
    let mut left = AgentInventory::new();
    left.insert(String::from("a"), band_agent(800_000, 1_200_000));
    left.insert(String::from("b"), band_agent(1_800_000, 2_200_000));
    let mut right = AgentInventory::new();
    right.insert(String::from("b"), band_agent(700_000, 900_000));
    right.insert(String::from("c"), band_agent(2_800_000, 3_200_000));

    left.merge(right);
    assert_eq!(left.len(), 3);
    assert_eq!(left.get(&String::from("b")).unwrap().gear_f.p_0, 700_000);
    assert!(left.get(&String::from("a")).is_some());
    assert!(left.get(&String::from("c")).is_some());
}

#[test]
fn merge_two_replaces_pair() {
    let mut inv = AgentInventory::new();
    inv.insert(
        String::from("lowband"),
        GearHedger::symmetric(800_000, 1_000_000, 1_000, 1_000, 1_000, 7_000_000),
    );
    inv.insert(
        String::from("highband"),
        GearHedger::symmetric(1_200_000, 1_400_000, 3_000, 3_000, 1_000, 5_000_000),
    );
    let done = inv.merge_two(&String::from("lowband"), &String::from("highband"),
        String::from("joint"));
    assert!(done);
    assert_eq!(inv.len(), 1);
    assert!(inv.get(&String::from("lowband")).is_none());
    assert!(inv.get(&String::from("highband")).is_none());
    let joint = inv.get(&String::from("joint")).unwrap();
    assert_eq!(joint.gear_f.p_0, 800_000);
    assert_eq!(joint.gear_f.p_n, 1_400_000);
    assert_eq!(joint.target, 12_000_000);
    assert!(joint.active);
}

#[test]
fn merge_two_missing_name_changes_nothing() {
    let mut inv = AgentInventory::new();
    inv.insert(String::from("a"), band_agent(800_000, 1_200_000));
    let done = inv.merge_two(&String::from("a"), &String::from("nosuch"),
        String::from("joint"));
    assert!(!done);
    assert_eq!(inv.len(), 1);
    assert!(inv.get(&String::from("a")).is_some());
}

#[test]
fn close_stages_every_member_flat() {
    let mut inv = AgentInventory::new();
    inv.insert(String::from("a"), band_agent(800_000, 1_200_000));
    let tick = Tick { time: 0, bid: 700_000, ask: 700_000 };
    inv.next_exposure(&tick);
    inv.update_on_fill(&OrderFill { price: 700_000, units: 100_000 });
    let r = inv.close(&Tick { time: 0, bid: 900_000, ask: 900_100 });
    assert_eq!(r, 0);
    let a = inv.get(&String::from("a")).unwrap();
    assert_eq!(a.tentative_exposure, 0);
    assert_eq!(a.tentative_price, 900_000);
}
