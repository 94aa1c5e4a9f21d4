use solotto::fees::{plan_transfer, split_transfer, tally, FeeRoute, FeeSplit, TransferPlan};

#[test]
fn split_of_one_thousand() {
    let split = split_transfer(1000);
    assert_eq!(split, FeeSplit { net_amount: 980, winner_fee: 10, authority_fee: 10 });
}

#[test]
fn split_below_one_hundred_takes_no_fee() {
    for amount in 0..100u64 {
        let split = split_transfer(amount);
        assert_eq!(split.winner_fee, 0);
        assert_eq!(split.authority_fee, 0);
        assert_eq!(split.net_amount, amount);
    }
}

#[test]
fn split_rounds_fees_down() {
    assert_eq!(split_transfer(100), FeeSplit { net_amount: 98, winner_fee: 1, authority_fee: 1 });
    assert_eq!(split_transfer(199), FeeSplit { net_amount: 197, winner_fee: 1, authority_fee: 1 });
    assert_eq!(split_transfer(200), FeeSplit { net_amount: 196, winner_fee: 2, authority_fee: 2 });
    assert_eq!(
        split_transfer(12_345),
        FeeSplit { net_amount: 12_099, winner_fee: 123, authority_fee: 123 }
    );
}

#[test]
fn split_conserves_the_amount() {
    let amounts = [0u64, 1, 99, 100, 101, 9_999, 1 << 40, u64::MAX - 1, u64::MAX];
    for amount in amounts {
        let split = split_transfer(amount);
        let total = split.net_amount as u128 + split.winner_fee as u128 + split.authority_fee as u128;
        assert_eq!(total, amount as u128);
        assert!(split.winner_fee <= amount);
        assert!(split.authority_fee <= amount);
    }
}

#[test]
fn split_of_the_largest_amount() {
    let split = split_transfer(u64::MAX);
    assert_eq!(split.winner_fee, 184_467_440_737_095_516);
    assert_eq!(split.authority_fee, 184_467_440_737_095_516);
    assert_eq!(split.net_amount, 18_077_809_192_235_360_583);
}

#[test]
fn plan_routes_fees_to_designated_accounts() {
    let plan = plan_transfer(1000, true, true, true);
    assert_eq!(
        plan,
        TransferPlan {
            net_amount: 980,
            winner_fee: 10,
            winner_route: FeeRoute::Designated,
            authority_fee: 10,
            authority_route: FeeRoute::Designated,
        }
    );
}

#[test]
fn plan_routes_winner_fee_to_recipient_without_account() {
    let plan = plan_transfer(1000, true, false, true);
    assert_eq!(plan.winner_route, FeeRoute::Recipient);
    assert_eq!(plan.authority_route, FeeRoute::Designated);
}

#[test]
fn plan_routes_winner_fee_to_recipient_without_winner() {
    let plan = plan_transfer(1000, false, true, true);
    assert_eq!(plan.winner_route, FeeRoute::Recipient);
    assert_eq!(plan.winner_fee, 10);
}

#[test]
fn plan_routes_authority_fee_to_recipient_without_account() {
    let plan = plan_transfer(500, true, true, false);
    assert_eq!(plan.authority_route, FeeRoute::Recipient);
    assert_eq!(plan.authority_fee, 5);
    assert_eq!(plan.winner_route, FeeRoute::Designated);
}

#[test]
fn plan_sends_nothing_for_zero_fees() {
    let plan = plan_transfer(99, true, true, true);
    assert_eq!(
        plan,
        TransferPlan {
            net_amount: 99,
            winner_fee: 0,
            winner_route: FeeRoute::NotDue,
            authority_fee: 0,
            authority_route: FeeRoute::NotDue,
        }
    );
}

#[test]
fn tally_adds_the_fee() {
    assert_eq!(tally(0, 10), 10);
    assert_eq!(tally(990, 10), 1000);
    assert_eq!(tally(u64::MAX - 10, 10), u64::MAX);
}

#[test]
fn tally_keeps_the_total_when_the_sum_does_not_fit() {
    assert_eq!(tally(u64::MAX - 9, 10), u64::MAX - 9);
    assert_eq!(tally(u64::MAX, 1), u64::MAX);
}
