use solotto::identity::Identity;
use solotto::ledger::{holder_position, update_holder};
use solotto::program::{initialize, update_holder_balance, Initialize, UpdateHolderBalance};
use solotto::state::SolottoState;

fn wallet(n: u8) -> Identity {
    Identity::new([n; 32])
}

fn fresh_record() -> SolottoState {
    initialize(&Initialize { authority: wallet(200), mint: wallet(201), bump: 254 }, 1_000)
}

#[test]
fn identity_compares_all_bytes() {
    let mut bytes = [7u8; 32];
    let a = Identity::new(bytes);
    assert_eq!(a, Identity::new([7u8; 32]));
    bytes[31] = 8;
    assert_ne!(a, Identity::new(bytes));
    bytes[31] = 7;
    bytes[0] = 0;
    assert_ne!(a, Identity::new(bytes));
    assert_eq!(a.bytes, [7u8; 32]);
}

#[test]
fn report_appends_a_new_holder() {
    let mut record = fresh_record();
    update_holder(&mut record, wallet(1), 100);
    update_holder(&mut record, wallet(2), 50);
    assert_eq!(record.holders, vec![(wallet(1), 100), (wallet(2), 50)]);
}

#[test]
fn report_overwrites_a_listed_balance() {
    let mut record = fresh_record();
    update_holder(&mut record, wallet(1), 100);
    update_holder(&mut record, wallet(2), 50);
    update_holder(&mut record, wallet(1), 75);
    assert_eq!(record.holders, vec![(wallet(1), 75), (wallet(2), 50)]);
}

#[test]
fn report_of_zero_removes_the_holder() {
    let mut record = fresh_record();
    update_holder(&mut record, wallet(1), 100);
    update_holder(&mut record, wallet(1), 0);
    assert!(record.holders.iter().all(|entry| entry.0 != wallet(1)));
    assert!(record.holders.is_empty());
}

#[test]
fn removal_keeps_the_order_of_the_rest() {
    let mut record = fresh_record();
    update_holder(&mut record, wallet(1), 10);
    update_holder(&mut record, wallet(2), 20);
    update_holder(&mut record, wallet(3), 30);
    update_holder(&mut record, wallet(2), 0);
    assert_eq!(record.holders, vec![(wallet(1), 10), (wallet(3), 30)]);
    update_holder(&mut record, wallet(2), 5);
    assert_eq!(record.holders, vec![(wallet(1), 10), (wallet(3), 30), (wallet(2), 5)]);
}

#[test]
fn report_of_zero_for_an_unlisted_wallet_changes_nothing() {
    let mut record = fresh_record();
    update_holder(&mut record, wallet(1), 10);
    let before = record.clone();
    update_holder(&mut record, wallet(9), 0);
    assert_eq!(record, before);
}

#[test]
fn reports_leave_the_rest_of_the_record_alone() {
    let mut record = fresh_record();
    let before = record.clone();
    update_holder(&mut record, wallet(1), 10);
    assert_eq!(record.authority, before.authority);
    assert_eq!(record.authority_wallet, before.authority_wallet);
    assert_eq!(record.mint, before.mint);
    assert_eq!(record.last_draw_time, before.last_draw_time);
    assert_eq!(record.next_draw_time, before.next_draw_time);
    assert_eq!(record.current_winner, before.current_winner);
    assert_eq!(record.winner_fees_distributed, 0);
    assert_eq!(record.authority_fees_distributed, 0);
    assert_eq!(record.bump, 254);
}

#[test]
fn ledger_stays_clean_over_many_reports() {
    let mut record = fresh_record();
    let reports: [(u8, u64); 12] = [
        (1, 5), (2, 0), (3, 7), (1, 0), (3, 9), (4, 1), (1, 2), (4, 0), (2, 8), (2, 8), (3, 0), (5, 0),
    ];
    for (n, balance) in reports {
        update_holder(&mut record, wallet(n), balance);
        for (i, entry) in record.holders.iter().enumerate() {
            assert!(entry.1 > 0);
            for other in record.holders.iter().skip(i + 1) {
                assert_ne!(entry.0, other.0);
            }
        }
    }
    assert_eq!(record.holders, vec![(wallet(1), 2), (wallet(2), 8)]);
}

#[test]
fn position_is_the_first_entry_of_the_wallet() {
    let holders = vec![(wallet(1), 10), (wallet(2), 20), (wallet(1), 30)];
    assert_eq!(holder_position(&holders, &wallet(1)), Some(0));
    assert_eq!(holder_position(&holders, &wallet(2)), Some(1));
    assert_eq!(holder_position(&holders, &wallet(3)), None);
    assert_eq!(holder_position(&Vec::new(), &wallet(1)), None);
}

#[test]
fn report_touches_only_the_first_entry_of_a_wallet_listed_twice() {
    let mut record = fresh_record();
    record.holders = vec![(wallet(1), 10), (wallet(2), 20), (wallet(1), 30)];
    update_holder(&mut record, wallet(1), 11);
    assert_eq!(record.holders, vec![(wallet(1), 11), (wallet(2), 20), (wallet(1), 30)]);
    update_holder(&mut record, wallet(1), 0);
    assert_eq!(record.holders, vec![(wallet(2), 20), (wallet(1), 30)]);
}

#[test]
fn holder_reports_its_own_balance() {
    let mut record = fresh_record();
    update_holder_balance(&mut record, &UpdateHolderBalance { holder: wallet(4), balance: 44 });
    assert_eq!(record.holders, vec![(wallet(4), 44)]);
    update_holder_balance(&mut record, &UpdateHolderBalance { holder: wallet(4), balance: 40 });
    assert_eq!(record.holders, vec![(wallet(4), 40)]);
    update_holder_balance(&mut record, &UpdateHolderBalance { holder: wallet(4), balance: 0 });
    assert!(record.holders.is_empty());
}
