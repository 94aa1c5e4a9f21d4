use solotto::draw::{draw_winner, leading_holder, pick_winner, prune_holders};
use solotto::identity::Identity;
use solotto::ledger::update_holder;
use solotto::program::{initialize, Initialize};
use solotto::selection::{is_used, resolve_index, select_indices};
use solotto::state::SolottoState;

const WEEK: i64 = 604_800;

fn key(n: u8) -> Identity {
    Identity::new([n; 32])
}

fn record_with(balances: &[(u8, u64)]) -> SolottoState {
    let mut record = initialize(&Initialize { authority: key(200), mint: key(201), bump: 1 }, 0);
    for (n, balance) in balances {
        update_holder(&mut record, key(*n), *balance);
    }
    record
}

fn five_holders() -> SolottoState {
    record_with(&[(1, 10), (2, 20), (3, 30), (4, 40), (5, 50)])
}

#[test]
fn draw_over_an_empty_ledger_clears_the_winner() {
    let mut record = record_with(&[]);
    record.current_winner = Some(key(9));
    draw_winner(&mut record, 5_000, 77);
    assert_eq!(record.current_winner, None);
    assert_eq!(record.last_draw_time, 5_000);
    assert_eq!(record.next_draw_time, 5_000 + WEEK);
    assert!(record.holders.is_empty());
}

#[test]
fn single_holder_wins_whatever_the_seed() {
    for seed in [0u64, 1, 2, 42, 1 << 63, u64::MAX] {
        let mut record = record_with(&[(7, 500)]);
        draw_winner(&mut record, 1_700_000_000, seed);
        assert_eq!(record.current_winner, Some(key(7)));
        assert_eq!(record.holders, vec![(key(7), 500)]);
    }
}

#[test]
fn draw_advances_the_epoch() {
    for time in [-WEEK, 0, 1_700_000_000, i64::MAX - WEEK] {
        let mut record = five_holders();
        draw_winner(&mut record, time, 3);
        assert_eq!(record.last_draw_time, time);
        assert_eq!(record.next_draw_time - record.last_draw_time, WEEK);
    }
}

#[test]
fn draw_is_reproducible() {
    let mut first = five_holders();
    let mut second = five_holders();
    draw_winner(&mut first, 1_700_000_000, 123_456_789);
    draw_winner(&mut second, 1_700_000_000, 123_456_789);
    assert_eq!(first, second);
    assert_eq!(first.current_winner, Some(key(5)));
}

#[test]
fn draw_with_colliding_candidates() {
    // All four rounds point at index 1; the sample is then entries 1, 0, 2, 3.
    let mut record = five_holders();
    draw_winner(&mut record, 1_700_000_000, 42);
    assert_eq!(record.current_winner, Some(key(4)));
}

#[test]
fn draw_over_known_seeds() {
    let cases: [(u64, i64, u8); 6] = [
        (7, 1_700_000_000, 4),
        (42, 0, 4),
        (7, 0, 5),
        (99, 1_700_000_000, 5),
        (1, 0, 5),
        (2024, 0, 5),
    ];
    for (seed, time, winner) in cases {
        let mut record = five_holders();
        draw_winner(&mut record, time, seed);
        assert_eq!(record.current_winner, Some(key(winner)));
    }
}

#[test]
fn draw_over_three_holders_samples_them_all() {
    for seed in [1u64, 7, 42, 99, 2024, 123_456_789] {
        let mut record = record_with(&[(1, 10), (2, 20), (3, 30)]);
        draw_winner(&mut record, 1_700_000_000, seed);
        assert_eq!(record.current_winner, Some(key(3)));
    }
}

#[test]
fn draw_among_equal_balances_takes_the_first_sampled() {
    let balances: [(u8, u64); 7] = [(0, 5), (1, 5), (2, 5), (3, 5), (4, 5), (5, 5), (6, 5)];
    let cases: [(u64, i64, u8); 4] =
        [(123_456_789, 1_700_000_000, 5), (42, 0, 0), (99, 0, 1), (1, 0, 6)];
    for (seed, time, winner) in cases {
        let mut record = record_with(&balances);
        draw_winner(&mut record, time, seed);
        assert_eq!(record.current_winner, Some(key(winner)));
    }
}

#[test]
fn draw_prunes_zero_balances_first() {
    let mut record = record_with(&[(1, 10)]);
    record.holders = vec![(key(8), 0), (key(1), 10), (key(9), 0)];
    draw_winner(&mut record, 100, 5);
    assert_eq!(record.holders, vec![(key(1), 10)]);
    assert_eq!(record.current_winner, Some(key(1)));

    let mut record = record_with(&[]);
    record.holders = vec![(key(8), 0), (key(9), 0)];
    record.current_winner = Some(key(8));
    draw_winner(&mut record, 100, 5);
    assert!(record.holders.is_empty());
    assert_eq!(record.current_winner, None);
    assert_eq!(record.next_draw_time, 100 + WEEK);
}

#[test]
fn draw_keeps_the_rest_of_the_record() {
    let mut record = five_holders();
    record.winner_fees_distributed = 11;
    record.authority_fees_distributed = 22;
    let before = record.clone();
    draw_winner(&mut record, 9, 9);
    assert_eq!(record.holders, before.holders);
    assert_eq!(record.authority, before.authority);
    assert_eq!(record.authority_wallet, before.authority_wallet);
    assert_eq!(record.mint, before.mint);
    assert_eq!(record.winner_fees_distributed, 11);
    assert_eq!(record.authority_fees_distributed, 22);
    assert_eq!(record.bump, before.bump);
}

#[test]
fn prune_drops_zero_balances_in_place() {
    let mut holders = vec![(key(1), 0), (key(2), 2), (key(3), 0), (key(4), 4), (key(5), 0)];
    prune_holders(&mut holders);
    assert_eq!(holders, vec![(key(2), 2), (key(4), 4)]);
    prune_holders(&mut holders);
    assert_eq!(holders, vec![(key(2), 2), (key(4), 4)]);
    let mut none: Vec<(Identity, u64)> = Vec::new();
    prune_holders(&mut none);
    assert!(none.is_empty());
}

#[test]
fn used_index_is_found() {
    assert!(is_used(&vec![3, 1, 4], 4));
    assert!(!is_used(&vec![3, 1, 4], 0));
    assert!(!is_used(&Vec::new(), 0));
}

#[test]
fn free_candidate_is_taken() {
    assert_eq!(resolve_index(&vec![], 3, 5), 3);
    assert_eq!(resolve_index(&vec![0, 1], 3, 5), 3);
}

#[test]
fn taken_candidate_falls_back_to_the_lowest_free_index() {
    assert_eq!(resolve_index(&vec![3], 3, 5), 0);
    assert_eq!(resolve_index(&vec![0, 3], 3, 5), 1);
    assert_eq!(resolve_index(&vec![0, 1, 2], 1, 5), 3);
    assert_eq!(resolve_index(&vec![2, 0, 1, 3], 3, 5), 4);
}

#[test]
fn taken_candidate_with_nothing_free_gives_the_pool_size() {
    assert_eq!(resolve_index(&vec![1, 0], 0, 2), 2);
}

#[test]
fn indices_are_chosen_in_order() {
    assert_eq!(select_indices(&vec![2, 4, 3, 4], 5), vec![2, 4, 3, 0]);
    assert_eq!(select_indices(&vec![1, 1, 1, 1], 5), vec![1, 0, 2, 3]);
    assert_eq!(select_indices(&vec![0, 0, 0], 3), vec![0, 1, 2]);
    assert_eq!(select_indices(&vec![3, 0, 1, 2], 4), vec![3, 0, 1, 2]);
    assert_eq!(select_indices(&vec![0], 1), vec![0]);
    assert_eq!(select_indices(&vec![], 5), Vec::<usize>::new());
}

#[test]
fn leader_is_the_first_of_the_richest() {
    assert_eq!(leading_holder(&vec![(key(1), 10)]), 0);
    assert_eq!(leading_holder(&vec![(key(1), 10), (key(2), 30), (key(3), 20)]), 1);
    assert_eq!(leading_holder(&vec![(key(1), 30), (key(2), 30), (key(3), 30)]), 0);
    assert_eq!(leading_holder(&vec![(key(1), 1), (key(2), 2), (key(3), 3), (key(4), 3)]), 2);
}

#[test]
fn winner_is_the_richest_of_the_sample() {
    let holders = vec![(key(1), 10), (key(2), 20), (key(3), 30), (key(4), 40), (key(5), 50)];
    assert_eq!(pick_winner(&holders, &vec![2, 4, 3, 4]), Some(key(5)));
    assert_eq!(pick_winner(&holders, &vec![1, 1, 1, 1]), Some(key(4)));
    assert_eq!(pick_winner(&holders, &vec![0, 0]), Some(key(2)));
    assert_eq!(pick_winner(&holders, &vec![0]), Some(key(1)));
    assert_eq!(pick_winner(&holders, &vec![]), None);
    assert_eq!(pick_winner(&Vec::new(), &vec![]), None);
}

#[test]
fn winner_among_equals_is_the_first_sampled() {
    let holders = vec![(key(1), 7), (key(2), 7), (key(3), 7), (key(4), 7)];
    assert_eq!(pick_winner(&holders, &vec![2, 0, 1, 3]), Some(key(3)));
    assert_eq!(pick_winner(&holders, &vec![3, 3, 3, 3]), Some(key(4)));
}
