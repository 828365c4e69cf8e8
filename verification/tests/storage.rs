use payment_gateway::database::controller::{purge, round_to_hundredths, save, summarize, summary};
use payment_gateway::database::entity::{
    Origin, PaymentRequest, State, Stream, SummaryOrigin, SummaryQuery, SummaryResponse,
};

const T1: i64 = 1_752_582_896_000;
const T2: i64 = 1_752_582_897_000;
const T3: i64 = 1_752_582_898_000;

fn record(amount: i64, requested_at: i64) -> PaymentRequest {
    PaymentRequest { amount, requested_at }
}

fn everything() -> SummaryQuery {
    SummaryQuery { from: None, to: None }
}

fn zero() -> SummaryOrigin {
    SummaryOrigin { total_requests: 0, total_amount: 0 }
}

fn three_records() -> State {
    let mut state = State::new();
    save(&mut state, Origin::Default, record(10_000, T1));
    save(&mut state, Origin::Default, record(20_005, T2));
    save(&mut state, Origin::Default, record(5_000, T3));
    state
}

#[test]
fn summary_counts_all_records_without_a_range() {
    let mut state = three_records();
    let response = summary(&mut state, &everything());
    assert_eq!(response.default.total_requests, 3);
    // 35.005 lies halfway between 35.00 and 35.01; the even neighbour is 35.00.
    assert_eq!(response.default.total_amount, 3_500);
    assert_eq!(response.fallback, zero());
}

#[test]
fn summary_filters_by_an_inclusive_range() {
    let mut state = three_records();
    let query = SummaryQuery { from: Some(T1), to: Some(T2) };
    let response = summary(&mut state, &query);
    assert_eq!(response.default.total_requests, 2);
    // 30.005 lies halfway between 30.00 and 30.01; the even neighbour is 30.00.
    assert_eq!(response.default.total_amount, 3_000);
}

#[test]
fn summary_rounds_the_sum_once() {
    let mut state = State::new();
    // Rounded one by one, 0.004 three times would give 0.00; the sum 0.012 gives 0.01.
    save(&mut state, Origin::Fallback, record(4, T1));
    save(&mut state, Origin::Fallback, record(4, T2));
    save(&mut state, Origin::Fallback, record(4, T3));
    let response = summary(&mut state, &everything());
    assert_eq!(response.fallback, SummaryOrigin { total_requests: 3, total_amount: 1 });
    assert_eq!(response.default, zero());
}

#[test]
fn summary_rounds_above_the_tie_upwards() {
    let mut state = State::new();
    save(&mut state, Origin::Default, record(10_000, T1));
    save(&mut state, Origin::Default, record(20_006, T2));
    save(&mut state, Origin::Default, record(5_000, T3));
    let response = summary(&mut state, &everything());
    assert_eq!(response.default, SummaryOrigin { total_requests: 3, total_amount: 3_501 });
}

#[test]
fn rounding_sends_ties_to_the_even_neighbour() {
    assert_eq!(round_to_hundredths(0), 0);
    assert_eq!(round_to_hundredths(4), 0);
    assert_eq!(round_to_hundredths(5), 0);
    assert_eq!(round_to_hundredths(6), 1);
    assert_eq!(round_to_hundredths(15), 2);
    assert_eq!(round_to_hundredths(25), 2);
    assert_eq!(round_to_hundredths(35), 4);
    assert_eq!(round_to_hundredths(35_005), 3_500);
    assert_eq!(round_to_hundredths(35_015), 3_502);
    assert_eq!(round_to_hundredths(35_014), 3_501);
    assert_eq!(round_to_hundredths(35_016), 3_502);
}

#[test]
fn rounding_handles_negative_sums() {
    assert_eq!(round_to_hundredths(-4), 0);
    assert_eq!(round_to_hundredths(-5), 0);
    assert_eq!(round_to_hundredths(-6), -1);
    assert_eq!(round_to_hundredths(-15), -2);
    assert_eq!(round_to_hundredths(-25), -2);
    assert_eq!(round_to_hundredths(-26), -3);
    assert_eq!(round_to_hundredths(-10), -1);
    assert_eq!(round_to_hundredths(i128::MIN), i128::MIN / 10 - 1);
    assert_eq!(round_to_hundredths(i128::MAX), i128::MAX / 10 + 1);
}

#[test]
fn a_range_needs_both_ends() {
    let mut state = three_records();
    let only_from = SummaryQuery { from: Some(T3), to: None };
    assert_eq!(summary(&mut state, &only_from).default.total_requests, 3);
    let only_to = SummaryQuery { from: None, to: Some(T1) };
    assert_eq!(summary(&mut state, &only_to).default.total_requests, 3);
}

#[test]
fn range_ends_are_inclusive() {
    let mut state = three_records();
    let exact = SummaryQuery { from: Some(T2), to: Some(T2) };
    assert_eq!(
        summary(&mut state, &exact).default,
        SummaryOrigin { total_requests: 1, total_amount: 2_000 }
    );
    let before = SummaryQuery { from: Some(T1 - 2), to: Some(T1 - 1) };
    assert_eq!(summary(&mut state, &before).default, zero());
    let reversed = SummaryQuery { from: Some(T3), to: Some(T1) };
    assert_eq!(summary(&mut state, &reversed).default, zero());
}

#[test]
fn summary_leaves_the_streams_as_they_were() {
    let mut state = three_records();
    save(&mut state, Origin::Fallback, record(1_000, T1));
    let first = summary(&mut state, &everything());
    let second = summary(&mut state, &everything());
    assert_eq!(first, second);
    assert_eq!(
        state.default.drain(),
        vec![record(10_000, T1), record(20_005, T2), record(5_000, T3)]
    );
    assert_eq!(state.fallback.drain(), vec![record(1_000, T1)]);
}

#[test]
fn save_goes_to_the_stream_of_its_origin() {
    let mut state = State::new();
    save(&mut state, Origin::Fallback, record(7_000, T1));
    save(&mut state, Origin::Default, record(3_000, T2));
    let response = summary(&mut state, &everything());
    assert_eq!(response.default, SummaryOrigin { total_requests: 1, total_amount: 300 });
    assert_eq!(response.fallback, SummaryOrigin { total_requests: 1, total_amount: 700 });
}

#[test]
fn purge_twice_leaves_both_streams_empty() {
    let mut state = three_records();
    save(&mut state, Origin::Fallback, record(1_000, T1));
    purge(&mut state);
    assert_eq!(state.default.pop(), None);
    assert_eq!(state.fallback.pop(), None);
    purge(&mut state);
    assert_eq!(state.default.pop(), None);
    assert_eq!(state.fallback.pop(), None);
    let response = summary(&mut state, &everything());
    assert_eq!(response, SummaryResponse { default: zero(), fallback: zero() });
}

#[test]
fn a_save_between_drain_and_restore_is_counted_afterwards() {
    let mut state = three_records();
    let drained = state.default.drain();
    let seen = summarize(&drained, &everything());
    save(&mut state, Origin::Default, record(1_000, T3));
    state.default.restore(drained);
    assert_eq!(seen.total_requests, 3);
    let later = summary(&mut state, &everything());
    assert_eq!(later.default.total_requests, 4);
    assert_eq!(later.default.total_amount, round_to_hundredths(36_005));
    assert_eq!(state.default.pop(), Some(record(1_000, T3)));
    assert_eq!(state.default.pop(), Some(record(10_000, T1)));
}

#[test]
fn streams_are_first_in_first_out() {
    let mut stream = Stream::new();
    assert_eq!(stream.pop(), None);
    stream.push(record(1, T1));
    stream.push(record(2, T2));
    assert_eq!(stream.pop(), Some(record(1, T1)));
    stream.push(record(3, T3));
    assert_eq!(stream.drain(), vec![record(2, T2), record(3, T3)]);
    assert_eq!(stream.pop(), None);
    stream.restore(vec![record(4, T1), record(5, T2)]);
    assert_eq!(stream.pop(), Some(record(4, T1)));
    assert_eq!(stream.pop(), Some(record(5, T2)));
    assert_eq!(stream.pop(), None);
}

#[test]
fn zero_amounts_and_boundary_times_are_kept() {
    let mut state = State::default();
    save(&mut state, Origin::Default, record(0, i64::MIN));
    save(&mut state, Origin::Default, record(i64::MAX, i64::MAX));
    save(&mut state, Origin::Default, record(i64::MIN, 0));
    let whole = SummaryQuery { from: Some(i64::MIN), to: Some(i64::MAX) };
    let response = summary(&mut state, &whole);
    assert_eq!(response.default.total_requests, 3);
    // The sum is -1 thousandth, which rounds to zero.
    assert_eq!(response.default.total_amount, 0);
    assert_eq!(
        state.default.drain(),
        vec![record(0, i64::MIN), record(i64::MAX, i64::MAX), record(i64::MIN, 0)]
    );
}
