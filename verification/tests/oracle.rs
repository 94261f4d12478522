use lockdrop::builder::ExtBuilder;
use lockdrop::filter::{filter_consume, filter_new};
use lockdrop::module::LockdropModule;
use lockdrop::types::{Event, LockdropError, TickerRate};

fn oracle_module(width: usize, expire: u64) -> LockdropModule {
    let mut m = ExtBuilder::new()
        .dollar_rate((1000, 2000))
        .filter(width, expire)
        .build();
    m.on_new_session(vec![11, 22, 33]);
    m
}

#[test]
fn filter_window_matches_lower_median() {
    // The sequence from the filter's own documentation, window size 4: each
    // output is the lower middle of the sorted window of the last 4 values.
    let mut f = filter_new(4);
    let inputs = [10u64, 20, 30, 100, 30, 20, 10];
    let expected = [10u64, 10, 20, 20, 30, 30, 20];
    for (i, e) in inputs.iter().zip(expected.iter()) {
        assert_eq!(filter_consume(&mut f, *i), *e);
    }
}

#[test]
fn filter_window_odd_size() {
    let mut f = filter_new(5);
    let inputs = [70u64, 60, 50, 40, 30, 20, 10];
    let expected = [70u64, 60, 60, 50, 50, 40, 30];
    for (i, e) in inputs.iter().zip(expected.iter()) {
        assert_eq!(filter_consume(&mut f, *i), *e);
    }
}

#[test]
fn aggregate_is_median_of_fresh_samples() {
    let mut m = oracle_module(3, 1000);
    assert_eq!(m.set_dollar_rate(TickerRate { authority: 0, btc: 10, eth: 5 }, 100), Ok(()));
    assert_eq!(m.dollar_rate, (10, 5));
    assert_eq!(m.set_dollar_rate(TickerRate { authority: 1, btc: 30, eth: 1 }, 101), Ok(()));
    // Two samples: the lower middle of {10, 30} is 10, of {5, 1} is 1.
    assert_eq!(m.dollar_rate, (10, 1));
    assert_eq!(m.set_dollar_rate(TickerRate { authority: 2, btc: 20, eth: 9 }, 102), Ok(()));
    // Three samples: the medians of {10, 30, 20} and {5, 1, 9}.
    assert_eq!(m.dollar_rate, (20, 5));
    assert_eq!(m.events.last(), Some(&Event::NewDollarRate(20, 5)));
}

#[test]
fn latest_sample_supersedes_same_authority() {
    let mut m = oracle_module(3, 1000);
    m.set_dollar_rate(TickerRate { authority: 0, btc: 10, eth: 10 }, 100).unwrap();
    m.set_dollar_rate(TickerRate { authority: 0, btc: 50, eth: 60 }, 150).unwrap();
    // One slot per authority: only the latest values feed the median.
    assert_eq!(m.rate_table.len(), 1);
    assert_eq!(m.rate_table[0].timestamp, 150);
    assert_eq!(m.dollar_rate, (50, 60));
}

#[test]
fn expired_samples_are_pruned() {
    let mut m = oracle_module(3, 1000);
    m.set_dollar_rate(TickerRate { authority: 0, btc: 10, eth: 10 }, 100).unwrap();
    // The first sample is 1000 seconds old at time 1100: expired, removed,
    // and excluded from the new aggregate.
    m.set_dollar_rate(TickerRate { authority: 1, btc: 30, eth: 40 }, 1100).unwrap();
    assert_eq!(m.rate_table.len(), 1);
    assert_eq!(m.rate_table[0].authority, 22);
    assert_eq!(m.dollar_rate, (30, 40));
}

#[test]
fn sliding_window_evicts_oldest() {
    // Width 2 with three authorities: the first authority's value leaves the
    // window even though its sample is still fresh.
    let mut m = oracle_module(2, 1000);
    m.set_dollar_rate(TickerRate { authority: 0, btc: 100, eth: 100 }, 10).unwrap();
    m.set_dollar_rate(TickerRate { authority: 1, btc: 10, eth: 10 }, 11).unwrap();
    m.set_dollar_rate(TickerRate { authority: 2, btc: 20, eth: 30 }, 12).unwrap();
    assert_eq!(m.rate_table.len(), 3);
    // Window holds the last two values {10, 20} and {10, 30}.
    assert_eq!(m.dollar_rate, (10, 10));
}

#[test]
fn rate_unknown_authority_fails() {
    let mut m = oracle_module(3, 1000);
    assert_eq!(
        m.set_dollar_rate(TickerRate { authority: 7, btc: 1, eth: 1 }, 100),
        Err(LockdropError::UnknownAuthority)
    );
    assert_eq!(m.dollar_rate, (1000, 2000));
    assert!(m.rate_table.is_empty());
}

#[test]
fn instant_expiry_keeps_previous_aggregate() {
    // With an expiry of zero even the fresh sample is pruned at once, and
    // the previous aggregate stands.
    let mut m = oracle_module(3, 0);
    assert_eq!(m.set_dollar_rate(TickerRate { authority: 0, btc: 10, eth: 10 }, 100), Ok(()));
    assert!(m.rate_table.is_empty());
    assert_eq!(m.dollar_rate, (1000, 2000));
}
