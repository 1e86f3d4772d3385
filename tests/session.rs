use tradekit::engine::{decide, Fill, Position, Session, Signal};

/// Buys when flat and the window declines, sells when long and it rises.
fn trend_strategy(window: &[f64], flag: i32) -> i64 {
    let first = window[0];
    let last = window[window.len() - 1];
    if flag == 0 && last < first {
        1
    } else if flag == 1 && last > first {
        -1
    } else {
        0
    }
}

struct Outcome {
    session: Session,
    balance: f64,
    shares: f64,
    values: Vec<f64>,
}

fn simulate(prices: &[f64], history: usize, strategy: &dyn Fn(&[f64], i32) -> i64) -> Option<Outcome> {
    let mut session = Session::start(prices.len(), history)?;
    let mut balance = 10000.0;
    let mut shares = 0.0;
    let mut entry = 0.0;
    let mut values = Vec::new();
    while let Some(bar) = session.next_bar() {
        let price = prices[bar.index];
        let code = strategy(&prices[bar.window_start..bar.index], bar.flag);
        let gain = shares * price - shares * entry > 0.0;
        match session.record(code, gain) {
            Fill::Open => {
                entry = price;
                shares = if price > 0.0 { balance / price } else { 0.0 };
            }
            Fill::CloseWin | Fill::CloseLoss => {
                balance = shares * price;
                shares = 0.0;
            }
            Fill::Stay => {}
        }
        values.push(if session.position() == Position::Long { shares * price } else { balance });
    }
    Some(Outcome { session, balance, shares, values })
}

#[test]
fn trend_scenario_buys_once_at_the_last_bar() {
    let prices = [10.0, 10.0, 12.0, 8.0, 16.0];
    let out = simulate(&prices, 2, &trend_strategy).unwrap();
    let s = &out.session;
    assert!(s.is_finished());
    assert_eq!(s.periods(), 3);
    assert_eq!(s.signal_codes(), vec![0, 0, 1]);
    assert_eq!(s.buy_indices(), vec![2]);
    assert!(s.sell_win_indices().is_empty());
    assert!(s.sell_loss_indices().is_empty());
    assert_eq!(s.trades(), 0);
    assert_eq!(s.wins(), 0);
    assert_eq!(s.position(), Position::Long);
    assert_eq!(out.shares, 625.0);
    assert_eq!(*out.values.last().unwrap(), 10000.0);
    assert_eq!(out.balance, 10000.0);
}

#[test]
fn periods_equal_length_minus_window() {
    let prices = [5.0, 6.0, 7.0, 8.0, 9.0, 10.0, 11.0];
    for history in 0..prices.len() {
        let out = simulate(&prices, history, &|_w: &[f64], _f: i32| 0);
        if history + 1 >= prices.len() {
            assert!(out.is_none());
        } else {
            assert_eq!(out.unwrap().session.periods(), prices.len() - history);
        }
    }
}

#[test]
fn series_of_window_plus_one_is_excluded() {
    assert!(Session::start(3, 2).is_none());
    assert!(Session::start(4, 2).is_some());
    assert!(Session::start(0, 0).is_none());
    assert!(Session::start(1, 0).is_none());
    assert!(Session::start(2, 0).is_some());
    assert!(Session::start(5, usize::MAX).is_none());
}

#[test]
fn header_and_one_row_is_excluded() {
    let lines = vec!["Date,Open,High,Low,Close".to_string(), "2024-01-02,1,2,3,10.5".to_string()];
    let rows = tradekit::rows::data_rows(&lines);
    assert_eq!(rows.len(), 1);
    for history in 1..4 {
        assert!(Session::start(rows.len(), history).is_none());
    }
}

#[test]
fn windows_trail_the_current_bar() {
    let mut s = Session::start(6, 3).unwrap();
    let bar = s.next_bar().unwrap();
    assert_eq!((bar.index, bar.window_start, bar.step, bar.flag), (3, 0, 0, 0));
    s.record(1, false);
    let bar = s.next_bar().unwrap();
    assert_eq!((bar.index, bar.window_start, bar.step, bar.flag), (4, 1, 1, 1));
    s.record(0, false);
    let bar = s.next_bar().unwrap();
    assert_eq!((bar.index, bar.window_start, bar.step, bar.flag), (5, 2, 2, 1));
    s.record(-1, true);
    assert!(s.next_bar().is_none());
    assert!(s.is_finished());
}

#[test]
fn closes_split_into_wins_and_losses() {
    let mut s = Session::start(10, 1).unwrap();
    let feed: [(i64, bool); 9] =
        [(1, false), (1, true), (-1, true), (-1, true), (1, false), (0, true), (-1, false), (7, true), (-3, false)];
    let mut fills = Vec::new();
    for (code, gain) in feed {
        fills.push(s.record(code, gain));
    }
    assert_eq!(
        fills,
        vec![
            Fill::Open,
            Fill::Stay,
            Fill::CloseWin,
            Fill::Stay,
            Fill::Open,
            Fill::Stay,
            Fill::CloseLoss,
            Fill::Stay,
            Fill::Stay
        ]
    );
    assert_eq!(s.buy_indices(), vec![0, 4]);
    assert_eq!(s.sell_win_indices(), vec![2]);
    assert_eq!(s.sell_loss_indices(), vec![6]);
    assert_eq!(s.trades(), 2);
    assert_eq!(s.wins(), 1);
    assert_eq!(s.signal_codes(), vec![1, 1, -1, -1, 1, 0, -1, 0, 0]);
    assert_eq!(s.position(), Position::Flat);
    assert!(s.is_finished());
}

#[test]
fn unknown_answers_hold() {
    assert_eq!(Signal::from_code(-1), Signal::Sell);
    assert_eq!(Signal::from_code(1), Signal::Buy);
    assert_eq!(Signal::from_code(0), Signal::Hold);
    assert_eq!(Signal::from_code(2), Signal::Hold);
    assert_eq!(Signal::from_code(-2), Signal::Hold);
    assert_eq!(Signal::from_code(i64::MIN), Signal::Hold);
    assert_eq!(Signal::Sell.code(), -1);
    assert_eq!(Signal::Hold.code(), 0);
    assert_eq!(Signal::Buy.code(), 1);
}

#[test]
fn transition_rule() {
    assert_eq!(decide(Position::Long, Signal::Sell, true), Fill::CloseWin);
    assert_eq!(decide(Position::Long, Signal::Sell, false), Fill::CloseLoss);
    assert_eq!(decide(Position::Flat, Signal::Buy, false), Fill::Open);
    assert_eq!(decide(Position::Flat, Signal::Sell, true), Fill::Stay);
    assert_eq!(decide(Position::Long, Signal::Buy, true), Fill::Stay);
    assert_eq!(decide(Position::Flat, Signal::Hold, true), Fill::Stay);
    assert_eq!(Position::Long.flag(), 1);
    assert_eq!(Position::Flat.flag(), 0);
}
