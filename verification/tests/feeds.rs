use axiom_sandbox::credentials::{check_credentials, credential_variables, rewrite_env};
use axiom_sandbox::data::backfill::{candles_of_page, retry_delay_secs, Backfill, BACKFILL_TARGET};
use axiom_sandbox::data::mock_tradfi_feed::{
    candle_of_row, parse_timestamp, replay_rows, ColumnMap, MockCsvFeed,
};
use axiom_sandbox::decimal::Decimal;
use axiom_sandbox::time::Timestamp;
use axiom_sandbox::types::market::{kline_summary_to_candle, Candle, KlineSummary};

fn dec(text: &str) -> Decimal {
    Decimal::parse(text).unwrap()
}

fn texts(v: &[&str]) -> Vec<String> {
    v.iter().map(|s| s.to_string()).collect()
}

fn candle(minute: i64) -> Candle {
    let one = Decimal::one();
    Candle::new(
        Timestamp::from_timestamp(1_600_000_000 + minute * 60, 0).unwrap(),
        one,
        one,
        one,
        one,
        one,
    )
}

fn page(from: i64, to: i64) -> Vec<Candle> {
    (from..to).map(candle).collect()
}

#[test]
fn timestamps_come_in_several_forms() {
    let noon = Timestamp::from_timestamp(1_614_880_800, 0); // 2021-03-04 18:00:00 UTC
    assert_eq!(parse_timestamp("2021-03-04 18:00:00"), noon);
    assert_eq!(parse_timestamp(" 2021-03-04 19:00:00+01:00 "), noon);
    assert_eq!(parse_timestamp("2021-03-04T18:00:00"), noon);
    assert_eq!(parse_timestamp("2021-03-04T18:00:00Z"), noon);
    assert_eq!(parse_timestamp("1614880800"), noon);
    assert_eq!(parse_timestamp("2021-03-04"), Timestamp::from_timestamp(1_614_816_000, 0));
    assert_eq!(parse_timestamp("yesterday"), None);
    assert_eq!(parse_timestamp("99999999999999999"), None);
}

#[test]
fn columns_are_found_by_name() {
    let c = ColumnMap::from_header(&texts(&[" Volume ", "L", "H", "o", "Close", "DateTime"])).unwrap();
    assert_eq!((c.timestamp, c.open, c.high, c.low, c.close, c.volume), (5, 3, 2, 1, 4, 0));
    assert_eq!(
        ColumnMap::from_header(&texts(&["time", "open", "high", "low", "v"])).unwrap_err(),
        "Could not find a column matching [\"close\", \"c\"] in header: [\"time\", \"open\", \"high\", \"low\", \"v\"]"
    );
    let row = texts(&["45123", "59.10", "62.50", " 60.00", "61.80", "2020-01-01 00:00:00"]);
    let made = candle_of_row(&c, &row).unwrap();
    assert_eq!(made.open, dec("60"));
    assert_eq!(made.volume, dec("45123"));
    assert!(candle_of_row(&c, &texts(&["1", "2"])).is_none());
    assert!(candle_of_row(&c, &texts(&["x", "1", "1", "1", "1", "2020-01-01"])).is_none());
}

#[test]
fn a_file_is_replayed_in_order() {
    let content = "datetime,open,high,low,close,volume\n2020-01-01 00:00:00,60.00,62.50,59.10,61.80,45123\nbroken,1,1,1,1,1\n2020-01-01 01:00:00,1\n2020-01-01 02:00:00,61.8,63,61,62,\"100\"\n";
    let feed = MockCsvFeed::new("data/file.csv", "CL=F");
    assert_eq!((feed.csv_path(), feed.symbol()), ("data/file.csv", "CL=F"));
    let replay = feed.replay(content.as_bytes()).unwrap();
    assert_eq!(replay.candles.len(), 2);
    assert_eq!(replay.skipped, 2);
    assert_eq!(replay.candles[0].close, dec("61.8"));
    assert_eq!(replay.candles[1].volume, dec("100"));
    assert!(feed.replay(b"a,b\n1,2\n").is_err());
    assert!(feed.replay(b"\xff\xfe,b\n").unwrap_err().starts_with("Failed to read CSV headers: "));
    let rows = vec![None, Some(texts(&["2020-01-01", "1", "2", "0.5", "1.5", "9"]))];
    let header = texts(&["date", "o", "h", "l", "c", "vol"]);
    assert_eq!(replay_rows(&header, &rows).unwrap().candles.len(), 1);
}

#[test]
fn pages_are_put_in_the_order_of_time() {
    let mut b = Backfill::new();
    assert_eq!(b.end_time(), None);
    b.add_page(page(1500, 3000));
    assert!(b.wants_more());
    assert_eq!(b.end_time(), Some((1_600_000_000 + 1500 * 60) * 1000 - 1));
    b.add_page(page(500, 1500)); // a short page is the last one
    assert!(!b.wants_more());
    let all = b.finish();
    assert_eq!(all.len(), 2500);
    assert_eq!(all, page(500, 3000));
}

#[test]
fn only_the_newest_candles_are_kept() {
    let mut b = Backfill::new();
    let mut to = 20_000;
    while b.wants_more() {
        b.add_page(page(to - 1500, to));
        to -= 1500;
    }
    assert_eq!(b.len(), 10_500);
    let all = b.finish();
    assert_eq!(all.len(), BACKFILL_TARGET);
    assert_eq!(all, page(10_000, 20_000));
    assert_eq!(retry_delay_secs(0), Some(2));
    assert_eq!(retry_delay_secs(1), Some(4));
    assert_eq!(retry_delay_secs(2), None);
}

#[test]
fn summaries_become_candles() {
    let good = KlineSummary {
        open_time: 1_600_000_000_000,
        open: "1.5".to_string(),
        high: "2".to_string(),
        low: "1".to_string(),
        close: "1.75".to_string(),
        volume: "10".to_string(),
    };
    let c = kline_summary_to_candle(&good).unwrap();
    assert_eq!(c.timestamp.timestamp(), 1_600_000_000);
    assert_eq!(c.body_size(), dec("0.25"));
    assert_eq!(c.range(), dec("1"));
    let mut bad = good.clone();
    bad.low = "low".to_string();
    assert!(kline_summary_to_candle(&bad).is_none());
    assert_eq!(candles_of_page(&vec![bad, good]).len(), 1);
}

#[test]
fn credentials_are_checked() {
    let c = check_credentials(" key ", "secret\n", "live").unwrap();
    assert_eq!((c.key_var.as_str(), c.secret_var.as_str()), ("BINANCE_API_KEY", "BINANCE_API_SECRET"));
    assert_eq!((c.api_key.as_str(), c.api_secret.as_str()), ("key", "secret"));
    let t = check_credentials("k", "s", "anything").unwrap();
    assert_eq!(t.key_var, "BINANCE_TESTNET_API_KEY");
    assert_eq!(t.secret_var, "BINANCE_TESTNET_API_SECRET");
    assert_eq!(check_credentials("  ", "s", "live").unwrap_err(), "API key must not be empty.");
    assert_eq!(check_credentials("k", "\t", "live").unwrap_err(), "API secret must not be empty.");
    assert_eq!(credential_variables(true), ("BINANCE_API_KEY", "BINANCE_API_SECRET"));
}

#[test]
fn credentials_are_saved_in_their_place() {
    let c = check_credentials("K", "S", "live").unwrap();
    let before = "# note\nBINANCE_API_KEY=old\nOTHER=1\n";
    let after = rewrite_env(before, &c);
    assert_eq!(after, "# note\nBINANCE_API_KEY=K\nOTHER=1\nBINANCE_API_SECRET=S\n");
    assert_eq!(rewrite_env(&after, &c), after);
    assert_eq!(rewrite_env("", &c), "BINANCE_API_KEY=K\nBINANCE_API_SECRET=S\n");
    let t = check_credentials("T", "U", "testnet").unwrap();
    assert_eq!(
        rewrite_env(&after, &t),
        format!("{}BINANCE_TESTNET_API_KEY=T\nBINANCE_TESTNET_API_SECRET=U\n", after)
    );
}
