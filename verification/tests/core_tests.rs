use paracas::aggregate::aggregate_ticks;
use paracas::aggregate::bar_start_for;
use paracas::aggregate::TickAggregator;
use paracas::client::calculate_backoff_delay;
use paracas::client::classify_status;
use paracas::client::ClientConfig;
use paracas::client::StatusAction;
use paracas::parse::pack_ticks;
use paracas::parse::parse_ticks;
use paracas::parse::tick_count;
use paracas::parse::ParseError;
use paracas::tick::RawTick;
use paracas::tick::Tick;
use paracas::time::Date;
use paracas::time::DateHour;
use paracas::time::DateRange;
use paracas::time::Timestamp;
use paracas::timeframe::Timeframe;
use paracas::url::tick_url;

fn date(y: u32, m: u32, d: u32) -> Date {
    Date::new(y, m, d).unwrap()
}

fn hour_ms(y: u32, m: u32, d: u32, h: u32) -> u64 {
    DateHour { date: date(y, m, d), hour: h }.start_ms()
}

#[test]
fn test_timeframe_seconds() {
    assert_eq!(Timeframe::Tick.seconds(), None);
    assert_eq!(Timeframe::Minute1.seconds(), Some(60));
    assert_eq!(Timeframe::Hour1.seconds(), Some(3600));
    assert_eq!(Timeframe::Day1.seconds(), Some(86400));
}

#[test]
fn test_timeframe_parse() {
    assert_eq!("m1".parse::<Timeframe>().unwrap(), Timeframe::Minute1);
    assert_eq!("1h".parse::<Timeframe>().unwrap(), Timeframe::Hour1);
    assert_eq!("H4".parse::<Timeframe>().unwrap(), Timeframe::Hour4);
    assert!("invalid".parse::<Timeframe>().is_err());
}

#[test]
fn test_timeframe_all_and_tags() {
    let all = Timeframe::all();
    assert_eq!(all.len(), 9);
    assert_eq!(Timeframe::Minute15.as_str(), "m15");
    assert!(Timeframe::Tick.is_tick());
    assert!(!Timeframe::Day1.is_tick());
    assert_eq!(Timeframe::Hour4.milliseconds(), Some(14_400_000));
}

#[test]
fn test_tick_count() {
    assert_eq!(tick_count(0), 0);
    assert_eq!(tick_count(20), 1);
    assert_eq!(tick_count(200), 10);
}

fn create_test_tick_bytes(ms: u32, ask: u32, bid: u32, ask_vol: f32, bid_vol: f32) -> Vec<u8> {
    let mut bytes = Vec::new();
    bytes.extend_from_slice(&ms.to_be_bytes());
    bytes.extend_from_slice(&ask.to_be_bytes());
    bytes.extend_from_slice(&bid.to_be_bytes());
    bytes.extend_from_slice(&ask_vol.to_bits().to_be_bytes());
    bytes.extend_from_slice(&bid_vol.to_bits().to_be_bytes());
    bytes
}

#[test]
fn test_parse_single_tick() {
    let bytes = create_test_tick_bytes(1000, 112345, 112340, 100.0, 200.0);
    let ticks = parse_ticks(&bytes).unwrap();
    assert_eq!(ticks.len(), 1);
    let tick = ticks[0];
    assert_eq!(tick.ms_offset, 1000);
    assert_eq!(tick.ask_raw, 112345);
    assert_eq!(tick.bid_raw, 112340);
    assert!((f32::from_bits(tick.ask_volume_bits) - 100.0).abs() < 0.001);
    assert!((f32::from_bits(tick.bid_volume_bits) - 200.0).abs() < 0.001);
}

#[test]
fn test_parse_multiple_ticks() {
    let mut data = create_test_tick_bytes(0, 100, 99, 10.0, 20.0);
    data.extend(create_test_tick_bytes(1000, 101, 100, 15.0, 25.0));
    let ticks = parse_ticks(&data).unwrap();
    assert_eq!(ticks.len(), 2);
    assert_eq!(ticks[0].ms_offset, 0);
    assert_eq!(ticks[1].ms_offset, 1000);
}

#[test]
fn test_invalid_length() {
    let data = vec![0u8; 25];
    let result = parse_ticks(&data);
    assert!(matches!(result, Err(ParseError::InvalidLength(25, 20))));
}

#[test]
fn test_empty_data() {
    let data: Vec<u8> = Vec::new();
    let ticks = parse_ticks(&data).unwrap();
    assert!(ticks.is_empty());
}

#[test]
fn test_pack_round_trip() {
    let mut data = create_test_tick_bytes(7, 110010, 110000, 1.5, 2.5);
    data.extend(create_test_tick_bytes(4_000_000, 1, 0, 0.0, 9.75));
    let ticks = parse_ticks(&data).unwrap();
    let repacked = pack_ticks(&ticks);
    assert_eq!(repacked, data);
}

#[test]
fn test_date_range_new() {
    let start = date(2024, 1, 1);
    let end = date(2024, 1, 31);
    let range = DateRange::new(start, end).unwrap();
    assert_eq!(range.start, start);
    assert_eq!(range.end, end);
}

#[test]
fn test_date_range_invalid() {
    let start = date(2024, 1, 31);
    let end = date(2024, 1, 1);
    assert!(DateRange::new(start, end).is_err());
}

#[test]
fn test_total_hours() {
    let range = DateRange::new(date(2024, 1, 1), date(2024, 1, 1)).unwrap();
    assert_eq!(range.total_hours(), 24);
}

#[test]
fn test_hour_iterator() {
    let range = DateRange::single_day(date(2024, 1, 1));
    let hours = range.hours();
    assert_eq!(hours.len(), 24);
    assert_eq!(hours[0].hour, 0);
    assert_eq!(hours[23].hour, 23);
    for w in hours.windows(2) {
        assert_eq!(w[0].start_ms() + 3_600_000, w[1].start_ms());
    }
    for h in &hours {
        assert_eq!(h.start_ms() % 3_600_000, 0);
    }
}

#[test]
fn test_leap_days() {
    assert_eq!(
        DateRange::new(date(2024, 2, 1), date(2024, 2, 29)).unwrap().total_days(),
        29
    );
    assert!(Date::new(2023, 2, 29).is_none());
    assert!(Date::new(2024, 2, 30).is_none());
}

#[test]
fn test_tick_url_january() {
    let hour = DateHour { date: date(2024, 1, 15), hour: 12 };
    let url = tick_url("eurusd", hour);
    assert_eq!(
        url,
        "https://datafeed.dukascopy.com/datafeed/EURUSD/2024/00/15/12h_ticks.bi5"
    );
}

#[test]
fn test_tick_url_december() {
    let hour = DateHour { date: date(2024, 12, 31), hour: 23 };
    let url = tick_url("btcusd", hour);
    assert_eq!(
        url,
        "https://datafeed.dukascopy.com/datafeed/BTCUSD/2024/11/31/23h_ticks.bi5"
    );
}

#[test]
fn test_tick_url_uppercase() {
    let hour = DateHour { date: date(2024, 6, 1), hour: 0 };
    let url = tick_url("GBPJPY", hour);
    assert!(url.contains("GBPJPY"));
}

#[test]
fn test_client_config_default() {
    let config = ClientConfig::default();
    assert_eq!(config.concurrency, 10);
    assert_eq!(config.max_retries, 10);
    assert_eq!(config.timeout_secs, 60);
    assert_eq!(config.base_delay_ms, 500);
    assert_eq!(config.max_delay_ms, 30_000);
}

#[test]
fn test_backoff_delay_calculation() {
    let cfg = ClientConfig::default();
    let delay1 = calculate_backoff_delay(&cfg, 1);
    assert!((750..=1250).contains(&delay1));
    let delay2 = calculate_backoff_delay(&cfg, 2);
    assert!((1500..=2500).contains(&delay2));
    let delay_high = calculate_backoff_delay(&cfg, 20);
    assert!(delay_high <= 37_500);
}

#[test]
fn test_backoff_monotone_prefix() {
    let cfg = ClientConfig::default();
    let mut prev = 0u64;
    for attempt in 0..6 {
        let d = calculate_backoff_delay(&cfg, attempt);
        assert!(d >= prev);
        assert_eq!(d, calculate_backoff_delay(&cfg, attempt));
        prev = d;
    }
}

#[test]
fn test_status_classification() {
    assert_eq!(classify_status(200), StatusAction::Success);
    assert_eq!(classify_status(404), StatusAction::Missing);
    assert_eq!(classify_status(429), StatusAction::Retry);
    assert_eq!(classify_status(503), StatusAction::Retry);
    assert_eq!(classify_status(403), StatusAction::Fail);
}

#[test]
fn test_raw_tick_normalize() {
    let hour_start = hour_ms(2024, 1, 1, 12);
    let raw = RawTick::new(1000, 110010, 110000, 100.0f32.to_bits(), 200.0f32.to_bits());
    let tick = raw.normalize(hour_start);
    assert_eq!(tick.timestamp_ms, hour_start + 1000);
    assert_eq!(tick.ask_raw, 110010);
    assert_eq!(tick.bid_raw, 110000);
    assert!((110010 as f64 / 100_000.0 - 1.1001).abs() < 1e-10);
    assert!((f32::from_bits(tick.ask_volume_bits) - 100.0).abs() < 1e-6);
}

#[test]
fn test_tick_mid_price() {
    let tick = Tick::new(0, 110010, 110000, 0, 0);
    assert_eq!(tick.mid_times_two(), 220010);
}

#[test]
fn test_tick_spread() {
    let tick = Tick::new(0, 110010, 110000, 0, 0);
    assert_eq!(tick.spread_raw(), 10);
}

fn make_tick(hour: u32, minute: u32, second: u32, millis: u32, ask_raw: u32, bid_raw: u32) -> Tick {
    let base = hour_ms(2024, 1, 1, hour);
    let ts = base + (minute as u64) * 60_000 + (second as u64) * 1000 + millis as u64;
    Tick::new(ts, ask_raw, bid_raw, 100.0f32.to_bits(), 100.0f32.to_bits())
}

#[test]
fn test_minute_aggregation() {
    let mut agg = TickAggregator::new(Timeframe::Minute1);
    let tick1 = make_tick(12, 0, 0, 0, 110010, 110000);
    assert!(agg.process(tick1).is_none());
    let tick2 = make_tick(12, 0, 30, 0, 110100, 110050);
    assert!(agg.process(tick2).is_none());
    let tick3 = make_tick(12, 1, 0, 0, 109900, 109850);
    let bar = agg.process(tick3).unwrap();
    assert_eq!(bar.tick_count, 2);
    assert_eq!(bar.open2, 220010);
    assert_eq!(bar.close2, 220150);
}

#[test]
fn test_hour_aggregation() {
    let mut agg = TickAggregator::new(Timeframe::Hour1);
    let tick1 = make_tick(12, 0, 0, 0, 110010, 110000);
    assert!(agg.process(tick1).is_none());
    let tick2 = make_tick(12, 30, 0, 0, 110500, 110450);
    assert!(agg.process(tick2).is_none());
    let tick3 = make_tick(13, 0, 0, 0, 109900, 109850);
    let bar = agg.process(tick3).unwrap();
    assert_eq!(bar.tick_count, 2);
    assert_eq!(bar.timestamp_ms, hour_ms(2024, 1, 1, 12));
}

#[test]
fn test_finish() {
    let mut agg = TickAggregator::new(Timeframe::Hour1);
    let tick1 = make_tick(12, 0, 0, 0, 110010, 110000);
    agg.process(tick1);
    let bar = agg.finish().unwrap();
    assert_eq!(bar.tick_count, 1);
}

#[test]
fn test_truncate_functions() {
    let base = hour_ms(2024, 1, 15, 14) + 37 * 60_000 + 45_000;
    let m5 = Timestamp::from_epoch_ms(bar_start_for(Timeframe::Minute5, base)).unwrap();
    assert_eq!(m5.minute, 35);
    let m15 = Timestamp::from_epoch_ms(bar_start_for(Timeframe::Minute15, base)).unwrap();
    assert_eq!(m15.minute, 30);
    let h4 = Timestamp::from_epoch_ms(bar_start_for(Timeframe::Hour4, base)).unwrap();
    assert_eq!(h4.hour, 12);
    let d1 = Timestamp::from_epoch_ms(bar_start_for(Timeframe::Day1, base)).unwrap();
    assert_eq!(d1.hour, 0);
}

#[test]
fn test_aggregate_ticks_partition() {
    let ticks = vec![
        make_tick(12, 0, 0, 0, 110010, 110000),
        make_tick(12, 0, 30, 0, 110100, 110050),
        make_tick(12, 1, 0, 0, 109900, 109850),
        make_tick(12, 5, 0, 0, 110000, 109990),
    ];
    let bars = aggregate_ticks(&ticks, Timeframe::Minute1);
    assert_eq!(bars.len(), 3);
    let total: u64 = bars.iter().map(|b| b.tick_count).sum();
    assert_eq!(total, ticks.len() as u64);
    for b in &bars {
        assert!(b.low2 <= b.open2 && b.open2 <= b.high2);
        assert!(b.low2 <= b.close2 && b.close2 <= b.high2);
        assert_eq!(b.timestamp_ms % 60_000, 0);
    }
    for w in bars.windows(2) {
        assert!(w[0].timestamp_ms < w[1].timestamp_ms);
    }
}

#[test]
fn test_timestamp_round_trip() {
    let ms = hour_ms(2031, 7, 9, 5) + 123_456;
    let t = Timestamp::from_epoch_ms(ms).unwrap();
    assert_eq!(t.to_epoch_ms(), ms);
    assert_eq!(t.date.year, 2031);
    assert_eq!(t.date.month, 7);
    assert_eq!(t.date.day, 9);
    assert_eq!(t.hour, 5);
    assert_eq!(t.minute, 2);
    assert_eq!(t.second, 3);
    assert_eq!(t.millis, 456);
}

#[test]
fn test_range() {
    let bar = paracas::aggregate::Ohlcv::new(0, 220000, 221000, 219600, 220400, 500);
    assert_eq!(bar.range2(), 1400);
}

#[test]
fn test_body() {
    let bar = paracas::aggregate::Ohlcv::new(0, 220000, 221000, 219600, 220400, 500);
    assert_eq!(bar.body2(), 400);
}

#[test]
fn test_bullish() {
    let bar = paracas::aggregate::Ohlcv::new(0, 220000, 221000, 219600, 220400, 500);
    assert!(bar.is_bullish());
    assert!(!bar.is_bearish());
}

#[test]
fn test_bearish() {
    let bar = paracas::aggregate::Ohlcv::new(0, 220400, 221000, 219600, 220000, 500);
    assert!(!bar.is_bullish());
    assert!(bar.is_bearish());
}

#[test]
fn test_hour_from_url() {
    let url = "https://datafeed.dukascopy.com/datafeed/EURUSD/2024/00/15/12h_ticks.bi5";
    let hour = paracas::url::hour_from_url(url).unwrap();
    assert_eq!(hour.date.year, 2024);
    assert_eq!(hour.date.month, 1);
    assert_eq!(hour.date.day, 15);
    assert_eq!(hour.hour, 12);
}

#[test]
fn test_hour_from_url_round_trip() {
    let hour = DateHour { date: date(2024, 12, 31), hour: 23 };
    let url = tick_url("btcusd", hour);
    assert_eq!(paracas::url::hour_from_url(&url), Some(hour));
    assert_eq!(paracas::url::hour_from_url("not a feed url"), None);
    assert_eq!(
        paracas::url::hour_from_url("https://datafeed.dukascopy.com/datafeed/X/2024/00/15/25h_ticks.bi5"),
        None,
        "an out-of-day hour names nothing"
    );
}

#[test]
fn test_date_text_round_trip() {
    let d = date(2024, 2, 29);
    let text = paracas::time::format_date_text(&d);
    assert_eq!(text, "2024-02-29");
    assert_eq!(paracas::time::parse_date_text(&text), Some(d));
    assert_eq!(paracas::time::parse_date_text("2023-02-29"), None);
    assert_eq!(paracas::time::parse_date_text("2024-1-01"), None);
    assert_eq!(paracas::time::parse_date_text("llama"), None);
}

#[test]
fn test_backoff_monotone_past_ten_doublings() {
    let cfg = ClientConfig {
        base_delay_ms: 1,
        max_delay_ms: 4_000_000_000,
        ..ClientConfig::default()
    };
    let mut prev = 0u64;
    for attempt in 0..32 {
        let d = calculate_backoff_delay(&cfg, attempt);
        assert!(d >= prev, "delay must not shrink below the cap");
        prev = d;
    }
    assert!(calculate_backoff_delay(&cfg, 16) <= calculate_backoff_delay(&cfg, 31));
}
