use sarfimax::paths::{get_os, titled_data_path};
use sarfimax::price::{
    batch_start_times, batches_can_walk, interval_can_split, interval_fits, interval_millis,
    klines_url, paged_klines_url, start_time_from, start_time_millis,
};
use sarfimax::arfima_args::arfima_args;
use sarfimax::rs_series::rs_request;

#[test]
fn data_path_by_operating_system() {
    assert_eq!(get_os("windows", "price_series.json"), Ok(".\\data\\price_series.json".to_string()));
    assert_eq!(get_os("linux", "test.json"), Ok("./data/test.json".to_string()));
    assert_eq!(get_os("macos", "test.json"), Err("Unsupported OS".to_string()));
    assert_eq!(get_os("Linux", "test.json"), Err("Unsupported OS".to_string()));
    assert_eq!(titled_data_path("Linux", "a.json"), Ok("./data/a.json".to_string()));
    assert_eq!(titled_data_path("Windows", "a.json"), Ok(".\\data\\a.json".to_string()));
    assert_eq!(
        titled_data_path("linux", "a.json"),
        Err("Error: incorrect operating system".to_string())
    );
}

#[test]
fn rs_request_reads_its_arguments() {
    let r = rs_request("Linux", "20", "100").unwrap();
    assert_eq!(r.min_window, 20);
    assert_eq!(r.n_iter, 100);
    assert_eq!(r.series_path, "./data/price_series.json");
    assert_eq!(r.output_path, "./data/rs_series.json");
}

#[test]
fn rs_request_refuses_in_order() {
    assert_eq!(
        rs_request("Mac", "x", "").err().unwrap(),
        "Error: parsing min_window: invalid digit found in string"
    );
    assert_eq!(
        rs_request("Mac", "5", "").err().unwrap(),
        "Error: parsing n_iter: cannot parse integer from empty string"
    );
    assert_eq!(rs_request("Mac", "5", "3").err().unwrap(), "Error: incorrect operating system");
}

#[test]
fn start_time_of_an_rfc3339_date() {
    assert_eq!(start_time_millis("2025-01-01T00:00:00Z"), Ok(1735689600000));
    assert_eq!(start_time_millis("2025-01-01T03:00:00.250+03:00"), Ok(1735689600250));
    let e = chrono::DateTime::parse_from_rfc3339("2025-13-01").unwrap_err();
    assert_eq!(
        start_time_millis("2025-13-01"),
        Err(format!("Error: invalid date format: {}", e))
    );
}

#[test]
fn start_time_from_a_parse_outcome() {
    assert_eq!(start_time_from(Ok(5)), Ok(5));
    assert_eq!(
        start_time_from(Err("bad".to_string())),
        Err("Error: invalid date format: bad".to_string())
    );
}

#[test]
fn interval_lengths() {
    assert_eq!(interval_millis("1s"), Ok(1000));
    assert_eq!(interval_millis("15m"), Ok(900_000));
    assert_eq!(interval_millis("1h"), Ok(3_600_000));
    assert_eq!(interval_millis("3d"), Ok(259_200_000));
    assert_eq!(interval_millis("2w"), Ok(1_209_600_000));
    assert_eq!(interval_millis("-1h"), Ok(-3_600_000));
    assert_eq!(interval_millis("1M"), Err("Error: failed to convert interval".to_string()));
    assert_eq!(
        interval_millis("xh"),
        Err("Error: failed to parse interval: invalid digit found in string".to_string())
    );
    assert_eq!(
        interval_millis("h"),
        Err("Error: failed to parse interval: cannot parse integer from empty string".to_string())
    );
    assert_eq!(
        interval_millis("1x"),
        Err("Error: failed to convert interval".to_string())
    );
}

#[test]
fn interval_unit_ratios() {
    let s = interval_millis("7s").unwrap();
    let m = interval_millis("7m").unwrap();
    let h = interval_millis("7h").unwrap();
    let d = interval_millis("7d").unwrap();
    let w = interval_millis("7w").unwrap();
    assert_eq!(m, 60 * s);
    assert_eq!(h, 60 * m);
    assert_eq!(d, 24 * h);
    assert_eq!(w, 7 * d);
}

#[test]
fn interval_preconditions() {
    assert!(interval_can_split("1h"));
    assert!(!interval_can_split(""));
    assert!(!interval_can_split("1é"));
    assert!(interval_fits("1h"));
    assert!(interval_fits("1q"));
    assert!(!interval_fits("9223372036854775807s"));
    assert!(interval_fits("9223372036854775s"));
    assert!(!interval_fits("15250284452472w"));
}

#[test]
fn batches_of_a_download() {
    assert_eq!(batch_start_times(0, 10, 1), vec![0]);
    assert_eq!(batch_start_times(0, 3000, 1), vec![0, 1500]);
    assert_eq!(batch_start_times(0, 3001, 1), vec![0, 1500, 3000]);
    assert_eq!(batch_start_times(5, 5, 1), Vec::<i64>::new());
    assert_eq!(batch_start_times(9, 5, -3), Vec::<i64>::new());
    let hour = 3_600_000;
    let starts = batch_start_times(1735689600000, 1735689600000 + 4000 * hour, hour);
    assert_eq!(starts.len(), 3);
    for (i, s) in starts.iter().enumerate() {
        assert_eq!(*s, 1735689600000 + (i as i64) * 1500 * hour);
        assert!(*s < 1735689600000 + 4000 * hour);
    }
    assert!(starts[starts.len() - 1] + 1500 * hour >= 1735689600000 + 4000 * hour);
}

#[test]
fn batch_walk_preconditions() {
    assert!(batches_can_walk(0, 10, 1));
    assert!(batches_can_walk(10, 0, 0));
    assert!(!batches_can_walk(0, 10, 0));
    assert!(!batches_can_walk(0, 10, -5));
    assert!(!batches_can_walk(0, 10, i64::MAX / 1000));
    assert!(!batches_can_walk(i64::MAX - 10, i64::MAX, 1));
    assert!(batches_can_walk(i64::MAX - 3000, i64::MAX - 1500, 1));
}

#[test]
fn klines_addresses() {
    assert_eq!(
        klines_url("BTCUSDT", "1h", 1735689600000),
        "https://api.binance.com/api/v3/klines?symbol=BTCUSDT&interval=1h&startTime=1735689600000"
    );
    assert_eq!(
        paged_klines_url("ETHUSDT", "15m", -5),
        "https://api.binance.com/api/v3/klines?symbol=ETHUSDT&interval=15m&startTime=-5&limit=1500"
    );
}

#[test]
fn arfima_arguments_in_order() {
    let a = arfima_args("7", Ok(0.05), Ok(0.3), "true", "100", "20", "50").unwrap();
    assert_eq!((a.freq, a.alpha, a.ub, a.hybrid), (7, 0.05, 0.3, true));
    assert_eq!((a.max_iters, a.nlags, a.max_iters_grid), (100, 20, 50));
    let bad_float = "x".parse::<f64>().unwrap_err().to_string();
    assert_eq!(
        arfima_args::<f64>("7", Err(bad_float.clone()), Err("ignored".to_string()), "no", "", "", "")
            .err()
            .unwrap(),
        format!("[Error] Failed to parse alpha: \n {}", bad_float)
    );
    assert_eq!(
        arfima_args::<f64>("x", Err(bad_float.clone()), Ok(0.1), "no", "", "", "").err().unwrap(),
        "[Error] Failed to parse frequency: \n invalid digit found in string"
    );
    assert_eq!(
        arfima_args("1", Ok(0.1), Err("bad ub".to_string()), "no", "", "", "").err().unwrap(),
        "[Error] Failed to parse ub: \n bad ub"
    );
    assert_eq!(
        arfima_args("1", Ok(0.1), Ok(0.2), "yes", "", "", "").err().unwrap(),
        "[Error] Failed to parse hybrid: \n provided string was not `true` or `false`"
    );
    assert_eq!(
        arfima_args("1", Ok(0.1), Ok(0.2), "false", "-1", "", "").err().unwrap(),
        "[Error] Failed to parse max_iters: \n invalid digit found in string"
    );
    assert_eq!(
        arfima_args("1", Ok(0.1), Ok(0.2), "false", "1", "", "").err().unwrap(),
        "[Error] Failed to parse nlags: \n cannot parse integer from empty string"
    );
    assert_eq!(
        arfima_args("1", Ok(0.1), Ok(0.2), "false", "1", "2", "99999999999999999999").err().unwrap(),
        "[Error] Failed to parse max_iters_grid: \n number too large to fit in target type"
    );
}
