use sarfimax::config::{Config, ConfigManager};
use sarfimax::records::{append_records, merge_json_text, merge_records, Records};
use serde_json::Value;

fn sample() -> Config<f64> {
    Config::with_defaults(0.05, 1.0, 0.5)
}

#[test]
fn default_settings() {
    let c = sample();
    assert_eq!(c.symbol, "BTCUSD");
    assert_eq!(c.interval, "1h");
    assert_eq!(c.date, "2025-01-01T00:00:00Z");
    assert_eq!((c.min_window, c.m_iter, c.freq), (20, 100, 1));
    assert_eq!((c.alpha, c.ub, c.herst), (0.05, 1.0, 0.5));
    assert!(!c.hybrid);
    assert_eq!(c.max_iters, 1_000_000);
    assert_eq!(ConfigManager::config_path(), "./config.json");
}

#[test]
fn update_symbol_replaces_only_the_symbol() {
    let c = ConfigManager::update_symbol(sample(), "ETHUSDT");
    assert_eq!(c.symbol, "ETHUSDT");
    assert_eq!(c.interval, "1h");
    assert_eq!(c.herst, 0.5);
}

#[test]
fn update_interval_replaces_only_the_interval() {
    let c = ConfigManager::update_interval(sample(), "4h");
    assert_eq!(c.interval, "4h");
    assert_eq!(c.symbol, "BTCUSD");
}

#[test]
fn update_date_replaces_only_the_date() {
    let c = ConfigManager::update_date(sample(), "2024-06-01T00:00:00Z");
    assert_eq!(c.date, "2024-06-01T00:00:00Z");
    assert_eq!(c.symbol, "BTCUSD");
}

#[test]
fn update_herst_replaces_only_the_exponent() {
    let c = ConfigManager::update_herst(sample(), 0.73);
    assert_eq!(c.herst, 0.73);
    assert_eq!(c.alpha, 0.05);
    assert_eq!(c.date, "2025-01-01T00:00:00Z");
}

#[test]
fn updates_commute_and_last_wins() {
    let a = ConfigManager::update_interval(ConfigManager::update_symbol(sample(), "X"), "5m");
    let b = ConfigManager::update_symbol(ConfigManager::update_interval(sample(), "5m"), "X");
    assert_eq!((a.symbol, a.interval), (b.symbol, b.interval));
    let c = ConfigManager::update_date(ConfigManager::update_date(sample(), "a"), "b");
    assert_eq!(c.date, "b");
}

#[test]
fn append_records_splices_lists_and_adds_single_values() {
    assert_eq!(append_records(vec![1, 2], Records::Many(vec![3, 4])), vec![1, 2, 3, 4]);
    assert_eq!(append_records(vec![1, 2], Records::One(9)), vec![1, 2, 9]);
    assert_eq!(append_records(Vec::<i32>::new(), Records::Many(vec![])), Vec::<i32>::new());
    let steps = append_records(append_records(vec![1], Records::Many(vec![2])), Records::Many(vec![3]));
    let once = append_records(vec![1], Records::Many(vec![2, 3]));
    assert_eq!(steps, once);
}

fn parsed(t: &str) -> Vec<Value> {
    serde_json::from_str(t).unwrap()
}

#[test]
fn merge_into_a_blank_file() {
    let v: Value = serde_json::from_str("[1.5, 2.5]").unwrap();
    let t = merge_json_text("  \n", "p.json", v).unwrap();
    assert_eq!(parsed(&t), parsed("[1.5, 2.5]"));
    assert_eq!(t, serde_json::to_string_pretty(&parsed("[1.5, 2.5]")).unwrap());
}

#[test]
fn merge_appends_to_stored_records() {
    let v: Value = serde_json::from_str("[3]").unwrap();
    let t = merge_json_text("[1, 2]", "p.json", v).unwrap();
    assert_eq!(parsed(&t), parsed("[1, 2, 3]"));
    let one: Value = serde_json::from_str("{\"price\": 4}").unwrap();
    let t = merge_json_text(&t, "p.json", one).unwrap();
    assert_eq!(parsed(&t), parsed("[1, 2, 3, {\"price\": 4}]"));
}

#[test]
fn merge_refuses_a_file_that_is_not_an_array() {
    let e = serde_json::from_str::<Vec<Value>>("{\"a\": 1}").unwrap_err();
    let v: Value = serde_json::from_str("[1]").unwrap();
    assert_eq!(
        merge_json_text("{\"a\": 1}", "./data/x.json", v),
        Err(format!("Error parsing JSON ./data/x.json: {}", e))
    );
}

#[test]
fn merge_records_from_a_read_outcome() {
    assert_eq!(merge_records(Ok(vec![1, 2]), "p", Records::One(3)), Ok(vec![1, 2, 3]));
    assert_eq!(merge_records(Ok(vec![]), "p", Records::Many(vec![4, 5])), Ok(vec![4, 5]));
    assert_eq!(
        merge_records::<i32>(Err("expected value".to_string()), "./data/a.json", Records::One(1)),
        Err("Error parsing JSON ./data/a.json: expected value".to_string())
    );
}
