use request_reporter::config::{default_batch_size, default_interval, default_listen, Config};

#[test]
fn defaults_are_the_documented_ones() {
    assert_eq!(default_listen(), "127.0.0.1:4000");
    assert_eq!(default_interval(), 5);
    assert_eq!(default_batch_size(), 0);
}

#[test]
fn zero_interval_means_five_seconds() {
    let config = Config { listen: "0.0.0.0:80".to_string(), interval: 0, batch_size: 3 };
    assert_eq!(config.effective_interval(), 5);
    let normalized = config.normalized();
    assert_eq!(normalized.interval, 5);
    assert_eq!(normalized.listen, "0.0.0.0:80");
    assert_eq!(normalized.batch_size, 3);
}

#[test]
fn positive_interval_is_kept() {
    let config = Config { listen: "0.0.0.0:80".to_string(), interval: 3600, batch_size: 0 };
    assert_eq!(config.effective_interval(), 3600);
    assert_eq!(config.normalized().interval, 3600);
}

#[test]
fn batch_threshold_is_off_at_zero() {
    let config = Config { listen: String::new(), interval: 1, batch_size: 0 };
    assert_eq!(config.batch_threshold(), None);
}

#[test]
fn batch_threshold_is_the_batch_size() {
    let config = Config { listen: String::new(), interval: 1, batch_size: 2 };
    assert_eq!(config.batch_threshold(), Some(2));
    let one = Config { listen: String::new(), interval: 1, batch_size: 1 };
    assert_eq!(one.batch_threshold(), Some(1));
}

#[test]
fn batch_threshold_beyond_the_index_width_is_off() {
    let config = Config { listen: String::new(), interval: 1, batch_size: u64::MAX };
    let expected = usize::try_from(u64::MAX).ok();
    assert_eq!(config.batch_threshold(), expected);
}
