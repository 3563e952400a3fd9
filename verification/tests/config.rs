use kwoo_sensor_collector::config::{
    default_bind, default_count, default_func, default_poll, default_response_timeout,
    default_retries, CollectorConfig, Config, ConfigError, ListenConfig, StorageConfig,
    UploadConfig,
};

fn collector(id: &str, address: u8) -> CollectorConfig {
    CollectorConfig {
        id: id.to_string(),
        address,
        function: default_func(),
        start: 0,
        count: default_count(),
        interval_seconds: default_poll(),
        response_timeout_seconds: default_response_timeout(),
        retries: default_retries(),
    }
}

fn config() -> Config {
    Config {
        site_id: "site".to_string(),
        listen: ListenConfig::default(),
        storage: StorageConfig::default(),
        upload: UploadConfig {
            url: "https://example.org".to_string(),
            key_id: "key".to_string(),
            secret: "secret".to_string(),
            ..UploadConfig::default()
        },
        collectors: vec![collector("a", 1), collector("b", 2)],
    }
}

fn refusal(config: Config) -> String {
    Config::load(config, None).unwrap_err().message()
}

#[test]
fn defaults() {
    let listen = ListenConfig::default();
    assert_eq!((listen.bind.as_str(), listen.port), ("0.0.0.0", 12345));
    assert_eq!(default_bind(), "0.0.0.0");
    let storage = StorageConfig::default();
    assert_eq!((storage.database.as_str(), storage.max_bytes), ("collector.db", 1_073_741_824));
    let upload = UploadConfig::default();
    assert_eq!((upload.url, upload.key_id, upload.secret), Default::default());
    assert_eq!(upload.batch_size, 100);
    assert_eq!(upload.timeout_seconds, 15);
    assert_eq!(upload.interval_seconds, 5);
    assert_eq!(upload.max_retries, 8);
    let c = collector("x", 1);
    assert_eq!((c.function, c.count, c.interval_seconds), (3, 32, 300));
    assert_eq!((c.response_timeout_seconds, c.retries), (5, 2));
}

#[test]
fn a_valid_config_is_loaded_as_it_is() {
    let loaded = Config::load(config(), None).unwrap();
    assert_eq!(loaded.site_id, "site");
    assert_eq!(loaded.upload.secret, "secret");
    assert_eq!(loaded.upload.batch_size, 100);
    assert_eq!(loaded.collectors.len(), 2);
    let again = Config::load(loaded, None).unwrap();
    assert_eq!(again.collectors[1].id, "b");
}

#[test]
fn a_secret_from_outside_wins_unless_empty() {
    let outside = Some("other".to_string());
    assert_eq!(Config::load(config(), outside).unwrap().upload.secret, "other");
    let empty = Some(String::new());
    assert_eq!(Config::load(config(), empty).unwrap().upload.secret, "secret");
    let mut c = config();
    c.upload.secret = String::new();
    assert!(Config::load(c.clone(), None).is_err());
    assert!(Config::load(c, Some("other".to_string())).is_ok());
}

#[test]
fn an_empty_batch_is_raised_to_one() {
    let mut c = config();
    c.upload.batch_size = 0;
    assert_eq!(Config::load(c, None).unwrap().upload.batch_size, 1);
}

#[test]
fn missing_parts_are_refused() {
    let mut c = config();
    c.site_id = String::new();
    c.collectors.clear();
    assert!(matches!(Config::load(c.clone(), None), Err(ConfigError::NoSiteId)));
    assert_eq!(refusal(c.clone()), "site_id is required");
    c.site_id = "site".to_string();
    c.upload.url = String::new();
    assert!(matches!(Config::load(c.clone(), None), Err(ConfigError::NoCollectors)));
    assert_eq!(refusal(c.clone()), "at least one collector is required");
    c.collectors.push(collector("", 0));
    assert!(matches!(Config::load(c.clone(), None), Err(ConfigError::NoUpload)));
    assert_eq!(
        refusal(c),
        "upload.url, upload.key_id and upload.secret are required"
    );
    let mut c = config();
    c.upload.key_id = String::new();
    assert!(matches!(Config::load(c, None), Err(ConfigError::NoUpload)));
}

#[test]
fn collector_ids_are_checked() {
    let mut c = config();
    c.collectors[1].id = "a".to_string();
    c.collectors[1].address = 0;
    assert!(matches!(Config::load(c.clone(), None), Err(ConfigError::CollectorIds)));
    assert_eq!(refusal(c), "collector ids must be non-empty and unique");
    let mut c = config();
    c.collectors[0].id = String::new();
    assert!(matches!(Config::load(c, None), Err(ConfigError::CollectorIds)));
}

#[test]
fn collector_addresses_are_checked() {
    let mut c = config();
    c.collectors[1].address = 1;
    c.collectors[1].count = 0;
    assert!(matches!(Config::load(c.clone(), None), Err(ConfigError::CollectorAddresses)));
    assert_eq!(refusal(c), "collector addresses must be non-zero and unique");
    let mut c = config();
    c.collectors[0].address = 0;
    assert!(matches!(Config::load(c, None), Err(ConfigError::CollectorAddresses)));
}

#[test]
fn collector_ranges_are_checked() {
    let mut broken = Vec::new();
    for function in [0, 1, 2, 5, 6, 16] {
        let mut c = config();
        c.collectors[1].function = function;
        broken.push(c);
    }
    for count in [0, 126, u16::MAX] {
        let mut c = config();
        c.collectors[1].count = count;
        broken.push(c);
    }
    let mut c = config();
    c.collectors[1].interval_seconds = 0;
    broken.push(c);
    for c in broken {
        assert_eq!(refusal(c), "invalid collector b");
    }
    let mut c = config();
    c.collectors[1].function = 4;
    c.collectors[1].count = 125;
    c.collectors[1].interval_seconds = 1;
    assert!(Config::load(c, None).is_ok());
}

#[test]
fn the_first_faulty_collector_counts() {
    let mut c = config();
    c.collectors[0].count = 0;
    c.collectors[1].id = String::new();
    assert_eq!(refusal(c), "invalid collector a");
}

#[test]
fn no_more_collectors_than_addresses() {
    let mut c = config();
    c.collectors = (1..=255u8).map(|a| collector(&a.to_string(), a)).collect();
    assert!(Config::load(c.clone(), None).is_ok());
    c.collectors.push(collector("one more", 7));
    assert!(Config::load(c, None).is_err());
}
