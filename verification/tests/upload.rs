use kwoo_sensor_collector::config::UploadConfig;
use kwoo_sensor_collector::signing::{canonical_text, sign, upload_headers, upload_timestamp};
use kwoo_sensor_collector::uploader::{Action, Reply, Step, Uploader};

#[test]
fn the_signed_text_has_four_lines() {
    assert_eq!(
        canonical_text(1700000000, &[0x24, 0xde, 0x0f]),
        "POST\n/v1/telemetry/raw\n1700000000\n24de0f"
    );
    assert_eq!(canonical_text(-5, &[]), "POST\n/v1/telemetry/raw\n-5\n");
}

#[test]
fn different_times_and_digests_sign_different_texts() {
    let mut texts = Vec::new();
    for timestamp in [1, 11, 111, -1] {
        for digest in [&[][..], &[0x11], &[0x11, 0x11], &[0x1f]] {
            texts.push(canonical_text(timestamp, digest));
        }
    }
    let count = texts.len();
    texts.sort();
    texts.dedup();
    assert_eq!(texts.len(), count);
}

#[test]
fn signatures_of_known_uploads() {
    assert_eq!(
        sign(&"top secret".to_string(), 1700000000, b"{\"events\":[]}"),
        "1b1f1ada06fb8d2afebf82cfaba751dbb98dedbfacbb0d3dbbbdbc23cb61e4a0"
    );
    assert_eq!(
        sign(&String::new(), 0, b""),
        "9477f758fb3687a7aa8885edc72b8a51bfbbb4929511d62147d483e626b1cad3"
    );
    assert_eq!(
        sign(&"schlüssel".to_string(), -5, b"x"),
        "911e32554fecd63492df8d73370641645d89772bc237f9fc61bc24f82a2481db"
    );
    assert_eq!(
        sign(&"k".repeat(100), 1, b"abc"),
        "71d0b5e29d28915a99ea957b10639e88726cbc9ef5100c997596524bcb5d005a"
    );
}

#[test]
fn headers_of_an_upload() {
    let cfg = UploadConfig {
        key_id: "key 1".to_string(),
        secret: "top secret".to_string(),
        ..UploadConfig::default()
    };
    let headers: Vec<(String, String)> = upload_headers(&cfg, 1700000000, b"{\"events\":[]}")
        .into_iter()
        .map(|h| (h.name, h.value))
        .collect();
    let expected = [
        ("X-Key-Id", "key 1"),
        ("X-Timestamp", "1700000000"),
        (
            "X-Signature",
            "1b1f1ada06fb8d2afebf82cfaba751dbb98dedbfacbb0d3dbbbdbc23cb61e4a0",
        ),
        ("Content-Type", "application/json"),
    ];
    assert_eq!(headers.len(), expected.len());
    for (header, (name, value)) in headers.iter().zip(expected) {
        assert_eq!((header.0.as_str(), header.1.as_str()), (name, value));
    }
}

#[test]
fn seconds_are_cut_towards_zero() {
    for ms in [0, 999, 1000, 1_700_000_000_999, -1, -999, -1000, -1999, i64::MAX, i64::MIN] {
        assert_eq!(upload_timestamp(ms), ms / 1000);
    }
}

#[test]
fn what_follows_reading_the_queue() {
    let uploader = Uploader { backoff: 16, failures: 4 };
    assert_eq!(uploader.on_batch(None, 5), Step::Sleep(16));
    assert_eq!(uploader.on_batch(Some(0), 5), Step::Sleep(5));
    assert_eq!(uploader.on_batch(Some(1), 5), Step::Upload);
    assert_eq!(uploader.on_batch(Some(100), 5), Step::Upload);
}

#[test]
fn success_acknowledges_and_starts_afresh() {
    for status in [200, 204, 299] {
        let mut uploader = Uploader { backoff: 64, failures: 6 };
        assert_eq!(uploader.on_reply(Reply::Status(status), 8), Action::Acknowledge);
        assert_eq!(uploader, Uploader::new());
    }
}

#[test]
fn client_errors_are_final_but_for_429() {
    for status in [400, 401, 404, 428, 430, 499] {
        let mut uploader = Uploader { backoff: 64, failures: 6 };
        assert_eq!(
            uploader.on_reply(Reply::Status(status), 8),
            Action::Refused { wait: 60 }
        );
        assert_eq!(uploader, Uploader { backoff: 64, failures: 0 });
    }
}

#[test]
fn everything_else_is_retried() {
    for reply in [
        Reply::Status(429),
        Reply::Status(500),
        Reply::Status(503),
        Reply::Status(302),
        Reply::Status(199),
        Reply::Status(600),
        Reply::Unreachable,
    ] {
        let mut uploader = Uploader::new();
        assert_eq!(
            uploader.on_reply(reply, 8),
            Action::Retry { wait: 1, cooldown: None }
        );
        assert_eq!(uploader, Uploader { backoff: 2, failures: 1 });
    }
}

#[test]
fn waits_double_up_to_five_minutes() {
    let mut uploader = Uploader::new();
    let mut waits = Vec::new();
    for _ in 0..11 {
        match uploader.on_reply(Reply::Unreachable, u32::MAX) {
            Action::Retry { wait, cooldown } => {
                assert_eq!(cooldown, None);
                waits.push(wait);
            }
            _ => panic!("not retried"),
        }
    }
    assert_eq!(waits, [1, 2, 4, 8, 16, 32, 64, 128, 256, 300, 300]);
}

#[test]
fn too_many_failures_bring_a_pause() {
    let mut uploader = Uploader::new();
    let mut pauses = Vec::new();
    for k in 1..=9 {
        if let Action::Retry { cooldown: Some(pause), .. } =
            uploader.on_reply(Reply::Status(500), 3)
        {
            assert_eq!(pause, 60);
            pauses.push(k);
        }
    }
    assert_eq!(pauses, [3, 6, 9]);
}

#[test]
fn without_retries_every_failure_brings_a_pause() {
    for max_retries in [0, 1] {
        let mut uploader = Uploader::new();
        for wait in [1, 2, 4] {
            assert_eq!(
                uploader.on_reply(Reply::Unreachable, max_retries),
                Action::Retry { wait, cooldown: Some(60) }
            );
        }
        assert_eq!(uploader.failures, 0);
    }
}

#[test]
fn the_failure_count_does_not_wrap() {
    let mut uploader = Uploader { backoff: 1, failures: u32::MAX };
    assert_eq!(
        uploader.on_reply(Reply::Unreachable, u32::MAX),
        Action::Retry { wait: 1, cooldown: Some(60) }
    );
}
