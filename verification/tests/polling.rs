use kwoo_sensor_collector::config::CollectorConfig;
use kwoo_sensor_collector::event::{event_ids, Event};
use kwoo_sensor_collector::frames::{read_gateway, Response};
use kwoo_sensor_collector::poller::{
    conclude, make_event, request, Attempts, Next, Outcome, Schedule, Signal, Turn,
};
use kwoo_sensor_collector::queue::{enqueue, QueueError};

const SECOND: u128 = 1_000_000_000;
const ANSWER: [u8; 9] = [1, 3, 4, 0, 1, 0, 2, 0x2a, 0x32];

fn collector() -> CollectorConfig {
    CollectorConfig {
        id: "meter".to_string(),
        address: 1,
        function: 3,
        start: 16,
        count: 2,
        interval_seconds: 30,
        response_timeout_seconds: 5,
        retries: 2,
    }
}

fn answer(bytes: &[u8]) -> Response {
    read_gateway(&mut Vec::new(), bytes).remove(0)
}

fn event(id: &str) -> Event {
    let c = collector();
    make_event(
        id.to_string(),
        &"site".to_string(),
        &c,
        1000,
        2000,
        &request(&c),
        &answer(&ANSWER),
    )
}

#[test]
fn everyone_is_due_at_first_in_order() {
    let mut schedule = Schedule::new(3, 7);
    assert_eq!(schedule.due, [7, 7, 7]);
    assert_eq!(schedule.turn(6), Turn::Sleep(1));
    for i in 0..3 {
        assert_eq!(schedule.turn(7), Turn::Poll(i));
        schedule.begin(i, 7, 30);
    }
    assert_eq!(schedule.turn(8), Turn::Sleep(30 * SECOND - 1));
}

#[test]
fn the_earliest_goes_first_and_ties_go_in_order() {
    let schedule = Schedule { due: vec![9, 4, 6, 4] };
    assert_eq!(schedule.turn(3), Turn::Sleep(1));
    assert_eq!(schedule.turn(4), Turn::Poll(1));
    assert_eq!(schedule.turn(100), Turn::Poll(1));
}

#[test]
fn a_read_puts_the_collector_off_by_its_interval() {
    let mut schedule = Schedule { due: vec![0, 50 * SECOND] };
    schedule.begin(0, 10 * SECOND, 30);
    assert_eq!(schedule.due, [40 * SECOND, 50 * SECOND]);
    assert_eq!(schedule.turn(39 * SECOND), Turn::Sleep(SECOND));
    schedule.begin(1, 0, u64::MAX);
    assert_eq!(schedule.due[1], u64::MAX as u128 * SECOND);
}

#[test]
fn a_quick_collector_does_not_starve_the_others() {
    let intervals = [1, 1, 600];
    let mut schedule = Schedule::new(3, 0);
    let mut now = 0;
    let mut seen = Vec::new();
    for _ in 0..3 {
        if let Turn::Poll(i) = schedule.turn(now) {
            schedule.begin(i, now, intervals[i]);
            seen.push(i);
        }
        now += 5 * SECOND;
    }
    assert_eq!(seen, [0, 1, 2]);
}

#[test]
fn silence_is_met_with_growing_waits() {
    let c = collector();
    let mut attempts = Attempts::new(2);
    assert!(matches!(attempts.on(&c, Signal::Silence), Next::ResendAfter(1)));
    assert!(matches!(attempts.on(&c, Signal::Silence), Next::ResendAfter(2)));
    assert!(matches!(attempts.on(&c, Signal::Silence), Next::GiveUp));
    assert_eq!(attempts, Attempts { attempt: 2, retries: 2 });
    assert!(matches!(Attempts::new(0).on(&c, Signal::Silence), Next::GiveUp));
}

#[test]
fn a_failed_send_ends_the_read() {
    let mut attempts = Attempts::new(5);
    assert!(matches!(attempts.on(&collector(), Signal::SendFailed), Next::GiveUp));
    assert_eq!(attempts, Attempts::new(5));
}

#[test]
fn only_the_answer_asked_for_is_accepted() {
    let mut attempts = Attempts::new(1);
    let mut other = collector();
    other.address = 2;
    assert!(matches!(attempts.on(&other, Signal::Received(answer(&ANSWER))), Next::Listen));
    let mut other = collector();
    other.function = 4;
    assert!(matches!(attempts.on(&other, Signal::Received(answer(&ANSWER))), Next::Listen));
    match attempts.on(&collector(), Signal::Received(answer(&ANSWER))) {
        Next::Accept(r) => assert_eq!(r.raw, ANSWER),
        _ => panic!("not accepted"),
    }
    assert_eq!(attempts, Attempts::new(1));
}

#[test]
fn the_request_is_the_collectors() {
    assert_eq!(request(&collector())[..6], [1, 3, 0, 16, 0, 2]);
}

#[test]
fn an_event_holds_the_read_and_its_answer() {
    let e = event("id");
    assert_eq!(e.event_id, "id");
    assert_eq!(e.site_id, "site");
    assert_eq!(e.collector_id, "meter");
    assert_eq!((e.address, e.function, e.start, e.count), (1, 3, 16, 2));
    assert_eq!((e.requested_at, e.received_at), (1000, 2000));
    assert_eq!(e.request_hex, "01 03 00 10 00 02 C5 CE");
    assert_eq!(e.response_hex, "01 03 04 00 01 00 02 2A 32");
    assert!(e.crc_valid);
}

fn finish(got: Option<Response>) -> Outcome {
    let c = collector();
    conclude(&"site".to_string(), &c, 1000, 2000, &request(&c), got)
}

#[test]
fn a_valid_answer_is_queued_under_a_fresh_id() {
    let mut ids = Vec::new();
    for _ in 0..2 {
        match finish(Some(answer(&ANSWER))) {
            Outcome::Queue(e) => {
                assert_eq!(e.response_hex, "01 03 04 00 01 00 02 2A 32");
                assert_eq!((e.requested_at, e.received_at), (1000, 2000));
                let id: Vec<char> = e.event_id.chars().collect();
                assert_eq!(id.len(), 36);
                for (i, c) in id.iter().enumerate() {
                    if [8, 13, 18, 23].contains(&i) {
                        assert_eq!(*c, '-');
                    } else {
                        assert!(c.is_ascii_digit() || ('a'..='f').contains(c));
                    }
                }
                assert_eq!(id[14], '4');
                assert!("89ab".contains(id[19]));
                ids.push(e.event_id);
            }
            _ => panic!("not queued"),
        }
    }
    assert_ne!(ids[0], ids[1]);
}

#[test]
fn a_damaged_answer_is_dropped() {
    let mut damaged = ANSWER;
    damaged[4] ^= 0x10;
    assert!(matches!(finish(Some(answer(&damaged))), Outcome::BadCrc));
}

#[test]
fn no_answer_is_no_event() {
    assert!(matches!(finish(None), Outcome::Unanswered));
}

#[test]
fn ids_come_in_the_order_of_the_batch() {
    assert_eq!(event_ids(&vec![event("x"), event("y")]), ["x", "y"]);
    assert!(event_ids(&Vec::new()).is_empty());
}

#[test]
fn the_queue_takes_what_fits() {
    let id = "id".to_string();
    let row = enqueue(&id, "päyload".to_string(), 92, 100, 5).unwrap();
    assert_eq!(row.event_id, "id");
    assert_eq!(row.payload, "päyload");
    assert_eq!(row.bytes, 8);
    assert_eq!(row.created_at, 5);
}

#[test]
fn the_queue_refuses_what_does_not_fit() {
    let id = "id".to_string();
    let refused = enqueue(&id, "payload".to_string(), 94, 100, 5);
    assert_eq!(refused.unwrap_err(), QueueError::CapacityExceeded);
    assert_eq!(
        QueueError::CapacityExceeded.message(),
        "local queue capacity exceeded"
    );
    assert!(enqueue(&id, "p".to_string(), 0, 0, 5).is_err());
    assert!(enqueue(&id, String::new(), 0, 0, 5).is_ok());
    assert!(enqueue(&id, "p".to_string(), -2, 100, 5).is_err());
}

#[test]
fn a_row_gives_the_size_of_its_payload() {
    for payload in ["", "a", "ä", "\u{20ac}\u{1f600}"] {
        let row = enqueue(&"id".to_string(), payload.to_string(), 0, 100, 5).unwrap();
        assert_eq!(row.bytes, payload.len() as i64);
    }
}

#[test]
fn the_queue_never_outgrows_its_limit() {
    let id = "id".to_string();
    let mut used = 0;
    let mut refused = 0;
    for n in 0..50 {
        match enqueue(&id, "x".repeat(n % 7), used, 100, 5) {
            Ok(row) => used += row.bytes,
            Err(_) => refused += 1,
        }
        assert!(used <= 100);
    }
    assert_eq!(used, 100);
    assert!(refused > 0);
}
