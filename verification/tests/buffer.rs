use egui_tracing::buffer::{EventBuffer, DEFAULT_MAX_EVENTS};
use egui_tracing::event::{CollectedEvent, Timestamp};
use egui_tracing::fields::FieldMap;
use egui_tracing::level::Level;

fn event(n: i64) -> CollectedEvent {
    let time = Timestamp { seconds: n, nanos: 0, offset_seconds: 0 };
    CollectedEvent::at(FieldMap::new(), &format!("t{n}"), Level::Info, time)
}

fn seconds(buffer: &EventBuffer) -> Vec<i64> {
    buffer.snapshot().iter().map(|e| e.time.seconds).collect()
}

#[test]
fn default_capacity_is_ten_thousand() {
    assert_eq!(DEFAULT_MAX_EVENTS, 10000);
    let buffer = EventBuffer::default();
    assert_eq!(buffer.max_events(), 10000);
    assert!(buffer.is_empty());
}

#[test]
fn push_keeps_order_below_capacity() {
    let mut buffer = EventBuffer::new(4);
    for n in 0..3 {
        buffer.push(event(n));
    }
    assert_eq!(buffer.len(), 3);
    assert_eq!(seconds(&buffer), vec![0, 1, 2]);
}

#[test]
fn push_at_capacity_evicts_single_oldest() {
    let mut buffer = EventBuffer::new(3);
    for n in 0..3 {
        buffer.push(event(n));
    }
    buffer.push(event(3));
    assert_eq!(seconds(&buffer), vec![1, 2, 3]);
    buffer.push(event(4));
    assert_eq!(seconds(&buffer), vec![2, 3, 4]);
}

#[test]
fn length_never_exceeds_capacity_and_newest_survive() {
    for capacity in 1usize..6 {
        let mut buffer = EventBuffer::new(capacity);
        for n in 0..20i64 {
            buffer.push(event(n));
            assert!(buffer.len() <= capacity);
            let pushed = (n + 1) as usize;
            let kept = pushed.min(capacity);
            let expected: Vec<i64> = ((pushed - kept) as i64..=n).collect();
            assert_eq!(seconds(&buffer), expected);
        }
    }
}

#[test]
fn nothing_is_lost_or_doubled_while_there_is_room() {
    let producers = 4i64;
    let each = 25i64;
    let mut buffer = EventBuffer::new((producers * each) as usize);
    for m in 0..each {
        for p in 0..producers {
            buffer.push(event(p * 1000 + m));
        }
    }
    assert_eq!(buffer.len(), (producers * each) as usize);
    let mut seen = seconds(&buffer);
    seen.sort();
    let mut expected: Vec<i64> = Vec::new();
    for p in 0..producers {
        for m in 0..each {
            expected.push(p * 1000 + m);
        }
    }
    assert_eq!(seen, expected);
}

#[test]
fn buffer_made_to_keep_none_holds_the_newest() {
    let mut buffer = EventBuffer::new(0);
    buffer.push(event(1));
    assert_eq!(seconds(&buffer), vec![1]);
    buffer.push(event(2));
    assert_eq!(seconds(&buffer), vec![2]);
}

#[test]
fn clear_twice_leaves_buffer_empty() {
    let mut buffer = EventBuffer::new(5);
    buffer.push(event(1));
    buffer.push(event(2));
    buffer.clear();
    assert_eq!(buffer.len(), 0);
    assert!(buffer.snapshot().is_empty());
    buffer.clear();
    assert_eq!(buffer.len(), 0);
    assert!(buffer.is_empty());
    assert_eq!(buffer.max_events(), 5);
    buffer.push(event(3));
    assert_eq!(seconds(&buffer), vec![3]);
}

#[test]
fn get_reads_by_place() {
    let mut buffer = EventBuffer::new(2);
    buffer.push(event(7));
    buffer.push(event(8));
    buffer.push(event(9));
    assert_eq!(buffer.get(0).unwrap().time.seconds, 8);
    assert_eq!(buffer.get(1).unwrap().target, "t9");
    assert!(buffer.get(2).is_none());
}

#[test]
fn event_is_stamped_with_the_clock() {
    let mut fields = FieldMap::new();
    fields.insert("message", "hi");
    let event = CollectedEvent::new(fields, "app::main", Level::Warn);
    assert_eq!(event.target, "app::main");
    assert_eq!(event.level, Level::Warn);
    assert_eq!(event.fields.get("message"), Some("hi"));
    assert!(event.time.seconds > 1_500_000_000);
    assert!(event.time.offset_seconds.abs() <= 24 * 3600);
}

#[test]
fn event_clone_keeps_every_part() {
    let mut fields = FieldMap::new();
    fields.insert("k", "v");
    let time = Timestamp { seconds: 12, nanos: 34, offset_seconds: 3600 };
    let event = CollectedEvent::at(fields, "a::b", Level::Debug, time);
    let copy = event.clone();
    assert_eq!(copy.target, "a::b");
    assert_eq!(copy.level, Level::Debug);
    assert_eq!(copy.fields.get("k"), Some("v"));
    assert_eq!(copy.time, time);
}
