use egui_tracing::collector::EventCollector;
use egui_tracing::event::Timestamp;
use egui_tracing::level::Level;
use egui_tracing::shared::SharedCollector;

fn emit(shared: &SharedCollector, n: i64) {
    let time = Timestamp { seconds: n, nanos: 0, offset_seconds: 0 };
    shared.update(|mut collector| {
        collector.on_event_at(Level::Info, "t", &Vec::new(), &Vec::new(), time);
        (collector, ())
    });
}

#[test]
fn shared_collector_runs_operations_on_the_collector_behind_it() {
    let shared = SharedCollector::new(EventCollector::new().max_log_entries(3));
    assert_eq!(shared.max_events(), 3);
    assert!(shared.events().is_empty());
    for n in 0..5 {
        emit(&shared, n);
    }
    let kept: Vec<i64> = shared.events().iter().map(|e| e.time.seconds).collect();
    assert_eq!(kept, vec![2, 3, 4]);
    assert_eq!(shared.read(|collector| collector.events().len()), 3);
    let changed = shared.update(|mut collector| {
        let changed = collector.set_max_filter_level(Some(Level::Error));
        (collector, changed)
    });
    assert!(changed);
    emit(&shared, 9);
    assert_eq!(shared.events().len(), 3);
    let collector = shared.into_inner();
    assert_eq!(collector.level(), Some(Level::Error));
    assert_eq!(collector.events().len(), 3);
}

#[test]
fn interleaved_producers_lose_and_double_nothing() {
    let producers = 4i64;
    let each = 50i64;
    let shared = SharedCollector::new(EventCollector::new().max_log_entries(200));
    for m in 0..each {
        for p in 0..producers {
            emit(&shared, p * 1_000_000 + m);
        }
    }
    let events = shared.events();
    assert_eq!(events.len(), (producers * each) as usize);
    let mut seen: Vec<i64> = events.iter().map(|e| e.time.seconds).collect();
    for p in 0..producers {
        let of_p: Vec<i64> = seen.iter().copied().filter(|s| s / 1_000_000 == p).collect();
        let expected: Vec<i64> = (0..each).map(|m| p * 1_000_000 + m).collect();
        assert_eq!(of_p, expected);
    }
    seen.sort();
    seen.dedup();
    assert_eq!(seen.len(), (producers * each) as usize);
}
