use mini_tor::client::metrics::ClientMetrics;
use mini_tor::discovery::metrics::DiscoveryMetrics;
use mini_tor::metrics::{
    format_bytes, format_duration, format_timestamp, Direction, Elapsed, EventBuffer,
};
use mini_tor::relay::metrics::RelayMetrics;
use mini_tor::{client, discovery, relay};

#[test]
fn test_format_bytes() {
    assert_eq!(format_bytes(0), "0 B");
    assert_eq!(format_bytes(512), "512 B");
    assert_eq!(format_bytes(1024), "1.0 KB");
    assert_eq!(format_bytes(1536), "1.5 KB");
    assert_eq!(format_bytes(1_048_576), "1.0 MB");
    assert_eq!(format_bytes(1_073_741_824), "1.0 GB");
}

fn format_bytes_in_floats(bytes: u64) -> String {
    const KB: u64 = 1024;
    const MB: u64 = 1024 * KB;
    const GB: u64 = 1024 * MB;
    if bytes >= GB {
        format!("{:.1} GB", bytes as f64 / GB as f64)
    } else if bytes >= MB {
        format!("{:.1} MB", bytes as f64 / MB as f64)
    } else if bytes >= KB {
        format!("{:.1} KB", bytes as f64 / KB as f64)
    } else {
        format!("{bytes} B")
    }
}

#[test]
fn format_bytes_agrees_with_double_precision() {
    assert_eq!(format_bytes(1280), "1.2 KB");
    assert_eq!(format_bytes(1792), "1.8 KB");
    assert_eq!(format_bytes(1023), "1023 B");
    assert_eq!(format_bytes(u64::MAX), "17179869184.0 GB");
    let mut n: u64 = 1;
    for i in 0..20000u64 {
        n = n.wrapping_mul(6364136223846793005).wrapping_add(1442695040888963407);
        let value = n >> (i % 64);
        assert_eq!(format_bytes(value), format_bytes_in_floats(value), "{value}");
        let tie = (2 * (i % 4096) + 1) << (i % 40);
        assert_eq!(format_bytes(tie), format_bytes_in_floats(tie), "{tie}");
        let near = u64::MAX / 10 * (i % 10 + 1) - i;
        assert_eq!(format_bytes(near), format_bytes_in_floats(near), "{near}");
    }
}

#[test]
fn test_format_duration() {
    assert_eq!(format_duration(Elapsed::from_secs(0)), "0s");
    assert_eq!(format_duration(Elapsed::from_secs(45)), "45s");
    assert_eq!(format_duration(Elapsed::from_secs(150)), "2m30s");
    assert_eq!(format_duration(Elapsed::from_secs(3600)), "1h0m");
    assert_eq!(format_duration(Elapsed::from_secs(4980)), "1h23m");
}

#[test]
fn test_format_timestamp() {
    assert_eq!(format_timestamp(Elapsed::from_secs(5)), "+0:00:05");
    assert_eq!(format_timestamp(Elapsed::from_secs(83)), "+0:01:23");
    assert_eq!(format_timestamp(Elapsed::from_secs(3912)), "+1:05:12");
}

fn at(secs: u64) -> Elapsed {
    Elapsed::from_secs(secs)
}

#[test]
fn test_event_buffer_push_and_snapshot() {
    let mut buffer: EventBuffer<String> = EventBuffer::new(3, at(0));
    buffer.push(at(1), "first".to_string());
    buffer.push(at(2), "second".to_string());

    let events = buffer.snapshot(|e| e.kind.clone());
    assert_eq!(events.len(), 2);
    assert_eq!(events[0], "first");
    assert_eq!(events[1], "second");
}

#[test]
fn test_event_buffer_capacity_overflow() {
    let mut buffer: EventBuffer<u32> = EventBuffer::new(2, at(0));
    buffer.push(at(0), 1);
    buffer.push(at(0), 2);
    buffer.push(at(0), 3);

    let events = buffer.snapshot(|e| e.kind);
    assert_eq!(events.len(), 2);
    assert_eq!(events[0], 2);
    assert_eq!(events[1], 3);
}

#[test]
fn test_event_buffer_empty() {
    let mut buffer: EventBuffer<u32> = EventBuffer::new(10, at(0));
    assert!(buffer.is_empty());
    assert_eq!(buffer.len(), 0);

    buffer.push(at(0), 42);
    assert!(!buffer.is_empty());
    assert_eq!(buffer.len(), 1);
}

#[test]
fn event_buffer_counts_time_from_its_start() {
    let start = Elapsed {
        secs: 10,
        nanos: 600_000_000,
    };
    let mut buffer: EventBuffer<u32> = EventBuffer::new(1, start);
    assert_eq!(buffer.start_time(), start);
    buffer.push(at(12), 1);
    assert_eq!(
        buffer.get(0).elapsed,
        Elapsed {
            secs: 1,
            nanos: 400_000_000
        }
    );
    buffer.push(at(3), 2);
    assert_eq!(buffer.len(), 1);
    assert_eq!(buffer.get(0).kind, 2);
    assert_eq!(buffer.get(0).elapsed, at(0));
}

#[test]
fn event_buffer_without_room_keeps_nothing() {
    let mut buffer: EventBuffer<u32> = EventBuffer::new(0, at(0));
    buffer.push(at(1), 7);
    assert_eq!(buffer.len(), 0);
    assert!(buffer.is_empty());
    buffer.push(at(2), 8);
    assert!(buffer.snapshot(|e| e.kind).is_empty());
}

#[test]
fn event_buffer_keeps_the_newest_in_order() {
    let mut buffer: EventBuffer<u32> = EventBuffer::new(5, at(0));
    for i in 0..12 {
        buffer.push(at(i as u64), i);
    }
    assert_eq!(buffer.snapshot(|e| e.kind), vec![7, 8, 9, 10, 11]);
}

#[test]
fn test_direction_display() {
    assert_eq!(Direction::Forward.to_string(), "fwd");
    assert_eq!(Direction::Backward.to_string(), "bwd");
}

#[test]
fn noted_events_carry_the_time_since_the_start() {
    let mut relay = RelayMetrics::new(at(10));
    relay.push_event(at(13), relay::metrics::EventKind::CircuitCreated { circuit_id: 1 });
    let closed = relay::metrics::EventKind::StreamClosed {
        circuit_id: 1,
        stream_id: 2,
    };
    relay.record(at(14), closed);
    relay.push_event(at(9), relay::metrics::EventKind::CircuitDestroyed { circuit_id: 1 });
    let times = relay.events.snapshot(|e| e.elapsed);
    assert_eq!(times, vec![at(3), at(4), at(0)]);

    let mut client = ClientMetrics::new(at(10));
    client.push_event(at(13), client::metrics::EventKind::CircuitClosed { circuit_id: 1 });
    let replaced = client::metrics::EventKind::CircuitReplaced {
        old_id: 1,
        new_id: 2,
    };
    client.record(at(15), replaced);
    assert_eq!(client.events.snapshot(|e| e.elapsed), vec![at(3), at(5)]);

    let mut service = DiscoveryMetrics::new(at(10));
    service.push_event(at(16), discovery::metrics::EventKind::PathRequested);
    assert_eq!(service.events.snapshot(|e| e.elapsed), vec![at(6)]);
}
