use paddler::error::Error;
use paddler::net::parse_duration;
use paddler::net::parse_socket_addr;
use paddler::net::pick_resolved_addr;
use paddler::net::ParseSocketAddrOutcome;
use paddler::net::SocketAddress;
use paddler::pool::second_failure_error;
use paddler::pool::should_retry_send;
use paddler::pool::ConnectionSlotState;
use paddler::pool::InferenceSocketPool;
use paddler::stream_lines::FramingStep;
use paddler::stream_lines::NdjsonReader;
use paddler::stream_lines::SseReader;

#[test]
fn test_parse_duration_accepts_milliseconds() {
    assert_eq!(parse_duration("250").unwrap(), 250);
    assert_eq!(parse_duration("0").unwrap(), 0);
}

#[test]
fn test_parse_duration_rejects_non_numeric_input() {
    assert!(parse_duration("").is_err());
    assert!(parse_duration("12s").is_err());
    assert!(parse_duration("-5").is_err());
    assert!(parse_duration("99999999999999999999999").is_err());
}

#[test]
fn test_parse_socket_addr_literal_ipv4() {
    match parse_socket_addr("127.0.0.1:8080") {
        ParseSocketAddrOutcome::Parsed(resolved) => {
            assert_eq!(resolved.input_addr, "127.0.0.1:8080");
            assert_eq!(
                resolved.socket_addr,
                SocketAddress::V4 {
                    a: 127,
                    b: 0,
                    c: 0,
                    d: 1,
                    port: 8080,
                }
            );
        }
        other => panic!("expected a parsed address, got {other:?}"),
    }
}

#[test]
fn test_parse_socket_addr_defers_names_to_resolution() {
    assert!(matches!(
        parse_socket_addr("localhost:8080"),
        ParseSocketAddrOutcome::NeedsResolution
    ));
    assert!(matches!(
        parse_socket_addr("300.0.0.1:8080"),
        ParseSocketAddrOutcome::NeedsResolution
    ));
    assert!(matches!(
        parse_socket_addr("127.0.0.1"),
        ParseSocketAddrOutcome::NeedsResolution
    ));
}

#[test]
fn test_resolution_prefers_first_ipv4() {
    let addrs = vec![
        SocketAddress::V6 {
            address: "::1".to_string(),
            port: 80,
        },
        SocketAddress::V4 {
            a: 10,
            b: 0,
            c: 0,
            d: 2,
            port: 80,
        },
        SocketAddress::V4 {
            a: 10,
            b: 0,
            c: 0,
            d: 3,
            port: 80,
        },
    ];

    assert_eq!(pick_resolved_addr(&addrs), Some(&addrs[1]));
}

#[test]
fn test_resolution_falls_back_to_first_ipv6() {
    let addrs = vec![
        SocketAddress::V6 {
            address: "::1".to_string(),
            port: 80,
        },
        SocketAddress::V6 {
            address: "fe80::2".to_string(),
            port: 80,
        },
    ];

    assert_eq!(pick_resolved_addr(&addrs), Some(&addrs[0]));
    assert_eq!(pick_resolved_addr(&Vec::new()), None);
}

#[test]
fn test_pool_rotates_round_robin() {
    let mut pool = InferenceSocketPool::new(3);

    assert_eq!(pool.next_connection_index(), 0);
    assert_eq!(pool.next_connection_index(), 1);
    assert_eq!(pool.next_connection_index(), 2);
    assert_eq!(pool.next_connection_index(), 0);
}

#[test]
fn test_pool_reconnects_vacant_and_dropped_slots() {
    let mut pool = InferenceSocketPool::new(2);

    assert!(pool.needs_connect(0));
    pool.mark_connected(0);
    assert!(!pool.needs_connect(0));
    pool.mark_disconnected(0);
    assert!(pool.needs_connect(0));
    assert_eq!(pool.slots[1], ConnectionSlotState::Vacant);
}

#[test]
fn test_send_retry_only_on_connection_dropped() {
    assert!(should_retry_send(&Error::ConnectionDropped {
        request_id: "r".to_string(),
    }));
    assert!(!should_retry_send(&Error::PoolExhausted));
    assert!(!should_retry_send(&Error::Other("boom".to_string())));
}

#[test]
fn test_second_failure_is_not_retried_again() {
    let second = second_failure_error(Error::ConnectionDropped {
        request_id: "r9".to_string(),
    });

    assert_eq!(second, Error::Other("r9".to_string()));
    assert!(!should_retry_send(&second));
}

#[test]
fn test_ndjson_reader_splits_lines_across_chunks() {
    let mut reader = NdjsonReader::new();
    reader.push_chunk("{\"a\":1}\n{\"b\"");
    assert_eq!(reader.next_step(), FramingStep::Item("{\"a\":1}".to_string()));
    assert_eq!(reader.next_step(), FramingStep::NeedMore);

    reader.push_chunk(":2}\n\n  \n");
    assert_eq!(reader.next_step(), FramingStep::Item("{\"b\":2}".to_string()));
    assert_eq!(reader.next_step(), FramingStep::Skip);
    assert_eq!(reader.next_step(), FramingStep::Skip);
    assert_eq!(reader.next_step(), FramingStep::NeedMore);
}

#[test]
fn test_ndjson_reader_trims_and_flushes_trailing_line() {
    let mut reader = NdjsonReader::new();
    reader.push_chunk("  {\"tail\":true}  ");
    assert_eq!(reader.next_step(), FramingStep::NeedMore);
    assert_eq!(reader.finish(), Some("{\"tail\":true}".to_string()));

    let mut empty = NdjsonReader::new();
    empty.push_chunk("   ");
    assert_eq!(empty.finish(), None);
}

#[test]
fn test_sse_reader_yields_data_lines_only() {
    let mut reader = SseReader::new();
    reader.push_chunk("event: update\r\ndata: {\"x\":1}\r\n\r\ndata: {\"y\":2}\n");

    assert_eq!(reader.next_step(), FramingStep::Skip);
    assert_eq!(reader.next_step(), FramingStep::Item("{\"x\":1}".to_string()));
    assert_eq!(reader.next_step(), FramingStep::Skip);
    assert_eq!(reader.next_step(), FramingStep::Item("{\"y\":2}".to_string()));
    assert_eq!(reader.next_step(), FramingStep::NeedMore);
}
