use shpool_core::session_restore::{
    new, parse_memory_size, ConfigParseError, MemorySpool, SessionSpool, SignalOnlySpool, Spool,
    TtySize,
};

#[test]
fn test_parse_memory_size() {
    // Test basic parsing
    assert_eq!(parse_memory_size("0").unwrap(), 0);
    assert_eq!(parse_memory_size("512KB").unwrap(), 512 * 1024);
    assert_eq!(parse_memory_size("5MB").unwrap(), 5 * 1024 * 1024);
    assert_eq!(parse_memory_size("2GB").unwrap(), 2 * 1024 * 1024 * 1024);

    // Test case insensitivity
    assert_eq!(parse_memory_size("1mb").unwrap(), 1024 * 1024);
    assert_eq!(parse_memory_size("1Mb").unwrap(), 1024 * 1024);
    assert_eq!(parse_memory_size("1kb").unwrap(), 1024);

    // Test with whitespace
    assert_eq!(parse_memory_size("  5MB  ").unwrap(), 5 * 1024 * 1024);

    // Test error cases
    assert!(parse_memory_size("invalid").is_err());
    assert!(parse_memory_size("5TB").is_err());
    assert!(parse_memory_size("5").is_err());
    assert!(parse_memory_size("MB").is_err());
    assert!(parse_memory_size("").is_err());
}

#[test]
fn test_new_session_spool() {
    let tty_size = TtySize { rows: 24, cols: 80, xpixel: 0, ypixel: 0 };

    // Test creating SignalOnlySpool
    let spool = new("0", &tty_size).unwrap();
    assert_eq!(spool.restore_buffer().len(), 0);

    // Test creating MemorySpool
    let spool = new("1MB", &tty_size).unwrap();
    assert_eq!(spool.restore_buffer().len(), 0); // Initially empty

    // Test error case
    assert!(new("invalid", &tty_size).is_err());
}

#[test]
fn test_memory_spool_functionality() {
    let mut spool = MemorySpool::new(100); // Small size for testing

    // Test initial state
    assert_eq!(spool.restore_buffer().len(), 0);

    // Add some data
    spool.process(b"hello");
    let buffer = spool.restore_buffer();
    assert_eq!(buffer, b"hello");

    // Add more data that exceeds capacity
    let large_data = vec![b'x'; 200];
    spool.process(&large_data);
    let buffer = spool.restore_buffer();

    // Should be trimmed to max_size
    assert!(buffer.len() <= 100);
    assert!(!buffer.is_empty());
}

#[test]
fn test_signal_only_spool() {
    let mut spool = SignalOnlySpool;

    // Should always return empty buffer
    assert_eq!(spool.restore_buffer().len(), 0);

    spool.process(b"some data");
    assert_eq!(spool.restore_buffer().len(), 0);

    spool.resize(TtySize { rows: 50, cols: 100, xpixel: 0, ypixel: 0 });
    assert_eq!(spool.restore_buffer().len(), 0);
}

#[test]
fn test_parse_zero_forms() {
    // "0" means no buffering; surrounding whitespace is ignored for it too.
    assert_eq!(parse_memory_size("0").unwrap(), 0);
    assert_eq!(parse_memory_size(" 0 ").unwrap(), 0);
    assert!(parse_memory_size("00").is_err());
    // A zero magnitude with a unit parses to zero bytes.
    assert_eq!(parse_memory_size("0KB").unwrap(), 0);
}

#[test]
fn test_parse_trims_unicode_whitespace() {
    // Trimming follows the Unicode White_Space set, not just ASCII.
    assert_eq!(parse_memory_size("\u{a0}5KB\u{a0}").unwrap(), 5 * 1024);
    assert_eq!(parse_memory_size("\u{3000}0\u{2003}").unwrap(), 0);
    // Whitespace inside the policy still makes it malformed.
    assert!(parse_memory_size("5\u{a0}KB").is_err());
}

#[test]
fn test_parse_rejects_signs_and_gaps() {
    assert!(parse_memory_size("+5KB").is_err());
    assert!(parse_memory_size("-5KB").is_err());
    assert!(parse_memory_size("5 KB").is_err());
    assert!(parse_memory_size("KB5").is_err());
    assert!(parse_memory_size("B").is_err());
}

#[test]
fn test_parse_rejects_overflowing_magnitude() {
    // Far beyond any usize: rejected, not wrapped.
    assert!(parse_memory_size("99999999999999999999999999GB").is_err());
}

#[test]
fn test_parse_error_message_names_input() {
    let e: ConfigParseError = parse_memory_size("5TB").unwrap_err();
    assert_eq!(e.input, "5TB");
    assert_eq!(
        e.message(),
        "Invalid memory size format: 5TB. Use formats like '5MB', '1GB', '512KB', or '0'"
    );
}

#[test]
fn test_memory_spool_fifo_truncation() {
    // The buffer is the last B bytes of everything ingested, in order.
    let mut spool = MemorySpool::new(5);
    spool.process(b"abc");
    assert_eq!(spool.restore_buffer(), b"abc");
    spool.process(b"defg");
    assert_eq!(spool.restore_buffer(), b"cdefg");
    spool.process(b"");
    assert_eq!(spool.restore_buffer(), b"cdefg");
    spool.process(b"XY");
    assert_eq!(spool.restore_buffer(), b"efgXY");
}

#[test]
fn test_memory_spool_single_oversized_chunk() {
    let mut spool = MemorySpool::new(4);
    spool.process(b"0123456789");
    assert_eq!(spool.restore_buffer(), b"6789");
}

#[test]
fn test_restore_buffer_idempotent() {
    let mut spool = MemorySpool::new(100);
    spool.process(b"hello");
    let first = spool.restore_buffer();
    let second = spool.restore_buffer();
    assert_eq!(first, second);
    // Reading did not disturb later processing.
    spool.process(b" world");
    assert_eq!(spool.restore_buffer(), b"hello world");
}

#[test]
fn test_memory_spool_resize_keeps_contents() {
    let mut spool = MemorySpool::new(100);
    spool.process(b"data");
    spool.resize(TtySize { rows: 50, cols: 120, xpixel: 0, ypixel: 0 });
    assert_eq!(spool.restore_buffer(), b"data");
}

#[test]
fn test_factory_routes_zero_to_signal_only() {
    let tty_size = TtySize { rows: 24, cols: 80, xpixel: 0, ypixel: 0 };
    let spool = new("0", &tty_size).unwrap();
    assert!(matches!(spool, Spool::SignalOnly(_)));
    let spool = new("512KB", &tty_size).unwrap();
    assert!(matches!(spool, Spool::Memory(_)));
}

#[test]
fn test_factory_spool_buffers_through_enum() {
    let tty_size = TtySize { rows: 24, cols: 80, xpixel: 0, ypixel: 0 };
    let mut spool = new("1KB", &tty_size).unwrap();
    spool.process(b"abc");
    spool.resize(TtySize { rows: 25, cols: 81, xpixel: 0, ypixel: 0 });
    assert_eq!(spool.restore_buffer(), b"abc");
    // Overrunning the parsed budget keeps exactly the newest 1024 bytes.
    let flood = vec![b'z'; 2000];
    spool.process(&flood);
    let buffer = spool.restore_buffer();
    assert_eq!(buffer.len(), 1024);
    assert!(buffer.iter().all(|&b| b == b'z'));
}
