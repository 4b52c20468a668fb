use request_log::{elapsed_ns, format_time, FrameSymbol, LogEntry, StackFrame};

fn symbol(name: Option<Option<&str>>, file: Option<Option<&str>>, line: Option<u32>) -> FrameSymbol {
    FrameSymbol {
        name: name.map(|n| n.map(String::from)),
        filename: file.map(|f| f.map(String::from)),
        lineno: line,
    }
}

fn is_duration(text: &str) -> bool {
    let (number, unit) = if let Some(n) = text.strip_suffix("ns") {
        (n, "ns")
    } else if let Some(n) = text.strip_suffix("us") {
        (n, "us")
    } else if let Some(n) = text.strip_suffix("ms") {
        (n, "ms")
    } else if let Some(n) = text.strip_suffix('s') {
        (n, "s")
    } else {
        return false;
    };
    if unit == "ns" {
        return !number.is_empty() && number.chars().all(|c| c.is_ascii_digit());
    }
    match number.split_once('.') {
        Some((whole, tenth)) => {
            !whole.is_empty()
                && whole.chars().all(|c| c.is_ascii_digit())
                && tenth.len() == 1
                && tenth.chars().all(|c| c.is_ascii_digit())
        }
        None => false,
    }
}

#[test]
fn format_time_brackets() {
    assert_eq!(format_time(999), "999ns");
    assert_eq!(format_time(1000), "1.0us");
    assert_eq!(format_time(1_500_000), "1.5ms");
    assert_eq!(format_time(2_000_000_000), "2.0s");
}

#[test]
fn format_time_edges() {
    assert_eq!(format_time(0), "0ns");
    assert_eq!(format_time(999_999), "1000.0us");
    assert_eq!(format_time(1_000_000), "1.0ms");
    assert_eq!(format_time(999_999_999), "1000.0ms");
    assert_eq!(format_time(1_000_000_000), "1.0s");
    assert_eq!(format_time(u64::MAX), "18446744073.7s");
}

#[test]
fn format_time_rounds_to_nearest_tenth() {
    assert_eq!(format_time(1_049), "1.0us");
    assert_eq!(format_time(1_050), "1.1us");
    assert_eq!(format_time(12_345_678), "12.3ms");
    assert_eq!(format_time(61_960_000_000), "62.0s");
}

#[test]
fn format_time_is_pure() {
    for d in [0u64, 7, 999, 1000, 123_456, 9_876_543_210, u64::MAX] {
        assert_eq!(format_time(d), format_time(d));
        assert!(is_duration(&format_time(d)));
    }
}

#[test]
fn elapsed_is_never_negative() {
    assert_eq!(elapsed_ns(3, 5), 2);
    assert_eq!(elapsed_ns(5, 5), 0);
    assert_eq!(elapsed_ns(5, 3), 0);
}

#[test]
fn start_builds_line() {
    let entry = LogEntry::start("GET", "/hello");
    assert_eq!(entry.line(), "GET /hello");
}

#[test]
fn render_elapsed_exact() {
    let entry = LogEntry::with_start_time("GET /hello", 100);
    assert_eq!(entry.start_time(), 100);
    assert_eq!(entry.render_elapsed(1_100), "GET /hello - 1.0us\n");
    assert_eq!(entry.render_elapsed(100), "GET /hello - 0ns\n");
    assert_eq!(entry.render_elapsed(50), "GET /hello - 0ns\n");
}

#[test]
fn render_panic_with_sentinels() {
    let entry = LogEntry::with_start_time("GET /hello", 0);
    let frames = vec![
        StackFrame { ip: 0x1f, symbols: vec![symbol(None, Some(Some("src/main.rs")), None)] },
        StackFrame { ip: 0x2a0, symbols: vec![] },
        StackFrame {
            ip: 0xbeef,
            symbols: vec![
                symbol(Some(Some("handle")), Some(None), Some(42)),
                symbol(Some(None), None, Some(7)),
            ],
        },
    ];
    assert_eq!(
        entry.render_panic(&frames),
        "GET /hello -  - PANIC!\n\
         \x20  1 - 0x1f - <unknown>\n\
         \x20      src/main.rs:??\n\
         \x20  3 - 0xbeef - handle\n\
         \x20      <not-utf8>:42\n\
         \x20  3 - 0xbeef - <not-utf8>\n\
         \x20      <unknown>:7\n\
         \n"
    );
}

#[test]
fn render_panic_without_frames() {
    let entry = LogEntry::with_start_time("POST /upload", 0);
    assert_eq!(entry.render_panic(&vec![]), "POST /upload -  - PANIC!\n\n");
}

#[test]
fn render_panic_wide_frame_number() {
    let entry = LogEntry::with_start_time("GET /", 0);
    let mut frames = Vec::new();
    for i in 0..12_345usize {
        let symbols = if i == 12_344 { vec![symbol(Some(Some("f")), Some(Some("a.rs")), Some(1))] } else { vec![] };
        frames.push(StackFrame { ip: i, symbols });
    }
    assert_eq!(entry.render_panic(&frames), "GET / -  - PANIC!\n12345 - 0x3038 - f\n       a.rs:1\n\n");
}

#[test]
fn scenario_normal_exit() {
    let entry = LogEntry::start("GET", "/hello");
    let text = entry.finish(false);
    let rest = text.strip_prefix("GET /hello - ").expect("prefix");
    let duration = rest.strip_suffix('\n').expect("line break");
    assert!(is_duration(duration), "{:?}", text);
}

#[test]
fn scenario_abnormal_exit() {
    let entry = LogEntry::start("GET", "/hello");
    let text = entry.finish(true);
    assert!(text.starts_with("GET /hello -  - PANIC!\n"), "{:?}", text);
    assert!(text.contains("   1 - 0x"), "{:?}", text);
    assert!(text.ends_with("\n\n"), "{:?}", text);
}

#[test]
fn delayed_scope_logs_longer() {
    let quick = LogEntry::start("GET", "/quick");
    let quick_elapsed = elapsed_ns(quick.start_time(), time::precise_time_ns());
    let slow = LogEntry::start("GET", "/slow");
    while elapsed_ns(slow.start_time(), time::precise_time_ns()) < 2_000_000 {}
    let slow_elapsed = elapsed_ns(slow.start_time(), time::precise_time_ns());
    assert!(quick_elapsed < slow_elapsed);
    assert!(slow.finish(false).ends_with("ms\n"));
}

struct CountingGuard<'a> {
    entry: Option<LogEntry>,
    written: &'a std::cell::RefCell<Vec<String>>,
    failing: bool,
}

impl Drop for CountingGuard<'_> {
    fn drop(&mut self) {
        if let Some(entry) = self.entry.take() {
            self.written.borrow_mut().push(entry.finish(self.failing));
        }
    }
}

fn handle(written: &std::cell::RefCell<Vec<String>>, fail_early: bool) -> u32 {
    let _guard = CountingGuard { entry: Some(LogEntry::start("GET", "/hello")), written, failing: fail_early };
    if fail_early {
        return 1;
    }
    0
}

#[test]
fn cleanup_runs_once_per_exit_path() {
    let written = std::cell::RefCell::new(Vec::new());
    assert_eq!(handle(&written, false), 0);
    assert_eq!(written.borrow().len(), 1);
    assert!(is_duration(written.borrow()[0].strip_prefix("GET /hello - ").unwrap().trim_end_matches('\n')));
    assert_eq!(handle(&written, true), 1);
    assert_eq!(written.borrow().len(), 2);
    assert!(written.borrow()[1].starts_with("GET /hello -  - PANIC!\n"));
}
