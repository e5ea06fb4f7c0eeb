use udpcapture::dispatch::{post_process_command, tick_interval_secs, CaptureLoop};
use udpcapture::moment::Moment;
use udpcapture::writer::{CaptureError, FileOps, FileWriter};

fn never_taken(_: &String) -> bool {
    false
}

fn at(secs: i64, nanos: u32) -> Moment {
    Moment::new(secs, nanos)
}

const T0: i64 = 1_700_000_000;

#[test]
fn size_limit_closes_on_reaching_it() {
    let mut w = FileWriter::new(Some("X".to_string()), Some(10), None);
    let ops = w.maybe_write_data(&vec![1u8; 5], at(T0, 0), &never_taken).unwrap();
    let name = ops.create.clone().unwrap();
    assert!(name.starts_with("X_"));
    assert!(name.ends_with("_0.bin"));
    assert!(ops.write);
    assert_eq!(ops.closed, None);
    let ops = w.maybe_write_data(&vec![2u8; 5], at(T0, 1), &never_taken).unwrap();
    assert_eq!(ops.create, None);
    assert!(ops.write);
    assert_eq!(ops.closed, Some(name));
}

#[test]
fn size_limit_not_reached_early() {
    let mut w = FileWriter::new(Some("X".to_string()), Some(10), None);
    for i in 0..9u32 {
        let ops = w.maybe_write_data(&vec![0u8; 1], at(T0, i), &never_taken).unwrap();
        assert_eq!(ops.closed, None);
    }
    let ops = w.maybe_write_data(&vec![0u8; 3], at(T0, 9), &never_taken).unwrap();
    assert!(ops.closed.is_some());
}

#[test]
fn lifetime_closes_on_first_tick_after_expiry() {
    let mut w = FileWriter::new(Some("X".to_string()), None, Some(2));
    let ops = w.maybe_write_data(&vec![7u8], at(T0, 0), &never_taken).unwrap();
    let name = ops.create.clone().unwrap();
    let tick: Vec<u8> = Vec::new();
    let ops = w.maybe_write_data(&tick, at(T0, 400_000_000), &never_taken).unwrap();
    assert_eq!(ops, FileOps { create: None, write: false, closed: None });
    let ops = w.maybe_write_data(&tick, at(T0 + 1, 999_999_999), &never_taken).unwrap();
    assert_eq!(ops.closed, None);
    let ops = w.maybe_write_data(&tick, at(T0 + 2, 0), &never_taken).unwrap();
    assert_eq!(ops.closed, Some(name));
    assert!(!ops.write);
    let ops = w.maybe_write_data(&tick, at(T0 + 3, 0), &never_taken).unwrap();
    assert_eq!(ops, FileOps { create: None, write: false, closed: None });
}

#[test]
fn tick_interval_is_a_fifth_at_least_one() {
    assert_eq!(tick_interval_secs(None), None);
    assert_eq!(tick_interval_secs(Some(2)), Some(1));
    assert_eq!(tick_interval_secs(Some(0)), Some(1));
    assert_eq!(tick_interval_secs(Some(10)), Some(2));
    assert_eq!(tick_interval_secs(Some(65535)), Some(13107));
}

#[test]
fn forward_only_sends_to_each_target_and_writes_nothing() {
    let mut l = CaptureLoop::new(None, Some(1), Some(1), Some("true".to_string()), 2);
    for i in 0..3i64 {
        let a = l.on_datagram(&vec![9u8, 8, 7], at(T0 + i, 0), &never_taken).unwrap();
        assert_eq!(a.forward_to, vec![0usize, 1]);
        assert_eq!(a.file, FileOps { create: None, write: false, closed: None });
        assert_eq!(a.post_process, None);
    }
    let a = l.on_datagram(&Vec::new(), at(T0 + 5, 0), &never_taken).unwrap();
    assert!(a.forward_to.is_empty());
}

#[test]
fn same_bucket_counts_up() {
    let mut w = FileWriter::new(Some("cap".to_string()), Some(1), None);
    let a = w.maybe_write_data(&vec![1u8, 2], at(T0, 0), &never_taken).unwrap();
    let b = w.maybe_write_data(&vec![3u8], at(T0, 500_000_000), &never_taken).unwrap();
    let c = w.maybe_write_data(&vec![3u8], at(T0, 900_000_000), &never_taken).unwrap();
    let na = a.create.unwrap();
    let nb = b.create.unwrap();
    let nc = c.create.unwrap();
    assert!(na.ends_with("_0.bin"));
    assert!(nb.ends_with("_1.bin"));
    assert!(nc.ends_with("_2.bin"));
    assert_eq!(a.closed, Some(na.clone()));
    assert_eq!(b.closed, Some(nb.clone()));
    assert_eq!(na[..na.len() - 6], nb[..nb.len() - 6]);
}

#[test]
fn new_bucket_resets_disambiguator() {
    let mut w = FileWriter::new(Some("cap".to_string()), Some(1), None);
    let a = w.maybe_write_data(&vec![1u8], at(T0, 0), &never_taken).unwrap();
    let b = w.maybe_write_data(&vec![1u8], at(T0, 1), &never_taken).unwrap();
    let c = w.maybe_write_data(&vec![1u8], at(T0 + 1, 0), &never_taken).unwrap();
    assert!(a.create.unwrap().ends_with("_0.bin"));
    assert!(b.create.unwrap().ends_with("_1.bin"));
    assert!(c.create.unwrap().ends_with("_0.bin"));
}

#[test]
fn file_name_has_formatted_bucket() {
    let mut w = FileWriter::new(Some("X".to_string()), None, None);
    let ops = w.maybe_write_data(&vec![1u8], at(0, 0), &never_taken).unwrap();
    assert_eq!(ops.create, Some("X_1970-001-00-00-00_0.bin".to_string()));
    let mut w = FileWriter::new(Some("d/run".to_string()), None, None);
    let ops = w.maybe_write_data(&vec![1u8], at(T0, 123), &never_taken).unwrap();
    assert_eq!(ops.create, Some("d/run_2023-318-22-13-20_0.bin".to_string()));
}

#[test]
fn taken_names_are_skipped() {
    let mut w = FileWriter::new(Some("X".to_string()), None, None);
    let taken = |n: &String| n.ends_with("_0.bin") || n.ends_with("_1.bin");
    let ops = w.maybe_write_data(&vec![1u8], at(0, 0), &taken).unwrap();
    assert_eq!(ops.create, Some("X_1970-001-00-00-00_2.bin".to_string()));
}

#[test]
fn explicit_bucket_is_used() {
    let mut w = FileWriter::new(Some("base".to_string()), Some(2), None);
    let ops = w.deliver(&vec![1u8, 1], at(5, 0), Some("B1".to_string()), &never_taken).unwrap();
    assert_eq!(ops.create, Some("base_B1_0.bin".to_string()));
    assert_eq!(ops.closed, Some("base_B1_0.bin".to_string()));
    let ops = w.deliver(&vec![1u8, 1], at(5, 0), Some("B1".to_string()), &never_taken).unwrap();
    assert_eq!(ops.create, Some("base_B1_1.bin".to_string()));
    let ops = w.deliver(&vec![1u8, 1], at(5, 0), Some("B2".to_string()), &never_taken).unwrap();
    assert_eq!(ops.create, Some("base_B2_0.bin".to_string()));
}

#[test]
fn unformattable_time_is_an_error() {
    let mut w = FileWriter::new(Some("X".to_string()), None, None);
    let r = w.maybe_write_data(&vec![1u8], at(i64::MAX, 0), &never_taken);
    assert_eq!(r, Err(CaptureError::TimeOutOfRange));
    let r = w.deliver(&vec![1u8], at(0, 0), None, &never_taken);
    assert_eq!(r, Err(CaptureError::TimeOutOfRange));
    let ops = w.maybe_write_data(&vec![1u8], at(0, 0), &never_taken).unwrap();
    assert!(ops.create.is_some());
}

#[test]
fn no_base_never_creates() {
    let mut w = FileWriter::new(None, Some(1), Some(1));
    for i in 0..4i64 {
        let ops = w.maybe_write_data(&vec![1u8; 3], at(T0 + i, 0), &never_taken).unwrap();
        assert_eq!(ops, FileOps { create: None, write: false, closed: None });
    }
}

#[test]
fn ticks_never_open() {
    let mut w = FileWriter::new(Some("X".to_string()), Some(0), Some(0));
    for i in 0..3i64 {
        let ops = w.maybe_write_data(&Vec::new(), at(T0 + i, 0), &never_taken).unwrap();
        assert_eq!(ops, FileOps { create: None, write: false, closed: None });
    }
}

#[test]
fn zero_size_limit_closes_at_once() {
    let mut w = FileWriter::new(Some("X".to_string()), Some(0), None);
    let ops = w.maybe_write_data(&vec![1u8], at(T0, 0), &never_taken).unwrap();
    assert!(ops.write);
    assert_eq!(ops.closed, ops.create);
}

#[test]
fn closed_file_gets_hook_command() {
    let mut l = CaptureLoop::new(Some("X".to_string()), Some(2), None, Some("gzip $out_file".to_string()), 1);
    let a = l.on_datagram(&vec![1u8, 2, 3], at(0, 0), &never_taken).unwrap();
    assert_eq!(a.file.closed, Some("X_1970-001-00-00-00_0.bin".to_string()));
    assert_eq!(
        a.post_process,
        Some("out_file=X_1970-001-00-00-00_0.bin; gzip $out_file".to_string())
    );
    assert_eq!(a.forward_to, vec![0usize]);
}

#[test]
fn hook_command_text() {
    let c = post_process_command(&"ls -l $out_file".to_string(), &"a_b_0.bin".to_string());
    assert_eq!(c, "out_file=a_b_0.bin; ls -l $out_file");
}

#[test]
fn moment_elapsed_whole_seconds() {
    let a = at(10, 500_000_000);
    assert!(a.reached_after(at(12, 500_000_000), 2));
    assert!(!a.reached_after(at(12, 499_999_999), 2));
    assert!(a.reached_after(at(10, 500_000_000), 0));
    assert!(!a.reached_after(at(9, 0), 0));
}

#[test]
fn far_times_still_get_a_name() {
    for secs in [0x100_0000_0000i64, -0x100_0000_0000i64] {
        let mut w = FileWriter::new(Some("X".to_string()), None, None);
        let ops = w.maybe_write_data(&vec![1u8], at(secs, 0), &never_taken).unwrap();
        let name = ops.create.unwrap();
        assert!(name.starts_with("X_"));
        assert!(name.ends_with("_0.bin"));
    }
}

#[test]
fn many_taken_names_give_multi_digit_disambiguator() {
    let mut w = FileWriter::new(Some("X".to_string()), None, None);
    let taken = |n: &String| {
        let k: u32 = n.trim_end_matches(".bin").rsplit('_').next().unwrap().parse().unwrap();
        k < 120
    };
    let ops = w.maybe_write_data(&vec![1u8], at(0, 0), &taken).unwrap();
    assert_eq!(ops.create, Some("X_1970-001-00-00-00_120.bin".to_string()));
}
