use fand::smc::panic_hook::SliceWriter;
use fand::smc::unlock::ReleaseFlag;

#[test]
fn slice_writer_appends() {
    let mut buf = [0u8; 64];
    let mut writer = SliceWriter::new(&mut buf);
    writer.write_str(&format!("hello {}", 42));
    let written = writer.written();
    assert_eq!(&buf[..written], b"hello 42");
}

#[test]
fn slice_writer_truncates_gracefully() {
    let mut buf = [0u8; 4];
    let mut writer = SliceWriter::new(&mut buf);
    writer.write_str("this is longer than four bytes");
    assert_eq!(writer.written(), 4);
    assert_eq!(&buf, b"this");
}

#[test]
fn slice_writer_empty_buf_no_panic() {
    let mut buf = [0u8; 0];
    let mut writer = SliceWriter::new(&mut buf);
    writer.write_str("ignored");
    assert_eq!(writer.written(), 0);
}

#[test]
fn panic_hook_active_flag_starts_false() {
    let flag = ReleaseFlag::new();
    assert!(!flag.is_claimed());
}
