use btstats::blk_io_trace::{
    BlkIoTrace, Endianness, IoAction, IoCategory, RawTrace, BLK_IO_TRACE_MAGIC,
    BLK_IO_TRACE_VERSION, BLK_TA_BACKMERGE, BLK_TA_COMPLETE, BLK_TA_DRV_DATA, BLK_TA_QUEUE,
    BLK_TA_SLEEPRQ, BLK_TA_SPLIT, BLK_TC_ACT, BLK_TC_DISCARD, BLK_TC_DRV_DATA, BLK_TC_NOTIFY,
    BLK_TC_READ, BLK_TC_SYNC, BLK_TC_WRITE,
};
use btstats::error::Error;

fn sample_fields() -> RawTrace {
    *BlkIoTrace::for_test(1, 1).unwrap().trace()
}

fn with_action(action: u32) -> BlkIoTrace {
    let mut raw = sample_fields();
    raw.action = action;
    BlkIoTrace::from_bytes(raw.to_bytes()).unwrap()
}

fn with_bytes(bytes: u32) -> BlkIoTrace {
    let mut raw = sample_fields();
    raw.bytes = bytes;
    BlkIoTrace::from_bytes(raw.to_bytes()).unwrap()
}

#[test]
fn test_format() {
    let trace = BlkIoTrace::for_test(1, 1234567890).unwrap();
    let formatted = trace.to_string();
    assert_eq!(formatted, "2,123 1 1.234567890 Q W 0 1024 + 4096");
}

#[test]
fn test_endianness_correction() {
    let native_trace = BlkIoTrace::for_test(1, 200).unwrap();

    // The same record as a stream of the other byte order holds it.
    let mut non_native_fields = *BlkIoTrace::for_test(1, 200).unwrap().trace();
    non_native_fields.correct_endianness();
    let non_native_trace_buf: [u8; BlkIoTrace::SIZE] = non_native_fields.to_bytes();

    let non_native_trace = BlkIoTrace::from_bytes(non_native_trace_buf).unwrap();

    assert_eq!(native_trace, non_native_trace);
}

#[test]
fn test_blks() {
    assert_eq!(with_bytes(512).blks(), 1);
    assert_eq!(with_bytes(1024).blks(), 2);
    assert_eq!(with_bytes(4096).blks(), 8);
    assert_eq!(with_bytes(0).blks(), 0);
}

#[test]
fn test_io_category() {
    assert_eq!(with_action(BLK_TC_ACT(BLK_TC_READ)).io_category(), IoCategory::Read);
    assert_eq!(with_action(BLK_TC_ACT(BLK_TC_WRITE)).io_category(), IoCategory::Write);
    assert_eq!(with_action(BLK_TC_ACT(BLK_TC_DISCARD)).io_category(), IoCategory::Discard);
    assert_eq!(with_action(BLK_TC_ACT(BLK_TC_SYNC)).io_category(), IoCategory::Unknown);
}

#[test]
fn test_io_action() {
    assert_eq!(with_action(BLK_TA_COMPLETE).io_action(), IoAction::Complete);
    assert_eq!(with_action(BLK_TA_QUEUE).io_action(), IoAction::Queue);
}

#[test]
fn test_real_event() {
    assert!(!with_action(BLK_TC_ACT(BLK_TC_NOTIFY)).real_event());
    assert!(!with_action(BLK_TC_ACT(BLK_TC_DISCARD)).real_event());
    assert!(!with_action(BLK_TC_ACT(BLK_TC_DRV_DATA)).real_event());
    assert!(with_action(BLK_TC_ACT(BLK_TC_READ)).real_event());
}

#[test]
fn test_reduce_time() {
    let mut trace = BlkIoTrace::for_test(1, 100).unwrap();
    trace.reduce_time(10);
    assert_eq!(trace.trace().time, 90);
}

#[test]
fn reduce_time_stops_at_zero() {
    let mut trace = BlkIoTrace::for_test(1, 100).unwrap();
    trace.reduce_time(101);
    assert_eq!(trace.trace().time, 0);
    let mut other = BlkIoTrace::for_test(7, 100).unwrap();
    other.reduce_time(100);
    assert_eq!(other.trace().time, 0);
    assert_eq!(other.trace().sequence, 7);
}

#[test]
fn sample_record_has_its_fields() {
    let trace = BlkIoTrace::for_test(9, 77).unwrap();
    let raw = trace.trace();
    assert_eq!(raw.magic, BLK_IO_TRACE_MAGIC | BLK_IO_TRACE_VERSION);
    assert_eq!(raw.magic, 0x6561_7407);
    assert_eq!(raw.sequence, 9);
    assert_eq!(raw.time, 77);
    assert_eq!(raw.sector, 1024);
    assert_eq!(raw.bytes, 4096);
    assert_eq!(raw.action, 0x0002_0001);
    assert_eq!(raw.pid, 123);
    assert_eq!(raw.device, (253 << 20) | 1);
    assert_eq!(raw.cpu, 2);
    assert_eq!(raw.error, 0);
    assert_eq!(raw.pdu_len, 0);
}

#[test]
fn fields_lie_at_their_offsets() {
    let raw = RawTrace {
        magic: 0x6561_7407,
        sequence: 0x0102_0304,
        time: 0x1112_1314_1516_1718,
        sector: 0x2122_2324_2526_2728,
        bytes: 0x3132_3334,
        action: 0x4142_4344,
        pid: 0x5152_5354,
        device: 0x6162_6364,
        cpu: 0x7172_7374,
        error: 0x8182,
        pdu_len: 0x9192,
    };
    let bytes = raw.to_bytes();
    assert_eq!(&bytes[0..4], &[0x07, 0x74, 0x61, 0x65]);
    assert_eq!(&bytes[4..8], &[0x04, 0x03, 0x02, 0x01]);
    assert_eq!(&bytes[8..16], &[0x18, 0x17, 0x16, 0x15, 0x14, 0x13, 0x12, 0x11]);
    assert_eq!(&bytes[16..24], &[0x28, 0x27, 0x26, 0x25, 0x24, 0x23, 0x22, 0x21]);
    assert_eq!(&bytes[24..28], &[0x34, 0x33, 0x32, 0x31]);
    assert_eq!(&bytes[28..32], &[0x44, 0x43, 0x42, 0x41]);
    assert_eq!(&bytes[32..36], &[0x54, 0x53, 0x52, 0x51]);
    assert_eq!(&bytes[36..40], &[0x64, 0x63, 0x62, 0x61]);
    assert_eq!(&bytes[40..44], &[0x74, 0x73, 0x72, 0x71]);
    assert_eq!(&bytes[44..46], &[0x82, 0x81]);
    assert_eq!(&bytes[46..48], &[0x92, 0x91]);
    assert_eq!(RawTrace::read(&bytes), raw);
    assert_eq!(*BlkIoTrace::from_bytes(bytes).unwrap().trace(), raw);
}

#[test]
fn big_endian_bytes_decode_to_the_same_record() {
    let raw = RawTrace {
        magic: 0x6561_7407,
        sequence: 0x0102_0304,
        time: 0x1112_1314_1516_1718,
        sector: 0x2122_2324_2526_2728,
        bytes: 0x3132_3334,
        action: 0x4142_4344,
        pid: 0x5152_5354,
        device: 0x6162_6364,
        cpu: 0x7172_7374,
        error: 0x8182,
        pdu_len: 0x9192,
    };
    let big_endian: [u8; 48] = [
        0x65, 0x61, 0x74, 0x07, 0x01, 0x02, 0x03, 0x04, 0x11, 0x12, 0x13, 0x14, 0x15, 0x16, 0x17,
        0x18, 0x21, 0x22, 0x23, 0x24, 0x25, 0x26, 0x27, 0x28, 0x31, 0x32, 0x33, 0x34, 0x41, 0x42,
        0x43, 0x44, 0x51, 0x52, 0x53, 0x54, 0x61, 0x62, 0x63, 0x64, 0x71, 0x72, 0x73, 0x74, 0x81,
        0x82, 0x91, 0x92,
    ];
    assert_eq!(RawTrace::read(&big_endian).get_data_endianness(), Endianness::NonNative);
    assert_eq!(*BlkIoTrace::from_bytes(big_endian).unwrap().trace(), raw);
    let mut swapped = raw;
    swapped.correct_endianness();
    assert_eq!(swapped.to_bytes(), big_endian);
}

#[test]
fn swapping_twice_restores_the_fields() {
    let raw = *BlkIoTrace::for_test(0xdead_beef, 0x0123_4567_89ab_cdef).unwrap().trace();
    let mut twice = raw;
    twice.correct_endianness();
    assert_ne!(twice, raw);
    assert_eq!(twice.magic, 0x0774_6165);
    assert_eq!(twice.sequence, 0xefbe_adde);
    assert_eq!(twice.time, 0xefcd_ab89_6745_2301);
    assert_eq!(twice.cpu, 0x0200_0000);
    twice.correct_endianness();
    assert_eq!(twice, raw);
}

#[test]
fn endianness_is_read_from_the_magic() {
    let mut raw = sample_fields();
    assert_eq!(raw.get_data_endianness(), Endianness::Native);
    raw.magic = 0x0774_6165;
    assert_eq!(raw.get_data_endianness(), Endianness::NonNative);
    raw.magic = 0x6561_7500;
    assert_eq!(raw.get_data_endianness(), Endianness::Unknown);
    raw.magic = 0;
    assert_eq!(raw.get_data_endianness(), Endianness::Unknown);
    // Any version byte goes with the magic.
    raw.magic = 0x6561_74ff;
    assert_eq!(raw.get_data_endianness(), Endianness::Native);
}

#[test]
fn bad_magic_is_rejected_whatever_else_the_record_holds() {
    let mut raw = sample_fields();
    raw.magic = 0x6561_7307;
    assert_eq!(BlkIoTrace::from_bytes(raw.to_bytes()), Err(Error::BadMagic));
    raw.sequence = 0xffff_ffff;
    raw.time = u64::MAX;
    raw.action = 0;
    raw.pdu_len = 17;
    assert_eq!(BlkIoTrace::from_bytes(raw.to_bytes()), Err(Error::BadMagic));
    assert_eq!(BlkIoTrace::from_bytes([0u8; 48]), Err(Error::BadMagic));
    assert_eq!(BlkIoTrace::from_bytes([0xffu8; 48]), Err(Error::BadMagic));
}

#[test]
fn decode_keeps_to_the_given_byte_order() {
    let raw = sample_fields();
    let native = raw.to_bytes();
    let mut swapped = raw;
    swapped.correct_endianness();
    let foreign = swapped.to_bytes();
    assert_eq!(*BlkIoTrace::decode(&native, Endianness::Native).unwrap().trace(), raw);
    assert_eq!(*BlkIoTrace::decode(&foreign, Endianness::NonNative).unwrap().trace(), raw);
    assert_eq!(BlkIoTrace::decode(&foreign, Endianness::Native), Err(Error::BadMagic));
    assert_eq!(BlkIoTrace::decode(&native, Endianness::NonNative), Err(Error::BadMagic));
    assert_eq!(BlkIoTrace::decode(&foreign, Endianness::Unknown), Err(Error::BadMagic));
    assert_eq!(*BlkIoTrace::decode(&native, Endianness::Unknown).unwrap().trace(), raw);
}

#[test]
fn write_goes_before_read_and_read_before_discard() {
    let both = BLK_TC_ACT(BLK_TC_READ) | BLK_TC_ACT(BLK_TC_WRITE);
    assert_eq!(with_action(both).io_category(), IoCategory::Write);
    assert_eq!(IoCategory::from(&with_action(both)), IoCategory::Write);
    let read_discard = BLK_TC_ACT(BLK_TC_READ) | BLK_TC_ACT(BLK_TC_DISCARD);
    assert_eq!(with_action(read_discard).io_category(), IoCategory::Read);
    assert_eq!(with_action(0).io_category(), IoCategory::Unknown);
}

#[test]
fn every_action_kind_is_told_apart() {
    let kinds = [
        IoAction::Unknown,
        IoAction::Queue,
        IoAction::BackMerge,
        IoAction::FrontMerge,
        IoAction::GetRequest,
        IoAction::SleepRequest,
        IoAction::Requeue,
        IoAction::Issue,
        IoAction::Complete,
        IoAction::Plug,
        IoAction::UnplugIO,
        IoAction::UnplugTimer,
        IoAction::Insert,
        IoAction::Split,
        IoAction::Bounce,
        IoAction::Remap,
        IoAction::Abort,
        IoAction::DriverData,
        IoAction::Unknown,
    ];
    let letters = "?QMFGSRICPUTASBmXD?";
    for (code, kind) in kinds.iter().enumerate() {
        let trace = with_action(code as u32 | BLK_TC_ACT(BLK_TC_READ));
        assert_eq!(trace.io_action(), *kind);
        assert_eq!(IoAction::from(&trace), *kind);
        assert_eq!(kind.code(), &letters[code..code + 1]);
    }
    assert_eq!(with_action(0xffff).io_action(), IoAction::Unknown);
    // The category bits do not disturb the kind.
    assert_eq!(with_action(0xffff_0000 | BLK_TA_BACKMERGE).io_action(), IoAction::BackMerge);
}

#[test]
fn category_mask_is_shifted_by_sixteen() {
    assert_eq!(BLK_TC_ACT(BLK_TC_READ), 0x0001_0000);
    assert_eq!(BLK_TC_ACT(BLK_TC_WRITE), 0x0002_0000);
    assert_eq!(BLK_TC_ACT(BLK_TC_NOTIFY), 0x0400_0000);
    assert_eq!(BLK_TC_ACT(0x8000), 0x8000_0000);
    assert_eq!(BLK_TC_ACT(0x1_0000), 0);
}

#[test]
fn format_shows_direction_by_precedence() {
    let line = |action: u32| with_action(action).to_string();
    assert_eq!(line(BLK_TA_COMPLETE | BLK_TC_ACT(BLK_TC_READ)), "2,123 1 0.000000001 C R 0 1024 + 4096");
    assert_eq!(
        line(BLK_TA_COMPLETE | BLK_TC_ACT(BLK_TC_READ) | BLK_TC_ACT(BLK_TC_WRITE)),
        "2,123 1 0.000000001 C W 0 1024 + 4096"
    );
    assert_eq!(
        line(BLK_TA_DRV_DATA | BLK_TC_ACT(BLK_TC_DISCARD) | BLK_TC_ACT(BLK_TC_SYNC)),
        "2,123 1 0.000000001 D D 0 1024 + 4096"
    );
    assert_eq!(line(BLK_TA_SPLIT | BLK_TC_ACT(BLK_TC_SYNC)), "2,123 1 0.000000001 S S 0 1024 + 4096");
    assert_eq!(line(BLK_TA_SLEEPRQ), "2,123 1 0.000000001 S N 0 1024 + 4096");
    assert_eq!(line(0x1234), "2,123 1 0.000000001 ? N 0 1024 + 4096");
}

#[test]
fn format_handles_the_largest_values() {
    let raw = RawTrace {
        magic: 0x6561_7407,
        sequence: u32::MAX,
        time: u64::MAX,
        sector: u64::MAX,
        bytes: u32::MAX,
        action: BLK_TA_QUEUE,
        pid: u32::MAX,
        device: 0,
        cpu: u32::MAX,
        error: u16::MAX,
        pdu_len: 0,
    };
    let trace = BlkIoTrace::from_bytes(raw.to_bytes()).unwrap();
    assert_eq!(
        trace.to_string(),
        "4294967295,4294967295 4294967295 18446744073.709551615 Q N 65535 18446744073709551615 + 4294967295"
    );
    let zero = RawTrace { sequence: 0, time: 0, sector: 0, bytes: 0, pid: 0, cpu: 0, error: 0, ..raw };
    let trace = BlkIoTrace::from_bytes(zero.to_bytes()).unwrap();
    assert_eq!(trace.to_string(), "0,0 0 0.000000000 Q N 0 0 + 0");
    let second = RawTrace { time: 1_000_000_000, ..zero };
    let trace = BlkIoTrace::from_bytes(second.to_bytes()).unwrap();
    assert_eq!(trace.to_string(), "0,0 0 1.000000000 Q N 0 0 + 0");
    let nearly = RawTrace { time: 59_999_999_999, ..zero };
    let trace = BlkIoTrace::from_bytes(nearly.to_bytes()).unwrap();
    assert_eq!(trace.to_string(), "0,0 0 59.999999999 Q N 0 0 + 0");
}
