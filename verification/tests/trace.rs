use btstats::blk_io_trace::{
    BlkIoTrace, Endianness, RawTrace, BLK_TA_COMPLETE, BLK_TA_QUEUE, BLK_TC_ACT, BLK_TC_DISCARD,
    BLK_TC_DRV_DATA, BLK_TC_NOTIFY, BLK_TC_READ, BLK_TC_WRITE,
};
use btstats::error::Error;
use btstats::trace::{is_trace_file_name, Item, Reader};
use btstats::trace_file::{not_real_event, Action, Framer, TraceFile, TraceReader};

fn fields(sequence: u32, time: u64) -> RawTrace {
    *BlkIoTrace::for_test(sequence, time).unwrap().trace()
}

fn record(sequence: u32, time: u64) -> Vec<u8> {
    fields(sequence, time).to_bytes().to_vec()
}

fn stream(records: &[(u32, u64)]) -> Vec<u8> {
    records.iter().flat_map(|(sequence, time)| record(*sequence, *time)).collect()
}

fn with_payload(sequence: u32, time: u64, action: u32, payload: &[u8]) -> Vec<u8> {
    let mut raw = fields(sequence, time);
    raw.action = action;
    raw.pdu_len = payload.len() as u16;
    let mut bytes = raw.to_bytes().to_vec();
    bytes.extend_from_slice(payload);
    bytes
}

fn big_endian(sequence: u32, time: u64) -> Vec<u8> {
    let mut raw = fields(sequence, time);
    raw.correct_endianness();
    raw.to_bytes().to_vec()
}

fn drain(reader: &mut TraceReader) -> Vec<(u32, u64)> {
    let mut out = Vec::new();
    while let Some(item) = reader.next() {
        let trace = item.unwrap();
        out.push((trace.trace().sequence, trace.trace().time));
    }
    out
}

#[test]
fn trace_test_multi_file_reading() {
    // File 1 holds one record at time 200, file 2 one at time 100.
    let file1 = record(1, 200);
    let file2 = record(2, 100);

    let mut reader = TraceReader::new(vec![file1, file2]).unwrap();

    let event1 = reader.next().unwrap().unwrap();
    assert_eq!(event1.trace().sequence, 2);

    let event2 = reader.next().unwrap().unwrap();
    assert_eq!(event2.trace().sequence, 1);

    assert!(reader.next().is_none());
}

#[test]
fn trace_file_test_multi_file_reading() {
    // The same two files, read by the caller and merged by `Reader`.
    let mut files = vec![TraceFile::new(record(1, 200)), TraceFile::new(record(2, 100))];
    let first: Vec<Item> = files.iter_mut().map(|f| f.next()).collect();
    let mut reader = Reader::new(first).unwrap();
    assert_eq!(reader.genesis(), 100);
    assert_eq!(reader.streams(), 2);

    let slot = reader.earliest().unwrap();
    assert_eq!(slot, 1);
    let event1 = reader.advance(files[slot].next()).unwrap().unwrap();
    assert_eq!(event1.trace().sequence, 2);
    assert_eq!(event1.trace().time, 0);

    let slot = reader.earliest().unwrap();
    assert_eq!(slot, 0);
    let event2 = reader.advance(files[slot].next()).unwrap().unwrap();
    assert_eq!(event2.trace().sequence, 1);
    assert_eq!(event2.trace().time, 100);

    assert_eq!(reader.earliest(), None);
    assert!(reader.advance(None).is_none());
    assert_eq!(reader.streams(), 2);
}

#[test]
fn merge_is_in_order_and_keeps_each_stream() {
    let a = stream(&[(10, 500), (11, 700), (12, 700), (13, 900)]);
    let b = stream(&[(20, 300), (21, 700), (22, 1000)]);
    let c = stream(&[(30, 600)]);
    let mut reader = TraceReader::new(vec![a, b, c]).unwrap();
    let out = drain(&mut reader);
    assert_eq!(
        out,
        vec![
            (20, 0),
            (10, 200),
            (30, 300),
            (11, 400),
            (12, 400),
            (21, 400),
            (13, 600),
            (22, 700)
        ]
    );
    assert!(out.windows(2).all(|w| w[0].1 <= w[1].1));
    assert_eq!(out.iter().map(|r| r.1).min(), Some(0));
    let from_a: Vec<u32> = out.iter().map(|r| r.0).filter(|s| *s / 10 == 1).collect();
    assert_eq!(from_a, vec![10, 11, 12, 13]);
    let from_b: Vec<u32> = out.iter().map(|r| r.0).filter(|s| *s / 10 == 2).collect();
    assert_eq!(from_b, vec![20, 21, 22]);
    assert!(reader.next().is_none());
}

#[test]
fn equal_times_leave_in_order_of_the_streams() {
    let a = stream(&[(1, 50), (2, 50)]);
    let b = stream(&[(3, 50)]);
    let c = stream(&[(4, 50), (5, 60)]);
    let mut reader = TraceReader::new(vec![a, b, c]).unwrap();
    assert_eq!(drain(&mut reader), vec![(1, 0), (2, 0), (3, 0), (4, 0), (5, 10)]);
}

#[test]
fn a_record_before_the_genesis_gets_time_zero() {
    // The second stream goes back in time behind its first record.
    let a = stream(&[(1, 100)]);
    let b = stream(&[(2, 150), (3, 40), (4, 160)]);
    let mut reader = TraceReader::new(vec![a, b]).unwrap();
    assert_eq!(drain(&mut reader), vec![(1, 0), (2, 50), (3, 0), (4, 60)]);
}

#[test]
fn streams_without_records_take_no_part() {
    let notify = with_payload(9, 5, BLK_TA_QUEUE | BLK_TC_ACT(BLK_TC_NOTIFY), &[1, 2, 3]);
    let mut reader =
        TraceReader::new(vec![Vec::new(), stream(&[(1, 70), (2, 80)]), notify]).unwrap();
    assert_eq!(drain(&mut reader), vec![(1, 0), (2, 10)]);
}

#[test]
fn no_streams_is_not_found_and_no_records_is_no_data() {
    assert_eq!(TraceReader::new(Vec::new()).err(), Some(Error::NotFound));
    assert_eq!(Reader::new(Vec::new()).err(), Some(Error::NotFound));
    assert_eq!(TraceReader::new(vec![Vec::new(), Vec::new()]).err(), Some(Error::NoData));
    assert_eq!(Reader::new(vec![None, None, None]).err(), Some(Error::NoData));
    let discard = with_payload(1, 5, BLK_TA_COMPLETE | BLK_TC_ACT(BLK_TC_DISCARD), &[]);
    assert_eq!(TraceReader::new(vec![discard]).err(), Some(Error::NoData));
}

#[test]
fn the_first_failing_stream_stops_the_start() {
    let good = stream(&[(1, 10)]);
    let truncated = record(2, 20)[..47].to_vec();
    let garbage = vec![0u8; 48];
    assert_eq!(
        TraceReader::new(vec![good.clone(), truncated.clone(), garbage.clone()]).err(),
        Some(Error::Truncated)
    );
    assert_eq!(
        TraceReader::new(vec![garbage, good.clone(), truncated]).err(),
        Some(Error::BadMagic)
    );
    let t = BlkIoTrace::for_test(1, 10).unwrap();
    assert_eq!(
        Reader::new(vec![Some(Ok(t)), None, Some(Err(Error::Io)), Some(Err(Error::BadMagic))])
            .err(),
        Some(Error::Io)
    );
    assert_eq!(Reader::new(vec![Some(Err(Error::Io))]).err(), Some(Error::Io));
}

#[test]
fn an_error_in_a_stream_ends_the_whole_merge() {
    let mut broken = stream(&[(1, 100), (2, 200)]);
    broken.extend_from_slice(&[0xaa; 48]);
    let whole = stream(&[(3, 150), (4, 250), (5, 350)]);
    let mut reader = TraceReader::new(vec![broken, whole]).unwrap();
    let first = reader.next().unwrap().unwrap();
    assert_eq!((first.trace().sequence, first.trace().time), (1, 0));
    let second = reader.next().unwrap().unwrap();
    assert_eq!((second.trace().sequence, second.trace().time), (3, 50));
    // Record 2 leaves next; pulling behind it finds the bad frame.
    assert_eq!(reader.next(), Some(Err(Error::BadMagic)));
    assert_eq!(reader.next(), None);
    assert_eq!(reader.next(), None);
}

#[test]
fn reader_counts_pulled_records_from_the_genesis() {
    let a = BlkIoTrace::for_test(1, 1000).unwrap();
    let b = BlkIoTrace::for_test(2, 400).unwrap();
    let mut reader = Reader::new(vec![Some(Ok(a)), None, Some(Ok(b))]).unwrap();
    assert_eq!(reader.genesis(), 400);
    assert_eq!(reader.streams(), 3);
    assert_eq!(reader.earliest(), Some(2));
    let next = BlkIoTrace::for_test(3, 450).unwrap();
    let out = reader.advance(Some(Ok(next))).unwrap().unwrap();
    assert_eq!((out.trace().sequence, out.trace().time), (2, 0));
    assert_eq!(reader.earliest(), Some(2));
    let out = reader.advance(None).unwrap().unwrap();
    assert_eq!((out.trace().sequence, out.trace().time), (3, 50));
    assert_eq!(reader.earliest(), Some(0));
    assert_eq!(reader.advance(Some(Err(Error::Io))), Some(Err(Error::Io)));
    assert_eq!(reader.earliest(), None);
    assert_eq!(reader.advance(Some(Ok(a))), None);
    assert_eq!(reader.streams(), 3);
    assert_eq!(reader.genesis(), 400);
}

#[test]
fn single_stream_keeps_times_as_stored() {
    let mut file = TraceFile::new(stream(&[(1, 500), (2, 400), (3, 900)]));
    let mut seen = Vec::new();
    while let Some(item) = file.next() {
        let trace = item.unwrap();
        seen.push((trace.trace().sequence, trace.trace().time));
    }
    assert_eq!(seen, vec![(1, 500), (2, 400), (3, 900)]);
    assert!(file.next().is_none());
}

#[test]
fn payloads_are_passed_over_and_events_filtered() {
    let mut data = Vec::new();
    data.extend(with_payload(1, 10, BLK_TA_QUEUE | BLK_TC_ACT(BLK_TC_NOTIFY), &[0x65; 100]));
    data.extend(with_payload(2, 20, BLK_TA_QUEUE | BLK_TC_ACT(BLK_TC_READ), &[0x61; 7]));
    data.extend(with_payload(3, 30, BLK_TA_COMPLETE | BLK_TC_ACT(BLK_TC_DISCARD), &[]));
    data.extend(with_payload(4, 40, BLK_TA_COMPLETE | BLK_TC_ACT(BLK_TC_DRV_DATA), &[9; 48]));
    data.extend(with_payload(5, 50, BLK_TA_COMPLETE | BLK_TC_ACT(BLK_TC_WRITE), &[]));
    let mut file = TraceFile::new(data);
    let a = file.next().unwrap().unwrap();
    assert_eq!((a.trace().sequence, a.trace().pdu_len), (2, 7));
    let b = file.next().unwrap().unwrap();
    assert_eq!((b.trace().sequence, b.trace().pdu_len), (5, 0));
    assert_eq!(file.next(), None);
}

#[test]
fn a_short_frame_is_truncated_and_a_short_payload_is_the_end() {
    let mut data = stream(&[(1, 10)]);
    data.extend_from_slice(&record(2, 20)[..10]);
    let mut file = TraceFile::new(data);
    assert_eq!(file.next().unwrap().unwrap().trace().sequence, 1);
    assert_eq!(file.next(), Some(Err(Error::Truncated)));
    assert_eq!(file.next(), None);

    // The payload is announced with 50 bytes, of which only 3 are there.
    let mut raw = fields(7, 70);
    raw.pdu_len = 50;
    let mut data = raw.to_bytes().to_vec();
    data.extend_from_slice(&[1, 2, 3]);
    let mut file = TraceFile::new(data);
    assert_eq!(file.next().unwrap().unwrap().trace().sequence, 7);
    assert_eq!(file.next(), None);

    let mut one = TraceFile::new(vec![0x07]);
    assert_eq!(one.next(), Some(Err(Error::Truncated)));
    assert_eq!(one.next(), None);
    let mut empty = TraceFile::new(Vec::new());
    assert_eq!(empty.next(), None);
}

#[test]
fn byte_order_is_found_once_per_stream() {
    let mut data = big_endian(1, 10);
    data.extend(big_endian(2, 20));
    let mut file = TraceFile::new(data);
    assert_eq!(file.next().unwrap().unwrap(), BlkIoTrace::for_test(1, 10).unwrap());
    assert_eq!(file.next().unwrap().unwrap(), BlkIoTrace::for_test(2, 20).unwrap());
    assert_eq!(file.next(), None);

    // A record of the other byte order in the middle of a stream is bad.
    let mut mixed = record(1, 10);
    mixed.extend(big_endian(2, 20));
    mixed.extend(record(3, 30));
    let mut file = TraceFile::new(mixed);
    assert_eq!(file.next().unwrap().unwrap().trace().sequence, 1);
    assert_eq!(file.next(), Some(Err(Error::BadMagic)));
    assert_eq!(file.next(), None);

    let mut mixed = big_endian(1, 10);
    mixed.extend(record(2, 20));
    let mut file = TraceFile::new(mixed);
    assert_eq!(file.next().unwrap().unwrap().trace().sequence, 1);
    assert_eq!(file.next(), Some(Err(Error::BadMagic)));
}

#[test]
fn framer_says_what_to_do_with_the_source() {
    let mut framer = Framer::new();
    assert_eq!(framer.resume(), Action::Read);
    // A substantive record with a payload: skip, then yield.
    let frame = with_payload(1, 10, BLK_TA_QUEUE | BLK_TC_ACT(BLK_TC_READ), &[0; 12]);
    assert_eq!(framer.on_read(&frame[..48]), Action::Skip(12));
    let yielded = framer.on_skip();
    match yielded {
        Action::Yield(t) => assert_eq!((t.trace().sequence, t.trace().pdu_len), (1, 12)),
        other => panic!("{:?}", other),
    }
    assert_eq!(framer.resume(), Action::Read);
    // A notification with a payload: skip, then read on.
    let frame = with_payload(2, 20, BLK_TC_ACT(BLK_TC_NOTIFY), &[0; 5]);
    assert_eq!(framer.on_read(&frame[..48]), Action::Skip(5));
    assert_eq!(framer.on_skip(), Action::Read);
    // Without payload the verdict comes at once.
    assert_eq!(framer.on_read(&with_payload(3, 30, BLK_TC_ACT(BLK_TC_DISCARD), &[])), Action::Read);
    assert_eq!(
        framer.on_read(&record(4, 40)),
        Action::Yield(BlkIoTrace::for_test(4, 40).unwrap())
    );
    // More than 48 bytes: the rest is ignored.
    let mut long = record(5, 50);
    long.extend_from_slice(&[0xff; 20]);
    assert_eq!(framer.on_read(&long), Action::Yield(BlkIoTrace::for_test(5, 50).unwrap()));
    // A skip that nobody asked for changes nothing.
    assert_eq!(framer.on_skip(), Action::Read);
    // The end closes the stream for good.
    assert_eq!(framer.on_read(&[]), Action::End);
    assert_eq!(framer.resume(), Action::End);
    assert_eq!(framer.on_read(&record(6, 60)), Action::End);
    assert_eq!(framer.on_skip(), Action::End);
}

#[test]
fn framer_closes_on_every_error() {
    let mut framer = Framer::new();
    assert_eq!(framer.on_read(&record(1, 10)[..47]), Action::Fail(Error::Truncated));
    assert_eq!(framer.resume(), Action::End);

    let mut framer = Framer::new();
    assert_eq!(framer.on_read(&[0u8; 48]), Action::Fail(Error::BadMagic));
    assert_eq!(framer.resume(), Action::End);

    let mut framer = Framer::new();
    let frame = with_payload(1, 10, BLK_TA_QUEUE, &[0; 3]);
    assert_eq!(framer.on_read(&frame[..48]), Action::Skip(3));
    assert_eq!(framer.on_failure(), Action::Fail(Error::Io));
    assert_eq!(framer.resume(), Action::End);
    assert_eq!(framer.on_skip(), Action::End);

    let mut framer = Framer::new();
    assert_eq!(framer.on_failure(), Action::Fail(Error::Io));
    assert_eq!(framer.on_read(&record(1, 10)), Action::End);
}

#[test]
fn not_real_event_is_the_opposite_of_real_event() {
    for action in [
        BLK_TC_ACT(BLK_TC_NOTIFY),
        BLK_TC_ACT(BLK_TC_DISCARD),
        BLK_TC_ACT(BLK_TC_DRV_DATA),
        BLK_TC_ACT(BLK_TC_READ) | BLK_TC_ACT(BLK_TC_NOTIFY),
    ] {
        let mut raw = fields(1, 1);
        raw.action = action;
        let t = BlkIoTrace::from_bytes(raw.to_bytes()).unwrap();
        assert!(not_real_event(&t));
        assert!(!t.real_event());
    }
    let t = BlkIoTrace::for_test(1, 1).unwrap();
    assert!(!not_real_event(&t));
    assert!(t.real_event());
    assert_eq!(RawTrace::read(&big_endian(1, 1)).get_data_endianness(), Endianness::NonNative);
}

#[test]
fn trace_files_are_known_by_their_names() {
    assert!(is_trace_file_name("sda.blktrace.0", "sda"));
    assert!(is_trace_file_name("sda.blktrace.17", "sda"));
    assert!(is_trace_file_name("sda.blktrace.", "sda"));
    assert!(is_trace_file_name("sda.blktrace.anything at all", "sda"));
    assert!(is_trace_file_name("test.blktrace.1", "test"));
    assert!(!is_trace_file_name("sda.blktrace", "sda"));
    assert!(!is_trace_file_name("sdb.blktrace.0", "sda"));
    assert!(!is_trace_file_name("sda1.blktrace.0", "sda"));
    assert!(!is_trace_file_name("xsda.blktrace.0", "sda"));
    assert!(!is_trace_file_name("sda.Blktrace.0", "sda"));
    assert!(!is_trace_file_name("", "sda"));
    assert!(!is_trace_file_name("sda", "sda"));
    assert!(is_trace_file_name(".blktrace.0", ""));
    assert!(is_trace_file_name("gerät.blktrace.0", "gerät"));
    assert!(!is_trace_file_name("gerat.blktrace.0", "gerät"));
}

#[test]
fn every_error_has_its_words() {
    assert_eq!(Error::BadMagic.message(), "Bad trace magic");
    assert_eq!(Error::Truncated.message(), "Truncated trace record");
    assert_eq!(Error::Io.message(), "Trace source failed");
    assert_eq!(Error::NotFound.message(), "No trace files found");
    assert_eq!(Error::NoData.message(), "No valid trace events found");
}

#[test]
fn the_crate_root_names_the_main_types() {
    let t: btstats::BlkIoTrace = btstats::BlkIoTrace::for_test(1, 2).unwrap();
    let mut reader: btstats::TraceReader =
        btstats::TraceReader::new(vec![t.trace().to_bytes().to_vec()]).unwrap();
    assert_eq!(reader.next().unwrap().unwrap().trace().time, 0);
    assert_eq!(btstats::Reader::new(Vec::new()).err(), Some(btstats::Error::NotFound));
}
