use std::io::{Read, Write as IoWrite};

use collector::calendar::{civil_from_day, date_string, day_of_ts, next_midnight_after};
use collector::record::format_record;
use collector::rotate::{RotatingFile, Writer};

const NANOS_PER_SEC: i64 = 1_000_000_000;
// 2024-01-01T00:00:00Z in epoch seconds.
const JAN1_2024: i64 = 1_704_067_200;

#[test]
fn record_line_is_timestamp_space_payload_newline() {
    let line = format_record(1234567890, &b"abc def".to_vec());
    assert_eq!(line, b"1234567890 abc def\n".to_vec());
}

#[test]
fn record_line_zero_and_negative_timestamps() {
    assert_eq!(format_record(0, &b"x".to_vec()), b"0 x\n".to_vec());
    assert_eq!(format_record(-42, &b"x".to_vec()), b"-42 x\n".to_vec());
}

#[test]
fn epoch_day_zero_is_january_first_1970() {
    let d = civil_from_day(0);
    assert_eq!((d.year, d.month, d.day), (1970, 1, 1));
    assert_eq!(date_string(&d), "19700101");
}

#[test]
fn leap_day_2024() {
    // 2024-02-29T06:00:00Z
    let ts = (JAN1_2024 + 59 * 86_400 + 6 * 3600) * NANOS_PER_SEC;
    let d = civil_from_day(day_of_ts(ts));
    assert_eq!(date_string(&d), "20240229");
}

#[test]
fn next_midnight_is_strictly_after() {
    let midnight = JAN1_2024 * NANOS_PER_SEC;
    assert_eq!(next_midnight_after(midnight), (JAN1_2024 + 86_400) * NANOS_PER_SEC);
    let noon = (JAN1_2024 + 43_200) * NANOS_PER_SEC;
    assert_eq!(next_midnight_after(noon), (JAN1_2024 + 86_400) * NANOS_PER_SEC);
}

#[test]
fn rotating_file_names_embed_utc_date() {
    let ts = (JAN1_2024 + 43_200) * NANOS_PER_SEC;
    let (rf, name) = RotatingFile::new(ts, "logs/btcusdt".to_string());
    assert_eq!(name, "logs/btcusdt_20240101.gz");
    assert_eq!(rf.next_rotation, (JAN1_2024 + 86_400) * NANOS_PER_SEC);
}

#[test]
fn one_rotation_across_a_day_boundary() {
    let noon = (JAN1_2024 + 43_200) * NANOS_PER_SEC;
    let (mut rf, _) = RotatingFile::new(noon, "logs/btcusdt".to_string());
    let evening = (JAN1_2024 + 82_800) * NANOS_PER_SEC;
    let s1 = rf.write(evening, &b"a".to_vec());
    assert!(s1.rotate_to.is_none());
    // 00:30 the next day: the boundary is reached, the record goes to the
    // new file.
    let next_day = (JAN1_2024 + 86_400 + 1_800) * NANOS_PER_SEC;
    let s2 = rf.write(next_day, &b"b".to_vec());
    assert_eq!(s2.rotate_to.as_deref(), Some("logs/btcusdt_20240102.gz"));
    // Later the same day: no second rotation.
    let later = (JAN1_2024 + 86_400 + 50_000) * NANOS_PER_SEC;
    let s3 = rf.write(later, &b"c".to_vec());
    assert!(s3.rotate_to.is_none());
    assert_eq!(rf.next_rotation, (JAN1_2024 + 2 * 86_400) * NANOS_PER_SEC);
}

#[test]
fn writer_creates_one_file_per_symbol() {
    let ts = (JAN1_2024 + 100) * NANOS_PER_SEC;
    let mut w = Writer::new("logs");
    let s1 = w.write(ts, "BTCUSDT", &b"x".to_vec());
    assert_eq!(s1.opened.as_deref(), Some("logs/btcusdt_20240101.gz"));
    let s2 = w.write(ts + NANOS_PER_SEC, "BTCUSDT", &b"y".to_vec());
    assert!(s2.opened.is_none());
    assert!(s2.rotate_to.is_none());
}

#[test]
fn writer_file_names_are_case_insensitive() {
    let ts = (JAN1_2024 + 100) * NANOS_PER_SEC;
    let mut w1 = Writer::new("logs");
    let mut w2 = Writer::new("logs");
    let upper = w1.write(ts, "BTCUSDT", &b"x".to_vec());
    let lower = w2.write(ts, "btcusdt", &b"x".to_vec());
    assert_eq!(upper.opened, lower.opened);
    assert_eq!(upper.opened.as_deref(), Some("logs/btcusdt_20240101.gz"));
}

#[test]
fn writer_merges_case_variant_spellings_into_one_log() {
    let ts = (JAN1_2024 + 100) * NANOS_PER_SEC;
    let mut w = Writer::new("logs");
    let first = w.write(ts, "BTCUSDT", &b"x".to_vec());
    assert_eq!(first.opened.as_deref(), Some("logs/btcusdt_20240101.gz"));
    // A different spelling of the same symbol reuses the open log instead
    // of opening a second stream aimed at the same file.
    let second = w.write(ts + NANOS_PER_SEC, "btcUsdt", &b"y".to_vec());
    assert!(second.opened.is_none());
    assert!(second.rotate_to.is_none());
}

#[test]
fn writer_rotates_at_day_boundary() {
    let mut w = Writer::new("logs");
    let ts1 = (JAN1_2024 + 82_800) * NANOS_PER_SEC;
    let s1 = w.write(ts1, "ETHUSDT", &b"a".to_vec());
    assert_eq!(s1.opened.as_deref(), Some("logs/ethusdt_20240101.gz"));
    let ts2 = (JAN1_2024 + 86_400 + 10) * NANOS_PER_SEC;
    let s2 = w.write(ts2, "ETHUSDT", &b"b".to_vec());
    assert!(s2.opened.is_none());
    assert_eq!(s2.rotate_to.as_deref(), Some("logs/ethusdt_20240102.gz"));
}

#[test]
fn finalized_file_roundtrips_to_the_written_records() {
    let base = (JAN1_2024 + 1_000) * NANOS_PER_SEC;
    let records: Vec<(i64, &[u8])> = vec![
        (base, br#"{"a":1}"#),
        (base + 5, br#"{"b":[2,3]}"#),
        (base + 9, br#"{"c":"d e f"}"#),
    ];
    let mut body: Vec<u8> = Vec::new();
    let (mut rf, _) = RotatingFile::new(base, "logs/ethusdt".to_string());
    for (ts, payload) in &records {
        let step = rf.write(*ts, &payload.to_vec());
        assert!(step.rotate_to.is_none());
        body.extend_from_slice(&step.line);
    }

    // Compress as the sink would, finalize, then read it back.
    let mut enc = flate2::write::GzEncoder::new(Vec::new(), flate2::Compression::fast());
    enc.write_all(&body).unwrap();
    let compressed = enc.finish().unwrap();
    let mut dec = flate2::read::GzDecoder::new(&compressed[..]);
    let mut recovered = Vec::new();
    dec.read_to_end(&mut recovered).unwrap();
    assert_eq!(recovered, body);

    // Splitting on newline recovers the write-ordered (timestamp, payload)
    // pairs exactly.
    let lines: Vec<&[u8]> = recovered.split(|b| *b == b'\n').filter(|l| !l.is_empty()).collect();
    assert_eq!(lines.len(), records.len());
    for (line, (ts, payload)) in lines.iter().zip(records.iter()) {
        let sp = line.iter().position(|b| *b == b' ').unwrap();
        let ts_str = std::str::from_utf8(&line[..sp]).unwrap();
        assert_eq!(ts_str.parse::<i64>().unwrap(), *ts);
        assert_eq!(&line[sp + 1..], *payload);
    }
}
