use castzura::nal::{NalReader, ReadOutcome};
use castzura::pw_source::PwSource;

const SPS: [u8; 6] = [0, 0, 0, 1, 0x67, 0x42];
const PPS: [u8; 6] = [0, 0, 0, 1, 0x68, 0xce];
const IDR: [u8; 8] = [0, 0, 0, 1, 0x65, 1, 2, 3];

fn stream() -> Vec<u8> {
    let mut data: Vec<u8> = Vec::new();
    data.extend_from_slice(&SPS);
    data.extend_from_slice(&PPS);
    data.extend_from_slice(&IDR);
    data
}

#[test]
fn finds_the_first_start_code() {
    assert_eq!(PwSource::find_start_code(&[0, 0, 0, 1], 0), Some(0));
    assert_eq!(PwSource::find_start_code(&[9, 0, 0, 0, 1, 0, 0, 0, 1], 0), Some(1));
    assert_eq!(PwSource::find_start_code(&[9, 0, 0, 0, 1, 0, 0, 0, 1], 1), Some(1));
    assert_eq!(PwSource::find_start_code(&[9, 0, 0, 0, 1, 0, 0, 0, 1], 2), Some(5));
    assert_eq!(PwSource::find_start_code(&[0, 0, 0, 0, 1], 0), Some(1));
}

#[test]
fn finds_no_start_code_where_there_is_none() {
    assert_eq!(PwSource::find_start_code(&[], 0), None);
    assert_eq!(PwSource::find_start_code(&[0, 0, 0], 0), None);
    assert_eq!(PwSource::find_start_code(&[0, 0, 1, 0, 0, 2], 0), None);
    assert_eq!(PwSource::find_start_code(&[0, 0, 0, 1], 1), None);
    assert_eq!(PwSource::find_start_code(&[0, 0, 0, 1], 100), None);
    assert_eq!(PwSource::find_start_code(&[0, 0, 0, 1], usize::MAX), None);
}

#[test]
fn sends_a_unit_once_the_next_one_begins() {
    let mut reader = NalReader::new();
    let step = reader.on_read(ReadOutcome::Bytes(&SPS));
    assert!(step.sent.is_empty());
    assert!(!step.stop);
    let step = reader.on_read(ReadOutcome::Bytes(&PPS));
    assert_eq!(step.sent, vec![SPS.to_vec()]);
    let step = reader.on_read(ReadOutcome::Bytes(&IDR));
    assert_eq!(step.sent, vec![PPS.to_vec()]);
    let step = reader.on_read(ReadOutcome::Bytes(&[]));
    assert_eq!(step.sent, vec![IDR.to_vec()]);
    assert!(step.stop);
}

#[test]
fn sends_several_units_of_one_read() {
    let mut reader = NalReader::new();
    let step = reader.on_read(ReadOutcome::Bytes(&stream()));
    assert_eq!(step.sent, vec![SPS.to_vec(), PPS.to_vec()]);
}

#[test]
fn the_cut_into_reads_does_not_matter() {
    let data = stream();
    for size in 1..data.len() + 1 {
        let mut reader = NalReader::new();
        let mut sent: Vec<Vec<u8>> = Vec::new();
        for chunk in data.chunks(size) {
            sent.extend(reader.on_read(ReadOutcome::Bytes(chunk)).sent);
        }
        assert_eq!(sent, vec![SPS.to_vec(), PPS.to_vec()]);
        sent.extend(reader.on_read(ReadOutcome::Bytes(&[])).sent);
        assert_eq!(sent.concat(), data);
    }
}

#[test]
fn drops_what_stands_before_the_first_unit() {
    let mut data = vec![7, 7, 7];
    data.extend_from_slice(&stream());
    let mut reader = NalReader::new();
    let step = reader.on_read(ReadOutcome::Bytes(&data));
    assert_eq!(step.sent, vec![SPS.to_vec(), PPS.to_vec()]);
}

#[test]
fn sends_everything_at_the_end_if_no_unit_was_complete() {
    let mut reader = NalReader::new();
    assert!(reader.on_read(ReadOutcome::Bytes(&[7, 7, 0, 0, 0, 1, 5])).sent.is_empty());
    let step = reader.on_read(ReadOutcome::Bytes(&[]));
    assert_eq!(step.sent, vec![vec![7, 7, 0, 0, 0, 1, 5]]);
    assert!(step.stop);
}

#[test]
fn sends_nothing_at_the_end_of_an_empty_stream() {
    let mut reader = NalReader::new();
    let step = reader.on_read(ReadOutcome::Bytes(&[]));
    assert!(step.sent.is_empty());
    assert!(step.stop);
}

#[test]
fn sends_nothing_more_after_a_failed_read() {
    let mut reader = NalReader::new();
    reader.on_read(ReadOutcome::Bytes(&SPS));
    let step = reader.on_read(ReadOutcome::Failed);
    assert!(step.sent.is_empty());
    assert!(step.stop);
}

#[test]
fn three_byte_start_codes_do_not_split() {
    let mut reader = NalReader::new();
    let step = reader.on_read(ReadOutcome::Bytes(&[0, 0, 0, 1, 9, 0, 0, 1, 8, 0, 0, 0, 1]));
    assert_eq!(step.sent, vec![vec![0, 0, 0, 1, 9, 0, 0, 1, 8]]);
}
