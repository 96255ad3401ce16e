use vesper_core::proto::{VimgHeader, CMD_PUT, HEADER_SIZE, MAGIC, PIXFMT_RGB888, VERSION};
use vesper_core::terminal_proto::VimgParser;

fn header(version: u8, cmd: u8, w: u32, h: u32, data_len: u32) -> VimgHeader {
    VimgHeader {
        magic: MAGIC,
        version,
        cmd,
        flags: 0,
        x: 0,
        y: 0,
        w,
        h,
        pixfmt: PIXFMT_RGB888,
        reserved: [0, 0, 0],
        data_len,
        crc32: 0,
    }
}

fn packet(h: &VimgHeader, payload: &[u8]) -> Vec<u8> {
    let mut v = h.encode().to_vec();
    v.extend_from_slice(payload);
    v
}

fn scenario_a_bytes(version: u8) -> Vec<u8> {
    let h = VimgHeader { crc32: 0xDEAD_BEEF, ..header(version, CMD_PUT, 1, 1, 3) };
    packet(&h, &[10, 20, 30])
}

/// Feeds `chunks` in turn, recording each result and each callback call.
fn feed_all(p: &mut VimgParser, chunks: &[&[u8]]) -> (Vec<Result<(), ()>>, Vec<(VimgHeader, Vec<u8>)>) {
    let mut results = Vec::new();
    let mut calls = Vec::new();
    for c in chunks {
        let r = p.feed(c, |h, d| {
            calls.push((*h, d.to_vec()));
            Ok(())
        });
        results.push(r);
    }
    (results, calls)
}

#[test]
fn scenario_a_two_fragments() {
    let bytes = scenario_a_bytes(1);
    assert_eq!(bytes.len(), 39);
    let mut p = VimgParser::new();
    let (results, calls) = feed_all(&mut p, &[&bytes[..20], &bytes[20..]]);
    assert_eq!(results, vec![Ok(()), Ok(())]);
    assert_eq!(calls.len(), 1);
    let (h, d) = &calls[0];
    assert_eq!(h.magic, *b"VIMG");
    assert_eq!(h.version, 1);
    assert_eq!(h.cmd, 0x01);
    assert_eq!(h.flags, 0);
    assert_eq!((h.x, h.y, h.w, h.h), (0, 0, 1, 1));
    assert_eq!(h.pixfmt, 0);
    assert_eq!(h.reserved, [0, 0, 0]);
    assert_eq!(h.data_len, 3);
    assert_eq!(h.crc32, 0xDEAD_BEEF);
    assert_eq!(d, &vec![10, 20, 30]);
}

#[test]
fn scenario_b_bad_version_rejected() {
    let bytes = scenario_a_bytes(2);
    let mut p = VimgParser::new();
    let (results, calls) = feed_all(&mut p, &[&bytes[..HEADER_SIZE]]);
    assert_eq!(results, vec![Err(())]);
    assert!(calls.is_empty());
    // The decoder behaves as a fresh one: a valid packet goes through whole.
    let good = scenario_a_bytes(1);
    let (results, calls) = feed_all(&mut p, &[&good[..]]);
    assert_eq!(results, vec![Ok(())]);
    assert_eq!(calls.len(), 1);
    assert_eq!(calls[0].1, vec![10, 20, 30]);
}

#[test]
fn whole_packet_in_one_call() {
    let bytes = scenario_a_bytes(1);
    let mut p = VimgParser::new();
    let (results, calls) = feed_all(&mut p, &[&bytes[..]]);
    assert_eq!(results, vec![Ok(())]);
    assert_eq!(calls.len(), 1);
    assert_eq!(calls[0].0.data_len, 3);
    assert_eq!(calls[0].1, vec![10, 20, 30]);
}

#[test]
fn header_split_byte_by_byte_matches_single_call() {
    let h = VimgHeader { x: 0x0403_0201, y: 7, flags: 0xBEEF, ..header(1, CMD_PUT, 2, 1, 6) };
    let bytes = packet(&h, &[1, 2, 3, 4, 5, 6]);
    let mut whole = VimgParser::new();
    let (_, single) = feed_all(&mut whole, &[&bytes[..]]);

    let mut p = VimgParser::new();
    let mut chunks: Vec<&[u8]> = Vec::new();
    for i in 0..HEADER_SIZE - 1 {
        chunks.push(&bytes[i..i + 1]);
    }
    chunks.push(&bytes[HEADER_SIZE - 1..]);
    let (results, split) = feed_all(&mut p, &chunks);
    assert!(results.iter().all(|r| r.is_ok()));
    assert_eq!(split.len(), 1);
    assert_eq!(split, single);
    assert_eq!(split[0].0.x, 0x0403_0201);
    assert_eq!(split[0].0.flags, 0xBEEF);
}

#[test]
fn zero_length_payload_fires_with_empty_slice() {
    let bytes = packet(&header(1, CMD_PUT, 0, 0, 0), &[]);
    let mut p = VimgParser::new();
    let (results, calls) = feed_all(&mut p, &[&bytes[..10], &bytes[10..]]);
    assert_eq!(results, vec![Ok(()), Ok(())]);
    assert_eq!(calls.len(), 1);
    assert!(calls[0].1.is_empty());
}

#[test]
fn bad_magic_rejected() {
    let mut bytes = scenario_a_bytes(1);
    bytes[0] = b'X';
    let mut p = VimgParser::new();
    let (results, calls) = feed_all(&mut p, &[&bytes[..]]);
    assert_eq!(results, vec![Err(())]);
    assert!(calls.is_empty());
}

#[test]
fn unknown_command_rejected() {
    let bytes = packet(&header(VERSION, 0x02, 1, 1, 3), &[10, 20, 30]);
    let mut p = VimgParser::new();
    let (results, calls) = feed_all(&mut p, &[&bytes[..]]);
    assert_eq!(results, vec![Err(())]);
    assert!(calls.is_empty());
}

#[test]
fn payload_split_across_calls_is_an_error() {
    let bytes = scenario_a_bytes(1);
    let mut p = VimgParser::new();
    let (results, calls) = feed_all(&mut p, &[&bytes[..HEADER_SIZE + 1], &bytes[HEADER_SIZE + 1..]]);
    assert_eq!(results[0], Err(()));
    assert!(calls.is_empty());
    // The two trailing bytes start a new header, which is still incomplete.
    assert_eq!(results[1], Ok(()));
}

#[test]
fn callback_error_is_returned_and_decoder_resets() {
    let bytes = scenario_a_bytes(1);
    let mut p = VimgParser::new();
    let mut seen = 0;
    let r = p.feed(&bytes, |_, _| {
        seen += 1;
        Err(())
    });
    assert_eq!(r, Err(()));
    assert_eq!(seen, 1);
    let (results, calls) = feed_all(&mut p, &[&bytes[..]]);
    assert_eq!(results, vec![Ok(())]);
    assert_eq!(calls.len(), 1);
}

#[test]
fn reserved_and_extra_bytes_are_not_checked() {
    let mut h = header(1, CMD_PUT, 1, 1, 2);
    h.reserved = [1, 2, 3];
    h.crc32 = 0x1234_5678;
    let bytes = packet(&h, &[9, 8, 7, 6]);
    let mut p = VimgParser::new();
    let (results, calls) = feed_all(&mut p, &[&bytes[..]]);
    assert_eq!(results, vec![Ok(())]);
    assert_eq!(calls[0].0.reserved, [1, 2, 3]);
    assert_eq!(calls[0].0.crc32, 0x1234_5678);
    assert_eq!(calls[0].1, vec![9, 8]);
}

#[test]
fn reset_drops_partial_header() {
    let bytes = scenario_a_bytes(1);
    let mut p = VimgParser::new();
    let (_, calls) = feed_all(&mut p, &[&bytes[..5]]);
    assert!(calls.is_empty());
    p.reset();
    let (results, calls) = feed_all(&mut p, &[&bytes[..]]);
    assert_eq!(results, vec![Ok(())]);
    assert_eq!(calls.len(), 1);
}

#[test]
fn encode_writes_little_endian_fields() {
    let h = VimgHeader {
        flags: 0x0201,
        x: 0x0403_0201,
        y: 0x0807_0605,
        w: 640,
        h: 480,
        pixfmt: 1,
        reserved: [0, 0, 0],
        crc32: 0xDEAD_BEEF,
        ..header(1, CMD_PUT, 0, 0, 0x0C0B_0A09)
    };
    let b = h.encode();
    assert_eq!(&b[0..4], b"VIMG");
    assert_eq!(b[4], 1);
    assert_eq!(b[5], 1);
    assert_eq!(&b[6..8], &[1, 2]);
    assert_eq!(&b[8..12], &[1, 2, 3, 4]);
    assert_eq!(&b[12..16], &[5, 6, 7, 8]);
    assert_eq!(&b[16..20], &[0x80, 0x02, 0, 0]);
    assert_eq!(&b[20..24], &[0xE0, 0x01, 0, 0]);
    assert_eq!(b[24], 1);
    assert_eq!(&b[28..32], &[9, 10, 11, 12]);
    assert_eq!(&b[32..36], &[0xEF, 0xBE, 0xAD, 0xDE]);
    let d = VimgHeader::decode(&b);
    assert_eq!(d, h);
    assert!(d.is_valid());
}

#[test]
fn is_valid_checks_magic_version_command() {
    assert!(header(1, CMD_PUT, 1, 1, 0).is_valid());
    assert!(!header(2, CMD_PUT, 1, 1, 0).is_valid());
    assert!(!header(1, 0, 1, 1, 0).is_valid());
    let mut h = header(1, CMD_PUT, 1, 1, 0);
    h.magic = *b"VIMH";
    assert!(!h.is_valid());
}

#[test]
fn header_size_is_thirty_six() {
    assert_eq!(HEADER_SIZE, 36);
    assert_eq!(header(1, CMD_PUT, 0, 0, 0).encode().len(), 36);
}

#[test]
fn scenario_a_checksum_bytes_are_not_payload() {
    let bytes = scenario_a_bytes(1);
    let mut p = VimgParser::new();
    let (_, calls) = feed_all(&mut p, &[&bytes[..HEADER_SIZE - 1], &bytes[HEADER_SIZE - 1..]]);
    assert_eq!(calls.len(), 1);
    assert_eq!(calls[0].1, vec![10, 20, 30]);
}
