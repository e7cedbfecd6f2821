use silocut::codec::{avcc_to_annex_b, parse_avcc, to_annex_b};

#[test]
fn avcc_parse_roundtrip() {
    // version, profile, compat, level, length size 4, one SPS
    let sps = [0x67u8, 0x42, 0x00, 0x0a];
    let pps = [0x68u8, 0xce, 0x38, 0x80];
    let mut avcc = vec![1, 0x42, 0x00, 0x0a, 0xff, 0xe1];
    avcc.extend_from_slice(&(sps.len() as u16).to_be_bytes());
    avcc.extend_from_slice(&sps);
    avcc.push(1);
    avcc.extend_from_slice(&(pps.len() as u16).to_be_bytes());
    avcc.extend_from_slice(&pps);

    let (hdr, ls) = parse_avcc(&avcc).expect("avcC should parse");
    assert_eq!(ls, 4);
    let expected: Vec<u8> = [&[0, 0, 0, 1][..], &sps[..], &[0, 0, 0, 1][..], &pps[..]].concat();
    assert_eq!(hdr, expected);
}

#[test]
fn to_annex_b_converts_length_prefixed() {
    let nal = [0x65u8, 0x11, 0x22, 0x33];
    let mut data = (nal.len() as u32).to_be_bytes().to_vec();
    data.extend_from_slice(&nal);
    let out = to_annex_b(&data, 4);
    assert_eq!(out, [&[0, 0, 0, 1][..], &nal[..]].concat());
}

#[test]
fn in_place_conversion() {
    let mut data = vec![0u8, 0, 0, 2, 7, 8, 0, 0, 0, 0, 0, 0, 0, 1, 9];
    avcc_to_annex_b(&mut data);
    assert_eq!(data, vec![0u8, 0, 0, 1, 7, 8, 0, 0, 0, 1, 0, 0, 0, 1, 9]);
}
