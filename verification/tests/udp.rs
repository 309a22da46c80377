use vpnparty::udp::{calculate_ip4_checksum, craft_udp_packet, rewrite_ip4_checksum};

const HEADER: [u8; 20] = [
    0x45, 0x00, 0x00, 0x73, 0x00, 0x00, 0x40, 0x00, 0x40, 0x11, 0x00, 0x00, 0xc0, 0xa8, 0x00, 0x01,
    0xc0, 0xa8, 0x00, 0xc7,
];

fn ones_complement_sum(header: &[u8]) -> u16 {
    let mut sum: u32 = 0;
    for pair in header.chunks(2) {
        sum += ((pair[0] as u32) << 8) + pair[1] as u32;
    }
    while sum > 0xFFFF {
        sum = (sum & 0xFFFF) + (sum >> 16);
    }
    !(sum as u16)
}

#[test]
fn ip4_checksum() {
    let input: [u8; 20] = [
        0x45, 0x00, 0x00, 0x73, 0x00, 0x00, 0x40, 0x00, 0x40, 0x11,
        0x00, 0x00, 0xc0, 0xa8, 0x00, 0x01, 0xc0, 0xa8, 0x00, 0xc7,
    ];
    let given_checksum = calculate_ip4_checksum(&input);
    let expected_checksum: u16 = 0xb861u16;
    assert_eq!(given_checksum, expected_checksum);
}

#[test]
fn checksum_of_zero_header_is_all_ones() {
    assert_eq!(calculate_ip4_checksum(&[0u8; 20]), 0xFFFF);
}

#[test]
fn checksum_folds_the_second_carry() {
    // The first fold of the word sum overflows 16 bits again, so that a
    // second fold is due.
    let mut header = [0xFFu8; 20];
    header[10] = 0;
    header[11] = 0;
    header[14] = 0x00;
    header[15] = 0x00;
    header[16] = 0x00;
    header[17] = 0x00;
    header[18] = 0x00;
    header[19] = 0x00;
    header[12] = 0x00;
    header[13] = 0x03;
    // Words: 5 * 0xFFFF + 0x0003 = 0x4FFFE; fold: 0xFFFE + 4 = 0x10002 -> 0x0003.
    assert_eq!(calculate_ip4_checksum(&header), !0x0003u16);
}

#[test]
fn rewrite_writes_the_checksum_field() {
    let mut header = HEADER;
    header[10] = 0xde;
    header[11] = 0xad;
    assert_eq!(rewrite_ip4_checksum(&mut header), Ok(()));
    assert_eq!(header[10], 0xb8);
    assert_eq!(header[11], 0x61);
    let mut expected = HEADER;
    expected[10] = 0xb8;
    expected[11] = 0x61;
    assert_eq!(header, expected);
}

#[test]
fn rewritten_header_sums_to_zero() {
    let mut header = HEADER;
    assert!(rewrite_ip4_checksum(&mut header).is_ok());
    assert_eq!(calculate_ip4_checksum(&header), 0);
    assert_eq!(ones_complement_sum(&header), 0);

    let mut carry = [0xFFu8; 20];
    carry[12] = 0x00;
    carry[13] = 0x03;
    for b in carry[14..20].iter_mut() {
        *b = 0;
    }
    assert!(rewrite_ip4_checksum(&mut carry).is_ok());
    assert_eq!(calculate_ip4_checksum(&carry), 0);
    assert_eq!(ones_complement_sum(&carry), 0);
}

#[test]
fn rewrite_refuses_other_lengths() {
    let mut short = [0x45u8; 19];
    assert_eq!(
        rewrite_ip4_checksum(&mut short),
        Err("Incorrect packet header length.".to_string())
    );
    assert_eq!(short, [0x45u8; 19]);
    let mut long = [0x45u8; 21];
    assert_eq!(
        rewrite_ip4_checksum(&mut long),
        Err("Incorrect packet header length.".to_string())
    );
    assert_eq!(long, [0x45u8; 21]);
    let mut empty: [u8; 0] = [];
    assert!(rewrite_ip4_checksum(&mut empty).is_err());
}

#[test]
fn craft_rewrites_addresses_and_checksum() {
    let mut given: Vec<u8> = HEADER.to_vec();
    given.extend_from_slice(&[0x11, 0x22, 0x33, 0x44, 0x55, 0x66, 0x77, 0x88, 0x99]);
    let src = [10u8, 0, 1, 2];
    let dst = [10u8, 0, 1, 5];
    let out = craft_udp_packet(&given, &src, &dst, None).unwrap();
    assert_eq!(out.len(), given.len());
    assert_eq!(&out[12..16], &src);
    assert_eq!(&out[16..20], &dst);
    assert_eq!(&out[0..10], &given[0..10]);
    assert_eq!(&out[20..], &given[20..]);
    assert_eq!(ones_complement_sum(&out[0..20]), 0);
    assert_eq!(calculate_ip4_checksum(&out[0..20]), 0);
    // 0x4500+0x0073+0x0000+0x4000+0x4011+0x0a00+0x0102+0x0a00+0x0105 = 0xdb8b
    assert_eq!(out[10], 0x24);
    assert_eq!(out[11], 0x74);
}

#[test]
fn craft_sets_the_identification_only_when_given() {
    let src = [192u8, 168, 7, 1];
    let dst = [192u8, 168, 7, 9];
    let kept = craft_udp_packet(&HEADER, &src, &dst, None).unwrap();
    assert_eq!(&kept[4..6], &HEADER[4..6]);
    let set = craft_udp_packet(&HEADER, &src, &dst, Some(0xBEEF)).unwrap();
    assert_eq!(set[4], 0xBE);
    assert_eq!(set[5], 0xEF);
    assert_eq!(&set[0..4], &HEADER[0..4]);
    assert_eq!(&set[6..10], &HEADER[6..10]);
    assert_eq!(&set[12..16], &src);
    assert_eq!(&set[16..20], &dst);
    assert_eq!(ones_complement_sum(&set), 0);
    assert_ne!(&set[10..12], &kept[10..12]);
}

#[test]
fn craft_of_a_bare_header() {
    let out = craft_udp_packet(&HEADER, &[192, 168, 0, 1], &[192, 168, 0, 199], None).unwrap();
    let mut expected = HEADER.to_vec();
    expected[10] = 0xb8;
    expected[11] = 0x61;
    assert_eq!(out, expected);
}

#[test]
fn craft_refuses_a_short_buffer() {
    let short = [0x45u8; 19];
    assert_eq!(
        craft_udp_packet(&short, &[1, 2, 3, 4], &[5, 6, 7, 8], None),
        Err("Packet is shorter than an IPv4 header.".to_string())
    );
    assert!(craft_udp_packet(&[], &[1, 2, 3, 4], &[5, 6, 7, 8], Some(7)).is_err());
}
