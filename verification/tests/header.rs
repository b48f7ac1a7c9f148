use adin1110::header::ControlCommandHeader;

#[test]
fn new_header_is_all_zero() {
    let header = ControlCommandHeader::new();
    assert_eq!(header.into_bits(), 0);
    assert!(!header.parity());
    assert_eq!(header.length(), 0);
    assert_eq!(header.address(), 0);
    assert_eq!(header.memmap(), 0);
    assert!(!header.aid());
    assert!(!header.wnr());
    assert!(!header.hdrb());
}

#[test]
fn default_header_is_all_zero() {
    assert_eq!(ControlCommandHeader::default(), ControlCommandHeader::new());
    assert_eq!(ControlCommandHeader::default().into_bits(), 0);
}

#[test]
fn fields_sit_at_their_places() {
    assert_eq!(ControlCommandHeader::new().with_parity(true).into_bits(), 0x0000_0001);
    assert_eq!(ControlCommandHeader::new().with_length(0x7f).into_bits(), 0x0000_00fe);
    assert_eq!(ControlCommandHeader::new().with_address(0xffff).into_bits(), 0x00ff_ff00);
    assert_eq!(ControlCommandHeader::new().with_memmap(0xf).into_bits(), 0x0f00_0000);
    assert_eq!(ControlCommandHeader::new().with_aid(true).into_bits(), 0x1000_0000);
    assert_eq!(ControlCommandHeader::new().with_wnr(true).into_bits(), 0x2000_0000);
    assert_eq!(ControlCommandHeader::new().with_hdrb(true).into_bits(), 0x4000_0000);
}

#[test]
fn getters_read_what_builders_wrote() {
    let header = ControlCommandHeader::new()
        .with_length(5)
        .with_address(0xbeef)
        .with_memmap(9)
        .with_aid(true)
        .with_wnr(false)
        .with_hdrb(true)
        .with_parity(true);
    assert_eq!(header.length(), 5);
    assert_eq!(header.address(), 0xbeef);
    assert_eq!(header.memmap(), 9);
    assert!(header.aid());
    assert!(!header.wnr());
    assert!(header.hdrb());
    assert!(header.parity());
    assert_eq!(header.into_bits(), 0x59be_ef0b);
}

#[test]
fn builders_leave_other_fields_alone() {
    let full = ControlCommandHeader::from_bits(0xffff_ffff);
    assert_eq!(full.with_parity(false).into_bits(), 0xffff_fffe);
    assert_eq!(full.with_length(0).into_bits(), 0xffff_ff01);
    assert_eq!(full.with_address(0).into_bits(), 0xff00_00ff);
    assert_eq!(full.with_memmap(0).into_bits(), 0xf0ff_ffff);
    assert_eq!(full.with_aid(false).into_bits(), 0xefff_ffff);
    assert_eq!(full.with_wnr(false).into_bits(), 0xdfff_ffff);
    assert_eq!(full.with_hdrb(false).into_bits(), 0xbfff_ffff);
}

#[test]
fn values_too_wide_are_cut_to_the_field() {
    assert_eq!(ControlCommandHeader::new().with_length(0x85).length(), 5);
    assert_eq!(ControlCommandHeader::new().with_length(0xff).into_bits(), 0x0000_00fe);
    assert_eq!(ControlCommandHeader::new().with_memmap(0x1f).memmap(), 0xf);
    assert_eq!(ControlCommandHeader::new().with_memmap(0x10).into_bits(), 0);
}

#[test]
fn parity_bit_set_when_the_rest_is_even() {
    let mut header = ControlCommandHeader::from_bits(0x1000_0100);
    let returned = header.calculate_parity();
    assert_eq!(header.into_bits(), 0x1000_0101);
    assert_eq!(returned, header);
}

#[test]
fn parity_bit_clear_when_the_rest_is_odd() {
    let mut header = ControlCommandHeader::from_bits(0x1000_0000);
    header.calculate_parity();
    assert_eq!(header.into_bits(), 0x1000_0000);
}

#[test]
fn parity_does_not_depend_on_the_old_parity_bit() {
    let mut header = ControlCommandHeader::from_bits(0x0000_0001);
    header.calculate_parity();
    assert_eq!(header.into_bits(), 0x0000_0001);
    let mut header = ControlCommandHeader::from_bits(0x1000_0001);
    header.calculate_parity();
    assert_eq!(header.into_bits(), 0x1000_0000);
}

#[test]
fn calculated_parity_is_always_odd() {
    let words: [u32; 8] = [
        0,
        1,
        0xffff_ffff,
        0xffff_fffe,
        0x8000_0000,
        0x1234_5678,
        0x0fff_ff0a,
        0x3f00_00fe,
    ];
    for word in words {
        let mut header = ControlCommandHeader::from_bits(word);
        header.calculate_parity();
        assert_eq!(header.into_bits().count_ones() % 2, 1);
        assert_eq!(header.into_bits() >> 1, word >> 1);
    }
}

#[test]
fn encode_gives_the_exact_word() {
    assert_eq!(ControlCommandHeader::encode(0, 0x0000, 0, true, false).into_bits(), 0x1000_0000);
    assert_eq!(ControlCommandHeader::encode(0, 0x0001, 0, true, false).into_bits(), 0x1000_0101);
    assert_eq!(ControlCommandHeader::encode(0, 0x0002, 0, true, false).into_bits(), 0x1000_0201);
    assert_eq!(ControlCommandHeader::encode(1, 0x1234, 1, true, true).into_bits(), 0x3112_3402);
    assert_eq!(ControlCommandHeader::encode(127, 0, 15, true, true).into_bits(), 0x3f00_00fe);
}

#[test]
fn encode_cuts_length_and_memmap() {
    let header = ControlCommandHeader::encode(0x85, 0xffff, 0x1f, false, false);
    assert_eq!(header.into_bits(), 0x0fff_ff0b);
    assert_eq!(header.length(), 5);
    assert_eq!(header.memmap(), 0xf);
}

#[test]
fn encode_never_sets_header_bad() {
    let header = ControlCommandHeader::encode(0x7f, 0xffff, 0xf, true, true);
    assert!(!header.hdrb());
    assert_eq!(header.into_bits() >> 31, 0);
}

#[test]
fn header_goes_out_most_significant_byte_first() {
    let header = ControlCommandHeader::encode(1, 0x1234, 1, true, true);
    assert_eq!(header.to_bytes(), [0x31, 0x12, 0x34, 0x02]);
    assert_eq!(ControlCommandHeader::from_bits(0x0102_0304).to_bytes(), [1, 2, 3, 4]);
}

#[test]
fn header_comes_in_most_significant_byte_first() {
    let header = ControlCommandHeader::from_bytes([0x31, 0x12, 0x34, 0x02]);
    assert_eq!(header.into_bits(), 0x3112_3402);
    assert_eq!(header.address(), 0x1234);
    assert_eq!(header.length(), 1);
    assert_eq!(header.memmap(), 1);
    assert!(header.aid());
    assert!(header.wnr());
    assert!(!header.hdrb());
    assert!(!header.parity());
}

#[test]
fn header_round_trip_through_bytes() {
    let words: [u32; 7] = [0, 1, 0xffff_ffff, 0x8000_0000, 0x4000_0000, 0x1234_5678, 0x3112_3402];
    for word in words {
        let header = ControlCommandHeader::from_bits(word);
        assert_eq!(ControlCommandHeader::from_bytes(header.to_bytes()), header);
    }
}

#[test]
fn bytes_round_trip_through_header() {
    let bytes: [u8; 4] = [0xde, 0xad, 0xbe, 0xef];
    assert_eq!(ControlCommandHeader::from_bytes(bytes).to_bytes(), bytes);
}

#[test]
fn received_header_is_ok_looks_at_header_bad_only() {
    assert!(ControlCommandHeader::from_bits(0x0000_0000).received_header_is_ok());
    assert!(ControlCommandHeader::from_bits(0xbfff_ffff).received_header_is_ok());
    assert!(!ControlCommandHeader::from_bits(0x4000_0000).received_header_is_ok());
    assert!(!ControlCommandHeader::from_bits(0xffff_ffff).received_header_is_ok());
}

#[test]
fn received_header_with_bad_parity_is_still_ok() {
    let echoed = ControlCommandHeader::from_bits(0x1000_0001);
    assert_eq!(echoed.into_bits().count_ones() % 2, 0);
    assert!(echoed.received_header_is_ok());
}

#[test]
fn header_converts_from_and_into_a_word() {
    let header: ControlCommandHeader = 0x3112_3402u32.into();
    assert_eq!(header, ControlCommandHeader::from_bits(0x3112_3402));
    let word: u32 = header.into();
    assert_eq!(word, 0x3112_3402);
}
