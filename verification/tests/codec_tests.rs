use rust_aux::codec::guest_translation_tag_t;

#[test]
fn pack_exact_bit_layout() {
    let tag = guest_translation_tag_t { vpn: 1, asid: 2, perm: 3, is_kernel: true };
    let expected: u64 = (1u64 << 63) | (2u64 << 48) | (1u64 << 12) | 3;
    assert_eq!(tag.pack(), expected);
}

#[test]
fn pack_user_mode_has_no_kernel_bit() {
    let tag = guest_translation_tag_t { vpn: 0xABC, asid: 0x7FFF, perm: 1, is_kernel: false };
    let expected: u64 = (0x7FFFu64 << 48) | (0xABCu64 << 12) | 1;
    assert_eq!(tag.pack(), expected);
}

#[test]
fn parse_exact_fields() {
    let gid: u64 = (1u64 << 63) | (0x1234u64 << 48) | (0x9_8765_4321u64 << 12) | 2;
    let tag = guest_translation_tag_t::parse(gid);
    assert_eq!(tag.vpn, 0x9_8765_4321);
    assert_eq!(tag.asid, 0x1234);
    assert_eq!(tag.perm, 2);
    assert!(tag.is_kernel);
}

#[test]
fn round_trip_in_range_fields() {
    let tag = guest_translation_tag_t { vpn: 0xF_FFFF_FFFF, asid: 0x7FFF, perm: 3, is_kernel: true };
    let back = guest_translation_tag_t::parse(tag.pack());
    assert_eq!(back, tag);

    let tag2 = guest_translation_tag_t { vpn: 42, asid: 7, perm: 0, is_kernel: false };
    let back2 = guest_translation_tag_t::parse(tag2.pack());
    assert_eq!(back2, tag2);
}

#[test]
fn round_trip_masks_wide_inputs() {
    // Inputs wider than their field are silently truncated to field width.
    let tag = guest_translation_tag_t {
        vpn: 0xFFFF_FFFF_FFFF_FFFF,
        asid: 0xFFFF_FFFF,
        perm: 0xFF,
        is_kernel: true,
    };
    let back = guest_translation_tag_t::parse(tag.pack());
    assert_eq!(back.vpn, 0xF_FFFF_FFFF);
    assert_eq!(back.asid, 0x7FFF);
    assert_eq!(back.perm, 3);
    assert!(back.is_kernel);
}

#[test]
fn parse_zero_is_all_clear() {
    let tag = guest_translation_tag_t::parse(0);
    assert_eq!(tag.vpn, 0);
    assert_eq!(tag.asid, 0);
    assert_eq!(tag.perm, 0);
    assert!(!tag.is_kernel);
}
