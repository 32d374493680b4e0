use n64_memmap::location::{
    address_location_to_string, classify, get_segment_region_subregion, mixed_case_code,
    AddressLocation,
};
use n64_memmap::table::Range;

#[test]
fn short_string_of_start_of_kseg0() {
    let location = get_segment_region_subregion(0x8000_0000);
    assert_eq!(address_location_to_string(&location), "0R.RDRM");
}

#[test]
fn short_string_of_rdram_registers() {
    let location = get_segment_region_subregion(0xA3F0_0010);
    assert_eq!(address_location_to_string(&location), "1R.RDRR");
}

#[test]
fn short_string_of_rsp_registers() {
    let location = get_segment_region_subregion(0x0404_0100);
    assert_eq!(address_location_to_string(&location), "UG.RSPR");
}

#[test]
fn short_string_is_upper_case() {
    let location = get_segment_region_subregion(0xA430_0000);
    assert_eq!(location.subregions, vec![("InMI", "MIPS Interface")]);
    assert_eq!(mixed_case_code(&location), "1G.InMI");
    assert_eq!(address_location_to_string(&location), "1G.INMI");
}

#[test]
fn missing_segment_and_region_become_question_marks() {
    let segment_table = vec![Range::new(0x8000_0000, 0x9FFF_FFFF, "0", "KSEG0")];
    let region_table = vec![Range::new(0x0400_0000, 0x04FF_FFFF, "G", "RCP")];
    let subregion_table = vec![Range::new(0x0000_0000, 0x03EF_FFFF, "RDRM", "RDRAM memory-space")];
    let neither = classify(&segment_table, &region_table, &subregion_table, 0x0000_0010);
    assert_eq!(neither.segment, None);
    assert_eq!(neither.region, None);
    assert_eq!(address_location_to_string(&neither), "??.RDRM");
    let no_region = classify(&segment_table, &region_table, &subregion_table, 0x8000_0010);
    assert_eq!(address_location_to_string(&no_region), "0?.RDRM");
    let no_segment = classify(&segment_table, &region_table, &subregion_table, 0x0400_0000);
    assert_eq!(address_location_to_string(&no_segment), "?G.");
}

#[test]
fn unmapped_end_of_the_rcp_region() {
    let location = get_segment_region_subregion(0x04A0_0000);
    assert_eq!(address_location_to_string(&location), "UG.RCPU");
    let through_kseg1 = get_segment_region_subregion(0xA4FF_FFFF);
    assert_eq!(address_location_to_string(&through_kseg1), "1G.RCPU");
}

#[test]
fn no_subregion_leaves_a_trailing_dot() {
    let location = AddressLocation {
        virtual_address: 0,
        physical_address: 0,
        segment: Some(("U", "KUSEG")),
        region: Some(("R", "RDRAM")),
        subregions: Vec::new(),
    };
    assert_eq!(mixed_case_code(&location), "UR.");
    assert_eq!(address_location_to_string(&location), "UR.");
}

#[test]
fn several_subregions_are_joined_by_dots() {
    let location = AddressLocation {
        virtual_address: 0x1900,
        physical_address: 0x1900,
        segment: None,
        region: Some(("r", "Lower-case region")),
        subregions: vec![("Wide", "Catch-all"), ("dev", "Device"), ("X", "Third")],
    };
    assert_eq!(mixed_case_code(&location), "?r.Wide.dev.X");
    assert_eq!(address_location_to_string(&location), "?R.WIDE.DEV.X");
}

#[test]
fn same_location_always_gives_the_same_string() {
    let first = get_segment_region_subregion(0xA460_0010);
    let second = get_segment_region_subregion(0xA460_0010);
    let a = address_location_to_string(&first);
    let b = address_location_to_string(&first);
    let c = address_location_to_string(&second);
    assert_eq!(a, b);
    assert_eq!(a, c);
    assert_eq!(a, "1G.INPI");
}

#[test]
fn ascii_letters_become_capitals_and_nothing_else_changes() {
    let location = AddressLocation {
        virtual_address: 0,
        physical_address: 0,
        segment: Some(("az", "First and last letter")),
        region: Some(("`{", "Neighbours of the letters")),
        subregions: vec![("0-9_@[", "No letters"), ("AZ", "Capitals"), ("m n", "With a space")],
    };
    assert_eq!(mixed_case_code(&location), "az`{.0-9_@[.AZ.m n");
    assert_eq!(address_location_to_string(&location), "AZ`{.0-9_@[.AZ.M N");
}

#[test]
fn letters_outside_ascii_become_capitals_too() {
    let location = AddressLocation {
        virtual_address: 0,
        physical_address: 0,
        segment: Some(("\u{e9}", "Accented")),
        region: Some(("\u{df}", "Sharp s")),
        subregions: vec![("stra\u{df}e", "Street"), ("\u{3b1}b", "Alpha")],
    };
    assert_eq!(mixed_case_code(&location), "\u{e9}\u{df}.stra\u{df}e.\u{3b1}b");
    assert_eq!(address_location_to_string(&location), "\u{c9}SS.STRASSE.\u{391}B");
}

#[test]
fn short_string_of_every_subregion_is_seven_capitals_wide() {
    for subregion in n64_memmap::memory_map::subregions().iter() {
        let location = get_segment_region_subregion(subregion.start);
        let text = address_location_to_string(&location);
        assert_eq!(text.chars().count(), 7);
        assert!(!text.chars().any(|c| c.is_ascii_lowercase()));
        assert_eq!(text, mixed_case_code(&location).to_ascii_uppercase());
    }
}
