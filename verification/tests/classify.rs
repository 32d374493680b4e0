use n64_memmap::location::{classify, get_segment_region_subregion, mask_address};
use n64_memmap::memory_map::{regions, segments, subregions};
use n64_memmap::table::{all_matches, first_match, Range};

fn count_matches(table: &[Range], address: u32) -> usize {
    table.iter().filter(|r| r.contains(address)).count()
}

#[test]
fn every_sampled_address_has_exactly_one_segment() {
    let table = segments();
    let samples: [u32; 12] = [
        0x0000_0000,
        0x0000_0001,
        0x7FFF_FFFF,
        0x8000_0000,
        0x9FFF_FFFF,
        0xA000_0000,
        0xBFFF_FFFF,
        0xC000_0000,
        0xDFFF_FFFF,
        0xE000_0000,
        0xFFFF_FFFE,
        0xFFFF_FFFF,
    ];
    for address in samples {
        assert_eq!(count_matches(&table, address), 1);
        assert!(first_match(&table, address).is_some());
        assert!(get_segment_region_subregion(address).segment.is_some());
    }
}

#[test]
fn segment_bounds_are_inclusive() {
    let table = segments();
    assert_eq!(first_match(&table, 0x7FFF_FFFF), Some(("U", "KUSEG")));
    assert_eq!(first_match(&table, 0x8000_0000), Some(("0", "KSEG0")));
    assert_eq!(first_match(&table, 0x9FFF_FFFF), Some(("0", "KSEG0")));
    assert_eq!(first_match(&table, 0xA000_0000), Some(("1", "KSEG1")));
    assert_eq!(first_match(&table, 0xC000_0000), Some(("S", "KSSEG")));
    assert_eq!(first_match(&table, 0xFFFF_FFFF), Some(("3", "KSEG3")));
}

#[test]
fn every_sampled_physical_address_has_exactly_one_region() {
    let table = regions();
    let samples: [u32; 14] = [
        0x0000_0000,
        0x03FF_FFFF,
        0x0400_0000,
        0x049F_FFFF,
        0x04A0_0000,
        0x04FF_FFFF,
        0x0500_0000,
        0x1FBF_FFFF,
        0x1FC0_0000,
        0x1FCF_FFFF,
        0x1FD0_0000,
        0x1FFF_FFFF,
        0x1000_0000,
        0x0123_4567,
    ];
    for address in samples {
        assert_eq!(count_matches(&table, address), 1);
    }
}

#[test]
fn every_address_in_steps_has_exactly_one_region() {
    let table = regions();
    let mut address: u32 = 0;
    loop {
        assert_eq!(count_matches(&table, address), 1);
        assert!(get_segment_region_subregion(address).region.is_some());
        match address.checked_add(0x0010_0000) {
            Some(next) => address = next,
            None => break,
        }
    }
}

#[test]
fn rcp_region_runs_up_to_the_first_pi_region() {
    let table = regions();
    assert_eq!(first_match(&table, 0x03FF_FFFF), Some(("R", "RDRAM")));
    assert_eq!(first_match(&table, 0x0400_0000), Some(("G", "RCP")));
    assert_eq!(first_match(&table, 0x049F_FFFF), Some(("G", "RCP")));
    assert_eq!(first_match(&table, 0x04A0_0000), Some(("G", "RCP")));
    assert_eq!(first_match(&table, 0x04FF_FFFF), Some(("G", "RCP")));
    assert_eq!(first_match(&table, 0x0500_0000), Some(("P", "PI 1/2")));
    let location = get_segment_region_subregion(0x04A0_0000);
    assert_eq!(location.region, Some(("G", "RCP")));
    assert_eq!(location.subregions, vec![("RCPu", "Unmapped/fatal")]);
}

#[test]
fn every_subregion_lies_within_one_region() {
    let region_table = regions();
    for subregion in subregions().iter() {
        let at_start = first_match(&region_table, subregion.start);
        let at_end = first_match(&region_table, subregion.end);
        assert!(at_start.is_some());
        assert_eq!(at_start, at_end);
    }
}

#[test]
fn every_region_address_has_a_subregion() {
    let region_table = regions();
    let subregion_table = subregions();
    for region in region_table.iter() {
        assert!(count_matches(&subregion_table, region.start) >= 1);
        assert!(count_matches(&subregion_table, region.end) >= 1);
    }
    let mut address: u32 = 0;
    loop {
        assert_eq!(count_matches(&subregion_table, address), 1);
        match address.checked_add(0x0000_0400) {
            Some(next) if next <= 0x2000_0000 => address = next,
            _ => break,
        }
    }
}

#[test]
fn masking_clears_the_top_three_bits() {
    assert_eq!(mask_address(0x8000_0000), 0x0000_0000);
    assert_eq!(mask_address(0xA3F0_0010), 0x03F0_0010);
    assert_eq!(mask_address(0xFFFF_FFFF), 0x1FFF_FFFF);
    assert_eq!(mask_address(0x1FFF_FFFF), 0x1FFF_FFFF);
    assert_eq!(mask_address(0x2000_0000), 0x0000_0000);
}

#[test]
fn masking_twice_is_masking_once() {
    let samples: [u32; 6] =
        [0x0000_0000, 0x8000_0000, 0xA3F0_0010, 0xFFFF_FFFF, 0x1FFF_FFFF, 0xDEAD_BEEF];
    for address in samples {
        let once = mask_address(address);
        assert_eq!(mask_address(once), once);
    }
}

#[test]
fn start_of_kseg0_is_start_of_rdram() {
    let location = get_segment_region_subregion(0x8000_0000);
    assert_eq!(location.virtual_address, 0x8000_0000);
    assert_eq!(location.physical_address, 0x0000_0000);
    assert_eq!(location.segment, Some(("0", "KSEG0")));
    assert_eq!(location.region, Some(("R", "RDRAM")));
    assert!(location.subregions.contains(&("RDRM", "RDRAM memory-space")));
}

#[test]
fn rdram_registers_through_kseg1() {
    let location = get_segment_region_subregion(0xA3F0_0010);
    assert_eq!(location.virtual_address, 0xA3F0_0010);
    assert_eq!(location.physical_address, 0x03F0_0010);
    assert_eq!(location.segment, Some(("1", "KSEG1")));
    assert_eq!(location.region, Some(("R", "RDRAM")));
    assert_eq!(location.subregions, vec![("RDRR", "RDRAM registers")]);
}

#[test]
fn rsp_registers_have_one_subregion() {
    let location = get_segment_region_subregion(0x0404_0100);
    assert_eq!(location.segment, Some(("U", "KUSEG")));
    assert_eq!(location.region, Some(("G", "RCP")));
    assert_eq!(location.subregions, vec![("RSPR", "RSP Registers")]);
}

#[test]
fn overlapping_subregions_are_all_returned_in_table_order() {
    let table = vec![
        Range::new(0x0000_0000, 0x0000_FFFF, "WIDE", "Catch-all"),
        Range::new(0x0000_1000, 0x0000_1FFF, "DEV", "Device"),
        Range::new(0x0000_2000, 0x0000_2FFF, "OTH", "Other device"),
        Range::new(0x0000_1800, 0x0000_27FF, "MIX", "Straddling"),
    ];
    assert_eq!(
        all_matches(&table, 0x0000_1900),
        vec![("WIDE", "Catch-all"), ("DEV", "Device"), ("MIX", "Straddling")]
    );
    assert_eq!(all_matches(&table, 0x0000_0500), vec![("WIDE", "Catch-all")]);
    assert_eq!(all_matches(&table, 0x0001_0000), Vec::<(&str, &str)>::new());
    let location = classify(&[], &[], &table, 0x8000_1900);
    assert_eq!(
        location.subregions,
        vec![("WIDE", "Catch-all"), ("DEV", "Device"), ("MIX", "Straddling")]
    );
}

#[test]
fn first_of_two_overlapping_ranges_wins() {
    let table = vec![
        Range::new(0x10, 0x2F, "A", "First"),
        Range::new(0x20, 0x3F, "B", "Second"),
    ];
    assert_eq!(first_match(&table, 0x20), Some(("A", "First")));
    assert_eq!(first_match(&table, 0x30), Some(("B", "Second")));
    assert_eq!(first_match(&table, 0x0F), None);
    assert_eq!(first_match(&table, 0x40), None);
    assert_eq!(first_match(&[], 0x20), None);
}

#[test]
fn segment_is_looked_up_unmasked_and_region_masked() {
    let segment_table = vec![Range::new(0xA000_0000, 0xBFFF_FFFF, "1", "KSEG1")];
    let region_table = vec![Range::new(0x0000_0000, 0x03FF_FFFF, "R", "RDRAM")];
    let location = classify(&segment_table, &region_table, &[], 0xA000_0004);
    assert_eq!(location.virtual_address, 0xA000_0004);
    assert_eq!(location.physical_address, 0x0000_0004);
    assert_eq!(location.segment, Some(("1", "KSEG1")));
    assert_eq!(location.region, Some(("R", "RDRAM")));
    assert!(location.subregions.is_empty());
}

#[test]
fn range_holds_both_of_its_bounds() {
    let range = Range::new(0x100, 0x1FF, "X", "Example");
    assert!(!range.contains(0x0FF));
    assert!(range.contains(0x100));
    assert!(range.contains(0x1FF));
    assert!(!range.contains(0x200));
    assert_eq!(range.names(), ("X", "Example"));
}

#[test]
fn tables_have_their_sizes() {
    assert_eq!(segments().len(), 5);
    assert_eq!(regions().len(), 6);
    assert_eq!(subregions().len(), 27);
}
