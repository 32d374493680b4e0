//! The three tables of the Nintendo 64 memory map: the segments of the
//! virtual address space, and the regions and subregions of the physical one.

use crate::table::{
    all_matches_spec, first_match_spec, no_match, sole_match_is_every_match, table_view,
    unique_match, Range, RangeView,
};
use crate::text::is_ascii_text;
use vstd::prelude::*;

verus! {

/// The highest physical address: a virtual address without its top three bits.
pub const PHYSICAL_MASK: u32 = 0x1FFF_FFFF;

/// The value of one table entry.
pub open spec fn entry(start: u32, end: u32, short_name: &str, long_name: &str) -> RangeView {
    RangeView { start, end, short_name: short_name@, long_name: long_name@ }
}

/// The segments of the virtual address space.
pub open spec fn segment_table() -> Seq<RangeView> {
    seq![
        entry(0x0000_0000, 0x7FFF_FFFF, "U", "KUSEG"),
        entry(0x8000_0000, 0x9FFF_FFFF, "0", "KSEG0"),
        entry(0xA000_0000, 0xBFFF_FFFF, "1", "KSEG1"),
        entry(0xC000_0000, 0xDFFF_FFFF, "S", "KSSEG"),
        entry(0xE000_0000, 0xFFFF_FFFF, "3", "KSEG3"),
    ]
}

/// The regions of the physical address space. Each region ends where the
/// next begins: the RCP region runs up to the start of the first PI region,
/// so that it takes the unmapped stretch behind its interfaces as its
/// subregions do.
pub open spec fn region_table() -> Seq<RangeView> {
    seq![
        entry(0x0000_0000, 0x03FF_FFFF, "R", "RDRAM"),
        entry(0x0400_0000, 0x04FF_FFFF, "G", "RCP"),
        entry(0x0500_0000, 0x1FBF_FFFF, "P", "PI 1/2"),
        entry(0x1FC0_0000, 0x1FCF_FFFF, "S", "SI"),
        entry(0x1FD0_0000, 0x7FFF_FFFF, "B", "PI 2/2"),
        entry(0x8000_0000, 0xFFFF_FFFF, "U", "Unmapped"),
    ]
}

/// The devices and unmapped stretches within the regions.
pub open spec fn subregion_table() -> Seq<RangeView> {
    seq![
        entry(0x0000_0000, 0x03EF_FFFF, "RDRM", "RDRAM memory-space"),
        entry(0x03F0_0000, 0x03F7_FFFF, "RDRR", "RDRAM registers"),
        entry(0x03F8_0000, 0x03FF_FFFF, "RDRB", "RDRAM broadcast registers"),
        entry(0x0400_0000, 0x0400_0FFF, "RSPD", "RSP Data Memory"),
        entry(0x0400_1000, 0x0400_1FFF, "RSPI", "RSP Instruction Memory"),
        entry(0x0400_2000, 0x0403_FFFF, "RSPM", "RSP DMEM/IMEM Mirrors"),
        entry(0x0404_0000, 0x040B_FFFF, "RSPR", "RSP Registers"),
        entry(0x040C_0000, 0x040F_FFFF, "RCPU", "Unmapped/fatal"),
        entry(0x0410_0000, 0x041F_FFFF, "RDPC", "RDP Command Registers"),
        entry(0x0420_0000, 0x042F_FFFF, "RDPS", "RDP Span Registers"),
        entry(0x0430_0000, 0x043F_FFFF, "InMI", "MIPS Interface"),
        entry(0x0440_0000, 0x044F_FFFF, "InVI", "Video Interface"),
        entry(0x0450_0000, 0x045F_FFFF, "InAI", "Audio Interface"),
        entry(0x0460_0000, 0x046F_FFFF, "InPI", "Peripheral Interface"),
        entry(0x0470_0000, 0x047F_FFFF, "InRI", "RDRAM Interface"),
        entry(0x0480_0000, 0x048F_FFFF, "InSI", "Serial Interface"),
        entry(0x0490_0000, 0x04FF_FFFF, "RCPu", "Unmapped/fatal"),
        entry(0x0500_0000, 0x05FF_FFFF, "NDDR", "N64DD Registers"),
        entry(0x0600_0000, 0x07FF_FFFF, "NDDI", "N64DD IPL ROM"),
        entry(0x0800_0000, 0x0FFF_FFFF, "CSRM", "Cartridge SRAM"),
        entry(0x1000_0000, 0x1FBF_FFFF, "CROM", "Cartridge ROM"),
        entry(0x1FC0_0000, 0x1FC0_07BF, "PIFR", "PIF ROM"),
        entry(0x1FC0_07C0, 0x1FC0_07FF, "PIFR", "PIF RAM"),
        entry(0x1FC0_0800, 0x1FCF_FFFF, "RSVD", "Reserved"),
        entry(0x1FD0_0000, 0x1FFF_FFFF, "UPB1", "Unused / PI BUS Domain 1"),
        entry(0x2000_0000, 0x7FFF_FFFF, "UCPA", "Unused / PI BUS Domain 1 [CPU Accessible]"),
        entry(0x8000_0000, 0xFFFF_FFFF, "UNMP", "Unmapped/fatal"),
    ]
}

/// Builds the segment table.
pub fn segments() -> (t: [Range; 5])
    ensures
        table_view(t@) == segment_table(),
{
    let t = [
        Range::new(0x0000_0000, 0x7FFF_FFFF, "U", "KUSEG"),
        Range::new(0x8000_0000, 0x9FFF_FFFF, "0", "KSEG0"),
        Range::new(0xA000_0000, 0xBFFF_FFFF, "1", "KSEG1"),
        Range::new(0xC000_0000, 0xDFFF_FFFF, "S", "KSSEG"),
        Range::new(0xE000_0000, 0xFFFF_FFFF, "3", "KSEG3"),
    ];
    assert(table_view(t@) =~= segment_table());
    t
}

/// Builds the region table.
pub fn regions() -> (t: [Range; 6])
    ensures
        table_view(t@) == region_table(),
{
    let t = [
        Range::new(0x0000_0000, 0x03FF_FFFF, "R", "RDRAM"),
        Range::new(0x0400_0000, 0x04FF_FFFF, "G", "RCP"),
        Range::new(0x0500_0000, 0x1FBF_FFFF, "P", "PI 1/2"),
        Range::new(0x1FC0_0000, 0x1FCF_FFFF, "S", "SI"),
        Range::new(0x1FD0_0000, 0x7FFF_FFFF, "B", "PI 2/2"),
        Range::new(0x8000_0000, 0xFFFF_FFFF, "U", "Unmapped"),
    ];
    assert(table_view(t@) =~= region_table());
    t
}

/// Builds the subregion table.
pub fn subregions() -> (t: [Range; 27])
    ensures
        table_view(t@) == subregion_table(),
{
    let t = [
        Range::new(0x0000_0000, 0x03EF_FFFF, "RDRM", "RDRAM memory-space"),
        Range::new(0x03F0_0000, 0x03F7_FFFF, "RDRR", "RDRAM registers"),
        Range::new(0x03F8_0000, 0x03FF_FFFF, "RDRB", "RDRAM broadcast registers"),
        Range::new(0x0400_0000, 0x0400_0FFF, "RSPD", "RSP Data Memory"),
        Range::new(0x0400_1000, 0x0400_1FFF, "RSPI", "RSP Instruction Memory"),
        Range::new(0x0400_2000, 0x0403_FFFF, "RSPM", "RSP DMEM/IMEM Mirrors"),
        Range::new(0x0404_0000, 0x040B_FFFF, "RSPR", "RSP Registers"),
        Range::new(0x040C_0000, 0x040F_FFFF, "RCPU", "Unmapped/fatal"),
        Range::new(0x0410_0000, 0x041F_FFFF, "RDPC", "RDP Command Registers"),
        Range::new(0x0420_0000, 0x042F_FFFF, "RDPS", "RDP Span Registers"),
        Range::new(0x0430_0000, 0x043F_FFFF, "InMI", "MIPS Interface"),
        Range::new(0x0440_0000, 0x044F_FFFF, "InVI", "Video Interface"),
        Range::new(0x0450_0000, 0x045F_FFFF, "InAI", "Audio Interface"),
        Range::new(0x0460_0000, 0x046F_FFFF, "InPI", "Peripheral Interface"),
        Range::new(0x0470_0000, 0x047F_FFFF, "InRI", "RDRAM Interface"),
        Range::new(0x0480_0000, 0x048F_FFFF, "InSI", "Serial Interface"),
        Range::new(0x0490_0000, 0x04FF_FFFF, "RCPu", "Unmapped/fatal"),
        Range::new(0x0500_0000, 0x05FF_FFFF, "NDDR", "N64DD Registers"),
        Range::new(0x0600_0000, 0x07FF_FFFF, "NDDI", "N64DD IPL ROM"),
        Range::new(0x0800_0000, 0x0FFF_FFFF, "CSRM", "Cartridge SRAM"),
        Range::new(0x1000_0000, 0x1FBF_FFFF, "CROM", "Cartridge ROM"),
        Range::new(0x1FC0_0000, 0x1FC0_07BF, "PIFR", "PIF ROM"),
        Range::new(0x1FC0_07C0, 0x1FC0_07FF, "PIFR", "PIF RAM"),
        Range::new(0x1FC0_0800, 0x1FCF_FFFF, "RSVD", "Reserved"),
        Range::new(0x1FD0_0000, 0x1FFF_FFFF, "UPB1", "Unused / PI BUS Domain 1"),
        Range::new(0x2000_0000, 0x7FFF_FFFF, "UCPA", "Unused / PI BUS Domain 1 [CPU Accessible]"),
        Range::new(0x8000_0000, 0xFFFF_FFFF, "UNMP", "Unmapped/fatal"),
    ];
    assert(table_view(t@) =~= subregion_table());
    t
}

/// The position in the segment table of the segment that holds `address`.
pub open spec fn segment_index(address: u32) -> int {
    if address <= 0x7FFF_FFFF {
        0
    } else if address <= 0x9FFF_FFFF {
        1
    } else if address <= 0xBFFF_FFFF {
        2
    } else if address <= 0xDFFF_FFFF {
        3
    } else {
        4
    }
}

/// Every virtual address lies in exactly one segment: the lookup finds that
/// segment, and no other range of the table holds the address.
pub proof fn segments_partition_address_space(address: u32)
    ensures
        unique_match(segment_table(), address),
        first_match_spec(segment_table(), address) == Some(
            segment_table()[segment_index(address)].names(),
        ),
        all_matches_spec(segment_table(), address).len() == 1,
{
    let t = segment_table();
    let i = segment_index(address);
    assert(t[i].contains(address));
    assert forall|j: int| 0 <= j < t.len() && (#[trigger] t[j]).contains(address) implies j
        == i by {}
    sole_match_is_every_match(t, address, i);
}

/// The position in the region table of the region that holds `address`.
pub open spec fn region_index(address: u32) -> int {
    if address <= 0x03FF_FFFF {
        0
    } else if address <= 0x04FF_FFFF {
        1
    } else if address <= 0x1FBF_FFFF {
        2
    } else if address <= 0x1FCF_FFFF {
        3
    } else if address <= 0x7FFF_FFFF {
        4
    } else {
        5
    }
}

/// No address lies in two regions.
pub proof fn regions_do_not_overlap(address: u32, i: int, j: int)
    requires
        0 <= i < region_table().len(),
        0 <= j < region_table().len(),
        region_table()[i].contains(address),
        region_table()[j].contains(address),
    ensures
        i == j,
{
}

/// Every address lies in exactly one region: the lookup finds that region,
/// and no other range of the table holds the address. In particular this
/// holds of every physical address.
pub proof fn regions_partition_physical_space(address: u32)
    ensures
        unique_match(region_table(), address),
        first_match_spec(region_table(), address) == Some(
            region_table()[region_index(address)].names(),
        ),
        all_matches_spec(region_table(), address).len() == 1,
{
    let t = region_table();
    let i = region_index(address);
    assert(t[i].contains(address));
    assert forall|j: int| 0 <= j < t.len() && (#[trigger] t[j]).contains(address) implies j
        == i by {}
    sole_match_is_every_match(t, address, i);
}

/// The position in the subregion table of the subregion that holds `address`.
pub open spec fn subregion_index(address: u32) -> int {
    if address <= 0x03EF_FFFF {
        0
    } else if address <= 0x03F7_FFFF {
        1
    } else if address <= 0x03FF_FFFF {
        2
    } else if address <= 0x0400_0FFF {
        3
    } else if address <= 0x0400_1FFF {
        4
    } else if address <= 0x0403_FFFF {
        5
    } else if address <= 0x040B_FFFF {
        6
    } else if address <= 0x040F_FFFF {
        7
    } else if address <= 0x041F_FFFF {
        8
    } else if address <= 0x042F_FFFF {
        9
    } else if address <= 0x043F_FFFF {
        10
    } else if address <= 0x044F_FFFF {
        11
    } else if address <= 0x045F_FFFF {
        12
    } else if address <= 0x046F_FFFF {
        13
    } else if address <= 0x047F_FFFF {
        14
    } else if address <= 0x048F_FFFF {
        15
    } else if address <= 0x04FF_FFFF {
        16
    } else if address <= 0x05FF_FFFF {
        17
    } else if address <= 0x07FF_FFFF {
        18
    } else if address <= 0x0FFF_FFFF {
        19
    } else if address <= 0x1FBF_FFFF {
        20
    } else if address <= 0x1FC0_07BF {
        21
    } else if address <= 0x1FC0_07FF {
        22
    } else if address <= 0x1FCF_FFFF {
        23
    } else if address <= 0x1FFF_FFFF {
        24
    } else if address <= 0x7FFF_FFFF {
        25
    } else {
        26
    }
}

/// Every address lies in exactly one subregion of the memory map, so that
/// the subregions collected for it are that one.
pub proof fn subregions_partition_address_space(address: u32)
    ensures
        unique_match(subregion_table(), address),
        all_matches_spec(subregion_table(), address) == seq![
            subregion_table()[subregion_index(address)].names(),
        ],
{
    let t = subregion_table();
    let i = subregion_index(address);
    assert(t[i].contains(address));
    assert forall|j: int| 0 <= j < t.len() && (#[trigger] t[j]).contains(address) implies j
        == i by {}
    sole_match_is_every_match(t, address, i);
}

/// Regions and subregions cover the same addresses: every address has one
/// region and one subregion, so neither table holds an address that the
/// other lacks, and the subregion lies within the bounds of the region, so
/// that no subregion reaches across two regions.
pub proof fn regions_and_subregions_cover_the_same_addresses(address: u32)
    ensures
        unique_match(region_table(), address),
        unique_match(subregion_table(), address),
        !no_match(region_table(), address) <==> !no_match(subregion_table(), address),
        region_table()[region_index(address)].contains(address),
        subregion_table()[subregion_index(address)].contains(address),
        region_table()[region_index(address)].start <= subregion_table()[subregion_index(
            address,
        )].start,
        subregion_table()[subregion_index(address)].end <= region_table()[region_index(
            address,
        )].end,
{
    regions_partition_physical_space(address);
    subregions_partition_address_space(address);
}

/// The short names of the memory map are ASCII text: one character for a
/// segment and for a region, four for a subregion.
pub proof fn short_names_are_plain(segment: int, region: int, subregion: int)
    requires
        0 <= segment < segment_table().len(),
        0 <= region < region_table().len(),
        0 <= subregion < subregion_table().len(),
    ensures
        segment_table()[segment].short_name.len() == 1,
        region_table()[region].short_name.len() == 1,
        subregion_table()[subregion].short_name.len() == 4,
        is_ascii_text(segment_table()[segment].short_name),
        is_ascii_text(region_table()[region].short_name),
        is_ascii_text(subregion_table()[subregion].short_name),
{
    reveal_strlit("U");
    reveal_strlit("0");
    reveal_strlit("1");
    reveal_strlit("S");
    reveal_strlit("3");
    reveal_strlit("R");
    reveal_strlit("G");
    reveal_strlit("P");
    reveal_strlit("B");
    reveal_strlit("RDRM");
    reveal_strlit("RDRR");
    reveal_strlit("RDRB");
    reveal_strlit("RSPD");
    reveal_strlit("RSPI");
    reveal_strlit("RSPM");
    reveal_strlit("RSPR");
    reveal_strlit("RCPU");
    reveal_strlit("RDPC");
    reveal_strlit("RDPS");
    reveal_strlit("InMI");
    reveal_strlit("InVI");
    reveal_strlit("InAI");
    reveal_strlit("InPI");
    reveal_strlit("InRI");
    reveal_strlit("InSI");
    reveal_strlit("RCPu");
    reveal_strlit("NDDR");
    reveal_strlit("NDDI");
    reveal_strlit("CSRM");
    reveal_strlit("CROM");
    reveal_strlit("PIFR");
    reveal_strlit("RSVD");
    reveal_strlit("UPB1");
    reveal_strlit("UCPA");
    reveal_strlit("UNMP");
}

} // verus!
