//! The location of an address: its segment, region and subregions, how it is
//! resolved against the tables, and its short code.

use crate::memory_map::{
    region_index, region_table, regions,
    regions_partition_physical_space, segment_index, segment_table, segments,
    segments_partition_address_space, subregion_index, subregion_table, subregions,
    short_names_are_plain, subregions_partition_address_space, PHYSICAL_MASK,
};
use crate::table::{
    all_matches, all_matches_spec, first_match, first_match_spec, names_seq_view,
    optional_names_view, Names, NamesView, Range, RangeView, table_view,
};
use crate::text::{
    ascii_uppercase, ascii_uppercase_has_no_small_letter, is_ascii_text, to_uppercase, upper_case,
};
use vstd::prelude::*;
use vstd::string::*;

verus! {

/// Where an address lies: the segment of the virtual address, and the region
/// and subregions of the physical address behind it.
#[derive(Debug)]
pub struct AddressLocation {
    pub virtual_address: u32,
    pub physical_address: u32,
    pub segment: Option<Names>,
    pub region: Option<Names>,
    pub subregions: Vec<Names>,
}

/// The mathematical value of an [`AddressLocation`].
pub struct LocationView {
    pub virtual_address: u32,
    pub physical_address: u32,
    pub segment: Option<NamesView>,
    pub region: Option<NamesView>,
    pub subregions: Seq<NamesView>,
}

impl View for AddressLocation {
    type V = LocationView;

    open spec fn view(&self) -> LocationView {
        LocationView {
            virtual_address: self.virtual_address,
            physical_address: self.physical_address,
            segment: optional_names_view(self.segment),
            region: optional_names_view(self.region),
            subregions: names_seq_view(self.subregions@),
        }
    }
}

/// The physical address behind a virtual one: the address without its top
/// three bits.
pub open spec fn masked(address: u32) -> u32 {
    address & PHYSICAL_MASK
}

/// Clears the three bits that select cached or uncached access.
pub fn mask_address(address: u32) -> (r: u32)
    ensures
        r == masked(address),
        r <= PHYSICAL_MASK,
        r as int == address as int % 0x2000_0000,
{
    assert(address & 0x1FFF_FFFF <= 0x1FFF_FFFF) by (bit_vector);
    assert(address & 0x1FFF_FFFF == address % 0x2000_0000) by (bit_vector);
    address & PHYSICAL_MASK
}

/// Masking an address that is already masked changes nothing.
pub proof fn masking_is_idempotent(address: u32)
    ensures
        masked(masked(address)) == masked(address),
{
    assert((address & 0x1FFF_FFFF) & 0x1FFF_FFFF == address & 0x1FFF_FFFF) by (bit_vector);
}

/// An address within the physical range is its own masked address.
pub proof fn masking_keeps_physical_addresses(address: u32)
    requires
        address <= PHYSICAL_MASK,
    ensures
        masked(address) == address,
{
    assert(address <= 0x1FFF_FFFF ==> address & 0x1FFF_FFFF == address) by (bit_vector);
}

/// The location of `address` by three given tables: the segment is looked up
/// by the address itself, region and subregions by the masked address.
pub open spec fn classify_spec(
    segments: Seq<RangeView>,
    regions: Seq<RangeView>,
    subregions: Seq<RangeView>,
    address: u32,
) -> LocationView {
    LocationView {
        virtual_address: address,
        physical_address: masked(address),
        segment: first_match_spec(segments, address),
        region: first_match_spec(regions, masked(address)),
        subregions: all_matches_spec(subregions, masked(address)),
    }
}

/// The location of `address` in the Nintendo 64 memory map.
pub open spec fn location_of(address: u32) -> LocationView {
    classify_spec(segment_table(), region_table(), subregion_table(), address)
}

/// Resolves `address` against three tables. Segment and region are the
/// first match of their table, or `None` where the table has no range for the
/// address; the subregions are all the matches, in table order.
pub fn classify(
    segments: &[Range],
    regions: &[Range],
    subregions: &[Range],
    address: u32,
) -> (loc: AddressLocation)
    ensures
        loc@ == classify_spec(
            table_view(segments@),
            table_view(regions@),
            table_view(subregions@),
            address,
        ),
{
    let physical_address = mask_address(address);
    AddressLocation {
        virtual_address: address,
        physical_address,
        segment: first_match(segments, address),
        region: first_match(regions, physical_address),
        subregions: all_matches(subregions, physical_address),
    }
}

/// In the memory map every address has one segment, one region and one
/// subregion: the segment that holds the address, and the region and the
/// subregion that hold its physical address.
pub proof fn location_is_determined(address: u32)
    ensures
        location_of(address).segment == Some(
            segment_table()[segment_index(address)].names(),
        ),
        location_of(address).region == Some(
            region_table()[region_index(masked(address))].names(),
        ),
        location_of(address).subregions == seq![
            subregion_table()[subregion_index(masked(address))].names(),
        ],
{
    let m = masked(address);
    segments_partition_address_space(address);
    regions_partition_physical_space(m);
    subregions_partition_address_space(m);
}

/// Resolves `address` against the tables of the memory map.
pub fn get_segment_region_subregion(address: u32) -> (loc: AddressLocation)
    ensures
        loc@ == location_of(address),
        loc.virtual_address == address,
        loc.physical_address == masked(address),
        loc.segment is Some,
        loc.region is Some,
        loc@.segment == Some(segment_table()[segment_index(address)].names()),
        loc@.region == Some(region_table()[region_index(masked(address))].names()),
        loc@.subregions == seq![subregion_table()[subregion_index(masked(address))].names()],
{
    let segment_table = segments();
    let region_table = regions();
    let subregion_table = subregions();
    proof {
        location_is_determined(address);
    }
    let loc = classify(
        &segment_table,
        &region_table,
        &subregion_table,
        address,
    );
    loc
}

/// The parts, with a dot between each two neighbours.
pub open spec fn dot_joined(parts: Seq<Seq<char>>) -> Seq<char>
    decreases parts.len(),
{
    if parts.len() == 0 {
        Seq::empty()
    } else if parts.len() == 1 {
        parts[0]
    } else {
        dot_joined(parts.drop_last()) + seq!['.'] + parts.last()
    }
}

/// The short name of a match, or a question mark where there is none.
pub open spec fn code_or_placeholder(names: Option<NamesView>) -> Seq<char> {
    match names {
        Some(n) => n.0,
        None => seq!['?'],
    }
}

/// The short names of the subregions, in order.
pub open spec fn subregion_codes(loc: LocationView) -> Seq<Seq<char>> {
    Seq::new(loc.subregions.len(), |i: int| loc.subregions[i].0)
}

/// The short code of a location as its names spell it: segment code, region
/// code, a dot, and the subregion codes joined by dots.
pub open spec fn short_code(loc: LocationView) -> Seq<char> {
    code_or_placeholder(loc.segment) + code_or_placeholder(loc.region) + seq!['.'] + dot_joined(
        subregion_codes(loc),
    )
}

/// The short string of a location: its short code in upper case.
pub open spec fn short_string(loc: LocationView) -> Seq<char> {
    upper_case(short_code(loc))
}

/// Without subregions the short code still ends in its dot.
pub proof fn short_code_without_subregions(loc: LocationView)
    requires
        loc.subregions.len() == 0,
    ensures
        short_code(loc) == code_or_placeholder(loc.segment) + code_or_placeholder(loc.region)
            + seq!['.'],
{
    assert(dot_joined(subregion_codes(loc)) =~= Seq::<char>::empty());
    assert(short_code(loc) =~= code_or_placeholder(loc.segment) + code_or_placeholder(loc.region)
        + seq!['.']);
}

/// The short code of an address of the memory map: the code of its segment,
/// the code of its region, a dot, and the code of its subregion.
pub proof fn short_code_of_address(address: u32)
    ensures
        short_code(location_of(address)) == segment_table()[segment_index(address)].short_name
            + region_table()[region_index(masked(address))].short_name + seq!['.']
            + subregion_table()[subregion_index(masked(address))].short_name,
{
    location_is_determined(address);
    let loc = location_of(address);
    assert(subregion_codes(loc) =~= seq![
        subregion_table()[subregion_index(masked(address))].short_name,
    ]);
}

/// The short string of an address of the memory map: its short code with
/// the small letters made capitals. It is seven characters long, one for the
/// segment, one for the region, the dot and four for the subregion, and holds
/// no small letter.
pub proof fn short_string_of_address(address: u32)
    ensures
        short_string(location_of(address)) == ascii_uppercase(short_code(location_of(address))),
        short_string(location_of(address)).len() == 7,
        forall|i: int|
            0 <= i < 7 ==> !('a' <= (#[trigger] short_string(location_of(address))[i]) <= 'z'),
{
    let code = short_code(location_of(address));
    short_code_of_address(address);
    short_names_are_plain(
        segment_index(address),
        region_index(masked(address)),
        subregion_index(masked(address)),
    );
    assert(code.len() == 7);
    assert(is_ascii_text(code));
    ascii_uppercase_has_no_small_letter(code);
}

/// The short name of a match, or the placeholder where there is none.
fn code_text(names: &Option<Names>) -> (r: &'static str)
    ensures
        r@ == code_or_placeholder(optional_names_view(*names)),
{
    proof {
        reveal_strlit("?");
    }
    match names {
        Some(n) => n.0,
        None => "?",
    }
}

/// Spells the short code of a location in the case of the names themselves.
pub fn mixed_case_code(location: &AddressLocation) -> (r: String)
    ensures
        r@ == short_code(location@),
{
    proof {
        reveal_strlit(".");
    }
    let mut out = String::from_str(code_text(&location.segment));
    out.append(code_text(&location.region));
    out.append(".");
    let ghost head = out@;
    let ghost codes = subregion_codes(location@);
    let mut i: usize = 0;
    assert(out@ =~= head + dot_joined(codes.take(0)));
    while i < location.subregions.len()
        invariant
            0 <= i <= location.subregions.len(),
            codes == subregion_codes(location@),
            codes.len() == location.subregions.len(),
            out@ == head + dot_joined(codes.take(i as int)),
            "."@ == seq!['.'],
        decreases location.subregions.len() - i,
    {
        let ghost next = codes.take(i as int + 1);
        proof {
            assert(next.drop_last() =~= codes.take(i as int));
            assert(next.last() == location.subregions[i as int].0@);
        }
        if i > 0 {
            out.append(".");
        }
        out.append(location.subregions[i].0);
        proof {
            assert(out@ =~= head + dot_joined(next));
        }
        i += 1;
    }
    proof {
        assert(codes.take(codes.len() as int) =~= codes);
    }
    out
}

/// The short form of a location, made to fit a narrow column: the short code
/// in upper case.
pub fn address_location_to_string(address_location: &AddressLocation) -> (r: String)
    ensures
        r@ == short_string(address_location@),
{
    let code = mixed_case_code(address_location);
    to_uppercase(code.as_str())
}

/// The short code and the short string depend on the codes alone: two
/// locations with the same segment code, region code and subregion codes
/// have the same ones, whatever their addresses and long names.
pub proof fn short_string_depends_on_codes_only(a: LocationView, b: LocationView)
    requires
        code_or_placeholder(a.segment) == code_or_placeholder(b.segment),
        code_or_placeholder(a.region) == code_or_placeholder(b.region),
        subregion_codes(a) == subregion_codes(b),
    ensures
        short_code(a) == short_code(b),
        short_string(a) == short_string(b),
{
}

} // verus!
