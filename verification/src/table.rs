//! Address ranges, ordered tables of them, and the two ways a table is
//! searched: for the first range that holds an address, and for all of them.

use vstd::prelude::*;

verus! {

/// The short and the long name of a range, as text.
pub type Names = (&'static str, &'static str);

/// The mathematical value of a pair of names.
pub type NamesView = (Seq<char>, Seq<char>);

/// An inclusive span of addresses together with the names it goes by.
#[derive(Clone, Copy, Debug)]
pub struct Range {
    pub start: u32,
    pub end: u32,
    pub short_name: &'static str,
    pub long_name: &'static str,
}

/// The mathematical value of a [`Range`].
pub struct RangeView {
    pub start: u32,
    pub end: u32,
    pub short_name: Seq<char>,
    pub long_name: Seq<char>,
}

impl RangeView {
    /// Both bounds belong to the range.
    pub open spec fn contains(self, address: u32) -> bool {
        self.start <= address <= self.end
    }

    /// The short and the long name.
    pub open spec fn names(self) -> NamesView {
        (self.short_name, self.long_name)
    }
}

impl View for Range {
    type V = RangeView;

    open spec fn view(&self) -> RangeView {
        RangeView {
            start: self.start,
            end: self.end,
            short_name: self.short_name@,
            long_name: self.long_name@,
        }
    }
}

/// The value of a pair of names.
pub open spec fn names_view(names: Names) -> NamesView {
    (names.0@, names.1@)
}

/// The value of an optional pair of names.
pub open spec fn optional_names_view(names: Option<Names>) -> Option<NamesView> {
    match names {
        Some(n) => Some(names_view(n)),
        None => None,
    }
}

/// The values of a sequence of name pairs, in the same order.
pub open spec fn names_seq_view(names: Seq<Names>) -> Seq<NamesView> {
    Seq::new(names.len(), |i: int| names_view(names[i]))
}

/// The values of the ranges of a table, in table order.
pub open spec fn table_view(table: Seq<Range>) -> Seq<RangeView> {
    Seq::new(table.len(), |i: int| table[i]@)
}

/// The ranges of `table` that hold `address`, in table order.
pub open spec fn matching(table: Seq<RangeView>, address: u32) -> Seq<RangeView> {
    table.filter(|r: RangeView| r.contains(address))
}

/// The names of every range of `table` that holds `address`, in table order.
pub open spec fn all_matches_spec(table: Seq<RangeView>, address: u32) -> Seq<NamesView> {
    matching(table, address).map_values(|r: RangeView| r.names())
}

/// `index` is the position of the first range of `table` that holds `address`.
pub open spec fn is_first_match(table: Seq<RangeView>, address: u32, index: int) -> bool {
    &&& 0 <= index < table.len()
    &&& table[index].contains(address)
    &&& forall|j: int| 0 <= j < index ==> !(#[trigger] table[j]).contains(address)
}

/// No range of `table` holds `address`.
pub open spec fn no_match(table: Seq<RangeView>, address: u32) -> bool {
    forall|j: int| 0 <= j < table.len() ==> !(#[trigger] table[j]).contains(address)
}

/// The names of the first range of `table` that holds `address`, if any does.
pub open spec fn first_match_spec(table: Seq<RangeView>, address: u32) -> Option<NamesView> {
    if no_match(table, address) {
        None
    } else {
        Some(table[choose|i: int| is_first_match(table, address, i)].names())
    }
}

/// Exactly one range of `table` holds `address`.
pub open spec fn unique_match(table: Seq<RangeView>, address: u32) -> bool {
    exists|i: int|
        0 <= i < table.len() && (#[trigger] table[i]).contains(address) && forall|j: int|
            0 <= j < table.len() && (#[trigger] table[j]).contains(address) ==> j == i
}

impl Range {
    /// A range from `start` to `end`, both included, under the two names.
    pub fn new(start: u32, end: u32, short_name: &'static str, long_name: &'static str) -> (r:
        Range)
        ensures
            r.start == start,
            r.end == end,
            r.short_name@ == short_name@,
            r.long_name@ == long_name@,
    {
        Range { start, end, short_name, long_name }
    }

    /// Whether `address` lies within the inclusive bounds.
    pub fn contains(&self, address: u32) -> (b: bool)
        ensures
            b == self@.contains(address),
    {
        self.start <= address && address <= self.end
    }

    /// The short and the long name.
    pub fn names(&self) -> (n: Names)
        ensures
            names_view(n) == self@.names(),
    {
        (self.short_name, self.long_name)
    }
}

/// Two positions that are both the first match are the same position.
pub proof fn first_match_is_unique(table: Seq<RangeView>, address: u32, i: int, j: int)
    requires
        is_first_match(table, address, i),
        is_first_match(table, address, j),
    ensures
        i == j,
{
    if i < j {
        assert(!table[i].contains(address));
    } else if j < i {
        assert(!table[j].contains(address));
    }
}

/// The first range that holds the address is the one the lookup names, though
/// later ranges may hold the address too.
pub proof fn first_match_wins(table: Seq<RangeView>, address: u32, index: int)
    requires
        is_first_match(table, address, index),
    ensures
        first_match_spec(table, address) == Some(table[index].names()),
{
    let k = choose|k: int| is_first_match(table, address, k);
    first_match_is_unique(table, address, index, k);
}

/// Scans `table` in order and returns the names of the first range that holds
/// `address`; `None` when no range does.
pub fn first_match(table: &[Range], address: u32) -> (r: Option<Names>)
    ensures
        optional_names_view(r) == first_match_spec(table_view(table@), address),
        r is None <==> no_match(table_view(table@), address),
        r is Some ==> exists|i: int|
            is_first_match(table_view(table@), address, i) && names_view(r->Some_0)
                == table_view(table@)[i].names(),
{
    let ghost t = table_view(table@);
    let mut i: usize = 0;
    while i < table.len()
        invariant
            0 <= i <= table.len(),
            t == table_view(table@),
            forall|j: int| 0 <= j < i ==> !(#[trigger] t[j]).contains(address),
        decreases table.len() - i,
    {
        if table[i].contains(address) {
            proof {
                assert(t[i as int] == table[i as int]@);
                assert(is_first_match(t, address, i as int));
                first_match_wins(t, address, i as int);
            }
            return Some(table[i].names());
        }
        i += 1;
    }
    None
}

/// Filtering one more range either appends it or changes nothing.
proof fn matching_step(table: Seq<RangeView>, address: u32, i: int)
    requires
        0 <= i < table.len(),
    ensures
        all_matches_spec(table.take(i + 1), address) == if table[i].contains(address) {
            all_matches_spec(table.take(i), address).push(table[i].names())
        } else {
            all_matches_spec(table.take(i), address)
        },
{
    let p = |r: RangeView| r.contains(address);
    let next = table.take(i + 1);
    assert(next.drop_last() =~= table.take(i));
    assert(next.last() == table[i]);
    reveal_with_fuel(Seq::filter, 2);
    assert(next.filter(p) == if p(table[i]) {
        table.take(i).filter(p).push(table[i])
    } else {
        table.take(i).filter(p)
    });
    if table[i].contains(address) {
        assert(all_matches_spec(next, address) =~= all_matches_spec(table.take(i), address).push(
            table[i].names(),
        ));
    }
}

/// A table without a range for the address has no match to collect.
pub proof fn no_match_collects_nothing(table: Seq<RangeView>, address: u32)
    requires
        no_match(table, address),
    ensures
        matching(table, address) == Seq::<RangeView>::empty(),
        all_matches_spec(table, address) == Seq::<NamesView>::empty(),
    decreases table.len(),
{
    reveal_with_fuel(Seq::filter, 2);
    if table.len() > 0 {
        let rest = table.drop_last();
        assert forall|j: int| 0 <= j < rest.len() implies !(#[trigger] rest[j]).contains(
            address,
        ) by {
            assert(rest[j] == table[j]);
        }
        no_match_collects_nothing(rest, address);
        assert(!table[table.len() - 1].contains(address));
    }
    assert(all_matches_spec(table, address) =~= Seq::<NamesView>::empty());
}

/// Where exactly one range holds the address, that range is the first match
/// and the only one collected.
pub proof fn sole_match_is_every_match(table: Seq<RangeView>, address: u32, index: int)
    requires
        0 <= index < table.len(),
        table[index].contains(address),
        forall|j: int| 0 <= j < table.len() && (#[trigger] table[j]).contains(address) ==> j == index,
    ensures
        unique_match(table, address),
        first_match_spec(table, address) == Some(table[index].names()),
        matching(table, address) == seq![table[index]],
        all_matches_spec(table, address) == seq![table[index].names()],
    decreases table.len(),
{
    assert(is_first_match(table, address, index));
    first_match_wins(table, address, index);
    reveal_with_fuel(Seq::filter, 2);
    let rest = table.drop_last();
    if index == table.len() - 1 {
        assert forall|j: int| 0 <= j < rest.len() implies !(#[trigger] rest[j]).contains(
            address,
        ) by {
            assert(rest[j] == table[j]);
        }
        no_match_collects_nothing(rest, address);
        assert(matching(table, address) =~= seq![table[index]]);
    } else {
        assert(rest[index] == table[index]);
        assert forall|j: int| 0 <= j < rest.len() && (#[trigger] rest[j]).contains(
            address,
        ) implies j == index by {
            assert(rest[j] == table[j]);
        }
        sole_match_is_every_match(rest, address, index);
        assert(!table[table.len() - 1].contains(address));
        assert(matching(table, address) =~= seq![table[index]]);
    }
    assert(all_matches_spec(table, address) =~= seq![table[index].names()]);
}

/// Scans the whole of `table` and returns the names of every range that holds
/// `address`, in table order.
pub fn all_matches(table: &[Range], address: u32) -> (r: Vec<Names>)
    ensures
        names_seq_view(r@) == all_matches_spec(table_view(table@), address),
{
    let ghost t = table_view(table@);
    let mut found: Vec<Names> = Vec::new();
    let mut i: usize = 0;
    proof {
        assert(t.take(0).len() == 0);
        assert(names_seq_view(found@) =~= all_matches_spec(t.take(0), address));
    }
    while i < table.len()
        invariant
            0 <= i <= table.len(),
            t == table_view(table@),
            names_seq_view(found@) == all_matches_spec(t.take(i as int), address),
        decreases table.len() - i,
    {
        proof {
            matching_step(t, address, i as int);
            assert(t[i as int] == table[i as int]@);
        }
        if table[i].contains(address) {
            let ghost before = found@;
            found.push(table[i].names());
            proof {
                assert(names_seq_view(found@) =~= names_seq_view(before).push(
                    t[i as int].names(),
                ));
            }
        }
        i += 1;
    }
    proof {
        assert(t.take(table.len() as int) =~= t);
    }
    found
}

} // verus!
