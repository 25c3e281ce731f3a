//! Positions from a EuroScope sector file: a Windows-1252 text whose
//! `[POSITIONS]` section lists one position per line, in colon-separated
//! fields.

use vstd::prelude::*;
use crate::facility::{facility_of_code, FacilityType};
use crate::model::{position_views, strs, Position, PositionConfigFile, PositionView};
use crate::order::{in_file_order, lemma_map_values_to_multiset, sort_records};
use crate::text::{
    chars_of, decode_windows_1252, same_chars, split, split_on, starts_with, string_of, trim,
    trimmed, windows_1252_text, char_vecs,
};

verus! {

/// Why a sector-file line gives no position.
#[derive(Clone, Copy, Debug, PartialEq, Eq, Structural)]
pub enum EseLineError {
    /// Fewer than seven colon-separated fields.
    InvalidFormat,
    /// The seventh field names no facility type.
    InvalidFacilityType,
}

/// The position that a line describes: field 0 is the identifier, field 2
/// the frequency, field 5 the one prefix and field 6 the facility code.
pub open spec fn ese_position(line: Seq<char>) -> Option<PositionView> {
    let f = split(line, ':');
    if f.len() < 7 {
        None
    } else {
        match facility_of_code(f[6]) {
            None => None,
            Some(ft) => Some(
                PositionView {
                    id: f[0],
                    facility_type: ft,
                    frequency: f[2],
                    prefixes: seq![f[5]],
                    profile_id: None,
                },
            ),
        }
    }
}

/// Reading a record from one line of a sector file.
pub trait ParsePosition: Sized {
    type Error;

    fn from_ese_line(line: &str) -> Result<Self, Self::Error>;
}

impl Position {
    /// The position that a sector-file line describes, or why it describes
    /// none.
    pub fn from_ese_chars(line: &[char]) -> (r: Result<Position, EseLineError>)
        ensures
            r.is_ok() == ese_position(line@).is_some(),
            r matches Ok(p) ==> ese_position(line@) == Some(p@),
            r == Err::<Position, EseLineError>(EseLineError::InvalidFormat) <==> split(line@, ':').len()
                < 7,
    {
        let parts = split_on(line, ':');
        if parts.len() < 7 {
            return Err(EseLineError::InvalidFormat);
        }
        match FacilityType::from_code(parts[6].as_slice()) {
            None => Err(EseLineError::InvalidFacilityType),
            Some(facility_type) => {
                let prefixes = vec![string_of(parts[5].as_slice())];
                let p = Position {
                    id: string_of(parts[0].as_slice()),
                    facility_type,
                    frequency: string_of(parts[2].as_slice()),
                    prefixes,
                    profile_id: None,
                };
                assert(strs(prefixes@) =~= seq![parts@[5]@]);
                Ok(p)
            },
        }
    }
}

impl ParsePosition for Position {
    type Error = EseLineError;

    fn from_ese_line(line: &str) -> (r: Result<Position, EseLineError>)
        ensures
            r.is_ok() == ese_position(line@).is_some(),
            r matches Ok(p) ==> ese_position(line@) == Some(p@),
            r == Err::<Position, EseLineError>(EseLineError::InvalidFormat) <==> split(line@, ':').len()
                < 7,
    {
        Position::from_ese_chars(chars_of(line).as_slice())
    }
}

/// The line that opens the positions section.
pub open spec fn positions_marker() -> Seq<char> {
    seq!['[', 'P', 'O', 'S', 'I', 'T', 'I', 'O', 'N', 'S', ']']
}

pub open spec fn has_prefix(t: Seq<char>, p: Seq<char>) -> bool {
    p.len() <= t.len() && t.take(p.len() as int) == p
}

/// A line passes the prefix filters when there are none, or when it starts
/// with one of them.
pub open spec fn passes_filters(filters: Seq<Seq<char>>, t: Seq<char>) -> bool {
    filters.len() == 0 || exists|k: int| 0 <= k < filters.len() && has_prefix(t, #[trigger] filters[k])
}

/// A section header such as `[AIRPORT]`.
pub open spec fn is_section_header(t: Seq<char>) -> bool {
    t.len() > 0 && t[0] == '[' && t.last() == ']'
}

/// Where a scan of the lines stands: inside the positions section, past it,
/// and the positions found so far.
pub struct Scan {
    pub active: bool,
    pub stopped: bool,
    pub found: Seq<PositionView>,
}

/// One line read: blank lines and `;` comments are skipped, the marker
/// opens the section, the next header (the marker too) closes it, and inside it each line
/// that passes the filters and describes a position of known facility type
/// adds that position.
pub open spec fn scan_step(st: Scan, line: Seq<char>, filters: Seq<Seq<char>>) -> Scan {
    let t = trimmed(line);
    if st.stopped {
        st
    } else if t.len() == 0 || t[0] == ';' {
        st
    } else if st.active && is_section_header(t) {
        Scan { stopped: true, ..st }
    } else if t == positions_marker() {
        Scan { active: true, ..st }
    } else if !st.active || !passes_filters(filters, t) {
        st
    } else {
        match ese_position(t) {
            Some(p) => if p.facility_type != FacilityType::Unknown {
                Scan { found: st.found.push(p), ..st }
            } else {
                st
            },
            None => st,
        }
    }
}

pub open spec fn scan(lines: Seq<Seq<char>>, filters: Seq<Seq<char>>) -> Scan
    decreases lines.len(),
{
    if lines.len() == 0 {
        Scan { active: false, stopped: false, found: Seq::empty() }
    } else {
        scan_step(scan(lines.drop_last(), filters), lines.last(), filters)
    }
}

/// A line that describes no position (fewer than seven fields, or an
/// unknown facility code) and is neither a section header nor the marker
/// changes nothing: the file gives the same positions without it, so it
/// neither appears in the result nor keeps any other line out of it.
pub proof fn lemma_invalid_line_ignored(
    before: Seq<Seq<char>>,
    line: Seq<char>,
    after: Seq<Seq<char>>,
    filters: Seq<Seq<char>>,
)
    requires
        ese_position(trimmed(line)).is_none(),
        !is_section_header(trimmed(line)),
        trimmed(line) != positions_marker(),
    ensures
        scan(before.push(line) + after, filters) == scan(before + after, filters),
    decreases after.len(),
{
    if after.len() == 0 {
        assert(before.push(line) + after =~= before.push(line));
        assert(before + after =~= before);
        assert(before.push(line).drop_last() =~= before);
    } else {
        lemma_invalid_line_ignored(before, line, after.drop_last(), filters);
        assert((before.push(line) + after).drop_last() =~= before.push(line) + after.drop_last());
        assert((before + after).drop_last() =~= before + after.drop_last());
    }
}

/// Each position that a scan finds is the one that some line describes; a
/// line that describes none (too few fields, an unknown facility code) gives
/// no position.
pub proof fn lemma_found_from_valid_lines(lines: Seq<Seq<char>>, filters: Seq<Seq<char>>, k: int)
    requires
        0 <= k < scan(lines, filters).found.len(),
    ensures
        exists|i: int|
            0 <= i < lines.len() && ese_position(trimmed(#[trigger] lines[i])) == Some(
                scan(lines, filters).found[k],
            ),
    decreases lines.len(),
{
    let init = lines.drop_last();
    let prev = scan(init, filters);
    if k < prev.found.len() {
        assert(scan(lines, filters).found[k] == prev.found[k]);
        lemma_found_from_valid_lines(init, filters, k);
        let i = choose|i: int|
            0 <= i < init.len() && ese_position(trimmed(#[trigger] init[i])) == Some(
                prev.found[k],
            );
        assert(lines[i] == init[i]);
    } else {
        let i = lines.len() - 1;
        assert(lines[i] == lines.last());
    }
}

/// The positions of a sector file's text, in the order of its lines.
pub open spec fn sectorfile_positions(text: Seq<char>, filters: Seq<Seq<char>>) -> Seq<
    PositionView,
> {
    scan(split(text, '\n'), filters).found
}

fn passes(t: &[char], filters: &Vec<Vec<char>>) -> (r: bool)
    ensures
        r == passes_filters(char_vecs(filters@), t@),
{
    let ghost fs = char_vecs(filters@);
    if filters.len() == 0 {
        return true;
    }
    let mut k: usize = 0;
    while k < filters.len()
        invariant
            k <= filters@.len(),
            fs == char_vecs(filters@),
            forall|q: int| 0 <= q < k ==> !has_prefix(t@, #[trigger] fs[q]),
        decreases filters.len() - k,
    {
        if starts_with(t, filters[k].as_slice()) {
            assert(has_prefix(t@, fs[k as int]));
            return true;
        }
        k = k + 1;
    }
    false
}

/// The positions that the lines of `text` describe, in their order.
pub fn scan_positions(text: &[char], filters: &Vec<Vec<char>>) -> (r: Vec<Position>)
    ensures
        position_views(r@) == sectorfile_positions(text@, char_vecs(filters@)),
{
    let ghost fs = char_vecs(filters@);
    let ghost all = split(text@, '\n');
    let lines = split_on(text, '\n');
    let marker = vec!['[', 'P', 'O', 'S', 'I', 'T', 'I', 'O', 'N', 'S', ']'];
    assert(marker@ =~= positions_marker());
    let mut active = false;
    let mut stopped = false;
    let mut found: Vec<Position> = Vec::new();
    let mut i: usize = 0;
    assert(all.take(0) =~= Seq::<Seq<char>>::empty());
    assert(position_views(found@) =~= Seq::<PositionView>::empty());
    while i < lines.len()
        invariant
            i <= lines@.len(),
            lines@.len() == all.len(),
            forall|k: int| 0 <= k < lines@.len() ==> #[trigger] lines@[k]@ == all[k],
            marker@ == positions_marker(),
            fs == char_vecs(filters@),
            scan(all.take(i as int), fs) == (Scan {
                active,
                stopped,
                found: position_views(found@),
            }),
        decreases lines.len() - i,
    {
        let t = trim(lines[i].as_slice());
        proof {
            assert(all.take(i + 1).drop_last() =~= all.take(i as int));
            assert(all.take(i + 1).last() == lines@[i as int]@);
        }
        if stopped {
        } else if t.len() == 0 || t[0] == ';' {
        } else if active && t[0] == '[' && t[t.len() - 1] == ']' {
            stopped = true;
        } else if same_chars(t.as_slice(), marker.as_slice()) {
            active = true;
        } else if !active || !passes(t.as_slice(), filters) {
        } else {
            match Position::from_ese_chars(t.as_slice()) {
                Ok(p) => {
                    if p.facility_type != FacilityType::Unknown {
                        let ghost before = found@;
                        found.push(p);
                        assert(position_views(found@) =~= position_views(before).push(p@));
                    }
                },
                Err(_) => {},
            }
        }
        i = i + 1;
    }
    assert(all.take(lines@.len() as int) =~= all);
    found
}

/// The positions of a sector file, in the order of a positions file: the
/// bytes are read as Windows-1252 text, and where `prefixes` is not empty
/// only lines that start with one of them are read.
pub fn parse_sectorfile(bytes: &[u8], prefixes: &[String]) -> (r: PositionConfigFile)
    ensures
        in_file_order(r.positions@),
        position_views(r.positions@).to_multiset() == sectorfile_positions(
            windows_1252_text(bytes@),
            strs(prefixes@),
        ).to_multiset(),
{
    let text = decode_windows_1252(bytes);
    let mut filters: Vec<Vec<char>> = Vec::new();
    let mut k: usize = 0;
    while k < prefixes.len()
        invariant
            k <= prefixes@.len(),
            filters@.len() == k,
            forall|q: int| 0 <= q < k ==> (#[trigger] filters@[q])@ == prefixes@[q]@,
        decreases prefixes.len() - k,
    {
        filters.push(chars_of(prefixes[k].as_str()));
        k = k + 1;
    }
    assert(char_vecs(filters@) =~= strs(prefixes@));
    let found = scan_positions(text.as_slice(), &filters);
    let positions = sort_records(found);
    proof {
        lemma_map_values_to_multiset(positions@, found@, |p: Position| p@);
    }
    PositionConfigFile { positions }
}

} // verus!
