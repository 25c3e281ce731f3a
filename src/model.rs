//! The canonical records: positions, stations and the files that list them.

use vstd::prelude::*;
use crate::facility::FacilityType;
use crate::order::{in_file_order, chars_lt, chars_less, lemma_chars_lt_irreflexive, lemma_chars_lt_transitive, Record};
use crate::text::chars_of;

verus! {

/// The frequency of a position that has none assigned.
pub const DEFAULT_FREQUENCY: &'static str = "199.998";

/// The strings of a sequence, as character sequences.
pub open spec fn strs(s: Seq<String>) -> Seq<Seq<char>> {
    s.map_values(|x: String| x@)
}

pub open spec fn opt_str(o: Option<String>) -> Option<Seq<char>> {
    match o {
        Some(s) => Some(s@),
        None => None,
    }
}

/// A controllable radio position.
#[derive(Clone, Debug)]
pub struct Position {
    pub id: String,
    pub facility_type: FacilityType,
    pub frequency: String,
    /// Callsign prefixes, each listed once.
    pub prefixes: Vec<String>,
    pub profile_id: Option<String>,
}

/// What a position holds, as mathematical values.
pub struct PositionView {
    pub id: Seq<char>,
    pub facility_type: FacilityType,
    pub frequency: Seq<char>,
    pub prefixes: Seq<Seq<char>>,
    pub profile_id: Option<Seq<char>>,
}

impl View for Position {
    type V = PositionView;

    open spec fn view(&self) -> PositionView {
        PositionView {
            id: self.id@,
            facility_type: self.facility_type,
            frequency: self.frequency@,
            prefixes: strs(self.prefixes@),
            profile_id: opt_str(self.profile_id),
        }
    }
}

pub open spec fn position_views(s: Seq<Position>) -> Seq<PositionView> {
    s.map_values(|p: Position| p@)
}

/// Positions are listed by facility rank, the most senior first, and then
/// by identifier.
pub open spec fn position_before(a: PositionView, b: PositionView) -> bool {
    a.facility_type.rank() > b.facility_type.rank() || (a.facility_type.rank()
        == b.facility_type.rank() && chars_lt(a.id, b.id))
}

impl Record for Position {
    open spec fn key(&self) -> Seq<char> {
        self.id@
    }

    open spec fn goes_before(&self, other: &Self) -> bool {
        position_before(self@, other@)
    }

    proof fn lemma_goes_before_irreflexive(a: &Self) {
        lemma_chars_lt_irreflexive(a.id@);
    }

    proof fn lemma_goes_before_transitive(a: &Self, b: &Self, c: &Self) {
        if a.facility_type.rank() == b.facility_type.rank() && b.facility_type.rank()
            == c.facility_type.rank() {
            lemma_chars_lt_transitive(a.id@, b.id@, c.id@);
        }
    }

    fn id(&self) -> (r: &String) {
        &self.id
    }

    fn precedes(&self, other: &Self) -> (r: bool) {
        let a = self.facility_type.level();
        let b = other.facility_type.level();
        if a != b {
            a > b
        } else {
            chars_less(&chars_of(self.id.as_str()), &chars_of(other.id.as_str()))
        }
    }
}

/// In a positions file in file order, no position is of higher rank than
/// one listed before it, and among positions of equal rank the identifiers
/// ascend.
pub proof fn lemma_position_file_order(s: Seq<Position>, i: int, j: int)
    requires
        in_file_order(s),
        0 <= i < j < s.len(),
    ensures
        s[i].facility_type.rank() >= s[j].facility_type.rank(),
        s[i].facility_type.rank() == s[j].facility_type.rank() ==> !chars_lt(s[j].id@, s[i].id@),
{
    assert(!s[j].goes_before(&s[i]));
}

/// An airspace sector and the positions that may control it.
#[derive(Clone, Debug)]
pub struct Station {
    pub id: String,
    pub parent_id: Option<String>,
    /// Identifiers of the controlling positions, each listed once.
    pub controlled_by: Vec<String>,
}

/// What a station holds, as mathematical values.
pub struct StationView {
    pub id: Seq<char>,
    pub parent_id: Option<Seq<char>>,
    pub controlled_by: Seq<Seq<char>>,
}

impl View for Station {
    type V = StationView;

    open spec fn view(&self) -> StationView {
        StationView {
            id: self.id@,
            parent_id: opt_str(self.parent_id),
            controlled_by: strs(self.controlled_by@),
        }
    }
}

pub open spec fn station_views(s: Seq<Station>) -> Seq<StationView> {
    s.map_values(|x: Station| x@)
}

impl Record for Station {
    open spec fn key(&self) -> Seq<char> {
        self.id@
    }

    /// Stations are listed by identifier.
    open spec fn goes_before(&self, other: &Self) -> bool {
        chars_lt(self.id@, other.id@)
    }

    proof fn lemma_goes_before_irreflexive(a: &Self) {
        lemma_chars_lt_irreflexive(a.id@);
    }

    proof fn lemma_goes_before_transitive(a: &Self, b: &Self, c: &Self) {
        lemma_chars_lt_transitive(a.id@, b.id@, c.id@);
    }

    fn id(&self) -> (r: &String) {
        &self.id
    }

    fn precedes(&self, other: &Self) -> (r: bool) {
        chars_less(&chars_of(self.id.as_str()), &chars_of(other.id.as_str()))
    }
}

/// The contents of a positions file.
#[derive(Clone, Debug)]
pub struct PositionConfigFile {
    pub positions: Vec<Position>,
}

/// The contents of a stations file.
#[derive(Clone, Debug)]
pub struct StationConfigFile {
    pub stations: Vec<Station>,
}

} // verus!
