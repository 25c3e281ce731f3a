//! Facility types: an ordered classification of positions.

use vstd::prelude::*;

verus! {

/// The level of an air traffic control facility, ordered from the least to
/// the most senior.
#[derive(Clone, Copy, Debug, PartialEq, Eq, Structural, Hash, PartialOrd, Ord)]
pub enum FacilityType {
    Unknown,
    Ramp,
    Delivery,
    Ground,
    Tower,
    Approach,
    Departure,
    Enroute,
    FlightServiceStation,
}

/// Three-letter code as a character sequence.
pub open spec fn code3(a: char, b: char, c: char) -> Seq<char> {
    seq![a, b, c]
}

/// The facility type that a code names, if any.
pub open spec fn facility_of_code(s: Seq<char>) -> Option<FacilityType> {
    if s == code3('R', 'M', 'P') {
        Some(FacilityType::Ramp)
    } else if s == code3('D', 'E', 'L') {
        Some(FacilityType::Delivery)
    } else if s == code3('G', 'N', 'D') {
        Some(FacilityType::Ground)
    } else if s == code3('T', 'W', 'R') {
        Some(FacilityType::Tower)
    } else if s == code3('A', 'P', 'P') {
        Some(FacilityType::Approach)
    } else if s == code3('D', 'E', 'P') {
        Some(FacilityType::Departure)
    } else if s == code3('C', 'T', 'R') {
        Some(FacilityType::Enroute)
    } else if s == code3('F', 'S', 'S') {
        Some(FacilityType::FlightServiceStation)
    } else {
        None
    }
}

/// The facility type of a group name: its code, or `Unknown`.
pub open spec fn facility_of_group(s: Seq<char>) -> FacilityType {
    match facility_of_code(s) {
        Some(f) => f,
        None => FacilityType::Unknown,
    }
}

fn is_code3(s: &[char], a: char, b: char, c: char) -> (r: bool)
    ensures
        r == (s@ == code3(a, b, c)),
{
    if s.len() == 3 && s[0] == a && s[1] == b && s[2] == c {
        assert(s@ =~= code3(a, b, c));
        true
    } else {
        false
    }
}

impl FacilityType {
    /// Seniority: a larger rank is a more senior facility.
    pub open spec fn rank(self) -> nat {
        match self {
            FacilityType::Unknown => 0,
            FacilityType::Ramp => 1,
            FacilityType::Delivery => 2,
            FacilityType::Ground => 3,
            FacilityType::Tower => 4,
            FacilityType::Approach => 5,
            FacilityType::Departure => 6,
            FacilityType::Enroute => 7,
            FacilityType::FlightServiceStation => 8,
        }
    }

    /// The code that names this facility type (`UNK` for `Unknown`).
    pub open spec fn code(self) -> Seq<char> {
        match self {
            FacilityType::Unknown => code3('U', 'N', 'K'),
            FacilityType::Ramp => code3('R', 'M', 'P'),
            FacilityType::Delivery => code3('D', 'E', 'L'),
            FacilityType::Ground => code3('G', 'N', 'D'),
            FacilityType::Tower => code3('T', 'W', 'R'),
            FacilityType::Approach => code3('A', 'P', 'P'),
            FacilityType::Departure => code3('D', 'E', 'P'),
            FacilityType::Enroute => code3('C', 'T', 'R'),
            FacilityType::FlightServiceStation => code3('F', 'S', 'S'),
        }
    }

    pub fn level(&self) -> (r: u8)
        ensures
            r as nat == self.rank(),
    {
        match self {
            FacilityType::Unknown => 0,
            FacilityType::Ramp => 1,
            FacilityType::Delivery => 2,
            FacilityType::Ground => 3,
            FacilityType::Tower => 4,
            FacilityType::Approach => 5,
            FacilityType::Departure => 6,
            FacilityType::Enroute => 7,
            FacilityType::FlightServiceStation => 8,
        }
    }

    /// The code of this facility type as characters.
    pub fn code_chars(&self) -> (r: Vec<char>)
        ensures
            r@ == self.code(),
    {
        let (a, b, c) = match self {
            FacilityType::Unknown => ('U', 'N', 'K'),
            FacilityType::Ramp => ('R', 'M', 'P'),
            FacilityType::Delivery => ('D', 'E', 'L'),
            FacilityType::Ground => ('G', 'N', 'D'),
            FacilityType::Tower => ('T', 'W', 'R'),
            FacilityType::Approach => ('A', 'P', 'P'),
            FacilityType::Departure => ('D', 'E', 'P'),
            FacilityType::Enroute => ('C', 'T', 'R'),
            FacilityType::FlightServiceStation => ('F', 'S', 'S'),
        };
        let r = vec![a, b, c];
        assert(r@ =~= code3(a, b, c));
        r
    }

    /// Reads a facility code such as `TWR` or `CTR`; `None` where the text
    /// names no facility type.
    pub fn from_code(s: &[char]) -> (r: Option<FacilityType>)
        ensures
            r == facility_of_code(s@),
    {
        if is_code3(s, 'R', 'M', 'P') {
            Some(FacilityType::Ramp)
        } else if is_code3(s, 'D', 'E', 'L') {
            Some(FacilityType::Delivery)
        } else if is_code3(s, 'G', 'N', 'D') {
            Some(FacilityType::Ground)
        } else if is_code3(s, 'T', 'W', 'R') {
            Some(FacilityType::Tower)
        } else if is_code3(s, 'A', 'P', 'P') {
            Some(FacilityType::Approach)
        } else if is_code3(s, 'D', 'E', 'P') {
            Some(FacilityType::Departure)
        } else if is_code3(s, 'C', 'T', 'R') {
            Some(FacilityType::Enroute)
        } else if is_code3(s, 'F', 'S', 'S') {
            Some(FacilityType::FlightServiceStation)
        } else {
            None
        }
    }

    /// The facility type that an airspace group stands for; `Unknown` where
    /// the group is no facility code.
    pub fn from_group(s: &[char]) -> (r: FacilityType)
        ensures
            r == facility_of_group(s@),
    {
        match FacilityType::from_code(s) {
            Some(f) => f,
            None => FacilityType::Unknown,
        }
    }
}

/// Every known facility type reads back from its own code.
pub proof fn lemma_code_round_trip(f: FacilityType)
    requires
        f != FacilityType::Unknown,
    ensures
        facility_of_code(f.code()) == Some(f),
{
}

} // verus!
