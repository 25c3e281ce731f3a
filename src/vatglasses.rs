//! Positions and stations from a VATglasses data export.

use vstd::prelude::*;
use crate::facility::{facility_of_code, facility_of_group, FacilityType};
use crate::model::{
    position_views, station_views, strs, Position, PositionConfigFile, PositionView, Station,
    StationConfigFile, StationView, DEFAULT_FREQUENCY,
};
use crate::text::{chars_of, string_of};

verus! {

/// An airspace entry: a sector, the group it belongs to and its owners.
#[derive(Clone, Debug)]
pub struct Airspace {
    pub id: String,
    pub group: String,
    pub owner: Vec<String>,
}

/// A position entry, with the identifier under which the export lists it.
#[derive(Clone, Debug)]
pub struct VatglassesPosition {
    pub id: String,
    pub pre: Vec<String>,
    /// The facility code (`type` in the export).
    pub kind: String,
    pub frequency: Option<String>,
}

/// The parts of a VATglasses export that the importer reads.
#[derive(Clone, Debug)]
pub struct VatglassesData {
    pub airspace: Vec<Airspace>,
    pub positions: Vec<VatglassesPosition>,
}

impl VatglassesData {
    /// The export lists positions under their identifiers, so no identifier
    /// occurs twice.
    pub open spec fn wf(&self) -> bool {
        forall|i: int, j: int|
            0 <= i < j < self.positions@.len() ==> (#[trigger] self.positions@[i]).id@ != (
            #[trigger] self.positions@[j]).id@
    }
}

/// Why an export gives no positions file.
#[derive(Clone, Debug)]
pub enum ImportError {
    /// The position `position` has a type that names no facility.
    UnknownFacilityType { position: String, kind: String },
}

/// The first occurrence of each element, in order.
pub open spec fn distinct_in_order(s: Seq<Seq<char>>) -> Seq<Seq<char>>
    decreases s.len(),
{
    if s.len() == 0 {
        Seq::empty()
    } else {
        let r = distinct_in_order(s.drop_last());
        if r.contains(s.last()) {
            r
        } else {
            r.push(s.last())
        }
    }
}

/// The strings of `v`, each once, in the order of first occurrence.
pub fn distinct_strings(v: &Vec<String>) -> (r: Vec<String>)
    ensures
        strs(r@) == distinct_in_order(strs(v@)),
{
    let mut out: Vec<String> = Vec::new();
    let mut i: usize = 0;
    assert(strs(v@).take(0) =~= Seq::<Seq<char>>::empty());
    assert(strs(out@) =~= Seq::<Seq<char>>::empty());
    while i < v.len()
        invariant
            i <= v@.len(),
            strs(out@) == distinct_in_order(strs(v@).take(i as int)),
        decreases v.len() - i,
    {
        let mut found = false;
        let mut j: usize = 0;
        while j < out.len()
            invariant
                j <= out@.len(),
                i < v@.len(),
                found == (exists|q: int| 0 <= q < j && #[trigger] strs(out@)[q] == v@[i as int]@),
            decreases out.len() - j,
        {
            if out[j] == v[i] {
                assert(strs(out@)[j as int] == v@[i as int]@);
                found = true;
            }
            j = j + 1;
        }
        proof {
            assert(strs(v@).take(i + 1).drop_last() =~= strs(v@).take(i as int));
            assert(strs(v@).take(i + 1).last() == v@[i as int]@);
            if found {
                let q = choose|q: int| 0 <= q < out@.len() && strs(out@)[q] == v@[i as int]@;
                assert(strs(out@).contains(v@[i as int]@));
            } else {
                assert(!strs(out@).contains(v@[i as int]@));
            }
        }
        if !found {
            let ghost before = out@;
            out.push(v[i].clone());
            assert(strs(out@) =~= strs(before).push(v@[i as int]@));
        }
        i = i + 1;
    }
    assert(strs(v@).take(v@.len() as int) =~= strs(v@));
    out
}

/// The frequency of an entry, or the one that stands for none.
pub open spec fn frequency_or_default(f: Option<String>) -> Seq<char> {
    match f {
        Some(s) => s@,
        None => DEFAULT_FREQUENCY@,
    }
}

/// The position that an entry describes, if its type names a facility.
pub open spec fn imported_position(e: VatglassesPosition) -> Option<PositionView> {
    match facility_of_code(e.kind@) {
        None => None,
        Some(ft) => Some(
            PositionView {
                id: e.id@,
                facility_type: ft,
                frequency: frequency_or_default(e.frequency),
                prefixes: distinct_in_order(strs(e.pre@)),
                profile_id: None,
            },
        ),
    }
}

/// The station that an airspace entry describes.
pub open spec fn imported_station(a: Airspace) -> StationView {
    StationView { id: a.id@, parent_id: None, controlled_by: distinct_in_order(strs(a.owner@)) }
}

/// What tells airspace entries apart when looking for duplicates: the
/// identifier and the facility type of the group.
pub open spec fn airspace_key(a: Airspace) -> (Seq<char>, FacilityType) {
    (a.id@, facility_of_group(a.group@))
}

/// The key of each entry that repeats the key of an earlier entry, in order.
pub open spec fn duplicate_keys(s: Seq<Airspace>) -> Seq<(Seq<char>, FacilityType)>
    decreases s.len(),
{
    if s.len() == 0 {
        Seq::empty()
    } else {
        let r = duplicate_keys(s.drop_last());
        if exists|j: int| 0 <= j < s.len() - 1 && airspace_key(#[trigger] s[j]) == airspace_key(s.last()) {
            r.push(airspace_key(s.last()))
        } else {
            r
        }
    }
}

/// An airspace entry whose identifier and facility type an earlier entry
/// already had.
#[derive(Clone, Debug)]
pub struct DuplicateAirspace {
    pub id: String,
    pub facility_type: FacilityType,
}

pub open spec fn duplicate_views(s: Seq<DuplicateAirspace>) -> Seq<(Seq<char>, FacilityType)> {
    s.map_values(|d: DuplicateAirspace| (d.id@, d.facility_type))
}

/// The stations of an export, and the duplicates found among its entries.
#[derive(Clone, Debug)]
pub struct StationImport {
    pub stations: StationConfigFile,
    pub duplicates: Vec<DuplicateAirspace>,
}

fn frequency_of(f: &Option<String>) -> (r: String)
    ensures
        r@ == frequency_or_default(*f),
{
    match f {
        Some(s) => s.clone(),
        None => string_of(chars_of(DEFAULT_FREQUENCY).as_slice()),
    }
}

impl PositionConfigFile {
    /// One position for each position entry of the export, in its order.
    /// Fails on the first entry whose type names no facility.
    pub fn try_from_vatglasses(data: &VatglassesData) -> (r: Result<PositionConfigFile, ImportError>)
        ensures
            r.is_ok() <==> forall|i: int|
                0 <= i < data.positions@.len() ==> (#[trigger] imported_position(
                    data.positions@[i],
                )).is_some(),
            r matches Ok(f) ==> f.positions@.len() == data.positions@.len() && forall|i: int|
                0 <= i < data.positions@.len() ==> Some((#[trigger] f.positions@[i])@)
                    == imported_position(data.positions@[i]),
            r matches Ok(f) ==> (data.wf() ==> forall|i: int, j: int|
                0 <= i < j < f.positions@.len() ==> (#[trigger] f.positions@[i]).id@ != (
                #[trigger] f.positions@[j]).id@),
            r matches Err(ImportError::UnknownFacilityType { position, kind }) ==> exists|i: int|
                0 <= i < data.positions@.len() && (#[trigger] imported_position(data.positions@[i])).is_none()
                    && position@ == data.positions@[i].id@ && kind@ == data.positions@[i].kind@,
    {
        let mut positions: Vec<Position> = Vec::new();
        let mut i: usize = 0;
        while i < data.positions.len()
            invariant
                i <= data.positions@.len(),
                positions@.len() == i,
                forall|q: int|
                    0 <= q < i ==> Some((#[trigger] positions@[q])@) == imported_position(
                        data.positions@[q],
                    ),
            decreases data.positions.len() - i,
        {
            let e = &data.positions[i];
            let kind = chars_of(e.kind.as_str());
            match FacilityType::from_code(kind.as_slice()) {
                None => {
                    assert(imported_position(data.positions@[i as int]).is_none());
                    return Err(
                        ImportError::UnknownFacilityType {
                            position: e.id.clone(),
                            kind: e.kind.clone(),
                        },
                    );
                },
                Some(facility_type) => {
                    let p = Position {
                        id: e.id.clone(),
                        facility_type,
                        frequency: frequency_of(&e.frequency),
                        prefixes: distinct_strings(&e.pre),
                        profile_id: None,
                    };
                    positions.push(p);
                },
            }
            i = i + 1;
        }
        assert forall|q: int| 0 <= q < data.positions@.len() implies (#[trigger] imported_position(
            data.positions@[q],
        )).is_some() by {
            assert(Some(positions@[q]@) == imported_position(data.positions@[q]));
        }
        assert forall|a: int, b: int| 0 <= a < b < positions@.len() && data.wf() implies (
        #[trigger] positions@[a]).id@ != (#[trigger] positions@[b]).id@ by {
            assert(Some(positions@[a]@) == imported_position(data.positions@[a]));
            assert(Some(positions@[b]@) == imported_position(data.positions@[b]));
            assert(data.positions@[a].id@ != data.positions@[b].id@);
        }
        Ok(PositionConfigFile { positions })
    }
}

fn owners(a: &Airspace) -> (r: Vec<String>)
    ensures
        strs(r@) == distinct_in_order(strs(a.owner@)),
{
    distinct_strings(&a.owner)
}

/// Whether an entry before entry `i` has its identifier and the facility
/// type `facility_type` of its group.
fn repeats_earlier(
    all: &Vec<Airspace>,
    facilities: &Vec<FacilityType>,
    i: usize,
    facility_type: FacilityType,
) -> (r: bool)
    requires
        i < all@.len(),
        i <= facilities@.len(),
        forall|q: int| 0 <= q < i ==> #[trigger] facilities@[q] == facility_of_group(all@[q].group@),
        facility_type == facility_of_group(all@[i as int].group@),
    ensures
        r == (exists|q: int|
            0 <= q < i && airspace_key(#[trigger] all@[q]) == airspace_key(all@[i as int])),
{
    let mut j: usize = 0;
    while j < i
        invariant
            j <= i < all@.len(),
            i <= facilities@.len(),
            forall|q: int| 0 <= q < i ==> #[trigger] facilities@[q] == facility_of_group(all@[q].group@),
            facility_type == facility_of_group(all@[i as int].group@),
            forall|q: int|
                0 <= q < j ==> airspace_key(#[trigger] all@[q]) != airspace_key(all@[i as int]),
        decreases i - j,
    {
        if all[j].id == all[i].id && facilities[j] == facility_type {
            assert(airspace_key(all@[j as int]) == airspace_key(all@[i as int]));
            return true;
        }
        j = j + 1;
    }
    false
}

impl StationConfigFile {
    /// One station for each airspace entry of the export, in its order, and
    /// each entry whose identifier and group facility an earlier entry had.
    pub fn from_vatglasses(data: &VatglassesData) -> (r: StationImport)
        ensures
            station_views(r.stations.stations@) == data.airspace@.map_values(
                |a: Airspace| imported_station(a),
            ),
            duplicate_views(r.duplicates@) == duplicate_keys(data.airspace@),
    {
        let ghost all = data.airspace@;
        let mut stations: Vec<Station> = Vec::new();
        let mut facilities: Vec<FacilityType> = Vec::new();
        let mut duplicates: Vec<DuplicateAirspace> = Vec::new();
        let mut i: usize = 0;
        assert(all.take(0) =~= Seq::<Airspace>::empty());
        assert(duplicate_views(duplicates@) =~= Seq::<(Seq<char>, FacilityType)>::empty());
        while i < data.airspace.len()
            invariant
                i <= all.len(),
                all == data.airspace@,
                stations@.len() == i,
                facilities@.len() == i,
                forall|q: int| 0 <= q < i ==> (#[trigger] stations@[q])@ == imported_station(all[q]),
                forall|q: int|
                    0 <= q < i ==> #[trigger] facilities@[q] == facility_of_group(all[q].group@),
                duplicate_views(duplicates@) == duplicate_keys(all.take(i as int)),
            decreases all.len() - i,
        {
            let a = &data.airspace[i];
            let group = chars_of(a.group.as_str());
            let facility_type = FacilityType::from_group(group.as_slice());
            let repeated = repeats_earlier(&data.airspace, &facilities, i, facility_type);
            proof {
                let t = all.take(i + 1);
                assert(t.drop_last() =~= all.take(i as int));
                assert(t.last() == all[i as int]);
                assert forall|q: int| 0 <= q < t.len() - 1 implies #[trigger] t[q] == all[q] by {}
                if repeated {
                    let q = choose|q: int|
                        0 <= q < i && airspace_key(#[trigger] all[q]) == airspace_key(all[i as int]);
                    assert(t[q] == all[q]);
                    assert(exists|j: int|
                        0 <= j < t.len() - 1 && airspace_key(#[trigger] t[j]) == airspace_key(t.last()));
                } else {
                    assert(!exists|j: int|
                        0 <= j < t.len() - 1 && airspace_key(#[trigger] t[j]) == airspace_key(t.last()))
                        by {
                        if exists|j: int|
                            0 <= j < t.len() - 1 && airspace_key(#[trigger] t[j]) == airspace_key(t.last()) {
                            let j = choose|j: int|
                                0 <= j < t.len() - 1 && airspace_key(#[trigger] t[j]) == airspace_key(
                                    t.last(),
                                );
                            assert(t[j] == all[j]);
                        }
                    }
                }
            }
            if repeated {
                let ghost before = duplicates@;
                duplicates.push(DuplicateAirspace { id: a.id.clone(), facility_type });
                assert(duplicate_views(duplicates@) =~= duplicate_views(before).push(
                    airspace_key(all[i as int]),
                ));
            }
            stations.push(Station { id: a.id.clone(), parent_id: None, controlled_by: owners(a) });
            facilities.push(facility_type);
            i = i + 1;
        }
        assert(all.take(all.len() as int) =~= all);
        assert(station_views(stations@) =~= all.map_values(|a: Airspace| imported_station(a)));
        StationImport { stations: StationConfigFile { stations }, duplicates }
    }
}

} // verus!
