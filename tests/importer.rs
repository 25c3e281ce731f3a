use coverage_import::facility::FacilityType;
use coverage_import::merge::merge_records;
use coverage_import::model::{
    Position, PositionConfigFile, Station, StationConfigFile, DEFAULT_FREQUENCY,
};
use coverage_import::vatglasses::{
    Airspace, ImportError, VatglassesData, VatglassesPosition,
};

fn entry(id: &str, kind: &str, pre: &[&str], frequency: Option<&str>) -> VatglassesPosition {
    VatglassesPosition {
        id: id.to_string(),
        pre: pre.iter().map(|s| s.to_string()).collect(),
        kind: kind.to_string(),
        frequency: frequency.map(|s| s.to_string()),
    }
}

fn airspace(id: &str, group: &str, owner: &[&str]) -> Airspace {
    Airspace {
        id: id.to_string(),
        group: group.to_string(),
        owner: owner.iter().map(|s| s.to_string()).collect(),
    }
}

fn position(id: &str, facility_type: FacilityType, frequency: &str) -> Position {
    Position {
        id: id.to_string(),
        facility_type,
        frequency: frequency.to_string(),
        prefixes: vec![],
        profile_id: None,
    }
}

fn station(id: &str) -> Station {
    Station { id: id.to_string(), parent_id: None, controlled_by: vec![] }
}

#[test]
fn facility_codes() {
    let code = |s: &str| FacilityType::from_code(&s.chars().collect::<Vec<char>>());
    assert_eq!(code("TWR"), Some(FacilityType::Tower));
    assert_eq!(code("CTR"), Some(FacilityType::Enroute));
    assert_eq!(code("twr"), None);
    assert_eq!(code(""), None);
    let group = |s: &str| FacilityType::from_group(&s.chars().collect::<Vec<char>>());
    assert_eq!(group("APP"), FacilityType::Approach);
    assert_eq!(group("EGTT"), FacilityType::Unknown);
    assert_eq!(FacilityType::Tower.code_chars(), vec!['T', 'W', 'R']);
    assert!(FacilityType::Enroute.level() > FacilityType::Tower.level());
    assert!(FacilityType::Tower.level() > FacilityType::Ground.level());
}

#[test]
fn importer_positions_from_entries() {
    let data = VatglassesData {
        airspace: vec![],
        positions: vec![
            entry("EGLL_TWR", "TWR", &["EGLL", "EGLL", "EGWU"], Some("118.500")),
            entry("EGTT_CTR", "CTR", &[], None),
        ],
    };
    let f = PositionConfigFile::try_from_vatglasses(&data).ok().unwrap();
    assert_eq!(f.positions.len(), 2);
    assert_eq!(f.positions[0].id, "EGLL_TWR");
    assert_eq!(f.positions[0].facility_type, FacilityType::Tower);
    assert_eq!(f.positions[0].frequency, "118.500");
    assert_eq!(f.positions[0].prefixes, vec!["EGLL".to_string(), "EGWU".to_string()]);
    assert_eq!(f.positions[1].frequency, "199.998");
    assert_eq!(f.positions[1].frequency, DEFAULT_FREQUENCY);
    assert!(f.positions[1].prefixes.is_empty());
}

#[test]
fn importer_unknown_type_fails() {
    let data = VatglassesData {
        airspace: vec![],
        positions: vec![entry("A", "TWR", &[], None), entry("B", "NOPE", &[], None)],
    };
    match PositionConfigFile::try_from_vatglasses(&data) {
        Err(ImportError::UnknownFacilityType { position, kind }) => {
            assert_eq!(position, "B");
            assert_eq!(kind, "NOPE");
        }
        Ok(_) => panic!("an unknown facility type must fail the import"),
    }
}

#[test]
fn importer_stations_and_duplicates() {
    let data = VatglassesData {
        airspace: vec![
            airspace("LON", "CTR", &["EGTT_CTR", "EGTT_CTR", "EGTT_N_CTR"]),
            airspace("LON", "CTR", &["EGTT_CTR"]),
            airspace("LON", "APP", &[]),
            airspace("LON", "CTR", &[]),
            airspace("SCO", "CTR", &[]),
        ],
        positions: vec![],
    };
    let r = StationConfigFile::from_vatglasses(&data);
    assert_eq!(r.stations.stations.len(), 5);
    assert_eq!(
        r.stations.stations[0].controlled_by,
        vec!["EGTT_CTR".to_string(), "EGTT_N_CTR".to_string()]
    );
    assert_eq!(r.stations.stations[0].parent_id, None);
    assert_eq!(r.duplicates.len(), 2);
    assert_eq!(r.duplicates[0].id, "LON");
    assert_eq!(r.duplicates[0].facility_type, FacilityType::Enroute);
}

#[test]
fn merge_keeps_existing_records() {
    let existing = vec![position("A", FacilityType::Tower, "118.000")];
    let fresh = vec![position("A", FacilityType::Tower, "999.000")];
    let (all, added) = merge_records(existing, fresh);
    assert_eq!(added, 0);
    assert_eq!(all.len(), 1);
    assert_eq!(all[0].frequency, "118.000");
}

#[test]
fn merge_adds_one_new_record() {
    let existing = vec![
        position("A", FacilityType::Tower, "118.000"),
        position("B", FacilityType::Ground, "121.000"),
    ];
    let fresh = vec![
        position("B", FacilityType::Ground, "121.500"),
        position("C", FacilityType::Enroute, "127.000"),
    ];
    let (all, added) = merge_records(existing, fresh);
    assert_eq!(added, 1);
    assert_eq!(all.len(), 3);
    assert_eq!(all[0].frequency, "118.000");
    assert_eq!(all[1].frequency, "121.000");
    assert_eq!(all[2].id, "C");
}

#[test]
fn merge_is_idempotent() {
    let fresh = PositionConfigFile {
        positions: vec![
            position("A", FacilityType::Tower, "118.000"),
            position("B", FacilityType::Enroute, "127.000"),
        ],
    };
    let (first, added) = fresh.clone().combine(None);
    assert_eq!(added, 2);
    let (second, added) = fresh.combine(Some(first.clone()));
    assert_eq!(added, 0);
    let a: Vec<_> = first.positions.iter().map(|p| (p.id.clone(), p.frequency.clone())).collect();
    let b: Vec<_> = second.positions.iter().map(|p| (p.id.clone(), p.frequency.clone())).collect();
    assert_eq!(a, b);
    assert_eq!(b[0].0, "B");
}

#[test]
fn stations_combine_sorts_by_id() {
    let existing = StationConfigFile { stations: vec![station("M"), station("C")] };
    let fresh = StationConfigFile { stations: vec![station("A"), station("M"), station("Z")] };
    let (all, added) = fresh.combine(Some(existing));
    assert_eq!(added, 2);
    let ids: Vec<_> = all.stations.iter().map(|s| s.id.clone()).collect();
    assert_eq!(ids, vec!["A", "C", "M", "Z"]);
}

#[test]
fn empty_import_is_empty() {
    let data = VatglassesData { airspace: vec![], positions: vec![] };
    assert!(PositionConfigFile::try_from_vatglasses(&data).ok().unwrap().positions.is_empty());
    let r = StationConfigFile::from_vatglasses(&data);
    assert!(r.stations.stations.is_empty());
    assert!(r.duplicates.is_empty());
}
