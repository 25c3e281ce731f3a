use coverage_import::euroscope::{parse_sectorfile, EseLineError, ParsePosition};
use coverage_import::facility::FacilityType;
use coverage_import::model::Position;

fn ids(positions: &[Position]) -> Vec<String> {
    positions.iter().map(|p| p.id.clone()).collect()
}

#[test]
fn line_fields_map_to_position() {
    let p = Position::from_ese_line("EGLL_TWR:Heathrow Tower:118.500:LL:T:EGLL:TWR:-:-:0401:0467")
        .unwrap();
    assert_eq!(p.id, "EGLL_TWR");
    assert_eq!(p.frequency, "118.500");
    assert_eq!(p.prefixes, vec!["EGLL".to_string()]);
    assert_eq!(p.facility_type, FacilityType::Tower);
    assert_eq!(p.profile_id, None);
}

#[test]
fn line_with_exactly_seven_fields() {
    let p = Position::from_ese_line("A:B:121.900:D:E:LOWW:GND").unwrap();
    assert_eq!(p.id, "A");
    assert_eq!(p.frequency, "121.900");
    assert_eq!(p.prefixes, vec!["LOWW".to_string()]);
    assert_eq!(p.facility_type, FacilityType::Ground);
}

#[test]
fn short_line_is_invalid_format() {
    let r = Position::from_ese_line("A:B:121.900:D:E:LOWW");
    assert!(matches!(r, Err(EseLineError::InvalidFormat)));
}

#[test]
fn unknown_code_is_invalid_facility_type() {
    let r = Position::from_ese_line("A:B:121.900:D:E:LOWW:XYZ");
    assert!(matches!(r, Err(EseLineError::InvalidFacilityType)));
}

const FILE: &str = "\
; comment line\n\
[INFO]\n\
OUTSIDE_TWR:Tower:118.000:O:T:OUTS:TWR\n\
[POSITIONS]\n\
\n\
  EGLL_TWR:Heathrow Tower:118.500:LL:T:EGLL:TWR:-:-  \r\n\
LFPG_APP:De Gaulle Approach:125.000:PG:A:LFPG:APP\n\
BROKEN:only:three\n\
EGKK_XYZ:Gatwick:126.000:KK:X:EGKK:XYZ\n\
; EGCC_CTR:commented:1:2:3:EGCC:CTR\n\
EGTT_CTR:London Control:127.100:L:C:EGTT:CTR\n\
[AIRPORT]\n\
EGPH_TWR:Edinburgh Tower:118.700:PH:T:EGPH:TWR\n";

#[test]
fn sectorfile_reads_only_the_positions_section() {
    let f = parse_sectorfile(FILE.as_bytes(), &[]);
    assert_eq!(ids(&f.positions), vec!["EGTT_CTR", "LFPG_APP", "EGLL_TWR"]);
}

#[test]
fn malformed_lines_do_not_stop_the_parse() {
    let f = parse_sectorfile(FILE.as_bytes(), &[]);
    assert!(f.positions.iter().all(|p| p.id != "BROKEN" && p.id != "EGKK_XYZ"));
    assert_eq!(f.positions.len(), 3);
    assert_eq!(f.positions[0].frequency, "127.100");
}

#[test]
fn prefix_filter_keeps_matching_lines() {
    let f = parse_sectorfile(FILE.as_bytes(), &["EG".to_string()]);
    assert_eq!(ids(&f.positions), vec!["EGTT_CTR", "EGLL_TWR"]);
}

#[test]
fn prefix_filter_is_case_sensitive() {
    let f = parse_sectorfile(FILE.as_bytes(), &["eg".to_string()]);
    assert!(f.positions.is_empty());
}

#[test]
fn prefix_filter_example() {
    let text = "[POSITIONS]\nEGLL_N_TWR:T:118.500:A:B:EGLL:TWR\nLFPG_TWR:T:119.250:A:B:LFPG:TWR\n";
    let kept = parse_sectorfile(text.as_bytes(), &["EG".to_string()]);
    assert_eq!(ids(&kept.positions), vec!["EGLL_N_TWR"]);
    let all = parse_sectorfile(text.as_bytes(), &[]);
    assert_eq!(ids(&all.positions), vec!["EGLL_N_TWR", "LFPG_TWR"]);
}

#[test]
fn sectorfile_orders_by_rank_then_id() {
    let text = "[POSITIONS]\nB:x:1:x:x:P:TWR\nC:x:2:x:x:P:CTR\nA:x:3:x:x:P:GND\n";
    let f = parse_sectorfile(text.as_bytes(), &[]);
    assert_eq!(ids(&f.positions), vec!["C", "B", "A"]);
}

#[test]
fn equal_ranks_sort_by_id() {
    let text = "[POSITIONS]\nZZ:x:1:x:x:P:APP\nAB:x:2:x:x:P:APP\nAA:x:3:x:x:P:APP\n";
    let f = parse_sectorfile(text.as_bytes(), &[]);
    assert_eq!(ids(&f.positions), vec!["AA", "AB", "ZZ"]);
}

#[test]
fn sectorfile_is_read_as_windows_1252() {
    let mut bytes = b"[POSITIONS]\nLOWW_TWR:Wien Tower:119.400:W:T:LOWW:TWR:".to_vec();
    bytes.push(0xE9);
    bytes.extend_from_slice(b"\nLOWW_\x80:Wien:1:W:T:LOWW:GND\n");
    let f = parse_sectorfile(&bytes, &[]);
    assert_eq!(ids(&f.positions), vec!["LOWW_TWR", "LOWW_\u{20ac}"]);
}

#[test]
fn empty_file_gives_no_positions() {
    let f = parse_sectorfile(b"", &[]);
    assert!(f.positions.is_empty());
}

#[test]
fn no_marker_gives_no_positions() {
    let f = parse_sectorfile(b"EGLL_TWR:T:118.500:A:B:EGLL:TWR\n", &[]);
    assert!(f.positions.is_empty());
}

#[test]
fn second_marker_ends_the_section() {
    let text = "[POSITIONS]\nA:x:1:x:x:P:TWR\n[POSITIONS]\nB:x:2:x:x:P:TWR\n";
    let f = parse_sectorfile(text.as_bytes(), &[]);
    assert_eq!(ids(&f.positions), vec!["A"]);
}

#[test]
fn byte_order_mark_is_read_as_windows_1252() {
    let mut bytes = b"[POSITIONS]\n".to_vec();
    bytes.extend_from_slice(&[0xEF, 0xBB, 0xBF]);
    bytes.extend_from_slice(b"X:x:1:x:x:P:TWR\n");
    let f = parse_sectorfile(&bytes, &[]);
    assert_eq!(ids(&f.positions), vec!["\u{ef}\u{bb}\u{bf}X"]);
}

#[test]
fn extra_and_ignored_fields_do_not_change_the_position() {
    let a = Position::from_ese_line("ID:one:122.800:x:y:EDDF:APP").unwrap();
    let b = Position::from_ese_line("ID:two:122.800:z:w:EDDF:APP:more:fields").unwrap();
    assert_eq!(a.id, b.id);
    assert_eq!(a.frequency, b.frequency);
    assert_eq!(a.prefixes, b.prefixes);
    assert_eq!(a.facility_type, b.facility_type);
}

#[test]
fn empty_line_is_invalid_format() {
    assert!(matches!(Position::from_ese_line(""), Err(EseLineError::InvalidFormat)));
}
