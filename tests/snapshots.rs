use db_mutations_tracker::history::Observation;
use db_mutations_tracker::parse::{parse_u32, parse_u64};
use db_mutations_tracker::part::{insert_part, remove_part};
use db_mutations_tracker::{
    Part, PostingChange, ProgramHistory, ProgramStateSnapshot, ProgramStatus, Sheet, SheetData,
    SnapshotError, Timestamp,
};

fn ts(secs: i64) -> Timestamp {
    Timestamp { secs, nanos: 0 }
}

fn sheet(name: &str, grade: &str) -> Sheet {
    Sheet {
        name: name.into(),
        grade: grade.into(),
        mm: "50/50W-0100".into(),
        heat: "A4A100".into(),
        po: 4500252867,
    }
}

fn part(name: &str, qty: u32) -> Part {
    Part { name: name.into(), wo: "test".into(), qty }
}

fn state(sheet: Sheet, parts: Vec<Part>) -> ProgramStateSnapshot {
    ProgramStateSnapshot {
        name: "1001".into(),
        machine: "mach1".into(),
        sheet,
        parts,
        status: ProgramStatus::Posted(ts(0)),
    }
}

fn posted(t: i64) -> PostingChange {
    PostingChange::Posted {
        timestamp: ts(t),
        machine: "mach1".into(),
        sheet: sheet("S12345", "50/50W"),
        parts: vec![part("x1a", 1)],
    }
}

fn history(changes: Vec<PostingChange>) -> ProgramHistory {
    ProgramHistory { program: "1001".into(), changes }
}

fn is_reposted(c: &PostingChange) -> bool {
    matches!(c, PostingChange::RePosted)
}

fn posted_at(c: &PostingChange) -> Option<i64> {
    match c {
        PostingChange::Posted { timestamp, .. } => Some(timestamp.secs),
        _ => None,
    }
}

fn deleted_at(c: &PostingChange) -> Option<i64> {
    match c {
        PostingChange::Deleted(t) => Some(t.secs),
        _ => None,
    }
}

#[test]
fn test_eq() {
    let s1 = Sheet { name: "S12345".into(), grade: "50/50W".into(), mm: "50/50W-0100".into(), heat: "A4A100".into(), po: 4500252867 };
    let s2 = Sheet { name: "X18053".into(), grade: "A709-50T2".into(), mm: "1xx0xxxA-07001".into(), heat: "D6001".into(), po: 4500252867 };
    let s3 = Sheet { name: "X18053".into(), grade: "A709-50T2".into(), mm: "1xx0xxxA-07001".into(), heat: "D6001".into(), po: 4500252867 };

    let p1 = vec![Part { name: "x1a".into(), wo: "test".into(), qty: 1 }, Part { name: "x1b".into(), wo: "test".into(), qty: 1 }];
    let p2 = vec![Part { name: "x1a".into(), wo: "test".into(), qty: 3 }, Part { name: "x1b".into(), wo: "test".into(), qty: 1 }];
    let p3 = vec![Part { name: "x1a".into(), wo: "test".into(), qty: 1 }, Part { name: "x1b".into(), wo: "test".into(), qty: 1 }];

    let a = ProgramStateSnapshot { name: "name".into(), machine: "mach1".into(), sheet: s1, parts: p1, status: ProgramStatus::Posted(ts(1_700_000_000)) };
    let b = ProgramStateSnapshot { name: "name".into(), machine: "mach1".into(), sheet: s2, parts: p2, status: ProgramStatus::Posted(ts(1_700_000_000)) };
    let c = ProgramStateSnapshot { name: "name".into(), machine: "mach1".into(), sheet: s3, parts: p3, status: ProgramStatus::Posted(ts(1_700_000_000)) };

    assert_eq!(b, c);
    assert_ne!(a, b);
}

#[test]
fn part_equality_is_identity_and_equals_adds_quantity() {
    let a = Part { name: String::from("x1a"), wo: String::from("something"), qty: 1 };
    let b = Part { name: String::from("x1a"), wo: String::from("something"), qty: 5 };
    let c = Part { name: String::from("x1a"), wo: String::from("something"), qty: 1 };
    assert!(a.equals(&c));
    assert!(!a.equals(&b));
    assert_eq!(a, b);
    let d = Part { name: String::from("x1a"), wo: String::from("other"), qty: 1 };
    assert_ne!(a, d);
}

#[test]
fn diff_reports_quantity_change_delete_and_add() {
    let previous = state(sheet("A", "g"), vec![part("p1", 1), part("p2", 2)]);
    let observed = state(sheet("A", "g"), vec![part("p1", 5), part("p3", 1)]);
    let changes = previous.calculate_changes(observed).expect("changes expected");
    assert_eq!(changes.len(), 3);
    match &changes[0] {
        PostingChange::ChangePartQty(p) => {
            assert_eq!(p.name, "p1");
            assert_eq!(p.qty, 5);
        }
        other => panic!("unexpected {:?}", other),
    }
    match &changes[1] {
        PostingChange::DeletePart(p) => {
            assert_eq!(p.name, "p2");
            assert_eq!(p.qty, 2);
        }
        other => panic!("unexpected {:?}", other),
    }
    match &changes[2] {
        PostingChange::AddPart(p) => {
            assert_eq!(p.name, "p3");
            assert_eq!(p.qty, 1);
        }
        other => panic!("unexpected {:?}", other),
    }
}

#[test]
fn diff_reports_quantity_only_change() {
    let previous = state(sheet("A", "g"), vec![part("p1", 1), part("p2", 2)]);
    let observed = state(sheet("A", "g"), vec![part("p1", 1), part("p2", 7)]);
    let changes = previous.calculate_changes(observed).expect("a quantity change is a change");
    assert_eq!(changes.len(), 1);
    match &changes[0] {
        PostingChange::ChangePartQty(p) => {
            assert_eq!(p.name, "p2");
            assert_eq!(p.qty, 7);
        }
        other => panic!("unexpected {:?}", other),
    }
}

#[test]
fn diff_of_identical_states_is_none() {
    let previous = state(sheet("A", "g"), vec![part("p1", 1), part("p2", 2)]);
    let observed = state(sheet("A", "g"), vec![part("p2", 2), part("p1", 1)]);
    assert!(previous.calculate_changes(observed).is_none());
}

#[test]
fn grade_change_updates_sheet_data() {
    let previous = state(sheet("A", "g1"), vec![part("p1", 1)]);
    let observed = state(sheet("A", "g2"), vec![part("p1", 1)]);
    let changes = previous.calculate_changes(observed).unwrap();
    assert_eq!(changes.len(), 1);
    match &changes[0] {
        PostingChange::UpdatedSheetData(d) => {
            assert_eq!(d.len(), 1);
            assert!(matches!(&d[0], SheetData::Grade(g) if g == "g2"));
        }
        other => panic!("unexpected {:?}", other),
    }
}

#[test]
fn name_change_swaps_sheet() {
    let previous = state(sheet("A", "g1"), vec![part("p1", 1)]);
    let mut new_sheet = sheet("B", "g2");
    new_sheet.po = 17;
    let observed = state(new_sheet.clone(), vec![part("p1", 1)]);
    let changes = previous.calculate_changes(observed).unwrap();
    assert_eq!(changes.len(), 1);
    match &changes[0] {
        PostingChange::SwapSheet(s) => assert_eq!(*s, new_sheet),
        other => panic!("unexpected {:?}", other),
    }
}

#[test]
fn diff_sheet_lists_changed_fields_in_order() {
    let a = sheet("A", "g1");
    let b = Sheet { name: "A".into(), grade: "g2".into(), mm: "m2".into(), heat: "A4A100".into(), po: 9 };
    let d = a.diff_sheet(b);
    assert_eq!(d.len(), 3);
    assert!(matches!(&d[0], SheetData::Grade(g) if g == "g2"));
    assert!(matches!(&d[1], SheetData::MaterialMaster(m) if m == "m2"));
    assert!(matches!(&d[2], SheetData::PoNumber(9)));
    assert!(a.diff_sheet(a.clone()).is_empty());
}

#[test]
fn update_applies_field_changes() {
    let mut s = sheet("A", "g1");
    s.update(&vec![SheetData::HeatNumber("H9".into()), SheetData::PoNumber(5), SheetData::Grade("g3".into())]);
    assert_eq!(s.name, "A");
    assert_eq!(s.grade, "g3");
    assert_eq!(s.heat, "H9");
    assert_eq!(s.po, 5);
    assert_eq!(s.mm, "50/50W-0100");
}

#[test]
fn repost_collapse_single_pair() {
    let mut h = history(vec![posted(100), PostingChange::Deleted(ts(108)), posted(500)]);
    h.flatten_repost();
    assert_eq!(h.changes.len(), 2);
    assert!(is_reposted(&h.changes[0]));
    assert_eq!(posted_at(&h.changes[1]), Some(500));
}

#[test]
fn repost_collapse_sequential_pairs() {
    let mut h = history(vec![posted(0), PostingChange::Deleted(ts(5)), posted(10), PostingChange::Deleted(ts(12))]);
    h.flatten_repost();
    assert_eq!(h.changes.len(), 2);
    assert!(is_reposted(&h.changes[0]));
    assert!(is_reposted(&h.changes[1]));
}

#[test]
fn repost_collapse_delete_first_and_far_apart() {
    let mut h = history(vec![posted(0), PostingChange::Deleted(ts(100)), posted(110), PostingChange::Deleted(ts(200))]);
    h.flatten_repost();
    assert_eq!(h.changes.len(), 3);
    assert_eq!(posted_at(&h.changes[0]), Some(0));
    assert!(is_reposted(&h.changes[1]));
    assert_eq!(deleted_at(&h.changes[2]), Some(200));
}

#[test]
fn flatten_twice_is_flatten_once() {
    let mut h = history(vec![posted(0), PostingChange::Deleted(ts(5)), posted(10), PostingChange::Deleted(ts(40)), posted(45), PostingChange::RePosted]);
    h.flatten_repost();
    let once: Vec<String> = h.changes.iter().map(|c| format!("{:?}", c)).collect();
    assert_eq!(once.len(), 4);
    h.flatten_repost();
    let twice: Vec<String> = h.changes.iter().map(|c| format!("{:?}", c)).collect();
    assert_eq!(once, twice);
}

#[test]
fn reposting_is_symmetric_and_bounded() {
    let p = posted(100);
    let d = PostingChange::Deleted(ts(114));
    assert!(PostingChange::is_reposting(&p, &d));
    assert!(PostingChange::is_reposting(&d, &p));
    let far = PostingChange::Deleted(ts(115));
    assert!(!PostingChange::is_reposting(&p, &far));
    assert!(!PostingChange::is_reposting(&far, &p));
    let close = PostingChange::Deleted(Timestamp { secs: 114, nanos: 999_999_999 });
    assert!(PostingChange::is_reposting(&p, &close));
    assert!(!PostingChange::is_reposting(&posted(1), &posted(2)));
    assert!(!PostingChange::is_reposting(&d, &PostingChange::Deleted(ts(100))));
}

#[test]
fn seed_round_trip() {
    let h = history(vec![posted(42)]);
    let st = h.get_current_state().unwrap();
    assert_eq!(st.name, "1001");
    assert_eq!(st.machine, "mach1");
    assert_eq!(st.sheet, sheet("S12345", "50/50W"));
    assert_eq!(st.parts.len(), 1);
    assert!(st.parts[0].equals(&part("x1a", 1)));
    assert_eq!(st.status, ProgramStatus::Posted(ts(42)));
}

#[test]
fn fold_applies_every_change_kind() {
    let h = history(vec![
        posted(1),
        PostingChange::ChangeMachine("mach2".into()),
        PostingChange::UpdatedSheetData(vec![SheetData::Grade("g9".into())]),
        PostingChange::AddPart(part("x2", 4)),
        PostingChange::ChangePartQty(part("x1a", 8)),
        PostingChange::DeletePart(part("x2", 0)),
        PostingChange::DeletePart(part("absent", 0)),
        PostingChange::RePosted,
        PostingChange::Completed(ts(9)),
    ]);
    let st = h.get_current_state().unwrap();
    assert_eq!(st.machine, "mach2");
    assert_eq!(st.sheet.grade, "g9");
    assert_eq!(st.sheet.name, "S12345");
    assert_eq!(st.parts.len(), 1);
    assert!(st.parts[0].equals(&part("x1a", 8)));
    assert_eq!(st.status, ProgramStatus::Updated(ts(9)));
}

#[test]
fn fold_swaps_sheet_and_reposts_replace_state() {
    let h = history(vec![
        posted(1),
        PostingChange::SwapSheet(sheet("X1", "gx")),
        PostingChange::Deleted(ts(2)),
        PostingChange::Posted { timestamp: ts(3), machine: "m3".into(), sheet: sheet("Y", "gy"), parts: vec![] },
    ]);
    let st = h.get_current_state().unwrap();
    assert_eq!(st.machine, "m3");
    assert_eq!(st.sheet.name, "Y");
    assert!(st.parts.is_empty());
    assert_eq!(st.status, ProgramStatus::Posted(ts(3)));

    let h = history(vec![posted(1), PostingChange::SwapSheet(sheet("X1", "gx")), PostingChange::Deleted(ts(2))]);
    let st = h.get_current_state().unwrap();
    assert_eq!(st.sheet.name, "X1");
    assert_eq!(st.status, ProgramStatus::Deleted(ts(2)));
}

#[test]
fn fold_of_corrupt_log_fails() {
    assert_eq!(history(vec![]).get_current_state().unwrap_err(), SnapshotError::PreconditionViolation);
    assert_eq!(
        history(vec![PostingChange::Deleted(ts(1)), posted(2)]).get_current_state().unwrap_err(),
        SnapshotError::PreconditionViolation
    );
}

#[test]
fn archive_codes_classify() {
    let st = state(sheet("A", "g"), vec![]);
    assert_eq!(st.is_updated_or_deleted("A", ts(7)).unwrap(), ProgramStatus::Posted(ts(7)));
    assert_eq!(st.is_updated_or_deleted("B", ts(7)).unwrap(), ProgramStatus::Deleted(ts(7)));
    assert_eq!(st.is_updated_or_deleted("C", ts(7)).unwrap(), ProgramStatus::Updated(ts(7)));
    assert_eq!(
        st.is_updated_or_deleted("Z", ts(7)).unwrap_err(),
        SnapshotError::UnexpectedClassificationCode { code: "Z".into(), program: "1001".into() }
    );
    assert!(st.is_updated_or_deleted("AB", ts(7)).is_err());
}

#[test]
fn row_fields_parse_po_number() {
    let st = ProgramStateSnapshot::from_row_fields("1001", "m", "S1", "g", "mm", "h", "4500252867", ts(3)).unwrap();
    assert_eq!(st.sheet.po, 4500252867);
    assert_eq!(st.name, "1001");
    assert!(st.parts.is_empty());
    assert_eq!(st.status, ProgramStatus::Posted(ts(3)));
    assert_eq!(
        ProgramStateSnapshot::from_row_fields("1001", "m", "S1", "g", "mm", "h", "45x", ts(3)).unwrap_err(),
        SnapshotError::MalformedData("45x".into())
    );
}

#[test]
fn decimal_parsing() {
    assert_eq!(parse_u64("0"), Some(0));
    assert_eq!(parse_u64("+17"), Some(17));
    assert_eq!(parse_u64("18446744073709551615"), Some(u64::MAX));
    assert_eq!(parse_u64("18446744073709551616"), None);
    assert_eq!(parse_u64(""), None);
    assert_eq!(parse_u64("+"), None);
    assert_eq!(parse_u64("-1"), None);
    assert_eq!(parse_u64("1 "), None);
    assert_eq!(parse_u32("4294967295"), Some(u32::MAX));
    assert_eq!(parse_u32("4294967296"), None);
}

#[test]
fn part_insert_replaces_by_identity() {
    let mut parts = vec![part("a", 1), part("b", 2)];
    insert_part(&mut parts, part("b", 9));
    assert_eq!(parts.len(), 2);
    assert_eq!(parts[1].qty, 9);
    insert_part(&mut parts, part("c", 3));
    assert_eq!(parts.len(), 3);
    remove_part(&mut parts, &part("a", 0));
    assert_eq!(parts.len(), 2);
    assert_eq!(parts[0].name, "b");
    remove_part(&mut parts, &part("zz", 0));
    assert_eq!(parts.len(), 2);
}

#[test]
fn observation_appends_diff_and_flattens() {
    let mut h = history(vec![posted(1)]);
    let observed = state(sheet("S12345", "50/50W"), vec![part("x1a", 2)]);
    let mut observed = observed;
    observed.name = "1001".into();
    assert_eq!(h.apply_observation(Observation::Found(observed)), Ok(true));
    assert_eq!(h.changes.len(), 2);
    assert!(matches!(&h.changes[1], PostingChange::ChangePartQty(p) if p.qty == 2));

    let same = state(sheet("S12345", "50/50W"), vec![part("x1a", 2)]);
    assert_eq!(h.apply_observation(Observation::Found(same)), Ok(false));
    assert_eq!(h.changes.len(), 2);

    assert_eq!(h.apply_observation(Observation::Gone(ProgramStatus::Updated(ts(50)))), Ok(true));
    assert!(matches!(&h.changes[2], PostingChange::Completed(t) if t.secs == 50));

    let mut bad = history(vec![PostingChange::RePosted]);
    assert_eq!(
        bad.apply_observation(Observation::Gone(ProgramStatus::Deleted(ts(1)))),
        Err(SnapshotError::PreconditionViolation)
    );
    assert_eq!(bad.changes.len(), 1);
}

#[test]
fn observation_collapses_repost_pairs_in_the_log() {
    let mut h = history(vec![posted(1), PostingChange::Deleted(ts(1000)), posted(1004)]);
    let again = state(sheet("S12345", "50/50W"), vec![part("x1a", 1)]);
    assert_eq!(h.apply_observation(Observation::Found(again)), Ok(false));
    assert_eq!(h.changes.len(), 2);
    assert_eq!(posted_at(&h.changes[0]), Some(1));
    assert!(is_reposted(&h.changes[1]));
}

#[test]
fn history_from_first_observation() {
    let st = state(sheet("A", "g"), vec![part("p1", 1)]);
    let h = ProgramHistory::from_state(st);
    assert_eq!(h.program, "1001");
    assert_eq!(h.changes.len(), 1);
    let back = h.get_current_state().unwrap();
    assert_eq!(back.status, ProgramStatus::Posted(ts(0)));
    assert_eq!(back.parts.len(), 1);
    let h2 = ProgramHistory::new("77", posted(3));
    assert_eq!(h2.program, "77");
    assert_eq!(posted_at(&h2.changes[0]), Some(3));
}
