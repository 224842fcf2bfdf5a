use db_mutations_tracker::posted::parse_program_id;
use db_mutations_tracker::{
    AuthSettings, MssqlConnParams, Part, PostedProgram, PostingChange, Program, ProgramHistory,
    ProgramStateSnapshot, ProgramStatus, Sheet, SnapshotError, Timestamp,
};

fn sheet(name: &str, grade: &str, po: u64) -> Sheet {
    Sheet { name: name.into(), grade: grade.into(), mm: "MM-1".into(), heat: "H1".into(), po }
}

fn part(name: &str, wo: &str, qty: u32) -> Part {
    Part { name: name.into(), wo: wo.into(), qty }
}

fn state(sheet: Sheet, parts: Vec<Part>) -> ProgramStateSnapshot {
    ProgramStateSnapshot {
        name: "2002".into(),
        machine: "laser".into(),
        sheet,
        parts,
        status: ProgramStatus::Posted(Timestamp { secs: 10, nanos: 0 }),
    }
}

fn same_quantities(a: &[Part], b: &[Part]) -> bool {
    a.len() == b.len() && a.iter().all(|p| b.iter().any(|q| p.equals(q)))
}

#[test]
fn replaying_reported_changes_reaches_the_observation() {
    let previous = state(sheet("A", "g1", 1), vec![part("p1", "w1", 1), part("p2", "w1", 2), part("p3", "w2", 3)]);
    let observed = state(
        Sheet { name: "A".into(), grade: "g2".into(), mm: "MM-2".into(), heat: "H1".into(), po: 7 },
        vec![part("p3", "w2", 3), part("p1", "w1", 9), part("p4", "w1", 4)],
    );
    let mut history = ProgramHistory::from_state(state(sheet("A", "g1", 1), vec![part("p1", "w1", 1), part("p2", "w1", 2), part("p3", "w2", 3)]));
    let changes = previous.calculate_changes(state(observed.sheet.clone(), observed.parts.clone())).unwrap();
    assert_eq!(changes.len(), 4);
    history.changes.extend(changes);
    let rebuilt = history.get_current_state().unwrap();
    assert_eq!(rebuilt.sheet, observed.sheet);
    assert!(same_quantities(&rebuilt.parts, &observed.parts));
}

#[test]
fn replaying_a_sheet_swap_reaches_the_observation() {
    let previous = state(sheet("A", "g1", 1), vec![part("p1", "w1", 1)]);
    let observed = state(sheet("B", "g1", 1), vec![]);
    let mut history = ProgramHistory::from_state(state(sheet("A", "g1", 1), vec![part("p1", "w1", 1)]));
    let changes = previous.calculate_changes(state(observed.sheet.clone(), vec![])).unwrap();
    assert!(matches!(&changes[0], PostingChange::SwapSheet(s) if s.name == "B"));
    assert!(matches!(&changes[1], PostingChange::DeletePart(p) if p.name == "p1"));
    history.changes.extend(changes);
    let rebuilt = history.get_current_state().unwrap();
    assert_eq!(rebuilt.sheet, observed.sheet);
    assert!(rebuilt.parts.is_empty());
}

#[test]
fn sheet_update_with_its_diff_gives_the_new_sheet() {
    let old = sheet("A", "g1", 1);
    let new = Sheet { name: "A".into(), grade: "g2".into(), mm: "MM-1".into(), heat: "H7".into(), po: 3 };
    let mut s = old.clone();
    s.update(&old.diff_sheet(new.clone()));
    assert_eq!(s, new);
}

#[test]
fn posted_program_reads_numeric_fields() {
    let p = PostedProgram::from_row_fields("4711", "laser", "S1", "g", "mm", "h", "42").unwrap();
    assert_eq!(p.program.name, 4711);
    assert_eq!(p.program.machine, "laser");
    assert_eq!(p.sheet.po, 42);
    assert!(p.parts.is_empty());
    assert_eq!(
        PostedProgram::from_row_fields("47a1", "laser", "S1", "g", "mm", "h", "42").unwrap_err(),
        SnapshotError::MalformedData("47a1".into())
    );
    assert_eq!(
        PostedProgram::from_row_fields("4711", "laser", "S1", "g", "mm", "h", "x").unwrap_err(),
        SnapshotError::MalformedData("x".into())
    );
    assert_eq!(parse_program_id("4294967296"), Err(SnapshotError::MalformedData("4294967296".into())));
    assert_eq!(parse_program_id("12"), Ok(12));
}

#[test]
fn posted_program_changes() {
    let a = PostedProgram { program: Program { name: 1, machine: "m1".into() }, sheet: sheet("A", "g", 1), parts: vec![part("p", "w", 1)] };
    let same = PostedProgram { program: Program { name: 1, machine: "m1".into() }, sheet: sheet("A", "g", 1), parts: vec![part("p", "w", 1)] };
    assert!(a.calculate_changes(same).is_none());

    let moved = PostedProgram { program: Program { name: 1, machine: "m2".into() }, sheet: sheet("A", "g", 1), parts: vec![part("p", "w", 1)] };
    let changes = a.calculate_changes(moved).unwrap();
    assert!(changes.is_empty());

    let more = PostedProgram { program: Program { name: 1, machine: "m1".into() }, sheet: sheet("A", "g", 1), parts: vec![part("p", "w", 1), part("q", "w", 2)] };
    let changes = a.calculate_changes(more).unwrap();
    assert_eq!(changes.len(), 1);
    assert!(matches!(&changes[0], PostingChange::AddPart(p) if p.name == "q" && p.qty == 2));
}

#[test]
fn connection_parameters() {
    let p = MssqlConnParams::with_host_and_db("host1", "db1");
    assert_eq!(p.server, "host1");
    assert_eq!(p.database.as_deref(), Some("db1"));
    assert!(p.user.is_none() && p.password.is_none() && p.instance.is_none());

    let s = MssqlConnParams::with_host_and_db("host1", "db1").into_settings();
    assert_eq!(s.host, "host1");
    assert_eq!(s.database, "db1");
    assert!(matches!(s.auth, AuthSettings::Integrated));

    let p = MssqlConnParams::with_host_and_db("host1", "db1").set_auth("me", "secret");
    assert_eq!(p.user.as_deref(), Some("me"));
    assert_eq!(p.password.as_deref(), Some("secret"));
    let s = p.into_settings();
    assert!(matches!(s.auth, AuthSettings::SqlServer { ref user, ref password } if user == "me" && password == "secret"));
}

#[test]
fn departure_becomes_its_change() {
    let d = PostingChange::from_status(ProgramStatus::Deleted(Timestamp { secs: 5, nanos: 1 }));
    assert!(matches!(d, PostingChange::Deleted(t) if t.secs == 5 && t.nanos == 1));
    let c = PostingChange::from_status(ProgramStatus::Updated(Timestamp { secs: 6, nanos: 0 }));
    assert!(matches!(c, PostingChange::Completed(t) if t.secs == 6));
}

#[test]
fn timestamp_differences() {
    let a = Timestamp { secs: 10, nanos: 500 };
    let b = Timestamp { secs: 8, nanos: 700 };
    assert_eq!(a.nanos_since(&b), 1_999_999_800);
    assert_eq!(b.nanos_since(&a), -1_999_999_800);
    assert_eq!(Timestamp::from_secs(-3), Timestamp { secs: -3, nanos: 0 });
}
