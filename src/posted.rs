use vstd::prelude::*;

use crate::change::{changes_view, PostingChange};
use crate::error::SnapshotError;
use crate::parse::{decimal_value, is_decimal, parse_number, parse_u32};
use crate::part::{part_quantities, same_parts, Part};
use crate::sheet::{same_sheet, Sheet};
use crate::state::{content_changes, diff_contents};

verus! {

/// A program by its numeric identity, and the machine it runs on.
#[derive(Debug)]
pub struct Program {
    pub name: u32,
    pub machine: String,
}

/// A posted program identified by number: its sheet and parts.
#[derive(Debug)]
pub struct PostedProgram {
    pub program: Program,
    pub sheet: Sheet,
    /// At most one part per identity.
    pub parts: Vec<Part>,
}

impl PartialEq for Program {
    fn eq(&self, other: &Program) -> (r: bool)
        ensures
            r == (self.name == other.name && self.machine@ == other.machine@),
    {
        self.name == other.name && self.machine == other.machine
    }
}

impl vstd::std_specs::cmp::PartialEqSpecImpl for Program {
    open spec fn obeys_eq_spec() -> bool {
        true
    }

    open spec fn eq_spec(&self, other: &Program) -> bool {
        self.name == other.name && self.machine@ == other.machine@
    }
}

/// Reads a program's numeric identity from its name in the source system,
/// failing with `MalformedData` (holding the name) when the name is not an
/// unsigned decimal that fits in a `u32`.
pub fn parse_program_id(name: &str) -> (r: Result<u32, SnapshotError>)
    ensures
        r is Ok <==> is_decimal(name@) && decimal_value(name@) <= u32::MAX,
        r is Ok ==> r->Ok_0 == decimal_value(name@),
        r is Err ==> r->Err_0 is MalformedData && r->Err_0->MalformedData_0@ == name@,
{
    match parse_u32(name) {
        Some(id) => Ok(id),
        None => Err(SnapshotError::MalformedData(name.to_owned())),
    }
}

impl PostedProgram {
    /// The program as read from its source row, with no parts yet. Fails with
    /// `MalformedData` when the program name, or else the PO number, is not
    /// numeric.
    pub fn from_row_fields(
        program: &str,
        machine: &str,
        sheet: &str,
        grade: &str,
        material: &str,
        heat: &str,
        po: &str,
    ) -> (r: Result<PostedProgram, SnapshotError>)
        ensures
            r is Ok <==> is_decimal(program@) && decimal_value(program@) <= u32::MAX && is_decimal(
                po@,
            ) && decimal_value(po@) <= u64::MAX,
            r is Ok ==> {
                let p = r->Ok_0;
                &&& p.program.name == decimal_value(program@)
                &&& p.program.machine@ == machine@
                &&& p.sheet.name@ == sheet@
                &&& p.sheet.grade@ == grade@
                &&& p.sheet.mm@ == material@
                &&& p.sheet.heat@ == heat@
                &&& p.sheet.po == decimal_value(po@)
                &&& p.parts@.len() == 0
            },
            r is Err ==> r->Err_0 is MalformedData,
            r is Err && !(is_decimal(program@) && decimal_value(program@) <= u32::MAX) ==> r->Err_0->MalformedData_0@ == program@,
            r is Err && is_decimal(program@) && decimal_value(program@) <= u32::MAX ==> r->Err_0->MalformedData_0@ == po@,
    {
        let name = match parse_program_id(program) {
            Ok(id) => id,
            Err(e) => {
                return Err(e);
            },
        };
        let po = match parse_number(po) {
            Ok(v) => v,
            Err(e) => {
                return Err(e);
            },
        };
        Ok(PostedProgram {
            program: Program { name, machine: machine.to_owned() },
            sheet: Sheet {
                name: sheet.to_owned(),
                grade: grade.to_owned(),
                mm: material.to_owned(),
                heat: heat.to_owned(),
                po,
            },
            parts: Vec::new(),
        })
    }

    /// The changes from this program to its `latest` observation; none when
    /// the program (number and machine), the sheet (every field) and the
    /// parts with their quantities are all unchanged.
    pub fn calculate_changes(&self, latest: PostedProgram) -> (r: Option<Vec<PostingChange>>)
        ensures
            r is None <==> {
                &&& self.program.name == latest.program.name
                &&& self.program.machine@ == latest.program.machine@
                &&& same_sheet(self.sheet, latest.sheet)
                &&& part_quantities(self.parts@) == part_quantities(latest.parts@)
            },
            r is Some ==> changes_view(r->0@) == content_changes(
                self.sheet,
                self.parts@,
                latest.sheet,
                latest.parts@,
            ),
    {
        if self.program == latest.program && self.sheet == latest.sheet && same_parts(
            &self.parts,
            &latest.parts,
        ) {
            return None;
        }
        Some(diff_contents(&self.sheet, &self.parts, latest.sheet, &latest.parts))
    }
}

} // verus!
