use vstd::prelude::*;

verus! {

/// The stock sheet a program is nested on.
///
/// Two sheets are the same piece of stock when their `name`s are equal; the
/// other fields are data about that stock that may be corrected over time.
#[derive(Debug)]
pub struct Sheet {
    pub name: String,
    pub grade: String,
    pub mm: String,
    pub heat: String,
    pub po: u64,
}

/// A new value for one field of a sheet, other than its name.
#[derive(Debug)]
pub enum SheetData {
    Grade(String),
    MaterialMaster(String),
    HeatNumber(String),
    PoNumber(u64),
}

/// Field-by-field equality of two sheets (each string compared by its characters).
pub open spec fn same_sheet(a: Sheet, b: Sheet) -> bool {
    &&& a.name@ == b.name@
    &&& a.grade@ == b.grade@
    &&& a.mm@ == b.mm@
    &&& a.heat@ == b.heat@
    &&& a.po == b.po
}

/// The sheet after one field update.
pub open spec fn apply_sheet_data(s: Sheet, d: SheetData) -> Sheet {
    match d {
        SheetData::Grade(g) => Sheet { grade: g, ..s },
        SheetData::MaterialMaster(m) => Sheet { mm: m, ..s },
        SheetData::HeatNumber(h) => Sheet { heat: h, ..s },
        SheetData::PoNumber(p) => Sheet { po: p, ..s },
    }
}

/// The sheet after a list of field updates, applied in order.
pub open spec fn apply_sheet_updates(s: Sheet, data: Seq<SheetData>) -> Sheet
    decreases data.len(),
{
    if data.len() == 0 {
        s
    } else {
        apply_sheet_data(apply_sheet_updates(s, data.drop_last()), data.last())
    }
}

/// The updates that turn `before`'s fields into `after`'s: grade, material master,
/// heat number, then PO number, each only where it differs, carrying the new
/// value.
pub open spec fn sheet_diff(before: Sheet, after: Sheet) -> Seq<SheetData> {
    (if before.grade@ != after.grade@ { seq![SheetData::Grade(after.grade)] } else { seq![] }) + (
    if before.mm@ != after.mm@ {
        seq![SheetData::MaterialMaster(after.mm)]
    } else {
        seq![]
    }) + (if before.heat@ != after.heat@ {
        seq![SheetData::HeatNumber(after.heat)]
    } else {
        seq![]
    }) + (if before.po != after.po { seq![SheetData::PoNumber(after.po)] } else { seq![] })
}

/// Applying the updates from `before` to `after` to `before` yields `after`'s fields,
/// when both are the same piece of stock.
pub proof fn lemma_update_with_diff(before: Sheet, after: Sheet)
    requires
        before.name@ == after.name@,
    ensures
        same_sheet(apply_sheet_updates(before, sheet_diff(before, after)), after),
{
    let g: Seq<SheetData> = if before.grade@ != after.grade@ {
        seq![SheetData::Grade(after.grade)]
    } else {
        seq![]
    };
    let m: Seq<SheetData> = if before.mm@ != after.mm@ {
        seq![SheetData::MaterialMaster(after.mm)]
    } else {
        seq![]
    };
    let h: Seq<SheetData> = if before.heat@ != after.heat@ {
        seq![SheetData::HeatNumber(after.heat)]
    } else {
        seq![]
    };
    let p: Seq<SheetData> = if before.po != after.po { seq![SheetData::PoNumber(after.po)] } else { seq![] };
    assert(sheet_diff(before, after) == g + m + h + p);
    lemma_updates_concat(before, g, m);
    lemma_updates_concat(before, g + m, h);
    lemma_updates_concat(before, g + m + h, p);
    lemma_updates_one_or_none(before, g);
    lemma_updates_one_or_none(apply_sheet_updates(before, g), m);
    lemma_updates_one_or_none(apply_sheet_updates(before, g + m), h);
    lemma_updates_one_or_none(apply_sheet_updates(before, g + m + h), p);
}

proof fn lemma_updates_one_or_none(s: Sheet, d: Seq<SheetData>)
    requires
        d.len() <= 1,
    ensures
        d.len() == 0 ==> apply_sheet_updates(s, d) == s,
        d.len() == 1 ==> apply_sheet_updates(s, d) == apply_sheet_data(s, d[0]),
{
    if d.len() == 1 {
        assert(d.drop_last() =~= Seq::<SheetData>::empty());
        assert(apply_sheet_updates(s, d.drop_last()) == s);
    }
}

proof fn lemma_updates_concat(s: Sheet, a: Seq<SheetData>, b: Seq<SheetData>)
    ensures
        apply_sheet_updates(s, a + b) == apply_sheet_updates(apply_sheet_updates(s, a), b),
    decreases b.len(),
{
    if b.len() == 0 {
        assert(a + b =~= a);
    } else {
        assert((a + b).drop_last() =~= a + b.drop_last());
        lemma_updates_concat(s, a, b.drop_last());
    }
}

impl Clone for Sheet {
    fn clone(&self) -> (r: Self)
        ensures
            r == *self,
    {
        Sheet {
            name: self.name.clone(),
            grade: self.grade.clone(),
            mm: self.mm.clone(),
            heat: self.heat.clone(),
            po: self.po,
        }
    }
}

impl Clone for SheetData {
    fn clone(&self) -> (r: Self)
        ensures
            r == *self,
    {
        match self {
            SheetData::Grade(g) => SheetData::Grade(g.clone()),
            SheetData::MaterialMaster(m) => SheetData::MaterialMaster(m.clone()),
            SheetData::HeatNumber(h) => SheetData::HeatNumber(h.clone()),
            SheetData::PoNumber(p) => SheetData::PoNumber(*p),
        }
    }
}

impl PartialEq for Sheet {
    fn eq(&self, other: &Sheet) -> (r: bool)
        ensures
            r == same_sheet(*self, *other),
    {
        self.name == other.name && self.grade == other.grade && self.mm == other.mm && self.heat
            == other.heat && self.po == other.po
    }
}

impl vstd::std_specs::cmp::PartialEqSpecImpl for Sheet {
    open spec fn obeys_eq_spec() -> bool {
        true
    }

    open spec fn eq_spec(&self, other: &Sheet) -> bool {
        same_sheet(*self, *other)
    }
}

impl Sheet {
    /// Applies field updates in order; the name is never changed.
    pub fn update(&mut self, data: &Vec<SheetData>)
        ensures
            *final(self) == apply_sheet_updates(*old(self), data@),
    {
        let n = data.len();
        let mut i: usize = 0;
        while i < n
            invariant
                n == data@.len(),
                i <= n,
                *self == apply_sheet_updates(*old(self), data@.take(i as int)),
            decreases n - i,
        {
            assert(data@.take(i + 1).drop_last() == data@.take(i as int));
            match &data[i] {
                SheetData::Grade(grade) => self.grade = grade.clone(),
                SheetData::MaterialMaster(mm) => self.mm = mm.clone(),
                SheetData::HeatNumber(heat) => self.heat = heat.clone(),
                SheetData::PoNumber(po) => self.po = *po,
            }
            i = i + 1;
        }
        assert(data@.take(n as int) == data@);
    }

    /// The field updates that turn this sheet's data into `other`'s, in the
    /// order grade, material master, heat number, PO number; a field appears
    /// only where it differs, with `other`'s value.
    pub fn diff_sheet(&self, other: Sheet) -> (r: Vec<SheetData>)
        ensures
            r@ == sheet_diff(*self, other),
    {
        let mut sheet_diffs: Vec<SheetData> = Vec::new();
        if self.grade != other.grade {
            sheet_diffs.push(SheetData::Grade(other.grade));
        }
        if self.mm != other.mm {
            sheet_diffs.push(SheetData::MaterialMaster(other.mm));
        }
        if self.heat != other.heat {
            sheet_diffs.push(SheetData::HeatNumber(other.heat));
        }
        if self.po != other.po {
            sheet_diffs.push(SheetData::PoNumber(other.po));
        }
        assert(sheet_diffs@ =~= sheet_diff(*self, other));
        sheet_diffs
    }
}

} // verus!
