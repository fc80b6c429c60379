//! Dimensional descriptors: the value types that the compiler reads.
use vstd::prelude::*;

verus! {

/// The text of an optional string.
pub open spec fn opt_view(o: Option<String>) -> Option<Seq<char>> {
    match o {
        Some(s) => Some(s@),
        None => None,
    }
}

/// The texts of a sequence of strings.
pub open spec fn strs_view(v: Seq<String>) -> Seq<Seq<char>> {
    v.map_values(|s: String| s@)
}

pub fn clone_opt(o: &Option<String>) -> (r: Option<String>)
    ensures
        r == *o,
{
    match o {
        Some(s) => Some(s.clone()),
        None => None,
    }
}

pub fn clone_strs(v: &Vec<String>) -> (r: Vec<String>)
    ensures
        r@ == v@,
{
    let mut r: Vec<String> = Vec::new();
    let mut i: usize = 0;
    while i < v.len()
        invariant
            i <= v.len(),
            r@ == v@.subrange(0, i as int),
        decreases v.len() - i,
    {
        r.push(v[i].clone());
        i = i + 1;
        assert(r@ =~= v@.subrange(0, i as int));
    }
    assert(v@.subrange(0, v.len() as int) =~= v@);
    r
}

pub fn opt_eq(a: &Option<String>, b: &Option<String>) -> (r: bool)
    ensures
        r == (opt_view(*a) == opt_view(*b)),
{
    match a {
        Some(x) => match b {
            Some(y) => {
                let e = x.eq(y);
                e
            },
            None => false,
        },
        None => match b {
            Some(_) => false,
            None => true,
        },
    }
}

pub fn strs_eq(a: &Vec<String>, b: &Vec<String>) -> (r: bool)
    ensures
        r == (strs_view(a@) == strs_view(b@)),
{
    if a.len() != b.len() {
        assert(strs_view(a@).len() != strs_view(b@).len());
        return false;
    }
    let mut i: usize = 0;
    while i < a.len()
        invariant
            i <= a.len(),
            a.len() == b.len(),
            forall|j: int| 0 <= j < i ==> a@[j]@ == b@[j]@,
        decreases a.len() - i,
    {
        if a[i] != b[i] {
            assert(strs_view(a@)[i as int] != strs_view(b@)[i as int]);
            return false;
        }
        i = i + 1;
    }
    assert(strs_view(a@) =~= strs_view(b@));
    true
}

/// The fact table that a query reads.
#[derive(Debug, Clone)]
pub struct TableSql {
    pub name: String,
    pub primary_key: Option<String>,
}

/// A dimension table.
#[derive(Debug, Clone)]
pub struct Table {
    pub name: String,
    pub schema: Option<String>,
    pub primary_key: Option<String>,
}

/// The text of a dimension table: name, schema and primary key.
pub struct TableView {
    pub name: Seq<char>,
    pub schema: Option<Seq<char>>,
    pub primary_key: Option<Seq<char>>,
}

impl View for Table {
    type V = TableView;

    open spec fn view(&self) -> TableView {
        TableView {
            name: self.name@,
            schema: opt_view(self.schema),
            primary_key: opt_view(self.primary_key),
        }
    }
}

impl Table {
    pub fn copy(&self) -> (r: Table)
        ensures
            r == *self,
    {
        Table {
            name: self.name.clone(),
            schema: clone_opt(&self.schema),
            primary_key: clone_opt(&self.primary_key),
        }
    }

    pub fn same(&self, o: &Table) -> (r: bool)
        ensures
            r == (self@ == o@),
    {
        self.name == o.name && opt_eq(&self.schema, &o.schema) && opt_eq(
            &self.primary_key,
            &o.primary_key,
        )
    }
}

/// One level of a dimension: a key column and an optional label column.
#[derive(Debug, Clone)]
pub struct LevelColumn {
    pub key_column: String,
    pub name_column: Option<String>,
}

/// The text of a level: its key column and its optional label column.
pub struct LevelView {
    pub key: Seq<char>,
    pub name: Option<Seq<char>>,
}

impl View for LevelColumn {
    type V = LevelView;

    open spec fn view(&self) -> LevelView {
        LevelView { key: self.key_column@, name: opt_view(self.name_column) }
    }
}

impl LevelColumn {
    pub fn copy(&self) -> (r: LevelColumn)
        ensures
            r == *self,
    {
        LevelColumn { key_column: self.key_column.clone(), name_column: clone_opt(&self.name_column) }
    }

    pub fn same(&self, o: &LevelColumn) -> (r: bool)
        ensures
            r == (self@ == o@),
    {
        self.key_column == o.key_column && opt_eq(&self.name_column, &o.name_column)
    }
}

/// The views of a sequence of levels.
pub open spec fn levels_view(ls: Seq<LevelColumn>) -> Seq<LevelView> {
    ls.map_values(|l: LevelColumn| l@)
}

/// A dimension joined to the fact table, with its levels from coarse to fine.
#[derive(Debug, Clone)]
pub struct DrilldownSql {
    pub foreign_key: String,
    pub primary_key: String,
    pub table: Table,
    pub level_columns: Vec<LevelColumn>,
    pub property_columns: Vec<String>,
}

/// The full descriptor of a drilldown, as text.
pub struct DrillView {
    pub foreign_key: Seq<char>,
    pub primary_key: Seq<char>,
    pub table: TableView,
    pub levels: Seq<LevelView>,
    pub properties: Seq<Seq<char>>,
}

impl View for DrilldownSql {
    type V = DrillView;

    open spec fn view(&self) -> DrillView {
        DrillView {
            foreign_key: self.foreign_key@,
            primary_key: self.primary_key@,
            table: self.table@,
            levels: levels_view(self.level_columns@),
            properties: strs_view(self.property_columns@),
        }
    }
}

/// The views of a sequence of drilldowns.
pub open spec fn drills_view(ds: Seq<DrilldownSql>) -> Seq<DrillView> {
    ds.map_values(|d: DrilldownSql| d@)
}

fn levels_eq(a: &Vec<LevelColumn>, b: &Vec<LevelColumn>) -> (r: bool)
    ensures
        r == (levels_view(a@) == levels_view(b@)),
{
    if a.len() != b.len() {
        assert(levels_view(a@).len() != levels_view(b@).len());
        return false;
    }
    let mut i: usize = 0;
    while i < a.len()
        invariant
            i <= a.len(),
            a.len() == b.len(),
            forall|j: int| 0 <= j < i ==> a@[j]@ == b@[j]@,
        decreases a.len() - i,
    {
        if !a[i].same(&b[i]) {
            assert(levels_view(a@)[i as int] != levels_view(b@)[i as int]);
            return false;
        }
        i = i + 1;
    }
    assert(levels_view(a@) =~= levels_view(b@));
    true
}

fn clone_levels(v: &Vec<LevelColumn>) -> (r: Vec<LevelColumn>)
    ensures
        r@ == v@,
{
    let mut r: Vec<LevelColumn> = Vec::new();
    let mut i: usize = 0;
    while i < v.len()
        invariant
            i <= v.len(),
            r@ == v@.subrange(0, i as int),
        decreases v.len() - i,
    {
        r.push(v[i].copy());
        i = i + 1;
        assert(r@ =~= v@.subrange(0, i as int));
    }
    assert(v@.subrange(0, v.len() as int) =~= v@);
    r
}

impl DrilldownSql {
    pub fn copy(&self) -> (r: DrilldownSql)
        ensures
            r@ == self@,
    {
        DrilldownSql {
            foreign_key: self.foreign_key.clone(),
            primary_key: self.primary_key.clone(),
            table: self.table.copy(),
            level_columns: clone_levels(&self.level_columns),
            property_columns: clone_strs(&self.property_columns),
        }
    }

    /// Value equality over the whole descriptor.
    pub fn same(&self, o: &DrilldownSql) -> (r: bool)
        ensures
            r == (self@ == o@),
    {
        self.foreign_key == o.foreign_key && self.primary_key == o.primary_key && self.table.same(
            &o.table,
        ) && levels_eq(&self.level_columns, &o.level_columns) && strs_eq(
            &self.property_columns,
            &o.property_columns,
        )
    }
}

/// How the members of a cut are quoted.
#[derive(Debug, Clone, Copy, PartialEq, Eq, Structural)]
pub enum MemberType {
    Text,
    NonText,
}

/// A filter on one column, with what it takes to join to that column.
#[derive(Debug, Clone)]
pub struct CutSql {
    pub foreign_key: String,
    pub primary_key: String,
    pub table: Table,
    pub column: String,
    pub members: Vec<String>,
    pub member_type: MemberType,
}

/// The text of a cut.
pub struct CutView {
    pub foreign_key: Seq<char>,
    pub primary_key: Seq<char>,
    pub table: TableView,
    pub column: Seq<char>,
    pub members: Seq<Seq<char>>,
    pub member_type: MemberType,
}

impl View for CutSql {
    type V = CutView;

    open spec fn view(&self) -> CutView {
        CutView {
            foreign_key: self.foreign_key@,
            primary_key: self.primary_key@,
            table: self.table@,
            column: self.column@,
            members: strs_view(self.members@),
            member_type: self.member_type,
        }
    }
}

/// The views of a sequence of cuts.
pub open spec fn cuts_view(cs: Seq<CutSql>) -> Seq<CutView> {
    cs.map_values(|c: CutSql| c@)
}

impl CutSql {
    pub fn copy(&self) -> (r: CutSql)
        ensures
            r@ == self@,
    {
        CutSql {
            foreign_key: self.foreign_key.clone(),
            primary_key: self.primary_key.clone(),
            table: self.table.copy(),
            column: self.column.clone(),
            members: clone_strs(&self.members),
            member_type: self.member_type,
        }
    }
}

/// An aggregator applied to a column of the fact table.
#[derive(Debug, Clone)]
pub struct MeasureSql {
    pub aggregator: String,
    pub column: String,
}

impl MeasureSql {
    pub fn copy(&self) -> (r: MeasureSql)
        ensures
            r == *self,
    {
        MeasureSql { aggregator: self.aggregator.clone(), column: self.column.clone() }
    }
}

/// The RCA configuration: the dimension that may be cut, the dimension that
/// stays uncut, and the measure whose shares are compared.
#[derive(Debug, Clone)]
pub struct RcaSql {
    pub drill_1: Vec<DrilldownSql>,
    pub drill_2: Vec<DrilldownSql>,
    pub mea: MeasureSql,
}

} // verus!
