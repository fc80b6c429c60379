//! The RCA compiler: grouping sets, cut placement, and the roll-up / melt SQL
//! that derives the coarse aggregates `c` and `d` from the scans `a` and `b`.
//!
//! Ordinarily `a`, `b`, `c` and `d` would each be a scan of the fact table:
//! - `a`: each member of drill 1, each member of drill 2 (cuttable on drill 1)
//! - `b`: all of drill 1, each member of drill 2
//! - `c`: each member of drill 1, all of drill 2 (cuttable on drill 1)
//! - `d`: all of drill 1, all of drill 2
//!
//! Only `a` and `b` are scanned. `c` is derived from `a` by one more group-by
//! that collects the drill 2 columns and `a` into arrays (`groupArray`) while
//! summing `a`, and then melts the arrays back to rows (`Array Join`), so that
//! each row of `a` carries the `c` of its group. `d` is derived from `b` the
//! same way.
use crate::model::{
    cuts_view, drills_view, levels_view, strs_view, CutSql, CutView, DrillView, DrilldownSql,
    LevelColumn, LevelView, MeasureSql, RcaSql,
};
use crate::text::{decimal, decimal_text, join_strs, joined, replace_text, replaced};
use vstd::prelude::*;

verus! {

/// The key columns of a sequence of levels.
pub open spec fn level_keys(ls: Seq<LevelView>) -> Seq<Seq<char>> {
    ls.map_values(|l: LevelView| l.key)
}

/// The key columns of every level of every drilldown, in order.
pub open spec fn drills_keys(ds: Seq<DrillView>) -> Seq<Seq<char>>
    decreases ds.len(),
{
    if ds.len() == 0 {
        Seq::empty()
    } else {
        drills_keys(ds.drop_last()) + level_keys(ds.last().levels)
    }
}

/// The columns of one level: its key, then its label if it has one.
pub open spec fn level_cols(l: LevelView) -> Seq<Seq<char>> {
    match l.name {
        Some(n) => seq![l.key, n],
        None => seq![l.key],
    }
}

/// The columns of a sequence of levels, in order.
pub open spec fn levels_cols(ls: Seq<LevelView>) -> Seq<Seq<char>>
    decreases ls.len(),
{
    if ls.len() == 0 {
        Seq::empty()
    } else {
        levels_cols(ls.drop_last()) + level_cols(ls.last())
    }
}

/// The level columns of every drilldown, in order (property columns left out).
pub open spec fn drills_level_cols(ds: Seq<DrillView>) -> Seq<Seq<char>>
    decreases ds.len(),
{
    if ds.len() == 0 {
        Seq::empty()
    } else {
        drills_level_cols(ds.drop_last()) + levels_cols(ds.last().levels)
    }
}

/// The grouping columns of every drilldown: its level columns, then its
/// property columns.
pub open spec fn drills_cols(ds: Seq<DrillView>) -> Seq<Seq<char>>
    decreases ds.len(),
{
    if ds.len() == 0 {
        Seq::empty()
    } else {
        drills_cols(ds.drop_last()) + levels_cols(ds.last().levels) + ds.last().properties
    }
}

pub open spec fn drill_1_keys(rca: RcaSql) -> Seq<Seq<char>> {
    drills_keys(drills_view(rca.drill_1@))
}

pub open spec fn drill_2_keys(rca: RcaSql) -> Seq<Seq<char>> {
    drills_keys(drills_view(rca.drill_2@))
}

/// A cut on `col` may stand in the scan of `a` (and so in `c`): it does not
/// filter on a level of drill 2.
pub open spec fn legal_for_ac(col: Seq<char>, rca: RcaSql) -> bool {
    !drill_2_keys(rca).contains(col)
}

/// A cut on `col` may stand in the scan of `b` (and so in `d`): it filters on
/// no level of drill 1 nor of drill 2.
pub open spec fn legal_for_bd(col: Seq<char>, rca: RcaSql) -> bool {
    !drill_1_keys(rca).contains(col) && !drill_2_keys(rca).contains(col)
}

/// No key column is a level of both drill 1 and drill 2.
pub open spec fn keys_disjoint(rca: RcaSql) -> bool {
    forall|k: Seq<char>| drill_1_keys(rca).contains(k) ==> !drill_2_keys(rca).contains(k)
}

/// Both RCA dimensions have levels, and no level key is shared.
pub open spec fn valid_rca(rca: RcaSql) -> bool {
    drill_1_keys(rca).len() > 0 && drill_2_keys(rca).len() > 0 && keys_disjoint(rca)
}

/// Every cut names a column.
pub open spec fn cuts_resolvable(cuts: Seq<CutView>) -> bool {
    forall|i: int| 0 <= i < cuts.len() ==> cuts[i].column.len() > 0
}

/// Why a query cannot be compiled.
#[derive(Debug, Clone, PartialEq, Eq)]
pub enum RcaError {
    /// drill 1 or drill 2 has no level, or the two share a level key.
    InvalidRcaConfiguration,
    /// A cut names no column, so its placement cannot be decided.
    UnresolvableCutColumn,
    /// The primary aggregation of `a` or `b` failed; its message is kept.
    CollaboratorCompilationFailure(String),
}

/// The key columns of every level of `ds`, in order.
pub fn drill_keys(ds: &[DrilldownSql]) -> (r: Vec<String>)
    ensures
        strs_view(r@) == drills_keys(drills_view(ds@)),
{
    let mut r: Vec<String> = Vec::new();
    let mut i: usize = 0;
    while i < ds.len()
        invariant
            i <= ds.len(),
            strs_view(r@) == drills_keys(drills_view(ds@.subrange(0, i as int))),
        decreases ds.len() - i,
    {
        let levels = &ds[i].level_columns;
        let ghost before = strs_view(r@);
        let mut j: usize = 0;
        while j < levels.len()
            invariant
                i < ds.len(),
                levels == &ds@[i as int].level_columns,
                j <= levels.len(),
                strs_view(r@) == before + level_keys(
                    levels_view(levels@.subrange(0, j as int)),
                ),
            decreases levels.len() - j,
        {
            let ghost r0 = r@;
            let ghost lv0 = levels_view(levels@.subrange(0, j as int));
            r.push(levels[j].key_column.clone());
            assert(strs_view(r@) =~= strs_view(r0).push(levels@[j as int].key_column@));
            assert(levels_view(levels@.subrange(0, j + 1)) =~= lv0.push(
                levels@[j as int]@,
            ));
            assert(level_keys(lv0.push(levels@[j as int]@)) =~= level_keys(lv0).push(
                levels@[j as int].key_column@,
            ));
            j = j + 1;
            assert(strs_view(r@) =~= before + level_keys(
                levels_view(levels@.subrange(0, j as int)),
            ));
        }
        assert(levels@.subrange(0, j as int) =~= levels@);
        assert(drills_view(ds@.subrange(0, i + 1)).drop_last() =~= drills_view(
            ds@.subrange(0, i as int),
        ));
        i = i + 1;
    }
    assert(ds@.subrange(0, i as int) =~= ds@);
    r
}

/// Whether `s` is among `v`.
pub fn contains_str(v: &Vec<String>, s: &String) -> (r: bool)
    ensures
        r == strs_view(v@).contains(s@),
{
    let mut i: usize = 0;
    while i < v.len()
        invariant
            i <= v.len(),
            forall|j: int| 0 <= j < i ==> v@[j]@ != s@,
        decreases v.len() - i,
    {
        if v[i].eq(s) {
            assert(strs_view(v@)[i as int] == s@);
            return true;
        }
        i = i + 1;
    }
    assert(!strs_view(v@).contains(s@)) by {
        if strs_view(v@).contains(s@) {
            let k = choose|k: int| 0 <= k < strs_view(v@).len() && strs_view(v@)[k] == s@;
            assert(v@[k]@ == s@);
        }
    }
    false
}

/// The cuts that stand in the scan of `a`.
pub open spec fn ac_filter(rca: RcaSql) -> spec_fn(CutView) -> bool {
    |c: CutView| legal_for_ac(c.column, rca)
}

/// The cuts that stand in the scan of `b`.
pub open spec fn bd_filter(rca: RcaSql) -> spec_fn(CutView) -> bool {
    |c: CutView| legal_for_bd(c.column, rca)
}

/// Checks the RCA configuration, then the cuts.
pub fn validate(cuts: &[CutSql], rca: &RcaSql) -> (r: Result<(), RcaError>)
    ensures
        !valid_rca(*rca) ==> r == Err::<(), RcaError>(RcaError::InvalidRcaConfiguration),
        valid_rca(*rca) && !cuts_resolvable(cuts_view(cuts@)) ==> r == Err::<(), RcaError>(
            RcaError::UnresolvableCutColumn,
        ),
        valid_rca(*rca) && cuts_resolvable(cuts_view(cuts@)) ==> r is Ok,
{
    let k1 = drill_keys(rca.drill_1.as_slice());
    let k2 = drill_keys(rca.drill_2.as_slice());
    if k1.len() == 0 || k2.len() == 0 {
        return Err(RcaError::InvalidRcaConfiguration);
    }
    let mut i: usize = 0;
    while i < k1.len()
        invariant
            i <= k1.len(),
            strs_view(k1@) == drill_1_keys(*rca),
            strs_view(k2@) == drill_2_keys(*rca),
            k1.len() > 0 && k2.len() > 0,
            forall|j: int| 0 <= j < i ==> !strs_view(k2@).contains(strs_view(k1@)[j]),
        decreases k1.len() - i,
    {
        if contains_str(&k2, &k1[i]) {
            assert(strs_view(k1@)[i as int] == k1@[i as int]@);
            assert(strs_view(k1@).contains(k1@[i as int]@));
            return Err(RcaError::InvalidRcaConfiguration);
        }
        i = i + 1;
    }
    assert(keys_disjoint(*rca));
    let mut i: usize = 0;
    while i < cuts.len()
        invariant
            i <= cuts.len(),
            valid_rca(*rca),
            forall|j: int| 0 <= j < i ==> cuts@[j].column@.len() > 0,
        decreases cuts.len() - i,
    {
        if cuts[i].column.as_str().is_empty() {
            assert(cuts_view(cuts@)[i as int].column.len() == 0);
            return Err(RcaError::UnresolvableCutColumn);
        }
        i = i + 1;
    }
    assert(cuts_resolvable(cuts_view(cuts@)));
    Ok(())
}

/// Splits the cuts between the scan of `a` and the scan of `b`, in order.
pub fn partition_cuts(cuts: &[CutSql], rca: &RcaSql) -> (r: (Vec<CutSql>, Vec<CutSql>))
    ensures
        cuts_view(r.0@) == cuts_view(cuts@).filter(ac_filter(*rca)),
        cuts_view(r.1@) == cuts_view(cuts@).filter(bd_filter(*rca)),
{
    broadcast use Seq::lemma_filter_push;

    let k1 = drill_keys(rca.drill_1.as_slice());
    let k2 = drill_keys(rca.drill_2.as_slice());
    let mut ac: Vec<CutSql> = Vec::new();
    let mut bd: Vec<CutSql> = Vec::new();
    let mut i: usize = 0;
    while i < cuts.len()
        invariant
            i <= cuts.len(),
            strs_view(k1@) == drill_1_keys(*rca),
            strs_view(k2@) == drill_2_keys(*rca),
            cuts_view(ac@) == cuts_view(cuts@.subrange(0, i as int)).filter(ac_filter(*rca)),
            cuts_view(bd@) == cuts_view(cuts@.subrange(0, i as int)).filter(bd_filter(*rca)),
        decreases cuts.len() - i,
    {
        let cut = &cuts[i];
        let in_1 = contains_str(&k1, &cut.column);
        let in_2 = contains_str(&k2, &cut.column);
        let ghost prefix = cuts_view(cuts@.subrange(0, i as int));
        assert(cuts_view(cuts@.subrange(0, i + 1)) =~= prefix.push(cut@));
        let ghost ac0 = ac@;
        let ghost bd0 = bd@;
        assert(ac_filter(*rca)(cut@) == !in_2);
        assert(bd_filter(*rca)(cut@) == (!in_1 && !in_2));
        proof {
            prefix.lemma_filter_push(cut@, ac_filter(*rca));
            prefix.lemma_filter_push(cut@, bd_filter(*rca));
        }
        if !in_2 {
            ac.push(cut.copy());
            assert(cuts_view(ac@) =~= cuts_view(ac0).push(cut@));
        }
        if !in_1 && !in_2 {
            bd.push(cut.copy());
            assert(cuts_view(bd@) =~= cuts_view(bd0).push(cut@));
        }
        i = i + 1;
    }
    assert(cuts@.subrange(0, i as int) =~= cuts@);
    (ac, bd)
}

/// Appends copies of `src` to `out`.
fn append_drills(out: &mut Vec<DrilldownSql>, src: &[DrilldownSql])
    ensures
        drills_view(final(out)@) == drills_view(old(out)@) + drills_view(src@),
{
    let ghost start = drills_view(out@);
    let mut i: usize = 0;
    while i < src.len()
        invariant
            i <= src.len(),
            drills_view(out@) == start + drills_view(src@.subrange(0, i as int)),
        decreases src.len() - i,
    {
        let ghost out0 = out@;
        out.push(src[i].copy());
        assert(drills_view(out@) =~= drills_view(out0).push(src@[i as int]@));
        assert(drills_view(src@.subrange(0, i + 1)) =~= drills_view(src@.subrange(0, i as int)).push(
            src@[i as int]@,
        ));
        i = i + 1;
    }
    assert(src@.subrange(0, i as int) =~= src@);
}

/// The four grouping sets of the decomposition.
pub struct GroupingSets {
    /// The base drilldowns, then drill 1, then drill 2.
    pub a: Vec<DrilldownSql>,
    /// The base drilldowns, then drill 2.
    pub b: Vec<DrilldownSql>,
    /// The base drilldowns, then drill 1.
    pub c: Vec<DrilldownSql>,
    /// The base drilldowns.
    pub d: Vec<DrilldownSql>,
}

/// Builds the grouping sets of `a`, `b`, `c` and `d` from the base drilldowns.
pub fn compose_drilldowns(drills: &[DrilldownSql], rca: &RcaSql) -> (r: GroupingSets)
    ensures
        drills_view(r.a@) == drills_view(drills@) + drills_view(rca.drill_1@) + drills_view(
            rca.drill_2@,
        ),
        drills_view(r.b@) == drills_view(drills@) + drills_view(rca.drill_2@),
        drills_view(r.c@) == drills_view(drills@) + drills_view(rca.drill_1@),
        drills_view(r.d@) == drills_view(drills@),
{
    let mut a: Vec<DrilldownSql> = Vec::new();
    append_drills(&mut a, drills);
    append_drills(&mut a, rca.drill_1.as_slice());
    append_drills(&mut a, rca.drill_2.as_slice());
    let mut b: Vec<DrilldownSql> = Vec::new();
    append_drills(&mut b, drills);
    append_drills(&mut b, rca.drill_2.as_slice());
    let mut c: Vec<DrilldownSql> = Vec::new();
    append_drills(&mut c, drills);
    append_drills(&mut c, rca.drill_1.as_slice());
    let mut d: Vec<DrilldownSql> = Vec::new();
    append_drills(&mut d, drills);
    assert(drills_view(Seq::<DrilldownSql>::empty()) =~= Seq::<DrillView>::empty());
    assert(drills_view(a@) =~= drills_view(drills@) + drills_view(rca.drill_1@) + drills_view(
        rca.drill_2@,
    ));
    assert(drills_view(b@) =~= drills_view(drills@) + drills_view(rca.drill_2@));
    assert(drills_view(c@) =~= drills_view(drills@) + drills_view(rca.drill_1@));
    assert(drills_view(d@) =~= drills_view(drills@));
    GroupingSets { a, b, c, d }
}

/// The measures handed to both scans: the RCA measure first, so that it is
/// the aggregate in position 0, then the caller's measures in order.
pub fn measures_with_rca(meas: &[MeasureSql], rca: &RcaSql) -> (r: Vec<MeasureSql>)
    ensures
        r@ == seq![rca.mea] + meas@,
{
    let mut r: Vec<MeasureSql> = Vec::new();
    r.push(rca.mea.copy());
    let mut i: usize = 0;
    while i < meas.len()
        invariant
            i <= meas.len(),
            r@ == seq![rca.mea] + meas@.subrange(0, i as int),
        decreases meas.len() - i,
    {
        r.push(meas[i].copy());
        i = i + 1;
        assert(r@ =~= seq![rca.mea] + meas@.subrange(0, i as int));
    }
    assert(meas@.subrange(0, i as int) =~= meas@);
    r
}

/// `cols` followed by a comma, or nothing when there are no columns.
pub open spec fn lead(cols: Seq<char>) -> Seq<char> {
    if cols.len() == 0 {
        Seq::empty()
    } else {
        cols + ", "@
    }
}

/// A grouping clause on `cols`, or nothing when there are no columns.
pub open spec fn group_by(cols: Seq<char>) -> Seq<char> {
    if cols.len() == 0 {
        Seq::empty()
    } else {
        " group by "@ + cols
    }
}

/// Collects column `c` of every row of a group into the array `c_s`.
pub open spec fn group_array_item(c: Seq<char>) -> Seq<char> {
    "groupArray("@ + c + ") as "@ + c + "_s"@
}

/// Expands the array `c_s` back into the column `c`.
pub open spec fn array_join_item(c: Seq<char>) -> Seq<char> {
    c + "_s as "@ + c
}

pub open spec fn group_array_items(cols: Seq<Seq<char>>) -> Seq<Seq<char>> {
    cols.map_values(|c: Seq<char>| group_array_item(c))
}

pub open spec fn array_join_items(cols: Seq<Seq<char>>) -> Seq<Seq<char>> {
    cols.map_values(|c: Seq<char>| array_join_item(c))
}

/// The drilldowns that are not among `ds`.
pub open spec fn outside_of(ds: Seq<DrillView>) -> spec_fn(DrillView) -> bool {
    |d: DrillView| !ds.contains(d)
}

/// The grouping columns of `ds`, comma separated.
pub open spec fn cols_text(ds: Seq<DrillView>) -> Seq<char> {
    joined(drills_cols(ds), ", "@)
}

/// Rolls `fine` up to `coarse` over the columns `kept`, collecting the other
/// columns into arrays, then melts the arrays back to one row per row of the
/// inner query, each carrying the `coarse` value of its group.
pub open spec fn rollup_text(
    outer: Seq<char>,
    kept: Seq<char>,
    ga: Seq<char>,
    inner: Seq<char>,
    fine: Seq<char>,
    coarse: Seq<char>,
    aj: Seq<char>,
) -> Seq<char> {
    "select "@ + lead(outer) + fine + ", "@ + coarse + " from (select "@ + lead(kept) + lead(ga)
        + "groupArray("@ + fine + ") as "@ + fine + "_s, sum("@ + fine + ") as "@ + coarse
        + " from ("@ + inner + ")"@ + group_by(kept) + ") Array Join "@ + lead(aj) + fine
        + "_s as "@ + fine
}

/// The names of the caller's measures in the result: `m1` to `mn`.
pub open spec fn passthrough_names(n: nat) -> Seq<Seq<char>> {
    Seq::new(n, |i: int| "m"@ + decimal((i + 1) as nat))
}

/// The caller's measures after the RCA column: a comma and their names, or
/// nothing when there are none.
pub open spec fn passthrough_text(n: nat) -> Seq<char> {
    if n == 0 {
        Seq::empty()
    } else {
        ", "@ + joined(passthrough_names(n), ", "@)
    }
}

/// Joins the derived `(a, c)` rows with the `(b, d)` rows on `b`'s grouping
/// columns and computes the index.
pub open spec fn final_text(
    a_cols: Seq<char>,
    b_cols: Seq<char>,
    ac: Seq<char>,
    bd: Seq<char>,
    n_meas: nat,
) -> Seq<char> {
    "select "@ + lead(a_cols) + "((a/b) / (c/d)) as rca"@ + passthrough_text(n_meas)
        + " from (select * from ("@ + ac + ") all inner join ("@ + bd + ") using "@ + b_cols
        + ")"@
}

/// The derivation of `a` and `c` from the scan `a_sql`.
pub open spec fn ac_text(drills: Seq<DrillView>, rca: RcaSql, a_sql: Seq<char>) -> Seq<char> {
    let d1 = drills_view(rca.drill_1@);
    let d2 = drills_view(rca.drill_2@);
    let cols = drills_level_cols(d2);
    rollup_text(
        cols_text(drills + d1 + d2),
        cols_text((drills + d1).filter(outside_of(d2))),
        joined(group_array_items(cols), ", "@),
        replaced(a_sql, "final_m0"@, "a"@),
        "a"@,
        "c"@,
        joined(array_join_items(cols), ", "@),
    )
}

/// The derivation of `b` and `d` from the scan `b_sql`.
pub open spec fn bd_text(drills: Seq<DrillView>, rca: RcaSql, b_sql: Seq<char>) -> Seq<char> {
    let d2 = drills_view(rca.drill_2@);
    let cols = drills_level_cols(d2);
    rollup_text(
        cols_text(drills + d2),
        cols_text(drills.filter(outside_of(d2))),
        joined(group_array_items(cols), ", "@),
        replaced(b_sql, "final_m0"@, "b"@),
        "b"@,
        "d"@,
        joined(array_join_items(cols), ", "@),
    )
}

/// The whole RCA statement, from the two scans and their grouping columns.
pub open spec fn rca_text(
    drills: Seq<DrillView>,
    n_meas: nat,
    rca: RcaSql,
    a_sql: Seq<char>,
    a_cols: Seq<char>,
    b_sql: Seq<char>,
    b_cols: Seq<char>,
) -> Seq<char> {
    final_text(a_cols, b_cols, ac_text(drills, rca, a_sql), bd_text(drills, rca, b_sql), n_meas)
}

/// Appends the columns of `levels` to `out`.
fn append_level_cols(out: &mut Vec<String>, levels: &Vec<LevelColumn>)
    ensures
        strs_view(final(out)@) == strs_view(old(out)@) + levels_cols(levels_view(levels@)),
{
    let ghost start = strs_view(out@);
    let mut j: usize = 0;
    while j < levels.len()
        invariant
            j <= levels.len(),
            strs_view(out@) == start + levels_cols(levels_view(levels@.subrange(0, j as int))),
        decreases levels.len() - j,
    {
        let ghost out0 = strs_view(out@);
        let ghost lv0 = levels_view(levels@.subrange(0, j as int));
        let l = &levels[j];
        out.push(l.key_column.clone());
        match &l.name_column {
            Some(n) => {
                out.push(n.clone());
            },
            None => {},
        }
        assert(strs_view(out@) =~= out0 + level_cols(l@));
        assert(levels_view(levels@.subrange(0, j + 1)) =~= lv0.push(l@));
        assert(lv0.push(l@).drop_last() =~= lv0);
        j = j + 1;
    }
    assert(levels@.subrange(0, j as int) =~= levels@);
}

/// Appends the strings of `src` to `out`.
fn append_strs(out: &mut Vec<String>, src: &Vec<String>)
    ensures
        strs_view(final(out)@) == strs_view(old(out)@) + strs_view(src@),
{
    let ghost start = strs_view(out@);
    let mut j: usize = 0;
    while j < src.len()
        invariant
            j <= src.len(),
            strs_view(out@) == start + strs_view(src@.subrange(0, j as int)),
        decreases src.len() - j,
    {
        let ghost out0 = strs_view(out@);
        out.push(src[j].clone());
        assert(strs_view(out@) =~= out0.push(src@[j as int]@));
        assert(strs_view(src@.subrange(0, j + 1)) =~= strs_view(src@.subrange(0, j as int)).push(
            src@[j as int]@,
        ));
        j = j + 1;
    }
    assert(src@.subrange(0, j as int) =~= src@);
}

/// The level columns of `ds`, in order.
pub fn level_column_list(ds: &[DrilldownSql]) -> (r: Vec<String>)
    ensures
        strs_view(r@) == drills_level_cols(drills_view(ds@)),
{
    let mut r: Vec<String> = Vec::new();
    let mut i: usize = 0;
    while i < ds.len()
        invariant
            i <= ds.len(),
            strs_view(r@) == drills_level_cols(drills_view(ds@.subrange(0, i as int))),
        decreases ds.len() - i,
    {
        append_level_cols(&mut r, &ds[i].level_columns);
        assert(drills_view(ds@.subrange(0, i + 1)).drop_last() =~= drills_view(
            ds@.subrange(0, i as int),
        ));
        i = i + 1;
    }
    assert(ds@.subrange(0, i as int) =~= ds@);
    r
}

/// The grouping columns of `ds`: for each, its level columns, then its
/// property columns.
pub fn column_list(ds: &[DrilldownSql]) -> (r: Vec<String>)
    ensures
        strs_view(r@) == drills_cols(drills_view(ds@)),
{
    let mut r: Vec<String> = Vec::new();
    let mut i: usize = 0;
    while i < ds.len()
        invariant
            i <= ds.len(),
            strs_view(r@) == drills_cols(drills_view(ds@.subrange(0, i as int))),
        decreases ds.len() - i,
    {
        append_level_cols(&mut r, &ds[i].level_columns);
        append_strs(&mut r, &ds[i].property_columns);
        assert(drills_view(ds@.subrange(0, i + 1)).drop_last() =~= drills_view(
            ds@.subrange(0, i as int),
        ));
        i = i + 1;
    }
    assert(ds@.subrange(0, i as int) =~= ds@);
    r
}

/// Whether a drilldown equal to `d` in every part is among `ds`.
pub fn contains_drill(ds: &[DrilldownSql], d: &DrilldownSql) -> (r: bool)
    ensures
        r == drills_view(ds@).contains(d@),
{
    let mut i: usize = 0;
    while i < ds.len()
        invariant
            i <= ds.len(),
            forall|j: int| 0 <= j < i ==> ds@[j]@ != d@,
        decreases ds.len() - i,
    {
        if ds[i].same(d) {
            assert(drills_view(ds@)[i as int] == d@);
            return true;
        }
        i = i + 1;
    }
    assert(!drills_view(ds@).contains(d@)) by {
        if drills_view(ds@).contains(d@) {
            let k = choose|k: int| 0 <= k < drills_view(ds@).len() && drills_view(ds@)[k] == d@;
            assert(ds@[k]@ == d@);
        }
    }
    false
}

/// The drilldowns of `ds` that are not among `excluded`, in order.
pub fn drills_without(ds: &[DrilldownSql], excluded: &[DrilldownSql]) -> (r: Vec<DrilldownSql>)
    ensures
        drills_view(r@) == drills_view(ds@).filter(outside_of(drills_view(excluded@))),
{
    broadcast use Seq::lemma_filter_push;

    let ghost f = outside_of(drills_view(excluded@));
    let mut r: Vec<DrilldownSql> = Vec::new();
    let mut i: usize = 0;
    while i < ds.len()
        invariant
            i <= ds.len(),
            f == outside_of(drills_view(excluded@)),
            drills_view(r@) == drills_view(ds@.subrange(0, i as int)).filter(f),
        decreases ds.len() - i,
    {
        let d = &ds[i];
        let ghost prefix = drills_view(ds@.subrange(0, i as int));
        assert(drills_view(ds@.subrange(0, i + 1)) =~= prefix.push(d@));
        proof {
            prefix.lemma_filter_push(d@, f);
        }
        let ghost r0 = r@;
        if !contains_drill(excluded, d) {
            r.push(d.copy());
            assert(drills_view(r@) =~= drills_view(r0).push(d@));
        }
        i = i + 1;
    }
    assert(ds@.subrange(0, i as int) =~= ds@);
    r
}

/// Each column's array collection, comma separated.
pub fn group_array_clause(cols: &Vec<String>) -> (r: String)
    ensures
        r@ == joined(group_array_items(strs_view(cols@)), ", "@),
{
    let mut items: Vec<String> = Vec::new();
    let mut i: usize = 0;
    while i < cols.len()
        invariant
            i <= cols.len(),
            strs_view(items@) == group_array_items(strs_view(cols@.subrange(0, i as int))),
        decreases cols.len() - i,
    {
        let c = cols[i].as_str();
        let mut item = String::from_str("groupArray(");
        item.append(c);
        item.append(") as ");
        item.append(c);
        item.append("_s");
        let ghost items0 = strs_view(items@);
        items.push(item);
        assert(strs_view(items@) =~= items0.push(group_array_item(cols@[i as int]@)));
        assert(group_array_items(strs_view(cols@.subrange(0, i + 1))) =~= group_array_items(
            strs_view(cols@.subrange(0, i as int)),
        ).push(group_array_item(cols@[i as int]@)));
        i = i + 1;
    }
    assert(cols@.subrange(0, i as int) =~= cols@);
    join_strs(&items, ", ")
}

/// Each column's array expansion, comma separated.
pub fn array_join_clause(cols: &Vec<String>) -> (r: String)
    ensures
        r@ == joined(array_join_items(strs_view(cols@)), ", "@),
{
    let mut items: Vec<String> = Vec::new();
    let mut i: usize = 0;
    while i < cols.len()
        invariant
            i <= cols.len(),
            strs_view(items@) == array_join_items(strs_view(cols@.subrange(0, i as int))),
        decreases cols.len() - i,
    {
        let c = cols[i].as_str();
        let mut item = String::from_str(c);
        item.append("_s as ");
        item.append(c);
        let ghost items0 = strs_view(items@);
        items.push(item);
        assert(strs_view(items@) =~= items0.push(array_join_item(cols@[i as int]@)));
        assert(array_join_items(strs_view(cols@.subrange(0, i + 1))) =~= array_join_items(
            strs_view(cols@.subrange(0, i as int)),
        ).push(array_join_item(cols@[i as int]@)));
        i = i + 1;
    }
    assert(cols@.subrange(0, i as int) =~= cols@);
    join_strs(&items, ", ")
}

/// Appends `cols` and a comma to `out`, or nothing when `cols` is empty.
fn append_lead(out: &mut String, cols: &String)
    ensures
        final(out)@ == old(out)@ + lead(cols@),
{
    if !cols.as_str().is_empty() {
        out.append(cols.as_str());
        out.append(", ");
    } else {
        assert(old(out)@ + lead(cols@) =~= old(out)@);
    }
}

/// The SQL that rolls `fine` up to `coarse` over the columns `kept` and melts
/// the result back to the rows of `inner`. With no `kept` columns the roll-up
/// is a single ungrouped row and no grouping clause is written.
pub fn rollup_sql(
    outer: &String,
    kept: &String,
    ga: &String,
    inner: &String,
    fine: &str,
    coarse: &str,
    aj: &String,
) -> (r: String)
    ensures
        r@ == rollup_text(outer@, kept@, ga@, inner@, fine@, coarse@, aj@),
{
    let mut s = String::from_str("select ");
    append_lead(&mut s, outer);
    s.append(fine);
    s.append(", ");
    s.append(coarse);
    s.append(" from (select ");
    append_lead(&mut s, kept);
    append_lead(&mut s, ga);
    s.append("groupArray(");
    s.append(fine);
    s.append(") as ");
    s.append(fine);
    s.append("_s, sum(");
    s.append(fine);
    s.append(") as ");
    s.append(coarse);
    s.append(" from (");
    s.append(inner.as_str());
    s.append(")");
    if !kept.as_str().is_empty() {
        s.append(" group by ");
        s.append(kept.as_str());
    }
    s.append(") Array Join ");
    append_lead(&mut s, aj);
    s.append(fine);
    s.append("_s as ");
    s.append(fine);
    assert(s@ =~= rollup_text(outer@, kept@, ga@, inner@, fine@, coarse@, aj@));
    s
}

/// The names of the caller's measures after the RCA column.
pub fn passthrough_sql(n: usize) -> (r: String)
    ensures
        r@ == passthrough_text(n as nat),
{
    if n == 0 {
        return String::new();
    }
    let mut names: Vec<String> = Vec::new();
    let mut i: usize = 0;
    while i < n
        invariant
            i <= n,
            strs_view(names@) == passthrough_names(i as nat),
        decreases n - i,
    {
        let mut name = String::from_str("m");
        let digits = decimal_text(i + 1);
        name.append(digits.as_str());
        let ghost names0 = strs_view(names@);
        names.push(name);
        assert(strs_view(names@) =~= names0.push("m"@ + decimal((i + 1) as nat)));
        assert(passthrough_names((i + 1) as nat) =~= passthrough_names(i as nat).push(
            "m"@ + decimal((i + 1) as nat),
        ));
        i = i + 1;
    }
    let mut s = String::from_str(", ");
    let joined_names = join_strs(&names, ", ");
    s.append(joined_names.as_str());
    s
}

/// The final statement: the join of the two derivations and the index.
pub fn final_sql(a_cols: &String, b_cols: &String, ac: &String, bd: &String, n_meas: usize) -> (r:
    String)
    ensures
        r@ == final_text(a_cols@, b_cols@, ac@, bd@, n_meas as nat),
{
    let mut s = String::from_str("select ");
    append_lead(&mut s, a_cols);
    s.append("((a/b) / (c/d)) as rca");
    let pass = passthrough_sql(n_meas);
    s.append(pass.as_str());
    s.append(" from (select * from (");
    s.append(ac.as_str());
    s.append(") all inner join (");
    s.append(bd.as_str());
    s.append(") using ");
    s.append(b_cols.as_str());
    s.append(")");
    assert(s@ =~= final_text(a_cols@, b_cols@, ac@, bd@, n_meas as nat));
    s
}

/// What each of the two scans is asked for: the scan of `a` and the scan of
/// `b`, over the same measures.
pub struct RcaPlan {
    pub a_cuts: Vec<CutSql>,
    pub a_drills: Vec<DrilldownSql>,
    pub b_cuts: Vec<CutSql>,
    pub b_drills: Vec<DrilldownSql>,
    pub measures: Vec<MeasureSql>,
}

/// Validates the query, then decides the cuts, drilldowns and measures of the
/// two primary aggregations.
pub fn plan(cuts: &[CutSql], drills: &[DrilldownSql], meas: &[MeasureSql], rca: &RcaSql) -> (r:
    Result<RcaPlan, RcaError>)
    ensures
        !valid_rca(*rca) ==> r == Err::<RcaPlan, RcaError>(RcaError::InvalidRcaConfiguration),
        valid_rca(*rca) && !cuts_resolvable(cuts_view(cuts@)) ==> r == Err::<RcaPlan, RcaError>(
            RcaError::UnresolvableCutColumn,
        ),
        valid_rca(*rca) && cuts_resolvable(cuts_view(cuts@)) ==> {
            &&& r is Ok
            &&& cuts_view(r->Ok_0.a_cuts@) == cuts_view(cuts@).filter(ac_filter(*rca))
            &&& cuts_view(r->Ok_0.b_cuts@) == cuts_view(cuts@).filter(bd_filter(*rca))
            &&& drills_view(r->Ok_0.a_drills@) == drills_view(drills@) + drills_view(rca.drill_1@)
                + drills_view(rca.drill_2@)
            &&& drills_view(r->Ok_0.b_drills@) == drills_view(drills@) + drills_view(rca.drill_2@)
            &&& r->Ok_0.measures@ == seq![rca.mea] + meas@
        },
{
    match validate(cuts, rca) {
        Err(e) => {
            return Err(e);
        },
        Ok(()) => {},
    }
    let sets = compose_drilldowns(drills, rca);
    let (a_cuts, b_cuts) = partition_cuts(cuts, rca);
    let measures = measures_with_rca(meas, rca);
    Ok(RcaPlan { a_cuts, a_drills: sets.a, b_cuts, b_drills: sets.b, measures })
}

/// Compiles the RCA query from the results of the two primary aggregations
/// that `plan` asks for: each the SQL of the scan and its grouping columns,
/// or the message with which it failed.
///
/// The statement's rows carry the grouping columns of `a`, then `rca`, then
/// the caller's measures `m1` to `mn`; those grouping columns are returned
/// beside the statement.
pub fn calculate(
    cuts: &[CutSql],
    drills: &[DrilldownSql],
    meas: &[MeasureSql],
    rca: &RcaSql,
    a: &Result<(String, String), String>,
    b: &Result<(String, String), String>,
) -> (r: Result<(String, String), RcaError>)
    ensures
        !valid_rca(*rca) ==> r == Err::<(String, String), RcaError>(
            RcaError::InvalidRcaConfiguration,
        ),
        valid_rca(*rca) && !cuts_resolvable(cuts_view(cuts@)) ==> r == Err::<
            (String, String),
            RcaError,
        >(RcaError::UnresolvableCutColumn),
        valid_rca(*rca) && cuts_resolvable(cuts_view(cuts@)) ==> match *a {
            Err(e) => r == Err::<(String, String), RcaError>(
                RcaError::CollaboratorCompilationFailure(e),
            ),
            Ok(ra) => match *b {
                Err(e) => r == Err::<(String, String), RcaError>(
                    RcaError::CollaboratorCompilationFailure(e),
                ),
                Ok(rb) => {
                    &&& r is Ok
                    &&& r->Ok_0.0@ == rca_text(
                        drills_view(drills@),
                        meas@.len(),
                        *rca,
                        ra.0@,
                        ra.1@,
                        rb.0@,
                        rb.1@,
                    )
                    &&& r->Ok_0.1@ == ra.1@
                },
            },
        },
{
    match validate(cuts, rca) {
        Err(e) => {
            return Err(e);
        },
        Ok(()) => {},
    }
    let (a_sql, a_cols) = match a {
        Ok(ra) => (&ra.0, &ra.1),
        Err(e) => {
            return Err(RcaError::CollaboratorCompilationFailure(e.clone()));
        },
    };
    let (b_sql, b_cols) = match b {
        Ok(rb) => (&rb.0, &rb.1),
        Err(e) => {
            return Err(RcaError::CollaboratorCompilationFailure(e.clone()));
        },
    };
    proof {
        reveal_strlit("final_m0");
    }
    let sets = compose_drilldowns(drills, rca);
    let d2 = rca.drill_2.as_slice();
    let d2_cols = level_column_list(d2);
    let ga = group_array_clause(&d2_cols);
    let aj = array_join_clause(&d2_cols);

    let a_outer = join_strs(&column_list(sets.a.as_slice()), ", ");
    let c_kept_drills = drills_without(sets.c.as_slice(), d2);
    let c_kept = join_strs(&column_list(c_kept_drills.as_slice()), ", ");
    let a_inner = replace_text(a_sql.as_str(), "final_m0", "a");
    let ac = rollup_sql(&a_outer, &c_kept, &ga, &a_inner, "a", "c", &aj);

    let b_outer = join_strs(&column_list(sets.b.as_slice()), ", ");
    let d_kept_drills = drills_without(sets.d.as_slice(), d2);
    let d_kept = join_strs(&column_list(d_kept_drills.as_slice()), ", ");
    let b_inner = replace_text(b_sql.as_str(), "final_m0", "b");
    let bd = rollup_sql(&b_outer, &d_kept, &ga, &b_inner, "b", "d", &aj);

    let sql = final_sql(a_cols, b_cols, &ac, &bd, meas.len());
    Ok((sql, a_cols.clone()))
}

/// Where a cut goes is decided by its column alone: a cut that may stand in
/// the scan of `b` may also stand in the scan of `a` (so each cut goes to
/// both, to `a` only, or to neither), and a cut is among those kept for a scan
/// exactly when it is among the input and its column is legal there, whatever
/// the order of the input.
pub proof fn cut_placement_is_by_column(cs: Seq<CutView>, k: CutView, rca: RcaSql)
    ensures
        legal_for_bd(k.column, rca) ==> legal_for_ac(k.column, rca),
        cs.filter(ac_filter(rca)).contains(k) <==> (cs.contains(k) && legal_for_ac(
            k.column,
            rca,
        )),
        cs.filter(bd_filter(rca)).contains(k) <==> (cs.contains(k) && legal_for_bd(
            k.column,
            rca,
        )),
{
    broadcast use Seq::lemma_filter_contains_rev, Seq::lemma_filter_pred;

    if cs.contains(k) {
        let i = choose|i: int| 0 <= i < cs.len() && cs[i] == k;
        if legal_for_ac(k.column, rca) {
            assert(ac_filter(rca)(k));
            cs.lemma_filter_contains(ac_filter(rca), i);
        }
        if legal_for_bd(k.column, rca) {
            assert(bd_filter(rca)(k));
            cs.lemma_filter_contains(bd_filter(rca), i);
        }
    }
    if cs.filter(ac_filter(rca)).contains(k) {
        let i = choose|i: int|
            0 <= i < cs.filter(ac_filter(rca)).len() && cs.filter(ac_filter(rca))[i] == k;
        cs.lemma_filter_pred(ac_filter(rca), i);
    }
    if cs.filter(bd_filter(rca)).contains(k) {
        let i = choose|i: int|
            0 <= i < cs.filter(bd_filter(rca)).len() && cs.filter(bd_filter(rca))[i] == k;
        cs.lemma_filter_pred(bd_filter(rca), i);
    }
}

/// When no cut filters on a level key of drill 1 or drill 2, both scans are
/// given every cut, in order: `a` and `b` are then cut alike, and so are the
/// `c` and `d` derived from them.
pub proof fn external_cuts_reach_both_scans(cs: Seq<CutView>, rca: RcaSql)
    requires
        forall|i: int|
            0 <= i < cs.len() ==> !drill_1_keys(rca).contains(#[trigger] cs[i].column)
                && !drill_2_keys(rca).contains(cs[i].column),
    ensures
        cs.filter(ac_filter(rca)) == cs,
        cs.filter(bd_filter(rca)) == cs,
    decreases cs.len(),
{
    reveal(Seq::filter);
    if cs.len() > 0 {
        let rest = cs.drop_last();
        assert forall|i: int|
            0 <= i < rest.len() implies !drill_1_keys(rca).contains(#[trigger] rest[i].column)
            && !drill_2_keys(rca).contains(rest[i].column) by {
            assert(rest[i] == cs[i]);
        }
        external_cuts_reach_both_scans(rest, rca);
        assert(cs.last() == cs[cs.len() - 1]);
        assert(ac_filter(rca)(cs.last()));
        assert(bd_filter(rca)(cs.last()));
        assert(rest.push(cs.last()) =~= cs);
    }
}

/// The roll-up and the melt name the same columns in the same order: the
/// `i`-th array collected is the `i`-th array expanded, so the columns of
/// drill 2 come back in lock-step.
pub proof fn rollup_and_melt_pair_columns(cols: Seq<Seq<char>>, i: int)
    requires
        0 <= i < cols.len(),
    ensures
        group_array_items(cols).len() == array_join_items(cols).len(),
        group_array_items(cols)[i] == "groupArray("@ + cols[i] + ") as "@ + cols[i] + "_s"@,
        array_join_items(cols)[i] == cols[i] + "_s as "@ + cols[i],
{
}

/// With no base drilldowns, `d` is rolled up into one ungrouped row: the
/// derivation of `b` and `d` keeps no grouping column, so it writes no
/// grouping columns before the arrays and no grouping clause.
pub proof fn empty_base_rolls_d_into_one_row(rca: RcaSql, b_sql: Seq<char>)
    ensures
        ({
            let d2 = drills_view(rca.drill_2@);
            let cols = drills_level_cols(d2);
            bd_text(Seq::empty(), rca, b_sql) == rollup_text(
                cols_text(d2),
                Seq::empty(),
                joined(group_array_items(cols), ", "@),
                replaced(b_sql, "final_m0"@, "b"@),
                "b"@,
                "d"@,
                joined(array_join_items(cols), ", "@),
            )
        }),
        lead(Seq::empty()) == Seq::<char>::empty(),
        group_by(Seq::empty()) == Seq::<char>::empty(),
{
    let d2 = drills_view(rca.drill_2@);
    let none = Seq::<DrillView>::empty();
    assert(none + d2 =~= d2);
    assert(none.filter(outside_of(d2)) =~= none) by {
        reveal(Seq::filter);
    }
    assert(drills_cols(none) =~= Seq::<Seq<char>>::empty());
    assert(cols_text(none) =~= Seq::<char>::empty());
}

} // verus!
