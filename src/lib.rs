//! Compilation of Revealed Comparative Advantage (RCA) queries into a single
//! two-scan SQL statement for a columnar backend.

pub mod model;
pub mod rca;
pub mod text;

pub use model::{
    CutSql, DrilldownSql, LevelColumn, MeasureSql, MemberType, RcaSql, Table, TableSql,
};
pub use rca::{calculate, compose_drilldowns, partition_cuts, plan, GroupingSets, RcaError, RcaPlan};
