//! The query of a dump request.

use vstd::prelude::*;
use crate::text::split;
use crate::text::split_on;
use crate::text::texts;

verus! {

/// What a dump request asks for beside the database.
#[derive(Debug, Clone, PartialEq, Eq)]
pub struct DumpQuery {
    /// The tables whose rows are to be left out of the dump.
    pub exclude_table_data: Option<Vec<String>>,
}

impl Default for DumpQuery {
    fn default() -> (q: DumpQuery)
        ensures
            q.exclude_table_data.is_none(),
    {
        DumpQuery { exclude_table_data: None }
    }
}

impl DumpQuery {
    /// Reads the query from the raw value of its one parameter: a list of
    /// table names with commas between them. Without the parameter no
    /// table is left out.
    pub fn parse(exclude_table_data: Option<&str>) -> (q: DumpQuery)
        ensures
            match exclude_table_data {
                Some(raw) => q.exclude_table_data.is_some() && texts(
                    q.exclude_table_data.unwrap()@,
                ) == split_on(raw@, ','),
                None => q.exclude_table_data.is_none(),
            },
    {
        match exclude_table_data {
            Some(raw) => DumpQuery { exclude_table_data: Some(split(raw, ',')) },
            None => DumpQuery { exclude_table_data: None },
        }
    }
}

} // verus!
