//! How the data files of a table are organised.

use crate::error::{DeltaError, DeltaResult, ErrorView};
use crate::schema::{copy_columns, paths, ColumnName};
use crate::text::{decimal, decimal_text};
use vstd::prelude::*;

verus! {

/// The largest number of columns that a table can be clustered by.
pub const MAX_CLUSTERING_COLUMNS: usize = 4;

/// How the data files of a table are organised.
///
/// A table can be partitioned or clustered, but not both.
#[derive(Debug)]
pub enum DataLayout {
    /// In no special way.
    Unorganized,
    /// By the values of partition columns.
    Partitioned {
        /// The columns to partition by, in order.
        columns: Vec<ColumnName>,
    },
    /// For queries on clustering columns.
    Clustered {
        /// The columns to cluster by, in order.
        columns: Vec<ColumnName>,
    },
}

impl Default for DataLayout {
    fn default() -> (r: DataLayout)
        ensures
            r is Unorganized,
    {
        DataLayout::Unorganized
    }
}

/// Whether two layouts organise data in the same way and by the same columns.
pub open spec fn same_layout(a: DataLayout, b: DataLayout) -> bool {
    match (a, b) {
        (DataLayout::Unorganized, DataLayout::Unorganized) => true,
        (DataLayout::Partitioned { columns: x }, DataLayout::Partitioned { columns: y }) => paths(
            x@,
        ) == paths(y@),
        (DataLayout::Clustered { columns: x }, DataLayout::Clustered { columns: y }) => paths(x@)
            == paths(y@),
        _ => false,
    }
}

impl Clone for DataLayout {
    fn clone(&self) -> (r: DataLayout)
        ensures
            same_layout(r, *self),
    {
        match self {
            DataLayout::Unorganized => DataLayout::Unorganized,
            DataLayout::Partitioned { columns } => DataLayout::Partitioned {
                columns: copy_columns(columns),
            },
            DataLayout::Clustered { columns } => DataLayout::Clustered {
                columns: copy_columns(columns),
            },
        }
    }
}

/// The texts of a slice of names.
pub open spec fn name_texts(names: Seq<&str>) -> Seq<Seq<char>> {
    names.map_values(|n: &str| n@)
}

/// Top-level columns with the given names.
pub open spec fn top_level_columns(names: Seq<Seq<char>>) -> Seq<Seq<Seq<char>>> {
    names.map_values(|n: Seq<char>| seq![n])
}

fn columns_named(names: &[&str]) -> (r: Vec<ColumnName>)
    ensures
        paths(r@) == top_level_columns(name_texts(names@)),
{
    let ghost all = top_level_columns(name_texts(names@));
    let mut columns: Vec<ColumnName> = Vec::new();
    let mut i: usize = 0;
    assert(paths(columns@) =~= all.take(0));
    while i < names.len()
        invariant
            i <= names@.len(),
            all == top_level_columns(name_texts(names@)),
            paths(columns@) == all.take(i as int),
        decreases names@.len() - i,
    {
        let ghost before = columns@;
        columns.push(ColumnName::top_level(names[i]));
        proof {
            assert(paths(columns@) =~= paths(before).push(all[i as int]));
            assert(all.take(i + 1) =~= all.take(i as int).push(all[i as int]));
        }
        i = i + 1;
    }
    assert(all.take(i as int) =~= all);
    columns
}

/// Why a clustered layout cannot have so many columns.
pub open spec fn too_many_clustering_columns(count: nat) -> ErrorView {
    ErrorView::Generic(
        "Clustered layout supports at most "@ + decimal(MAX_CLUSTERING_COLUMNS as nat)
            + " columns, got "@ + decimal(count),
    )
}

impl DataLayout {
    /// Partitioning by top-level columns; there must be at least one.
    pub fn partitioned(columns: &[&str]) -> (r: DeltaResult<DataLayout>)
        ensures
            match r {
                Ok(layout) => columns@.len() > 0 && layout is Partitioned && paths(
                    layout->Partitioned_columns@,
                ) == top_level_columns(name_texts(columns@)),
                Err(e) => columns@.len() == 0 && e@ == ErrorView::Generic(
                    "Partitioned layout requires at least one column"@,
                ),
            },
    {
        if columns.len() == 0 {
            return Err(DeltaError::generic("Partitioned layout requires at least one column"));
        }
        Ok(DataLayout::Partitioned { columns: columns_named(columns) })
    }

    /// Clustering by top-level columns; there must be at least one, and not more than
    /// [`MAX_CLUSTERING_COLUMNS`].
    pub fn clustered(columns: &[&str]) -> (r: DeltaResult<DataLayout>)
        ensures
            match r {
                Ok(layout) => 0 < columns@.len() <= MAX_CLUSTERING_COLUMNS && layout is Clustered
                    && paths(layout->Clustered_columns@) == top_level_columns(
                    name_texts(columns@),
                ),
                Err(e) => if columns@.len() == 0 {
                    e@ == ErrorView::Generic("Clustered layout requires at least one column"@)
                } else {
                    columns@.len() > MAX_CLUSTERING_COLUMNS && e@ == too_many_clustering_columns(
                        columns@.len(),
                    )
                },
            },
    {
        if columns.len() == 0 {
            return Err(DeltaError::generic("Clustered layout requires at least one column"));
        }
        if columns.len() > MAX_CLUSTERING_COLUMNS {
            return Err(
                DeltaError::Generic(
                    "Clustered layout supports at most ".to_owned().concat(
                        decimal_text(MAX_CLUSTERING_COLUMNS).as_str(),
                    ).concat(" columns, got ").concat(decimal_text(columns.len()).as_str()),
                ),
            );
        }
        Ok(DataLayout::Clustered { columns: columns_named(columns) })
    }

    /// Whether the layout partitions.
    pub fn is_partitioned(&self) -> (r: bool)
        ensures
            r == (self is Partitioned),
    {
        match self {
            DataLayout::Partitioned { .. } => true,
            _ => false,
        }
    }

    /// Whether the layout clusters.
    pub fn is_clustered(&self) -> (r: bool)
        ensures
            r == (self is Clustered),
    {
        match self {
            DataLayout::Clustered { .. } => true,
            _ => false,
        }
    }
}

} // verus!
