//! How layouts and the transforms that carry them out fit together.

use crate::error::{first_error, lemma_first_error_none, ErrorView};
use crate::schema::{has_field, paths, StructType};
use crate::table_protocol_metadata_config::ConfigView;
use crate::table_transformation::transforms::{
    clustering_refusal, column_flaw, first_parts, partitioned_by, partitioning_refusal,
};
use crate::text::decimal;
use crate::transaction::data_layout::{
    name_texts, same_layout, too_many_clustering_columns, top_level_columns, DataLayout,
    MAX_CLUSTERING_COLUMNS,
};
use vstd::prelude::*;

verus! {

/// A layout does not both partition and cluster.
pub proof fn law_layouts_exclude_each_other(layout: DataLayout)
    ensures
        !(layout is Partitioned && layout is Clustered),
{
}

/// Whether the schema has a field under each name.
pub open spec fn has_fields(schema: StructType, names: Seq<Seq<char>>) -> bool {
    forall|i: int| 0 <= i < names.len() ==> has_field(schema, #[trigger] names[i])
}

/// Top-level columns pass exactly if the schema has them all, and what does not pass is refused
/// for a column that the schema does not have.
proof fn lemma_top_level_columns_pass(
    kind: Seq<char>,
    schema: StructType,
    names: Seq<Seq<char>>,
    flaw: spec_fn(Seq<Seq<char>>) -> Option<ErrorView>,
)
    requires
        forall|p: Seq<Seq<char>>| #[trigger] flaw(p) == column_flaw(kind, schema, p),
    ensures
        first_error(top_level_columns(names), flaw) is None <==> has_fields(schema, names),
{
    let columns = top_level_columns(names);
    lemma_first_error_none(columns, flaw);
    assert forall|i: int| 0 <= i < names.len() implies (flaw(#[trigger] columns[i]) is None
        <==> has_field(schema, names[i])) by {
        assert(columns[i] == seq![names[i]]);
    }
    if has_fields(schema, names) {
        assert forall|i: int| 0 <= i < columns.len() implies flaw(#[trigger] columns[i]) is None by {
            assert(has_field(schema, names[i]));
        }
    }
    if first_error(columns, flaw) is None {
        assert forall|i: int| 0 <= i < names.len() implies has_field(
            schema,
            #[trigger] names[i],
        ) by {
            assert(flaw(columns[i]) is None);
        }
    }
}

/// The columns of a partitioned layout are refused exactly if the schema lacks one of them, and
/// become the partition columns under their names otherwise.
pub proof fn law_partitioned_layout(names: Seq<Seq<char>>, config: ConfigView)
    ensures
        partitioning_refusal(top_level_columns(names), config) is None <==> has_fields(
            config.metadata.schema,
            names,
        ),
        partitioned_by(top_level_columns(names), config).metadata.partition_columns == names,
{
    let schema = config.metadata.schema;
    lemma_top_level_columns_pass(
        "Partition"@,
        schema,
        names,
        |p: Seq<Seq<char>>| column_flaw("Partition"@, schema, p),
    );
    assert(first_parts(top_level_columns(names)) =~= names);
}

/// The columns of a clustered layout are refused exactly if the schema lacks one of them: their
/// number, which the layout limits, is never the reason.
pub proof fn law_clustered_layout(names: Seq<Seq<char>>, config: ConfigView)
    requires
        0 < names.len() <= MAX_CLUSTERING_COLUMNS,
    ensures
        clustering_refusal(top_level_columns(names), config) is None <==> has_fields(
            config.metadata.schema,
            names,
        ),
{
    let schema = config.metadata.schema;
    lemma_top_level_columns_pass(
        "Clustering"@,
        schema,
        names,
        |p: Seq<Seq<char>>| column_flaw("Clustering"@, schema, p),
    );
}

/// The columns of a layout are top-level columns under the given names, one for one and in order.
pub proof fn law_layout_columns_are_itemwise(names: Seq<&str>, i: int)
    ensures
        name_texts(names).len() == names.len(),
        0 <= i < names.len() ==> name_texts(names)[i] == names[i]@,
        top_level_columns(name_texts(names)).len() == names.len(),
        0 <= i < names.len() ==> top_level_columns(name_texts(names))[i] == seq![names[i]@],
{
}

/// A layout names at most four clustering columns, and says how many there were.
pub proof fn law_clustering_limit(count: nat)
    ensures
        MAX_CLUSTERING_COLUMNS == 4,
        too_many_clustering_columns(count) == ErrorView::Generic(
            "Clustered layout supports at most "@ + decimal(4) + " columns, got "@ + decimal(count),
        ),
{
}

/// Partitioning by names is refused exactly if the schema has no field under one of them, whatever
/// the types and nullability of its fields; the names then are the partition columns.
pub proof fn law_partitioning_by_names(names: Seq<Seq<char>>, config: ConfigView)
    ensures
        partitioning_refusal(top_level_columns(names), config) is None <==> forall|i: int|
            0 <= i < names.len() ==> (exists|k: int|
                0 <= k < config.metadata.schema.fields@.len()
                    && #[trigger] config.metadata.schema.fields@[k].name@ == #[trigger] names[i]),
        partitioned_by(top_level_columns(names), config).metadata.partition_columns == names,
{
    law_partitioned_layout(names, config);
    let schema = config.metadata.schema;
    if has_fields(schema, names) {
        assert forall|i: int| 0 <= i < names.len() implies (exists|k: int|
            0 <= k < schema.fields@.len() && #[trigger] schema.fields@[k].name@
                == #[trigger] names[i]) by {
            assert(has_field(schema, names[i]));
        }
    }
}

/// Clustering by names within the limit is refused exactly if the schema has no field under one of
/// them, whatever the types and nullability of its fields.
pub proof fn law_clustering_by_names(names: Seq<Seq<char>>, config: ConfigView)
    requires
        0 < names.len() <= 4,
    ensures
        clustering_refusal(top_level_columns(names), config) is None <==> forall|i: int|
            0 <= i < names.len() ==> (exists|k: int|
                0 <= k < config.metadata.schema.fields@.len()
                    && #[trigger] config.metadata.schema.fields@[k].name@ == #[trigger] names[i]),
{
    law_clustered_layout(names, config);
    let schema = config.metadata.schema;
    if has_fields(schema, names) {
        assert forall|i: int| 0 <= i < names.len() implies (exists|k: int|
            0 <= k < schema.fields@.len() && #[trigger] schema.fields@[k].name@
                == #[trigger] names[i]) by {
            assert(has_field(schema, names[i]));
        }
    }
}

/// Layouts are the same only if they are of one kind and name the same columns in the same order.
pub proof fn law_same_layouts(a: DataLayout, b: DataLayout)
    requires
        same_layout(a, b),
    ensures
        a is Unorganized <==> b is Unorganized,
        a is Partitioned <==> b is Partitioned,
        a is Clustered <==> b is Clustered,
        a is Partitioned ==> paths(a->Partitioned_columns@) == paths(b->Partitioned_columns@),
        a is Clustered ==> paths(a->Clustered_columns@) == paths(b->Clustered_columns@),
{
}

} // verus!
