//! Clustering columns in domain metadata.
//!
//! A clustered table keeps its clustering columns under the domain `delta.clustering`, as a JSON
//! object whose field `clusteringColumns` is an array of column paths; a path is an array of field
//! names.

use crate::error::{DeltaError, DeltaResult, ErrorView};
use crate::schema::{paths, texts, ColumnName};
use vstd::prelude::*;

verus! {

/// The clustering columns of a table, each as the path of its field names.
#[derive(Debug)]
pub struct ClusteringDomainMetadata {
    pub clustering_columns: Vec<Vec<String>>,
}

/// The domain under which clustering columns are kept.
pub const CLUSTERING_DOMAIN_NAME: &'static str = "delta.clustering";

/// The field of the JSON object that holds the column paths.
pub const CLUSTERING_COLUMNS_FIELD: &'static str = "clusteringColumns";

/// The texts of a vector of paths.
pub open spec fn path_texts(list: Seq<Vec<String>>) -> Seq<Seq<Seq<char>>> {
    list.map_values(|p: Vec<String>| texts(p@))
}

impl View for ClusteringDomainMetadata {
    type V = Seq<Seq<Seq<char>>>;

    open spec fn view(&self) -> Seq<Seq<Seq<char>>> {
        path_texts(self.clustering_columns@)
    }
}

/// The error of `serde_json`.
#[verifier::external_type_specification]
#[verifier::external_body]
pub struct ExJsonError(serde_json::Error);

/// What `serde_json::to_string` writes for an object with a single field that holds an array of
/// arrays of strings.
pub uninterp spec fn json_object_text(field: Seq<char>, paths: Seq<Seq<Seq<char>>>) -> Seq<char>;

/// Calls `serde_json::to_string` on a map with one entry. The text is a function of the field and
/// of the paths, and the call succeeds: it fails only where a value refuses to be serialised or a
/// map key is not a string, and neither occurs here.
#[verifier::external_body]
fn json_object(field: &str, paths: &Vec<Vec<String>>) -> (r: Result<String, serde_json::Error>)
    ensures
        r is Ok,
        r->Ok_0@ == json_object_text(field@, path_texts(paths@)),
{
    serde_json::to_string(&std::collections::BTreeMap::from([(field, paths)]))
}

/// The JSON text of clustering columns.
pub open spec fn clustering_json(paths: Seq<Seq<Seq<char>>>) -> Seq<char> {
    json_object_text(CLUSTERING_COLUMNS_FIELD@, paths)
}

impl ClusteringDomainMetadata {
    /// The JSON text of the clustering columns.
    pub fn to_json(&self) -> (r: DeltaResult<String>)
        ensures
            r matches Ok(text) && text@ == clustering_json(self@),
    {
        match json_object(CLUSTERING_COLUMNS_FIELD, &self.clustering_columns) {
            Ok(text) => Ok(text),
            Err(_) => Err(DeltaError::generic("Failed to serialize clustering metadata")),
        }
    }

    /// The clustering columns as column names.
    pub fn into_columns(self) -> (r: Vec<ColumnName>)
        ensures
            paths(r@) == self@,
    {
        let ghost all = self@;
        let mut columns: Vec<ColumnName> = Vec::new();
        for path in it: self.clustering_columns
            invariant
                path_texts(it.seq()) == all,
                paths(columns@) == all.take(it.index() as int),
        {
            let ghost before = columns@;
            columns.push(ColumnName::new(path));
            assert(paths(columns@) =~= paths(before).push(texts(path@)));
            assert(all.take(it.index() + 1) =~= all.take(it.index() as int).push(texts(path@)));
        }
        assert(all.take(all.len() as int) =~= all);
        columns
    }
}

/// What decoding a clustering configuration gives: the metadata, or why the text is malformed.
pub type Decoded = Result<ClusteringDomainMetadata, String>;

/// Whether a list of columns is the one that a decoded configuration says.
pub open spec fn columns_agree(r: DeltaResult<Vec<ColumnName>>, decoded: Decoded) -> bool {
    match (r, decoded) {
        (Ok(columns), Ok(metadata)) => paths(columns@) == metadata@,
        (Err(e), Err(reason)) => e@ == ErrorView::MalformedJson(reason@),
        _ => false,
    }
}

/// The clustering columns of a decoded configuration.
pub fn decoded_columns(decoded: Decoded) -> (r: DeltaResult<Vec<ColumnName>>)
    ensures
        columns_agree(r, decoded),
{
    match decoded {
        Ok(metadata) => Ok(metadata.into_columns()),
        Err(reason) => Err(DeltaError::MalformedJson(reason)),
    }
}

/// Whether a list of columns, or an error, is what a decoder makes of a text.
pub open spec fn is_read<D: Fn(&str) -> Decoded>(
    decode: D,
    json: Seq<char>,
    r: DeltaResult<Vec<ColumnName>>,
) -> bool {
    exists|text: &str, decoded: Decoded|
        text@ == json && #[trigger] call_ensures(decode, (text,), decoded) && columns_agree(
            r,
            decoded,
        )
}

/// Reads clustering columns from the JSON text of a clustering configuration.
///
/// `decode` turns the text into [`ClusteringDomainMetadata`]; it is called on exactly this text,
/// and its reason for failing becomes the error.
pub fn parse_clustering_columns<D: Fn(&str) -> Decoded>(json_str: &str, decode: &D) -> (r:
    DeltaResult<Vec<ColumnName>>)
    requires
        call_requires(*decode, (json_str,)),
    ensures
        is_read(*decode, json_str@, r),
{
    let decoded = decode(json_str);
    assert(call_ensures(*decode, (json_str,), decoded));
    decoded_columns(decoded)
}

/// Reads the clustering columns of a table, given what a scan of its log found under the
/// clustering domain.
///
/// A table without such domain metadata has no clustering columns; the error of a failed scan is
/// passed on.
pub fn get_clustering_columns<D: Fn(&str) -> Decoded>(
    config: DeltaResult<Option<String>>,
    decode: &D,
) -> (r: DeltaResult<Option<Vec<ColumnName>>>)
    requires
        forall|text: &str| call_requires(*decode, (text,)),
    ensures
        match config {
            Err(e) => r matches Err(f) && f@ == e@,
            Ok(None) => r matches Ok(None),
            Ok(Some(json)) => match r {
                Ok(Some(columns)) => is_read(*decode, json@, Ok(columns)),
                Ok(None) => false,
                Err(e) => is_read(*decode, json@, Err(e)),
            },
        },
{
    match config {
        Err(e) => Err(e),
        Ok(None) => Ok(None),
        Ok(Some(json)) => {
            let text = json.as_str();
            match parse_clustering_columns(text, decode) {
                Ok(columns) => Ok(Some(columns)),
                Err(e) => Err(e),
            }
        },
    }
}

/// Whether a decoder gives back what [`ClusteringDomainMetadata::to_json`] was given.
pub open spec fn undoes_encoding<D: Fn(&str) -> Decoded>(decode: D) -> bool {
    forall|text: &str, columns: Seq<Seq<Seq<char>>>, decoded: Decoded|
        #![trigger call_ensures(decode, (text,), decoded), clustering_json(columns)]
        text@ == clustering_json(columns) && call_ensures(decode, (text,), decoded) ==> decoded is Ok
            && decoded->Ok_0@ == columns
}

/// With a decoder that undoes the encoding, reading the text of clustering columns gives back
/// these columns.
pub proof fn law_columns_read_back<D: Fn(&str) -> Decoded>(
    decode: D,
    columns: Seq<Seq<Seq<char>>>,
    r: DeltaResult<Vec<ColumnName>>,
)
    requires
        undoes_encoding(decode),
        is_read(decode, clustering_json(columns), r),
    ensures
        r is Ok,
        paths(r->Ok_0@) == columns,
{
}

/// The text of clustering columns is the JSON object whose field `clusteringColumns` holds exactly
/// these columns, however many there are.
pub proof fn law_text_holds_all_columns(columns: Seq<Seq<Seq<char>>>)
    ensures
        clustering_json(columns) == json_object_text("clusteringColumns"@, columns),
{
}

/// Whether objects with this field are written differently for different paths.
pub open spec fn tells_paths_apart(field: Seq<char>) -> bool {
    forall|a: Seq<Seq<Seq<char>>>, b: Seq<Seq<Seq<char>>>|
        #![trigger json_object_text(field, a), json_object_text(field, b)]
        json_object_text(field, a) == json_object_text(field, b) ==> a == b
}

/// The encoding of columns loses nothing that the JSON object does not lose: as far as objects are
/// written differently for different paths, so are columns.
pub proof fn law_texts_tell_columns_apart(a: Seq<Seq<Seq<char>>>, b: Seq<Seq<Seq<char>>>)
    requires
        tells_paths_apart("clusteringColumns"@),
        clustering_json(a) == clustering_json(b),
    ensures
        a == b,
{
    law_text_holds_all_columns(a);
    law_text_holds_all_columns(b);
}

/// The columns that a text was written for.
pub open spec fn columns_behind(text: Seq<char>) -> Seq<Seq<Seq<char>>> {
    choose|columns: Seq<Seq<Seq<char>>>| clustering_json(columns) == text
}

/// Then there is a decoder that undoes the encoding, for any number of columns.
pub proof fn law_encoding_can_be_undone(columns: Seq<Seq<Seq<char>>>)
    requires
        tells_paths_apart("clusteringColumns"@),
    ensures
        columns_behind(clustering_json(columns)) == columns,
{
    law_texts_tell_columns_apart(columns_behind(clustering_json(columns)), columns);
}

/// Decoded metadata gives its columns, one for one and in order; a reason for failing gives the
/// error with that reason, and neither gives the other.
pub proof fn law_decoding_decides(
    columns: Vec<ColumnName>,
    metadata: ClusteringDomainMetadata,
    e: DeltaError,
    reason: String,
    i: int,
)
    ensures
        columns_agree(Ok(columns), Ok(metadata)) ==> columns@.len()
            == metadata.clustering_columns@.len(),
        columns_agree(Ok(columns), Ok(metadata)) && 0 <= i < columns@.len() ==> columns@[i]@
            == texts(metadata.clustering_columns@[i]@),
        columns_agree(Err(e), Err(reason)) <==> e@ == ErrorView::MalformedJson(reason@),
        !columns_agree(Ok(columns), Err(reason)),
        !columns_agree(Err(e), Ok(metadata)),
        metadata@.len() == metadata.clustering_columns@.len(),
        0 <= i < metadata@.len() ==> metadata@[i] == texts(metadata.clustering_columns@[i]@),
        path_texts(metadata.clustering_columns@) == metadata@,
{
    if columns_agree(Ok(columns), Ok(metadata)) {
        assert(paths(columns@) == metadata@);
        if 0 <= i < columns@.len() {
            assert(paths(columns@)[i] == metadata@[i]);
        }
    }
}

/// Columns are read from a text exactly as the decoder decodes this text.
pub proof fn law_reading_goes_by_the_decoder<D: Fn(&str) -> Decoded>(
    decode: D,
    json: Seq<char>,
    r: DeltaResult<Vec<ColumnName>>,
)
    ensures
        is_read(decode, json, r) <==> exists|text: &str, decoded: Decoded|
            text@ == json && #[trigger] call_ensures(decode, (text,), decoded) && columns_agree(
                r,
                decoded,
            ),
{
}

} // verus!
