//! Building the transaction that creates a table.
//!
//! The caller finds the table's URL, asks [`delta_log_url`] where its log would be and lists that
//! place. With what the listing says, [`CreateTableTransactionBuilder::build`] decides whether
//! the table can be created, and as what.

use crate::actions::{
    domain_views, DomainMetadata, DomainMetadataView, Metadata, MetadataView, Protocol,
    ProtocolView,
};
use crate::clock::{current_time_ms, is_now};
use crate::error::{DeltaError, DeltaResult, ErrorView};
use crate::schema::{texts, SchemaRef, StructType};
use crate::table_properties::{put_all, Entries, PropertyMap};
use crate::table_protocol_metadata_config::{initial_config, TableProtocolMetadataConfig};
use crate::table_transformation::pipeline::{ordered_run, TransformationPipeline};
use crate::table_transformation::registry::built_in_selection;
use crate::table_transformation::TransformOutput;
use vstd::prelude::*;

verus! {

/// The error of `url`.
#[verifier::external_type_specification]
#[verifier::external_body]
pub struct ExParseError(url::ParseError);

/// The text of the URL that `url::Url::join` makes of a reference, relative to the URL that a text
/// stands for; `None` if one of the two calls fails.
pub uninterp spec fn joined_url(base: Seq<char>, reference: Seq<char>) -> Option<Seq<char>>;

/// Calls `url::Url::join` on the URL that `url::Url::parse` makes of `base`. The text of the joined
/// URL, and whether there is one, are functions of the two texts; nothing else is claimed of them.
#[verifier::external_body]
fn join_url(base: &str, reference: &str) -> (r: Result<String, url::ParseError>)
    ensures
        match r {
            Ok(joined) => joined_url(base@, reference@) == Some(joined@),
            Err(_) => joined_url(base@, reference@) is None,
        },
{
    Ok(url::Url::parse(base)?.join(reference)?.into())
}

/// The directory of a table's log, relative to the table.
pub const DELTA_LOG_DIRECTORY: &'static str = "_delta_log/";

/// The URL of a table's log.
pub open spec fn log_url(table_url: Seq<char>) -> Result<Seq<char>, ErrorView> {
    match joined_url(table_url, DELTA_LOG_DIRECTORY@) {
        Some(joined) => Ok(joined),
        None => Err(ErrorView::InvalidUrl(table_url)),
    }
}

/// The value of a result that is a text.
pub open spec fn text_result(r: DeltaResult<String>) -> Result<Seq<char>, ErrorView> {
    match r {
        Ok(s) => Ok(s@),
        Err(e) => Err(e@),
    }
}

/// The URL of the log of the table at a URL.
pub fn delta_log_url(table_url: &str) -> (r: DeltaResult<String>)
    ensures
        text_result(r) == log_url(table_url@),
{
    match join_url(table_url, DELTA_LOG_DIRECTORY) {
        Ok(joined) => Ok(joined),
        Err(_) => Err(DeltaError::InvalidUrl(table_url.to_owned())),
    }
}

/// What listing a table's log directory gives: an error, or the first of the files, if there is
/// one and it could be read.
pub type LogListing<T> = DeltaResult<Option<DeltaResult<T>>>;

/// Why a listing rules out a new table: a file in the log means that there is a table already,
/// and an error other than a missing file means that storage cannot tell.
pub open spec fn existence_flaw<T>(listing: LogListing<T>, table_path: Seq<char>) -> Option<
    ErrorView,
> {
    match listing {
        Ok(Some(Ok(_))) => Some(ErrorView::Generic("Table already exists at path: "@ + table_path)),
        Ok(None) => None,
        Ok(Some(Err(e))) => if e is FileNotFound {
            None
        } else {
            Some(e@)
        },
        Err(e) => if e is FileNotFound {
            None
        } else {
            Some(e@)
        },
    }
}

/// Ensures that there is no table at a path, given the listing of its log directory.
pub fn ensure_table_does_not_exist<T>(listing: LogListing<T>, table_path: &str) -> (r: DeltaResult<
    (),
>)
    ensures
        match r {
            Ok(_) => existence_flaw(listing, table_path@) is None,
            Err(e) => existence_flaw(listing, table_path@) == Some(e@),
        },
{
    match listing {
        Ok(Some(Ok(_))) => Err(
            DeltaError::Generic("Table already exists at path: ".to_owned().concat(table_path)),
        ),
        // The directory is missing or empty, as it is where a table is yet to be created.
        Ok(None) => Ok(()),
        Ok(Some(Err(DeltaError::FileNotFound(_)))) => Ok(()),
        Ok(Some(Err(e))) => Err(e),
        Err(DeltaError::FileNotFound(_)) => Ok(()),
        Err(e) => Err(e),
    }
}

/// A request to create a table.
#[derive(Debug)]
pub struct CreateTableTransactionBuilder {
    path: String,
    schema: SchemaRef,
    engine_info: String,
    table_properties: PropertyMap,
}

/// The mathematical value of a [`CreateTableTransactionBuilder`].
pub struct BuilderView {
    pub path: Seq<char>,
    pub schema: StructType,
    pub engine_info: Seq<char>,
    pub table_properties: Entries,
}

impl View for CreateTableTransactionBuilder {
    type V = BuilderView;

    closed spec fn view(&self) -> BuilderView {
        BuilderView {
            path: self.path@,
            schema: *self.schema,
            engine_info: self.engine_info@,
            table_properties: self.table_properties@,
        }
    }
}

/// A table that is ready to be committed: everything that its first commit consists of.
#[derive(Debug)]
pub struct Transaction {
    /// Where the table will be.
    pub table_url: String,
    /// Where its log will be.
    pub log_root: String,
    /// What creates the table.
    pub engine_info: String,
    /// The table's protocol.
    pub protocol: Protocol,
    /// The table's metadata.
    pub metadata: Metadata,
    /// Domain metadata to commit with it.
    pub domain_metadata: Vec<DomainMetadata>,
}

/// The mathematical value of a [`Transaction`].
pub struct TransactionView {
    pub table_url: Seq<char>,
    pub log_root: Seq<char>,
    pub engine_info: Seq<char>,
    pub protocol: ProtocolView,
    pub metadata: MetadataView,
    pub domain_metadata: Seq<DomainMetadataView>,
}

impl View for Transaction {
    type V = TransactionView;

    open spec fn view(&self) -> TransactionView {
        TransactionView {
            table_url: self.table_url@,
            log_root: self.log_root@,
            engine_info: self.engine_info@,
            protocol: self.protocol@,
            metadata: self.metadata@,
            domain_metadata: domain_views(self.domain_metadata@),
        }
    }
}

/// Whether a transaction is the one that its mathematical value says.
pub open spec fn transaction_agrees(
    r: DeltaResult<Transaction>,
    expected: Result<TransactionView, ErrorView>,
) -> bool {
    match r {
        Ok(t) => expected == Ok::<TransactionView, ErrorView>(t@),
        Err(e) => expected == Err::<TransactionView, ErrorView>(e@),
    }
}

/// The transaction of a request, given the URLs of the table and of its log, why a listing rules
/// out a new table, and the clock's reading.
///
/// The first of these errors counts: a log URL that cannot be had, a table that exists, a schema
/// without fields, a clock that cannot be read, and what the transforms refuse.
pub open spec fn transaction_for(
    builder: BuilderView,
    table_url: Seq<char>,
    log_root: Result<Seq<char>, ErrorView>,
    existence: Option<ErrorView>,
    now: Result<i64, ErrorView>,
) -> Result<TransactionView, ErrorView> {
    match log_root {
        Err(e) => Err(e),
        Ok(log_root) => match existence {
            Some(e) => Err(e),
            None => if builder.schema.fields@.len() == 0 {
                Err(ErrorView::Generic("Schema cannot be empty"@))
            } else {
                match now {
                    Err(e) => Err(e),
                    Ok(created_time) => match ordered_run(
                        built_in_selection(builder.table_properties),
                        initial_config(
                            builder.schema,
                            Seq::empty(),
                            builder.table_properties,
                            created_time,
                        ),
                    ) {
                        Err(e) => Err(e),
                        Ok(output) => Ok(
                            TransactionView {
                                table_url,
                                log_root,
                                engine_info: builder.engine_info,
                                protocol: output.config.protocol,
                                metadata: output.config.metadata,
                                domain_metadata: output.domain_metadata,
                            },
                        ),
                    },
                }
            },
        },
    }
}

/// The value of a clock reading.
pub open spec fn time_result(now: DeltaResult<i64>) -> Result<i64, ErrorView> {
    match now {
        Ok(t) => Ok(t),
        Err(e) => Err(e@),
    }
}

/// The entries of a slice of pairs.
pub open spec fn pair_entries(pairs: Seq<(&str, &str)>) -> Entries {
    pairs.map_values(|p: (&str, &str)| (p.0@, p.1@))
}

/// Starts a request to create a table.
///
/// `path` is where the table will be, and `engine_info` says what creates it.
pub fn create_table(path: &str, schema: SchemaRef, engine_info: &str) -> (r:
    CreateTableTransactionBuilder)
    ensures
        r@ == (BuilderView {
            path: path@,
            schema: *schema,
            engine_info: engine_info@,
            table_properties: Entries::empty(),
        }),
{
    CreateTableTransactionBuilder::new(path, schema, engine_info)
}

impl CreateTableTransactionBuilder {
    /// A request without table properties; see [`create_table`].
    pub fn new(path: &str, schema: SchemaRef, engine_info: &str) -> (r:
        CreateTableTransactionBuilder)
        ensures
            r@ == (BuilderView {
                path: path@,
                schema: *schema,
                engine_info: engine_info@,
                table_properties: Entries::empty(),
            }),
    {
        CreateTableTransactionBuilder {
            path: path.to_owned(),
            schema,
            engine_info: engine_info.to_owned(),
            table_properties: PropertyMap::new(),
        }
    }

    /// Adds table properties. A property that was set before gets the new value.
    ///
    /// Which properties are allowed is decided when the transaction is built.
    pub fn with_table_properties(self, properties: &[(&str, &str)]) -> (r:
        CreateTableTransactionBuilder)
        ensures
            r@ == (BuilderView {
                table_properties: put_all(self@.table_properties, pair_entries(properties@)),
                ..self@
            }),
    {
        let ghost start = self@.table_properties;
        let ghost more = pair_entries(properties@);
        let CreateTableTransactionBuilder { path, schema, engine_info, mut table_properties } =
            self;
        let mut i: usize = 0;
        assert(more.take(0) =~= Entries::empty());
        while i < properties.len()
            invariant
                i <= properties@.len(),
                more == pair_entries(properties@),
                table_properties@ == put_all(start, more.take(i as int)),
            decreases properties@.len() - i,
        {
            let (key, value) = properties[i];
            assert(more.take(i + 1).drop_last() =~= more.take(i as int));
            assert(more.take(i + 1).last() == (key@, value@));
            table_properties.insert(key.to_owned(), value.to_owned());
            i = i + 1;
        }
        assert(more.take(i as int) =~= more);
        CreateTableTransactionBuilder { path, schema, engine_info, table_properties }
    }

    /// Where the table will be, as the user wrote it.
    pub fn path(&self) -> (r: &str)
        ensures
            r@ == self@.path,
    {
        self.path.as_str()
    }

    /// What creates the table.
    pub fn engine_info(&self) -> (r: &str)
        ensures
            r@ == self@.engine_info,
    {
        self.engine_info.as_str()
    }

    /// The table properties so far.
    pub fn table_properties(&self) -> (r: &PropertyMap)
        ensures
            r@ == self@.table_properties,
    {
        &self.table_properties
    }

    /// Builds the transaction that creates the table now, given the table's URL and the listing
    /// of its log directory.
    pub fn build<T>(self, table_url: &str, listing: LogListing<T>) -> (r: DeltaResult<Transaction>)
        ensures
            exists|now: DeltaResult<i64>| #[trigger]
                is_now(now) && transaction_agrees(
                    r,
                    transaction_for(
                        self@,
                        table_url@,
                        log_url(table_url@),
                        existence_flaw(listing, self@.path),
                        time_result(now),
                    ),
                ),
    {
        let now = current_time_ms();
        assert(is_now(now));
        self.build_with(table_url, delta_log_url(table_url), listing, now)
    }

    /// Builds the transaction from the log's URL and the clock's reading, whatever they are.
    pub fn build_with<T>(
        self,
        table_url: &str,
        log_root: DeltaResult<String>,
        listing: LogListing<T>,
        now: DeltaResult<i64>,
    ) -> (r: DeltaResult<Transaction>)
        ensures
            transaction_agrees(
                r,
                transaction_for(
                    self@,
                    table_url@,
                    text_result(log_root),
                    existence_flaw(listing, self@.path),
                    time_result(now),
                ),
            ),
    {
        let log_root = match log_root {
            Ok(url) => url,
            Err(e) => return Err(e),
        };
        match ensure_table_does_not_exist(listing, self.path.as_str()) {
            Ok(_) => {},
            Err(e) => return Err(e),
        }
        if self.schema.fields.len() == 0 {
            return Err(DeltaError::generic("Schema cannot be empty"));
        }
        let partition_columns: Vec<String> = Vec::new();
        assert(texts(partition_columns@) =~= Seq::empty());
        let config = match TableProtocolMetadataConfig::created_at(
            self.schema,
            partition_columns,
            self.table_properties.clone(),
            now,
        ) {
            Ok(c) => c,
            Err(e) => return Err(e),
        };
        match TransformationPipeline::apply_transforms(config, &self.table_properties) {
            Ok(output) => {
                let TransformOutput { config, domain_metadata } = output;
                let TableProtocolMetadataConfig { protocol, metadata } = config;
                Ok(
                    Transaction {
                        table_url: table_url.to_owned(),
                        log_root,
                        engine_info: self.engine_info,
                        protocol,
                        metadata,
                        domain_metadata,
                    },
                )
            },
            Err(e) => Err(e),
        }
    }
}

} // verus!
