//! The document store: a schema-bound full-text index with a manually
//! reloaded reader, kept behind a small trusted boundary. The store's
//! contents are modelled by `doc_ids`, a composed query by `clause_of`, and
//! what a search returns by `ranked_ids`; everything above this boundary is
//! verified against those names.

use vstd::prelude::*;

verus! {

use tantivy::collector::TopDocs;
use tantivy::schema::{Facet, Value};
use tantivy::{DocId, Score, SegmentReader, TantivyDocument};

use vstd::multiset::Multiset;

use crate::query::option_score_permille;

#[verifier::external_type_specification]
#[verifier::external_body]
pub struct ExField(tantivy::schema::Field);

#[verifier::external_type_specification]
#[verifier::external_body]
pub struct ExSchema(tantivy::schema::Schema);

#[verifier::external_type_specification]
#[verifier::external_body]
pub struct ExIndex(tantivy::Index);

#[verifier::external_type_specification]
#[verifier::external_body]
pub struct ExIndexReader(tantivy::IndexReader);

#[verifier::external_type_specification]
#[verifier::external_body]
pub struct ExSearcher(tantivy::Searcher);

#[verifier::external_type_specification]
#[verifier::external_body]
pub struct ExDocAddress(tantivy::DocAddress);

#[verifier::external_type_specification]
#[verifier::external_body]
pub struct ExStoreReader(tantivy::store::StoreReader);

/// The logical content of a composed query: which sub-queries it is built
/// from, on which fields, and with which weights (held in thousandths).
#[verifier::ext_equal]
pub enum Clause {
    /// An exact term match, scored with frequencies and positions.
    Term { field: tantivy::schema::Field, text: Seq<char> },
    /// A fuzzy match anchored at the start of the term.
    FuzzyPrefix { field: tantivy::schema::Field, text: Seq<char>, distance: int, transpose: bool },
    /// A fuzzy match over the whole term.
    Fuzzy { field: tantivy::schema::Field, text: Seq<char>, distance: int, transpose: bool },
    /// The words in order, adjacent to one another.
    Phrase { field: tantivy::schema::Field, words: Seq<Seq<char>> },
    /// A regular-expression match over the field's terms.
    Regex { field: tantivy::schema::Field, pattern: Seq<char> },
    /// The inner clause with its score scaled by `permille / 1000`.
    Boost { inner: Box<Clause>, permille: int },
    /// The inner clause with its score replaced by `permille / 1000`.
    Const { inner: Box<Clause>, permille: int },
    /// Any of the parts; matching parts add their scores.
    Or { parts: Seq<Clause> },
}

/// Which post-match score adjustment a search runs with.
pub enum Tweak {
    /// Multiply by the identifier-based factor of the option ranking rules.
    Options,
    /// Break score ties in favour of shorter identifiers.
    Packages,
}

/// A composed query held for the engine; `clause_of` gives its content.
#[verifier::external_body]
pub struct OpaqueQuery {
    q: Box<dyn tantivy::query::Query>,
}

/// The content of a composed query.
pub uninterp spec fn clause_of(q: OpaqueQuery) -> Clause;

/// The identifiers of the documents a store's reader can see.
pub uninterp spec fn doc_ids(ix: TextIndex) -> Set<Seq<char>>;

/// The documents a store's reader can see, each as the triple of its
/// identifier, its indexed name text, and its indexed description text.
pub uninterp spec fn stored_docs(ix: TextIndex) -> Multiset<(Seq<char>, Seq<char>, Seq<char>)>;

/// The identifiers of all documents matching `c` in the store, best first,
/// under the score adjustment `t`. For one unchanged store value this is
/// fixed: two searches with equal queries return the same ranking.
pub uninterp spec fn ranked_ids(ix: TextIndex, c: Clause, t: Tweak) -> Seq<Seq<char>>;

/// Whether the engine accepts `pattern` as a regular expression.
pub uninterp spec fn regex_accepts(pattern: Seq<char>) -> bool;

/// The window of at most `limit` entries of `full` starting at `offset`,
/// clamped to what is there: what a collector with this limit and offset
/// hands back.
pub open spec fn window<V>(full: Seq<V>, offset: int, limit: int) -> Seq<V> {
    if offset >= full.len() {
        Seq::empty()
    } else if full.len() < offset + limit {
        full.skip(offset)
    } else {
        full.skip(offset).take(limit)
    }
}

/// One document store: an index, its manually reloaded reader, and the
/// handles of its fields. Stores arise only from `create_or_open_options`
/// and `create_or_open_packages`, so the handles always belong to the index
/// beside them.
pub struct TextIndex {
    pub(crate) index: tantivy::Index,
    pub(crate) reader: tantivy::IndexReader,
    pub(crate) f_id: tantivy::schema::Field,
    pub(crate) f_name: tantivy::schema::Field,
    pub(crate) f_desc: tantivy::schema::Field,
    pub(crate) f_facet: Option<tantivy::schema::Field>,
}

impl TextIndex {
    /// The handle of the field the name text is indexed under.
    pub closed spec fn name_field(self) -> tantivy::schema::Field {
        self.f_name
    }

    /// The handle of the field the description text is indexed under.
    pub closed spec fn desc_field(self) -> tantivy::schema::Field {
        self.f_desc
    }
}

/// Reads the name-field handle, for composing queries against this store.
pub fn get_name_field(ix: &TextIndex) -> (f: tantivy::schema::Field)
    ensures
        f == ix.name_field(),
{
    ix.f_name
}

/// Reads the description-field handle, for composing queries against this
/// store.
pub fn get_desc_field(ix: &TextIndex) -> (f: tantivy::schema::Field)
    ensures
        f == ix.desc_field(),
{
    ix.f_desc
}

/// A store operation failed in the engine or on disk.
#[derive(Debug, Clone, Copy, PartialEq, Eq, Structural)]
pub enum StoreError {
    Backend,
}

enum RawOpen {
    Opened(tantivy::Index),
    SchemaMismatch,
    Inaccessible,
}

/// Relies on tantivy's schema builder: the options schema holds the stored
/// identifier (a fast field), a facet projection of it, a whitespace-
/// tokenized name field with positions, and a tokenized description field.
#[verifier::external_body]
fn options_schema() -> (tantivy::schema::Schema, tantivy::schema::Field, tantivy::schema::Field, tantivy::schema::Field, tantivy::schema::Field) {
    let mut b = tantivy::schema::Schema::builder();
    let name_indexing = tantivy::schema::TextFieldIndexing::default().set_index_option(
        tantivy::schema::IndexRecordOption::WithFreqsAndPositions,
    ).set_tokenizer("default_ws");
    let name_options = tantivy::schema::TextOptions::default().set_indexing_options(name_indexing);
    let id_options = tantivy::schema::TextOptions::default().set_fast(None).set_stored();
    let f_id = b.add_text_field("attribute_name", id_options);
    let f_facet = b.add_facet_field("name_facet", tantivy::schema::FacetOptions::default());
    let f_name = b.add_text_field("name", name_options);
    let f_desc = b.add_text_field("description", tantivy::schema::TEXT);
    (b.build(), f_id, f_facet, f_name, f_desc)
}

/// Relies on tantivy's schema builder: the packages schema holds the stored
/// identifier (a fast field), an untokenized but stored name field with
/// positions, and a tokenized description field.
#[verifier::external_body]
fn packages_schema() -> (tantivy::schema::Schema, tantivy::schema::Field, tantivy::schema::Field, tantivy::schema::Field) {
    let mut b = tantivy::schema::Schema::builder();
    let name_indexing = tantivy::schema::TextFieldIndexing::default().set_index_option(
        tantivy::schema::IndexRecordOption::WithFreqsAndPositions,
    ).set_tokenizer("raw");
    let name_options = tantivy::schema::TextOptions::default().set_indexing_options(name_indexing)
        .set_stored();
    let id_options = tantivy::schema::TextOptions::default().set_fast(None).set_stored();
    let f_id = b.add_text_field("attribute_name", id_options);
    let f_name = b.add_text_field("name", name_options);
    let f_desc = b.add_text_field("description", tantivy::schema::TEXT);
    (b.build(), f_id, f_name, f_desc)
}

/// Relies on Index::open_or_create over an MmapDirectory: opens the index in
/// the directory when the on-disk schema equals `schema`; reports a schema
/// mismatch when an index with another schema is there; anything else is
/// inaccessible.
#[verifier::external_body]
fn open_existing(path: &str, schema: &tantivy::schema::Schema) -> RawOpen {
    let dir = match tantivy::directory::MmapDirectory::open(std::path::Path::new(path)) {
        Ok(d) => d,
        Err(_) => return RawOpen::Inaccessible,
    };
    match tantivy::Index::open_or_create(dir, schema.clone()) {
        Ok(i) => RawOpen::Opened(i),
        Err(tantivy::TantivyError::SchemaError(_)) => RawOpen::SchemaMismatch,
        Err(_) => RawOpen::Inaccessible,
    }
}

/// Relies on Index::create over an MmapDirectory: writes a fresh, empty
/// index into the directory, superseding whatever index was there.
#[verifier::external_body]
fn create_fresh(path: &str, schema: &tantivy::schema::Schema) -> Option<tantivy::Index> {
    let dir = tantivy::directory::MmapDirectory::open(std::path::Path::new(path)).ok()?;
    tantivy::Index::create(dir, schema.clone(), tantivy::IndexSettings::default()).ok()
}

/// Relies on TokenizerManager::register: makes the whitespace tokenizer
/// available under the name the options schema refers to.
#[verifier::external_body]
fn register_ws_tokenizer(index: &tantivy::Index) {
    let tk = tantivy::tokenizer::TextAnalyzer::builder(
        tantivy::tokenizer::WhitespaceTokenizer::default(),
    ).build();
    index.tokenizers().register("default_ws", tk);
}

/// Relies on IndexReader with manual reload: a snapshot of the index that
/// changes only when `reload` is called.
#[verifier::external_body]
fn make_reader(index: &tantivy::Index) -> Option<tantivy::IndexReader> {
    index.reader_builder().reload_policy(tantivy::ReloadPolicy::Manual).try_into().ok()
}

/// Opens the options store in `path`, or creates it empty: when an index
/// with an incompatible schema is found there it is discarded and a fresh
/// one takes its place, never an error.
pub fn create_or_open_options(path: &str) -> (r: Result<TextIndex, StoreError>) {
    let (schema, f_id, f_facet, f_name, f_desc) = options_schema();
    let index = match open_existing(path, &schema) {
        RawOpen::Opened(i) => i,
        RawOpen::SchemaMismatch => match create_fresh(path, &schema) {
            Some(i) => i,
            None => {
                return Err(StoreError::Backend);
            },
        },
        RawOpen::Inaccessible => {
            return Err(StoreError::Backend);
        },
    };
    register_ws_tokenizer(&index);
    let reader = match make_reader(&index) {
        Some(r) => r,
        None => {
            return Err(StoreError::Backend);
        },
    };
    Ok(TextIndex { index, reader, f_id, f_name, f_desc, f_facet: Some(f_facet) })
}

/// Opens the packages store in `path`, or creates it empty; an index with an
/// incompatible schema is discarded and replaced, never an error.
pub fn create_or_open_packages(path: &str) -> (r: Result<TextIndex, StoreError>) {
    let (schema, f_id, f_name, f_desc) = packages_schema();
    let index = match open_existing(path, &schema) {
        RawOpen::Opened(i) => i,
        RawOpen::SchemaMismatch => match create_fresh(path, &schema) {
            Some(i) => i,
            None => {
                return Err(StoreError::Backend);
            },
        },
        RawOpen::Inaccessible => {
            return Err(StoreError::Backend);
        },
    };
    let reader = match make_reader(&index) {
        Some(r) => r,
        None => {
            return Err(StoreError::Backend);
        },
    };
    Ok(TextIndex { index, reader, f_id, f_name, f_desc, f_facet: None })
}

/// One option document, ready for indexing; `facet_parts` are the
/// dot-separated segments of the identifier, precomputed by the caller for
/// the facet projection.
pub struct OptionDocRow {
    pub id: String,
    pub name_spaced: String,
    pub description: String,
    pub facet_parts: Vec<String>,
}

/// One package document, ready for indexing.
pub struct PackageDocRow {
    pub id: String,
    pub name: String,
    pub description: String,
}

/// Relies on tantivy's IndexWriter: deletes every document, adds one per
/// row (the identifier stored and the caller's segments as its facet path,
/// the spaced name and the description indexed), commits once, and only
/// then — after a successful commit — reloads the reader. On success the
/// reader sees exactly the rows; on failure it keeps its old snapshot,
/// since the reader is swapped only by a successful reload.
#[verifier::external_body]
fn replace_docs_options(ix: &mut TextIndex, rows: &Vec<OptionDocRow>) -> (r: Result<
    (),
    StoreError,
>)
    ensures
        r is Ok ==> doc_ids(*final (ix)) == rows@.map_values(|x: OptionDocRow| x.id@).to_set(),
        r is Ok ==> stored_docs(*final (ix)) == rows@.map_values(
            |x: OptionDocRow| (x.id@, x.name_spaced@, x.description@),
        ).to_multiset(),
        r is Err ==> doc_ids(*final (ix)) == doc_ids(*old(ix)) && stored_docs(*final (ix))
            == stored_docs(*old(ix)),
{
    let go = || -> tantivy::Result<()> {
        let mut w = ix.index.writer(50_000_000)?;
        w.delete_all_documents().and_then(|_| w.commit())?;
        for row in rows {
            let mut d = TantivyDocument::new();
            d.add_text(ix.f_id, &row.id);
            if let Some(f) = ix.f_facet { d.add_facet(f, Facet::from_path(row.facet_parts.iter())); }
            d.add_text(ix.f_name, &row.name_spaced);
            d.add_text(ix.f_desc, &row.description);
            w.add_document(d)?;
        }
        w.commit().and_then(|_| ix.reader.reload())
    };
    go().map_err(|_| StoreError::Backend)
}

/// Relies on tantivy's IndexWriter: deletes every document, adds one per
/// row (the identifier stored, the name and the description indexed),
/// commits once, and only then — after a successful commit — reloads the
/// reader. On success the reader sees exactly the rows; on failure it keeps
/// its old snapshot, since the reader is swapped only by a successful
/// reload.
#[verifier::external_body]
fn replace_docs_packages(ix: &mut TextIndex, rows: &Vec<PackageDocRow>) -> (r: Result<
    (),
    StoreError,
>)
    ensures
        r is Ok ==> doc_ids(*final (ix)) == rows@.map_values(|x: PackageDocRow| x.id@).to_set(),
        r is Ok ==> stored_docs(*final (ix)) == rows@.map_values(
            |x: PackageDocRow| (x.id@, x.name@, x.description@),
        ).to_multiset(),
        r is Err ==> doc_ids(*final (ix)) == doc_ids(*old(ix)) && stored_docs(*final (ix))
            == stored_docs(*old(ix)),
{
    let go = || -> tantivy::Result<()> {
        let mut w = ix.index.writer(50_000_000)?;
        w.delete_all_documents().and_then(|_| w.commit())?;
        for row in rows {
            let mut d = TantivyDocument::new();
            d.add_text(ix.f_id, &row.id);
            d.add_text(ix.f_name, &row.name);
            d.add_text(ix.f_desc, &row.description);
            w.add_document(d)?;
        }
        w.commit().and_then(|_| ix.reader.reload())
    };
    go().map_err(|_| StoreError::Backend)
}

/// Replaces the options store's content by the given rows, transactionally:
/// afterwards the reader sees exactly the rows, or — when the engine
/// refuses — exactly what it saw before.
pub fn replace_all_options(ix: &mut TextIndex, rows: &Vec<OptionDocRow>) -> (r: Result<
    (),
    StoreError,
>)
    ensures
        r is Ok ==> doc_ids(*final (ix)) == rows@.map_values(|x: OptionDocRow| x.id@).to_set(),
        r is Ok ==> stored_docs(*final (ix)) == rows@.map_values(
            |x: OptionDocRow| (x.id@, x.name_spaced@, x.description@),
        ).to_multiset(),
        r is Err ==> doc_ids(*final (ix)) == doc_ids(*old(ix)) && stored_docs(*final (ix))
            == stored_docs(*old(ix)),
{
    replace_docs_options(ix, rows)
}

/// Replaces the packages store's content by the given rows, transactionally:
/// afterwards the reader sees exactly the rows, or — when the engine
/// refuses — exactly what it saw before.
pub fn replace_all_packages(ix: &mut TextIndex, rows: &Vec<PackageDocRow>) -> (r: Result<
    (),
    StoreError,
>)
    ensures
        r is Ok ==> doc_ids(*final (ix)) == rows@.map_values(|x: PackageDocRow| x.id@).to_set(),
        r is Ok ==> stored_docs(*final (ix)) == rows@.map_values(
            |x: PackageDocRow| (x.id@, x.name@, x.description@),
        ).to_multiset(),
        r is Err ==> doc_ids(*final (ix)) == doc_ids(*old(ix)) && stored_docs(*final (ix))
            == stored_docs(*old(ix)),
{
    replace_docs_packages(ix, rows)
}

/// Relies on TermQuery: an exact match of `text` on `field`, scored with
/// frequencies and positions.
#[verifier::external_body]
pub fn q_term(field: tantivy::schema::Field, text: &str) -> (r: OpaqueQuery)
    ensures
        clause_of(r) == (Clause::Term { field, text: text@ }),
{
    let t = tantivy::Term::from_field_text(field, text);
    let q = tantivy::query::TermQuery::new(t, tantivy::schema::IndexRecordOption::WithFreqsAndPositions);
    OpaqueQuery { q: Box::new(q) }
}

/// Relies on FuzzyTermQuery::new_prefix: matches terms within `distance`
/// edits of a prefix of the indexed term; `transpose` counts a transposition
/// as one edit.
#[verifier::external_body]
pub fn q_fuzzy_prefix(field: tantivy::schema::Field, text: &str, distance: u8, transpose: bool) -> (r: OpaqueQuery)
    ensures
        clause_of(r) == (Clause::FuzzyPrefix {
            field,
            text: text@,
            distance: distance as int,
            transpose,
        }),
{
    let t = tantivy::Term::from_field_text(field, text);
    let q = tantivy::query::FuzzyTermQuery::new_prefix(t, distance, transpose);
    OpaqueQuery { q: Box::new(q) }
}

/// Relies on FuzzyTermQuery::new: matches whole terms within `distance`
/// edits; `transpose` counts a transposition as one edit.
#[verifier::external_body]
pub fn q_fuzzy(field: tantivy::schema::Field, text: &str, distance: u8, transpose: bool) -> (r: OpaqueQuery)
    ensures
        clause_of(r) == (Clause::Fuzzy { field, text: text@, distance: distance as int, transpose }),
{
    let t = tantivy::Term::from_field_text(field, text);
    let q = tantivy::query::FuzzyTermQuery::new(t, distance, transpose);
    OpaqueQuery { q: Box::new(q) }
}

/// Relies on PhraseQuery: the parts adjacent and in order; the engine
/// requires at least two parts.
#[verifier::external_body]
pub fn q_phrase(field: tantivy::schema::Field, parts: &Vec<String>) -> (r: OpaqueQuery)
    requires
        parts@.len() >= 2,
    ensures
        clause_of(r) == (Clause::Phrase { field, words: parts.deep_view() }),
{
    let terms: Vec<tantivy::Term> = parts.iter().map(
        |p| tantivy::Term::from_field_text(field, p),
    ).collect();
    OpaqueQuery { q: Box::new(tantivy::query::PhraseQuery::new(terms)) }
}

/// Relies on RegexQuery::from_pattern: matches the field's terms against the
/// pattern; `None` exactly when the engine rejects the pattern.
#[verifier::external_body]
pub fn q_regex(field: tantivy::schema::Field, pattern: &str) -> (r: Option<OpaqueQuery>)
    ensures
        r is Some <==> regex_accepts(pattern@),
        match r {
            Some(q) => clause_of(q) == (Clause::Regex { field, pattern: pattern@ }),
            None => true,
        },
{
    match tantivy::query::RegexQuery::from_pattern(pattern, field) {
        Ok(q) => Some(OpaqueQuery { q: Box::new(q) }),
        Err(_) => None,
    }
}

/// Relies on BoostQuery: the inner query's score scaled by
/// `permille / 1000`.
#[verifier::external_body]
pub fn q_boost(inner: OpaqueQuery, permille: i128) -> (r: OpaqueQuery)
    ensures
        clause_of(r) == (Clause::Boost {
            inner: Box::new(clause_of(inner)),
            permille: permille as int,
        }),
{
    let factor = (permille as Score) / (1000 as Score);
    OpaqueQuery { q: Box::new(tantivy::query::BoostQuery::new(inner.q, factor)) }
}

/// Relies on ConstScoreQuery: the inner query's matches, each scored
/// `permille / 1000`.
#[verifier::external_body]
pub fn q_const(inner: OpaqueQuery, permille: i128) -> (r: OpaqueQuery)
    ensures
        clause_of(r) == (Clause::Const {
            inner: Box::new(clause_of(inner)),
            permille: permille as int,
        }),
{
    let score = (permille as Score) / (1000 as Score);
    OpaqueQuery { q: Box::new(tantivy::query::ConstScoreQuery::new(inner.q, score)) }
}

/// Relies on BooleanQuery over optional clauses: any part may match, and the
/// scores of matching parts add up.
#[verifier::external_body]
pub fn q_or(parts: Vec<OpaqueQuery>) -> (r: OpaqueQuery)
    ensures
        clause_of(r) == (Clause::Or {
            parts: parts@.map_values(|p: OpaqueQuery| clause_of(p)),
        }),
{
    let subqueries: Vec<(tantivy::query::Occur, Box<dyn tantivy::query::Query>)> = parts
        .into_iter().map(|p| (tantivy::query::Occur::Should, p.q)).collect();
    OpaqueQuery { q: Box::new(tantivy::query::BooleanQuery::new(subqueries)) }
}

/// Relies on Searcher::doc and the stored identifier field: reads a hit's
/// identifier back as text, `None` when the hit cannot be read back. The
/// readout both search wrappers share.
#[verifier::external_body]
fn doc_id_str(s: &tantivy::Searcher, fid: tantivy::schema::Field, a: tantivy::DocAddress) -> Option<
    String,
> {
    let d: TantivyDocument = s.doc(a).ok()?;
    Some(d.get_first(fid)?.as_str()?.to_string())
}

/// Relies on StoreReader::get and the stored identifier field: reads a
/// candidate's identifier during scoring, `None` when it cannot be read.
/// The readout both score tweaks share.
#[verifier::external_body]
fn store_id_str(st: &tantivy::store::StoreReader, fid: tantivy::schema::Field, doc: DocId) -> Option<
    String,
> {
    let d: TantivyDocument = st.get(doc).ok()?;
    Some(d.get_first(fid)?.as_str()?.to_string())
}

/// Relies on Searcher::search with a TopDocs collector (limit and offset)
/// whose scores are tweaked as the option rules say: the base score scaled
/// by `option_score_permille` of the stored identifier, read from the
/// document store (ties keep the collector's address order; a candidate
/// that cannot be read back scores as an empty identifier). Returns the
/// stored identifiers of the hits in rank order; an empty list when the
/// engine reports an error or a hit cannot be read back. For one unchanged
/// store value the ranking is a function of the query's content alone.
#[verifier::external_body]
pub fn search_options_page(ix: &TextIndex, q: &OpaqueQuery, limit: usize, offset: usize) -> (r: Vec<
    String,
>)
    requires
        limit >= 1,
    ensures
        r.deep_view() == window(
            ranked_ids(*ix, clause_of(*q), Tweak::Options),
            offset as int,
            limit as int,
        ) || r@.len() == 0,
        r@.len() <= limit,
        forall|i: int| 0 <= i < r@.len() ==> doc_ids(*ix).contains(#[trigger] r.deep_view()[i]),
{
    let s = ix.reader.searcher();
    let fid = ix.f_id;
    let tw = move |sr: &SegmentReader| {
        let st = sr.get_store_reader(100).ok();
        move |doc: DocId, score: Score| {
            let id = st.as_ref().and_then(|r| store_id_str(r, fid, doc)).unwrap_or_default();
            score * (option_score_permille(&id) as Score) / (1000 as Score)
        }};
    let coll = TopDocs::with_limit(limit).and_offset(offset).tweak_score(tw);
    let hits = s.search(&q.q, &coll).unwrap_or_default();
    hits.into_iter().map(|h| doc_id_str(&s, fid, h.1)).collect::<Option<Vec<String>>>().unwrap_or_default()
}

/// Relies on Searcher::search with a TopDocs collector (limit and offset)
/// whose sort key is the pair of the base score and the reciprocal byte
/// length of the stored identifier, so equal scores put shorter identifiers
/// first (a candidate that cannot be read back counts as empty). Returns
/// the stored identifiers of the hits in rank order; an empty list when the
/// engine reports an error or a hit cannot be read back. For one unchanged
/// store value the ranking is a function of the query's content alone.
#[verifier::external_body]
pub fn search_packages_page(ix: &TextIndex, q: &OpaqueQuery, limit: usize, offset: usize) -> (r: Vec<
    String,
>)
    requires
        limit >= 1,
    ensures
        r.deep_view() == window(
            ranked_ids(*ix, clause_of(*q), Tweak::Packages),
            offset as int,
            limit as int,
        ) || r@.len() == 0,
        r@.len() <= limit,
        forall|i: int| 0 <= i < r@.len() ==> doc_ids(*ix).contains(#[trigger] r.deep_view()[i]),
{
    let s = ix.reader.searcher();
    let fid = ix.f_id;
    let tw = move |sr: &SegmentReader| {
        let st = sr.get_store_reader(100).ok();
        move |doc: DocId, score: Score| {
            let id = st.as_ref().and_then(|r| store_id_str(r, fid, doc)).unwrap_or_default();
            (score, (1 as Score) / (id.len() as Score))
        }};
    let coll = TopDocs::with_limit(limit).and_offset(offset).tweak_score(tw);
    let hits = s.search(&q.q, &coll).unwrap_or_default();
    hits.into_iter().map(|h| doc_id_str(&s, fid, h.1)).collect::<Option<Vec<String>>>().unwrap_or_default()
}

} // verus!
