//! The generic searcher machinery: one document store plus the
//! authoritative identifier-to-record map per record type, paginated
//! retrieval on top of both, and the channel lifecycle that reconciles them
//! against an upstream revision. The laws the whole subsystem obeys stand at
//! the end as proof functions.

use vstd::prelude::*;

use crate::nix::{NixPackage, NixPackageView};
use crate::query::{
    build_options_query, build_packages_query, options_plan, packages_plan,
};
use crate::store::{
    create_or_open_options, create_or_open_packages, doc_ids, ranked_ids, replace_all_options,
    replace_all_packages, search_options_page, search_packages_page, stored_docs, window,
    OptionDocRow, PackageDocRow, StoreError, TextIndex, Tweak,
};
use crate::strutil::{map_replace, replace_char, split_on, split_str};
use crate::{Flake, FlakeRev, NaiveNixosOption, NaiveNixosOptionView};

verus! {

use vstd::string::StringExecFns;

/// The identifiers a record list is keyed by.
pub open spec fn key_set<T>(entries: Seq<(String, T)>) -> Set<Seq<char>> {
    entries.map_values(|e: (String, T)| e.0@).to_set()
}

/// No identifier occurs twice.
pub open spec fn distinct_keys<T>(entries: Seq<(String, T)>) -> bool {
    forall|i: int, j: int| 0 <= i < j < entries.len() ==> entries[i].0@ != entries[j].0@
}

/// The first record stored under `key`, if any.
pub open spec fn lookup<T>(entries: Seq<(String, T)>, key: Seq<char>) -> Option<T>
    decreases entries.len(),
{
    if entries.len() == 0 {
        None
    } else if entries[0].0@ == key {
        Some(entries[0].1)
    } else {
        lookup(entries.drop_first(), key)
    }
}

/// A lookup succeeds exactly for keys of the list, and yields a record that
/// stands in the list under that key.
pub proof fn lemma_lookup<T>(entries: Seq<(String, T)>, key: Seq<char>)
    ensures
        lookup(entries, key) is Some <==> key_set(entries).contains(key),
        match lookup(entries, key) {
            Some(t) => exists|j: int|
                0 <= j < entries.len() && entries[j].0@ == key && entries[j].1 == t,
            None => true,
        },
    decreases entries.len(),
{
    let m = entries.map_values(|e: (String, T)| e.0@);
    if entries.len() == 0 {
        if key_set(entries).contains(key) {
            assert(m.contains(key));
        }
    } else {
        lemma_lookup(entries.drop_first(), key);
        let rest = entries.drop_first();
        let mr = rest.map_values(|e: (String, T)| e.0@);
        assert forall|j: int| 0 <= j < mr.len() implies mr[j] == m[j + 1] by {}
        if entries[0].0@ == key {
            assert(m[0] == key);
            assert(m.contains(key));
            assert(entries[0].1 == lookup(entries, key)->Some_0);
        } else {
            if lookup(rest, key) is Some {
                let j = choose|j: int|
                    0 <= j < rest.len() && rest[j].0@ == key && rest[j].1 == lookup(
                        rest,
                        key,
                    )->Some_0;
                assert(entries[j + 1].0@ == key && entries[j + 1].1 == lookup(
                    entries,
                    key,
                )->Some_0);
                assert(m[j + 1] == key);
                assert(m.contains(key));
            } else {
                if m.contains(key) {
                    let j = choose|j: int| 0 <= j < m.len() && m[j] == key;
                    assert(j != 0);
                    assert(mr[j - 1] == key);
                    assert(mr.contains(key));
                    assert(false);
                }
            }
        }
    }
}

/// Finds the record stored under `key`.
pub(crate) fn find_entry<'a, T>(entries: &'a Vec<(String, T)>, key: &String) -> (r: Option<&'a T>)
    ensures
        match r {
            Some(t) => lookup(entries@, key@) == Some(*t),
            None => lookup(entries@, key@) is None,
        },
{
    let mut i: usize = 0;
    proof {
        assert(entries@.skip(0) =~= entries@);
    }
    while i < entries.len()
        invariant
            0 <= i <= entries@.len(),
            lookup(entries@, key@) == lookup(entries@.skip(i as int), key@),
        decreases entries@.len() - i,
    {
        if entries[i].0 == *key {
            proof {
                assert(entries@.skip(i as int)[0] == entries@[i as int]);
            }
            return Some(&entries[i].1);
        }
        proof {
            assert(entries@.skip(i as int)[0] == entries@[i as int]);
            assert(entries@.skip(i as int).drop_first() =~= entries@.skip(i + 1));
        }
        i += 1;
    }
    None
}

/// The offset of `page` (1-based; 0 behaves as 1) with `n_items` per page.
pub open spec fn page_offset(n_items: u8, page: u8) -> int {
    (if page < 1 {
        0int
    } else {
        page - 1
    }) * n_items
}

/// Every returned record stands in `entries`.
pub open spec fn from_entries<T: View>(entries: Seq<(String, T)>, rv: Seq<<T as View>::V>) -> bool {
    forall|i: int|
        0 <= i < rv.len() ==> exists|j: int|
            0 <= j < entries.len() && (#[trigger] rv[i]) == #[trigger] entries[j].1@
}

pub proof fn lemma_from_entries_push<T: View>(
    entries: Seq<(String, T)>,
    rv: Seq<<T as View>::V>,
    x: <T as View>::V,
    j: int,
)
    requires
        from_entries(entries, rv),
        0 <= j < entries.len(),
        x == entries[j].1@,
    ensures
        from_entries(entries, rv.push(x)),
{
    assert forall|i: int| 0 <= i < rv.push(x).len() implies exists|jj: int|
        0 <= jj < entries.len() && (#[trigger] rv.push(x)[i]) == #[trigger] entries[jj].1@ by {
        if i < rv.len() {
            assert(rv.push(x)[i] == rv[i]);
        } else {
            assert(rv.push(x)[i] == x);
            assert(entries[j].1@ == x);
        }
    }
}

/// The records the identifiers `ids` name in `entries`, in order.
pub open spec fn records_for<T: View>(entries: Seq<(String, T)>, ids: Seq<Seq<char>>) -> Seq<
    <T as View>::V,
> {
    Seq::new(ids.len(), |k: int| lookup(entries, ids[k])->Some_0@)
}

/// The page without its lookahead row: when a result list holds more than
/// `n` entries, the extra final entry served only as the lookahead and is
/// cut; a list of `n` entries or fewer is complete and stays whole.
pub open spec fn trimmed<V>(s: Seq<V>, n: int) -> Seq<V> {
    if s.len() > n {
        s.drop_last()
    } else {
        s
    }
}

/// Observes the lookahead row of a result list: whether a further page
/// exists, and the list with the lookahead row (and only it) cut.
pub fn trim_page<T>(results: Vec<T>, n_items: u8) -> (r: (Vec<T>, bool))
    ensures
        r.1 == (results@.len() > n_items as int),
        r.0@ == trimmed(results@, n_items as int),
{
    let mut results = results;
    let has_next = results.len() > n_items as usize;
    if has_next {
        let _dropped = results.pop();
    }
    (results, has_next)
}

/// Searches one channel's options: a document store and the record map it
/// is kept in lockstep with.
pub struct OptionsSearcher {
    pub index_path: String,
    pub entries: Vec<(String, NaiveNixosOption)>,
    pub index: TextIndex,
}

/// The document one option record is indexed as: its identifier, the
/// identifier with dots turned to spaces as the name text, and the
/// description text.
pub open spec fn option_doc(e: (String, NaiveNixosOption)) -> (Seq<char>, Seq<char>, Seq<char>) {
    (e.0@, map_replace(e.0@, '.', ' '), e.1.description@)
}

/// The document one package record is indexed as: its identifier, the
/// display name as the name text, and the description text (empty when the
/// record has none).
pub open spec fn package_doc(e: (String, NixPackage)) -> (Seq<char>, Seq<char>, Seq<char>) {
    (
        e.0@,
        e.1.name@,
        match e.1.description {
            Some(d) => d@,
            None => Seq::empty(),
        },
    )
}

impl OptionsSearcher {
    /// The store is in lockstep with the record map: it holds exactly one
    /// document per record — identifier, spaced name text and description
    /// as `option_doc` says — and the identifiers are the map's keys.
    pub open spec fn wf(&self) -> bool {
        &&& doc_ids(self.index) == key_set(self.entries@)
        &&& stored_docs(self.index) == self.entries@.map_values(
            |e: (String, NaiveNixosOption)| option_doc(e),
        ).to_multiset()
        &&& distinct_keys(self.entries@)
    }

    /// Opens (or creates) the store under `index_path` with an empty map.
    pub fn new(index_path: &str) -> (r: Result<Self, StoreError>)
        ensures
            match r {
                Ok(s) => s.entries@.len() == 0 && s.index_path@ == index_path@,
                Err(_) => true,
            },
    {
        let index = create_or_open_options(index_path)?;
        Ok(OptionsSearcher { index_path: String::from_str(index_path), entries: Vec::new(), index })
    }

    /// Opens the store and fills it with `entries` at once.
    pub fn new_with_options(index_path: &str, entries: Vec<(String, NaiveNixosOption)>) -> (r:
        Result<Self, StoreError>)
        requires
            distinct_keys(entries@),
        ensures
            match r {
                Ok(s) => s.wf() && s.entries@ == entries@ && s.index_path@ == index_path@,
                Err(_) => true,
            },
    {
        let mut s = Self::new(index_path)?;
        s.update_entries(entries)?;
        Ok(s)
    }

    /// Replaces the indexed documents and the record map together: one
    /// document per record, holding the identifier, the identifier with its
    /// dots turned to spaces for the name field, the description text, and
    /// the identifier's dot-separated segments for the facet projection.
    /// On success the store is consistent with exactly the new records; on
    /// failure both the map and the store's visible content stay as they
    /// were.
    pub fn update_entries(&mut self, entries: Vec<(String, NaiveNixosOption)>) -> (r: Result<
        (),
        StoreError,
    >)
        requires
            distinct_keys(entries@),
        ensures
            r is Ok ==> final (self).wf() && final (self).entries@ == entries@
                && final (self).index_path == old(self).index_path,
            r is Err ==> final (self).entries@ == old(self).entries@ && final (self).index_path
                == old(self).index_path && doc_ids(final (self).index) == doc_ids(old(self).index)
                && stored_docs(final (self).index) == stored_docs(old(self).index),
    {
        let mut rows: Vec<OptionDocRow> = Vec::new();
        let mut i: usize = 0;
        while i < entries.len()
            invariant
                0 <= i <= entries@.len(),
                rows@.len() == i as int,
                forall|k: int| 0 <= k < i ==> (#[trigger] rows@[k]).id@ == entries@[k].0@,
                forall|k: int|
                    0 <= k < i ==> ((#[trigger] rows@[k]).id@, rows@[k].name_spaced@,
                    rows@[k].description@) == option_doc(entries@[k]),
                forall|k: int|
                    0 <= k < i ==> (#[trigger] rows@[k]).facet_parts.deep_view() == split_on(
                        entries@[k].0@,
                        '.',
                    ),
            decreases entries@.len() - i,
        {
            let row = OptionDocRow {
                id: entries[i].0.clone(),
                name_spaced: replace_char(entries[i].0.as_str(), '.', ' '),
                description: entries[i].1.description.0.clone(),
                facet_parts: split_str(entries[i].0.as_str(), '.'),
            };
            rows.push(row);
            i += 1;
        }
        replace_all_options(&mut self.index, &rows)?;
        proof {
            assert(rows@.map_values(|x: OptionDocRow| x.id@) =~= entries@.map_values(
                |e: (String, NaiveNixosOption)| e.0@,
            ));
            assert(rows@.map_values(
                |x: OptionDocRow| (x.id@, x.name_spaced@, x.description@),
            ) =~= entries@.map_values(|e: (String, NaiveNixosOption)| option_doc(e)));
        }
        self.entries = entries;
        Ok(())
    }

    /// The ranking the store gives the composed query of `q`.
    pub open spec fn ranked(&self, q: Seq<char>) -> Seq<Seq<char>> {
        ranked_ids(
            self.index,
            options_plan(q, self.index.name_field(), self.index.desc_field()),
            Tweak::Options,
        )
    }

    /// The identifiers of the requested page: the window of at most
    /// `n_items + 1` ranked results (the extra one is the lookahead row) at
    /// the page's offset, clamped to the ranking's length.
    pub open spec fn page_ids(&self, q: Seq<char>, n_items: u8, page: u8) -> Seq<Seq<char>> {
        window(self.ranked(q), page_offset(n_items, page), n_items + 1)
    }

    /// What a search returns: when store and map are consistent, exactly the
    /// records of the page's identifiers (or nothing, when the engine failed
    /// and the search degraded); never more than `n_items + 1` records; and
    /// never anything but records of the map.
    pub open spec fn search_post(
        &self,
        q: Seq<char>,
        n_items: u8,
        page: u8,
        rv: Seq<NaiveNixosOptionView>,
    ) -> bool {
        &&& (self.wf() ==> (rv == records_for(self.entries@, self.page_ids(q, n_items, page))
            || rv =~= Seq::<NaiveNixosOptionView>::empty()))
        &&& rv.len() <= n_items as int + 1
        &&& from_entries(self.entries@, rv)
    }

    /// Runs one paginated search and resolves the hits through the map,
    /// returning owned copies of the records.
    pub fn search_entries(&self, query: &str, n_items: u8, page: u8) -> (r: Vec<NaiveNixosOption>)
        ensures
            self.search_post(query@, n_items, page, r.deep_view()),
    {
        let q_obj = build_options_query(&self.index, query);
        let p: usize = if page < 1 {
            0
        } else {
            (page - 1) as usize
        };
        proof {
            assert(p <= 254);
            assert(n_items as usize <= 255);
            assert(p * (n_items as usize) <= 64770) by (nonlinear_arith)
                requires p <= 254 && n_items as usize <= 255;
        }
        let offset = p * n_items as usize;
        let limit = n_items as usize + 1;
        let ids = search_options_page(&self.index, &q_obj, limit, offset);
        let ghost ids_dv = ids.deep_view();
        proof {
            assert(ids_dv == self.page_ids(query@, n_items, page) || ids@.len() == 0);
        }
        let mut out: Vec<NaiveNixosOption> = Vec::new();
        let mut i: usize = 0;
        proof {
            assert(out.deep_view() =~= records_for(self.entries@, ids_dv.take(0)));
        }
        while i < ids.len()
            invariant
                0 <= i <= ids@.len(),
                out@.len() <= i as int,
                ids_dv == ids.deep_view(),
                forall|k: int|
                    0 <= k < ids_dv.len() ==> doc_ids(self.index).contains(#[trigger] ids_dv[k]),
                self.wf() ==> out.deep_view() == records_for(self.entries@, ids_dv.take(i as int)),
                from_entries(self.entries@, out.deep_view()),
            decreases ids@.len() - i,
        {
            let ghost opre = out.deep_view();
            proof {
                lemma_lookup(self.entries@, ids_dv[i as int]);
            }
            match find_entry(&self.entries, &ids[i]) {
                Some(record) => {
                    let ghost rv = record@;
                    out.push(record.clone());
                    proof {
                        assert(out.deep_view() =~= opre.push(rv));
                        let j = choose|j: int|
                            0 <= j < self.entries@.len() && self.entries@[j].0@ == ids_dv[i as int]
                                && self.entries@[j].1 == lookup(
                                self.entries@,
                                ids_dv[i as int],
                            )->Some_0;
                        assert(rv == self.entries@[j].1@);
                        lemma_from_entries_push(self.entries@, opre, rv, j);
                    }
                },
                None => {
                    proof {
                        if self.wf() {
                            assert(key_set(self.entries@).contains(ids_dv[i as int]));
                            assert(false);
                        }
                    }
                },
            }
            proof {
                if self.wf() {
                    assert(ids_dv.take(i + 1).drop_last() =~= ids_dv.take(i as int));
                    assert(out.deep_view() =~= records_for(self.entries@, ids_dv.take(i + 1)));
                }
            }
            i += 1;
        }
        proof {
            assert(ids_dv.take(i as int) =~= ids_dv);
            if self.wf() {
                if ids_dv == self.page_ids(query@, n_items, page) {
                    assert(out.deep_view() == records_for(self.entries@, self.page_ids(query@, n_items, page)));
                } else {
                    assert(out.deep_view() =~= Seq::<NaiveNixosOptionView>::empty());
                }
            }
        }
        out
    }
}

/// Searches one channel's packages, as `OptionsSearcher` does for options.
pub struct PackagesSearcher {
    pub index_path: String,
    pub entries: Vec<(String, NixPackage)>,
    pub index: TextIndex,
}

impl PackagesSearcher {
    /// The store is in lockstep with the record map: it holds exactly one
    /// document per record — identifier, display name and description as
    /// `package_doc` says — and the identifiers are the map's keys.
    pub open spec fn wf(&self) -> bool {
        &&& doc_ids(self.index) == key_set(self.entries@)
        &&& stored_docs(self.index) == self.entries@.map_values(
            |e: (String, NixPackage)| package_doc(e),
        ).to_multiset()
        &&& distinct_keys(self.entries@)
    }

    /// Opens (or creates) the store under `index_path` with an empty map.
    pub fn new(index_path: &str) -> (r: Result<Self, StoreError>)
        ensures
            match r {
                Ok(s) => s.entries@.len() == 0 && s.index_path@ == index_path@,
                Err(_) => true,
            },
    {
        let index = create_or_open_packages(index_path)?;
        Ok(PackagesSearcher {
            index_path: String::from_str(index_path),
            entries: Vec::new(),
            index,
        })
    }

    /// Opens the store and fills it with `entries` at once.
    pub fn new_with_packages(index_path: &str, entries: Vec<(String, NixPackage)>) -> (r: Result<
        Self,
        StoreError,
    >)
        requires
            distinct_keys(entries@),
        ensures
            match r {
                Ok(s) => s.wf() && s.entries@ == entries@ && s.index_path@ == index_path@,
                Err(_) => true,
            },
    {
        let mut s = Self::new(index_path)?;
        s.update_entries(entries)?;
        Ok(s)
    }

    /// Replaces the indexed documents and the record map together: one
    /// document per record, holding the identifier, the package's display
    /// name, and its description text (empty when absent). On success the
    /// store is consistent with exactly the new records; on failure the map
    /// keeps its old content.
    pub fn update_entries(&mut self, entries: Vec<(String, NixPackage)>) -> (r: Result<
        (),
        StoreError,
    >)
        requires
            distinct_keys(entries@),
        ensures
            r is Ok ==> final (self).wf() && final (self).entries@ == entries@
                && final (self).index_path == old(self).index_path,
            r is Err ==> final (self).entries@ == old(self).entries@ && final (self).index_path
                == old(self).index_path && doc_ids(final (self).index) == doc_ids(old(self).index)
                && stored_docs(final (self).index) == stored_docs(old(self).index),
    {
        let mut rows: Vec<PackageDocRow> = Vec::new();
        let mut i: usize = 0;
        while i < entries.len()
            invariant
                0 <= i <= entries@.len(),
                rows@.len() == i as int,
                forall|k: int| 0 <= k < i ==> (#[trigger] rows@[k]).id@ == entries@[k].0@,
                forall|k: int|
                    0 <= k < i ==> ((#[trigger] rows@[k]).id@, rows@[k].name@,
                    rows@[k].description@) == package_doc(entries@[k]),
            decreases entries@.len() - i,
        {
            let description = match &entries[i].1.description {
                Some(d) => d.clone(),
                None => String::new(),
            };
            let row = PackageDocRow {
                id: entries[i].0.clone(),
                name: entries[i].1.name.clone(),
                description,
            };
            rows.push(row);
            i += 1;
        }
        replace_all_packages(&mut self.index, &rows)?;
        proof {
            assert(rows@.map_values(|x: PackageDocRow| x.id@) =~= entries@.map_values(
                |e: (String, NixPackage)| e.0@,
            ));
            assert(rows@.map_values(
                |x: PackageDocRow| (x.id@, x.name@, x.description@),
            ) =~= entries@.map_values(|e: (String, NixPackage)| package_doc(e)));
        }
        self.entries = entries;
        Ok(())
    }

    /// The ranking the store gives the composed query of `q`.
    pub open spec fn ranked(&self, q: Seq<char>) -> Seq<Seq<char>> {
        ranked_ids(
            self.index,
            packages_plan(q, self.index.name_field(), self.index.desc_field()),
            Tweak::Packages,
        )
    }

    /// The identifiers of the requested page: the window of at most
    /// `n_items + 1` ranked results (the extra one is the lookahead row) at
    /// the page's offset, clamped to the ranking's length.
    pub open spec fn page_ids(&self, q: Seq<char>, n_items: u8, page: u8) -> Seq<Seq<char>> {
        window(self.ranked(q), page_offset(n_items, page), n_items + 1)
    }

    /// What a search returns; see `OptionsSearcher::search_post`.
    pub open spec fn search_post(
        &self,
        q: Seq<char>,
        n_items: u8,
        page: u8,
        rv: Seq<NixPackageView>,
    ) -> bool {
        &&& (self.wf() ==> (rv == records_for(self.entries@, self.page_ids(q, n_items, page))
            || rv =~= Seq::<NixPackageView>::empty()))
        &&& rv.len() <= n_items as int + 1
        &&& from_entries(self.entries@, rv)
    }

    /// Runs one paginated search and resolves the hits through the map,
    /// returning owned copies of the records.
    pub fn search_entries(&self, query: &str, n_items: u8, page: u8) -> (r: Vec<NixPackage>)
        ensures
            self.search_post(query@, n_items, page, r.deep_view()),
    {
        let q_obj = build_packages_query(&self.index, query);
        let p: usize = if page < 1 {
            0
        } else {
            (page - 1) as usize
        };
        proof {
            assert(p <= 254);
            assert(n_items as usize <= 255);
            assert(p * (n_items as usize) <= 64770) by (nonlinear_arith)
                requires p <= 254 && n_items as usize <= 255;
        }
        let offset = p * n_items as usize;
        let limit = n_items as usize + 1;
        let ids = search_packages_page(&self.index, &q_obj, limit, offset);
        let ghost ids_dv = ids.deep_view();
        proof {
            assert(ids_dv == self.page_ids(query@, n_items, page) || ids@.len() == 0);
        }
        let mut out: Vec<NixPackage> = Vec::new();
        let mut i: usize = 0;
        proof {
            assert(out.deep_view() =~= records_for(self.entries@, ids_dv.take(0)));
        }
        while i < ids.len()
            invariant
                0 <= i <= ids@.len(),
                out@.len() <= i as int,
                ids_dv == ids.deep_view(),
                forall|k: int|
                    0 <= k < ids_dv.len() ==> doc_ids(self.index).contains(#[trigger] ids_dv[k]),
                self.wf() ==> out.deep_view() == records_for(self.entries@, ids_dv.take(i as int)),
                from_entries(self.entries@, out.deep_view()),
            decreases ids@.len() - i,
        {
            let ghost opre = out.deep_view();
            proof {
                lemma_lookup(self.entries@, ids_dv[i as int]);
            }
            match find_entry(&self.entries, &ids[i]) {
                Some(record) => {
                    let ghost rv = record@;
                    out.push(record.clone());
                    proof {
                        assert(out.deep_view() =~= opre.push(rv));
                        let j = choose|j: int|
                            0 <= j < self.entries@.len() && self.entries@[j].0@ == ids_dv[i as int]
                                && self.entries@[j].1 == lookup(
                                self.entries@,
                                ids_dv[i as int],
                            )->Some_0;
                        assert(rv == self.entries@[j].1@);
                        lemma_from_entries_push(self.entries@, opre, rv, j);
                    }
                },
                None => {
                    proof {
                        if self.wf() {
                            assert(key_set(self.entries@).contains(ids_dv[i as int]));
                            assert(false);
                        }
                    }
                },
            }
            proof {
                if self.wf() {
                    assert(ids_dv.take(i + 1).drop_last() =~= ids_dv.take(i as int));
                    assert(out.deep_view() =~= records_for(self.entries@, ids_dv.take(i + 1)));
                }
            }
            i += 1;
        }
        proof {
            assert(ids_dv.take(i as int) =~= ids_dv);
            if self.wf() {
                if ids_dv == self.page_ids(query@, n_items, page) {
                    assert(out.deep_view() == records_for(self.entries@, self.page_ids(query@, n_items, page)));
                } else {
                    assert(out.deep_view() =~= Seq::<NixPackageView>::empty());
                }
            }
        }
        out
    }
}

} // verus!

verus! {

/// How pages 1 through `m` look stitched together: each page is the window
/// of at most `k + 1` ranked results at its offset, with its lookahead row
/// (when one is there) cut.
pub open spec fn pages_concat(full: Seq<Seq<char>>, k: int, m: int) -> Seq<Seq<char>>
    decreases m,
{
    if m <= 0 {
        Seq::empty()
    } else {
        pages_concat(full, k, m - 1) + trimmed(window(full, (m - 1) * k, k + 1), k)
    }
}

/// While every page still carries a lookahead row, the stitched pages are an
/// exact prefix of the ranking: no result is lost, none repeats, and the
/// order is the ranking's own.
pub proof fn lemma_pages_concat_prefix(full: Seq<Seq<char>>, k: int, m: int)
    requires
        k >= 1,
        m >= 0,
        full.len() >= m * k + 1,
    ensures
        pages_concat(full, k, m) == full.take(m * k),
    decreases m,
{
    if m <= 0 {
        assert(m == 0);
        assert(m * k == 0) by (nonlinear_arith)
            requires m == 0;
        assert(pages_concat(full, k, m) =~= full.take(m * k));
    } else {
        assert((m - 1) * k == m * k - k) by (nonlinear_arith);
        assert(full.len() >= (m - 1) * k + 1);
        lemma_pages_concat_prefix(full, k, m - 1);
        let off = (m - 1) * k;
        let page_w = window(full, off, k + 1);
        assert(full.len() >= off + (k + 1));
        assert(page_w == full.skip(off).take(k + 1));
        assert(page_w.len() == k + 1);
        assert(trimmed(page_w, k) =~= full.subrange(off, m * k)) by {
            assert forall|j: int| 0 <= j < k implies page_w.drop_last()[j] == full[off + j] by {
                assert(page_w[j] == full.skip(off)[j]);
            }
        }
        assert(pages_concat(full, k, m) =~= full.take(off) + full.subrange(off, m * k));
        assert(full.take(off) + full.subrange(off, m * k) =~= full.take(m * k));
    }
}

/// When the ranking runs out on page `m`, that final page has no lookahead
/// row and keeps every entry, so the stitched pages are the whole ranking.
pub proof fn lemma_pages_concat_whole(full: Seq<Seq<char>>, k: int, m: int)
    requires
        k >= 1,
        m >= 1,
        (m - 1) * k < full.len(),
        full.len() <= m * k,
    ensures
        pages_concat(full, k, m) == full,
{
    assert((m - 1) * k == m * k - k) by (nonlinear_arith);
    lemma_pages_concat_prefix(full, k, m - 1);
    let off = (m - 1) * k;
    let page_w = window(full, off, k + 1);
    assert(full.len() < off + (k + 1));
    assert(page_w == full.skip(off));
    assert(page_w.len() == full.len() - off);
    assert(trimmed(page_w, k) == page_w);
    assert(pages_concat(full, k, m) =~= full.take(off) + full.skip(off));
    assert(full.take(off) + full.skip(off) =~= full);
}

impl OptionsSearcher {
    /// Law (consistency): after `update_entries` stored `entries`, every
    /// record any search returns is one of the records of `entries` — the
    /// index never surfaces anything the map was not last supplied with.
    pub proof fn lemma_search_serves_supplied(
        self,
        entries: Seq<(String, NaiveNixosOption)>,
        q: Seq<char>,
        n_items: u8,
        page: u8,
        rv: Seq<NaiveNixosOptionView>,
    )
        requires
            self.entries@ == entries,
            self.search_post(q, n_items, page, rv),
        ensures
            from_entries(entries, rv),
    {
    }

    /// Law (pagination correctness, full pages): with `k` results per page,
    /// the pages `1..=m` — each with its lookahead row cut — laid end to end
    /// are exactly the first `m*k` ranked results, which is also what one
    /// request for `m*k` items yields once its own lookahead row is cut;
    /// here the ranking holds at least `m*k + 1` results, so every page in
    /// the run still signals a next page.
    pub proof fn lemma_pagination_correct(self, q: Seq<char>, k: u8, m: u8)
        requires
            1 <= k,
            1 <= m,
            (k as int) * (m as int) <= 255,
            self.ranked(q).len() >= (m as int) * (k as int) + 1,
        ensures
            pages_concat(self.ranked(q), k as int, m as int) == self.ranked(q).take(
                (m as int) * (k as int),
            ),
            forall|p: int|
                1 <= p <= m ==> #[trigger] self.page_ids(q, k, p as u8) == self.ranked(q).skip(
                    (p - 1) * (k as int),
                ).take(k as int + 1),
            trimmed(
                self.page_ids(q, ((k as int) * (m as int)) as u8, 1),
                (k as int) * (m as int),
            ) == self.ranked(q).take((m as int) * (k as int)),
    {
        let full = self.ranked(q);
        lemma_pages_concat_prefix(full, k as int, m as int);
        assert forall|p: int|
            1 <= p <= m implies #[trigger] self.page_ids(q, k, p as u8) == full.skip(
            (p - 1) * (k as int),
        ).take(k as int + 1) by {
            assert(page_offset(k, p as u8) == (p - 1) * (k as int));
            assert(p * (k as int) <= (m as int) * (k as int)) by (nonlinear_arith)
                requires 0 <= p <= m as int && 0 <= k as int;
            assert((p - 1) * (k as int) + (k as int + 1) == p * (k as int) + 1)
                by (nonlinear_arith);
        }
        let n = ((k as int) * (m as int)) as u8;
        assert(0int * (n as int) == 0) by (nonlinear_arith);
        assert(page_offset(n, 1) == 0);
        let big = self.page_ids(q, n, 1);
        assert(big == full.skip(0).take(n as int + 1));
        assert(full.skip(0) =~= full);
        assert(big.len() == n as int + 1);
        assert(trimmed(big, n as int) =~= full.take(m as int * k as int)) by {
            assert forall|j: int| 0 <= j < n as int implies big.drop_last()[j] == full[j] by {
                assert(big[j] == full.skip(0)[j]);
            }
        }
    }

    /// Law (pagination correctness, final page): when the ranking runs out
    /// on page `m` — the page whose result no longer signals a next one —
    /// the stitched pages are the whole ranking, and so is one request for
    /// `m*k` items: nothing is lost and nothing repeats.
    pub proof fn lemma_pagination_exhausts(self, q: Seq<char>, k: u8, m: u8)
        requires
            1 <= k,
            1 <= m,
            (k as int) * (m as int) <= 255,
            ((m as int) - 1) * (k as int) < self.ranked(q).len(),
            self.ranked(q).len() <= (m as int) * (k as int),
        ensures
            pages_concat(self.ranked(q), k as int, m as int) == self.ranked(q),
            trimmed(
                self.page_ids(q, ((k as int) * (m as int)) as u8, 1),
                (k as int) * (m as int),
            ) == self.ranked(q),
    {
        let full = self.ranked(q);
        lemma_pages_concat_whole(full, k as int, m as int);
        let n = ((k as int) * (m as int)) as u8;
        assert(0int * (n as int) == 0) by (nonlinear_arith);
        assert(page_offset(n, 1) == 0);
        let big = self.page_ids(q, n, 1);
        assert(big == full.skip(0));
        assert(full.skip(0) =~= full);
        assert(trimmed(big, n as int) == big);
    }
}

impl PackagesSearcher {
    /// Law (consistency): after `update_entries` stored `entries`, every
    /// record any search returns is one of the records of `entries` — the
    /// index never surfaces anything the map was not last supplied with.
    pub proof fn lemma_search_serves_supplied(
        self,
        entries: Seq<(String, NixPackage)>,
        q: Seq<char>,
        n_items: u8,
        page: u8,
        rv: Seq<NixPackageView>,
    )
        requires
            self.entries@ == entries,
            self.search_post(q, n_items, page, rv),
        ensures
            from_entries(entries, rv),
    {
    }

    /// Law (pagination correctness, full pages): as for the options side.
    pub proof fn lemma_pagination_correct(self, q: Seq<char>, k: u8, m: u8)
        requires
            1 <= k,
            1 <= m,
            (k as int) * (m as int) <= 255,
            self.ranked(q).len() >= (m as int) * (k as int) + 1,
        ensures
            pages_concat(self.ranked(q), k as int, m as int) == self.ranked(q).take(
                (m as int) * (k as int),
            ),
            forall|p: int|
                1 <= p <= m ==> #[trigger] self.page_ids(q, k, p as u8) == self.ranked(q).skip(
                    (p - 1) * (k as int),
                ).take(k as int + 1),
            trimmed(
                self.page_ids(q, ((k as int) * (m as int)) as u8, 1),
                (k as int) * (m as int),
            ) == self.ranked(q).take((m as int) * (k as int)),
    {
        let full = self.ranked(q);
        lemma_pages_concat_prefix(full, k as int, m as int);
        assert forall|p: int|
            1 <= p <= m implies #[trigger] self.page_ids(q, k, p as u8) == full.skip(
            (p - 1) * (k as int),
        ).take(k as int + 1) by {
            assert(page_offset(k, p as u8) == (p - 1) * (k as int));
            assert(p * (k as int) <= (m as int) * (k as int)) by (nonlinear_arith)
                requires 0 <= p <= m as int && 0 <= k as int;
            assert((p - 1) * (k as int) + (k as int + 1) == p * (k as int) + 1)
                by (nonlinear_arith);
        }
        let n = ((k as int) * (m as int)) as u8;
        assert(0int * (n as int) == 0) by (nonlinear_arith);
        assert(page_offset(n, 1) == 0);
        let big = self.page_ids(q, n, 1);
        assert(big == full.skip(0).take(n as int + 1));
        assert(full.skip(0) =~= full);
        assert(big.len() == n as int + 1);
        assert(trimmed(big, n as int) =~= full.take(m as int * k as int)) by {
            assert forall|j: int| 0 <= j < n as int implies big.drop_last()[j] == full[j] by {
                assert(big[j] == full.skip(0)[j]);
            }
        }
    }

    /// Law (pagination correctness, final page): as for the options side.
    pub proof fn lemma_pagination_exhausts(self, q: Seq<char>, k: u8, m: u8)
        requires
            1 <= k,
            1 <= m,
            (k as int) * (m as int) <= 255,
            ((m as int) - 1) * (k as int) < self.ranked(q).len(),
            self.ranked(q).len() <= (m as int) * (k as int),
        ensures
            pages_concat(self.ranked(q), k as int, m as int) == self.ranked(q),
            trimmed(
                self.page_ids(q, ((k as int) * (m as int)) as u8, 1),
                (k as int) * (m as int),
            ) == self.ranked(q),
    {
        let full = self.ranked(q);
        lemma_pages_concat_whole(full, k as int, m as int);
        let n = ((k as int) * (m as int)) as u8;
        assert(0int * (n as int) == 0) by (nonlinear_arith);
        assert(page_offset(n, 1) == 0);
        let big = self.page_ids(q, n, 1);
        assert(big == full.skip(0));
        assert(full.skip(0) =~= full);
        assert(trimmed(big, n as int) == big);
    }
}

} // verus!
