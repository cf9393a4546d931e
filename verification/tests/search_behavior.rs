//! End-to-end behaviour of the searchers against the real indexing engine:
//! the original test set, plus the ranking, fuzziness, schema-recovery and
//! lifecycle scenarios the design promises.

use fc_search::channel::{BuildError, ChannelSearcher, TickAction};
use fc_search::nix::{NixPackage, Plurality};
use fc_search::search::{trim_page, OptionsSearcher, PackagesSearcher};
use fc_search::{Flake, FlakeRev, Html, NaiveNixosOption};

fn opt(name: &str, description: &str) -> NaiveNixosOption {
    NaiveNixosOption {
        name: name.to_string(),
        declarations: Vec::new(),
        description: Html(description.to_string()),
        default: Html(String::new()),
        example: Html(String::new()),
        option_type: String::new(),
        read_only: false,
    }
}

fn pkg(attribute_name: &str) -> NixPackage {
    NixPackage {
        attribute_name: attribute_name.to_string(),
        default_output: String::new(),
        description: None,
        long_description: None,
        license: Plurality::Absent,
        name: attribute_name.to_string(),
        outputs: vec![],
        version: None,
        homepage: Plurality::Absent,
    }
}

/// A branch directory with the two index subdirectories the channel uses.
fn branch_dir() -> tempfile::TempDir {
    let tmp = tempfile::tempdir().unwrap();
    tempfile::Builder::new()
        .prefix("tantivy")
        .rand_bytes(0)
        .tempdir_in(tmp.path())
        .unwrap()
        .keep();
    tempfile::Builder::new()
        .prefix("tantivy_packages")
        .rand_bytes(0)
        .tempdir_in(tmp.path())
        .unwrap()
        .keep();
    tmp
}

fn prep_searcher() -> (tempfile::TempDir, PackagesSearcher) {
    let tmp = tempfile::tempdir().unwrap();
    let path = tmp.path().to_str().unwrap().to_string();
    let mut searcher = PackagesSearcher::new(&path).unwrap();
    let entry = pkg("gitlab-workhorse");
    searcher
        .update_entries(vec![("gitlab-workhorse".to_string(), entry)])
        .unwrap();
    (tmp, searcher)
}

#[test]
fn test_search() {
    let tmp = tempfile::tempdir().unwrap();
    let path = tmp.path().to_str().unwrap().to_string();
    let mut searcher = OptionsSearcher::new(&path).unwrap();

    let entry = NaiveNixosOption {
        name: "foo".to_string(),
        declarations: Vec::new(),
        description: Html("foo".to_string()),
        default: Html("foo".to_string()),
        example: Html(String::new()),
        option_type: String::new(),
        read_only: false,
    };
    searcher
        .update_entries(vec![("foo".to_string(), entry.clone())])
        .unwrap();

    let results = searcher.search_entries("foo", 10, 1);
    assert_eq!(results, vec![entry]);
}

#[test]
fn test_exact_search() {
    let (_tmp, searcher) = prep_searcher();
    let results = searcher.search_entries("gitlab-workhorse", 10, 1);
    assert_eq!(results, vec![pkg("gitlab-workhorse")]);
}

#[test]
fn test_prefix_search() {
    let (_tmp, searcher) = prep_searcher();
    let results = searcher.search_entries("gitlab-", 10, 1);
    assert_eq!(results, vec![pkg("gitlab-workhorse")]);
}

#[test]
fn test_infix_search() {
    let (_tmp, searcher) = prep_searcher();
    let results = searcher.search_entries("lab-work", 10, 1);
    assert_eq!(results, vec![pkg("gitlab-workhorse")]);
}

#[test]
fn test_suffix_search() {
    let (_tmp, searcher) = prep_searcher();
    let results = searcher.search_entries("workhorse", 10, 1);
    assert_eq!(results, vec![pkg("gitlab-workhorse")]);
}

/// One dropped letter must still find the record: edit distance one is
/// tolerated for terms longer than two bytes.
#[test]
fn fuzzy_tolerates_one_dropped_letter() {
    let (_tmp, searcher) = prep_searcher();
    let results = searcher.search_entries("gitlab-wrkhorse", 10, 1);
    assert_eq!(results, vec![pkg("gitlab-workhorse")]);
}

/// A record holding both query terms in its identifier outranks records
/// that match only in their descriptions.
#[test]
fn identifier_match_outranks_description_match() {
    let tmp = tempfile::tempdir().unwrap();
    let path = tmp.path().to_str().unwrap().to_string();
    let mut searcher = OptionsSearcher::new(&path).unwrap();

    let by_name = opt("flyingcircus.roles.webserver.enable", "");
    let by_desc = opt(
        "services.nginx.workers",
        "how many webserver workers to enable for the proxy",
    );
    let by_desc2 = opt(
        "services.httpd.workers",
        "enable more webserver workers here",
    );
    searcher
        .update_entries(vec![
            ("services.nginx.workers".to_string(), by_desc),
            ("flyingcircus.roles.webserver.enable".to_string(), by_name.clone()),
            ("services.httpd.workers".to_string(), by_desc2),
        ])
        .unwrap();

    let results = searcher.search_entries("webserver enable", 10, 1);
    assert!(!results.is_empty());
    assert_eq!(results[0], by_name);
}

/// Every identifier a search returns was supplied by the last update, and
/// the record comes back with exactly the supplied fields.
#[test]
fn search_serves_only_supplied_records() {
    let tmp = tempfile::tempdir().unwrap();
    let path = tmp.path().to_str().unwrap().to_string();
    let mut searcher = OptionsSearcher::new(&path).unwrap();

    let supplied = vec![
        ("alpha.enable".to_string(), opt("alpha.enable", "first toggle")),
        ("beta.enable".to_string(), opt("beta.enable", "second toggle")),
        ("gamma.port".to_string(), opt("gamma.port", "a number")),
    ];
    searcher.update_entries(supplied.clone()).unwrap();

    let results = searcher.search_entries("enable toggle port", 10, 1);
    assert!(!results.is_empty());
    for record in &results {
        assert!(supplied.iter().any(|(k, v)| k == &record.name && v == record));
    }
}

/// Stitching pages together while a next page exists gives the same ordered
/// list as one big request, with nothing lost and nothing repeated.
#[test]
fn pagination_stitches_to_one_big_page() {
    let tmp = tempfile::tempdir().unwrap();
    let path = tmp.path().to_str().unwrap().to_string();
    let mut searcher = OptionsSearcher::new(&path).unwrap();

    let mut entries = Vec::new();
    for i in 0..7 {
        let name = format!("service{i}.enable");
        entries.push((name.clone(), opt(&name, "toggle")));
    }
    searcher.update_entries(entries).unwrap();

    let k: u8 = 2;
    let mut stitched: Vec<NaiveNixosOption> = Vec::new();
    let mut page: u8 = 1;
    loop {
        let raw = searcher.search_entries("enable", k, page);
        let (mut items, has_next) = trim_page(raw, k);
        stitched.append(&mut items);
        if !has_next {
            break;
        }
        page += 1;
    }

    let big_raw = searcher.search_entries("enable", 20, 1);
    let (big, _) = trim_page(big_raw, 20);
    assert_eq!(stitched.len(), 7);
    assert_eq!(stitched, big);
}

/// An on-disk index written under another schema is discarded and rebuilt;
/// opening never fails on the mismatch, and a refill makes it serve.
#[test]
fn schema_mismatch_recovers_by_rebuilding() {
    let tmp = tempfile::tempdir().unwrap();
    let path = tmp.path().to_str().unwrap().to_string();
    {
        let mut old = OptionsSearcher::new(&path).unwrap();
        old.update_entries(vec![("foo.bar".to_string(), opt("foo.bar", "old"))]).unwrap();
    }
    let mut fresh = PackagesSearcher::new(&path).expect("schema mismatch must not fail");
    fresh
        .update_entries(vec![("ripgrep".to_string(), pkg("ripgrep"))])
        .unwrap();
    let results = fresh.search_entries("ripgrep", 10, 1);
    assert_eq!(results, vec![pkg("ripgrep")]);
}

/// A tick whose upstream revision is unchanged asks for no work.
#[test]
fn unchanged_revision_ticks_to_nothing() {
    let tmp = branch_dir();
    let path = tmp.path().to_str().unwrap().to_string();
    let flake = Flake::new(
        "flyingcircusio",
        "fc-nixos",
        "fc-24.05-production",
        FlakeRev::Specific("abc123".to_string()),
    );
    let cached = Some((
        vec![("foo.enable".to_string(), opt("foo.enable", "toggle"))],
        vec![("ripgrep".to_string(), pkg("ripgrep"))],
    ));
    let channel = ChannelSearcher::new(&path, flake, cached);
    assert!(channel.active());

    let fetched = Ok(FlakeRev::Specific("abc123".to_string()));
    match channel.tick_decide(&fetched) {
        TickAction::UpToDate => {},
        other => panic!("expected an up-to-date tick, got {other:?}"),
    }

    let newer = Ok(FlakeRev::Specific("def456".to_string()));
    match channel.tick_decide(&newer) {
        TickAction::Refresh(FlakeRev::Specific(r)) => assert_eq!(r, "def456"),
        other => panic!("expected a refresh, got {other:?}"),
    }
}

/// When the build collaborator fails during a tick, later searches return
/// exactly what they returned before the tick.
#[test]
fn failed_build_keeps_serving_stale_results() {
    let tmp = branch_dir();
    let path = tmp.path().to_str().unwrap().to_string();
    let flake = Flake::new(
        "flyingcircusio",
        "fc-nixos",
        "fc-24.05-production",
        FlakeRev::Specific("abc123".to_string()),
    );
    let cached = Some((
        vec![("foo.enable".to_string(), opt("foo.enable", "toggle"))],
        vec![("ripgrep".to_string(), pkg("ripgrep"))],
    ));
    let mut channel = ChannelSearcher::new(&path, flake, cached);
    assert!(channel.active());

    let before_options = channel.search_options("enable", 10, 1);
    let before_packages = channel.search_packages("ripgrep", 10, 1);

    let outcome = channel.finish_tick(
        FlakeRev::Specific("def456".to_string()),
        Err(BuildError { message: "build host unavailable".to_string() }),
    );
    assert!(outcome.is_err());

    assert_eq!(channel.search_options("enable", 10, 1), before_options);
    assert_eq!(channel.search_packages("ripgrep", 10, 1), before_packages);
    match &channel.flake.rev {
        FlakeRev::Specific(r) => assert_eq!(r, "abc123"),
        other => panic!("revision tag changed: {other:?}"),
    }
}

/// A first activation whose store setup fails reports the store error and
/// leaves the channel exactly as it was: inactive, old revision tag.
#[test]
fn failed_first_activation_reports_the_store_error() {
    // No index subdirectories exist under this branch path, so the store
    // setup cannot succeed.
    let tmp = tempfile::tempdir().unwrap();
    let path = tmp.path().join("missing-branch").to_str().unwrap().to_string();
    let flake = Flake::new(
        "flyingcircusio",
        "fc-nixos",
        "fc-24.05-dev",
        FlakeRev::FallbackToCached,
    );
    let mut channel = ChannelSearcher::new(&path, flake, None);
    assert!(!channel.active());

    let built = Ok((
        vec![("bar.enable".to_string(), opt("bar.enable", "fresh toggle"))],
        vec![("fd".to_string(), pkg("fd"))],
    ));
    let outcome = channel.finish_tick(FlakeRev::Specific("def456".to_string()), built);
    assert!(outcome.is_err());
    assert!(!channel.active());
    assert!(matches!(channel.flake.rev, FlakeRev::FallbackToCached));
}

/// A successful tick replaces the served content and the revision tag.
#[test]
fn successful_build_replaces_content() {
    let tmp = branch_dir();
    let path = tmp.path().to_str().unwrap().to_string();
    let flake = Flake::new(
        "flyingcircusio",
        "fc-nixos",
        "fc-24.05-dev",
        FlakeRev::FallbackToCached,
    );
    let mut channel = ChannelSearcher::new(&path, flake, None);
    assert!(!channel.active());
    assert!(channel.search_options("enable", 10, 1).is_empty());

    let built = Ok((
        vec![("bar.enable".to_string(), opt("bar.enable", "fresh toggle"))],
        vec![("fd".to_string(), pkg("fd"))],
    ));
    channel.finish_tick(FlakeRev::Specific("def456".to_string()), built).unwrap();
    assert!(channel.active());
    let results = channel.search_options("enable", 10, 1);
    assert_eq!(results.len(), 1);
    assert_eq!(results[0].name, "bar.enable");
    match &channel.flake.rev {
        FlakeRev::Specific(r) => assert_eq!(r, "def456"),
        other => panic!("revision tag not recorded: {other:?}"),
    }
}

/// Page zero is normalized to page one, and a page far past the results is
/// empty rather than an underflow.
#[test]
fn page_zero_behaves_as_page_one() {
    let (_tmp, searcher) = prep_searcher();
    let first = searcher.search_entries("gitlab-workhorse", 10, 1);
    let zeroth = searcher.search_entries("gitlab-workhorse", 10, 0);
    assert_eq!(zeroth, first);
    let far = searcher.search_entries("gitlab-workhorse", 255, 255);
    assert!(far.is_empty());
}

/// A store that cannot be placed on disk reports its error instead of
/// panicking.
#[test]
fn unusable_index_path_reports_backend_error() {
    let result = OptionsSearcher::new("/this-path-does-not-exist/anywhere/at-all");
    assert!(result.is_err());
}

/// The lookahead row: a page of `n + 1` results signals a next page and is
/// cut down to `n`; a page of `n` results or fewer is complete and whole.
#[test]
fn trim_page_reads_the_lookahead_row() {
    let (with_next, has_next) = trim_page(vec![1, 2, 3], 2);
    assert!(has_next);
    assert_eq!(with_next, vec![1, 2]);

    let (short, has_more) = trim_page(vec![1, 2], 2);
    assert!(!has_more);
    assert_eq!(short, vec![1, 2]);

    let (empty, none_left) = trim_page(Vec::<u8>::new(), 2);
    assert!(!none_left);
    assert!(empty.is_empty());
}
