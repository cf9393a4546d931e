//! The pure pieces: string helpers, rendering, score factors, upstream
//! discovery and the flake address formatting, each against exact expected
//! values.

use fc_search::hydra::{
    least_containing, pick_latest_eval, select_jobsets, ChannelEval, ChannelEvalOverview,
    EvalPickError, JobsetInput,
};
use fc_search::nix::{
    rewrite_declarations, Expression, ExpressionType, License, NixosOption, Plurality, WebUrl,
};
use fc_search::query::option_score_permille;
use fc_search::render::{option_to_naive, render_declaration, render_markdown};
use fc_search::strutil::{
    contains_str, ends_with_str, replace_all_str, replace_char, split_str, starts_with_str,
    str_lt,
};
use fc_search::{default_n_items, default_page, Flake, FlakeRev, LogError, NixHtml};

#[test]
fn split_keeps_empty_segments() {
    let parts = split_str("a..b", '.');
    assert_eq!(parts, vec!["a".to_string(), "".to_string(), "b".to_string()]);
    assert_eq!(split_str("", ' '), vec!["".to_string()]);
    assert_eq!(split_str("one two", ' '), vec!["one".to_string(), "two".to_string()]);
}

#[test]
fn replace_char_swaps_every_dot() {
    assert_eq!(replace_char("a.b.c", '.', ' '), "a b c");
    assert_eq!(replace_char("abc", '.', ' '), "abc");
}

#[test]
fn replace_all_rewrites_every_occurrence() {
    assert_eq!(replace_all_str("/nix/store/x/a.nix", "/nix/store/x", "https://host"), "https://host/a.nix");
    assert_eq!(replace_all_str("ababa", "aba", "x"), "xba");
    assert_eq!(replace_all_str("abc", "zz", "x"), "abc");
    assert_eq!(replace_all_str("abc", "", "x"), "abc");
}

#[test]
fn substring_predicates() {
    assert!(starts_with_str("flyingcircus.roles.web", "flyingcircus"));
    assert!(!starts_with_str("fly", "flyingcircus"));
    assert!(ends_with_str("services.nginx.enable", "enable"));
    assert!(contains_str("flyingcircus.roles.web", "roles"));
    assert!(!contains_str("services.nginx", "roles"));
    assert!(str_lt("fc-23.11-dev", "fc-24.05-dev"));
    assert!(!str_lt("fc-24.05-dev", "fc-24.05-dev"));
}

#[test]
fn option_score_factor_exact_values() {
    assert_eq!(option_score_permille("services.nginx.workers"), 1000);
    assert_eq!(option_score_permille("flyingcircus.static.id"), 1300);
    assert_eq!(option_score_permille("services.nginx.enable"), 1050);
    assert_eq!(option_score_permille("services.roles.extra"), 800);
    assert_eq!(option_score_permille("flyingcircus.webgateway.enable"), 1365);
    assert_eq!(option_score_permille("flyingcircus.roles.web.enable"), 1092);
}

#[test]
fn markdown_renders_paragraphs() {
    assert_eq!(render_markdown("hello"), "<p>hello</p>");
    let strong = render_markdown("**b**");
    assert!(strong.contains("<strong>b</strong>"));
}

#[test]
fn declarations_become_links() {
    let nix_file = render_declaration(&"https://example.com/tree/a/b.nix".to_string());
    assert_eq!(
        nix_file.0,
        "<a class=\"text-blue-900 hover:underline\" href=\"https://example.com/tree/a/b.nix\">https://example.com/tree/a/b.nix</a>"
    );
    let directory = render_declaration(&"https://example.com/tree/a/b".to_string());
    assert_eq!(
        directory.0,
        "<a class=\"text-blue-900 hover:underline\" href=\"https://example.com/tree/a/default.nix\">https://example.com/tree/a/default.nix</a>"
    );
    let plain = render_declaration(&"nixos/modules/a/b.nix".to_string());
    assert_eq!(plain.0, "<i>nixos/modules/a/b.nix</i>");
}

#[test]
fn raw_options_render_to_naive_records() {
    let raw = NixosOption {
        declarations: vec!["https://example.com/mod/a.nix".to_string()],
        default: Some(Expression {
            option_type: ExpressionType::LiteralExpression,
            text: "true".to_string(),
        }),
        description: Some("switch".to_string()),
        example: None,
        read_only: false,
        option_type: "boolean".to_string(),
    };
    let rendered = option_to_naive(&vec![("foo.enable".to_string(), raw)]);
    assert_eq!(rendered.len(), 1);
    let (name, record) = &rendered[0];
    assert_eq!(name, "foo.enable");
    assert_eq!(record.name, "foo.enable");
    assert_eq!(record.default.0, "true");
    assert_eq!(record.description.0, "<p>switch</p>");
    assert_eq!(record.example.0, "");
    assert_eq!(
        record.declarations[0].0,
        "<a class=\"text-blue-900 hover:underline\" href=\"https://example.com/mod/a.nix\">https://example.com/mod/a.nix</a>"
    );
}

#[test]
fn declarations_are_rewritten_per_source_tree() {
    let raw = NixosOption {
        declarations: vec![
            "/nix/store/aaa-nixpkgs/modules/web.nix".to_string(),
            "/nix/store/bbb-fc/roles/web.nix".to_string(),
        ],
        default: None,
        description: None,
        example: None,
        read_only: false,
        option_type: String::new(),
    };
    let rewritten = rewrite_declarations(
        vec![("foo".to_string(), raw)],
        "/nix/store/aaa-nixpkgs",
        "https://github.com/nixos/nixpkgs/blob/master",
        "/nix/store/bbb-fc",
        "https://github.com/flyingcircusio/fc-nixos/blob/fc-24.05-dev",
    );
    assert_eq!(
        rewritten[0].1.declarations,
        vec![
            "https://github.com/nixos/nixpkgs/blob/master/modules/web.nix".to_string(),
            "https://github.com/flyingcircusio/fc-nixos/blob/fc-24.05-dev/roles/web.nix"
                .to_string(),
        ]
    );
}

#[test]
fn license_rendering_prefers_full_names_and_links() {
    let verbatim = License::Verbatim("MIT".to_string());
    assert_eq!(verbatim.as_html().0, "<p>MIT</p>");

    let informative = License::Informative {
        free: Some(true),
        full_name: Some("MIT License".to_string()),
        redistributable: Some(true),
        short_name: Some("mit".to_string()),
        spdx_id: Some("MIT".to_string()),
        url: Some("https://spdx.org/licenses/MIT.html".to_string()),
    };
    assert_eq!(
        informative.as_html().0,
        "<p><a class=\"text-blue-900 hover:underline\" href=https://spdx.org/licenses/MIT.html>MIT License</a></p>"
    );
}

#[test]
fn plural_values_render_distinct_items_once() {
    let a = License::Verbatim("MIT".to_string());
    let b = License::Verbatim("BSD".to_string());
    let both = Plurality::Multiple(vec![a.clone(), b, a]);
    assert_eq!(both.as_html().0, "<p>MIT</p><p>BSD</p>");
    let none: Plurality<WebUrl> = Plurality::Absent;
    assert_eq!(none.as_html().0, "<p></p>");
    let fallback: Plurality<WebUrl> = Plurality::Fallback("somewhere".to_string());
    assert_eq!(fallback.as_html().0, "<code>somewhere</code>");
}

#[test]
fn flake_addresses_format_exactly() {
    let pinned = Flake::new("flyingcircusio", "fc-nixos", "fc-24.05-production", FlakeRev::Specific("abc".to_string()));
    assert_eq!(pinned.flake_uri(), "github:flyingcircusio/fc-nixos?rev=abc");
    assert_eq!(
        pinned.github_base_url(),
        "https://github.com/flyingcircusio/fc-nixos/blob/fc-24.05-production"
    );
    let floating = Flake::new("flyingcircusio", "fc-nixos", "fc-24.05-dev", FlakeRev::Latest);
    assert_eq!(floating.flake_uri(), "github:flyingcircusio/fc-nixos/fc-24.05-dev");
}

fn eval(id: i64, rev: Option<&str>) -> ChannelEval {
    ChannelEval {
        id,
        inputs: vec![(
            "fc".to_string(),
            JobsetInput {
                input_type: "git".to_string(),
                uri: None,
                revision: rev.map(|r| r.to_string()),
            },
        )],
    }
}

#[test]
fn newest_evaluation_wins() {
    let overview = ChannelEvalOverview {
        evals: vec![eval(3, Some("old")), eval(9, Some("newest")), eval(7, Some("mid"))],
    };
    match pick_latest_eval(&overview) {
        Ok(FlakeRev::Specific(r)) => assert_eq!(r, "newest"),
        other => panic!("unexpected pick: {other:?}"),
    }

    let empty = ChannelEvalOverview { evals: vec![] };
    assert_eq!(pick_latest_eval(&empty), Err(EvalPickError::NoEvaluations));

    let no_rev = ChannelEvalOverview { evals: vec![eval(1, None)] };
    assert_eq!(pick_latest_eval(&no_rev), Err(EvalPickError::NoRevision));

    let no_fc = ChannelEvalOverview {
        evals: vec![ChannelEval { id: 1, inputs: vec![] }],
    };
    assert_eq!(pick_latest_eval(&no_fc), Err(EvalPickError::NoFcInput));
}

#[test]
fn jobset_selection_filters_and_sorts() {
    let names = vec![
        "fc-24.05-production".to_string(),
        "tests".to_string(),
        "fc-23.11-dev".to_string(),
        "fc-24.05-staging".to_string(),
        "other-production".to_string(),
    ];
    let picked = select_jobsets(&names);
    assert_eq!(
        picked,
        vec![
            "fc-23.11-dev".to_string(),
            "fc-24.05-production".to_string(),
            "fc-24.05-staging".to_string(),
        ]
    );
}

#[test]
fn default_channel_is_least_production_name() {
    let names = vec![
        "fc-24.05-staging".to_string(),
        "fc-24.05-production".to_string(),
        "fc-23.11-production".to_string(),
    ];
    assert_eq!(
        least_containing(&names, "prod"),
        Some("fc-23.11-production".to_string())
    );
    assert_eq!(least_containing(&names, "nightly"), None);
}

#[test]
fn paging_defaults() {
    assert_eq!(default_n_items(), 15);
    assert_eq!(default_page(), 1);
    let ok: Result<u8, ()> = Ok(4);
    assert_eq!(ok.log_to_option("context"), Some(4));
    let err: Result<u8, ()> = Err(());
    assert_eq!(err.log_to_option("context"), None);
}
