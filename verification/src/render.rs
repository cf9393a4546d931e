//! Turning raw option records into their searchable, pre-rendered form:
//! documentation text runs through a Markdown renderer, and declaration
//! paths that parse as web addresses become links.

use vstd::prelude::*;

use crate::nix::{Expression, ExpressionType, ExpressionView, NixosOption, NixosOptionView};
use crate::strutil::is_suffix;
use crate::{Html, NaiveNixosOption, NaiveNixosOptionView, NixHtml};

verus! {

use vstd::string::StrSliceExecFns;
use vstd::string::StringExecFns;

/// The HTML that the Markdown renderer produces for a text; a function of the
/// text alone.
pub uninterp spec fn markdown_html(s: Seq<char>) -> Seq<char>;

/// Relies on markdown::to_html: renders CommonMark text to HTML. The result
/// depends on the input text alone.
#[verifier::external_body]
pub fn render_markdown(s: &str) -> (r: String)
    ensures
        r@ == markdown_html(s@),
{
    markdown::to_html(s)
}

impl NixHtml for Expression {
    open spec fn html_spec(&self) -> Seq<char> {
        match self.option_type {
            ExpressionType::LiteralExpression => self.text@,
            ExpressionType::LiteralMd => markdown_html(self.text@),
        }
    }

    fn as_html(&self) -> (r: Html) {
        match self.option_type {
            ExpressionType::LiteralExpression => Html(self.text.clone()),
            ExpressionType::LiteralMd => Html(render_markdown(self.text.as_str())),
        }
    }
}

impl NixHtml for String {
    open spec fn html_spec(&self) -> Seq<char> {
        markdown_html(self@)
    }

    fn as_html(&self) -> (r: Html) {
        Html(render_markdown(self.as_str()))
    }
}

/// What parsing a string as a web address yields: its rendered form and its
/// path component.
pub struct UrlParts {
    pub rendered: String,
    pub path: String,
}

/// The outcome of parsing a string as an absolute web address: `None` when it
/// does not parse, otherwise its rendered form and path; a function of the
/// string alone.
pub uninterp spec fn url_parts(s: Seq<char>) -> Option<(Seq<char>, Seq<char>)>;

/// Relies on url::Url::parse, Url::as_str and Url::path: parses an absolute
/// address and reads it back with its path. The outcome depends on the input
/// string alone.
#[verifier::external_body]
pub fn parse_url(s: &str) -> (r: Option<UrlParts>)
    ensures
        match r {
            Some(p) => url_parts(s@) == Some((p.rendered@, p.path@)),
            None => url_parts(s@) is None,
        },
{
    match url::Url::parse(s) {
        Ok(u) => {
            let rendered = String::from(u.as_str());
            let path = String::from(u.path());
            Some(UrlParts { rendered, path })
        },
        Err(_) => None,
    }
}

/// The outcome of resolving `seg` against the address `base` parses to:
/// `None` when `base` does not parse or the resolution fails; a function of
/// the two strings alone.
pub uninterp spec fn url_join(base: Seq<char>, seg: Seq<char>) -> Option<Seq<char>>;

/// Relies on url::Url::parse and Url::join: resolves a relative segment
/// against an absolute address. The outcome depends on the two strings alone.
#[verifier::external_body]
pub fn join_url(base: &str, seg: &str) -> (r: Option<String>)
    ensures
        match r {
            Some(u) => url_join(base@, seg@) == Some(u@),
            None => url_join(base@, seg@) is None,
        },
{
    match url::Url::parse(base) {
        Ok(u) => match u.join(seg) {
            Ok(j) => Some(String::from(j.as_str())),
            Err(_) => None,
        },
        Err(_) => None,
    }
}

/// The fragment a declaration path renders to: a link when it parses as a web
/// address (completed with `default.nix` when its path does not already name
/// a nix file), italic text otherwise.
pub open spec fn declaration_html(d: Seq<char>) -> Seq<char> {
    match url_parts(d) {
        Some((rendered, path)) => {
            if is_suffix(".nix"@, path) {
                processed_decl_html(rendered)
            } else {
                match url_join(d, "default.nix"@) {
                    Some(joined) => processed_decl_html(joined),
                    None => naive_decl_html(d),
                }
            }
        },
        None => naive_decl_html(d),
    }
}

pub open spec fn processed_decl_html(url: Seq<char>) -> Seq<char> {
    "<a class=\"text-blue-900 hover:underline\" href=\""@ + url + "\">"@ + url + "</a>"@
}

pub open spec fn naive_decl_html(d: Seq<char>) -> Seq<char> {
    "<i>"@ + d + "</i>"@
}

/// Renders one declaration path, as `declaration_html` says.
pub fn render_declaration(d: &String) -> (r: Html)
    ensures
        r@ == declaration_html(d@),
{
    match parse_url(d.as_str()) {
        Some(parts) => {
            if ends_with_nix(&parts.path) {
                crate::Declaration::Processed(parts.rendered).as_html()
            } else {
                match join_url(d.as_str(), "default.nix") {
                    Some(joined) => crate::Declaration::Processed(joined).as_html(),
                    None => crate::Declaration::Naive(d.clone()).as_html(),
                }
            }
        },
        None => crate::Declaration::Naive(d.clone()).as_html(),
    }
}

fn ends_with_nix(path: &String) -> (r: bool)
    ensures
        r == is_suffix(".nix"@, path@),
{
    crate::strutil::ends_with_str(path.as_str(), ".nix")
}

/// The searchable form of one raw option record.
pub open spec fn naive_of(name: Seq<char>, v: NixosOptionView) -> NaiveNixosOptionView {
    NaiveNixosOptionView {
        name: name,
        declarations: v.declarations.map_values(|d: Seq<char>| declaration_html(d)),
        description: match v.description {
            Some(s) => markdown_html(s),
            None => Seq::empty(),
        },
        default: match v.default {
            Some(e) => expression_html(e),
            None => Seq::empty(),
        },
        example: match v.example {
            Some(e) => expression_html(e),
            None => Seq::empty(),
        },
        option_type: v.option_type,
        read_only: v.read_only,
    }
}

pub open spec fn expression_html(e: ExpressionView) -> Seq<char> {
    match e.option_type {
        ExpressionType::LiteralExpression => e.text,
        ExpressionType::LiteralMd => markdown_html(e.text),
    }
}

/// Renders every raw option into its searchable form, keyed as before.
pub fn option_to_naive(options: &Vec<(String, NixosOption)>) -> (r: Vec<
    (String, NaiveNixosOption),
>)
    ensures
        r@.len() == options@.len(),
        forall|i: int| 0 <= i < r@.len() ==> (#[trigger] r@[i]).0 == options@[i].0,
        forall|i: int|
            0 <= i < r@.len() ==> (#[trigger] r@[i]).1@ == naive_of(options@[i].0@, options@[i].1@),
{
    let mut out: Vec<(String, NaiveNixosOption)> = Vec::new();
    let mut i: usize = 0;
    while i < options.len()
        invariant
            0 <= i <= options@.len(),
            out@.len() == i as int,
            forall|k: int| 0 <= k < i ==> (#[trigger] out@[k]).0 == options@[k].0,
            forall|k: int|
                0 <= k < i ==> (#[trigger] out@[k]).1@ == naive_of(options@[k].0@, options@[k].1@),
        decreases options@.len() - i,
    {
        let name = options[i].0.clone();
        let option = &options[i].1;
        let mut declarations: Vec<Html> = Vec::new();
        let mut j: usize = 0;
        while j < option.declarations.len()
            invariant
                0 <= j <= option.declarations@.len(),
                declarations@.len() == j as int,
                forall|k: int|
                    0 <= k < j ==> #[trigger] declarations.deep_view()[k] == declaration_html(
                        option.declarations.deep_view()[k],
                    ),
            decreases option.declarations@.len() - j,
        {
            let piece = render_declaration(&option.declarations[j]);
            let ghost pv = piece@;
            let ghost dpre = declarations.deep_view();
            declarations.push(piece);
            proof {
                assert(declarations.deep_view()[j as int] == pv);
                assert forall|k: int| 0 <= k < j implies #[trigger] declarations.deep_view()[k]
                    == declaration_html(option.declarations.deep_view()[k]) by {
                    assert(declarations.deep_view()[k] == declarations@[k].deep_view());
                    assert(declarations.deep_view()[k] == dpre[k]);
                    assert(dpre[k] == declaration_html(option.declarations.deep_view()[k]));
                }
            }
            j += 1;
        }
        let description = match &option.description {
            Some(s) => s.as_html(),
            None => Html(String::new()),
        };
        let default = match &option.default {
            Some(e) => e.as_html(),
            None => Html(String::new()),
        };
        let example = match &option.example {
            Some(e) => e.as_html(),
            None => Html(String::new()),
        };
        let record = NaiveNixosOption {
            name: options[i].0.clone(),
            declarations,
            description,
            default,
            example,
            option_type: option.option_type.clone(),
            read_only: option.read_only,
        };
        proof {
            assert(record@.declarations =~= options@[i as int].1@.declarations.map_values(
                |d: Seq<char>| declaration_html(d),
            ));
            assert(record@ =~~= naive_of(options@[i as int].0@, options@[i as int].1@));
        }
        let ghost opre = out@;
        let ghost rv = record@;
        out.push((name, record));
        proof {
            assert(out@[i as int].1@ == rv);
            assert forall|k: int|
                0 <= k < i + 1 implies (#[trigger] out@[k]).0 == options@[k].0 && out@[k].1@
                    == naive_of(options@[k].0@, options@[k].1@) by {
                if k < i {
                    assert(out@[k] == opre[k]);
                    assert(opre[k].0 == options@[k].0);
                    assert(opre[k].1@ == naive_of(options@[k].0@, options@[k].1@));
                } else {
                    assert(out@[k].1@ == rv);
                }
            }
        }
        i += 1;
    }
    out
}

} // verus!
