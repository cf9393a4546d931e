//! Search service core for NixOS options and packages, indexed per upstream
//! channel. The library owns the document stores, the query construction and
//! ranking rules, paginated retrieval, and the channel lifecycle state
//! machine; network fetches, the external build step and the HTTP layer stay
//! outside and hand the library plain values.

pub mod channel;
pub mod hydra;
pub mod nix;
pub mod query;
pub mod render;
pub mod search;
pub mod store;
pub mod strutil;

use vstd::prelude::*;

verus! {

use vstd::string::StringExecFns;

/// Pre-rendered rich text, carried as an HTML fragment.
#[derive(Debug)]
pub struct Html(pub String);

impl View for Html {
    type V = Seq<char>;

    open spec fn view(&self) -> Seq<char> {
        self.0@
    }
}

impl DeepView for Html {
    type V = Seq<char>;

    open spec fn deep_view(&self) -> Seq<char> {
        self.0@
    }
}

impl Clone for Html {
    fn clone(&self) -> (r: Self)
        ensures
            r == *self,
    {
        Html(self.0.clone())
    }
}

impl PartialEq for Html {
    fn eq(&self, other: &Self) -> (r: bool) {
        self.0 == other.0
    }
}

impl vstd::std_specs::cmp::PartialEqSpecImpl for Html {
    open spec fn obeys_eq_spec() -> bool {
        true
    }

    open spec fn eq_spec(&self, other: &Self) -> bool {
        self.0@ == other.0@
    }
}

/// A value that renders itself as an HTML fragment.
pub trait NixHtml {
    /// The exact fragment `as_html` yields.
    spec fn html_spec(&self) -> Seq<char>;

    fn as_html(&self) -> (r: Html)
        ensures
            r@ == self.html_spec(),
    ;
}

impl<T: NixHtml> NixHtml for Option<T> {
    open spec fn html_spec(&self) -> Seq<char> {
        match self {
            Some(s) => s.html_spec(),
            None => Seq::empty(),
        }
    }

    fn as_html(&self) -> (r: Html) {
        match self {
            Some(s) => s.as_html(),
            None => Html(String::new()),
        }
    }
}

/// Where an option was declared: either raw text, or a link already resolved
/// to a web address (held in its rendered form).
#[derive(Debug)]
pub enum Declaration {
    Naive(String),
    Processed(String),
}

impl Clone for Declaration {
    fn clone(&self) -> (r: Self)
        ensures
            r == *self,
    {
        match self {
            Declaration::Naive(s) => Declaration::Naive(s.clone()),
            Declaration::Processed(s) => Declaration::Processed(s.clone()),
        }
    }
}

impl NixHtml for Declaration {
    open spec fn html_spec(&self) -> Seq<char> {
        match self {
            Declaration::Naive(s) => "<i>"@ + s@ + "</i>"@,
            Declaration::Processed(url) => "<a class=\"text-blue-900 hover:underline\" href=\""@
                + url@ + "\">"@ + url@ + "</a>"@,
        }
    }

    fn as_html(&self) -> (r: Html) {
        match self {
            Declaration::Naive(s) => {
                let mut out = String::from_str("<i>");
                out.append(s.as_str());
                out.append("</i>");
                Html(out)
            },
            Declaration::Processed(url) => {
                let mut out = String::from_str("<a class=\"text-blue-900 hover:underline\" href=\"");
                out.append(url.as_str());
                out.append("\">");
                out.append(url.as_str());
                out.append("</a>");
                Html(out)
            },
        }
    }
}

/// One searchable NixOS option, with its documentation already rendered.
#[derive(Debug, PartialEq)]
pub struct NaiveNixosOption {
    pub name: String,
    pub declarations: Vec<Html>,
    pub description: Html,
    pub default: Html,
    pub example: Html,
    pub option_type: String,
    pub read_only: bool,
}

/// The mathematical content of an option record.
#[verifier::ext_equal]
pub struct NaiveNixosOptionView {
    pub name: Seq<char>,
    pub declarations: Seq<Seq<char>>,
    pub description: Seq<char>,
    pub default: Seq<char>,
    pub example: Seq<char>,
    pub option_type: Seq<char>,
    pub read_only: bool,
}

impl View for NaiveNixosOption {
    type V = NaiveNixosOptionView;

    open spec fn view(&self) -> NaiveNixosOptionView {
        NaiveNixosOptionView {
            name: self.name@,
            declarations: self.declarations.deep_view(),
            description: self.description@,
            default: self.default@,
            example: self.example@,
            option_type: self.option_type@,
            read_only: self.read_only,
        }
    }
}

impl DeepView for NaiveNixosOption {
    type V = NaiveNixosOptionView;

    open spec fn deep_view(&self) -> NaiveNixosOptionView {
        self@
    }
}

impl Clone for NaiveNixosOption {
    fn clone(&self) -> (r: Self)
        ensures
            r@ == self@,
    {
        let mut declarations: Vec<Html> = Vec::new();
        let mut i: usize = 0;
        while i < self.declarations.len()
            invariant
                0 <= i <= self.declarations@.len(),
                declarations@.len() == i as int,
                forall|j: int| 0 <= j < i ==> declarations@[j] == self.declarations@[j],
            decreases self.declarations@.len() - i,
        {
            let item = self.declarations[i].clone();
            declarations.push(item);
            i += 1;
        }
        proof {
            assert(declarations.deep_view() =~= self.declarations.deep_view());
        }
        let r = NaiveNixosOption {
            name: self.name.clone(),
            declarations,
            description: self.description.clone(),
            default: self.default.clone(),
            example: self.example.clone(),
            option_type: self.option_type.clone(),
            read_only: self.read_only,
        };
        proof {
            assert(r@ =~~= self@);
        }
        r
    }
}

/// The revision a channel tracks: a fixed commit, the newest upstream, or
/// whatever a disk cache last recorded.
#[derive(Debug)]
pub enum FlakeRev {
    Specific(String),
    Latest,
    FallbackToCached,
}

impl Clone for FlakeRev {
    fn clone(&self) -> (r: Self)
        ensures
            r == *self,
    {
        match self {
            FlakeRev::Specific(s) => FlakeRev::Specific(s.clone()),
            FlakeRev::Latest => FlakeRev::Latest,
            FlakeRev::FallbackToCached => FlakeRev::FallbackToCached,
        }
    }
}

impl PartialEq for FlakeRev {
    fn eq(&self, other: &Self) -> (r: bool) {
        match (self, other) {
            (FlakeRev::Specific(a), FlakeRev::Specific(b)) => *a == *b,
            (FlakeRev::Latest, FlakeRev::Latest) => true,
            (FlakeRev::FallbackToCached, FlakeRev::FallbackToCached) => true,
            _ => false,
        }
    }
}

/// Whether two revisions name the same upstream state.
pub open spec fn rev_matches(a: FlakeRev, b: FlakeRev) -> bool {
    match (a, b) {
        (FlakeRev::Specific(x), FlakeRev::Specific(y)) => x@ == y@,
        (FlakeRev::Latest, FlakeRev::Latest) => true,
        (FlakeRev::FallbackToCached, FlakeRev::FallbackToCached) => true,
        _ => false,
    }
}

impl vstd::std_specs::cmp::PartialEqSpecImpl for FlakeRev {
    open spec fn obeys_eq_spec() -> bool {
        true
    }

    open spec fn eq_spec(&self, other: &Self) -> bool {
        rev_matches(*self, *other)
    }
}

/// One upstream branch of one repository, together with the revision the
/// channel currently knows.
#[derive(Debug)]
pub struct Flake {
    pub owner: String,
    pub name: String,
    pub branch: String,
    pub rev: FlakeRev,
}

impl Clone for Flake {
    fn clone(&self) -> (r: Self)
        ensures
            r == *self,
    {
        Flake {
            owner: self.owner.clone(),
            name: self.name.clone(),
            branch: self.branch.clone(),
            rev: self.rev.clone(),
        }
    }
}

impl Flake {
    pub fn new(owner: &str, name: &str, branch: &str, rev: FlakeRev) -> (r: Self)
        ensures
            r.owner@ == owner@,
            r.name@ == name@,
            r.branch@ == branch@,
            r.rev == rev,
    {
        Flake { owner: String::from_str(owner), name: String::from_str(name), branch: String::from_str(branch), rev }
    }

    /// The flake address of this branch: pinned to the revision when one is
    /// known, by branch name otherwise.
    pub open spec fn flake_uri_spec(&self) -> Seq<char> {
        match self.rev {
            FlakeRev::Specific(r) => "github:"@ + self.owner@ + "/"@ + self.name@ + "?rev="@ + r@,
            _ => "github:"@ + self.owner@ + "/"@ + self.name@ + "/"@ + self.branch@,
        }
    }

    pub fn flake_uri(&self) -> (r: String)
        ensures
            r@ == self.flake_uri_spec(),
    {
        let mut out = String::from_str("github:");
        out.append(self.owner.as_str());
        out.append("/");
        out.append(self.name.as_str());
        match &self.rev {
            FlakeRev::Specific(r) => {
                out.append("?rev=");
                out.append(r.as_str());
            },
            _ => {
                out.append("/");
                out.append(self.branch.as_str());
            },
        }
        out
    }

    /// The web address the branch's files are browsable under.
    pub open spec fn github_base_url_spec(&self) -> Seq<char> {
        "https://github.com/"@ + self.owner@ + "/"@ + self.name@ + "/blob/"@ + self.branch@
    }

    pub fn github_base_url(&self) -> (r: String)
        ensures
            r@ == self.github_base_url_spec(),
    {
        let mut out = String::from_str("https://github.com/");
        out.append(self.owner.as_str());
        out.append("/");
        out.append(self.name.as_str());
        out.append("/blob/");
        out.append(self.branch.as_str());
        out
    }
}

/// Turns a failed `Result` into `None`; the caller reports the loss.
pub trait LogError<T> {
    fn log_to_option(self, context: &str) -> Option<T>;
}

impl<T, E> LogError<T> for Result<T, E> {
    fn log_to_option(self, _context: &str) -> (r: Option<T>)
        ensures
            match self {
                Ok(t) => r == Some(t),
                Err(_) => r is None,
            },
    {
        match self {
            Ok(t) => Some(t),
            Err(_) => None,
        }
    }
}

/// A static asset referred to by its path.
pub struct StaticFile<T>(pub T);

/// How many results a search page holds when the caller does not say.
pub fn default_n_items() -> (r: u8)
    ensures
        r == 15,
{
    15
}

/// The page a search starts on when the caller does not say.
pub fn default_page() -> (r: u8)
    ensures
        r == 1,
{
    1
}

} // verus!
