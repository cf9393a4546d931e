//! Raw option and package records as the external build step delivers them,
//! and the rendering rules that turn their metadata into HTML fragments.

use vstd::prelude::*;

use crate::strutil::{is_prefix, replace_seq, replace_all_str, starts_with_str};
use crate::{Html, NixHtml};

verus! {

use vstd::string::StringExecFns;

/// How an option's default or example expression is written down.
#[derive(Debug, Clone, Copy, PartialEq, Eq, Structural)]
pub enum ExpressionType {
    LiteralExpression,
    LiteralMd,
}

/// A default or example value of an option, not yet rendered.
#[derive(Debug)]
pub struct Expression {
    pub option_type: ExpressionType,
    pub text: String,
}

#[verifier::ext_equal]
pub struct ExpressionView {
    pub option_type: ExpressionType,
    pub text: Seq<char>,
}

impl View for Expression {
    type V = ExpressionView;

    open spec fn view(&self) -> ExpressionView {
        ExpressionView { option_type: self.option_type, text: self.text@ }
    }
}

impl DeepView for Expression {
    type V = ExpressionView;

    open spec fn deep_view(&self) -> ExpressionView {
        self@
    }
}

impl Clone for Expression {
    fn clone(&self) -> (r: Self)
        ensures
            r@ == self@,
    {
        Expression { option_type: self.option_type, text: self.text.clone() }
    }
}

/// One option as the build step hands it over: documentation still raw.
#[derive(Debug)]
pub struct NixosOption {
    pub declarations: Vec<String>,
    pub default: Option<Expression>,
    pub description: Option<String>,
    pub example: Option<Expression>,
    pub read_only: bool,
    pub option_type: String,
}

#[verifier::ext_equal]
pub struct NixosOptionView {
    pub declarations: Seq<Seq<char>>,
    pub default: Option<ExpressionView>,
    pub description: Option<Seq<char>>,
    pub example: Option<ExpressionView>,
    pub read_only: bool,
    pub option_type: Seq<char>,
}

impl View for NixosOption {
    type V = NixosOptionView;

    open spec fn view(&self) -> NixosOptionView {
        NixosOptionView {
            declarations: self.declarations.deep_view(),
            default: self.default.deep_view(),
            description: self.description.deep_view(),
            example: self.example.deep_view(),
            read_only: self.read_only,
            option_type: self.option_type@,
        }
    }
}

impl DeepView for NixosOption {
    type V = NixosOptionView;

    open spec fn deep_view(&self) -> NixosOptionView {
        self@
    }
}

fn clone_string_vec(v: &Vec<String>) -> (r: Vec<String>)
    ensures
        r.deep_view() == v.deep_view(),
{
    let mut out: Vec<String> = Vec::new();
    let mut i: usize = 0;
    while i < v.len()
        invariant
            0 <= i <= v@.len(),
            out@.len() == i as int,
            forall|j: int| 0 <= j < i ==> out@[j] == v@[j],
        decreases v@.len() - i,
    {
        out.push(v[i].clone());
        i += 1;
    }
    proof {
        assert(out.deep_view() =~= v.deep_view());
    }
    out
}

impl Clone for NixosOption {
    fn clone(&self) -> (r: Self)
        ensures
            r@ == self@,
    {
        let default = match &self.default {
            Some(e) => Some(e.clone()),
            None => None,
        };
        let description = match &self.description {
            Some(s) => Some(s.clone()),
            None => None,
        };
        let example = match &self.example {
            Some(e) => Some(e.clone()),
            None => None,
        };
        let r = NixosOption {
            declarations: clone_string_vec(&self.declarations),
            default,
            description,
            example,
            read_only: self.read_only,
            option_type: self.option_type.clone(),
        };
        proof {
            assert(r@ =~~= self@);
        }
        r
    }
}

/// License metadata: either a bare string, or the structured form the
/// package set provides.
#[derive(Debug)]
pub enum License {
    Verbatim(String),
    Informative {
        free: Option<bool>,
        full_name: Option<String>,
        redistributable: Option<bool>,
        short_name: Option<String>,
        spdx_id: Option<String>,
        url: Option<String>,
    },
}

#[verifier::ext_equal]
pub enum LicenseView {
    Verbatim(Seq<char>),
    Informative {
        free: Option<bool>,
        full_name: Option<Seq<char>>,
        redistributable: Option<bool>,
        short_name: Option<Seq<char>>,
        spdx_id: Option<Seq<char>>,
        url: Option<Seq<char>>,
    },
}

impl View for License {
    type V = LicenseView;

    open spec fn view(&self) -> LicenseView {
        match self {
            License::Verbatim(s) => LicenseView::Verbatim(s@),
            License::Informative { free, full_name, redistributable, short_name, spdx_id, url } => {
                LicenseView::Informative {
                    free: *free,
                    full_name: full_name.deep_view(),
                    redistributable: *redistributable,
                    short_name: short_name.deep_view(),
                    spdx_id: spdx_id.deep_view(),
                    url: url.deep_view(),
                }
            },
        }
    }
}

impl DeepView for License {
    type V = LicenseView;

    open spec fn deep_view(&self) -> LicenseView {
        self@
    }
}

fn clone_opt_string(v: &Option<String>) -> (r: Option<String>)
    ensures
        r.deep_view() == v.deep_view(),
{
    match v {
        Some(s) => Some(s.clone()),
        None => None,
    }
}

fn opt_string_eq(a: &Option<String>, b: &Option<String>) -> (r: bool)
    ensures
        r == (a.deep_view() == b.deep_view()),
{
    match (a, b) {
        (Some(x), Some(y)) => *x == *y,
        (None, None) => true,
        _ => false,
    }
}

fn opt_bool_eq(a: &Option<bool>, b: &Option<bool>) -> (r: bool)
    ensures
        r == (*a == *b),
{
    match (a, b) {
        (Some(x), Some(y)) => *x == *y,
        (None, None) => true,
        _ => false,
    }
}

impl Clone for License {
    fn clone(&self) -> (r: Self)
        ensures
            r@ == self@,
    {
        let r = match self {
            License::Verbatim(s) => License::Verbatim(s.clone()),
            License::Informative { free, full_name, redistributable, short_name, spdx_id, url } => {
                License::Informative {
                    free: *free,
                    full_name: clone_opt_string(full_name),
                    redistributable: *redistributable,
                    short_name: clone_opt_string(short_name),
                    spdx_id: clone_opt_string(spdx_id),
                    url: clone_opt_string(url),
                }
            },
        };
        proof {
            assert(r@ =~~= self@);
        }
        r
    }
}

impl PartialEq for License {
    fn eq(&self, other: &Self) -> (r: bool) {
        let r = match (self, other) {
            (License::Verbatim(a), License::Verbatim(b)) => *a == *b,
            (
                License::Informative {
                    free: f1,
                    full_name: n1,
                    redistributable: r1,
                    short_name: s1,
                    spdx_id: i1,
                    url: u1,
                },
                License::Informative {
                    free: f2,
                    full_name: n2,
                    redistributable: r2,
                    short_name: s2,
                    spdx_id: i2,
                    url: u2,
                },
            ) => {
                opt_bool_eq(f1, f2) && opt_string_eq(n1, n2) && opt_bool_eq(r1, r2)
                    && opt_string_eq(s1, s2) && opt_string_eq(i1, i2) && opt_string_eq(u1, u2)
            },
            _ => false,
        };
        proof {
            if r {
                assert(self@ =~~= other@);
            }
        }
        r
    }
}

impl vstd::std_specs::cmp::PartialEqSpecImpl for License {
    open spec fn obeys_eq_spec() -> bool {
        true
    }

    open spec fn eq_spec(&self, other: &Self) -> bool {
        self@ == other@
    }
}

/// An HTML paragraph that links `url` under the label `label`.
pub open spec fn link_html(url: Seq<char>, label: Seq<char>) -> Seq<char> {
    "<p><a class=\"text-blue-900 hover:underline\" href="@ + url + ">"@ + label + "</a></p>"@
}

/// The fragment a license renders to: its best available name, linked when a
/// web address is known.
pub open spec fn license_html(v: LicenseView) -> Seq<char> {
    match v {
        LicenseView::Verbatim(s) => "<p>"@ + s + "</p>"@,
        LicenseView::Informative { full_name, short_name, url, .. } => {
            let label = match full_name {
                Some(n) => n,
                None => match short_name {
                    Some(n) => n,
                    None => match url {
                        Some(u) => u,
                        None => "unknown"@,
                    },
                },
            };
            match url {
                Some(u) => link_html(u, label),
                None => "<p>"@ + label + "</p>"@,
            }
        },
    }
}

impl NixHtml for License {
    open spec fn html_spec(&self) -> Seq<char> {
        license_html(self@)
    }

    fn as_html(&self) -> (r: Html) {
        match self {
            License::Verbatim(s) => {
                let mut out = String::from_str("<p>");
                out.append(s.as_str());
                out.append("</p>");
                Html(out)
            },
            License::Informative { full_name, short_name, url, .. } => {
                let unknown = String::from_str("unknown");
                let label: &String = match full_name {
                    Some(n) => n,
                    None => match short_name {
                        Some(n) => n,
                        None => match url {
                            Some(u) => u,
                            None => &unknown,
                        },
                    },
                };
                match url {
                    Some(u) => {
                        let mut out = String::from_str(
                            "<p><a class=\"text-blue-900 hover:underline\" href=",
                        );
                        out.append(u.as_str());
                        out.append(">");
                        out.append(label.as_str());
                        out.append("</a></p>");
                        Html(out)
                    },
                    None => {
                        let mut out = String::from_str("<p>");
                        out.append(label.as_str());
                        out.append("</p>");
                        Html(out)
                    },
                }
            },
        }
    }
}

/// A web address in its rendered textual form.
#[derive(Debug)]
pub struct WebUrl(pub String);

impl View for WebUrl {
    type V = Seq<char>;

    open spec fn view(&self) -> Seq<char> {
        self.0@
    }
}

impl DeepView for WebUrl {
    type V = Seq<char>;

    open spec fn deep_view(&self) -> Seq<char> {
        self.0@
    }
}

impl Clone for WebUrl {
    fn clone(&self) -> (r: Self)
        ensures
            r == *self,
    {
        WebUrl(self.0.clone())
    }
}

impl PartialEq for WebUrl {
    fn eq(&self, other: &Self) -> (r: bool) {
        self.0 == other.0
    }
}

impl vstd::std_specs::cmp::PartialEqSpecImpl for WebUrl {
    open spec fn obeys_eq_spec() -> bool {
        true
    }

    open spec fn eq_spec(&self, other: &Self) -> bool {
        self.0@ == other.0@
    }
}

impl NixHtml for WebUrl {
    open spec fn html_spec(&self) -> Seq<char> {
        link_html(self.0@, self.0@)
    }

    fn as_html(&self) -> (r: Html) {
        let mut out = String::from_str("<p><a class=\"text-blue-900 hover:underline\" href=");
        out.append(self.0.as_str());
        out.append(">");
        out.append(self.0.as_str());
        out.append("</a></p>");
        Html(out)
    }
}

/// Zero, one or many values of a kind, or a free-form fallback string.
#[derive(Debug, PartialEq)]
pub enum Plurality<T> {
    Absent,
    Single(T),
    Multiple(Vec<T>),
    Fallback(String),
}

#[verifier::ext_equal]
pub enum PluralityView<V> {
    Absent,
    Single(V),
    Multiple(Seq<V>),
    Fallback(Seq<char>),
}

impl<T: DeepView> View for Plurality<T> {
    type V = PluralityView<<T as DeepView>::V>;

    open spec fn view(&self) -> PluralityView<<T as DeepView>::V> {
        match self {
            Plurality::Absent => PluralityView::Absent,
            Plurality::Single(t) => PluralityView::Single(t.deep_view()),
            Plurality::Multiple(v) => PluralityView::Multiple(v.deep_view()),
            Plurality::Fallback(s) => PluralityView::Fallback(s@),
        }
    }
}

impl<T: DeepView> DeepView for Plurality<T> {
    type V = PluralityView<<T as DeepView>::V>;

    open spec fn deep_view(&self) -> PluralityView<<T as DeepView>::V> {
        self@
    }
}

impl<T: DeepView> Default for Plurality<T> {
    fn default() -> (r: Self)
        ensures
            r@ is Absent,
    {
        Plurality::Absent
    }
}

/// Keeps the first occurrence of every value, in order.
pub open spec fn dedup_firsts<V>(s: Seq<V>) -> Seq<V>
    decreases s.len(),
{
    if s.len() == 0 {
        Seq::empty()
    } else if s.drop_last().contains(s.last()) {
        dedup_firsts(s.drop_last())
    } else {
        dedup_firsts(s.drop_last()).push(s.last())
    }
}

pub proof fn lemma_push_contains<V>(s: Seq<V>, l: V, x: V)
    ensures
        s.push(l).contains(x) == (s.contains(x) || l == x),
{
    let p = s.push(l);
    if p.contains(x) {
        let j = choose|j: int| 0 <= j < p.len() && p[j] == x;
        if j < s.len() {
            assert(s[j] == x);
        } else {
            assert(p[j] == l);
        }
    }
    if s.contains(x) {
        let j = choose|j: int| 0 <= j < s.len() && s[j] == x;
        assert(p[j] == x);
    }
    if l == x {
        assert(p[s.len() as int] == x);
    }
}

pub proof fn lemma_dedup_contains<V>(s: Seq<V>, x: V)
    ensures
        dedup_firsts(s).contains(x) == s.contains(x),
    decreases s.len(),
{
    if s.len() == 0 {
    } else {
        lemma_dedup_contains(s.drop_last(), x);
        if !s.drop_last().contains(s.last()) {
            lemma_push_contains(dedup_firsts(s.drop_last()), s.last(), x);
        }
        assert(s.contains(x) == (s.drop_last().contains(x) || s.last() == x)) by {
            if s.contains(x) {
                let j = choose|j: int| 0 <= j < s.len() && s[j] == x;
                if j < s.len() - 1 {
                    assert(s.drop_last()[j] == x);
                }
            }
            if s.drop_last().contains(x) {
                let j = choose|j: int| 0 <= j < s.drop_last().len() && s.drop_last()[j] == x;
                assert(s[j] == x);
            }
            if s.last() == x {
                assert(s[s.len() - 1] == x);
            }
        }
        if !s.drop_last().contains(s.last()) && s.last() == x {
            let d = dedup_firsts(s.drop_last()).push(s.last());
            assert(d[d.len() - 1] == x);
        }
    }
}

/// The license fragments of all items, one after the other.
pub open spec fn concat_license_html(items: Seq<LicenseView>) -> Seq<char>
    decreases items.len(),
{
    if items.len() == 0 {
        Seq::empty()
    } else {
        concat_license_html(items.drop_last()) + license_html(items.last())
    }
}

/// The link fragments of all addresses, one after the other.
pub open spec fn concat_url_html(items: Seq<Seq<char>>) -> Seq<char>
    decreases items.len(),
{
    if items.len() == 0 {
        Seq::empty()
    } else {
        concat_url_html(items.drop_last()) + link_html(items.last(), items.last())
    }
}

fn contains_license(v: &Vec<License>, x: &License) -> (r: bool)
    ensures
        r == v.deep_view().contains(x@),
{
    let mut i: usize = 0;
    while i < v.len()
        invariant
            0 <= i <= v@.len(),
            forall|j: int| 0 <= j < i ==> v.deep_view()[j] != x@,
        decreases v@.len() - i,
    {
        if &v[i] == x {
            proof {
                assert(v.deep_view()[i as int] == x@);
            }
            return true;
        }
        i += 1;
    }
    false
}

/// The distinct licenses of a list, first occurrences in order.
fn unique_licenses(v: &Vec<License>) -> (r: Vec<License>)
    ensures
        r.deep_view() == dedup_firsts(v.deep_view()),
{
    let mut out: Vec<License> = Vec::new();
    let mut i: usize = 0;
    proof {
        assert(v.deep_view().take(0) =~= Seq::<LicenseView>::empty());
    }
    while i < v.len()
        invariant
            0 <= i <= v@.len(),
            out.deep_view() =~= dedup_firsts(v.deep_view().take(i as int)),
        decreases v@.len() - i,
    {
        let ghost pre = v.deep_view().take(i as int);
        let ghost cur = v.deep_view().take(i + 1);
        proof {
            assert(cur.drop_last() =~= pre);
            assert(cur.last() == v.deep_view()[i as int]);
        }
        if !contains_license(&out, &v[i]) {
            proof {
                lemma_dedup_contains(pre, v.deep_view()[i as int]);
            }
            let ghost old_dv = out.deep_view();
            out.push(v[i].clone());
            proof {
                assert(out.deep_view() =~= old_dv.push(v.deep_view()[i as int]));
            }
        } else {
            proof {
                lemma_dedup_contains(pre, v.deep_view()[i as int]);
            }
        }
        i += 1;
    }
    proof {
        assert(v.deep_view().take(i as int) =~= v.deep_view());
    }
    out
}

impl Clone for Plurality<License> {
    fn clone(&self) -> (r: Self)
        ensures
            r@ == self@,
    {
        let r = match self {
            Plurality::Absent => Plurality::Absent,
            Plurality::Single(l) => Plurality::Single(l.clone()),
            Plurality::Multiple(v) => {
                let mut out: Vec<License> = Vec::new();
                let mut i: usize = 0;
                while i < v.len()
                    invariant
                        0 <= i <= v@.len(),
                        out@.len() == i as int,
                        forall|j: int| 0 <= j < i ==> out.deep_view()[j] == v.deep_view()[j],
                    decreases v@.len() - i,
                {
                    out.push(v[i].clone());
                    i += 1;
                }
                proof {
                    assert(out.deep_view() =~= v.deep_view());
                }
                Plurality::Multiple(out)
            },
            Plurality::Fallback(s) => Plurality::Fallback(s.clone()),
        };
        proof {
            assert(r@ =~~= self@);
        }
        r
    }
}

impl Clone for Plurality<WebUrl> {
    fn clone(&self) -> (r: Self)
        ensures
            r@ == self@,
    {
        let r = match self {
            Plurality::Absent => Plurality::Absent,
            Plurality::Single(u) => Plurality::Single(u.clone()),
            Plurality::Multiple(v) => {
                let mut out: Vec<WebUrl> = Vec::new();
                let mut i: usize = 0;
                while i < v.len()
                    invariant
                        0 <= i <= v@.len(),
                        out@.len() == i as int,
                        forall|j: int| 0 <= j < i ==> out.deep_view()[j] == v.deep_view()[j],
                    decreases v@.len() - i,
                {
                    out.push(v[i].clone());
                    i += 1;
                }
                proof {
                    assert(out.deep_view() =~= v.deep_view());
                }
                Plurality::Multiple(out)
            },
            Plurality::Fallback(s) => Plurality::Fallback(s.clone()),
        };
        proof {
            assert(r@ =~~= self@);
        }
        r
    }
}

impl NixHtml for Plurality<License> {
    open spec fn html_spec(&self) -> Seq<char> {
        match self@ {
            PluralityView::Absent => "<p></p>"@,
            PluralityView::Single(l) => license_html(l),
            PluralityView::Multiple(m) => concat_license_html(dedup_firsts(m)),
            PluralityView::Fallback(s) => "<code>"@ + s + "</code>"@,
        }
    }

    fn as_html(&self) -> (r: Html) {
        match self {
            Plurality::Absent => Html(String::from_str("<p></p>")),
            Plurality::Single(l) => l.as_html(),
            Plurality::Multiple(m) => {
                let distinct = unique_licenses(m);
                let ghost items = dedup_firsts(m.deep_view());
                let mut out = String::new();
                let mut i: usize = 0;
                while i < distinct.len()
                    invariant
                        0 <= i <= distinct@.len(),
                        distinct.deep_view() == items,
                        out@ =~= concat_license_html(items.take(i as int)),
                    decreases distinct@.len() - i,
                {
                    let piece = distinct[i].as_html();
                    out.append(piece.0.as_str());
                    proof {
                        assert(items.take(i + 1).drop_last() =~= items.take(i as int));
                        assert(items.take(i + 1).last() == items[i as int]);
                        assert(license_html(items[i as int]) == license_html(
                            distinct.deep_view()[i as int],
                        ));
                    }
                    i += 1;
                }
                proof {
                    assert(items.take(i as int) =~= items);
                }
                Html(out)
            },
            Plurality::Fallback(s) => {
                let mut out = String::from_str("<code>");
                out.append(s.as_str());
                out.append("</code>");
                Html(out)
            },
        }
    }
}

fn contains_url(v: &Vec<WebUrl>, x: &WebUrl) -> (r: bool)
    ensures
        r == v.deep_view().contains(x@),
{
    let mut i: usize = 0;
    while i < v.len()
        invariant
            0 <= i <= v@.len(),
            forall|j: int| 0 <= j < i ==> v.deep_view()[j] != x@,
        decreases v@.len() - i,
    {
        if &v[i] == x {
            proof {
                assert(v.deep_view()[i as int] == x@);
            }
            return true;
        }
        i += 1;
    }
    false
}

/// The distinct addresses of a list, first occurrences in order.
fn unique_urls(v: &Vec<WebUrl>) -> (r: Vec<WebUrl>)
    ensures
        r.deep_view() == dedup_firsts(v.deep_view()),
{
    let mut out: Vec<WebUrl> = Vec::new();
    let mut i: usize = 0;
    proof {
        assert(v.deep_view().take(0) =~= Seq::<Seq<char>>::empty());
    }
    while i < v.len()
        invariant
            0 <= i <= v@.len(),
            out.deep_view() =~= dedup_firsts(v.deep_view().take(i as int)),
        decreases v@.len() - i,
    {
        let ghost pre = v.deep_view().take(i as int);
        proof {
            assert(v.deep_view().take(i + 1).drop_last() =~= pre);
            assert(v.deep_view().take(i + 1).last() == v.deep_view()[i as int]);
            lemma_dedup_contains(pre, v.deep_view()[i as int]);
        }
        if !contains_url(&out, &v[i]) {
            let ghost old_dv = out.deep_view();
            out.push(v[i].clone());
            proof {
                assert(out.deep_view() =~= old_dv.push(v.deep_view()[i as int]));
            }
        }
        i += 1;
    }
    proof {
        assert(v.deep_view().take(i as int) =~= v.deep_view());
    }
    out
}

impl NixHtml for Plurality<WebUrl> {
    open spec fn html_spec(&self) -> Seq<char> {
        match self@ {
            PluralityView::Absent => "<p></p>"@,
            PluralityView::Single(u) => link_html(u, u),
            PluralityView::Multiple(m) => concat_url_html(dedup_firsts(m)),
            PluralityView::Fallback(s) => "<code>"@ + s + "</code>"@,
        }
    }

    fn as_html(&self) -> (r: Html) {
        match self {
            Plurality::Absent => Html(String::from_str("<p></p>")),
            Plurality::Single(u) => u.as_html(),
            Plurality::Multiple(m) => {
                let distinct = unique_urls(m);
                let ghost items = dedup_firsts(m.deep_view());
                let mut out = String::new();
                let mut i: usize = 0;
                while i < distinct.len()
                    invariant
                        0 <= i <= distinct@.len(),
                        distinct.deep_view() == items,
                        out@ =~= concat_url_html(items.take(i as int)),
                    decreases distinct@.len() - i,
                {
                    let piece = distinct[i].as_html();
                    out.append(piece.0.as_str());
                    proof {
                        assert(items.take(i + 1).drop_last() =~= items.take(i as int));
                        assert(items.take(i + 1).last() == items[i as int]);
                        assert(link_html(items[i as int], items[i as int]) == link_html(
                            distinct.deep_view()[i as int],
                            distinct.deep_view()[i as int],
                        ));
                    }
                    i += 1;
                }
                proof {
                    assert(items.take(i as int) =~= items);
                }
                Html(out)
            },
            Plurality::Fallback(s) => {
                let mut out = String::from_str("<code>");
                out.append(s.as_str());
                out.append("</code>");
                Html(out)
            },
        }
    }
}

/// One package as the build step hands it over.
#[derive(Debug, PartialEq)]
pub struct NixPackage {
    pub attribute_name: String,
    pub default_output: String,
    pub description: Option<String>,
    pub long_description: Option<String>,
    pub license: Plurality<License>,
    pub name: String,
    pub outputs: Vec<String>,
    pub version: Option<String>,
    pub homepage: Plurality<WebUrl>,
}

/// The mathematical content of a package record.
#[verifier::ext_equal]
pub struct NixPackageView {
    pub attribute_name: Seq<char>,
    pub default_output: Seq<char>,
    pub description: Option<Seq<char>>,
    pub long_description: Option<Seq<char>>,
    pub license: PluralityView<LicenseView>,
    pub name: Seq<char>,
    pub outputs: Seq<Seq<char>>,
    pub version: Option<Seq<char>>,
    pub homepage: PluralityView<Seq<char>>,
}

impl View for NixPackage {
    type V = NixPackageView;

    open spec fn view(&self) -> NixPackageView {
        NixPackageView {
            attribute_name: self.attribute_name@,
            default_output: self.default_output@,
            description: self.description.deep_view(),
            long_description: self.long_description.deep_view(),
            license: self.license@,
            name: self.name@,
            outputs: self.outputs.deep_view(),
            version: self.version.deep_view(),
            homepage: self.homepage@,
        }
    }
}

impl DeepView for NixPackage {
    type V = NixPackageView;

    open spec fn deep_view(&self) -> NixPackageView {
        self@
    }
}

impl Clone for NixPackage {
    fn clone(&self) -> (r: Self)
        ensures
            r@ == self@,
    {
        let r = NixPackage {
            attribute_name: self.attribute_name.clone(),
            default_output: self.default_output.clone(),
            description: clone_opt_string(&self.description),
            long_description: clone_opt_string(&self.long_description),
            license: self.license.clone(),
            name: self.name.clone(),
            outputs: clone_string_vec(&self.outputs),
            version: clone_opt_string(&self.version),
            homepage: self.homepage.clone(),
        };
        proof {
            assert(r@ =~~= self@);
        }
        r
    }
}

/// How one declaration path is rewritten to a web address: a path into the
/// package set goes to its upstream viewer, anything else to the branch's
/// own file viewer.
pub open spec fn rewrite_decl(
    d: Seq<char>,
    nixpkgs_path: Seq<char>,
    nixpkgs_url: Seq<char>,
    fc_nixos_path: Seq<char>,
    github_base: Seq<char>,
) -> Seq<char> {
    if is_prefix(nixpkgs_path, d) {
        replace_seq(d, nixpkgs_path, nixpkgs_url)
    } else {
        replace_seq(d, fc_nixos_path, github_base)
    }
}

/// Rewrites every declaration path of every option, as `rewrite_decl` says.
pub fn rewrite_declarations(
    options: Vec<(String, NixosOption)>,
    nixpkgs_path: &str,
    nixpkgs_url: &str,
    fc_nixos_path: &str,
    github_base: &str,
) -> (r: Vec<(String, NixosOption)>)
    ensures
        r@.len() == options@.len(),
        forall|i: int|
            0 <= i < r@.len() ==> {
                &&& r@[i].0 == options@[i].0
                &&& r@[i].1@ == (NixosOptionView {
                    declarations: options@[i].1@.declarations.map_values(
                        |d: Seq<char>|
                            rewrite_decl(
                                d,
                                nixpkgs_path@,
                                nixpkgs_url@,
                                fc_nixos_path@,
                                github_base@,
                            ),
                    ),
                    ..options@[i].1@
                })
            },
{
    let mut out: Vec<(String, NixosOption)> = Vec::new();
    let mut i: usize = 0;
    while i < options.len()
        invariant
            0 <= i <= options@.len(),
            out@.len() == i as int,
            forall|k: int|
                0 <= k < i ==> {
                    &&& out@[k].0 == options@[k].0
                    &&& out@[k].1@ == (NixosOptionView {
                        declarations: options@[k].1@.declarations.map_values(
                            |d: Seq<char>|
                                rewrite_decl(
                                    d,
                                    nixpkgs_path@,
                                    nixpkgs_url@,
                                    fc_nixos_path@,
                                    github_base@,
                                ),
                        ),
                        ..options@[k].1@
                    })
                },
        decreases options@.len() - i,
    {
        let (name, option) = (options[i].0.clone(), options[i].1.clone());
        let mut decls: Vec<String> = Vec::new();
        let mut j: usize = 0;
        while j < option.declarations.len()
            invariant
                0 <= j <= option.declarations@.len(),
                decls@.len() == j as int,
                forall|k: int|
                    0 <= k < j ==> decls.deep_view()[k] == rewrite_decl(
                        option.declarations.deep_view()[k],
                        nixpkgs_path@,
                        nixpkgs_url@,
                        fc_nixos_path@,
                        github_base@,
                    ),
            decreases option.declarations@.len() - j,
        {
            let d = &option.declarations[j];
            let rewritten = if starts_with_str(d.as_str(), nixpkgs_path) {
                replace_all_str(d.as_str(), nixpkgs_path, nixpkgs_url)
            } else {
                replace_all_str(d.as_str(), fc_nixos_path, github_base)
            };
            let ghost rv = rewritten@;
            proof {
                assert(rv == rewrite_decl(
                    option.declarations.deep_view()[j as int],
                    nixpkgs_path@,
                    nixpkgs_url@,
                    fc_nixos_path@,
                    github_base@,
                ));
            }
            let ghost dpre = decls.deep_view();
            decls.push(rewritten);
            proof {
                assert(decls.deep_view()[j as int] == rv);
                assert forall|k: int| 0 <= k < j implies decls.deep_view()[k] == dpre[k] by {
                    assert(decls.deep_view()[k] == decls@[k].deep_view());
                }
                assert forall|k: int|
                    0 <= k < j + 1 implies decls.deep_view()[k] == rewrite_decl(
                        option.declarations.deep_view()[k],
                        nixpkgs_path@,
                        nixpkgs_url@,
                        fc_nixos_path@,
                        github_base@,
                    ) by {
                    if k < j {
                        assert(decls.deep_view()[k] == dpre[k]);
                        assert(dpre[k] == rewrite_decl(
                            option.declarations.deep_view()[k],
                            nixpkgs_path@,
                            nixpkgs_url@,
                            fc_nixos_path@,
                            github_base@,
                        ));
                    } else {
                        assert(decls.deep_view()[k] == rv);
                    }
                }
            }
            j += 1;
        }
        let rewritten_option = NixosOption {
            declarations: decls,
            default: option.default,
            description: option.description,
            example: option.example,
            read_only: option.read_only,
            option_type: option.option_type,
        };
        proof {
            assert(rewritten_option@.declarations =~= options@[i as int].1@.declarations.map_values(
                |d: Seq<char>|
                    rewrite_decl(d, nixpkgs_path@, nixpkgs_url@, fc_nixos_path@, github_base@),
            ));
            assert(rewritten_option@ =~~= (NixosOptionView {
                declarations: options@[i as int].1@.declarations.map_values(
                    |d: Seq<char>|
                        rewrite_decl(d, nixpkgs_path@, nixpkgs_url@, fc_nixos_path@, github_base@),
                ),
                ..options@[i as int].1@
            }));
        }
        out.push((name, rewritten_option));
        i += 1;
    }
    out
}

} // verus!
