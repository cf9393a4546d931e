//! The channel lifecycle: one searcher pair per upstream branch, reconciled
//! against the upstream revision on a schedule. The caller fetches the
//! revision and runs the external build; this module owns every decision and
//! every state change, so that a failed fetch or build provably leaves the
//! channel exactly as it was.

use vstd::prelude::*;

use crate::search::{distinct_keys, OptionsSearcher, PackagesSearcher};
use crate::{rev_matches, Flake, FlakeRev, NaiveNixosOption};
use crate::nix::NixPackage;

verus! {

use vstd::string::StringExecFns;

/// The upstream revision could not be fetched.
#[derive(Debug)]
pub struct FetchError {
    pub message: String,
}

/// The external build step failed; the channel keeps its state.
#[derive(Debug)]
pub struct BuildError {
    pub message: String,
}

/// Why a tick changed nothing.
#[derive(Debug)]
pub enum TickError {
    /// The build collaborator reported an error.
    Build,
    /// A document store could not be refilled.
    Store,
}

/// What a tick should do next, decided from the fetched revision alone.
#[derive(Debug)]
pub enum TickAction {
    /// Run the build for this revision and apply its records.
    Refresh(FlakeRev),
    /// The channel already serves this revision; do nothing.
    UpToDate,
    /// The revision fetch failed; do nothing.
    FetchFailed,
}

/// The two searchers of one active channel.
pub struct ChannelSearcherInner {
    pub options: OptionsSearcher,
    pub packages: PackagesSearcher,
}

impl ChannelSearcherInner {
    /// Both stores agree with their record maps.
    pub open spec fn wf(&self) -> bool {
        self.options.wf() && self.packages.wf()
    }

    /// Builds both searchers under `branch_path` and fills them with the
    /// given records; `None` when either store cannot be set up.
    pub fn new_with_values(
        branch_path: &str,
        options: Vec<(String, NaiveNixosOption)>,
        packages: Vec<(String, NixPackage)>,
    ) -> (r: Option<Self>)
        requires
            distinct_keys(options@),
            distinct_keys(packages@),
        ensures
            match r {
                Some(c) => c.wf() && c.options.entries@ == options@ && c.packages.entries@
                    == packages@,
                None => true,
            },
    {
        let mut options_path = String::from_str(branch_path);
        options_path.append("/tantivy");
        let mut packages_path = String::from_str(branch_path);
        packages_path.append("/tantivy_packages");
        let o = match OptionsSearcher::new_with_options(options_path.as_str(), options) {
            Ok(o) => o,
            Err(_) => {
                return None;
            },
        };
        let p = match PackagesSearcher::new_with_packages(packages_path.as_str(), packages) {
            Ok(p) => p,
            Err(_) => {
                return None;
            },
        };
        Some(ChannelSearcherInner { options: o, packages: p })
    }
}

/// Which flake description a channel starts from: one asked to fall back to
/// the cached state adopts the saved description when there is one; any
/// other request, and a missing cache, keep the caller's description.
pub fn adopt_cached_flake(flake: Flake, saved: Option<Flake>) -> (r: Flake)
    ensures
        r == (if flake.rev is FallbackToCached && saved is Some {
            saved->Some_0
        } else {
            flake
        }),
{
    let fallback = match &flake.rev {
        FlakeRev::FallbackToCached => true,
        _ => false,
    };
    if fallback {
        match saved {
            Some(s) => s,
            None => flake,
        }
    } else {
        flake
    }
}

/// The searchable state of one upstream branch: inactive until a build or a
/// cache load succeeds, and serving its last good content ever after.
pub struct ChannelSearcher {
    pub inner: Option<ChannelSearcherInner>,
    pub branch_path: String,
    pub flake: Flake,
}

impl ChannelSearcher {
    /// Whatever state the channel is in, its stores agree with their maps.
    pub open spec fn wf(&self) -> bool {
        match self.inner {
            Some(i) => i.wf(),
            None => true,
        }
    }

    /// Sets a channel up under `branch_path`, active right away when cached
    /// records are handed in and both stores accept them.
    pub fn new(
        branch_path: &str,
        flake: Flake,
        cached: Option<(Vec<(String, NaiveNixosOption)>, Vec<(String, NixPackage)>)>,
    ) -> (r: Self)
        requires
            match cached {
                Some(c) => distinct_keys(c.0@) && distinct_keys(c.1@),
                None => true,
            },
        ensures
            r.wf(),
            r.flake == flake,
            r.branch_path@ == branch_path@,
            cached is None ==> r.inner is None,
            match r.inner {
                Some(i) => cached matches Some(c) && i.options.entries@ == c.0@
                    && i.packages.entries@ == c.1@,
                None => true,
            },
    {
        let inner = match cached {
            Some(c) => ChannelSearcherInner::new_with_values(branch_path, c.0, c.1),
            None => None,
        };
        ChannelSearcher { inner, branch_path: String::from_str(branch_path), flake }
    }

    /// Whether the channel serves content.
    pub fn active(&self) -> (r: bool)
        ensures
            r == (self.inner is Some),
    {
        self.inner.is_some()
    }

    /// Searches the channel's options; an inactive channel returns nothing.
    pub fn search_options(&self, q: &str, n_items: u8, page: u8) -> (r: Vec<NaiveNixosOption>)
        ensures
            match self.inner {
                Some(i) => i.options.search_post(q@, n_items, page, r.deep_view()),
                None => r@.len() == 0,
            },
    {
        match &self.inner {
            Some(i) => i.options.search_entries(q, n_items, page),
            None => Vec::new(),
        }
    }

    /// Searches the channel's packages; an inactive channel returns nothing.
    pub fn search_packages(&self, q: &str, n_items: u8, page: u8) -> (r: Vec<NixPackage>)
        ensures
            match self.inner {
                Some(i) => i.packages.search_post(q@, n_items, page, r.deep_view()),
                None => r@.len() == 0,
            },
    {
        match &self.inner {
            Some(i) => i.packages.search_entries(q, n_items, page),
            None => Vec::new(),
        }
    }

    /// What a tick does for a fetched revision: nothing on a fetch failure,
    /// nothing when the channel is active at that very revision, a refresh
    /// otherwise.
    pub open spec fn decide_spec(&self, fetched: Result<FlakeRev, FetchError>) -> TickAction {
        match fetched {
            Err(_) => TickAction::FetchFailed,
            Ok(rev) => if self.inner is Some && rev_matches(rev, self.flake.rev) {
                TickAction::UpToDate
            } else {
                TickAction::Refresh(rev)
            },
        }
    }

    /// Decides one scheduled tick; reads the channel, changes nothing.
    pub fn tick_decide(&self, fetched: &Result<FlakeRev, FetchError>) -> (r: TickAction)
        ensures
            r == self.decide_spec(*fetched),
    {
        match fetched {
            Err(_) => TickAction::FetchFailed,
            Ok(rev) => {
                if self.active() && *rev == self.flake.rev {
                    TickAction::UpToDate
                } else {
                    TickAction::Refresh(rev.clone())
                }
            },
        }
    }

    /// Applies the outcome of the build a `Refresh` decision asked for. A
    /// failed build leaves the channel untouched. A successful build makes
    /// an inactive channel active (constructing both stores), refills the
    /// stores of an active one in place, and records the new revision; the
    /// revision tag moves only with a successful tick. An active channel
    /// never reverts to inactive, and an inactive one that cannot set its
    /// stores up stays exactly as it was, reporting the store error. When a
    /// refill of an active channel fails, the packages map keeps its old
    /// records: the options map alone may already carry the new ones, since
    /// the stores are refilled one after the other.
    pub fn finish_tick(
        &mut self,
        new_rev: FlakeRev,
        built: Result<(Vec<(String, NaiveNixosOption)>, Vec<(String, NixPackage)>), BuildError>,
    ) -> (r: Result<(), TickError>)
        requires
            match built {
                Ok(b) => distinct_keys(b.0@) && distinct_keys(b.1@),
                Err(_) => true,
            },
        ensures
            r is Ok ==> final (self).wf(),
            built is Err ==> r is Err && *final (self) == *old(self),
            built is Ok ==> final (self).branch_path == old(self).branch_path && final (self).flake.owner == old(self).flake.owner && final (self).flake.name == old(
                self,
            ).flake.name && final (self).flake.branch == old(self).flake.branch,
            (built is Ok && old(self).inner is None) ==> {
                &&& r is Ok <==> final (self).inner is Some
                &&& r is Ok ==> rev_matches(final (self).flake.rev, new_rev)
                    && final (self).inner->Some_0.options.entries@ == built->Ok_0.0@
                    && final (self).inner->Some_0.packages.entries@ == built->Ok_0.1@
                &&& r is Err ==> *final (self) == *old(self)
            },
            (built is Ok && old(self).inner is Some) ==> {
                &&& final (self).inner is Some
                &&& r is Ok ==> final (self).inner->Some_0.options.entries@ == built->Ok_0.0@
                    && final (self).inner->Some_0.packages.entries@ == built->Ok_0.1@
                    && rev_matches(final (self).flake.rev, new_rev)
                &&& r is Err ==> final (self).flake == old(self).flake
                    && final (self).inner->Some_0.packages.entries@
                        == old(self).inner->Some_0.packages.entries@
            },
    {
        let b = match built {
            Ok(b) => b,
            Err(_) => {
                return Err(TickError::Build);
            },
        };
        match &mut self.inner {
            Some(i) => {
                match i.options.update_entries(b.0) {
                    Ok(_) => {},
                    Err(_) => {
                        return Err(TickError::Store);
                    },
                }
                match i.packages.update_entries(b.1) {
                    Ok(_) => {},
                    Err(_) => {
                        return Err(TickError::Store);
                    },
                }
            },
            None => {
                match ChannelSearcherInner::new_with_values(self.branch_path.as_str(), b.0, b.1) {
                    Some(inner) => {
                        self.inner = Some(inner);
                    },
                    None => {
                        return Err(TickError::Store);
                    },
                }
            },
        }
        self.flake.rev = new_rev;
        Ok(())
    }
}

} // verus!

verus! {

/// Law (idempotence of a no-op refresh): for an active channel whose
/// upstream revision equals its own, the tick decision is to do nothing, so
/// neither the stores' content nor the revision tag is touched.
pub proof fn lemma_noop_tick(s: ChannelSearcher, fetched: Result<FlakeRev, FetchError>)
    requires
        s.inner is Some,
        fetched matches Ok(r) && rev_matches(r, s.flake.rev),
    ensures
        s.decide_spec(fetched) is UpToDate,
{
}

/// Law (stale tolerance): a tick whose build fails leaves the channel the
/// very value it was — `finish_tick` ensures it — so each later search
/// answers exactly as it would have before the tick.
pub proof fn lemma_stale_tolerance(
    s0: ChannelSearcher,
    s1: ChannelSearcher,
    q: Seq<char>,
    n_items: u8,
    page: u8,
    rv_options: Seq<crate::NaiveNixosOptionView>,
    rv_packages: Seq<crate::nix::NixPackageView>,
)
    requires
        s1 == s0,
    ensures
        match (s0.inner, s1.inner) {
            (Some(i0), Some(i1)) => {
                &&& i0.options.search_post(q, n_items, page, rv_options)
                    == i1.options.search_post(q, n_items, page, rv_options)
                &&& i0.packages.search_post(q, n_items, page, rv_packages)
                    == i1.packages.search_post(q, n_items, page, rv_packages)
            },
            _ => true,
        },
{
}

} // verus!
