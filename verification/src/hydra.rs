//! The compute side of upstream discovery: picking the newest evaluation
//! out of a build farm's listing, selecting the branch jobsets worth
//! indexing, and choosing a default channel for a request that names none.
//! Fetching the listings themselves is the caller's work.

use vstd::prelude::*;

use crate::search::lookup;
use crate::strutil::{
    contains_str, contains_sub, ends_with_str, is_prefix, is_suffix, lex_lt, starts_with_str,
    str_lt,
};
use crate::FlakeRev;

verus! {

use vstd::string::StringExecFns;

/// One input of a build-farm evaluation.
#[derive(Debug)]
pub struct JobsetInput {
    pub input_type: String,
    pub uri: Option<String>,
    pub revision: Option<String>,
}

/// One evaluation of a jobset, keyed inputs and an ordering number.
#[derive(Debug)]
pub struct ChannelEval {
    pub id: i64,
    pub inputs: Vec<(String, JobsetInput)>,
}

/// The build farm's listing of a jobset's evaluations.
#[derive(Debug)]
pub struct ChannelEvalOverview {
    pub evals: Vec<ChannelEval>,
}

/// Why no revision could be read out of an evaluation listing.
#[derive(Debug, Clone, Copy, PartialEq, Eq, Structural)]
pub enum EvalPickError {
    /// The listing holds no evaluation at all.
    NoEvaluations,
    /// The newest evaluation has no input named `fc`.
    NoFcInput,
    /// The `fc` input carries no commit revision.
    NoRevision,
}

/// The position of the newest evaluation: the first one carrying the
/// largest ordering number.
pub open spec fn best_eval_idx(evals: Seq<ChannelEval>) -> int
    decreases evals.len(),
{
    if evals.len() <= 1 {
        0
    } else {
        let rest = best_eval_idx(evals.drop_last());
        if evals.last().id > evals[rest].id {
            evals.len() - 1
        } else {
            rest
        }
    }
}

pub proof fn lemma_best_eval_idx(evals: Seq<ChannelEval>)
    requires
        evals.len() > 0,
    ensures
        0 <= best_eval_idx(evals) < evals.len(),
        forall|j: int| 0 <= j < evals.len() ==> #[trigger] evals[j].id <= evals[best_eval_idx(evals)].id,
    decreases evals.len(),
{
    if evals.len() > 1 {
        lemma_best_eval_idx(evals.drop_last());
        assert forall|j: int| 0 <= j < evals.len() implies #[trigger] evals[j].id <= evals[best_eval_idx(
            evals,
        )].id by {
            if j < evals.len() - 1 {
                assert(evals.drop_last()[j] == evals[j]);
                assert(evals.drop_last()[best_eval_idx(evals.drop_last())] == evals[best_eval_idx(
                    evals.drop_last(),
                )]);
            }
        }
    }
}

/// Reads the current upstream revision out of an evaluation listing: the
/// newest evaluation's `fc` input must name a commit.
pub fn pick_latest_eval(overview: &ChannelEvalOverview) -> (r: Result<FlakeRev, EvalPickError>)
    ensures
        match r {
            Ok(rev) => overview.evals@.len() > 0 && match lookup(
                overview.evals@[best_eval_idx(overview.evals@)].inputs@,
                "fc"@,
            ) {
                Some(inp) => inp.revision matches Some(s) && rev matches FlakeRev::Specific(x)
                    && x@ == s@,
                None => false,
            },
            Err(EvalPickError::NoEvaluations) => overview.evals@.len() == 0,
            Err(EvalPickError::NoFcInput) => overview.evals@.len() > 0 && lookup(
                overview.evals@[best_eval_idx(overview.evals@)].inputs@,
                "fc"@,
            ) is None,
            Err(EvalPickError::NoRevision) => overview.evals@.len() > 0 && match lookup(
                overview.evals@[best_eval_idx(overview.evals@)].inputs@,
                "fc"@,
            ) {
                Some(inp) => inp.revision is None,
                None => false,
            },
        },
{
    if overview.evals.len() == 0 {
        return Err(EvalPickError::NoEvaluations);
    }
    let ghost ev = overview.evals@;
    let mut best: usize = 0;
    let mut i: usize = 1;
    proof {
        assert(ev.take(1).len() == 1);
        assert(best_eval_idx(ev.take(1)) == 0);
        assert(ev.take(1)[0] == ev[0]);
    }
    while i < overview.evals.len()
        invariant
            1 <= i <= ev.len(),
            ev == overview.evals@,
            0 <= best < i,
            best as int == best_eval_idx(ev.take(i as int)),
        decreases ev.len() - i,
    {
        proof {
            assert(ev.take(i + 1).drop_last() =~= ev.take(i as int));
            assert(ev.take(i + 1).last() == ev[i as int]);
            assert(ev.take(i + 1)[best as int] == ev[best as int]);
        }
        if overview.evals[i].id > overview.evals[best].id {
            best = i;
        }
        i += 1;
    }
    proof {
        assert(ev.take(i as int) =~= ev);
    }
    let key = String::from_str("fc");
    match find_input(&overview.evals[best].inputs, &key) {
        Some(input) => match &input.revision {
            Some(s) => Ok(FlakeRev::Specific(s.clone())),
            None => Err(EvalPickError::NoRevision),
        },
        None => Err(EvalPickError::NoFcInput),
    }
}

fn find_input<'a>(inputs: &'a Vec<(String, JobsetInput)>, key: &String) -> (r: Option<
    &'a JobsetInput,
>)
    ensures
        match r {
            Some(t) => lookup(inputs@, key@) == Some(*t),
            None => lookup(inputs@, key@) is None,
        },
{
    crate::search::find_entry(inputs, key)
}

/// Whether a jobset name is worth indexing: one of the `fc-` branches that
/// end in a deployment stage.
pub open spec fn keep_jobset(n: Seq<char>) -> bool {
    is_prefix("fc-"@, n) && (is_suffix("production"@, n) || is_suffix("dev"@, n) || is_suffix(
        "staging"@,
        n,
    ))
}

/// The names worth indexing, in their given order.
pub open spec fn kept_jobsets(names: Seq<Seq<char>>) -> Seq<Seq<char>> {
    names.filter(|n: Seq<char>| keep_jobset(n))
}

/// The lexicographic order is asymmetric.
pub proof fn lemma_lex_asym(a: Seq<char>, b: Seq<char>)
    ensures
        lex_lt(a, b) ==> !lex_lt(b, a),
    decreases a.len(),
{
    if b.len() == 0 || a.len() == 0 {
    } else if a[0] != b[0] {
    } else {
        lemma_lex_asym(a.drop_first(), b.drop_first());
    }
}

fn keeps_jobset(n: &String) -> (r: bool)
    ensures
        r == keep_jobset(n@),
{
    starts_with_str(n.as_str(), "fc-") && (ends_with_str(n.as_str(), "production")
        || ends_with_str(n.as_str(), "dev") || ends_with_str(n.as_str(), "staging"))
}

/// Selects the jobset names worth indexing and orders them alphabetically:
/// the same names the filter keeps, each exactly as often, smallest first.
pub fn select_jobsets(names: &Vec<String>) -> (r: Vec<String>)
    ensures
        r.deep_view().to_multiset() == kept_jobsets(names.deep_view()).to_multiset(),
        forall|i: int| 0 <= i < r.deep_view().len() ==> keep_jobset(#[trigger] r.deep_view()[i]),
        forall|i: int|
            0 <= i < r.deep_view().len() - 1 ==> !lex_lt(
                r.deep_view()[i + 1],
                #[trigger] r.deep_view()[i],
            ),
{
    let ghost nv = names.deep_view();
    let mut out: Vec<String> = Vec::new();
    let mut i: usize = 0;
    proof {
        assert(out.deep_view() =~= kept_jobsets(nv.take(0)));
    }
    while i < names.len()
        invariant
            0 <= i <= nv.len(),
            nv == names.deep_view(),
            out.deep_view().to_multiset() == kept_jobsets(nv.take(i as int)).to_multiset(),
            forall|k: int|
                0 <= k < out.deep_view().len() ==> keep_jobset(#[trigger] out.deep_view()[k]),
            forall|k: int|
                0 <= k < out.deep_view().len() - 1 ==> !lex_lt(
                    out.deep_view()[k + 1],
                    #[trigger] out.deep_view()[k],
                ),
        decreases nv.len() - i,
    {
        let ghost pre = out.deep_view();
        proof {
            assert(nv.take(i + 1).drop_last() =~= nv.take(i as int));
            assert(nv.take(i + 1).last() == nv[i as int]);
        }
        let name = &names[i];
        if keeps_jobset(name) {
            let mut p: usize = out.len();
            while p > 0
                invariant_except_break
                    0 <= p <= out.deep_view().len(),
                    nv == names.deep_view(),
                    i < nv.len(),
                    name@ == nv[i as int],
                    forall|t: int|
                        p <= t < out.deep_view().len() ==> lex_lt(
                            nv[i as int],
                            #[trigger] out.deep_view()[t],
                        ),
                ensures
                    0 <= p <= out.deep_view().len(),
                    forall|t: int|
                        p <= t < out.deep_view().len() ==> lex_lt(
                            nv[i as int],
                            #[trigger] out.deep_view()[t],
                        ),
                    p > 0 ==> !lex_lt(nv[i as int], out.deep_view()[p - 1]),
                decreases p,
            {
                proof {
                    assert(out.deep_view()[p - 1] == out@[p - 1]@);
                }
                if !str_lt(name.as_str(), out[p - 1].as_str()) {
                    break;
                }
                p -= 1;
            }
            let ghost pos = p as int;
            let ghost vpre = out@;
            let item = name.clone();
            proof {
                assert(item@ == nv[i as int]);
            }
            out.insert(p, item);
            proof {
                assert(out.deep_view() =~= pre.insert(pos, nv[i as int])) by {
                    assert forall|t: int| 0 <= t < out.deep_view().len() implies out.deep_view()[t]
                        == pre.insert(pos, nv[i as int])[t] by {
                        assert(out.deep_view()[t] == out@[t]@);
                        if t < pos {
                            assert(out@[t] == vpre[t]);
                            assert(pre[t] == vpre[t]@);
                        } else if t > pos {
                            assert(out@[t] == vpre[t - 1]);
                            assert(pre[t - 1] == vpre[t - 1]@);
                        }
                    }
                }
                vstd::seq_lib::to_multiset_insert(pre, pos, nv[i as int]);
                vstd::seq_lib::to_multiset_build(kept_jobsets(nv.take(i as int)), nv[i as int]);
                reveal_with_fuel(Seq::filter, 2);
                assert(kept_jobsets(nv.take(i + 1)) == kept_jobsets(nv.take(i as int)).push(
                    nv[i as int],
                ));
                assert(out.deep_view().to_multiset() == kept_jobsets(nv.take(i + 1)).to_multiset());
                assert forall|k: int| 0 <= k < out.deep_view().len() - 1 implies !lex_lt(
                    out.deep_view()[k + 1],
                    #[trigger] out.deep_view()[k],
                ) by {
                    let dv = out.deep_view();
                    if k + 1 < pos {
                        assert(dv[k] == pre[k] && dv[k + 1] == pre[k + 1]);
                    } else if k + 1 == pos {
                        assert(dv[k] == pre[k] && dv[pos] == nv[i as int]);
                        if k == pos - 1 && pos >= 1 {
                            assert(!lex_lt(nv[i as int], pre[pos - 1]));
                            lemma_lex_asym(pre[pos - 1], nv[i as int]);
                            if lex_lt(nv[i as int], pre[pos - 1]) {
                                assert(false);
                            }
                        }
                    } else if k == pos {
                        assert(dv[pos] == nv[i as int] && dv[k + 1] == pre[k]);
                        assert(lex_lt(nv[i as int], pre[k]));
                        lemma_lex_asym(nv[i as int], pre[k]);
                    } else {
                        assert(dv[k] == pre[k - 1] && dv[k + 1] == pre[k]);
                    }
                }
            }
        } else {
            proof {
                reveal_with_fuel(Seq::filter, 2);
                assert(kept_jobsets(nv.take(i + 1)) == kept_jobsets(nv.take(i as int)));
            }
        }
        i += 1;
    }
    proof {
        assert(nv.take(i as int) =~= nv);
    }
    out
}

/// The alphabetically first name that holds `needle`, if any does.
pub fn least_containing(names: &Vec<String>, needle: &str) -> (r: Option<String>)
    ensures
        match r {
            Some(x) => {
                &&& contains_sub(x@, needle@)
                &&& exists|j: int|
                    0 <= j < names.deep_view().len() && #[trigger] names.deep_view()[j] == x@
                &&& forall|j: int|
                    0 <= j < names.deep_view().len() && contains_sub(
                        #[trigger] names.deep_view()[j],
                        needle@,
                    ) ==> !lex_lt(names.deep_view()[j], x@)
            },
            None => forall|j: int|
                0 <= j < names.deep_view().len() ==> !contains_sub(
                    #[trigger] names.deep_view()[j],
                    needle@,
                ),
        },
{
    let ghost nv = names.deep_view();
    let mut best: Option<usize> = None;
    let mut i: usize = 0;
    while i < names.len()
        invariant
            0 <= i <= nv.len(),
            nv == names.deep_view(),
            match best {
                Some(b) => {
                    &&& 0 <= b < i
                    &&& contains_sub(nv[b as int], needle@)
                    &&& forall|j: int|
                        0 <= j < i && contains_sub(#[trigger] nv[j], needle@) ==> !lex_lt(
                            nv[j],
                            nv[b as int],
                        )
                },
                None => forall|j: int| 0 <= j < i ==> !contains_sub(#[trigger] nv[j], needle@),
            },
        decreases nv.len() - i,
    {
        if contains_str(names[i].as_str(), needle) {
            match best {
                Some(b) => {
                    if str_lt(names[i].as_str(), names[b].as_str()) {
                        proof {
                            assert forall|j: int|
                                0 <= j < i + 1 && contains_sub(
                                    #[trigger] nv[j],
                                    needle@,
                                ) implies !lex_lt(nv[j], nv[i as int]) by {
                                if j < i {
                                    assert(!lex_lt(nv[j], nv[b as int]));
                                    lemma_lex_trans_helper(nv[j], nv[b as int], nv[i as int]);
                                } else {
                                    lemma_lex_asym(nv[i as int], nv[i as int]);
                                }
                            }
                        }
                        best = Some(i);
                    } else {
                        proof {
                            lemma_lex_asym(nv[b as int], nv[i as int]);
                        }
                    }
                },
                None => {
                    proof {
                        lemma_lex_asym(nv[i as int], nv[i as int]);
                    }
                    best = Some(i);
                },
            }
        }
        i += 1;
    }
    match best {
        Some(b) => Some(names[b].clone()),
        None => None,
    }
}

/// When `a` is no smaller than `b` and `c` is smaller than `b`, then `a` is
/// no smaller than `c` either: what one needs to carry a running minimum.
proof fn lemma_lex_trans_helper(a: Seq<char>, b: Seq<char>, c: Seq<char>)
    requires
        !lex_lt(a, b),
        lex_lt(c, b),
    ensures
        !lex_lt(a, c),
{
    if lex_lt(a, c) {
        lemma_lex_trans(a, c, b);
    }
}

/// The lexicographic order is transitive.
proof fn lemma_lex_trans(a: Seq<char>, b: Seq<char>, c: Seq<char>)
    requires
        lex_lt(a, b),
        lex_lt(b, c),
    ensures
        lex_lt(a, c),
    decreases a.len(),
{
    if c.len() == 0 {
        assert(false);
    } else if b.len() == 0 {
        assert(false);
    } else if a.len() == 0 {
    } else {
        if a[0] != b[0] {
            if b[0] != c[0] {
                if a[0] == c[0] {
                    assert((a[0] as u32) < (b[0] as u32) && (b[0] as u32) < (c[0] as u32));
                }
            }
        } else {
            if b[0] != c[0] {
            } else {
                lemma_lex_trans(a.drop_first(), b.drop_first(), c.drop_first());
            }
        }
    }
}


} // verus!
