//! Query construction and relevance rules. A raw query string is split on
//! spaces; each term contributes boosted sub-queries whose weights (held in
//! thousandths) fall off by a tenth per position, exactly as the plan spec
//! functions below say. Beyond the tenth term the fall-off turns the weight
//! negative and inverts that contribution's sign; that sharp edge is kept
//! as it stands. The identifier-based score factor of the option ranking
//! lives here too.

use vstd::prelude::*;

use crate::store::{
    clause_of, q_boost, q_const, q_fuzzy, q_fuzzy_prefix, q_or, q_phrase, q_regex, q_term,
    regex_accepts, Clause, OpaqueQuery, TextIndex,
};
use crate::strutil::{
    contains_char, contains_str, contains_sub, ends_with_str, is_prefix, is_suffix,
    lemma_split_on_len, seq_contains_char, split_on, split_str, starts_with_str,
};

verus! {

use vstd::string::StringExecFns;

/// The byte length of a text in its encoded form, the length the fuzziness
/// rules measure.
pub open spec fn byte_len(s: Seq<char>) -> int {
    vstd::utf8::encode_utf8(s).len() as int
}

/// The edit distance the name-field fuzzy match of a term allows: none for
/// short terms, up to two for terms of four bytes and more.
pub open spec fn fuzzy_distance(n: int) -> int {
    if n < 2 {
        0
    } else if n > 4 {
        2
    } else {
        n - 2
    }
}

/// The score factor, in thousandths, the option ranking applies to a matched
/// identifier: raised for the reserved organizational namespace, raised for
/// concrete `enable` switches, lowered for umbrella `roles` toggles.
pub open spec fn option_factor_permille(id: Seq<char>) -> int {
    let f1: int = if is_prefix("flyingcircus"@, id) {
        1300
    } else {
        1000
    };
    let f2: int = if is_suffix("enable"@, id) {
        f1 * 105 / 100
    } else {
        f1
    };
    if contains_sub(id, "roles"@) {
        f2 * 8 / 10
    } else {
        f2
    }
}

/// Computes `option_factor_permille` for one identifier.
pub fn option_score_permille(id: &str) -> (r: u32)
    ensures
        r as int == option_factor_permille(id@),
{
    let mut f: u32 = 1000;
    if starts_with_str(id, "flyingcircus") {
        f = 1300;
    }
    if ends_with_str(id, "enable") {
        f = f * 105 / 100;
    }
    if contains_str(id, "roles") {
        f = f * 8 / 10;
    }
    f
}

/// The name-field sub-queries of the options term at position `i`: a phrase
/// plus per-segment fuzzy matches when the term is a dotted path, an exact
/// term match otherwise; and always a fuzzy prefix match at full weight.
pub open spec fn option_name_clauses(
    t: Seq<char>,
    i: int,
    f_name: tantivy::schema::Field,
) -> Seq<Clause> {
    let main: Seq<Clause> = if seq_contains_char(t, '.') {
        let sub = split_on(t, '.');
        seq![
            Clause::Boost {
                inner: Box::new(Clause::Phrase { field: f_name, words: sub }),
                permille: 1500 - 150 * i,
            },
            Clause::Boost {
                inner: Box::new(
                    Clause::Or {
                        parts: sub.map_values(
                            |p: Seq<char>|
                                Clause::FuzzyPrefix {
                                    field: f_name,
                                    text: p,
                                    distance: 0,
                                    transpose: false,
                                },
                        ),
                    },
                ),
                permille: 3000 - 300 * i,
            },
        ]
    } else {
        seq![
            Clause::Boost {
                inner: Box::new(Clause::Term { field: f_name, text: t }),
                permille: 1500 - 150 * i,
            },
        ]
    };
    main.push(
        Clause::Boost {
            inner: Box::new(
                Clause::FuzzyPrefix {
                    field: f_name,
                    text: t,
                    distance: fuzzy_distance(byte_len(t)),
                    transpose: true,
                },
            ),
            permille: 2200,
        },
    )
}

/// The description-field sub-queries of the options term at position `i`: an
/// exact match at fixed (decayed) score, and for terms of three bytes or
/// more a one-edit fuzzy match at half that score.
pub open spec fn option_desc_clauses(
    t: Seq<char>,
    i: int,
    f_desc: tantivy::schema::Field,
) -> Seq<Clause> {
    let base: Seq<Clause> = seq![
        Clause::Const {
            inner: Box::new(Clause::Term { field: f_desc, text: t }),
            permille: 500 - 100 * i,
        },
    ];
    if byte_len(t) >= 3 {
        base.push(
            Clause::Const {
                inner: Box::new(
                    Clause::FuzzyPrefix { field: f_desc, text: t, distance: 1, transpose: false },
                ),
                permille: 250 - 50 * i,
            },
        )
    } else {
        base
    }
}

pub open spec fn cat_option_name_clauses(
    terms: Seq<Seq<char>>,
    f_name: tantivy::schema::Field,
) -> Seq<Clause>
    decreases terms.len(),
{
    if terms.len() == 0 {
        Seq::empty()
    } else {
        cat_option_name_clauses(terms.drop_last(), f_name) + option_name_clauses(
            terms.last(),
            terms.len() - 1,
            f_name,
        )
    }
}

pub open spec fn cat_option_desc_clauses(
    terms: Seq<Seq<char>>,
    f_desc: tantivy::schema::Field,
) -> Seq<Clause>
    decreases terms.len(),
{
    if terms.len() == 0 {
        Seq::empty()
    } else {
        cat_option_desc_clauses(terms.drop_last(), f_desc) + option_desc_clauses(
            terms.last(),
            terms.len() - 1,
            f_desc,
        )
    }
}

/// The composed options query for the raw query string `q`: every name-field
/// sub-query of every term, then the description-field sub-queries gathered
/// under one outer weight, all combined by or.
pub open spec fn options_plan(
    q: Seq<char>,
    f_name: tantivy::schema::Field,
    f_desc: tantivy::schema::Field,
) -> Clause {
    let terms = split_on(q, ' ');
    Clause::Or {
        parts: cat_option_name_clauses(terms, f_name).push(
            Clause::Boost {
                inner: Box::new(Clause::Or { parts: cat_option_desc_clauses(terms, f_desc) }),
                permille: 200,
            },
        ),
    }
}

/// Builds the composed options query of `q` against the store's fields.
pub fn build_options_query(ix: &TextIndex, q: &str) -> (r: OpaqueQuery)
    ensures
        clause_of(r) == options_plan(q@, ix.name_field(), ix.desc_field()),
{
    let terms = split_str(q, ' ');
    let ghost tv = terms.deep_view();
    let f_name = crate::store::get_name_field(ix);
    let f_desc = crate::store::get_desc_field(ix);

    let mut subs: Vec<OpaqueQuery> = Vec::new();
    let mut i: usize = 0;
    proof {
        assert(tv.take(0) =~= Seq::<Seq<char>>::empty());
        assert(subs@.map_values(|p: OpaqueQuery| clause_of(p)) =~= cat_option_name_clauses(
            tv.take(0),
            f_name,
        ));
    }
    while i < terms.len()
        invariant
            0 <= i <= terms@.len(),
            tv == terms.deep_view(),
            subs@.map_values(|p: OpaqueQuery| clause_of(p)) == cat_option_name_clauses(
                tv.take(i as int),
                f_name,
            ),
        decreases terms@.len() - i,
    {
        let t = &terms[i];
        let ghost pre = subs@.map_values(|p: OpaqueQuery| clause_of(p));
        if contains_char(t.as_str(), '.') {
            let sub_terms = split_str(t.as_str(), '.');
            proof {
                lemma_split_on_len(t@, '.');
            }
            let phrase = q_phrase(f_name, &sub_terms);
            subs.push(q_boost(phrase, 1500 - 150 * (i as i128)));
            let mut fz: Vec<OpaqueQuery> = Vec::new();
            let mut j: usize = 0;
            proof {
                let fz_map = sub_terms.deep_view().map_values(
                    |p: Seq<char>|
                        Clause::FuzzyPrefix {
                            field: f_name,
                            text: p,
                            distance: 0,
                            transpose: false,
                        },
                );
                assert(fz@.map_values(|p: OpaqueQuery| clause_of(p)) =~= fz_map.take(0));
            }
            while j < sub_terms.len()
                invariant
                    0 <= j <= sub_terms@.len(),
                    fz@.map_values(|p: OpaqueQuery| clause_of(p)) == sub_terms.deep_view()
                        .map_values(
                        |p: Seq<char>|
                            Clause::FuzzyPrefix {
                                field: f_name,
                                text: p,
                                distance: 0,
                                transpose: false,
                            },
                    ).take(j as int),
                decreases sub_terms@.len() - j,
            {
                let ghost fz_pre = fz@.map_values(|p: OpaqueQuery| clause_of(p));
                fz.push(q_fuzzy_prefix(f_name, sub_terms[j].as_str(), 0, false));
                proof {
                    let fz_map = sub_terms.deep_view().map_values(
                        |p: Seq<char>|
                            Clause::FuzzyPrefix {
                                field: f_name,
                                text: p,
                                distance: 0,
                                transpose: false,
                            },
                    );
                    assert(fz@.map_values(|p: OpaqueQuery| clause_of(p)) =~= fz_pre.push(
                        fz_map[j as int],
                    ));
                    assert(fz@.map_values(|p: OpaqueQuery| clause_of(p)) =~= fz_map.take(j + 1));
                }
                j += 1;
            }
            proof {
                let fz_map = sub_terms.deep_view().map_values(
                    |p: Seq<char>|
                        Clause::FuzzyPrefix {
                            field: f_name,
                            text: p,
                            distance: 0,
                            transpose: false,
                        },
                );
                assert(fz_map.take(j as int) =~= fz_map);
                assert(split_on(t@, '.').map_values(
                    |p: Seq<char>|
                        Clause::FuzzyPrefix {
                            field: f_name,
                            text: p,
                            distance: 0,
                            transpose: false,
                        },
                ) =~= fz_map);
            }
            let fz_group = q_or(fz);
            subs.push(q_boost(fz_group, 3000 - 300 * (i as i128)));
        } else {
            let term = q_term(f_name, t.as_str());
            subs.push(q_boost(term, 1500 - 150 * (i as i128)));
        }
        let bl = crate::strutil::byte_len_of(t.as_str());
        let dist: u8 = if bl < 2 {
            0
        } else if bl > 4 {
            2
        } else {
            (bl - 2) as u8
        };
        let fuzzy = q_fuzzy_prefix(f_name, t.as_str(), dist, true);
        subs.push(q_boost(fuzzy, 2200));
        proof {
            assert(tv.take(i + 1).drop_last() =~= tv.take(i as int));
            assert(tv.take(i + 1).last() == tv[i as int]);
            assert(subs@.map_values(|p: OpaqueQuery| clause_of(p)) =~~= pre + option_name_clauses(
                tv[i as int],
                i as int,
                f_name,
            ));
        }
        i += 1;
    }
    proof {
        assert(tv.take(i as int) =~= tv);
    }

    let mut descs: Vec<OpaqueQuery> = Vec::new();
    let mut i2: usize = 0;
    proof {
        assert(descs@.map_values(|p: OpaqueQuery| clause_of(p)) =~= cat_option_desc_clauses(
            tv.take(0),
            f_desc,
        ));
    }
    while i2 < terms.len()
        invariant
            0 <= i2 <= terms@.len(),
            tv == terms.deep_view(),
            descs@.map_values(|p: OpaqueQuery| clause_of(p)) == cat_option_desc_clauses(
                tv.take(i2 as int),
                f_desc,
            ),
        decreases terms@.len() - i2,
    {
        let t = &terms[i2];
        let ghost pre = descs@.map_values(|p: OpaqueQuery| clause_of(p));
        let term = q_term(f_desc, t.as_str());
        descs.push(q_const(term, 500 - 100 * (i2 as i128)));
        if crate::strutil::byte_len_of(t.as_str()) >= 3 {
            let fq = q_fuzzy_prefix(f_desc, t.as_str(), 1, false);
            descs.push(q_const(fq, 250 - 50 * (i2 as i128)));
        }
        proof {
            assert(tv.take(i2 + 1).drop_last() =~= tv.take(i2 as int));
            assert(tv.take(i2 + 1).last() == tv[i2 as int]);
            assert(descs@.map_values(|p: OpaqueQuery| clause_of(p)) =~~= pre + option_desc_clauses(
                tv[i2 as int],
                i2 as int,
                f_desc,
            ));
        }
        i2 += 1;
    }
    proof {
        assert(tv.take(i2 as int) =~= tv);
    }
    let desc_group = q_or(descs);
    let mut parts = subs;
    parts.push(q_boost(desc_group, 200));
    let ghost parts_map = parts@.map_values(|p: OpaqueQuery| clause_of(p));
    proof {
        assert(parts_map =~~= cat_option_name_clauses(tv, f_name).push(
            Clause::Boost {
                inner: Box::new(Clause::Or { parts: cat_option_desc_clauses(tv, f_desc) }),
                permille: 200,
            },
        ));
    }
    q_or(parts)
}

/// The sub-queries of the packages term at position `i`: the identifier
/// field dominates (exact match at full weight, regex matches of the whole
/// query string, fuzzy prefix matches whose tolerance grows with length),
/// the description field is a weaker secondary signal.
pub open spec fn package_term_clauses(
    t: Seq<char>,
    i: int,
    q: Seq<char>,
    f_name: tantivy::schema::Field,
    f_desc: tantivy::schema::Field,
) -> Seq<Clause> {
    let infix = ".*"@ + q + ".*"@;
    let s1: Seq<Clause> = seq![
        Clause::Boost {
            inner: Box::new(Clause::Term { field: f_name, text: t }),
            permille: 1400,
        },
    ];
    let s2: Seq<Clause> = if regex_accepts(q) {
        s1.push(
            Clause::Boost {
                inner: Box::new(Clause::Regex { field: f_name, pattern: q }),
                permille: 1300 - 130 * i,
            },
        )
    } else {
        s1
    };
    let s3 = s2.push(
        Clause::Boost {
            inner: Box::new(
                Clause::FuzzyPrefix { field: f_name, text: t, distance: 1, transpose: true },
            ),
            permille: 1200 - 120 * i,
        },
    );
    let s4: Seq<Clause> = if regex_accepts(infix) {
        s3.push(
            Clause::Boost {
                inner: Box::new(Clause::Regex { field: f_name, pattern: infix }),
                permille: 1100 - 110 * i,
            },
        )
    } else {
        s3
    };
    let s5 = s4.push(
        Clause::Boost {
            inner: Box::new(Clause::Term { field: f_desc, text: t }),
            permille: 1000 - 100 * i,
        },
    );
    let s6 = s5.push(
        Clause::Boost {
            inner: Box::new(
                Clause::FuzzyPrefix { field: f_name, text: t, distance: 2, transpose: true },
            ),
            permille: 900 - 90 * i,
        },
    );
    s6.push(
        Clause::Boost {
            inner: Box::new(
                Clause::Fuzzy { field: f_desc, text: t, distance: 1, transpose: true },
            ),
            permille: 1000 - 100 * i,
        },
    )
}

pub open spec fn cat_package_clauses(
    terms: Seq<Seq<char>>,
    q: Seq<char>,
    f_name: tantivy::schema::Field,
    f_desc: tantivy::schema::Field,
) -> Seq<Clause>
    decreases terms.len(),
{
    if terms.len() == 0 {
        Seq::empty()
    } else {
        cat_package_clauses(terms.drop_last(), q, f_name, f_desc) + package_term_clauses(
            terms.last(),
            terms.len() - 1,
            q,
            f_name,
            f_desc,
        )
    }
}

/// The composed packages query for the raw query string `q`.
pub open spec fn packages_plan(
    q: Seq<char>,
    f_name: tantivy::schema::Field,
    f_desc: tantivy::schema::Field,
) -> Clause {
    Clause::Or { parts: cat_package_clauses(split_on(q, ' '), q, f_name, f_desc) }
}

/// Builds the composed packages query of `q` against the store's fields.
pub fn build_packages_query(ix: &TextIndex, q: &str) -> (r: OpaqueQuery)
    ensures
        clause_of(r) == packages_plan(q@, ix.name_field(), ix.desc_field()),
{
    let terms = split_str(q, ' ');
    let ghost tv = terms.deep_view();
    let f_name = crate::store::get_name_field(ix);
    let f_desc = crate::store::get_desc_field(ix);
    let mut infix = String::from_str(".*");
    infix.append(q);
    infix.append(".*");
    proof {
        assert(infix@ == ".*"@ + q@ + ".*"@);
    }

    let mut subs: Vec<OpaqueQuery> = Vec::new();
    let mut i: usize = 0;
    proof {
        assert(tv.take(0) =~= Seq::<Seq<char>>::empty());
        assert(subs@.map_values(|p: OpaqueQuery| clause_of(p)) =~= cat_package_clauses(
            tv.take(0),
            q@,
            f_name,
            f_desc,
        ));
    }
    while i < terms.len()
        invariant
            0 <= i <= terms@.len(),
            tv == terms.deep_view(),
            infix@ == ".*"@ + q@ + ".*"@,
            subs@.map_values(|p: OpaqueQuery| clause_of(p)) == cat_package_clauses(
                tv.take(i as int),
                q@,
                f_name,
                f_desc,
            ),
        decreases terms@.len() - i,
    {
        let t = &terms[i];
        let ghost pre = subs@.map_values(|p: OpaqueQuery| clause_of(p));
        subs.push(q_boost(q_term(f_name, t.as_str()), 1400));
        match q_regex(f_name, q) {
            Some(rq) => {
                subs.push(q_boost(rq, 1300 - 130 * (i as i128)));
            },
            None => {},
        }
        subs.push(q_boost(q_fuzzy_prefix(f_name, t.as_str(), 1, true), 1200 - 120 * (i as i128)));
        match q_regex(f_name, infix.as_str()) {
            Some(rq) => {
                subs.push(q_boost(rq, 1100 - 110 * (i as i128)));
            },
            None => {},
        }
        subs.push(q_boost(q_term(f_desc, t.as_str()), 1000 - 100 * (i as i128)));
        subs.push(q_boost(q_fuzzy_prefix(f_name, t.as_str(), 2, true), 900 - 90 * (i as i128)));
        subs.push(q_boost(q_fuzzy(f_desc, t.as_str(), 1, true), 1000 - 100 * (i as i128)));
        proof {
            assert(tv.take(i + 1).drop_last() =~= tv.take(i as int));
            assert(tv.take(i + 1).last() == tv[i as int]);
            assert(subs@.map_values(|p: OpaqueQuery| clause_of(p)) =~~= pre + package_term_clauses(
                tv[i as int],
                i as int,
                q@,
                f_name,
                f_desc,
            ));
        }
        i += 1;
    }
    proof {
        assert(tv.take(i as int) =~= tv);
    }
    q_or(subs)
}

} // verus!
