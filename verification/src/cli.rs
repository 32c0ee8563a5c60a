//! CLI token parsing: classifies process arguments into an input path and a
//! documentation profile, with exact error messages for every rejection.

use vstd::prelude::*;

use crate::profiles::{
    spec_profile_name, spec_selector_to_profile, spec_supported_selector_list,
    parse_profile_selector, profile_selector_name, supported_selector_list, PromptProfile,
};

verus! {

/// The parsed command line: one input path and the selected profile.
#[derive(Debug, PartialEq, Eq)]
pub struct CliArgs {
    pub file_path: String,
    pub profile: PromptProfile,
}

/// What parsing a token sequence yields: a selection, or a rejection with
/// its message.
pub enum ParseOutcome {
    Parsed { path: Seq<char>, profile: PromptProfile },
    Rejected { message: Seq<char> },
}

pub open spec fn missing_executable_message() -> Seq<char> {
    "[ERR] - Missing executable name."@
}

pub open spec fn missing_path_message() -> Seq<char> {
    "[ERR] - Missing required notebook path argument."@
}

pub open spec fn conflict_message(existing: PromptProfile, parsed: PromptProfile) -> Seq<char> {
    "[ERR] - Conflicting selectors: both '"@ + spec_profile_name(existing) + "' and '"@
        + spec_profile_name(parsed) + "' were provided."@
}

pub open spec fn unknown_selector_message(tok: Seq<char>) -> Seq<char> {
    "[ERR] - Unknown selector '"@ + tok + "'. Supported selectors: "@
        + spec_supported_selector_list() + "."@
}

pub open spec fn multiple_paths_message(first: Seq<char>, second: Seq<char>) -> Seq<char> {
    "[ERR] - Multiple input paths were provided: '"@ + first + "' and '"@ + second + "'."@
}

/// A token that looks like a selector flag: nonempty and dash-led.
pub open spec fn is_flag_token(tok: Seq<char>) -> bool {
    tok.len() > 0 && tok[0] == '-'
}

/// One scan step over the remaining tokens, carrying the selector and path
/// seen so far. Mirrors the left-to-right scan of the parser.
pub open spec fn spec_parse_tokens(
    toks: Seq<Seq<char>>,
    sel: Option<PromptProfile>,
    path: Option<Seq<char>>,
) -> ParseOutcome
    decreases toks.len(),
{
    if toks.len() == 0 {
        match path {
            None => ParseOutcome::Rejected { message: missing_path_message() },
            Some(p) => ParseOutcome::Parsed {
                path: p,
                profile: match sel {
                    None => PromptProfile::Default,
                    Some(s) => s,
                },
            },
        }
    } else {
        let tok = toks[0];
        match spec_selector_to_profile(tok) {
            Some(parsed) => {
                if sel is Some && sel->0 != parsed {
                    ParseOutcome::Rejected { message: conflict_message(sel->0, parsed) }
                } else {
                    spec_parse_tokens(toks.drop_first(), Some(parsed), path)
                }
            },
            None => {
                if is_flag_token(tok) {
                    ParseOutcome::Rejected { message: unknown_selector_message(tok) }
                } else {
                    match path {
                        Some(first) => ParseOutcome::Rejected {
                            message: multiple_paths_message(first, tok),
                        },
                        None => spec_parse_tokens(toks.drop_first(), sel, Some(tok)),
                    }
                }
            },
        }
    }
}

/// What parsing a full argument vector yields. The first token is the
/// program name and is ignored.
pub open spec fn spec_parse_cli(args: Seq<Seq<char>>) -> ParseOutcome {
    if args.len() == 0 {
        ParseOutcome::Rejected { message: missing_executable_message() }
    } else {
        spec_parse_tokens(args.skip(1), None, None)
    }
}

/// A token taken as the input path: not a recognized selector and not
/// dash-led.
pub open spec fn is_path_token(t: Seq<char>) -> bool {
    spec_selector_to_profile(t) is None && !is_flag_token(t)
}

/// The scan accepts a lone path among selector tokens of one profile,
/// whatever the order and however often the selector repeats.
proof fn lemma_parse_tokens_homogeneous(
    toks: Seq<Seq<char>>,
    cur: Option<PromptProfile>,
    path: Option<Seq<char>>,
    p: PromptProfile,
    ip: int,
)
    requires
        cur is Some ==> cur == Some(p),
        path is None ==> (0 <= ip < toks.len() && is_path_token(toks[ip]) && forall|k: int|
            0 <= k < toks.len() && k != ip ==> spec_selector_to_profile(#[trigger] toks[k])
                == Some(p)),
        path is Some ==> (ip == -1 && forall|k: int|
            0 <= k < toks.len() ==> spec_selector_to_profile(#[trigger] toks[k]) == Some(p)),
    ensures
        spec_parse_tokens(toks, cur, path) == (ParseOutcome::Parsed {
            path: if path is Some {
                path->0
            } else {
                toks[ip]
            },
            profile: if (path is None && toks.len() > 1) || (path is Some && toks.len() > 0)
                || cur is Some {
                p
            } else {
                PromptProfile::Default
            },
        }),
    decreases toks.len(),
{
    if toks.len() == 0 {
    } else {
        let t0 = toks[0];
        let rest = toks.drop_first();
        if path is None && ip == 0 {
            assert(is_path_token(t0));
            assert forall|k: int| 0 <= k < rest.len() implies spec_selector_to_profile(
                #[trigger] rest[k],
            ) == Some(p) by {
                assert(rest[k] == toks[k + 1]);
            }
            lemma_parse_tokens_homogeneous(rest, cur, Some(t0), p, -1);
        } else {
            assert(spec_selector_to_profile(t0) == Some(p));
            if path is None {
                assert(is_path_token(rest[ip - 1])) by {
                    assert(rest[ip - 1] == toks[ip]);
                }
                assert forall|k: int|
                    0 <= k < rest.len() && k != ip - 1 implies spec_selector_to_profile(
                    #[trigger] rest[k],
                ) == Some(p) by {
                    assert(rest[k] == toks[k + 1]);
                }
                lemma_parse_tokens_homogeneous(rest, Some(p), path, p, ip - 1);
            } else {
                assert forall|k: int| 0 <= k < rest.len() implies spec_selector_to_profile(
                    #[trigger] rest[k],
                ) == Some(p) by {
                    assert(rest[k] == toks[k + 1]);
                }
                lemma_parse_tokens_homogeneous(rest, Some(p), path, p, -1);
            }
        }
    }
}

/// For every argument vector holding exactly one path-like token and
/// otherwise only selector tokens of a single profile, parsing succeeds
/// with that path and that profile; with no selector token the default
/// profile is selected. In particular, repeated identical selector
/// tokens do not conflict.
pub proof fn lemma_parse_single_path(args: Seq<Seq<char>>, ip: int, sel: Option<PromptProfile>)
    requires
        args.len() >= 2,
        1 <= ip < args.len(),
        is_path_token(args[ip]),
        (match sel {
            None => args.len() == 2,
            Some(p) => args.len() >= 3 && forall|k: int|
                1 <= k < args.len() && k != ip ==> spec_selector_to_profile(#[trigger] args[k])
                    == Some(p),
        }),
    ensures
        spec_parse_cli(args) == (ParseOutcome::Parsed {
            path: args[ip],
            profile: match sel {
                None => PromptProfile::Default,
                Some(p) => p,
            },
        }),
{
    let toks = args.skip(1);
    assert(toks[ip - 1] == args[ip]);
    match sel {
        None => {
            lemma_parse_tokens_homogeneous(toks, None, None, PromptProfile::Default, ip - 1);
        },
        Some(p) => {
            assert forall|k: int|
                0 <= k < toks.len() && k != ip - 1 implies spec_selector_to_profile(
                #[trigger] toks[k],
            ) == Some(p) by {
                assert(toks[k] == args[k + 1]);
            }
            lemma_parse_tokens_homogeneous(toks, None, None, p, ip - 1);
        },
    }
}

/// The scan rejects with a conflict message once tokens of two different
/// profiles stand among recognized selectors and at most one path.
proof fn lemma_parse_tokens_conflict(
    toks: Seq<Seq<char>>,
    cur: Option<PromptProfile>,
    path: Option<Seq<char>>,
)
    requires
        forall|k: int|
            0 <= k < toks.len() ==> (spec_selector_to_profile(#[trigger] toks[k]) is Some
                || is_path_token(toks[k])),
        path is Some ==> forall|k: int| 0 <= k < toks.len() ==> !is_path_token(#[trigger] toks[k]),
        forall|k: int, l: int|
            #![trigger toks[k], toks[l]]
            0 <= k < l < toks.len() ==> !(is_path_token(toks[k]) && is_path_token(toks[l])),
        (match cur {
            Some(c) => exists|k: int|
                #![trigger toks[k]]
                0 <= k < toks.len() && spec_selector_to_profile(toks[k]) is Some
                    && spec_selector_to_profile(toks[k]) != Some(c),
            None => exists|k: int, l: int|
                #![trigger toks[k], toks[l]]
                0 <= k < toks.len() && 0 <= l < toks.len() && spec_selector_to_profile(
                    toks[k],
                ) is Some && spec_selector_to_profile(toks[l]) is Some
                    && spec_selector_to_profile(toks[k]) != spec_selector_to_profile(toks[l]),
        }),
    ensures
        exists|p1: PromptProfile, p2: PromptProfile|
            p1 != p2 && spec_parse_tokens(toks, cur, path) == (ParseOutcome::Rejected {
                message: conflict_message(p1, p2),
            }),
    decreases toks.len(),
{
    if toks.len() == 0 {
        match cur {
            Some(c) => {
                let k = choose|k: int|
                    #![trigger toks[k]]
                    0 <= k < toks.len() && spec_selector_to_profile(toks[k]) is Some
                        && spec_selector_to_profile(toks[k]) != Some(c);
                assert(false);
            },
            None => {
                let (k, l) = choose|k: int, l: int|
                    #![trigger toks[k], toks[l]]
                    0 <= k < toks.len() && 0 <= l < toks.len() && spec_selector_to_profile(
                        toks[k],
                    ) is Some && spec_selector_to_profile(toks[l]) is Some
                        && spec_selector_to_profile(toks[k]) != spec_selector_to_profile(toks[l]);
                assert(false);
            },
        }
    } else {
        let t0 = toks[0];
        let rest = toks.drop_first();
        assert forall|k: int|
            0 <= k < rest.len() implies (spec_selector_to_profile(#[trigger] rest[k]) is Some
            || is_path_token(rest[k])) by {
            assert(rest[k] == toks[k + 1]);
        }
        assert forall|k: int, l: int|
            #![trigger rest[k], rest[l]]
            0 <= k < l < rest.len() implies !(is_path_token(rest[k]) && is_path_token(
            rest[l],
        )) by {
            assert(rest[k] == toks[k + 1]);
            assert(rest[l] == toks[l + 1]);
        }
        match spec_selector_to_profile(t0) {
            Some(pr) => {
                match cur {
                    Some(c) => {
                        if pr != c {
                            assert(spec_parse_tokens(toks, cur, path) == (ParseOutcome::Rejected {
                                message: conflict_message(c, pr),
                            }));
                        } else {
                            let k = choose|k: int|
                                #![trigger toks[k]]
                                0 <= k < toks.len() && spec_selector_to_profile(toks[k]) is Some
                                    && spec_selector_to_profile(toks[k]) != Some(c);
                            assert(k != 0);
                            assert(rest[k - 1] == toks[k]);
                            lemma_parse_tokens_conflict(rest, Some(pr), path);
                        }
                    },
                    None => {
                        let (k, l) = choose|k: int, l: int|
                            #![trigger toks[k], toks[l]]
                            0 <= k < toks.len() && 0 <= l < toks.len() && spec_selector_to_profile(
                                toks[k],
                            ) is Some && spec_selector_to_profile(toks[l]) is Some
                                && spec_selector_to_profile(toks[k]) != spec_selector_to_profile(
                                toks[l],
                            );
                        let m = if spec_selector_to_profile(toks[k]) != Some(pr) {
                            k
                        } else {
                            l
                        };
                        assert(spec_selector_to_profile(toks[m]) != Some(pr));
                        assert(m != 0);
                        assert(rest[m - 1] == toks[m]);
                        lemma_parse_tokens_conflict(rest, Some(pr), path);
                    },
                }
            },
            None => {
                assert(is_path_token(t0));
                if path is Some {
                    assert(!is_path_token(toks[0]));
                    assert(false);
                } else {
                    assert forall|k: int| 0 <= k < rest.len() implies !is_path_token(
                        #[trigger] rest[k],
                    ) by {
                        assert(rest[k] == toks[k + 1]);
                    }
                    match cur {
                        Some(c) => {
                            let k = choose|k: int|
                                #![trigger toks[k]]
                                0 <= k < toks.len() && spec_selector_to_profile(toks[k]) is Some
                                    && spec_selector_to_profile(toks[k]) != Some(c);
                            assert(k != 0);
                            assert(rest[k - 1] == toks[k]);
                        },
                        None => {
                            let (k, l) = choose|k: int, l: int|
                                #![trigger toks[k], toks[l]]
                                0 <= k < toks.len() && 0 <= l < toks.len()
                                    && spec_selector_to_profile(toks[k]) is Some
                                    && spec_selector_to_profile(toks[l]) is Some
                                    && spec_selector_to_profile(toks[k])
                                    != spec_selector_to_profile(toks[l]);
                            assert(k != 0 && l != 0);
                            assert(rest[k - 1] == toks[k]);
                            assert(rest[l - 1] == toks[l]);
                        },
                    }
                    lemma_parse_tokens_conflict(rest, cur, Some(t0));
                }
            },
        }
    }
}

/// For every argument vector of recognized selector tokens and at most
/// one path-like token, two selector tokens of different profiles make
/// parsing fail with a conflict message.
pub proof fn lemma_parse_conflicting_selectors(args: Seq<Seq<char>>, k: int, l: int)
    requires
        args.len() >= 1,
        forall|m: int|
            1 <= m < args.len() ==> (spec_selector_to_profile(#[trigger] args[m]) is Some
                || is_path_token(args[m])),
        forall|m: int, n: int|
            #![trigger args[m], args[n]]
            1 <= m < n < args.len() ==> !(is_path_token(args[m]) && is_path_token(args[n])),
        1 <= k < args.len(),
        1 <= l < args.len(),
        spec_selector_to_profile(args[k]) is Some,
        spec_selector_to_profile(args[l]) is Some,
        spec_selector_to_profile(args[k]) != spec_selector_to_profile(args[l]),
    ensures
        exists|p1: PromptProfile, p2: PromptProfile|
            p1 != p2 && spec_parse_cli(args) == (ParseOutcome::Rejected {
                message: conflict_message(p1, p2),
            }),
{
    let toks = args.skip(1);
    assert forall|m: int|
        0 <= m < toks.len() implies (spec_selector_to_profile(#[trigger] toks[m]) is Some
        || is_path_token(toks[m])) by {
        assert(toks[m] == args[m + 1]);
    }
    assert forall|m: int, n: int|
        #![trigger toks[m], toks[n]]
        0 <= m < n < toks.len() implies !(is_path_token(toks[m]) && is_path_token(toks[n])) by {
        assert(toks[m] == args[m + 1]);
        assert(toks[n] == args[n + 1]);
    }
    assert(toks[k - 1] == args[k]);
    assert(toks[l - 1] == args[l]);
    lemma_parse_tokens_conflict(toks, None, None);
}

/// The view of an optional owned path.
pub open spec fn view_opt_string(p: Option<String>) -> Option<Seq<char>> {
    match p {
        None => None,
        Some(s) => Some(s@),
    }
}

/// Parses raw process arguments into a `CliArgs`, or rejects them with the
/// exact message that `spec_parse_cli` assigns.
pub fn parse_cli_args(args: &[String]) -> (r: Result<CliArgs, String>)
    ensures
        (match r {
            Ok(c) => spec_parse_cli(args.deep_view()) == (ParseOutcome::Parsed {
                path: c.file_path@,
                profile: c.profile,
            }),
            Err(m) => spec_parse_cli(args.deep_view()) == (ParseOutcome::Rejected {
                message: m@,
            }),
        }),
{
    if args.len() == 0 {
        return Err(String::from_str("[ERR] - Missing executable name."));
    }

    let ghost all = args.deep_view();
    let mut selector: Option<PromptProfile> = None;
    let mut file_path: Option<String> = None;
    let mut i: usize = 1;

    while i < args.len()
        invariant
            1 <= i <= args@.len(),
            all == args.deep_view(),
            all.len() == args@.len(),
            spec_parse_tokens(all.skip(1), None, None) == spec_parse_tokens(
                all.skip(i as int),
                selector,
                view_opt_string(file_path),
            ),
        decreases args@.len() - i,
    {
        proof {
            assert(all[i as int] == args@[i as int]@);
            assert(all.skip(i as int)[0] == all[i as int]);
            assert(all.skip(i as int).drop_first() =~= all.skip(i as int + 1));
        }
        let arg = &args[i];
        match parse_profile_selector(arg.as_str()) {
            Some(parsed) => {
                match selector {
                    Some(existing) => {
                        if existing != parsed {
                            let mut m = String::from_str(
                                "[ERR] - Conflicting selectors: both '",
                            );
                            let existing_name = profile_selector_name(existing);
                            m.append(existing_name.as_str());
                            m.append("' and '");
                            let parsed_name = profile_selector_name(parsed);
                            m.append(parsed_name.as_str());
                            m.append("' were provided.");
                            proof {
                                assert(m@ =~= conflict_message(existing, parsed));
                            }
                            return Err(m);
                        }
                        selector = Some(parsed);
                    },
                    None => {
                        selector = Some(parsed);
                    },
                }
            },
            None => {
                let flagged = arg.as_str().unicode_len() > 0 && arg.as_str().get_char(0) == '-';
                if flagged {
                    let mut m = String::from_str("[ERR] - Unknown selector '");
                    m.append(arg.as_str());
                    m.append("'. Supported selectors: ");
                    let supported = supported_selector_list();
                    m.append(supported.as_str());
                    m.append(".");
                    proof {
                        assert(m@ =~= unknown_selector_message(all[i as int]));
                    }
                    return Err(m);
                }
                match &file_path {
                    Some(existing_path) => {
                        let mut m = String::from_str(
                            "[ERR] - Multiple input paths were provided: '",
                        );
                        m.append(existing_path.as_str());
                        m.append("' and '");
                        m.append(arg.as_str());
                        m.append("'.");
                        proof {
                            assert(m@ =~= multiple_paths_message(
                                existing_path@,
                                all[i as int],
                            ));
                        }
                        return Err(m);
                    },
                    None => {
                        file_path = Some(arg.clone());
                    },
                }
            },
        }
        i += 1;
    }

    proof {
        assert(all.skip(args@.len() as int) =~= Seq::<Seq<char>>::empty());
    }

    let profile = match selector {
        Some(s) => s,
        None => PromptProfile::Default,
    };
    match file_path {
        Some(path) => Ok(CliArgs { file_path: path, profile }),
        None => Err(String::from_str("[ERR] - Missing required notebook path argument.")),
    }
}

} // verus!
