//! The argument normalizer: flattens the raw conditional argument list into
//! launch-ready arguments, in two passes. Activation keeps the tokens whose
//! rule lists pass (bare tokens always pass); shape inference then classifies
//! each activated token as `Single`, `Eq` or `Pair` by a one-token lookahead.

use vstd::prelude::*;
use vstd::string::{StrSliceExecFns, StringExecFns};

use crate::component::{ArgModel, Argument};
use crate::rules::{check, eval_rules, Platform};
use crate::text::{find_char, lemma_find_char_bounds, str_find_char, substring};

verus! {

/// The tokens one raw argument contributes: a bare token always, a guarded
/// token (or token list) only when its rule list evaluates true.
pub open spec fn raw_tokens(
    arg: crate::version::Argument,
    os_name: Seq<char>,
    os_arch: Seq<char>,
) -> Seq<Seq<char>> {
    match arg {
        crate::version::Argument::Basic(v) => seq![v@],
        crate::version::Argument::Conditional { rules, value } => {
            if eval_rules(rules@, os_name, os_arch) {
                match value {
                    crate::version::ArgumentValue::Single(v) => seq![v@],
                    crate::version::ArgumentValue::Multiple(vs) => vs.deep_view(),
                }
            } else {
                Seq::empty()
            }
        },
    }
}

/// Pass one: the activated token sequence of a raw argument list, in order.
pub open spec fn activated_tokens(
    args: Seq<crate::version::Argument>,
    os_name: Seq<char>,
    os_arch: Seq<char>,
) -> Seq<Seq<char>>
    decreases args.len(),
{
    if args.len() == 0 {
        Seq::empty()
    } else {
        raw_tokens(args.first(), os_name, os_arch) + activated_tokens(
            args.drop_first(),
            os_name,
            os_arch,
        )
    }
}

/// Pass two: classify the activated tokens. A token opening with the
/// placeholder sigil stays `Single`; one with an inner `=` splits once into
/// `Eq`; one followed by a sigil-opening token joins it as `Pair`; anything
/// else is `Single`. An empty token vanishes.
pub open spec fn shaped(toks: Seq<Seq<char>>) -> Seq<ArgModel>
    decreases toks.len(),
{
    if toks.len() == 0 {
        Seq::empty()
    } else {
        let t = toks.first();
        if t.len() == 0 {
            shaped(toks.drop_first())
        } else if t[0] == '$' {
            seq![ArgModel::Single(t)] + shaped(toks.drop_first())
        } else if find_char(t, '=', 0) is Some {
            let i = find_char(t, '=', 0)->Some_0;
            seq![ArgModel::Eq(t.subrange(0, i), t.subrange(i + 1, t.len() as int))] + shaped(
                toks.drop_first(),
            )
        } else if toks.len() >= 2 && toks[1].len() > 0 && toks[1][0] == '$' {
            seq![ArgModel::Pair(t, toks[1])] + shaped(toks.skip(2))
        } else {
            seq![ArgModel::Single(t)] + shaped(toks.drop_first())
        }
    }
}

/// The whole normalizer: activation, then shape inference.
pub open spec fn normalized(
    args: Seq<crate::version::Argument>,
    os_name: Seq<char>,
    os_arch: Seq<char>,
) -> Seq<ArgModel> {
    shaped(activated_tokens(args, os_name, os_arch))
}

/// Convert a raw conditional argument list into launch-ready arguments.
pub fn convert(arguments: Vec<crate::version::Argument>, platform: &Platform) -> (out: Vec<
    Argument,
>)
    ensures
        out.deep_view() == normalized(arguments@, platform.os_name@, platform.os_arch@),
{
    let ghost os_name = platform.os_name@;
    let ghost os_arch = platform.os_arch@;
    let ghost all = arguments@;
    let mut args = arguments;
    let mut active: Vec<String> = Vec::new();
    while args.len() > 0
        invariant
            activated_tokens(all, os_name, os_arch) == active.deep_view() + activated_tokens(
                args@,
                os_name,
                os_arch,
            ),
            os_name == platform.os_name@,
            os_arch == platform.os_arch@,
        decreases args@.len(),
    {
        let ghost before = args@;
        let ghost active_before = active.deep_view();
        let a = args.remove(0);
        let ghost av = a;
        proof {
            assert(before.drop_first() =~= args@);
            assert(activated_tokens(before, os_name, os_arch) == raw_tokens(av, os_name, os_arch)
                + activated_tokens(args@, os_name, os_arch));
        }
        match a {
            crate::version::Argument::Basic(v) => {
                let ghost vv = v@;
                active.push(v);
                proof {
                    assert(raw_tokens(av, os_name, os_arch) == seq![vv]);
                    assert(active.deep_view() =~= active_before.push(vv));
                    assert(active.deep_view() + activated_tokens(args@, os_name, os_arch)
                        =~= active_before + (seq![vv] + activated_tokens(args@, os_name, os_arch)));
                }
            },
            crate::version::Argument::Conditional { rules, value } => {
                if check(&rules, platform) {
                    match value {
                        crate::version::ArgumentValue::Single(v) => {
                            let ghost vv = v@;
                            active.push(v);
                            proof {
                                assert(raw_tokens(av, os_name, os_arch) == seq![vv]);
                                assert(active.deep_view() =~= active_before.push(vv));
                                assert(active.deep_view() + activated_tokens(
                                    args@,
                                    os_name,
                                    os_arch,
                                ) =~= active_before + (seq![vv] + activated_tokens(
                                    args@,
                                    os_name,
                                    os_arch,
                                )));
                            }
                        },
                        crate::version::ArgumentValue::Multiple(vs) => {
                            let ghost vs_all = vs.deep_view();
                            proof {
                                assert(raw_tokens(av, os_name, os_arch) == vs_all);
                            }
                            let mut vs = vs;
                            while vs.len() > 0
                                invariant
                                    active.deep_view() + vs.deep_view() == active_before + vs_all,
                                decreases vs@.len(),
                            {
                                let ghost vs_before = vs.deep_view();
                                let ghost mid = active.deep_view();
                                let v = vs.remove(0);
                                let ghost vv = v@;
                                active.push(v);
                                proof {
                                    assert(vs.deep_view() =~= vs_before.drop_first());
                                    assert(vs_before.first() == vv);
                                    assert(active.deep_view() =~= mid.push(vv));
                                    assert(active.deep_view() + vs.deep_view() =~= mid
                                        + vs_before);
                                }
                            }
                            proof {
                                assert(vs.deep_view() =~= Seq::<Seq<char>>::empty());
                                assert(active.deep_view() =~= active.deep_view() + vs.deep_view());
                                assert(active.deep_view() + activated_tokens(
                                    args@,
                                    os_name,
                                    os_arch,
                                ) =~= active_before + (vs_all + activated_tokens(
                                    args@,
                                    os_name,
                                    os_arch,
                                )));
                            }
                        },
                    }
                } else {
                    proof {
                        assert(raw_tokens(av, os_name, os_arch) =~= Seq::<Seq<char>>::empty());
                        assert(active.deep_view() + activated_tokens(args@, os_name, os_arch)
                            =~= active_before + (raw_tokens(av, os_name, os_arch)
                            + activated_tokens(args@, os_name, os_arch)));
                    }
                }
            },
        }
    }
    proof {
        assert(activated_tokens(args@, os_name, os_arch) =~= Seq::<Seq<char>>::empty());
        assert(active.deep_view() =~= active.deep_view() + activated_tokens(
            args@,
            os_name,
            os_arch,
        ));
    }
    shape_tokens(active)
}

/// Classify an activated token sequence, consuming it front to back with a
/// one-token lookahead for `Pair`.
fn shape_tokens(tokens: Vec<String>) -> (out: Vec<Argument>)
    ensures
        out.deep_view() == shaped(tokens.deep_view()),
{
    let ghost toks = tokens.deep_view();
    let mut active = tokens;
    let mut out: Vec<Argument> = Vec::new();
    while active.len() > 0
        invariant
            shaped(toks) == out.deep_view() + shaped(active.deep_view()),
        decreases active@.len(),
    {
        let ghost cur = active.deep_view();
        let ghost out_before = out.deep_view();
        let t = active.remove(0);
        let ghost tv = t@;
        proof {
            assert(active.deep_view() =~= cur.drop_first());
            assert(cur.first() == tv);
        }
        if t.as_str().is_empty() {
            proof {
                assert(shaped(cur) == shaped(active.deep_view()));
            }
        } else {
            let first = t.as_str().get_char(0);
            if first == '$' {
                out.push(Argument::Single(t));
                proof {
                    assert(out.deep_view() =~= out_before.push(ArgModel::Single(tv)));
                    assert(shaped(cur) == seq![ArgModel::Single(tv)] + shaped(active.deep_view()));
                    assert(out.deep_view() + shaped(active.deep_view()) =~= out_before + (seq![
                        ArgModel::Single(tv),
                    ] + shaped(active.deep_view())));
                }
            } else {
                let eq_pos = str_find_char(t.as_str(), '=');
                match eq_pos {
                    Some(i) => {
                        proof {
                            lemma_find_char_bounds(tv, '=', 0, i as int);
                        }
                        let n = t.as_str().unicode_len();
                        let key = substring(t.as_str(), 0, i);
                        let value = substring(t.as_str(), i + 1, n);
                        let ghost kv = key@;
                        let ghost vv = value@;
                        out.push(Argument::Eq(key, value));
                        proof {
                            assert(out.deep_view() =~= out_before.push(ArgModel::Eq(kv, vv)));
                            assert(shaped(cur) == seq![ArgModel::Eq(kv, vv)] + shaped(
                                active.deep_view(),
                            ));
                            assert(out.deep_view() + shaped(active.deep_view()) =~= out_before + (
                            seq![ArgModel::Eq(kv, vv)] + shaped(active.deep_view())));
                        }
                    },
                    None => {
                        let mut next_opens = false;
                        if active.len() > 0 {
                            let next = &active[0];
                            next_opens = !next.as_str().is_empty() && next.as_str().get_char(0)
                                == '$';
                            proof {
                                assert(active.deep_view()[0] == active@[0]@);
                                assert(cur[1] == active.deep_view()[0]);
                            }
                        }
                        if next_opens {
                            let ghost rest = active.deep_view();
                            let v = active.remove(0);
                            let ghost vv = v@;
                            out.push(Argument::Pair(t, v));
                            proof {
                                assert(active.deep_view() =~= rest.drop_first());
                                assert(rest.first() == vv);
                                assert(cur.skip(2) =~= active.deep_view());
                                assert(cur[1] == vv);
                                assert(out.deep_view() =~= out_before.push(ArgModel::Pair(tv, vv)));
                                assert(shaped(cur) == seq![ArgModel::Pair(tv, vv)] + shaped(
                                    active.deep_view(),
                                ));
                                assert(out.deep_view() + shaped(active.deep_view()) =~= out_before
                                    + (seq![ArgModel::Pair(tv, vv)] + shaped(active.deep_view())));
                            }
                        } else {
                            out.push(Argument::Single(t));
                            proof {
                                assert(out.deep_view() =~= out_before.push(ArgModel::Single(tv)));
                                assert(shaped(cur) == seq![ArgModel::Single(tv)] + shaped(
                                    active.deep_view(),
                                ));
                                assert(out.deep_view() + shaped(active.deep_view()) =~= out_before
                                    + (seq![ArgModel::Single(tv)] + shaped(active.deep_view())));
                            }
                        }
                    },
                }
            }
        }
    }
    proof {
        assert(shaped(active.deep_view()) =~= Seq::<ArgModel>::empty());
        assert(out.deep_view() =~= out.deep_view() + shaped(active.deep_view()));
    }
    out
}

} // verus!
