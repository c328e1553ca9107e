//! A model of the standard Windows command-line tokenizer, and the proof
//! that the encoder of [`crate::encode`] round-trips through it: parsing an
//! encoded argument vector yields the original vector back.

use crate::encode::{BACKSLASH, QUOTE, SPACE, chunk, enc_arg, enc_args, esc_from, has_ws, is_ws};
use vstd::prelude::*;

verus! {

/// `n` literal backslashes.
pub open spec fn bs(n: nat) -> Seq<u16> {
    Seq::new(n, |j: int| BACKSLASH)
}

/// The standard command-line tokenizer (the rules shared by
/// `CommandLineToArgvW` and the C runtime's argv splitting): arguments are
/// separated by spaces and tabs; a double quote toggles a mode in which
/// whitespace is literal; `2n` backslashes before a quote yield `n`
/// backslashes with the quote keeping its special meaning; `2n+1`
/// backslashes before a quote yield `n` backslashes and a literal quote;
/// backslashes not followed by a quote are literal.
///
/// `cur` is the argument collected so far, `pend` a run of backslashes not
/// yet resolved, `started` whether the current argument has begun (so that
/// an empty quoted argument still counts as one), `in_q` the quoted mode.
pub open spec fn toks(
    s: Seq<u16>,
    cur: Seq<u16>,
    pend: nat,
    started: bool,
    in_q: bool,
) -> Seq<Seq<u16>>
    decreases s.len(),
{
    if s.len() == 0 {
        if started || pend > 0 {
            seq![cur + bs(pend)]
        } else {
            Seq::empty()
        }
    } else {
        let c = s[0];
        let rest = s.drop_first();
        if c == BACKSLASH {
            toks(rest, cur, pend + 1, true, in_q)
        } else if c == QUOTE {
            if pend % 2 == 0 {
                toks(rest, cur + bs(pend / 2), 0, true, !in_q)
            } else {
                toks(rest, cur + bs(pend / 2) + seq![QUOTE], 0, true, in_q)
            }
        } else if is_ws(c) && !in_q {
            if started || pend > 0 {
                seq![cur + bs(pend)] + toks(rest, Seq::empty(), 0, false, false)
            } else {
                toks(rest, Seq::empty(), 0, false, false)
            }
        } else {
            toks(rest, cur + bs(pend) + seq![c], 0, true, in_q)
        }
    }
}

/// Splits a command-line string into its argument vector.
pub open spec fn tokenize(s: Seq<u16>) -> Seq<Seq<u16>> {
    toks(s, Seq::empty(), 0, false, false)
}

/// Arguments whose encoding parses back exactly: non-empty, free of the
/// null terminator, with at most one backslash immediately before any
/// quote, and, when the argument contains whitespace, at most one trailing
/// backslash. (The encoder doubles only the single backslash directly
/// before a quote or the closing wrapper, so longer runs in those two
/// places come back altered; an empty argument encodes to nothing and is
/// swallowed by the separator handling.)
pub open spec fn encodable(a: Seq<u16>) -> bool {
    &&& a.len() > 0
    &&& (forall|i: int| 0 <= i < a.len() ==> a[i] != 0)
    &&& (forall|i: int|
        2 <= i < a.len() && #[trigger] a[i] == QUOTE ==> !(a[i - 1] == BACKSLASH && a[i - 2]
            == BACKSLASH))
    &&& (has_ws(a) ==> !(a.len() >= 2 && a[a.len() - 1] == BACKSLASH && a[a.len() - 2]
        == BACKSLASH))
}

/// What the tokenizer makes of everything after one argument's encoding:
/// the separator that follows it is skipped and fresh tokenizing begins.
pub open spec fn rest_toks(t: Seq<u16>) -> Seq<Seq<u16>> {
    if t.len() == 0 {
        Seq::empty()
    } else {
        toks(t.drop_first(), Seq::empty(), 0, false, false)
    }
}

/// The length of the backslash run beginning at position `i`.
pub open spec fn run_len(a: Seq<u16>, i: int) -> nat
    decreases a.len() - i,
{
    if 0 <= i < a.len() && a[i] == BACKSLASH {
        1 + run_len(a, i + 1)
    } else {
        0
    }
}

proof fn lemma_run(a: Seq<u16>, i: int)
    requires
        0 <= i <= a.len(),
    ensures
        i + run_len(a, i) <= a.len(),
        forall|j: int| i <= j < i + run_len(a, i) ==> a[j] == BACKSLASH,
        i + run_len(a, i) < a.len() ==> a[i + run_len(a, i)] != BACKSLASH,
    decreases a.len() - i,
{
    if 0 <= i < a.len() && a[i] == BACKSLASH {
        lemma_run(a, i + 1);
    }
}

/// One tokenizer step for each possible head code unit.
proof fn lemma_step(c: u16, r: Seq<u16>, cur: Seq<u16>, pend: nat, st: bool, q: bool)
    ensures
        c == BACKSLASH ==> toks(seq![c] + r, cur, pend, st, q) == toks(r, cur, pend + 1, true, q),
        c == QUOTE && pend % 2 == 0 ==> toks(seq![c] + r, cur, pend, st, q) == toks(
            r,
            cur + bs(pend / 2),
            0,
            true,
            !q,
        ),
        c == QUOTE && pend % 2 == 1 ==> toks(seq![c] + r, cur, pend, st, q) == toks(
            r,
            cur + bs(pend / 2) + seq![QUOTE],
            0,
            true,
            q,
        ),
        c != BACKSLASH && c != QUOTE && is_ws(c) && !q && (st || pend > 0) ==> toks(
            seq![c] + r,
            cur,
            pend,
            st,
            q,
        ) == seq![cur + bs(pend)] + toks(r, Seq::empty(), 0, false, false),
        c != BACKSLASH && c != QUOTE && is_ws(c) && !q && !(st || pend > 0) ==> toks(
            seq![c] + r,
            cur,
            pend,
            st,
            q,
        ) == toks(r, Seq::empty(), 0, false, false),
        c != BACKSLASH && c != QUOTE && (!is_ws(c) || q) ==> toks(seq![c] + r, cur, pend, st, q)
            == toks(r, cur + bs(pend) + seq![c], 0, true, q),
{
    assert((seq![c] + r).len() == r.len() + 1);
    assert((seq![c] + r)[0] == c);
    assert((seq![c] + r).drop_first() =~= r);
}

proof fn lemma_bs_steps(k: nat, r: Seq<u16>, cur: Seq<u16>, pend: nat, st: bool, q: bool)
    ensures
        k > 0 ==> toks(bs(k) + r, cur, pend, st, q) == toks(r, cur, pend + k, true, q),
        k == 0 ==> toks(bs(k) + r, cur, pend, st, q) == toks(r, cur, pend, st, q),
    decreases k,
{
    if k == 0 {
        assert(bs(0) + r =~= r);
    } else {
        assert((bs(k) + r).len() > 0);
        assert((bs(k) + r)[0] == BACKSLASH);
        assert((bs(k) + r).drop_first() =~= bs((k - 1) as nat) + r);
        lemma_bs_steps((k - 1) as nat, r, cur, pend + 1, true, q);
    }
}

/// A run of `k` copied backslashes in the escaped body.
proof fn lemma_esc_run(a: Seq<u16>, i: int, k: int)
    requires
        0 <= i,
        0 <= k,
        i + k <= a.len(),
        forall|j: int| i <= j < i + k ==> a[j] == BACKSLASH,
        i + k < a.len() ==> a[i + k] != QUOTE,
        i + k == a.len() ==> !has_ws(a),
    ensures
        esc_from(a, i) == bs(k as nat) + esc_from(a, i + k),
    decreases k,
{
    if k == 0 {
        assert(bs(0) + esc_from(a, i) =~= esc_from(a, i));
    } else {
        assert(a[i] == BACKSLASH);
        assert(chunk(a, i) =~= seq![BACKSLASH]) by {
            if i + 1 < a.len() && a[i + 1] == QUOTE {
                assert(k == 1);
                assert(a[i + 1] != QUOTE);
            }
        }
        lemma_esc_run(a, i + 1, k - 1);
        assert(esc_from(a, i) =~= bs(k as nat) + esc_from(a, i + k));
    }
}

/// The escaped body of a whitespace-carrying argument, from a position on a
/// run boundary, followed by the closing quote and then `t`, parses in
/// quoted mode back to the argument itself, leaving `t` in unquoted mode.
proof fn lemma_body_quoted(a: Seq<u16>, i: int, t: Seq<u16>)
    requires
        encodable(a),
        has_ws(a),
        0 <= i <= a.len(),
        i == 0 || a[i - 1] != BACKSLASH,
    ensures
        toks(esc_from(a, i) + (seq![QUOTE] + t), a.take(i), 0, true, true) == toks(
            t,
            a,
            0,
            true,
            false,
        ),
    decreases a.len() - i,
{
    let tail = seq![QUOTE] + t;
    if i == a.len() {
        assert(esc_from(a, i) + tail =~= seq![QUOTE] + t);
        assert(a.take(i) =~= a);
        lemma_step(QUOTE, t, a.take(i), 0, true, true);
        assert(a.take(i) + bs(0) =~= a);
    } else if a[i] == QUOTE {
        let e1 = esc_from(a, i + 1);
        assert(chunk(a, i) =~= seq![BACKSLASH, QUOTE]);
        assert(esc_from(a, i) + tail =~= seq![BACKSLASH] + (seq![QUOTE] + (e1 + tail)));
        lemma_step(BACKSLASH, seq![QUOTE] + (e1 + tail), a.take(i), 0, true, true);
        lemma_step(QUOTE, e1 + tail, a.take(i), 1, true, true);
        assert(a.take(i) + bs(0) + seq![QUOTE] =~= a.take(i + 1));
        lemma_body_quoted(a, i + 1, t);
    } else if a[i] == BACKSLASH {
        let k = run_len(a, i) as int;
        lemma_run(a, i);
        assert(k >= 1);
        if i + k < a.len() && a[i + k] == QUOTE {
            assert(k == 1) by {
                if k >= 2 {
                    assert(a[i + k - 1] == BACKSLASH && a[i + k - 2] == BACKSLASH);
                }
            }
            let e2 = esc_from(a, i + 2);
            assert(chunk(a, i) =~= seq![BACKSLASH, BACKSLASH]);
            assert(chunk(a, i + 1) =~= seq![BACKSLASH, QUOTE]);
            assert(esc_from(a, i) == chunk(a, i) + (chunk(a, i + 1) + e2));
            assert(esc_from(a, i) + tail =~= seq![BACKSLASH] + (seq![BACKSLASH] + (seq![BACKSLASH]
                + (seq![QUOTE] + (e2 + tail)))));
            lemma_step(
                BACKSLASH,
                seq![BACKSLASH] + (seq![BACKSLASH] + (seq![QUOTE] + (e2 + tail))),
                a.take(i),
                0,
                true,
                true,
            );
            lemma_step(
                BACKSLASH,
                seq![BACKSLASH] + (seq![QUOTE] + (e2 + tail)),
                a.take(i),
                1,
                true,
                true,
            );
            lemma_step(BACKSLASH, seq![QUOTE] + (e2 + tail), a.take(i), 2, true, true);
            lemma_step(QUOTE, e2 + tail, a.take(i), 3, true, true);
            assert(a.take(i) + bs(1) + seq![QUOTE] =~= a.take(i + 2));
            lemma_body_quoted(a, i + 2, t);
        } else if i + k == a.len() {
            assert(k == 1) by {
                if k >= 2 {
                    assert(a[a.len() - 1] == BACKSLASH && a[a.len() - 2] == BACKSLASH);
                }
            }
            assert(chunk(a, i) =~= seq![BACKSLASH, BACKSLASH]);
            assert(esc_from(a, i + 1) =~= Seq::<u16>::empty());
            assert(esc_from(a, i) + tail =~= seq![BACKSLASH] + (seq![BACKSLASH] + (seq![QUOTE]
                + t)));
            lemma_step(BACKSLASH, seq![BACKSLASH] + (seq![QUOTE] + t), a.take(i), 0, true, true);
            lemma_step(BACKSLASH, seq![QUOTE] + t, a.take(i), 1, true, true);
            lemma_step(QUOTE, t, a.take(i), 2, true, true);
            assert(a.take(i) + bs(1) =~= a);
        } else {
            // a literal run: copied backslashes, resolved by the next code unit
            let c = a[i + k];
            lemma_esc_run(a, i, k);
            let e2 = esc_from(a, i + k + 1);
            assert(chunk(a, i + k) =~= seq![c]);
            assert(esc_from(a, i + k) == chunk(a, i + k) + e2);
            assert(esc_from(a, i) + tail =~= bs(k as nat) + (seq![c] + (e2 + tail)));
            lemma_bs_steps(k as nat, seq![c] + (e2 + tail), a.take(i), 0, true, true);
            lemma_step(c, e2 + tail, a.take(i), k as nat, true, true);
            assert(a.take(i) + bs(k as nat) + seq![c] =~= a.take(i + k + 1));
            lemma_body_quoted(a, i + k + 1, t);
        }
    } else {
        let c = a[i];
        let e1 = esc_from(a, i + 1);
        assert(chunk(a, i) =~= seq![c]);
        assert(esc_from(a, i) + tail =~= seq![c] + (e1 + tail));
        lemma_step(c, e1 + tail, a.take(i), 0, true, true);
        assert(a.take(i) + bs(0) + seq![c] =~= a.take(i + 1));
        lemma_body_quoted(a, i + 1, t);
    }
}

/// The escaped body of a whitespace-free argument, from a position on a run
/// boundary, followed by a separator or the end, parses back to the
/// argument itself followed by whatever `t` yields.
proof fn lemma_body_unquoted(a: Seq<u16>, i: int, t: Seq<u16>)
    requires
        encodable(a),
        !has_ws(a),
        0 <= i <= a.len(),
        i == 0 || a[i - 1] != BACKSLASH,
        t.len() == 0 || t[0] == SPACE,
    ensures
        toks(esc_from(a, i) + t, a.take(i), 0, i > 0, false) == seq![a] + rest_toks(t),
    decreases a.len() - i,
{
    if i == a.len() {
        assert(esc_from(a, i) + t =~= t);
        assert(a.take(i) =~= a);
        if t.len() == 0 {
            assert(a + bs(0) =~= a);
            assert(toks(t, a.take(i), 0, i > 0, false) =~= seq![a] + rest_toks(t));
        } else {
            assert(t =~= seq![t[0]] + t.drop_first());
            lemma_step(t[0], t.drop_first(), a.take(i), 0, i > 0, false);
            assert(a + bs(0) =~= a);
            assert(toks(t, a.take(i), 0, i > 0, false) =~= seq![a] + rest_toks(t));
        }
    } else if a[i] == QUOTE {
        let e1 = esc_from(a, i + 1);
        assert(chunk(a, i) =~= seq![BACKSLASH, QUOTE]);
        assert(esc_from(a, i) + t =~= seq![BACKSLASH] + (seq![QUOTE] + (e1 + t)));
        lemma_step(BACKSLASH, seq![QUOTE] + (e1 + t), a.take(i), 0, i > 0, false);
        lemma_step(QUOTE, e1 + t, a.take(i), 1, true, false);
        assert(a.take(i) + bs(0) + seq![QUOTE] =~= a.take(i + 1));
        lemma_body_unquoted(a, i + 1, t);
    } else if a[i] == BACKSLASH {
        let k = run_len(a, i) as int;
        lemma_run(a, i);
        assert(k >= 1);
        if i + k < a.len() && a[i + k] == QUOTE {
            assert(k == 1) by {
                if k >= 2 {
                    assert(a[i + k - 1] == BACKSLASH && a[i + k - 2] == BACKSLASH);
                }
            }
            let e2 = esc_from(a, i + 2);
            assert(chunk(a, i) =~= seq![BACKSLASH, BACKSLASH]);
            assert(chunk(a, i + 1) =~= seq![BACKSLASH, QUOTE]);
            assert(esc_from(a, i) == chunk(a, i) + (chunk(a, i + 1) + e2));
            assert(esc_from(a, i) + t =~= seq![BACKSLASH] + (seq![BACKSLASH] + (seq![BACKSLASH]
                + (seq![QUOTE] + (e2 + t)))));
            lemma_step(
                BACKSLASH,
                seq![BACKSLASH] + (seq![BACKSLASH] + (seq![QUOTE] + (e2 + t))),
                a.take(i),
                0,
                i > 0,
                false,
            );
            lemma_step(
                BACKSLASH,
                seq![BACKSLASH] + (seq![QUOTE] + (e2 + t)),
                a.take(i),
                1,
                true,
                false,
            );
            lemma_step(BACKSLASH, seq![QUOTE] + (e2 + t), a.take(i), 2, true, false);
            lemma_step(QUOTE, e2 + t, a.take(i), 3, true, false);
            assert(a.take(i) + bs(1) + seq![QUOTE] =~= a.take(i + 2));
            lemma_body_unquoted(a, i + 2, t);
        } else if i + k == a.len() {
            lemma_esc_run(a, i, k);
            assert(esc_from(a, i + k) =~= Seq::<u16>::empty());
            assert(esc_from(a, i) + t =~= bs(k as nat) + t);
            lemma_bs_steps(k as nat, t, a.take(i), 0, i > 0, false);
            assert(a.take(i) + bs(k as nat) =~= a);
            if t.len() == 0 {
                assert(toks(t, a.take(i), k as nat, true, false) =~= seq![a] + rest_toks(t));
            } else {
                assert(t =~= seq![t[0]] + t.drop_first());
                lemma_step(t[0], t.drop_first(), a.take(i), k as nat, true, false);
                assert(toks(t, a.take(i), k as nat, true, false) =~= seq![a] + rest_toks(t));
            }
        } else {
            let c = a[i + k];
            lemma_esc_run(a, i, k);
            let e2 = esc_from(a, i + k + 1);
            assert(chunk(a, i + k) =~= seq![c]);
            assert(esc_from(a, i + k) == chunk(a, i + k) + e2);
            assert(esc_from(a, i) + t =~= bs(k as nat) + (seq![c] + (e2 + t)));
            lemma_bs_steps(k as nat, seq![c] + (e2 + t), a.take(i), 0, i > 0, false);
            assert(!is_ws(c));
            lemma_step(c, e2 + t, a.take(i), k as nat, true, false);
            assert(a.take(i) + bs(k as nat) + seq![c] =~= a.take(i + k + 1));
            lemma_body_unquoted(a, i + k + 1, t);
        }
    } else {
        let c = a[i];
        let e1 = esc_from(a, i + 1);
        assert(chunk(a, i) =~= seq![c]);
        assert(esc_from(a, i) + t =~= seq![c] + (e1 + t));
        assert(!is_ws(c));
        lemma_step(c, e1 + t, a.take(i), 0, i > 0, false);
        assert(a.take(i) + bs(0) + seq![c] =~= a.take(i + 1));
        lemma_body_unquoted(a, i + 1, t);
    }
}

/// One encoded argument followed by a separator (or nothing) parses to the
/// argument itself followed by whatever comes after the separator.
proof fn lemma_arg(a: Seq<u16>, t: Seq<u16>)
    requires
        encodable(a),
        t.len() == 0 || t[0] == SPACE,
    ensures
        toks(enc_arg(a) + t, Seq::empty(), 0, false, false) == seq![a] + rest_toks(t),
{
    if has_ws(a) {
        assert(enc_arg(a) + t =~= seq![QUOTE] + (esc_from(a, 0) + (seq![QUOTE] + t)));
        lemma_step(QUOTE, esc_from(a, 0) + (seq![QUOTE] + t), Seq::empty(), 0, false, false);
        assert(Seq::<u16>::empty() + bs(0) =~= a.take(0));
        lemma_body_quoted(a, 0, t);
        if t.len() == 0 {
            assert(a + bs(0) =~= a);
            assert(toks(t, a, 0, true, false) =~= seq![a] + rest_toks(t));
        } else {
            assert(t =~= seq![t[0]] + t.drop_first());
            lemma_step(t[0], t.drop_first(), a, 0, true, false);
            assert(a + bs(0) =~= a);
            assert(toks(t, a, 0, true, false) =~= seq![a] + rest_toks(t));
        }
    } else {
        assert(Seq::<u16>::empty() =~= a.take(0));
        lemma_body_unquoted(a, 0, t);
    }
}

/// Round trip: encoding an argument vector and parsing the result with the
/// standard tokenizer yields the original vector, element for element.
pub proof fn lemma_round_trip(args: Seq<Seq<u16>>)
    requires
        forall|k: int| 0 <= k < args.len() ==> encodable(#[trigger] args[k]),
    ensures
        tokenize(enc_args(args)) == args,
    decreases args.len(),
{
    if args.len() == 0 {
        assert(tokenize(enc_args(args)) =~= args);
    } else if args.len() == 1 {
        lemma_arg(args[0], Seq::empty());
        assert(enc_arg(args[0]) + Seq::<u16>::empty() =~= enc_args(args));
        assert(seq![args[0]] + rest_toks(Seq::<u16>::empty()) =~= args);
    } else {
        assert(forall|k: int| 0 <= k < args.drop_first().len() ==> encodable(
            #[trigger] args.drop_first()[k],
        ));
        lemma_round_trip(args.drop_first());
        let t = seq![SPACE] + enc_args(args.drop_first());
        lemma_arg(args[0], t);
        assert(enc_arg(args[0]) + t =~= enc_args(args));
        assert(t.drop_first() =~= enc_args(args.drop_first()));
        assert(seq![args[0]] + args.drop_first() =~= args);
    }
}

} // verus!
