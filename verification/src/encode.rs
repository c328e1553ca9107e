//! Encoding an argument vector into the single escaped command-line string
//! that the Windows process-creation API and the C runtime's argument
//! tokenizer expect.

use vstd::prelude::*;

verus! {

/// Wide code units with special meaning to the command-line grammar.
pub const SPACE: u16 = 0x20;

pub const TAB: u16 = 0x09;

pub const QUOTE: u16 = 0x22;

pub const BACKSLASH: u16 = 0x5c;

pub open spec fn is_ws(c: u16) -> bool {
    c == SPACE || c == TAB
}

/// The argument contains a space or a tab somewhere, so its encoding
/// must be wrapped in double quotes.
pub open spec fn has_ws(a: Seq<u16>) -> bool {
    exists|i: int| 0 <= i < a.len() && is_ws(a[i])
}

/// Whitespace seen strictly before position `i`.
pub open spec fn has_ws_to(a: Seq<u16>, i: int) -> bool {
    exists|j: int| 0 <= j < i && is_ws(a[j])
}

/// What the encoder emits for the code unit of `a` at position `i`:
/// a quote becomes backslash-quote; a backslash is doubled when it
/// immediately precedes a quote, or when it is the final code unit of an
/// argument that will be wrapped in quotes; everything else is copied.
pub open spec fn chunk(a: Seq<u16>, i: int) -> Seq<u16> {
    if a[i] == QUOTE {
        seq![BACKSLASH, QUOTE]
    } else if a[i] == BACKSLASH && (i + 1 < a.len() && a[i + 1] == QUOTE || i + 1 == a.len()
        && has_ws(a)) {
        seq![BACKSLASH, BACKSLASH]
    } else {
        seq![a[i]]
    }
}

/// The escaped body of `a` from position `i` to the end.
pub open spec fn esc_from(a: Seq<u16>, i: int) -> Seq<u16>
    decreases a.len() - i,
{
    if i < 0 || i >= a.len() {
        Seq::empty()
    } else {
        chunk(a, i) + esc_from(a, i + 1)
    }
}

/// The escaped body of the whole argument, without the surrounding quotes.
pub open spec fn esc(a: Seq<u16>) -> Seq<u16> {
    esc_from(a, 0)
}

/// The escaped body of `a` up to (excluding) position `i`; what the
/// encoder's inner loop has produced after `i` iterations.
pub open spec fn esc_to(a: Seq<u16>, i: int) -> Seq<u16>
    decreases i,
{
    if i <= 0 {
        Seq::empty()
    } else {
        esc_to(a, i - 1) + chunk(a, i - 1)
    }
}

/// One fully encoded argument: the escaped body, wrapped in quotes
/// when the argument contains whitespace.
pub open spec fn enc_arg(a: Seq<u16>) -> Seq<u16> {
    if has_ws(a) {
        seq![QUOTE] + esc(a) + seq![QUOTE]
    } else {
        esc(a)
    }
}

/// The encoded command line: encoded arguments joined by single spaces,
/// with no trailing separator and no terminator.
pub open spec fn enc_args(args: Seq<Seq<u16>>) -> Seq<u16>
    decreases args.len(),
{
    if args.len() == 0 {
        Seq::empty()
    } else if args.len() == 1 {
        enc_arg(args[0])
    } else {
        enc_arg(args[0]) + seq![SPACE] + enc_args(args.drop_first())
    }
}

/// Every encoded argument followed by a separating space, the trailing
/// separator included; the shape the encoder's outer loop builds.
pub open spec fn enc_all(args: Seq<Seq<u16>>) -> Seq<u16>
    decreases args.len(),
{
    if args.len() == 0 {
        Seq::empty()
    } else {
        enc_arg(args[0]) + seq![SPACE] + enc_all(args.drop_first())
    }
}

/// No null code unit anywhere in `s`.
pub open spec fn nul_free(s: Seq<u16>) -> bool {
    forall|i: int| 0 <= i < s.len() ==> s[i] != 0
}

proof fn lemma_nul_free_concat(x: Seq<u16>, y: Seq<u16>)
    requires
        nul_free(x),
        nul_free(y),
    ensures
        nul_free(x + y),
{
    assert forall|i: int| 0 <= i < (x + y).len() implies (x + y)[i] != 0 by {
        if i < x.len() {
            assert((x + y)[i] == x[i]);
        } else {
            assert((x + y)[i] == y[i - x.len()]);
        }
    }
}

proof fn lemma_esc_nul_free(a: Seq<u16>, i: int)
    requires
        nul_free(a),
        0 <= i <= a.len(),
    ensures
        nul_free(esc_from(a, i)),
    decreases a.len() - i,
{
    if i < a.len() {
        assert(nul_free(chunk(a, i)));
        lemma_esc_nul_free(a, i + 1);
        lemma_nul_free_concat(chunk(a, i), esc_from(a, i + 1));
    }
}

/// The encoded command line holds no null code unit, so the terminator the
/// encoder appends is the only one the platform's wide-string calls see:
/// the whole payload survives the null-terminated convention.
pub proof fn lemma_encoding_nul_free(args: Seq<Seq<u16>>)
    requires
        forall|k: int| 0 <= k < args.len() ==> nul_free(#[trigger] args[k]),
    ensures
        nul_free(enc_args(args)),
    decreases args.len(),
{
    if args.len() > 0 {
        lemma_esc_nul_free(args[0], 0);
        if has_ws(args[0]) {
            lemma_nul_free_concat(seq![QUOTE], esc(args[0]));
            lemma_nul_free_concat(seq![QUOTE] + esc(args[0]), seq![QUOTE]);
        }
        assert(nul_free(enc_arg(args[0])));
        if args.len() > 1 {
            assert(forall|k: int| 0 <= k < args.drop_first().len() ==> nul_free(
                #[trigger] args.drop_first()[k],
            ));
            lemma_encoding_nul_free(args.drop_first());
            lemma_nul_free_concat(enc_arg(args[0]), seq![SPACE]);
            lemma_nul_free_concat(enc_arg(args[0]) + seq![SPACE], enc_args(args.drop_first()));
            assert(enc_arg(args[0]) + seq![SPACE] + enc_args(args.drop_first()) == enc_args(args));
        }
    }
}

proof fn lemma_esc_to_from(a: Seq<u16>, i: int)
    requires
        0 <= i <= a.len(),
    ensures
        esc_to(a, i) + esc_from(a, i) == esc(a),
    decreases i,
{
    if i == 0 {
        assert(esc_to(a, 0) + esc_from(a, 0) =~= esc(a));
    } else {
        lemma_esc_to_from(a, i - 1);
        assert(esc_from(a, i - 1) == chunk(a, i - 1) + esc_from(a, i));
        assert(esc_to(a, i) + esc_from(a, i) =~= esc_to(a, i - 1) + esc_from(a, i - 1));
    }
}

proof fn lemma_enc_all_snoc(s: Seq<Seq<u16>>, k: int)
    requires
        0 <= k < s.len(),
    ensures
        enc_all(s.take(k + 1)) == enc_all(s.take(k)) + enc_arg(s[k]) + seq![SPACE],
    decreases k,
{
    if k == 0 {
        assert(s.take(1).drop_first() =~= Seq::<Seq<u16>>::empty());
        assert(s.take(1).len() == 1);
        assert(s.take(1)[0] == s[0]);
        assert(enc_all(s.take(1)) == enc_arg(s.take(1)[0]) + seq![SPACE] + enc_all(
            s.take(1).drop_first(),
        ));
        assert(enc_all(s.take(0)) =~= Seq::<u16>::empty());
        assert(enc_all(s.take(1)) =~= enc_all(s.take(0)) + enc_arg(s[0]) + seq![SPACE]);
    } else {
        lemma_enc_all_snoc(s.drop_first(), k - 1);
        assert(s.take(k + 1).drop_first() =~= s.drop_first().take(k));
        assert(s.take(k).drop_first() =~= s.drop_first().take(k - 1));
        assert(s.take(k + 1)[0] == s[0]);
        assert(s.take(k)[0] == s[0]);
        assert(s.drop_first()[k - 1] == s[k]);
        assert(enc_all(s.take(k + 1)) =~= enc_all(s.take(k)) + enc_arg(s[k]) + seq![SPACE]);
    }
}

proof fn lemma_enc_all_args(s: Seq<Seq<u16>>)
    requires
        s.len() > 0,
    ensures
        enc_all(s) == enc_args(s) + seq![SPACE],
    decreases s.len(),
{
    if s.len() == 1 {
        assert(enc_all(s.drop_first()) =~= Seq::<u16>::empty());
        assert(enc_all(s) =~= enc_args(s) + seq![SPACE]);
    } else {
        lemma_enc_all_args(s.drop_first());
        assert(enc_all(s) =~= enc_args(s) + seq![SPACE]);
    }
}

proof fn lemma_deep_view_index(v: &Vec<Vec<u16>>, k: int)
    requires
        0 <= k < v@.len(),
    ensures
        v.deep_view().len() == v@.len(),
        v.deep_view()[k] == v@[k]@,
{
    assert(v.deep_view()[k] =~= v@[k]@);
}

/// Escapes an argument vector into the single command-line string the
/// platform's standard tokenizer parses back into the same vector,
/// terminated by a trailing null code unit.
pub fn encode_windows_args(args: &Vec<Vec<u16>>) -> (r: Vec<u16>)
    ensures
        r@ == enc_args(args.deep_view()).push(0u16),
{
    let ghost vs = args.deep_view();
    let mut escaped: Vec<u16> = Vec::new();
    let mut k: usize = 0;
    while k < args.len()
        invariant
            k <= args.len(),
            vs == args.deep_view(),
            vs.len() == args@.len(),
            escaped@ == enc_all(vs.take(k as int)),
        decreases args.len() - k,
    {
        proof {
            lemma_deep_view_index(args, k as int);
        }
        let arg: &Vec<u16> = &args[k];
        let ghost a = arg@;
        let start_idx = escaped.len();
        let ghost prefix = escaped@;
        let mut has_spaces = false;
        let mut i: usize = 0;
        while i < arg.len()
            invariant
                i <= arg.len(),
                a == arg@,
                prefix == enc_all(vs.take(k as int)),
                escaped@ == prefix + esc_to(a, i as int),
                has_spaces == has_ws_to(a, i as int),
                start_idx == prefix.len(),
            decreases arg.len() - i,
        {
            let c = arg[i];
            let ghost old_escaped = escaped@;
            if c == QUOTE {
                escaped.push(BACKSLASH);
                escaped.push(QUOTE);
                proof {
                    assert(chunk(a, i as int) =~= seq![BACKSLASH, QUOTE]);
                }
            } else if c == BACKSLASH && (i + 1 < arg.len() && arg[i + 1] == QUOTE || i + 1
                == arg.len() && has_spaces) {
                escaped.push(BACKSLASH);
                escaped.push(BACKSLASH);
                proof {
                    if i + 1 == arg.len() {
                        // whitespace cannot hide in the final code unit, a backslash
                        assert(has_ws(a) ==> has_ws_to(a, i as int)) by {
                            if has_ws(a) {
                                let j = choose|j: int| 0 <= j < a.len() && is_ws(a[j]);
                                assert(j != i);
                            }
                        }
                    }
                    assert(chunk(a, i as int) =~= seq![BACKSLASH, BACKSLASH]);
                }
            } else {
                if c == SPACE || c == TAB {
                    has_spaces = true;
                }
                escaped.push(c);
                proof {
                    if c == BACKSLASH && i + 1 == arg.len() {
                        // the doubling test was false, so no whitespace anywhere
                        assert(!has_ws_to(a, i as int));
                        assert(!has_ws(a)) by {
                            if has_ws(a) {
                                let j = choose|j: int| 0 <= j < a.len() && is_ws(a[j]);
                                assert(j < i);
                            }
                        }
                    }
                    assert(chunk(a, i as int) =~= seq![c]);
                }
            }
            proof {
                assert(esc_to(a, i + 1) == esc_to(a, i as int) + chunk(a, i as int));
                assert(escaped@ =~= prefix + esc_to(a, i + 1));
            }
            i += 1;
        }
        proof {
            lemma_esc_to_from(a, a.len() as int);
            assert(esc_from(a, a.len() as int) =~= Seq::<u16>::empty());
            assert(esc_to(a, a.len() as int) + esc_from(a, a.len() as int) =~= esc_to(
                a,
                a.len() as int,
            ));
            assert(escaped@ == prefix + esc(a));
            assert(has_spaces == has_ws(a)) by {
                if has_ws(a) != has_ws_to(a, a.len() as int) {
                    if has_ws(a) {
                        let j = choose|j: int| 0 <= j < a.len() && is_ws(a[j]);
                        assert(has_ws_to(a, a.len() as int));
                    }
                }
            }
        }
        if has_spaces {
            escaped.insert(start_idx, QUOTE);
            escaped.push(QUOTE);
            proof {
                assert(escaped@ =~= prefix + enc_arg(a));
            }
        } else {
            proof {
                assert(escaped@ =~= prefix + enc_arg(a));
            }
        }
        escaped.push(SPACE);
        proof {
            lemma_enc_all_snoc(vs, k as int);
            assert(escaped@ =~= enc_all(vs.take(k + 1)));
        }
        k += 1;
    }
    proof {
        assert(vs.take(vs.len() as int) =~= vs);
    }
    if escaped.len() > 0 {
        proof {
            lemma_enc_all_args(vs);
        }
        escaped.pop();
        proof {
            assert(escaped@ =~= enc_args(vs));
        }
    } else {
        proof {
            if vs.len() > 0 {
                lemma_enc_all_args(vs);
                assert(enc_all(vs).len() >= 1);
            }
            assert(escaped@ =~= enc_args(vs));
        }
    }
    escaped.push(0u16);
    escaped
}

/// Appends the null terminator that the platform's wide-string calls expect.
pub fn into_wide_str(s: Vec<u16>) -> (r: Vec<u16>)
    ensures
        r@ == s@.push(0u16),
{
    let mut r = s;
    r.push(0u16);
    r
}

} // verus!
