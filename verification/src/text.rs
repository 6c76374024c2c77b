//! Character-sequence helpers: the lexicographic order that ordered string
//! maps use, three-way comparison, and placeholder substitution.
use vstd::prelude::*;

verus! {

/// Lexicographic order on character sequences, character by character by
/// code point. For Rust strings this is the order of `str`'s `Ord`: UTF-8
/// preserves code-point order byte by byte.
pub open spec fn seq_lt(a: Seq<char>, b: Seq<char>) -> bool
    decreases a.len(),
{
    if a.len() == 0 {
        b.len() > 0
    } else if b.len() == 0 {
        false
    } else if (a[0] as int) < (b[0] as int) {
        true
    } else if a[0] == b[0] {
        seq_lt(a.drop_first(), b.drop_first())
    } else {
        false
    }
}

/// No sequence comes before itself.
pub proof fn lemma_seq_lt_irreflexive(a: Seq<char>)
    ensures
        !seq_lt(a, a),
    decreases a.len(),
{
    if a.len() > 0 {
        lemma_seq_lt_irreflexive(a.drop_first());
    }
}

/// The order is transitive.
pub proof fn lemma_seq_lt_transitive(a: Seq<char>, b: Seq<char>, c: Seq<char>)
    requires
        seq_lt(a, b),
        seq_lt(b, c),
    ensures
        seq_lt(a, c),
    decreases a.len(),
{
    if a.len() > 0 && b.len() > 0 && c.len() > 0 {
        if a[0] == b[0] && b[0] == c[0] {
            lemma_seq_lt_transitive(a.drop_first(), b.drop_first(), c.drop_first());
        }
    }
}

/// Two distinct sequences are ordered one way or the other, never both.
pub proof fn lemma_seq_lt_total(a: Seq<char>, b: Seq<char>)
    ensures
        a != b ==> (seq_lt(a, b) || seq_lt(b, a)),
        !(seq_lt(a, b) && seq_lt(b, a)),
    decreases a.len(),
{
    if a.len() > 0 && b.len() > 0 {
        lemma_seq_lt_total(a.drop_first(), b.drop_first());
        if a[0] == b[0] && a != b {
            assert(a =~= seq![a[0]] + a.drop_first());
            assert(b =~= seq![b[0]] + b.drop_first());
        }
    } else if a.len() == 0 && b.len() == 0 {
        assert(a =~= b);
    }
}

/// The outcome of comparing two strings.
#[derive(PartialEq, Eq, Structural, Clone, Copy, Debug)]
pub enum TextOrder {
    Before,
    Same,
    After,
}

/// Compares `a` with `b` in [`seq_lt`] order.
pub fn compare_text(a: &str, b: &str) -> (r: TextOrder)
    ensures
        r == TextOrder::Before <==> seq_lt(a@, b@),
        r == TextOrder::Same <==> a@ == b@,
        r == TextOrder::After <==> seq_lt(b@, a@),
{
    proof {
        lemma_seq_lt_total(a@, b@);
        lemma_seq_lt_irreflexive(a@);
    }
    let n = a.unicode_len();
    let m = b.unicode_len();
    let mut i: usize = 0;
    assert(a@.skip(0) =~= a@);
    assert(b@.skip(0) =~= b@);
    while i < n && i < m
        invariant
            n == a@.len(),
            m == b@.len(),
            i <= n,
            i <= m,
            a@.subrange(0, i as int) =~= b@.subrange(0, i as int),
            seq_lt(a@, b@) == seq_lt(a@.skip(i as int), b@.skip(i as int)),
            seq_lt(b@, a@) == seq_lt(b@.skip(i as int), a@.skip(i as int)),
        decreases n - i,
    {
        let ca = a.get_char(i);
        let cb = b.get_char(i);
        assert(a@.skip(i as int)[0] == ca);
        assert(b@.skip(i as int)[0] == cb);
        if ca < cb {
            return TextOrder::Before;
        }
        if ca != cb {
            return TextOrder::After;
        }
        assert(a@.skip(i as int).drop_first() =~= a@.skip(i + 1));
        assert(b@.skip(i as int).drop_first() =~= b@.skip(i + 1));
        i = i + 1;
        assert(a@.subrange(0, i as int) =~= a@.subrange(0, i - 1).push(ca));
        assert(b@.subrange(0, i as int) =~= b@.subrange(0, i - 1).push(cb));
    }
    if i == n && i == m {
        assert(a@ =~= a@.subrange(0, i as int));
        assert(b@ =~= b@.subrange(0, i as int));
        TextOrder::Same
    } else if i == n {
        TextOrder::Before
    } else {
        TextOrder::After
    }
}

/// The placeholder that a core's start command uses for the config path.
pub open spec fn placeholder() -> Seq<char> {
    seq!['%', 'c']
}

/// Whether `pat` occurs in `s`.
pub open spec fn seq_contains(s: Seq<char>, pat: Seq<char>) -> bool {
    exists|i: int| 0 <= i && i + pat.len() <= s.len() && #[trigger] s.subrange(i, i + pat.len()) == pat
}

/// `s` with every occurrence of `pat` replaced by `rep`, matches taken left
/// to right without overlap (the behaviour of `str::replace`).
pub open spec fn replace_all(s: Seq<char>, pat: Seq<char>, rep: Seq<char>) -> Seq<char>
    decreases s.len(),
{
    if pat.len() == 0 || s.len() < pat.len() {
        s
    } else if s.subrange(0, pat.len() as int) == pat {
        rep + replace_all(s.skip(pat.len() as int), pat, rep)
    } else {
        seq![s[0]] + replace_all(s.drop_first(), pat, rep)
    }
}

/// A sequence in which `pat` does not occur is left unchanged.
pub proof fn lemma_replace_all_absent(s: Seq<char>, pat: Seq<char>, rep: Seq<char>)
    requires
        !seq_contains(s, pat),
    ensures
        replace_all(s, pat, rep) == s,
    decreases s.len(),
{
    if pat.len() == 0 || s.len() < pat.len() {
    } else {
        assert(s.subrange(0, pat.len() as int) != pat) by {
            if s.subrange(0, pat.len() as int) == pat {
                assert(s.subrange(0, 0 + pat.len() as int) == pat);
                assert(seq_contains(s, pat));
            }
        }
        assert(!seq_contains(s.drop_first(), pat)) by {
            if seq_contains(s.drop_first(), pat) {
                let i = choose|i: int|
                    0 <= i && i + pat.len() <= s.drop_first().len()
                        && #[trigger] s.drop_first().subrange(i, i + pat.len()) == pat;
                assert(s.subrange(i + 1, i + 1 + pat.len()) =~= s.drop_first().subrange(
                    i,
                    i + pat.len(),
                ));
            }
        }
        lemma_replace_all_absent(s.drop_first(), pat, rep);
        assert(s =~= seq![s[0]] + s.drop_first());
    }
}

/// Replaces every `%c` in `s` by `rep`; also says whether `s` held one.
pub fn replace_placeholder(s: &str, rep: &str) -> (r: (String, bool))
    ensures
        r.0@ == replace_all(s@, placeholder(), rep@),
        r.1 == seq_contains(s@, placeholder()),
{
    let n = s.unicode_len();
    let mut res = String::new();
    let mut start: usize = 0;
    let mut i: usize = 0;
    let mut found = false;
    let ghost pat = placeholder();
    assert(s@.skip(0) =~= s@);
    while n >= 2 && i < n - 1
        invariant
            n == s@.len(),
            start <= i <= n,
            pat == placeholder(),
            res@ + s@.subrange(start as int, i as int) + replace_all(s@.skip(i as int), pat, rep@)
                == replace_all(s@, pat, rep@),
            found == exists|j: int|
                0 <= j < i && j + 2 <= n && #[trigger] s@.subrange(j, j + 2) == pat,
        decreases n - i,
    {
        let c0 = s.get_char(i);
        let c1 = s.get_char(i + 1);
        let ghost rest = s@.skip(i as int);
        assert(rest.subrange(0, 2) =~= s@.subrange(i as int, i + 2));
        if c0 == '%' && c1 == 'c' {
            assert(s@.subrange(i as int, i + 2) =~= pat);
            let chunk = s.substring_char(start, i);
            res.append(chunk);
            res.append(rep);
            found = true;
            assert(rest.skip(2) =~= s@.skip(i + 2));
            i = i + 2;
            start = i;
            assert(s@.subrange(start as int, i as int) =~= Seq::<char>::empty());
        } else {
            assert(s@.subrange(i as int, i + 2) != pat) by {
                if s@.subrange(i as int, i + 2) == pat {
                    assert(s@.subrange(i as int, i + 2)[0] == '%');
                    assert(s@.subrange(i as int, i + 2)[1] == 'c');
                }
            }
            assert(rest.drop_first() =~= s@.skip(i + 1));
            assert(s@.subrange(start as int, i + 1) =~= s@.subrange(start as int, i as int).push(
                s@[i as int],
            ));
            i = i + 1;
        }
    }
    // fewer than two characters remain: nothing more can match
    assert(replace_all(s@.skip(i as int), pat, rep@) == s@.skip(i as int));
    let tail = s.substring_char(start, n);
    assert(s@.subrange(start as int, i as int) + s@.skip(i as int) =~= s@.subrange(
        start as int,
        n as int,
    ));
    res.append(tail);
    assert(found == seq_contains(s@, pat)) by {
        if seq_contains(s@, pat) {
            let j = choose|j: int|
                0 <= j && j + pat.len() <= s@.len() && #[trigger] s@.subrange(j, j + pat.len())
                    == pat;
            assert(s@.subrange(j, j + 2) == pat);
        }
    }
    (res, found)
}

/// Characters before the first `%` of a word are kept as they are; the
/// placeholder replacement only acts from there on.
pub proof fn lemma_replace_all_prefix(u: Seq<char>, r: Seq<char>, rep: Seq<char>)
    requires
        !u.contains('%'),
    ensures
        replace_all(u + r, placeholder(), rep) == u + replace_all(r, placeholder(), rep),
    decreases u.len(),
{
    let pat = placeholder();
    if u.len() == 0 {
        assert(u + r =~= r);
        assert(u + replace_all(r, pat, rep) =~= replace_all(r, pat, rep));
    } else {
        let s = u + r;
        let u1 = u.drop_first();
        assert(!u1.contains('%')) by {
            if u1.contains('%') {
                let k = choose|k: int| 0 <= k < u1.len() && u1[k] == '%';
                assert(u[k + 1] == '%');
            }
        }
        assert(u[0] != '%') by {
            assert(u.contains(u[0]));
        }
        lemma_replace_all_prefix(u1, r, rep);
        assert(s.drop_first() =~= u1 + r);
        if s.len() < 2 {
            assert(r.len() < 2);
            assert(replace_all(r, pat, rep) == r);
        } else {
            assert(s.subrange(0, 2)[0] == u[0]);
            assert(s.subrange(0, 2) != pat);
            assert(replace_all(s, pat, rep) == seq![s[0]] + replace_all(s.drop_first(), pat, rep));
        }
        assert(seq![u[0]] + (u1 + replace_all(r, pat, rep)) =~= u + replace_all(r, pat, rep));
    }
}

/// A word made of text around one `%c`, with no other `%`, becomes that text
/// around the replacement: the placeholder may stand anywhere in a word.
pub proof fn law_placeholder_inside_word(u: Seq<char>, v: Seq<char>, rep: Seq<char>)
    requires
        !u.contains('%'),
        !v.contains('%'),
    ensures
        replace_all(u + placeholder() + v, placeholder(), rep) == u + rep + v,
        seq_contains(u + placeholder() + v, placeholder()),
{
    let pat = placeholder();
    assert(u + pat + v =~= u + (pat + v));
    lemma_replace_all_prefix(u, pat + v, rep);
    assert((pat + v).subrange(0, 2) =~= pat);
    assert((pat + v).skip(2) =~= v);
    assert(!seq_contains(v, pat)) by {
        if seq_contains(v, pat) {
            let i = choose|i: int|
                0 <= i && i + pat.len() <= v.len() && #[trigger] v.subrange(i, i + pat.len()) == pat;
            assert(v.subrange(i, i + 2)[0] == '%');
            assert(v[i] == '%');
        }
    }
    lemma_replace_all_absent(v, pat, rep);
    assert(u + (rep + v) =~= u + rep + v);
    let w = u + pat + v;
    assert(w.subrange(u.len() as int, u.len() as int + 2) =~= pat);
    assert(w.subrange(u.len() as int, u.len() as int + pat.len()) == pat);
}

/// `<str as Debug>::fmt`: the quoted, escaped form of a string.
pub uninterp spec fn str_debug_form(s: Seq<char>) -> Seq<char>;

/// Formats `s` with `{:?}`, as the messages that name a config do.
/// Trusted: calls `format!("{:?}", s)`; the result is named, not described.
#[verifier::external_body]
pub(crate) fn debug_form(s: &str) -> (r: String)
    ensures
        r@ == str_debug_form(s@),
{
    format!("{:?}", s)
}

} // verus!
