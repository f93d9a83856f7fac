//! Character-level text helpers shared by every parser stage: splitting a
//! text on a separator, joining parts back with a separator, and ASCII
//! case-insensitive comparison, together with the lemmas that relate them.

use vstd::prelude::*;

verus! {

/// The ASCII lowercase folding of a character, as a scalar value.
pub open spec fn lower_u32(c: char) -> u32 {
    if 65 <= c as u32 && c as u32 <= 90 {
        (c as u32 + 32) as u32
    } else {
        c as u32
    }
}

/// Whether two characters are equal up to ASCII case.
pub open spec fn eq_icase_char(a: char, b: char) -> bool {
    lower_u32(a) == lower_u32(b)
}

/// Whether two texts are equal up to ASCII case.
pub open spec fn eq_icase(a: Seq<char>, b: Seq<char>) -> bool {
    a.len() == b.len() && (forall|i: int| 0 <= i < a.len() ==> eq_icase_char(a[i], b[i]))
}

/// Case-insensitive equality is symmetric.
pub proof fn lemma_eq_icase_sym(a: Seq<char>, b: Seq<char>)
    requires
        eq_icase(a, b),
    ensures
        eq_icase(b, a),
{
}

/// Case-insensitive equality is transitive.
pub proof fn lemma_eq_icase_trans(a: Seq<char>, b: Seq<char>, c: Seq<char>)
    requires
        eq_icase(a, b),
        eq_icase(b, c),
    ensures
        eq_icase(a, c),
{
}

/// Compares two texts for equality up to ASCII case.
pub fn eq_icase_str(a: &str, b: &str) -> (r: bool)
    ensures
        r == eq_icase(a@, b@),
{
    let na = a.unicode_len();
    let nb = b.unicode_len();
    if na != nb {
        return false;
    }
    let mut i: usize = 0;
    while i < na
        invariant
            na == a@.len(),
            nb == b@.len(),
            na == nb,
            0 <= i <= na,
            forall|j: int| 0 <= j < i ==> eq_icase_char(a@[j], b@[j]),
        decreases na - i,
    {
        let ca = a.get_char(i) as u32;
        let cb = b.get_char(i) as u32;
        let la = if 65 <= ca && ca <= 90 {
            ca + 32
        } else {
            ca
        };
        let lb = if 65 <= cb && cb <= 90 {
            cb + 32
        } else {
            cb
        };
        if la != lb {
            assert(!eq_icase_char(a@[i as int], b@[i as int]));
            return false;
        }
        i = i + 1;
    }
    true
}

/// Splits a text on every occurrence of `sep`. A text with `n` separators
/// yields `n + 1` parts, so the result is never empty: splitting the empty
/// text gives one empty part.
pub open spec fn split_on(s: Seq<char>, sep: char) -> Seq<Seq<char>>
    decreases s.len(),
{
    if s.len() == 0 {
        seq![Seq::<char>::empty()]
    } else if s[0] == sep {
        seq![Seq::<char>::empty()] + split_on(s.drop_first(), sep)
    } else {
        let rest = split_on(s.drop_first(), sep);
        seq![seq![s[0]] + rest[0]] + rest.drop_first()
    }
}

/// Joins parts with `sep` between consecutive parts (no trailing separator).
pub open spec fn join_with(parts: Seq<Seq<char>>, sep: char) -> Seq<char>
    decreases parts.len(),
{
    if parts.len() == 0 {
        Seq::empty()
    } else if parts.len() == 1 {
        parts[0]
    } else {
        parts[0] + seq![sep] + join_with(parts.drop_first(), sep)
    }
}

/// Splitting always yields at least one part.
pub proof fn lemma_split_on_len(s: Seq<char>, sep: char)
    ensures
        split_on(s, sep).len() >= 1,
    decreases s.len(),
{
    if s.len() == 0 {
    } else {
        lemma_split_on_len(s.drop_first(), sep);
    }
}

/// Joining the parts of a split restores the original text.
pub proof fn lemma_join_split(s: Seq<char>, sep: char)
    ensures
        join_with(split_on(s, sep), sep) =~= s,
    decreases s.len(),
{
    if s.len() == 0 {
        assert(split_on(s, sep).len() == 1);
        assert(join_with(split_on(s, sep), sep) == split_on(s, sep)[0]);
        assert(join_with(split_on(s, sep), sep) =~= s);
    } else if s[0] == sep {
        lemma_join_split(s.drop_first(), sep);
        lemma_split_on_len(s.drop_first(), sep);
        let rest = split_on(s.drop_first(), sep);
        let combined = seq![Seq::<char>::empty()] + rest;
        assert(combined.len() >= 2);
        assert(combined[0] == Seq::<char>::empty());
        assert(combined.drop_first() =~~= rest);
        assert(join_with(combined, sep) == combined[0] + seq![sep] + join_with(
            combined.drop_first(),
            sep,
        ));
        assert(join_with(combined, sep) =~= seq![sep] + s.drop_first());
        assert(seq![sep] + s.drop_first() =~= s);
        assert(join_with(split_on(s, sep), sep) =~= s);
    } else {
        lemma_join_split(s.drop_first(), sep);
        let rest = split_on(s.drop_first(), sep);
        lemma_split_on_len(s.drop_first(), sep);
        if rest.len() == 1 {
            let combined = seq![seq![s[0]] + rest[0]] + rest.drop_first();
            assert(rest.drop_first() =~~= Seq::<Seq<char>>::empty());
            assert(combined.len() == 1);
            assert(join_with(combined, sep) == combined[0]);
            assert(combined[0] == seq![s[0]] + rest[0]);
            assert(join_with(rest, sep) == rest[0]);
            assert(seq![s[0]] + s.drop_first() =~= s);
            assert(join_with(split_on(s, sep), sep) =~= s);
        } else {
            let combined = seq![seq![s[0]] + rest[0]] + rest.drop_first();
            assert(combined.len() == rest.len());
            assert(combined[0] == seq![s[0]] + rest[0]);
            assert(combined.drop_first() =~~= rest.drop_first());
            assert(join_with(combined, sep) == combined[0] + seq![sep] + join_with(
                combined.drop_first(),
                sep,
            ));
            assert(join_with(rest, sep) == rest[0] + seq![sep] + join_with(
                rest.drop_first(),
                sep,
            ));
            assert(join_with(rest, sep) =~= s.drop_first());
            assert(join_with(combined, sep) =~= seq![s[0]] + join_with(rest, sep));
            assert(seq![s[0]] + s.drop_first() =~= s);
            assert(join_with(split_on(s, sep), sep) =~= s);
        }
    }
}

/// Splitting distributes over a separator placed between two texts.
pub proof fn lemma_split_on_append(a: Seq<char>, b: Seq<char>, sep: char)
    ensures
        split_on(a + seq![sep] + b, sep) =~~= split_on(a, sep) + split_on(b, sep),
    decreases a.len(),
{
    if a.len() == 0 {
        assert(a + seq![sep] + b =~= seq![sep] + b);
        assert((seq![sep] + b)[0] == sep);
        assert((seq![sep] + b).drop_first() =~= b);
        assert(split_on(a + seq![sep] + b, sep) =~~= seq![Seq::<char>::empty()] + split_on(
            b,
            sep,
        ));
        assert(split_on(a, sep) =~~= seq![Seq::<char>::empty()]);
    } else {
        let whole = a + seq![sep] + b;
        assert(whole.len() > 0);
        assert(whole[0] == a[0]);
        assert(whole.drop_first() =~= a.drop_first() + seq![sep] + b);
        lemma_split_on_append(a.drop_first(), b, sep);
        if a[0] == sep {
            assert(split_on(whole, sep) =~~= seq![Seq::<char>::empty()] + split_on(
                a.drop_first() + seq![sep] + b,
                sep,
            ));
        } else {
            let rest = split_on(a.drop_first() + seq![sep] + b, sep);
            let rest_a = split_on(a.drop_first(), sep);
            lemma_split_on_len(a.drop_first(), sep);
            assert(rest =~~= rest_a + split_on(b, sep));
            assert(rest[0] == rest_a[0]);
            assert(rest.drop_first() =~~= rest_a.drop_first() + split_on(b, sep));
            assert(split_on(whole, sep) =~~= seq![seq![a[0]] + rest[0]] + rest.drop_first());
            assert(split_on(a, sep) =~~= seq![seq![a[0]] + rest_a[0]] + rest_a.drop_first());
        }
    }
}

/// Splitting a text that contains no separator yields that text alone.
pub proof fn lemma_split_on_no_sep(s: Seq<char>, sep: char)
    requires
        !s.contains(sep),
    ensures
        split_on(s, sep) =~~= seq![s],
    decreases s.len(),
{
    if s.len() == 0 {
    } else {
        assert(s[0] != sep);
        assert(!s.drop_first().contains(sep)) by {
            if s.drop_first().contains(sep) {
                let i = choose|i: int| 0 <= i < s.drop_first().len() && s.drop_first()[i] == sep;
                assert(s[i + 1] == sep);
            }
        }
        lemma_split_on_no_sep(s.drop_first(), sep);
        assert(split_on(s, sep) =~~= seq![seq![s[0]] + s.drop_first()]);
        assert(seq![s[0]] + s.drop_first() =~= s);
    }
}

/// How a split changes when one character is appended.
pub proof fn lemma_split_on_push(s: Seq<char>, c: char, sep: char)
    ensures
        c == sep ==> split_on(s.push(c), sep) =~~= split_on(s, sep).push(Seq::<char>::empty()),
        c != sep ==> split_on(s.push(c), sep) =~~= split_on(s, sep).update(
            split_on(s, sep).len() - 1,
            split_on(s, sep).last().push(c),
        ),
    decreases s.len(),
{
    lemma_split_on_len(s, sep);
    if s.len() == 0 {
        let t = s.push(c);
        assert(t.len() == 1);
        assert(t[0] == c);
        assert(t.drop_first() =~= s);
        if c == sep {
            assert(split_on(t, sep) =~~= seq![Seq::<char>::empty()] + split_on(s, sep));
            assert(split_on(t, sep) =~~= split_on(s, sep).push(Seq::<char>::empty()));
        } else {
            assert(split_on(t, sep) =~~= seq![seq![c] + split_on(s, sep)[0]] + split_on(
                s,
                sep,
            ).drop_first());
            assert(seq![c] + split_on(s, sep)[0] =~= seq![c]);
            assert(split_on(s, sep).drop_first() =~~= Seq::<Seq<char>>::empty());
            assert(split_on(t, sep) =~~= seq![seq![c]]);
            assert(split_on(s, sep).update(0, split_on(s, sep).last().push(c)) =~~= seq![seq![c]]);
        }
    } else {
        let t = s.push(c);
        assert(t[0] == s[0]);
        assert(t.drop_first() =~= s.drop_first().push(c));
        lemma_split_on_push(s.drop_first(), c, sep);
        lemma_split_on_len(s.drop_first(), sep);
        let rest = split_on(s.drop_first(), sep);
        let rest2 = split_on(s.drop_first().push(c), sep);
        if s[0] == sep {
            if c == sep {
                assert(split_on(t, sep) =~~= seq![Seq::<char>::empty()] + rest2);
                assert(split_on(s, sep).push(Seq::<char>::empty()) =~~= seq![Seq::<char>::empty()]
                    + rest.push(Seq::<char>::empty()));
            } else {
                assert(split_on(t, sep) =~~= seq![Seq::<char>::empty()] + rest2);
                assert(split_on(s, sep).update(
                    split_on(s, sep).len() - 1,
                    split_on(s, sep).last().push(c),
                ) =~~= seq![Seq::<char>::empty()] + rest.update(rest.len() - 1, rest.last().push(c)));
            }
        } else {
            if c == sep {
                assert(rest2 =~~= rest.push(Seq::<char>::empty()));
                assert(rest2[0] == rest[0]);
                assert(rest2.drop_first() =~~= rest.drop_first().push(Seq::<char>::empty()));
                assert(split_on(t, sep) =~~= seq![seq![t[0]] + rest2[0]] + rest2.drop_first());
                assert(split_on(s, sep).push(Seq::<char>::empty()) =~~= seq![seq![s[0]] + rest[0]]
                    + rest.drop_first().push(Seq::<char>::empty()));
            } else {
                assert(rest2 =~~= rest.update(rest.len() - 1, rest.last().push(c)));
                if rest.len() == 1 {
                    assert(rest2[0] == rest[0].push(c));
                    assert(rest2.drop_first() =~~= rest.drop_first());
                    assert(split_on(t, sep) =~~= seq![seq![t[0]] + rest2[0]] + rest2.drop_first());
                    assert(split_on(s, sep).last() =~= seq![s[0]] + rest[0]);
                    assert((seq![s[0]] + rest[0]).push(c) =~= seq![s[0]] + rest[0].push(c));
                    assert(split_on(s, sep).update(
                        split_on(s, sep).len() - 1,
                        split_on(s, sep).last().push(c),
                    ) =~~= seq![seq![s[0]] + rest[0].push(c)]);
                    assert(split_on(t, sep) =~~= seq![seq![s[0]] + rest[0].push(c)]);
                } else {
                    assert(rest2[0] == rest[0]);
                    assert(rest2.drop_first() =~~= rest.drop_first().update(
                        rest.drop_first().len() - 1,
                        rest.drop_first().last().push(c),
                    ));
                    assert(split_on(t, sep) =~~= seq![seq![t[0]] + rest2[0]] + rest2.drop_first());
                    assert(split_on(s, sep).update(
                        split_on(s, sep).len() - 1,
                        split_on(s, sep).last().push(c),
                    ) =~~= seq![seq![s[0]] + rest[0]] + rest.drop_first().update(
                        rest.drop_first().len() - 1,
                        rest.drop_first().last().push(c),
                    ));
                }
            }
        }
    }
}

/// How a join changes when one more part is appended.
pub proof fn lemma_join_with_push(parts: Seq<Seq<char>>, x: Seq<char>, sep: char)
    requires
        parts.len() >= 1,
    ensures
        join_with(parts.push(x), sep) =~= join_with(parts, sep) + seq![sep] + x,
    decreases parts.len(),
{
    if parts.len() == 1 {
        let t = parts.push(x);
        assert(t.len() == 2);
        assert(t[0] == parts[0]);
        assert(t.drop_first() =~~= seq![x]);
        assert(join_with(t, sep) == t[0] + seq![sep] + join_with(t.drop_first(), sep));
        assert(join_with(t.drop_first(), sep) == t.drop_first()[0]);
        assert(t.drop_first()[0] == x);
        assert(join_with(parts.push(x), sep) =~= parts[0] + seq![sep] + x);
    } else {
        lemma_join_with_push(parts.drop_first(), x, sep);
        assert(parts.push(x)[0] == parts[0]);
        assert(parts.push(x).drop_first() =~~= parts.drop_first().push(x));
    }
}

/// A concatenation is free of a character when both halves are.
pub proof fn lemma_not_contains_concat(a: Seq<char>, b: Seq<char>, c: char)
    requires
        !a.contains(c),
        !b.contains(c),
    ensures
        !(a + b).contains(c),
{
    if (a + b).contains(c) {
        let i = choose|i: int| 0 <= i < (a + b).len() && (a + b)[i] == c;
        if i < a.len() {
            assert(a[i] == c);
        } else {
            assert(b[i - a.len()] == c);
        }
    }
}

/// Splits a text on every occurrence of `sep`, as owned parts.
pub fn split_char(s: &str, sep: char) -> (parts: Vec<String>)
    ensures
        parts.deep_view() =~~= split_on(s@, sep),
        parts.len() >= 1,
{
    let n = s.unicode_len();
    let mut parts: Vec<String> = Vec::new();
    let mut start: usize = 0;
    let mut i: usize = 0;
    proof {
        assert(s@.subrange(0, 0) =~= Seq::<char>::empty());
        assert(parts.deep_view().push(s@.subrange(0, 0)) =~~= split_on(s@.subrange(0, 0), sep));
    }
    while i < n
        invariant
            n == s@.len(),
            0 <= start <= i <= n,
            parts.deep_view().push(s@.subrange(start as int, i as int)) =~~= split_on(
                s@.subrange(0, i as int),
                sep,
            ),
        decreases n - i,
    {
        let ghost pre = s@.subrange(0, i as int);
        let ghost cur = s@.subrange(start as int, i as int);
        let c = s.get_char(i);
        proof {
            lemma_split_on_push(pre, s@[i as int], sep);
            assert(pre.push(s@[i as int]) =~= s@.subrange(0, i + 1));
            lemma_split_on_len(pre, sep);
            assert(split_on(pre, sep).last() == cur);
        }
        if c == sep {
            let piece = s.substring_char(start, i);
            parts.push(String::from_str(piece));
            start = i + 1;
            proof {
                assert(s@.subrange(start as int, i + 1) =~= Seq::<char>::empty());
                assert(parts.deep_view() =~~= split_on(pre, sep));
                assert(parts.deep_view().push(s@.subrange(start as int, i + 1)) =~~= split_on(
                    s@.subrange(0, i + 1),
                    sep,
                ));
            }
        } else {
            proof {
                assert(cur.push(s@[i as int]) =~= s@.subrange(start as int, i + 1));
                assert(split_on(s@.subrange(0, i + 1), sep) =~~= split_on(pre, sep).update(
                    split_on(pre, sep).len() - 1,
                    cur.push(s@[i as int]),
                ));
                assert(parts.deep_view().push(s@.subrange(start as int, i + 1)) =~~= split_on(
                    pre,
                    sep,
                ).update(split_on(pre, sep).len() - 1, cur.push(s@[i as int])));
            }
        }
        i = i + 1;
    }
    let piece = s.substring_char(start, n);
    parts.push(String::from_str(piece));
    proof {
        assert(s@.subrange(0, n as int) =~= s@);
        assert(parts.deep_view() =~~= split_on(s@, sep));
        lemma_split_on_len(s@, sep);
    }
    parts
}

/// The one-character text holding a space or newline separator.
fn sep_str(sep: char) -> (r: &'static str)
    requires
        sep == ' ' || sep == '\n',
    ensures
        r@ =~= seq![sep],
{
    if sep == ' ' {
        let r = " ";
        proof {
            reveal_strlit(" ");
        }
        r
    } else {
        let r = "\n";
        proof {
            reveal_strlit("\n");
        }
        r
    }
}

/// Joins `parts[from..]` with the separator between consecutive parts.
pub(crate) fn join_from(parts: &Vec<String>, from: usize, sep: char) -> (r: String)
    requires
        from <= parts@.len(),
        sep == ' ' || sep == '\n',
    ensures
        r@ =~= join_with(parts.deep_view().skip(from as int), sep),
{
    let mut r = String::new();
    let mut i: usize = from;
    let n = parts.len();
    while i < n
        invariant
            n == parts@.len(),
            from <= i <= n,
            sep == ' ' || sep == '\n',
            r@ =~= join_with(parts.deep_view().subrange(from as int, i as int), sep),
        decreases n - i,
    {
        let ghost done = parts.deep_view().subrange(from as int, i as int);
        if i > from {
            r.append(sep_str(sep));
        }
        r.append(parts[i].as_str());
        proof {
            let next = parts.deep_view().subrange(from as int, i + 1);
            assert(next =~~= done.push(parts.deep_view()[i as int]));
            if i > from {
                lemma_join_with_push(done, parts.deep_view()[i as int], sep);
            } else {
                assert(next.len() == 1);
                assert(join_with(next, sep) == next[0]);
            }
        }
        i = i + 1;
    }
    proof {
        assert(parts.deep_view().subrange(from as int, n as int) =~~= parts.deep_view().skip(
            from as int,
        ));
    }
    r
}

} // verus!
