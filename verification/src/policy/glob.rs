use vstd::prelude::*;

use crate::text::{
    chars_eq, chars_of, contains_char, find_from, has_char, has_prefix, has_suffix, occurs_at,
    occurs_at_exec, sub_vec,
};

verus! {

/// Wildcard matching where `*` stands for any run of characters (including none)
/// and every other character stands for itself.
pub open spec fn wildcard_matches(p: Seq<char>, t: Seq<char>) -> bool
    decreases p.len() + t.len(),
{
    if p.len() == 0 {
        t.len() == 0
    } else if p[0] == '*' {
        wildcard_matches(p.drop_first(), t) || (t.len() > 0 && wildcard_matches(
            p,
            t.drop_first(),
        ))
    } else {
        t.len() > 0 && t[0] == p[0] && wildcard_matches(p.drop_first(), t.drop_first())
    }
}

pub open spec fn star() -> Seq<char> {
    seq!['*']
}

/// A star in front of `r` matches `t` when `r` matches some suffix of `t`.
proof fn lemma_star_intro(r: Seq<char>, t: Seq<char>, j: int)
    requires
        0 <= j <= t.len(),
        wildcard_matches(r, t.subrange(j, t.len() as int)),
    ensures
        wildcard_matches(star() + r, t),
    decreases j,
{
    let p = star() + r;
    assert(p.drop_first() =~= r);
    assert(p[0] == '*');
    if j == 0 {
        assert(t.subrange(0, t.len() as int) =~= t);
    } else {
        assert(t.drop_first().subrange(j - 1, t.drop_first().len() as int) =~= t.subrange(
            j,
            t.len() as int,
        ));
        lemma_star_intro(r, t.drop_first(), j - 1);
    }
}

/// A match of a star in front of `r` yields the suffix that `r` matches.
proof fn lemma_star_elim(r: Seq<char>, t: Seq<char>) -> (j: int)
    requires
        wildcard_matches(star() + r, t),
    ensures
        0 <= j <= t.len(),
        wildcard_matches(r, t.subrange(j, t.len() as int)),
    decreases t.len(),
{
    let p = star() + r;
    assert(p.drop_first() =~= r);
    assert(p[0] == '*');
    if wildcard_matches(r, t) {
        assert(t.subrange(0, t.len() as int) =~= t);
        0
    } else {
        let j1 = lemma_star_elim(r, t.drop_first());
        assert(t.drop_first().subrange(j1, t.drop_first().len() as int) =~= t.subrange(
            j1 + 1,
            t.len() as int,
        ));
        j1 + 1
    }
}

/// A star-free prefix must be matched literally.
proof fn lemma_literal_prefix(s: Seq<char>, r: Seq<char>, t: Seq<char>)
    requires
        !has_char(s, '*'),
    ensures
        wildcard_matches(s + r, t) <==> (s.len() <= t.len() && t.subrange(0, s.len() as int)
            == s && wildcard_matches(r, t.subrange(s.len() as int, t.len() as int))),
    decreases s.len(),
{
    if s.len() == 0 {
        assert(s + r =~= r);
        assert(t.subrange(0, 0) =~= s);
        assert(t.subrange(0, t.len() as int) =~= t);
    } else {
        let p = s + r;
        assert(p[0] == s[0]);
        assert(p.drop_first() =~= s.drop_first() + r);
        assert(!has_char(s.drop_first(), '*')) by {
            if has_char(s.drop_first(), '*') {
                let i = choose|i: int| 0 <= i < s.drop_first().len() && s.drop_first()[i] == '*';
                assert(s[i + 1] == '*');
            }
        }
        assert(s[0] != '*');
        if t.len() > 0 {
            lemma_literal_prefix(s.drop_first(), r, t.drop_first());
            if s.len() <= t.len() {
                assert(t.drop_first().subrange(s.len() - 1, t.drop_first().len() as int)
                    =~= t.subrange(s.len() as int, t.len() as int));
                assert(t.subrange(0, s.len() as int) == s <==> (t[0] == s[0]
                    && t.drop_first().subrange(0, s.len() - 1) == s.drop_first())) by {
                    if t.subrange(0, s.len() as int) == s {
                        assert(t.subrange(0, s.len() as int)[0] == t[0]);
                        assert(t.drop_first().subrange(0, s.len() - 1) =~= s.drop_first());
                    }
                    if t[0] == s[0] && t.drop_first().subrange(0, s.len() - 1) == s.drop_first() {
                        assert forall|k: int| 0 <= k < s.len() implies #[trigger] t.subrange(
                            0,
                            s.len() as int,
                        )[k] == s[k] by {
                            if k > 0 {
                                assert(t.drop_first().subrange(0, s.len() - 1)[k - 1] == s[k]);
                            }
                        }
                        assert(t.subrange(0, s.len() as int) =~= s);
                    }
                }
            }
        }
    }
}

/// Two stars in a row match what one does.
proof fn lemma_double_star(r: Seq<char>, t: Seq<char>)
    ensures
        wildcard_matches(star() + (star() + r), t) == wildcard_matches(star() + r, t),
{
    if wildcard_matches(star() + (star() + r), t) {
        let j = lemma_star_elim(star() + r, t);
        let u = t.subrange(j, t.len() as int);
        let j2 = lemma_star_elim(r, u);
        assert(u.subrange(j2, u.len() as int) =~= t.subrange(j + j2, t.len() as int));
        lemma_star_intro(r, t, j + j2);
    }
    if wildcard_matches(star() + r, t) {
        assert(t.subrange(0, t.len() as int) =~= t);
        lemma_star_intro(star() + r, t, 0);
    }
}

/// A star followed by a star-free word and more pattern: the word may be taken at its
/// first occurrence.
proof fn lemma_first_occurrence(s: Seq<char>, q: Seq<char>, t: Seq<char>, k: int, f: int)
    requires
        !has_char(s, '*'),
        q.len() > 0,
        q[0] == '*',
        0 <= k <= f,
        occurs_at(t, s, f),
        forall|g: int| k <= g < f ==> !occurs_at(t, s, g),
    ensures
        wildcard_matches(star() + (s + q), t.subrange(k, t.len() as int)) == wildcard_matches(
            q,
            t.subrange(f + s.len(), t.len() as int),
        ),
{
    let r2 = q.drop_first();
    assert(q =~= star() + r2);
    let tk = t.subrange(k, t.len() as int);
    if wildcard_matches(star() + (s + q), tk) {
        let j = lemma_star_elim(s + q, tk);
        let u = tk.subrange(j, tk.len() as int);
        assert(u =~= t.subrange(k + j, t.len() as int));
        lemma_literal_prefix(s, q, u);
        assert(u.subrange(0, s.len() as int) =~= t.subrange(k + j, k + j + s.len()));
        assert(occurs_at(t, s, k + j));
        assert(k + j >= f);
        let w = u.subrange(s.len() as int, u.len() as int);
        assert(w =~= t.subrange(k + j + s.len(), t.len() as int));
        let j2 = lemma_star_elim(r2, w);
        let v = t.subrange(f + s.len(), t.len() as int);
        assert(v.subrange((k + j - f) + j2, v.len() as int) =~= w.subrange(j2, w.len() as int));
        lemma_star_intro(r2, v, (k + j - f) + j2);
    }
    if wildcard_matches(q, t.subrange(f + s.len(), t.len() as int)) {
        let u = t.subrange(f, t.len() as int);
        assert(u.subrange(0, s.len() as int) =~= t.subrange(f, f + s.len()));
        assert(u.subrange(s.len() as int, u.len() as int) =~= t.subrange(
            f + s.len(),
            t.len() as int,
        ));
        lemma_literal_prefix(s, q, u);
        assert(tk.subrange(f - k, tk.len() as int) =~= u);
        lemma_star_intro(s + q, tk, f - k);
    }
}

/// With no occurrence of the word after `k`, nothing matches.
proof fn lemma_no_occurrence(s: Seq<char>, q: Seq<char>, t: Seq<char>, k: int)
    requires
        !has_char(s, '*'),
        0 <= k <= t.len(),
        forall|g: int| k <= g ==> !occurs_at(t, s, g),
    ensures
        !wildcard_matches(star() + (s + q), t.subrange(k, t.len() as int)),
{
    let tk = t.subrange(k, t.len() as int);
    if wildcard_matches(star() + (s + q), tk) {
        let j = lemma_star_elim(s + q, tk);
        let u = tk.subrange(j, tk.len() as int);
        assert(u =~= t.subrange(k + j, t.len() as int));
        lemma_literal_prefix(s, q, u);
        assert(u.subrange(0, s.len() as int) =~= t.subrange(k + j, k + j + s.len()));
        assert(occurs_at(t, s, k + j));
    }
}

/// A star followed by a final star-free word: the text must end with the word.
proof fn lemma_final_word(s: Seq<char>, t: Seq<char>, k: int)
    requires
        !has_char(s, '*'),
        0 <= k <= t.len(),
    ensures
        wildcard_matches(star() + s, t.subrange(k, t.len() as int)) == (k <= t.len() - s.len()
            && occurs_at(t, s, t.len() - s.len())),
{
    let tk = t.subrange(k, t.len() as int);
    let e = Seq::<char>::empty();
    assert(s + e =~= s);
    if wildcard_matches(star() + s, tk) {
        let j = lemma_star_elim(s, tk);
        let u = tk.subrange(j, tk.len() as int);
        assert(u =~= t.subrange(k + j, t.len() as int));
        lemma_literal_prefix(s, e, u);
        assert(u.subrange(s.len() as int, u.len() as int).len() == 0);
        assert(k + j + s.len() == t.len());
        assert(u.subrange(0, s.len() as int) =~= t.subrange(k + j, k + j + s.len()));
    }
    if k <= t.len() - s.len() && occurs_at(t, s, t.len() - s.len()) {
        let j = t.len() - s.len() - k;
        let u = tk.subrange(j, tk.len() as int);
        assert(u =~= t.subrange(t.len() - s.len(), t.len() as int));
        assert(u.subrange(0, s.len() as int) =~= u);
        assert(u.subrange(s.len() as int, u.len() as int) =~= e);
        lemma_literal_prefix(s, e, u);
        lemma_star_intro(s, tk, j);
    }
}

/// A star alone matches everything.
pub proof fn lemma_lone_star(t: Seq<char>)
    ensures
        wildcard_matches(star(), t),
{
    let e = Seq::<char>::empty();
    assert(star() + e =~= star());
    assert(t.subrange(t.len() as int, t.len() as int) =~= e);
    lemma_star_intro(e, t, t.len() as int);
}

/// Index of the first `*` at or after `from`, or the length when there is none.
fn next_star(p: &Vec<char>, from: usize) -> (j: usize)
    requires
        from <= p.len(),
    ensures
        from <= j <= p.len(),
        j < p.len() ==> p@[j as int] == '*',
        forall|k: int| from <= k < j ==> p@[k] != '*',
{
    let mut j = from;
    while j < p.len()
        invariant
            from <= j <= p.len(),
            forall|k: int| from <= k < j ==> p@[k] != '*',
        decreases p.len() - j,
    {
        if p[j] == '*' {
            return j;
        }
        j = j + 1;
    }
    j
}

/// Plain patterns: a pattern without `*` matches exactly itself; `a*` matches the texts
/// that start with `a`; `*z` those that end with `z`; and `a*z` those that start with `a`,
/// end with `z`, and are long enough for both.
pub proof fn lemma_glob_plain_patterns(a: Seq<char>, z: Seq<char>, t: Seq<char>)
    requires
        !has_char(a, '*'),
        !has_char(z, '*'),
    ensures
        wildcard_matches(a, t) == (a == t),
        wildcard_matches(a + star(), t) == has_prefix(t, a),
        wildcard_matches(star() + z, t) == has_suffix(t, z),
        wildcard_matches(a + star() + z, t) == (has_prefix(t, a) && has_suffix(t, z) && t.len()
            >= a.len() + z.len()),
{
    let e = Seq::<char>::empty();
    // a alone
    assert(a + e =~= a);
    lemma_literal_prefix(a, e, t);
    if a.len() <= t.len() && t.subrange(0, a.len() as int) == a {
        if t.subrange(a.len() as int, t.len() as int).len() == 0 {
            assert(t =~= a);
        }
    }
    if a == t {
        assert(t.subrange(0, a.len() as int) =~= a);
        assert(t.subrange(a.len() as int, t.len() as int) =~= e);
    }
    // a*
    lemma_literal_prefix(a, star(), t);
    if a.len() <= t.len() {
        lemma_lone_star(t.subrange(a.len() as int, t.len() as int));
    }
    // *z
    lemma_final_word(z, t, 0);
    assert(t.subrange(0, t.len() as int) =~= t);
    // a*z
    assert(a + star() + z =~= a + (star() + z));
    lemma_literal_prefix(a, star() + z, t);
    if a.len() <= t.len() {
        let rest = t.subrange(a.len() as int, t.len() as int);
        lemma_final_word(z, rest, 0);
        assert(rest.subrange(0, rest.len() as int) =~= rest);
        if z.len() <= rest.len() {
            assert(rest.subrange(rest.len() - z.len(), rest.len() as int) =~= t.subrange(
                t.len() - z.len(),
                t.len() as int,
            ));
        }
    }
}

/// Match a glob pattern against text: `*` stands for any run of characters, every other
/// character for itself.
pub fn glob_match(pattern: &str, text: &str) -> (r: bool)
    ensures
        r == wildcard_matches(pattern@, text@),
{
    let p = chars_of(pattern);
    let t = chars_of(text);
    glob_match_chars(&p, &t)
}

/// `glob_match` on character vectors.
pub fn glob_match_chars(p: &Vec<char>, t: &Vec<char>) -> (r: bool)
    ensures
        r == wildcard_matches(p@, t@),
{
    if p.len() == 1 && p[0] == '*' {
        proof {
            assert(p@ =~= star());
            lemma_lone_star(t@);
        }
        return true;
    }
    if !contains_char(p, '*') {
        proof {
            let e = Seq::<char>::empty();
            assert(p@ + e =~= p@);
            lemma_literal_prefix(p@, e, t@);
            if t@.len() >= p@.len() && t@.subrange(0, p@.len() as int) == p@ {
                if t@.subrange(p@.len() as int, t@.len() as int).len() == 0 {
                    assert(t@ =~= p@);
                }
            }
            if p@ == t@ {
                assert(t@.subrange(0, p@.len() as int) =~= p@);
                assert(t@.subrange(p@.len() as int, t@.len() as int) =~= e);
            }
        }
        return chars_eq(p, t);
    }
    let mut i: usize = 0;
    let mut tp: usize = 0;
    loop
        invariant
            i <= p.len(),
            tp <= t.len(),
            has_char(p@, '*'),
            i == 0 ==> tp == 0,
            i > 0 ==> p@[i - 1] == '*',
            i > 0 ==> wildcard_matches(p@, t@) == wildcard_matches(
                p@.subrange(i - 1, p.len() as int),
                t@.subrange(tp as int, t.len() as int),
            ),
        decreases p.len() - i,
    {
        let j = next_star(p, i);
        let ghost rest = p@.subrange(j as int, p.len() as int);
        if i == 0 {
            // the first word, before the first star
            assert(j < p.len()) by {
                let k = choose|k: int| 0 <= k < p@.len() && p@[k] == '*';
                assert(k >= j);
            }
            if j > 0 {
                let seg = sub_vec(p, 0, j);
                proof {
                    assert(!has_char(seg@, '*'));
                    assert(p@ =~= seg@ + rest);
                    lemma_literal_prefix(seg@, rest, t@);
                }
                if !occurs_at_exec(t, &seg, 0) {
                    proof {
                        if t@.len() >= seg@.len() {
                            assert(t@.subrange(0, seg@.len() as int) != seg@);
                        }
                    }
                    return false;
                }
                tp = j;
                assert(t@.subrange(0, seg@.len() as int) == seg@);
            } else {
                assert(p@.subrange(0, p.len() as int) =~= p@);
                assert(t@.subrange(0, t.len() as int) =~= t@);
            }
            i = j + 1;
        } else {
            let ghost cur = p@.subrange(i - 1, p.len() as int);
            let ghost tt = t@.subrange(tp as int, t.len() as int);
            if j == p.len() {
                // the last word, after the last star
                if j > i {
                    let seg = sub_vec(p, i, j);
                    proof {
                        assert(cur =~= star() + seg@);
                        assert(!has_char(seg@, '*'));
                        lemma_final_word(seg@, t@, tp as int);
                    }
                    if seg.len() > t.len() || !occurs_at_exec(t, &seg, t.len() - seg.len()) {
                        return false;
                    }
                    match find_from(t, tp, &seg) {
                        None => {
                            return false;
                        },
                        Some(f) => {
                            assert(f + seg.len() <= t.len());
                            return true;
                        },
                    }
                } else {
                    proof {
                        assert(cur =~= star());
                        lemma_lone_star(tt);
                    }
                    return true;
                }
            } else {
                let ghost after = p@.subrange(j + 1, p.len() as int);
                if j > i {
                    // a word between two stars
                    let seg = sub_vec(p, i, j);
                    proof {
                        assert(cur =~= star() + (seg@ + rest));
                        assert(!has_char(seg@, '*'));
                    }
                    match find_from(t, tp, &seg) {
                        None => {
                            proof {
                                lemma_no_occurrence(seg@, rest, t@, tp as int);
                            }
                            return false;
                        },
                        Some(f) => {
                            proof {
                                lemma_first_occurrence(seg@, rest, t@, tp as int, f as int);
                            }
                            tp = f + seg.len();
                        },
                    }
                } else {
                    proof {
                        assert(rest =~= star() + after);
                        assert(cur =~= star() + (star() + after));
                        lemma_double_star(after, tt);
                    }
                }
                i = j + 1;
            }
        }
    }
}

} // verus!
