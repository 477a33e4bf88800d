use vstd::prelude::*;
use vstd::std_specs::iter::IteratorSpec;
use vstd::string::StringExecFns;

verus! {

broadcast use vstd::string::group_string_axioms;

/// The characters of a string slice, in order.
pub fn chars_of(s: &str) -> (v: Vec<char>)
    ensures
        v@ == s@,
{
    let mut v: Vec<char> = Vec::new();
    for c in iter: s.chars()
        invariant
            v@ == iter.seq().take(iter.index() as int),
    {
        v.push(c);
    }
    assert(v@ =~= s@);
    v
}

/// `needle` occurs in `hay` starting at index `at`.
pub open spec fn occurs_at(hay: Seq<char>, needle: Seq<char>, at: int) -> bool {
    &&& 0 <= at
    &&& at + needle.len() <= hay.len()
    &&& hay.subrange(at, at + needle.len()) == needle
}

/// `c` occurs somewhere in `s`.
pub open spec fn has_char(s: Seq<char>, c: char) -> bool {
    exists|i: int| 0 <= i < s.len() && s[i] == c
}

/// Elementwise equality of two character vectors.
pub fn chars_eq(a: &Vec<char>, b: &Vec<char>) -> (r: bool)
    ensures
        r == (a@ == b@),
{
    if a.len() != b.len() {
        return false;
    }
    let mut i: usize = 0;
    while i < a.len()
        invariant
            a.len() == b.len(),
            i <= a.len(),
            forall|k: int| 0 <= k < i ==> a@[k] == b@[k],
        decreases a.len() - i,
    {
        if a[i] != b[i] {
            return false;
        }
        i = i + 1;
    }
    assert(a@ =~= b@);
    true
}

/// String-slice equality, by characters.
pub fn str_eq(a: &str, b: &str) -> (r: bool)
    ensures
        r == (a@ == b@),
{
    let x = chars_of(a);
    let y = chars_of(b);
    chars_eq(&x, &y)
}

/// Whether `needle` occurs in `hay` at index `at`.
pub fn occurs_at_exec(hay: &Vec<char>, needle: &Vec<char>, at: usize) -> (r: bool)
    ensures
        r == occurs_at(hay@, needle@, at as int),
{
    if at > hay.len() || needle.len() > hay.len() - at {
        return false;
    }
    let mut k: usize = 0;
    while k < needle.len()
        invariant
            at + needle.len() <= hay.len(),
            k <= needle.len(),
            forall|m: int| 0 <= m < k ==> hay@[at + m] == needle@[m],
        decreases needle.len() - k,
    {
        if hay[at + k] != needle[k] {
            assert(hay@.subrange(at as int, at + needle.len())[k as int] != needle@[k as int]);
            return false;
        }
        k = k + 1;
    }
    assert(hay@.subrange(at as int, at + needle.len()) =~= needle@);
    true
}

/// The first index at or after `from` where `needle` occurs in `hay`.
pub fn find_from(hay: &Vec<char>, from: usize, needle: &Vec<char>) -> (r: Option<usize>)
    ensures
        match r {
            Some(f) => {
                &&& from <= f
                &&& occurs_at(hay@, needle@, f as int)
                &&& forall|g: int| from <= g < f ==> !occurs_at(hay@, needle@, g)
            },
            None => forall|g: int| from <= g ==> !occurs_at(hay@, needle@, g),
        },
{
    if from > hay.len() {
        return None;
    }
    let mut g: usize = from;
    while g < hay.len()
        invariant
            from <= g <= hay.len(),
            forall|h: int| from <= h < g ==> !occurs_at(hay@, needle@, h),
        decreases hay.len() - g,
    {
        if occurs_at_exec(hay, needle, g) {
            return Some(g);
        }
        g = g + 1;
    }
    if occurs_at_exec(hay, needle, g) {
        return Some(g);
    }
    None
}

/// Whether `c` occurs in `s`.
pub fn contains_char(s: &Vec<char>, c: char) -> (r: bool)
    ensures
        r == has_char(s@, c),
{
    let mut i: usize = 0;
    while i < s.len()
        invariant
            i <= s.len(),
            forall|k: int| 0 <= k < i ==> s@[k] != c,
        decreases s.len() - i,
    {
        if s[i] == c {
            return true;
        }
        i = i + 1;
    }
    false
}

/// A copy of `v[from..to]`.
pub fn sub_vec(v: &Vec<char>, from: usize, to: usize) -> (r: Vec<char>)
    requires
        from <= to <= v.len(),
    ensures
        r@ == v@.subrange(from as int, to as int),
{
    let mut r: Vec<char> = Vec::new();
    let mut i: usize = from;
    while i < to
        invariant
            from <= i <= to <= v.len(),
            r@ == v@.subrange(from as int, i as int),
        decreases to - i,
    {
        r.push(v[i]);
        i = i + 1;
        assert(r@ =~= v@.subrange(from as int, i as int));
    }
    r
}

/// `a` followed by `b`, as a new string.
pub fn concat_str(a: &str, b: &str) -> (r: String)
    ensures
        r@ == a@ + b@,
{
    let s = a.to_string();
    s.concat(b)
}

/// A string holding the given characters.
pub fn string_from_chars(v: &Vec<char>) -> (r: String)
    ensures
        r@ == v@,
{
    let mut r = String::new();
    let mut i: usize = 0;
    while i < v.len()
        invariant
            i <= v.len(),
            r@ == v@.subrange(0, i as int),
        decreases v.len() - i,
    {
        push_char(&mut r, v[i]);
        i = i + 1;
        assert(r@ =~= v@.subrange(0, i as int));
    }
    r
}

/// `String::push` from std: appends one character.
#[verifier::external_body]
pub(crate) fn push_char(s: &mut String, c: char)
    ensures
        final(s)@ == old(s)@.push(c),
{
    s.push(c)
}

/// `p` is a prefix of `s`.
pub open spec fn has_prefix(s: Seq<char>, p: Seq<char>) -> bool {
    p.len() <= s.len() && s.subrange(0, p.len() as int) == p
}

/// `p` is a suffix of `s`.
pub open spec fn has_suffix(s: Seq<char>, p: Seq<char>) -> bool {
    p.len() <= s.len() && s.subrange(s.len() - p.len(), s.len() as int) == p
}

/// `str::starts_with`, by characters.
pub fn starts_with(s: &str, p: &str) -> (r: bool)
    ensures
        r == has_prefix(s@, p@),
{
    let x = chars_of(s);
    let y = chars_of(p);
    occurs_at_exec(&x, &y, 0)
}

/// `str::ends_with`, by characters.
pub fn ends_with(s: &str, p: &str) -> (r: bool)
    ensures
        r == has_suffix(s@, p@),
{
    let x = chars_of(s);
    let y = chars_of(p);
    if y.len() > x.len() {
        return false;
    }
    occurs_at_exec(&x, &y, x.len() - y.len())
}

/// `c` is a decimal digit.
pub open spec fn is_digit(c: char) -> bool {
    '0' <= c && c <= '9'
}

/// Every character of `s` is a decimal digit.
pub open spec fn all_digits(s: Seq<char>) -> bool {
    forall|i: int| 0 <= i < s.len() ==> is_digit(#[trigger] s[i])
}

/// The number that a string of decimal digits spells.
pub open spec fn decimal_value(s: Seq<char>) -> nat
    decreases s.len(),
{
    if s.len() == 0 {
        0
    } else {
        decimal_value(s.drop_last()) * 10 + ((s.last() as nat) - ('0' as nat)) as nat
    }
}

/// What `str::parse::<u64>` gives: an optional `+` and then one or more decimal digits
/// whose value fits in 64 bits.
pub open spec fn spec_parse_u64(s: Seq<char>) -> Option<u64> {
    let d = if s.len() > 0 && s[0] == '+' {
        s.drop_first()
    } else {
        s
    };
    if d.len() > 0 && all_digits(d) && decimal_value(d) <= u64::MAX {
        Some(decimal_value(d) as u64)
    } else {
        None
    }
}

proof fn lemma_decimal_value_grows(s: Seq<char>, k: int)
    requires
        0 <= k <= s.len(),
        all_digits(s),
    ensures
        decimal_value(s.subrange(0, k)) <= decimal_value(s),
    decreases s.len() - k,
{
    if k < s.len() {
        let t = s.subrange(0, k + 1);
        assert(t.drop_last() =~= s.subrange(0, k));
        assert(is_digit(s[k]));
        lemma_decimal_value_grows(s, k + 1);
    } else {
        assert(s.subrange(0, k) =~= s);
    }
}

/// `str::parse::<u64>` on a character vector.
pub fn parse_u64_chars(s: &Vec<char>) -> (r: Option<u64>)
    ensures
        r == spec_parse_u64(s@),
{
    let start: usize = if s.len() > 0 && s[0] == '+' {
        1
    } else {
        0
    };
    let ghost d = if s@.len() > 0 && s@[0] == '+' {
        s@.drop_first()
    } else {
        s@
    };
    assert(d =~= s@.subrange(start as int, s.len() as int));
    if start >= s.len() {
        return None;
    }
    let mut v: u64 = 0;
    let mut i: usize = start;
    while i < s.len()
        invariant
            start <= i <= s.len(),
            d == s@.subrange(start as int, s.len() as int),
            d == (if s@.len() > 0 && s@[0] == '+' {
                s@.drop_first()
            } else {
                s@
            }),
            d.len() > 0,
            all_digits(s@.subrange(start as int, i as int)),
            v as nat == decimal_value(s@.subrange(start as int, i as int)),
        decreases s.len() - i,
    {
        let c = s[i];
        let ghost pre = s@.subrange(start as int, i as int);
        let ghost next = s@.subrange(start as int, i + 1);
        assert(next.drop_last() =~= pre);
        assert(next.last() == c);
        if !('0' <= c && c <= '9') {
            assert(d[i - start] == s@[i as int]);
            assert(!is_digit(d[i - start]));
            return None;
        }
        let digit = (c as u32 - '0' as u32) as u64;
        assert(all_digits(next)) by {
            assert forall|k: int| 0 <= k < next.len() implies is_digit(#[trigger] next[k]) by {
                if k < pre.len() {
                    assert(next[k] == pre[k]);
                }
            }
        }
        match v.checked_mul(10) {
            None => {
                proof {
                    if all_digits(d) {
                        lemma_decimal_value_grows(d, i + 1 - start);
                        assert(d.subrange(0, i + 1 - start) =~= next);
                    }
                }
                return None;
            },
            Some(w) => match w.checked_add(digit) {
                None => {
                    proof {
                        if all_digits(d) {
                            lemma_decimal_value_grows(d, i + 1 - start);
                            assert(d.subrange(0, i + 1 - start) =~= next);
                        }
                    }
                    return None;
                },
                Some(x) => {
                    v = x;
                },
            },
        }
        i = i + 1;
    }
    assert(s@.subrange(start as int, i as int) =~= d);
    Some(v)
}

/// `str::parse::<u64>`.
pub fn parse_u64(s: &str) -> (r: Option<u64>)
    ensures
        r == spec_parse_u64(s@),
{
    let v = chars_of(s);
    parse_u64_chars(&v)
}

/// `x` is the text of some string of the list.
pub open spec fn in_list(v: Seq<String>, x: Seq<char>) -> bool {
    exists|i: int| 0 <= i < v.len() && (#[trigger] v[i])@ == x
}

/// Whether some string of the list has the text of `x`.
pub fn list_contains(v: &Vec<String>, x: &str) -> (r: bool)
    ensures
        r == in_list(v@, x@),
{
    let mut i: usize = 0;
    while i < v.len()
        invariant
            i <= v.len(),
            forall|k: int| 0 <= k < i ==> (#[trigger] v@[k])@ != x@,
        decreases v.len() - i,
    {
        if str_eq(v[i].as_str(), x) {
            return true;
        }
        i = i + 1;
    }
    false
}

/// Adds a string to a list used as a set, unless one with the same text is there.
pub fn set_insert(v: &mut Vec<String>, x: String)
    ensures
        forall|y: Seq<char>| in_list(final(v)@, y) <==> (in_list(old(v)@, y) || y == x@),
{
    if !list_contains(v, x.as_str()) {
        let ghost before = v@;
        v.push(x);
        proof {
            assert forall|y: Seq<char>| in_list(v@, y) <==> (in_list(before, y) || y == x@) by {
                if in_list(before, y) {
                    let i = choose|i: int| 0 <= i < before.len() && (#[trigger] before[i])@ == y;
                    assert(v@[i] == before[i]);
                }
                if y == x@ {
                    assert(v@[before.len() as int] == x);
                }
                if in_list(v@, y) {
                    let i = choose|i: int| 0 <= i < v@.len() && (#[trigger] v@[i])@ == y;
                    if i < before.len() {
                        assert(v@[i] == before[i]);
                    }
                }
            }
        }
    }
}

/// A copy of a list of strings.
pub fn clone_strings(v: &Vec<String>) -> (r: Vec<String>)
    ensures
        r@ == v@,
{
    let mut r: Vec<String> = Vec::new();
    let mut i: usize = 0;
    while i < v.len()
        invariant
            i <= v.len(),
            r@ == v@.subrange(0, i as int),
        decreases v.len() - i,
    {
        r.push(v[i].clone());
        i = i + 1;
        assert(r@ =~= v@.subrange(0, i as int));
    }
    assert(r@ =~= v@);
    r
}

/// The texts of a list of strings.
pub open spec fn texts(v: Seq<String>) -> Seq<Seq<char>> {
    v.map_values(|s: String| s@)
}

/// The non-empty pieces of `s` between slashes, with `cur` already read of the first one.
pub open spec fn segments_from(s: Seq<char>, cur: Seq<char>) -> Seq<Seq<char>>
    decreases s.len(),
{
    if s.len() == 0 {
        if cur.len() > 0 {
            seq![cur]
        } else {
            seq![]
        }
    } else if s[0] == '/' {
        (if cur.len() > 0 {
            seq![cur]
        } else {
            seq![]
        }) + segments_from(s.drop_first(), seq![])
    } else {
        segments_from(s.drop_first(), cur.push(s[0]))
    }
}

/// The non-empty pieces of a path between slashes, in order.
pub open spec fn path_segments(s: Seq<char>) -> Seq<Seq<char>> {
    segments_from(s, seq![])
}

/// Splits a path at slashes and drops the empty pieces.
pub fn split_path(path: &str) -> (r: Vec<String>)
    ensures
        texts(r@) == path_segments(path@),
{
    let s = chars_of(path);
    let mut out: Vec<String> = Vec::new();
    let mut cur: Vec<char> = Vec::new();
    let mut i: usize = 0;
    proof {
        assert(s@.subrange(0, s.len() as int) =~= s@);
        assert(cur@ =~= Seq::<char>::empty());
        assert(texts(out@) + segments_from(s@, cur@) =~= segments_from(s@, cur@));
    }
    while i < s.len()
        invariant
            i <= s.len(),
            texts(out@) + segments_from(s@.subrange(i as int, s.len() as int), cur@)
                == path_segments(s@),
        decreases s.len() - i,
    {
        let ghost rest = s@.subrange(i as int, s.len() as int);
        assert(rest.drop_first() =~= s@.subrange(i + 1, s.len() as int));
        if s[i] == '/' {
            if cur.len() > 0 {
                let piece = string_from_chars(&cur);
                let ghost before = texts(out@);
                out.push(piece);
                assert(texts(out@) =~= before + seq![cur@]);
                assert(texts(out@) + segments_from(rest.drop_first(), seq![]) =~= before + (seq![cur@] + segments_from(rest.drop_first(), seq![])));
            } else {
                assert(segments_from(rest, cur@) =~= segments_from(rest.drop_first(), seq![]));
            }
            cur = Vec::new();
        } else {
            cur.push(s[i]);
        }
        i = i + 1;
    }
    let ghost rest = s@.subrange(i as int, s.len() as int);
    assert(rest.len() == 0);
    if cur.len() > 0 {
        let piece = string_from_chars(&cur);
        let ghost before = texts(out@);
        out.push(piece);
        assert(texts(out@) =~= before + seq![cur@]);
    } else {
        assert(texts(out@) + segments_from(rest, cur@) =~= texts(out@));
    }
    out
}


/// What `str::to_lowercase` gives for a text (Unicode lowercase mapping).
pub uninterp spec fn lowercase(s: Seq<char>) -> Seq<char>;

/// What `str::to_uppercase` gives for a text (Unicode uppercase mapping).
pub uninterp spec fn uppercase(s: Seq<char>) -> Seq<char>;

/// `str::to_lowercase` from std. The contract names the result; Unicode's mapping is left
/// unsaid.
#[verifier::external_body]
pub(crate) fn to_lowercase(s: &str) -> (r: String)
    ensures
        r@ == lowercase(s@),
{
    s.to_lowercase()
}

/// The upper case of an ASCII character: `a` to `z` become `A` to `Z`, others stay.
pub open spec fn ascii_upper(c: char) -> char {
    if 'a' <= c && c <= 'z' {
        ((c as int) - 32) as char
    } else {
        c
    }
}

/// `str::to_uppercase` from std. The contract names the result, and states the mapping
/// for ASCII text: `a` to `z` become `A` to `Z`, every other character stays; Unicode's
/// mapping beyond ASCII is left unsaid.
#[verifier::external_body]
pub(crate) fn to_uppercase(s: &str) -> (r: String)
    ensures
        r@ == uppercase(s@),
        (forall|i: int| 0 <= i < s@.len() ==> (#[trigger] s@[i] as int) < 128) ==> r@ == s@.map_values(
            |c: char| ascii_upper(c),
        ),
{
    s.to_uppercase()
}


/// The first index of `c` in `s`.
pub open spec fn first_index_of(s: Seq<char>, c: char) -> Option<int>
    decreases s.len(),
{
    if s.len() == 0 {
        None
    } else if s[0] == c {
        Some(0)
    } else {
        match first_index_of(s.drop_first(), c) {
            Some(i) => Some(i + 1),
            None => None,
        }
    }
}

/// The last index of `c` in `s`.
pub open spec fn last_index_of(s: Seq<char>, c: char) -> Option<int>
    decreases s.len(),
{
    if s.len() == 0 {
        None
    } else if s.last() == c {
        Some(s.len() - 1)
    } else {
        last_index_of(s.drop_last(), c)
    }
}

pub(crate) proof fn lemma_first_index_of(s: Seq<char>, c: char, i: int)
    requires
        0 <= i <= s.len(),
        forall|j: int| 0 <= j < i ==> s[j] != c,
    ensures
        i < s.len() && s[i] == c ==> first_index_of(s, c) == Some(i),
        i == s.len() ==> first_index_of(s, c) is None,
    decreases i,
{
    if i > 0 {
        assert forall|j: int| 0 <= j < i - 1 implies s.drop_first()[j] != c by {
            assert(s.drop_first()[j] == s[j + 1]);
        }
        lemma_first_index_of(s.drop_first(), c, i - 1);
    }
}

pub(crate) proof fn lemma_last_index_of(s: Seq<char>, c: char, i: int)
    requires
        0 <= i <= s.len(),
        forall|j: int| i <= j < s.len() ==> s[j] != c,
    ensures
        i > 0 && s[i - 1] == c ==> last_index_of(s, c) == Some(i - 1),
        i == 0 ==> last_index_of(s, c) is None,
    decreases s.len() - i,
{
    if i < s.len() {
        let t = s.drop_last();
        assert forall|j: int| i <= j < t.len() implies t[j] != c by {
            assert(t[j] == s[j]);
        }
        lemma_last_index_of(t, c, i);
        if i > 0 {
            assert(t[i - 1] == s[i - 1]);
        }
    }
}

/// The first index of `c` in `v`.
pub fn first_index(v: &Vec<char>, c: char) -> (r: Option<usize>)
    ensures
        r matches Some(i) ==> i < v.len() && first_index_of(v@, c) == Some(i as int),
        r is None <==> first_index_of(v@, c) is None,
{
    let mut i: usize = 0;
    while i < v.len()
        invariant
            i <= v.len(),
            forall|j: int| 0 <= j < i ==> v@[j] != c,
        decreases v.len() - i,
    {
        if v[i] == c {
            proof {
                lemma_first_index_of(v@, c, i as int);
            }
            return Some(i);
        }
        i = i + 1;
    }
    proof {
        lemma_first_index_of(v@, c, i as int);
    }
    None
}

/// The last index of `c` in `v`.
pub fn last_index(v: &Vec<char>, c: char) -> (r: Option<usize>)
    ensures
        r matches Some(i) ==> i < v.len() && last_index_of(v@, c) == Some(i as int),
        r is None <==> last_index_of(v@, c) is None,
{
    let mut i: usize = v.len();
    while i > 0
        invariant
            i <= v.len(),
            forall|j: int| i <= j < v.len() ==> v@[j] != c,
        decreases i,
    {
        if v[i - 1] == c {
            proof {
                lemma_last_index_of(v@, c, i as int);
            }
            return Some(i - 1);
        }
        i = i - 1;
    }
    proof {
        lemma_last_index_of(v@, c, 0);
    }
    None
}

/// A relative path joined to a directory as paths are joined: an absolute path replaces
/// the directory; otherwise a `/` separates them unless the directory is empty or already
/// ends with one.
pub open spec fn join_path(dir: Seq<char>, name: Seq<char>) -> Seq<char> {
    if name.len() > 0 && name[0] == '/' {
        name
    } else if dir.len() == 0 || (dir.len() > 0 && dir.last() == '/') {
        dir + name
    } else {
        dir + seq!['/'] + name
    }
}

/// Joins a path to a directory (`Path::join`).
pub fn join_dir(dir: &str, name: &str) -> (r: String)
    ensures
        r@ == join_path(dir@, name@),
{
    let n = chars_of(name);
    if n.len() > 0 && n[0] == '/' {
        return name.to_string();
    }
    let d = chars_of(dir);
    if d.len() == 0 || d[d.len() - 1] == '/' {
        concat_str(dir, name)
    } else {
        let mut with_sep = dir.to_string();
        push_char(&mut with_sep, '/');
        concat_str(with_sep.as_str(), name)
    }
}


/// `c` is white space (the Unicode `White_Space` property, as `char::is_whitespace`).
pub open spec fn is_ws(c: char) -> bool {
    ||| ('\u{9}' <= c && c <= '\u{d}')
    ||| c == ' '
    ||| c == '\u{85}'
    ||| c == '\u{a0}'
    ||| c == '\u{1680}'
    ||| ('\u{2000}' <= c && c <= '\u{200a}')
    ||| c == '\u{2028}'
    ||| c == '\u{2029}'
    ||| c == '\u{202f}'
    ||| c == '\u{205f}'
    ||| c == '\u{3000}'
}

/// Whether `c` is white space.
pub fn is_ws_char(c: char) -> (r: bool)
    ensures
        r == is_ws(c),
{
    ('\u{9}' <= c && c <= '\u{d}') || c == ' ' || c == '\u{85}' || c == '\u{a0}' || c
        == '\u{1680}' || ('\u{2000}' <= c && c <= '\u{200a}') || c == '\u{2028}' || c
        == '\u{2029}' || c == '\u{202f}' || c == '\u{205f}' || c == '\u{3000}'
}

/// The number of leading characters of `s` that satisfy `p`.
pub open spec fn lead_count(s: Seq<char>, p: spec_fn(char) -> bool) -> nat
    decreases s.len(),
{
    if s.len() > 0 && p(s[0]) {
        1 + lead_count(s.drop_first(), p)
    } else {
        0
    }
}

/// The number of trailing characters of `s` that satisfy `p`.
pub open spec fn trail_count(s: Seq<char>, p: spec_fn(char) -> bool) -> nat
    decreases s.len(),
{
    if s.len() > 0 && p(s.last()) {
        1 + trail_count(s.drop_last(), p)
    } else {
        0
    }
}

/// `s` without the leading and trailing characters that satisfy `p` (`str::trim_matches`).
pub open spec fn trim_by(s: Seq<char>, p: spec_fn(char) -> bool) -> Seq<char> {
    let a = lead_count(s, p);
    if a == s.len() {
        seq![]
    } else {
        s.subrange(a as int, s.len() - trail_count(s, p))
    }
}

/// `s` without leading and trailing white space (`str::trim`).
pub open spec fn trim_ws(s: Seq<char>) -> Seq<char> {
    trim_by(s, |c: char| is_ws(c))
}

proof fn lemma_lead_count(s: Seq<char>, p: spec_fn(char) -> bool, i: int)
    requires
        0 <= i <= s.len(),
        forall|j: int| 0 <= j < i ==> p(s[j]),
        i == s.len() || !p(s[i]),
    ensures
        lead_count(s, p) == i,
    decreases i,
{
    if i > 0 {
        assert forall|j: int| 0 <= j < i - 1 implies p(s.drop_first()[j]) by {
            assert(s.drop_first()[j] == s[j + 1]);
        }
        if i < s.len() {
            assert(s.drop_first()[i - 1] == s[i]);
        }
        lemma_lead_count(s.drop_first(), p, i - 1);
    }
}

proof fn lemma_trail_count(s: Seq<char>, p: spec_fn(char) -> bool, k: int)
    requires
        0 <= k <= s.len(),
        forall|j: int| k <= j < s.len() ==> p(s[j]),
        k == 0 || !p(s[k - 1]),
    ensures
        trail_count(s, p) == s.len() - k,
    decreases s.len() - k,
{
    if k < s.len() {
        let t = s.drop_last();
        assert forall|j: int| k <= j < t.len() implies p(t[j]) by {
            assert(t[j] == s[j]);
        }
        if k > 0 {
            assert(t[k - 1] == s[k - 1]);
        }
        lemma_trail_count(t, p, k);
    }
}

/// The part of `v[lo..hi]` left after trimming white space at both ends, as indices.
pub fn trim_range(v: &Vec<char>, lo: usize, hi: usize) -> (r: (usize, usize))
    requires
        lo <= hi <= v.len(),
    ensures
        lo <= r.0 <= r.1 <= hi,
        v@.subrange(r.0 as int, r.1 as int) == trim_ws(v@.subrange(lo as int, hi as int)),
{
    let ghost s = v@.subrange(lo as int, hi as int);
    let ghost p = |c: char| is_ws(c);
    let mut a: usize = lo;
    while a < hi && is_ws_char(v[a])
        invariant
            lo <= a <= hi <= v.len(),
            forall|j: int| lo <= j < a ==> is_ws(#[trigger] v@[j]),
        decreases hi - a,
    {
        a = a + 1;
    }
    proof {
        assert forall|j: int| 0 <= j < a - lo implies p(s[j]) by {
            assert(s[j] == v@[lo + j]);
        }
        if a < hi {
            assert(s[a - lo] == v@[a as int]);
        }
        lemma_lead_count(s, p, a - lo);
    }
    if a == hi {
        assert(v@.subrange(a as int, a as int) =~= Seq::<char>::empty());
        return (a, a);
    }
    let mut b: usize = hi;
    while b > a && is_ws_char(v[b - 1])
        invariant
            a < hi,
            a <= b <= hi <= v.len(),
            !is_ws(v@[a as int]),
            forall|j: int| b <= j < hi ==> is_ws(#[trigger] v@[j]),
        decreases b,
    {
        b = b - 1;
    }
    proof {
        assert(!p(s[a - lo])) by {
            assert(s[a - lo] == v@[a as int]);
        }
        assert forall|j: int| b - lo <= j < s.len() implies p(s[j]) by {
            assert(s[j] == v@[lo + j]);
        }
        if b > a {
            assert(s[b - lo - 1] == v@[b - 1]);
        }
        lemma_trail_count(s, p, b - lo);
        assert(v@.subrange(a as int, b as int) =~= s.subrange(a - lo, s.len() - trail_count(s, p)));
    }
    (a, b)
}

/// `a` and `b` are equal but for the case of ASCII letters (`str::eq_ignore_ascii_case`).
pub open spec fn ascii_ci_eq(a: Seq<char>, b: Seq<char>) -> bool {
    a.len() == b.len() && forall|i: int| 0 <= i < a.len() ==> #[trigger] same_letter(a[i], b[i])
}

/// The characters are equal but for the case of an ASCII letter.
pub open spec fn same_letter(x: char, y: char) -> bool {
    ||| x == y
    ||| ('A' <= x && x <= 'Z' && (y as u32) == (x as u32) + 32)
    ||| ('A' <= y && y <= 'Z' && (x as u32) == (y as u32) + 32)
}

/// Whether `v[lo..hi]` equals `w` but for the case of ASCII letters.
pub fn ascii_ci_eq_range(v: &Vec<char>, lo: usize, hi: usize, w: &Vec<char>) -> (r: bool)
    requires
        lo <= hi <= v.len(),
    ensures
        r == ascii_ci_eq(v@.subrange(lo as int, hi as int), w@),
{
    if hi - lo != w.len() {
        return false;
    }
    let mut i: usize = 0;
    while i < w.len()
        invariant
            i <= w.len(),
            lo + w.len() == hi <= v.len(),
            forall|k: int| 0 <= k < i ==> #[trigger] same_letter(v@[lo + k], w@[k]),
        decreases w.len() - i,
    {
        let x = v[lo + i];
        let y = w[i];
        let same = x == y || ('A' <= x && x <= 'Z' && (y as u32) == (x as u32) + 32) || ('A' <= y
            && y <= 'Z' && (x as u32) == (y as u32) + 32);
        assert(same == same_letter(x, y));
        if !same {
            assert(v@.subrange(lo as int, hi as int)[i as int] == x);
            return false;
        }
        i = i + 1;
    }
    assert forall|k: int| 0 <= k < w.len() implies #[trigger] same_letter(v@.subrange(lo as int, hi as int)[k], w@[k]) by {
        assert(v@.subrange(lo as int, hi as int)[k] == v@[lo + k]);
    }
    true
}


/// The pieces of `s` between the separator `c`, empty ones included (`str::split`).
pub open spec fn split_on(s: Seq<char>, c: char) -> Seq<Seq<char>>
    decreases s.len(),
{
    match first_index_of(s, c) {
        Some(i) => if 0 <= i < s.len() {
            seq![s.subrange(0, i)] + split_on(s.subrange(i + 1, s.len() as int), c)
        } else {
            seq![s]
        },
        None => seq![s],
    }
}

/// `s` without leading and trailing double quotes (`str::trim_matches('"')`).
pub open spec fn trim_quotes(s: Seq<char>) -> Seq<char> {
    trim_by(s, |c: char| c == '"')
}

/// `v` without leading and trailing double quotes.
pub fn trim_quotes_vec(v: &Vec<char>) -> (r: Vec<char>)
    ensures
        r@ == trim_quotes(v@),
{
    let ghost s = v@;
    let ghost p = |c: char| c == '"';
    let mut a: usize = 0;
    while a < v.len() && v[a] == '"'
        invariant
            a <= v.len(),
            forall|j: int| 0 <= j < a ==> v@[j] == '"',
        decreases v.len() - a,
    {
        a = a + 1;
    }
    proof {
        lemma_lead_count(s, p, a as int);
    }
    if a == v.len() {
        return Vec::new();
    }
    let mut b: usize = v.len();
    while b > a && v[b - 1] == '"'
        invariant
            a < v.len(),
            a <= b <= v.len(),
            v@[a as int] != '"',
            forall|j: int| b <= j < v.len() ==> v@[j] == '"',
        decreases b,
    {
        b = b - 1;
    }
    proof {
        lemma_trail_count(s, p, b as int);
    }
    sub_vec(v, a, b)
}

/// `v` without leading and trailing white space.
pub fn trim_vec(v: &Vec<char>) -> (r: Vec<char>)
    ensures
        r@ == trim_ws(v@),
{
    let (a, b) = trim_range(v, 0, v.len());
    assert(v@.subrange(0, v.len() as int) =~= v@);
    sub_vec(v, a, b)
}

/// The pieces of `v` between the separator `c`.
pub fn split_vec(v: &Vec<char>, c: char) -> (r: Vec<Vec<char>>)
    ensures
        r@.map_values(|x: Vec<char>| x@) == split_on(v@, c),
{
    let mut out: Vec<Vec<char>> = Vec::new();
    let mut rest = sub_vec(v, 0, v.len());
    assert(rest@ =~= v@);
    loop
        invariant
            split_on(v@, c) == out@.map_values(|x: Vec<char>| x@) + split_on(rest@, c),
        decreases rest@.len(),
    {
        let ghost before = out@.map_values(|x: Vec<char>| x@);
        match first_index(&rest, c) {
            Some(i) => {
                let head = sub_vec(&rest, 0, i);
                let tail = sub_vec(&rest, i + 1, rest.len());
                proof {
                    assert(split_on(rest@, c) == seq![head@] + split_on(tail@, c));
                }
                out.push(head);
                assert(out@.map_values(|x: Vec<char>| x@) =~= before.push(head@));
                assert(before + (seq![head@] + split_on(tail@, c)) =~= before.push(head@) + split_on(tail@, c));
                rest = tail;
            },
            None => {
                let ghost last = rest@;
                out.push(rest);
                assert(out@.map_values(|x: Vec<char>| x@) =~= before.push(last));
                assert(split_on(v@, c) == before + seq![last]);
                return out;
            },
        }
    }
}

} // verus!
