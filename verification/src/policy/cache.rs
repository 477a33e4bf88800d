use vstd::prelude::*;

use std::num::NonZeroUsize;

use lru::LruCache;

use crate::policy::error::PolicyError;
use crate::text::str_eq;

verus! {

#[verifier::external_type_specification]
#[verifier::external_body]
#[verifier::reject_recursive_types(K)]
#[verifier::reject_recursive_types(V)]
#[verifier::reject_recursive_types(S)]
pub struct ExLruCache<K, V, S>(LruCache<K, V, S>);

#[verifier::external_type_specification]
#[verifier::external_body]
pub struct ExLruHasher(lru::DefaultHasher);

/// Hash type for action caching
#[derive(Debug, Clone, Hash, PartialEq, Eq)]
pub enum ActionHash {
    /// Tool execution action with tool name
    Tool(String),
    /// Network access action with host/URL
    Network(String),
    /// Storage access action with path and operation mode
    Storage(String, String),
    /// Environment variable access action with variable name
    Environment(String),
}

/// File access mode for caching
#[derive(Debug, Clone, Copy, Hash, PartialEq, Eq, Structural)]
pub enum AccessMode {
    /// Read access to file
    Read,
    /// Write access to file
    Write,
    /// Execute access to file
    Execute,
}

impl ActionHash {
    /// The action as plain values: its kind, then its texts.
    pub open spec fn key(self) -> (int, Seq<char>, Seq<char>) {
        match self {
            ActionHash::Tool(n) => (0, n@, seq![]),
            ActionHash::Network(h) => (1, h@, seq![]),
            ActionHash::Storage(p, m) => (2, p@, m@),
            ActionHash::Environment(k) => (3, k@, seq![]),
        }
    }

    /// A copy of the action.
    pub fn duplicate(&self) -> (r: ActionHash)
        ensures
            r.key() == self.key(),
    {
        match self {
            ActionHash::Tool(n) => ActionHash::Tool(n.clone()),
            ActionHash::Network(h) => ActionHash::Network(h.clone()),
            ActionHash::Storage(p, m) => ActionHash::Storage(p.clone(), m.clone()),
            ActionHash::Environment(k) => ActionHash::Environment(k.clone()),
        }
    }
}

/// The entries of an LRU cache of actions, most recently used first: each action by its
/// plain values, with its result.
pub uninterp spec fn lru_order(c: LruCache<ActionHash, bool>) -> Seq<((int, Seq<char>, Seq<char>), bool)>;

/// The number of entries an LRU cache holds at most: the capacity it was made with.
pub uninterp spec fn lru_cap(c: LruCache<ActionHash, bool>) -> nat;

/// The first entry for a key.
pub open spec fn entry_index(s: Seq<((int, Seq<char>, Seq<char>), bool)>, k: (int, Seq<char>, Seq<char>)) -> Option<int>
    decreases s.len(),
{
    if s.len() == 0 {
        None
    } else if s[0].0 == k {
        Some(0)
    } else {
        match entry_index(s.drop_first(), k) {
            Some(i) => Some(i + 1),
            None => None,
        }
    }
}

/// The result held for a key.
pub open spec fn lru_lookup(s: Seq<((int, Seq<char>, Seq<char>), bool)>, k: (int, Seq<char>, Seq<char>)) -> Option<bool> {
    match entry_index(s, k) {
        Some(i) => Some(s[i].1),
        None => None,
    }
}

/// The entries after a lookup of `k`: an entry found becomes the most recently used.
pub open spec fn lru_touched(s: Seq<((int, Seq<char>, Seq<char>), bool)>, k: (int, Seq<char>, Seq<char>)) -> Seq<
    ((int, Seq<char>, Seq<char>), bool),
> {
    match entry_index(s, k) {
        Some(i) => seq![s[i]] + s.remove(i),
        None => s,
    }
}

/// The entries after `k` is stored with `v` in a cache of capacity `cap`: `k` becomes the
/// most recently used with `v`, replacing its entry; a new key in a full cache drops the
/// least recently used entry.
pub open spec fn lru_stored(
    s: Seq<((int, Seq<char>, Seq<char>), bool)>,
    k: (int, Seq<char>, Seq<char>),
    v: bool,
    cap: nat,
) -> Seq<((int, Seq<char>, Seq<char>), bool)> {
    match entry_index(s, k) {
        Some(i) => seq![(k, v)] + s.remove(i),
        None => if s.len() > 0 && s.len() == cap {
            seq![(k, v)] + s.drop_last()
        } else {
            seq![(k, v)] + s
        },
    }
}

/// No key has two entries.
pub open spec fn distinct_keys(s: Seq<((int, Seq<char>, Seq<char>), bool)>) -> bool {
    forall|i: int, j: int| 0 <= i < j < s.len() ==> #[trigger] s[i].0 != #[trigger] s[j].0
}

proof fn lemma_entry_index(s: Seq<((int, Seq<char>, Seq<char>), bool)>, k: (int, Seq<char>, Seq<char>))
    ensures
        match entry_index(s, k) {
            Some(i) => 0 <= i < s.len() && s[i].0 == k && forall|j: int| 0 <= j < i ==> #[trigger] s[j].0 != k,
            None => forall|j: int| 0 <= j < s.len() ==> #[trigger] s[j].0 != k,
        },
    decreases s.len(),
{
    if s.len() > 0 && s[0].0 != k {
        lemma_entry_index(s.drop_first(), k);
        assert forall|j: int| 1 <= j < s.len() implies s[j].0 == s.drop_first()[j - 1].0 by {}
    }
}

proof fn lemma_entry_index_at(s: Seq<((int, Seq<char>, Seq<char>), bool)>, k: (int, Seq<char>, Seq<char>), i: int)
    requires
        0 <= i < s.len(),
        s[i].0 == k,
        forall|j: int| 0 <= j < i ==> #[trigger] s[j].0 != k,
    ensures
        entry_index(s, k) == Some(i),
{
    lemma_entry_index(s, k);
    match entry_index(s, k) {
        Some(m) => {
            if m < i {
                assert(s[m].0 != k);
            } else if m > i {
                assert(s[i].0 != k);
            }
        },
        None => {
            assert(s[i].0 != k);
        },
    }
}

proof fn lemma_entry_index_none(s: Seq<((int, Seq<char>, Seq<char>), bool)>, k: (int, Seq<char>, Seq<char>))
    requires
        forall|j: int| 0 <= j < s.len() ==> #[trigger] s[j].0 != k,
    ensures
        entry_index(s, k) is None,
{
    lemma_entry_index(s, k);
    if let Some(m) = entry_index(s, k) {
        assert(s[m].0 != k);
    }
}

/// What a sequence holds for `a` is the same after an entry for another key is taken out.
proof fn lemma_lookup_remove(s: Seq<((int, Seq<char>, Seq<char>), bool)>, i: int, a: (int, Seq<char>, Seq<char>))
    requires
        0 <= i < s.len(),
        s[i].0 != a,
    ensures
        lru_lookup(s.remove(i), a) == lru_lookup(s, a),
{
    let t = s.remove(i);
    lemma_entry_index(s, a);
    match entry_index(s, a) {
        Some(m) => {
            let n = if m < i { m } else { m - 1 };
            assert(t[n] == s[m]);
            assert forall|j: int| 0 <= j < n implies #[trigger] t[j].0 != a by {
                if j < i {
                    assert(t[j] == s[j]);
                } else {
                    assert(t[j] == s[j + 1]);
                }
            }
            lemma_entry_index_at(t, a, n);
        },
        None => {
            assert forall|j: int| 0 <= j < t.len() implies #[trigger] t[j].0 != a by {
                if j < i {
                    assert(t[j] == s[j]);
                } else {
                    assert(t[j] == s[j + 1]);
                }
            }
            lemma_entry_index_none(t, a);
        },
    }
}

/// What a sequence holds after one more entry in front.
proof fn lemma_lookup_front(
    x: ((int, Seq<char>, Seq<char>), bool),
    s: Seq<((int, Seq<char>, Seq<char>), bool)>,
    a: (int, Seq<char>, Seq<char>),
)
    ensures
        lru_lookup(seq![x] + s, a) == if x.0 == a {
            Some(x.1)
        } else {
            lru_lookup(s, a)
        },
{
    let t = seq![x] + s;
    assert(t[0] == x);
    assert(t.drop_first() =~= s);
    if x.0 != a {
        lemma_entry_index(s, a);
        if let Some(i) = entry_index(s, a) {
            assert(t[i + 1] == s[i]);
        }
    }
}

/// A result held after the least recently used entry is dropped was held before.
proof fn lemma_lookup_drop_last(s: Seq<((int, Seq<char>, Seq<char>), bool)>, a: (int, Seq<char>, Seq<char>))
    requires
        s.len() > 0,
        lru_lookup(s.drop_last(), a) is Some,
    ensures
        lru_lookup(s.drop_last(), a) == lru_lookup(s, a),
{
    let t = s.drop_last();
    lemma_entry_index(t, a);
    let m = entry_index(t, a)->0;
    assert(t[m] == s[m]);
    assert forall|j: int| 0 <= j < m implies #[trigger] s[j].0 != a by {
        assert(t[j] == s[j]);
    }
    lemma_entry_index_at(s, a, m);
}

/// A lookup moves an entry to the front and keeps what every key holds.
pub proof fn lemma_touched_keeps_results(
    s: Seq<((int, Seq<char>, Seq<char>), bool)>,
    k: (int, Seq<char>, Seq<char>),
    a: (int, Seq<char>, Seq<char>),
)
    ensures
        lru_lookup(lru_touched(s, k), a) == lru_lookup(s, a),
        lru_touched(s, k).len() == s.len(),
{
    lemma_entry_index(s, k);
    if let Some(i) = entry_index(s, k) {
        lemma_lookup_front(s[i], s.remove(i), a);
        if k != a {
            lemma_lookup_remove(s, i, a);
        }
    }
}

/// After a store, the key holds the stored result, and any other key holds what it held
/// before or nothing (when it was the least recently used entry of a full cache).
pub proof fn lemma_stored_results(
    s: Seq<((int, Seq<char>, Seq<char>), bool)>,
    k: (int, Seq<char>, Seq<char>),
    v: bool,
    cap: nat,
    a: (int, Seq<char>, Seq<char>),
)
    ensures
        lru_lookup(lru_stored(s, k, v, cap), k) == Some(v),
        a != k && lru_lookup(lru_stored(s, k, v, cap), a) is Some ==> lru_lookup(
            lru_stored(s, k, v, cap),
            a,
        ) == lru_lookup(s, a),
{
    lemma_entry_index(s, k);
    match entry_index(s, k) {
        Some(i) => {
            lemma_lookup_front((k, v), s.remove(i), k);
            lemma_lookup_front((k, v), s.remove(i), a);
            if a != k {
                lemma_lookup_remove(s, i, a);
            }
        },
        None => {
            if s.len() > 0 && s.len() == cap {
                lemma_lookup_front((k, v), s.drop_last(), k);
                lemma_lookup_front((k, v), s.drop_last(), a);
                if a != k && lru_lookup(s.drop_last(), a) is Some {
                    lemma_lookup_drop_last(s, a);
                }
            } else {
                lemma_lookup_front((k, v), s, k);
                lemma_lookup_front((k, v), s, a);
            }
        },
    }
}

/// A cache holds no more entries than its capacity, and no key twice, whatever is
/// looked up or stored.
pub proof fn lemma_lru_within_capacity(
    s: Seq<((int, Seq<char>, Seq<char>), bool)>,
    k: (int, Seq<char>, Seq<char>),
    v: bool,
    cap: nat,
)
    requires
        0 < cap,
        s.len() <= cap,
        distinct_keys(s),
    ensures
        lru_touched(s, k).len() <= cap,
        distinct_keys(lru_touched(s, k)),
        lru_stored(s, k, v, cap).len() <= cap,
        distinct_keys(lru_stored(s, k, v, cap)),
{
    lemma_entry_index(s, k);
    match entry_index(s, k) {
        Some(i) => {
            let r = s.remove(i);
            assert forall|x: int| 0 <= x < r.len() implies #[trigger] r[x] == s[if x < i { x } else { x + 1 }] by {}
            let t = seq![s[i]] + r;
            assert forall|x: int, y: int| 0 <= x < y < t.len() implies #[trigger] t[x].0 != #[trigger] t[y].0 by {
                let sx = if x == 0 { i } else if x - 1 < i { x - 1 } else { x };
                let sy = if y - 1 < i { y - 1 } else { y };
                assert(t[x] == s[sx]);
                assert(t[y] == s[sy]);
            }
            let u = seq![(k, v)] + r;
            assert forall|x: int, y: int| 0 <= x < y < u.len() implies #[trigger] u[x].0 != #[trigger] u[y].0 by {
                let sx = if x == 0 { i } else if x - 1 < i { x - 1 } else { x };
                let sy = if y - 1 < i { y - 1 } else { y };
                assert(u[y] == s[sy]);
                if x > 0 {
                    assert(u[x] == s[sx]);
                }
            }
        },
        None => {
            if s.len() == cap {
                let base = s.drop_last();
                let u = seq![(k, v)] + base;
                assert forall|x: int, y: int| 0 <= x < y < u.len() implies #[trigger] u[x].0 != #[trigger] u[y].0 by {
                    assert(u[y] == base[y - 1]);
                    assert(base[y - 1] == s[y - 1]);
                    if x > 0 {
                        assert(u[x] == base[x - 1]);
                        assert(base[x - 1] == s[x - 1]);
                    }
                }
            } else {
                let u = seq![(k, v)] + s;
                assert forall|x: int, y: int| 0 <= x < y < u.len() implies #[trigger] u[x].0 != #[trigger] u[y].0 by {
                    assert(u[y] == s[y - 1]);
                    if x > 0 {
                        assert(u[x] == s[x - 1]);
                    }
                }
            }
        },
    }
}

/// The entries after a series of operations: a lookup of a key (`None`) or a store of a
/// result for it (`Some(v)`), in a cache of capacity `cap`.
pub open spec fn lru_after(
    s: Seq<((int, Seq<char>, Seq<char>), bool)>,
    ops: Seq<((int, Seq<char>, Seq<char>), Option<bool>)>,
    cap: nat,
) -> Seq<((int, Seq<char>, Seq<char>), bool)>
    decreases ops.len(),
{
    if ops.len() == 0 {
        s
    } else {
        lru_step(lru_after(s, ops.drop_last(), cap), ops.last(), cap)
    }
}

/// The entries after one operation: a lookup of a key (`None`) or a store of a result for
/// it (`Some(v)`).
pub open spec fn lru_step(
    s: Seq<((int, Seq<char>, Seq<char>), bool)>,
    op: ((int, Seq<char>, Seq<char>), Option<bool>),
    cap: nat,
) -> Seq<((int, Seq<char>, Seq<char>), bool)> {
    match op.1 {
        Some(v) => lru_stored(s, op.0, v, cap),
        None => lru_touched(s, op.0),
    }
}

proof fn lemma_index_front(
    x: ((int, Seq<char>, Seq<char>), bool),
    t: Seq<((int, Seq<char>, Seq<char>), bool)>,
    a: (int, Seq<char>, Seq<char>),
    q: int,
)
    requires
        x.0 != a,
        entry_index(t, a) == Some(q),
    ensures
        entry_index(seq![x] + t, a) == Some(q + 1),
        (seq![x] + t)[q + 1] == t[q],
{
    lemma_entry_index(t, a);
    let u = seq![x] + t;
    assert forall|j: int| 0 <= j < q + 1 implies #[trigger] u[j].0 != a by {
        if j > 0 {
            assert(u[j] == t[j - 1]);
        }
    }
    lemma_entry_index_at(u, a, q + 1);
}

proof fn lemma_index_remove(t: Seq<((int, Seq<char>, Seq<char>), bool)>, i: int, a: (int, Seq<char>, Seq<char>), q: int)
    requires
        0 <= i < t.len(),
        t[i].0 != a,
        entry_index(t, a) == Some(q),
    ensures
        entry_index(t.remove(i), a) == Some(if q < i { q } else { q - 1 }),
        t.remove(i)[if q < i { q } else { q - 1 }] == t[q],
{
    lemma_entry_index(t, a);
    let r = t.remove(i);
    let n = if q < i { q } else { q - 1 };
    assert(r[n] == t[q]);
    assert forall|j: int| 0 <= j < n implies #[trigger] r[j].0 != a by {
        if j < i {
            assert(r[j] == t[j]);
        } else {
            assert(r[j] == t[j + 1]);
        }
    }
    lemma_entry_index_at(r, a, n);
}

/// One operation keeps a key that is not stored to and is not the least recently used
/// entry of a full cache: it stays, with its result, at most one place further back.
proof fn lemma_step_keeps(
    t: Seq<((int, Seq<char>, Seq<char>), bool)>,
    op: ((int, Seq<char>, Seq<char>), Option<bool>),
    cap: nat,
    a: (int, Seq<char>, Seq<char>),
    q: int,
) -> (q2: int)
    requires
        entry_index(t, a) == Some(q),
        q + 1 < cap,
        !(op.0 == a && op.1 is Some),
    ensures
        0 <= q2 <= q + 1,
        entry_index(
            match op.1 {
                Some(v) => lru_stored(t, op.0, v, cap),
                None => lru_touched(t, op.0),
            },
            a,
        ) == Some(q2),
        (match op.1 {
            Some(v) => lru_stored(t, op.0, v, cap),
            None => lru_touched(t, op.0),
        })[q2] == t[q],
{
    lemma_entry_index(t, a);
    let k = op.0;
    lemma_entry_index(t, k);
    match entry_index(t, k) {
        Some(i) => {
            if k == a {
                // a lookup of `a` itself brings it to the front
                assert(i == q);
                let u = seq![t[i]] + t.remove(i);
                assert(u[0] == t[q]);
                lemma_entry_index_at(u, a, 0);
                0
            } else {
                lemma_index_remove(t, i, a, q);
                let n = if q < i { q } else { q - 1 };
                let x = match op.1 {
                    Some(v) => (k, v),
                    None => t[i],
                };
                lemma_index_front(x, t.remove(i), a, n);
                n + 1
            }
        },
        None => {
            match op.1 {
                Some(v) => {
                    if t.len() > 0 && t.len() == cap {
                        let d = t.drop_last();
                        assert forall|j: int| 0 <= j < q implies #[trigger] d[j].0 != a by {
                            assert(d[j] == t[j]);
                        }
                        assert(d[q] == t[q]);
                        lemma_entry_index_at(d, a, q);
                        lemma_index_front((k, v), d, a, q);
                    } else {
                        lemma_index_front((k, v), t, a, q);
                    }
                    q + 1
                },
                None => q,
            }
        },
    }
}

/// A recent result stays: a key at place `p` of the recency order keeps its result through
/// any series of lookups and stores of other keys (lookups of itself included) shorter
/// than the capacity less `p`. So a result that `check_with_cache` cached is answered
/// again, without a check, after fewer than that many other actions.
pub proof fn lemma_lru_keeps_recent(
    s: Seq<((int, Seq<char>, Seq<char>), bool)>,
    ops: Seq<((int, Seq<char>, Seq<char>), Option<bool>)>,
    cap: nat,
    a: (int, Seq<char>, Seq<char>),
    p: int,
)
    requires
        entry_index(s, a) == Some(p),
        p + ops.len() < cap,
        forall|i: int| 0 <= i < ops.len() ==> !((#[trigger] ops[i]).0 == a && ops[i].1 is Some),
    ensures
        lru_lookup(lru_after(s, ops, cap), a) == lru_lookup(s, a),
        entry_index(lru_after(s, ops, cap), a) matches Some(q) && q <= p + ops.len(),
    decreases ops.len(),
{
    lemma_entry_index(s, a);
    if ops.len() > 0 {
        let os = ops.drop_last();
        assert forall|i: int| 0 <= i < os.len() implies !((#[trigger] os[i]).0 == a && os[i].1 is Some) by {
            assert(os[i] == ops[i]);
        }
        lemma_lru_keeps_recent(s, os, cap, a, p);
        let t = lru_after(s, os, cap);
        let q = entry_index(t, a)->0;
        assert(ops.last() == ops[ops.len() - 1]);
        let q2 = lemma_step_keeps(t, ops.last(), cap, a, q);
        lemma_entry_index(t, a);
    }
}

/// `lru::LruCache::new`: an empty cache holding at most `cap` entries.
#[verifier::external_body]
fn lru_new(cap: usize) -> (r: LruCache<ActionHash, bool>)
    requires
        cap > 0,
    ensures
        lru_order(r) == Seq::<((int, Seq<char>, Seq<char>), bool)>::empty(),
        lru_cap(r) == cap,
{
    LruCache::new(NonZeroUsize::new(cap).unwrap())
}

/// `lru::LruCache::get`: the value cached for an equal action (derived `Eq`, which compares
/// the kind and the texts), if any; an entry found becomes the most recently used.
#[verifier::external_body]
fn lru_get(c: &mut LruCache<ActionHash, bool>, k: &ActionHash) -> (r: Option<bool>)
    ensures
        r == lru_lookup(lru_order(*old(c)), k.key()),
        lru_order(*final(c)) == lru_touched(lru_order(*old(c)), k.key()),
        lru_cap(*final(c)) == lru_cap(*old(c)),
{
    c.get(k).copied()
}

/// `lru::LruCache::put`: the action becomes the most recently used entry, with the value;
/// an entry for an equal action is replaced, and for a new action in a full cache the
/// least recently used entry is dropped.
#[verifier::external_body]
fn lru_put(c: &mut LruCache<ActionHash, bool>, k: ActionHash, v: bool)
    ensures
        lru_order(*final(c)) == lru_stored(lru_order(*old(c)), k.key(), v, lru_cap(*old(c))),
        lru_cap(*final(c)) == lru_cap(*old(c)),
{
    c.put(k, v);
}

/// `lru::LruCache::clear`: no entry is left.
#[verifier::external_body]
fn lru_clear(c: &mut LruCache<ActionHash, bool>)
    ensures
        lru_order(*final(c)) == Seq::<((int, Seq<char>, Seq<char>), bool)>::empty(),
        lru_cap(*final(c)) == lru_cap(*old(c)),
{
    c.clear();
}

/// `lru::LruCache::len`: the number of entries.
#[verifier::external_body]
fn lru_len(c: &LruCache<ActionHash, bool>) -> (r: usize)
    ensures
        r == lru_order(*c).len(),
{
    c.len()
}

/// The value cached under `k` in a list of named results: the first entry named `k`.
pub open spec fn named_lookup(v: Seq<(String, bool)>, k: Seq<char>) -> Option<bool>
    decreases v.len(),
{
    if v.len() == 0 {
        None
    } else if v[0].0@ == k {
        Some(v[0].1)
    } else {
        named_lookup(v.drop_first(), k)
    }
}

/// The value cached for a path and mode: the first entry for them.
pub open spec fn file_lookup(v: Seq<(String, AccessMode, bool)>, p: Seq<char>, m: AccessMode) -> Option<bool>
    decreases v.len(),
{
    if v.len() == 0 {
        None
    } else if v[0].0@ == p && v[0].1 == m {
        Some(v[0].2)
    } else {
        file_lookup(v.drop_first(), p, m)
    }
}

/// The access mode that a mode name stands for; unknown names read as `Read`.
pub open spec fn mode_of(m: Seq<char>) -> AccessMode {
    if m == "write"@ {
        AccessMode::Write
    } else if m == "execute"@ {
        AccessMode::Execute
    } else {
        AccessMode::Read
    }
}

fn named_get(v: &Vec<(String, bool)>, k: &str) -> (r: Option<bool>)
    ensures
        r == named_lookup(v@, k@),
{
    let mut i: usize = 0;
    assert(v@.skip(0) =~= v@);
    while i < v.len()
        invariant
            i <= v.len(),
            named_lookup(v@, k@) == named_lookup(v@.skip(i as int), k@),
        decreases v.len() - i,
    {
        assert(v@.skip(i as int).drop_first() =~= v@.skip(i + 1));
        if str_eq(v[i].0.as_str(), k) {
            return Some(v[i].1);
        }
        i = i + 1;
    }
    None
}

fn named_put(v: &mut Vec<(String, bool)>, k: String, b: bool)
    ensures
        named_lookup(final(v)@, k@) == Some(b),
        forall|x: Seq<char>| x != k@ ==> #[trigger] named_lookup(final(v)@, x) == named_lookup(old(v)@, x),
{
    let ghost v0 = v@;
    let mut i: usize = 0;
    while i < v.len()
        invariant
            i <= v.len(),
            v@ == v0,
            v0 == old(v)@,
            forall|j: int| 0 <= j < i ==> (#[trigger] v0[j]).0@ != k@,
        decreases v.len() - i,
    {
        if str_eq(v[i].0.as_str(), k.as_str()) {
            let ghost kv = k@;
            v.set(i, (k, b));
            proof {
                lemma_named_update(v0, i as int, kv, b, v@);
            }
            return;
        }
        i = i + 1;
    }
    let ghost kv = k@;
    v.push((k, b));
    proof {
        lemma_named_push(v0, kv, b, v@);
    }
}

proof fn lemma_named_update(v0: Seq<(String, bool)>, i: int, k: Seq<char>, b: bool, v1: Seq<(String, bool)>)
    requires
        0 <= i < v0.len(),
        v1.len() == v0.len(),
        v1[i].0@ == k,
        v1[i].1 == b,
        v0[i].0@ == k,
        forall|j: int| 0 <= j < v0.len() && j != i ==> v1[j] == v0[j],
        forall|j: int| 0 <= j < i ==> (#[trigger] v0[j]).0@ != k,
    ensures
        named_lookup(v1, k) == Some(b),
        forall|x: Seq<char>| x != k ==> #[trigger] named_lookup(v1, x) == named_lookup(v0, x),
    decreases i,
{
    if i > 0 {
        assert forall|j: int| 0 <= j < i - 1 implies (#[trigger] v0.drop_first()[j]).0@ != k by {
            assert(v0.drop_first()[j] == v0[j + 1]);
        }
        lemma_named_update(v0.drop_first(), i - 1, k, b, v1.drop_first());
        assert(v1[0] == v0[0]);
        assert(v0[0].0@ != k);
        assert forall|x: Seq<char>| x != k implies #[trigger] named_lookup(v1, x) == named_lookup(v0, x) by {
            if v0[0].0@ != x {
                assert(named_lookup(v1.drop_first(), x) == named_lookup(v0.drop_first(), x));
            }
        }
    } else {
        assert(v1.drop_first() =~= v0.drop_first()) by {
            assert forall|j: int| 0 <= j < v1.drop_first().len() implies v1.drop_first()[j] == v0.drop_first()[j] by {
                assert(v1[j + 1] == v0[j + 1]);
            }
        }
        assert forall|x: Seq<char>| x != k implies #[trigger] named_lookup(v1, x) == named_lookup(v0, x) by {
            assert(named_lookup(v1.drop_first(), x) == named_lookup(v0.drop_first(), x));
        }
    }
}

proof fn lemma_named_push(v0: Seq<(String, bool)>, k: Seq<char>, b: bool, v1: Seq<(String, bool)>)
    requires
        v1.len() == v0.len() + 1,
        forall|j: int| 0 <= j < v0.len() ==> v1[j] == v0[j],
        v1[v0.len() as int].0@ == k,
        v1[v0.len() as int].1 == b,
        forall|j: int| 0 <= j < v0.len() ==> (#[trigger] v0[j]).0@ != k,
    ensures
        named_lookup(v1, k) == Some(b),
        forall|x: Seq<char>| x != k ==> #[trigger] named_lookup(v1, x) == named_lookup(v0, x),
    decreases v0.len(),
{
    if v0.len() > 0 {
        assert forall|j: int| 0 <= j < v0.len() - 1 implies (#[trigger] v0.drop_first()[j]).0@ != k by {
            assert(v0.drop_first()[j] == v0[j + 1]);
        }
        lemma_named_push(v0.drop_first(), k, b, v1.drop_first());
        assert(v1[0] == v0[0]);
        assert(v0[0].0@ != k);
        assert forall|x: Seq<char>| x != k implies #[trigger] named_lookup(v1, x) == named_lookup(v0, x) by {
            if v0[0].0@ != x {
                assert(named_lookup(v1.drop_first(), x) == named_lookup(v0.drop_first(), x));
            }
        }
    } else {
        assert forall|x: Seq<char>| x != k implies #[trigger] named_lookup(v1, x) == named_lookup(v0, x) by {
            assert(v1.drop_first().len() == 0);
            assert(named_lookup(v1.drop_first(), x) is None);
        }
    }
}

fn file_get(v: &Vec<(String, AccessMode, bool)>, p: &str, m: AccessMode) -> (r: Option<bool>)
    ensures
        r == file_lookup(v@, p@, m),
{
    let mut i: usize = 0;
    assert(v@.skip(0) =~= v@);
    while i < v.len()
        invariant
            i <= v.len(),
            file_lookup(v@, p@, m) == file_lookup(v@.skip(i as int), p@, m),
        decreases v.len() - i,
    {
        assert(v@.skip(i as int).drop_first() =~= v@.skip(i + 1));
        if str_eq(v[i].0.as_str(), p) && v[i].1 == m {
            return Some(v[i].2);
        }
        i = i + 1;
    }
    None
}

/// Sets the cached value for a path and mode: the entry for them is updated, or a new
/// entry is added at the end.
fn file_put(v: &mut Vec<(String, AccessMode, bool)>, p: String, m: AccessMode, b: bool)
    ensures
        file_lookup(final(v)@, p@, m) == Some(b),
        forall|x: Seq<char>, n: AccessMode|
            !(x == p@ && n == m) ==> #[trigger] file_lookup(final(v)@, x, n) == file_lookup(old(v)@, x, n),
        final(v)@.len() == old(v)@.len() + if file_lookup(old(v)@, p@, m) is Some {
            0int
        } else {
            1int
        },
{
    let ghost v0 = v@;
    let mut i: usize = 0;
    assert(v0.skip(0) =~= v0);
    while i < v.len()
        invariant
            i <= v.len(),
            v@ == v0,
            v0 == old(v)@,
            forall|j: int| 0 <= j < i ==> !((#[trigger] v0[j]).0@ == p@ && v0[j].1 == m),
            file_lookup(v0, p@, m) == file_lookup(v0.skip(i as int), p@, m),
        decreases v.len() - i,
    {
        assert(v0.skip(i as int).drop_first() =~= v0.skip(i + 1));
        if str_eq(v[i].0.as_str(), p.as_str()) && v[i].1 == m {
            let ghost pv = p@;
            v.set(i, (p, m, b));
            proof {
                lemma_file_update(v0, i as int, pv, m, b, v@);
            }
            return;
        }
        i = i + 1;
    }
    let ghost pv = p@;
    v.push((p, m, b));
    proof {
        lemma_file_push(v0, pv, m, b, v@);
    }
}

proof fn lemma_file_update(
    v0: Seq<(String, AccessMode, bool)>,
    i: int,
    p: Seq<char>,
    m: AccessMode,
    b: bool,
    v1: Seq<(String, AccessMode, bool)>,
)
    requires
        0 <= i < v0.len(),
        v1.len() == v0.len(),
        v1[i].0@ == p && v1[i].1 == m && v1[i].2 == b,
        v0[i].0@ == p && v0[i].1 == m,
        forall|j: int| 0 <= j < v0.len() && j != i ==> v1[j] == v0[j],
        forall|j: int| 0 <= j < i ==> !((#[trigger] v0[j]).0@ == p && v0[j].1 == m),
    ensures
        file_lookup(v1, p, m) == Some(b),
        forall|x: Seq<char>, n: AccessMode|
            !(x == p && n == m) ==> #[trigger] file_lookup(v1, x, n) == file_lookup(v0, x, n),
    decreases i,
{
    if i > 0 {
        assert forall|j: int| 0 <= j < i - 1 implies !((#[trigger] v0.drop_first()[j]).0@ == p
            && v0.drop_first()[j].1 == m) by {
            assert(v0.drop_first()[j] == v0[j + 1]);
        }
        lemma_file_update(v0.drop_first(), i - 1, p, m, b, v1.drop_first());
        assert(v1[0] == v0[0]);
        assert forall|x: Seq<char>, n: AccessMode| !(x == p && n == m) implies #[trigger] file_lookup(
            v1,
            x,
            n,
        ) == file_lookup(v0, x, n) by {
            if !(v0[0].0@ == x && v0[0].1 == n) {
                assert(file_lookup(v1.drop_first(), x, n) == file_lookup(v0.drop_first(), x, n));
            }
        }
    } else {
        assert(v1.drop_first() =~= v0.drop_first()) by {
            assert forall|j: int| 0 <= j < v1.drop_first().len() implies v1.drop_first()[j]
                == v0.drop_first()[j] by {
                assert(v1[j + 1] == v0[j + 1]);
            }
        }
        assert forall|x: Seq<char>, n: AccessMode| !(x == p && n == m) implies #[trigger] file_lookup(
            v1,
            x,
            n,
        ) == file_lookup(v0, x, n) by {
            assert(file_lookup(v1.drop_first(), x, n) == file_lookup(v0.drop_first(), x, n));
        }
    }
}

proof fn lemma_file_push(
    v0: Seq<(String, AccessMode, bool)>,
    p: Seq<char>,
    m: AccessMode,
    b: bool,
    v1: Seq<(String, AccessMode, bool)>,
)
    requires
        v1.len() == v0.len() + 1,
        forall|j: int| 0 <= j < v0.len() ==> v1[j] == v0[j],
        v1[v0.len() as int].0@ == p && v1[v0.len() as int].1 == m && v1[v0.len() as int].2 == b,
        forall|j: int| 0 <= j < v0.len() ==> !((#[trigger] v0[j]).0@ == p && v0[j].1 == m),
    ensures
        file_lookup(v1, p, m) == Some(b),
        file_lookup(v0, p, m) is None,
        forall|x: Seq<char>, n: AccessMode|
            !(x == p && n == m) ==> #[trigger] file_lookup(v1, x, n) == file_lookup(v0, x, n),
    decreases v0.len(),
{
    if v0.len() > 0 {
        assert forall|j: int| 0 <= j < v0.len() - 1 implies !((#[trigger] v0.drop_first()[j]).0@ == p
            && v0.drop_first()[j].1 == m) by {
            assert(v0.drop_first()[j] == v0[j + 1]);
        }
        lemma_file_push(v0.drop_first(), p, m, b, v1.drop_first());
        assert(v1[0] == v0[0]);
        assert forall|x: Seq<char>, n: AccessMode| !(x == p && n == m) implies #[trigger] file_lookup(
            v1,
            x,
            n,
        ) == file_lookup(v0, x, n) by {
            if !(v0[0].0@ == x && v0[0].1 == n) {
                assert(file_lookup(v1.drop_first(), x, n) == file_lookup(v0.drop_first(), x, n));
            }
        }
    } else {
        assert forall|x: Seq<char>, n: AccessMode| !(x == p && n == m) implies #[trigger] file_lookup(
            v1,
            x,
            n,
        ) == file_lookup(v0, x, n) by {
            assert(v1.drop_first().len() == 0);
            assert(file_lookup(v1.drop_first(), x, n) is None);
        }
    }
}

/// Thread-local permission cache for hot paths
pub struct PermissionCache {
    cache: LruCache<ActionHash, bool>,
    file_cache: Vec<(String, AccessMode, bool)>,
    network_cache: Vec<(String, bool)>,
    tool_cache: Vec<(String, bool)>,
    env_cache: Vec<(String, bool)>,
    hits: u64,
    misses: u64,
}

/// Cache statistics
#[derive(Debug, Clone, Copy)]
pub struct CacheStats {
    /// Number of cache hits
    pub hits: u64,
    /// Number of cache misses
    pub misses: u64,
    /// Total number of items in all caches
    pub total_items: usize,
}

/// The specialized caches after `action` was stored with `allowed`: the cache of the
/// action's kind now gives `allowed` for it, and every other entry of every specialized
/// cache is as it was.
pub open spec fn specialized_stored(before: PermissionCache, after: PermissionCache, action: ActionHash, allowed: bool) -> bool {
    &&& match action {
        ActionHash::Tool(n) => after.cached_tool(n@) == Some(allowed),
        ActionHash::Network(h) => after.cached_network(h@) == Some(allowed),
        ActionHash::Storage(p, m) => after.cached_file(p@, mode_of(m@)) == Some(allowed),
        ActionHash::Environment(k) => after.cached_env(k@) == Some(allowed),
    }
    &&& forall|n: Seq<char>| !(action matches ActionHash::Tool(t) && t@ == n) ==> #[trigger] after.cached_tool(n)
        == before.cached_tool(n)
    &&& forall|n: Seq<char>| !(action matches ActionHash::Network(h) && h@ == n) ==> #[trigger] after.cached_network(n)
        == before.cached_network(n)
    &&& forall|n: Seq<char>| !(action matches ActionHash::Environment(k) && k@ == n) ==> #[trigger] after.cached_env(n)
        == before.cached_env(n)
    &&& forall|n: Seq<char>, md: AccessMode| !(action matches ActionHash::Storage(p, m) && p@ == n && mode_of(m@) == md)
        ==> #[trigger] after.cached_file(n, md) == before.cached_file(n, md)
}

/// Storing a file decision caches it under the mode it names: `read`, `write` and
/// `execute` stand for their access modes (any other name for reading), and the entries
/// for the path's other modes are as they were.
pub proof fn lemma_file_mode_stored(
    before: PermissionCache,
    after: PermissionCache,
    path: String,
    mode: String,
    allowed: bool,
)
    requires
        specialized_stored(before, after, ActionHash::Storage(path, mode), allowed),
    ensures
        mode@ == "write"@ ==> after.cached_file(path@, AccessMode::Write) == Some(allowed)
            && after.cached_file(path@, AccessMode::Read) == before.cached_file(path@, AccessMode::Read)
            && after.cached_file(path@, AccessMode::Execute) == before.cached_file(path@, AccessMode::Execute),
        mode@ == "execute"@ ==> after.cached_file(path@, AccessMode::Execute) == Some(allowed)
            && after.cached_file(path@, AccessMode::Read) == before.cached_file(path@, AccessMode::Read)
            && after.cached_file(path@, AccessMode::Write) == before.cached_file(path@, AccessMode::Write),
        mode@ == "read"@ ==> after.cached_file(path@, AccessMode::Read) == Some(allowed)
            && after.cached_file(path@, AccessMode::Write) == before.cached_file(path@, AccessMode::Write)
            && after.cached_file(path@, AccessMode::Execute) == before.cached_file(path@, AccessMode::Execute),
{
    reveal_strlit("write");
    reveal_strlit("execute");
    reveal_strlit("read");
    assert("write"@.len() == 5 && "execute"@.len() == 7 && "read"@.len() == 4);
    let m = mode_of(mode@);
    let modes = seq![AccessMode::Read, AccessMode::Write, AccessMode::Execute];
    assert forall|k: int| 0 <= k < 3 && modes[k] != m implies after.cached_file(path@, #[trigger] modes[k])
        == before.cached_file(path@, modes[k]) by {}
    assert(after.cached_file(path@, m) == Some(allowed));
    if mode@ == "write"@ {
        assert(m == AccessMode::Write);
    } else if mode@ == "execute"@ {
        assert(mode@.len() != "write"@.len());
        assert(m == AccessMode::Execute);
    } else if mode@ == "read"@ {
        assert(mode@.len() != "write"@.len());
        assert(mode@.len() != "execute"@.len());
        assert(m == AccessMode::Read);
    }
    assert(modes[0] == AccessMode::Read && modes[1] == AccessMode::Write && modes[2] == AccessMode::Execute);
}

/// The specialized caches are as they were.
pub open spec fn specialized_same(before: PermissionCache, after: PermissionCache) -> bool {
    &&& forall|n: Seq<char>| #[trigger] after.cached_tool(n) == before.cached_tool(n)
    &&& forall|n: Seq<char>| #[trigger] after.cached_network(n) == before.cached_network(n)
    &&& forall|n: Seq<char>| #[trigger] after.cached_env(n) == before.cached_env(n)
    &&& forall|n: Seq<char>, m: AccessMode| #[trigger] after.cached_file(n, m) == before.cached_file(n, m)
}

impl PermissionCache {
    /// The cached actions with their results, most recently used first.
    pub closed spec fn recency(self) -> Seq<((int, Seq<char>, Seq<char>), bool)> {
        lru_order(self.cache)
    }

    /// The number of actions the cache holds at most.
    pub closed spec fn capacity(self) -> nat {
        lru_cap(self.cache)
    }

    /// The result cached for an action.
    pub open spec fn cached(self, a: ActionHash) -> Option<bool> {
        lru_lookup(self.recency(), a.key())
    }

    /// The result cached for a tool name.
    pub closed spec fn cached_tool(self, name: Seq<char>) -> Option<bool> {
        named_lookup(self.tool_cache@, name)
    }

    /// The result cached for a host.
    pub closed spec fn cached_network(self, host: Seq<char>) -> Option<bool> {
        named_lookup(self.network_cache@, host)
    }

    /// The result cached for an environment variable.
    pub closed spec fn cached_env(self, key: Seq<char>) -> Option<bool> {
        named_lookup(self.env_cache@, key)
    }

    /// The result cached for a file path and access mode.
    pub closed spec fn cached_file(self, path: Seq<char>, mode: AccessMode) -> Option<bool> {
        file_lookup(self.file_cache@, path, mode)
    }

    /// The number of entries held, over all the caches.
    pub closed spec fn item_count(self) -> nat {
        lru_order(self.cache).len() + self.file_cache@.len() + self.network_cache@.len()
            + self.tool_cache@.len() + self.env_cache@.len()
    }

    /// The number of lookups that found a result.
    pub closed spec fn hit_count(self) -> u64 {
        self.hits
    }

    /// The number of lookups that found none.
    pub closed spec fn miss_count(self) -> u64 {
        self.misses
    }

    /// Nothing is cached and nothing counted.
    pub open spec fn is_empty_cache(self) -> bool {
        &&& forall|a: ActionHash| #[trigger] self.cached(a) is None
        &&& forall|n: Seq<char>| #[trigger] self.cached_tool(n) is None
        &&& forall|n: Seq<char>| #[trigger] self.cached_network(n) is None
        &&& forall|n: Seq<char>| #[trigger] self.cached_env(n) is None
        &&& forall|n: Seq<char>, m: AccessMode| #[trigger] self.cached_file(n, m) is None
        &&& self.hit_count() == 0
        &&& self.miss_count() == 0
        &&& self.item_count() == 0
    }

    /// Create a new permission cache with specified size (1024 when the size is 0)
    pub fn new(size: usize) -> (r: PermissionCache)
        ensures
            r.is_empty_cache(),
            r.recency().len() == 0,
            r.capacity() == if size == 0 {
                1024
            } else {
                size
            },
    {
        let cap = if size == 0 {
            1024
        } else {
            size
        };
        PermissionCache {
            cache: lru_new(cap),
            file_cache: Vec::new(),
            network_cache: Vec::new(),
            tool_cache: Vec::new(),
            env_cache: Vec::new(),
            hits: 0,
            misses: 0,
        }
    }

    /// Counts a lookup as a hit or a miss.
    fn count(&mut self, hit: bool)
        requires
            old(self).hits < u64::MAX,
            old(self).misses < u64::MAX,
        ensures
            final(self).hits == old(self).hits + if hit {
                1int
            } else {
                0int
            },
            final(self).misses == old(self).misses + if hit {
                0int
            } else {
                1int
            },
            final(self).cache == old(self).cache,
            final(self).file_cache == old(self).file_cache,
            final(self).network_cache == old(self).network_cache,
            final(self).tool_cache == old(self).tool_cache,
            final(self).env_cache == old(self).env_cache,
    {
        if hit {
            self.hits = self.hits + 1;
        } else {
            self.misses = self.misses + 1;
        }
    }

    /// The counters can take one more lookup.
    pub open spec fn can_count(self) -> bool {
        self.hit_count() < u64::MAX && self.miss_count() < u64::MAX
    }

    /// Check cache for an action
    pub fn check(&mut self, action: &ActionHash) -> (r: Option<bool>)
        requires
            old(self).can_count(),
        ensures
            r == old(self).cached(*action),
            forall|a: ActionHash| #[trigger] final(self).cached(a) == old(self).cached(a),
            forall|n: Seq<char>| #[trigger] final(self).cached_tool(n) == old(self).cached_tool(n),
            forall|n: Seq<char>| #[trigger] final(self).cached_network(n) == old(self).cached_network(n),
            forall|n: Seq<char>| #[trigger] final(self).cached_env(n) == old(self).cached_env(n),
            forall|n: Seq<char>, m: AccessMode| #[trigger] final(self).cached_file(n, m) == old(self).cached_file(n, m),
            final(self).recency() == lru_touched(old(self).recency(), action.key()),
            final(self).capacity() == old(self).capacity(),
            final(self).hit_count() == old(self).hit_count() + if r is Some {
                1int
            } else {
                0int
            },
            final(self).miss_count() == old(self).miss_count() + if r is Some {
                0int
            } else {
                1int
            },
    {
        let result = lru_get(&mut self.cache, action);
        self.count(result.is_some());
        proof {
            assert forall|a: ActionHash| #[trigger] self.cached(a) == old(self).cached(a) by {
                lemma_touched_keeps_results(old(self).recency(), action.key(), a.key());
            }
        }
        result
    }

    /// Insert a result into the cache: the action now gives `allowed`, and so does the
    /// specialized cache of its kind.
    pub fn insert(&mut self, action: ActionHash, allowed: bool)
        ensures
            final(self).cached(action) == Some(allowed),
            forall|a: ActionHash|
                a.key() != action.key() && (#[trigger] final(self).cached(a)) is Some ==> final(self).cached(a) == old(self).cached(a),
            specialized_stored(*old(self), *final(self), action, allowed),
            final(self).recency() == lru_stored(old(self).recency(), action.key(), allowed, old(self).capacity()),
            final(self).capacity() == old(self).capacity(),
            final(self).hit_count() == old(self).hit_count(),
            final(self).miss_count() == old(self).miss_count(),
    {
        let ghost k = action.key();
        let copy = action.duplicate();
        lru_put(&mut self.cache, copy, allowed);
        match action {
            ActionHash::Tool(name) => {
                named_put(&mut self.tool_cache, name, allowed);
            },
            ActionHash::Network(host) => {
                named_put(&mut self.network_cache, host, allowed);
            },
            ActionHash::Storage(path, mode) => {
                let access_mode = if str_eq(mode.as_str(), "write") {
                    AccessMode::Write
                } else if str_eq(mode.as_str(), "execute") {
                    AccessMode::Execute
                } else {
                    AccessMode::Read
                };
                file_put(&mut self.file_cache, path, access_mode, allowed);
            },
            ActionHash::Environment(key) => {
                named_put(&mut self.env_cache, key, allowed);
            },
        }
        proof {
            assert forall|a: ActionHash|
                a.key() != k && (#[trigger] self.cached(a)) is Some implies self.cached(a) == old(self).cached(a) by {
                lemma_stored_results(old(self).recency(), k, allowed, old(self).capacity(), a.key());
            }
            lemma_stored_results(old(self).recency(), k, allowed, old(self).capacity(), k);
        }
    }

    /// Check tool permission cache
    pub fn check_tool(&mut self, name: &str) -> (r: Option<bool>)
        requires
            old(self).can_count(),
        ensures
            r == old(self).cached_tool(name@),
            final(self).hit_count() == old(self).hit_count() + if r is Some {
                1int
            } else {
                0int
            },
            final(self).miss_count() == old(self).miss_count() + if r is Some {
                0int
            } else {
                1int
            },
            forall|a: ActionHash| #[trigger] final(self).cached(a) == old(self).cached(a),
            forall|n: Seq<char>| #[trigger] final(self).cached_tool(n) == old(self).cached_tool(n),
            forall|n: Seq<char>| #[trigger] final(self).cached_network(n) == old(self).cached_network(n),
    {
        let result = named_get(&self.tool_cache, name);
        self.count(result.is_some());
        result
    }

    /// Check network permission cache
    pub fn check_network(&mut self, host: &str) -> (r: Option<bool>)
        requires
            old(self).can_count(),
        ensures
            r == old(self).cached_network(host@),
            final(self).hit_count() == old(self).hit_count() + if r is Some {
                1int
            } else {
                0int
            },
            final(self).miss_count() == old(self).miss_count() + if r is Some {
                0int
            } else {
                1int
            },
            forall|a: ActionHash| #[trigger] final(self).cached(a) == old(self).cached(a),
            forall|n: Seq<char>| #[trigger] final(self).cached_tool(n) == old(self).cached_tool(n),
            forall|n: Seq<char>| #[trigger] final(self).cached_network(n) == old(self).cached_network(n),
    {
        let result = named_get(&self.network_cache, host);
        self.count(result.is_some());
        result
    }

    /// Check file permission cache
    pub fn check_file(&mut self, path: &str, mode: AccessMode) -> (r: Option<bool>)
        requires
            old(self).can_count(),
        ensures
            r == old(self).cached_file(path@, mode),
            final(self).hit_count() == old(self).hit_count() + if r is Some {
                1int
            } else {
                0int
            },
            final(self).miss_count() == old(self).miss_count() + if r is Some {
                0int
            } else {
                1int
            },
    {
        let result = file_get(&self.file_cache, path, mode);
        self.count(result.is_some());
        result
    }

    /// Clear all caches
    pub fn clear(&mut self)
        ensures
            final(self).is_empty_cache(),
            final(self).capacity() == old(self).capacity(),
    {
        lru_clear(&mut self.cache);
        self.file_cache = Vec::new();
        self.network_cache = Vec::new();
        self.tool_cache = Vec::new();
        self.env_cache = Vec::new();
        self.hits = 0;
        self.misses = 0;
    }

    /// Get cache statistics (the item total stops at the largest `usize`)
    pub fn stats(&self) -> (r: CacheStats)
        ensures
            r.hits == self.hit_count(),
            r.misses == self.miss_count(),
            r.total_items == if self.item_count() <= usize::MAX {
                self.item_count()
            } else {
                usize::MAX as nat
            },
    {
        let total = lru_len(&self.cache).saturating_add(self.file_cache.len()).saturating_add(
            self.network_cache.len(),
        ).saturating_add(self.tool_cache.len()).saturating_add(self.env_cache.len());
        CacheStats { hits: self.hits, misses: self.misses, total_items: total }
    }
}

/// Check permission with caching: a cached result is returned as it is; otherwise
/// `check_fn` decides, and a result it gives is cached.
pub fn check_with_cache<F>(cache: &mut PermissionCache, action: ActionHash, check_fn: F) -> (r: Result<bool, PolicyError>)
    where
        F: FnOnce() -> Result<bool, PolicyError>,
    requires
        old(cache).can_count(),
        check_fn.requires(()),
    ensures
        match old(cache).cached(action) {
            Some(v) => {
                &&& r == Ok::<bool, PolicyError>(v)
                &&& final(cache).recency() == lru_touched(old(cache).recency(), action.key())
                &&& specialized_same(*old(cache), *final(cache))
                &&& final(cache).hit_count() == old(cache).hit_count() + 1
                &&& final(cache).miss_count() == old(cache).miss_count()
            },
            None => {
                &&& check_fn.ensures((), r)
                &&& final(cache).hit_count() == old(cache).hit_count()
                &&& final(cache).miss_count() == old(cache).miss_count() + 1
                &&& match r {
                    Ok(v) => {
                        &&& final(cache).recency() == lru_stored(
                            old(cache).recency(),
                            action.key(),
                            v,
                            old(cache).capacity(),
                        )
                        &&& specialized_stored(*old(cache), *final(cache), action, v)
                    },
                    Err(_) => {
                        &&& final(cache).recency() == old(cache).recency()
                        &&& specialized_same(*old(cache), *final(cache))
                    },
                }
            },
        },
        final(cache).capacity() == old(cache).capacity(),
        final(cache).recency() == lru_step(
            old(cache).recency(),
            (action.key(), match r {
                Ok(v) => if old(cache).cached(action) is None {
                    Some(v)
                } else {
                    None
                },
                Err(_) => None,
            }),
            old(cache).capacity(),
        ),
        r matches Ok(v) ==> final(cache).cached(action) == Some(v),
        r matches Ok(v) ==> final(cache).recency()[0] == (action.key(), v),
        r is Err ==> final(cache).cached(action) is None,
        r is Err ==> forall|a: ActionHash| #[trigger] final(cache).cached(a) == old(cache).cached(a),
{
    proof {
        lemma_entry_index(old(cache).recency(), action.key());
    }
    if let Some(result) = cache.check(&action) {
        return Ok(result);
    }
    let result = check_fn()?;
    cache.insert(action, result);
    Ok(result)
}

/// The caches of a run, each obtained from the one before by one operation, with the
/// same capacity.
pub open spec fn cache_run(caches: Seq<PermissionCache>, ops: Seq<((int, Seq<char>, Seq<char>), Option<bool>)>) -> bool {
    &&& caches.len() == ops.len() + 1
    &&& forall|i: int| 0 <= i < ops.len() ==> (#[trigger] caches[i + 1]).recency() == lru_step(
        caches[i].recency(),
        ops[i],
        caches[i].capacity(),
    ) && caches[i + 1].capacity() == caches[i].capacity()
}

proof fn lemma_run_after(caches: Seq<PermissionCache>, ops: Seq<((int, Seq<char>, Seq<char>), Option<bool>)>, i: int)
    requires
        cache_run(caches, ops),
        0 <= i <= ops.len(),
    ensures
        caches[i].recency() == lru_after(caches[0].recency(), ops.subrange(0, i), caches[0].capacity()),
        caches[i].capacity() == caches[0].capacity(),
    decreases i,
{
    if i > 0 {
        lemma_run_after(caches, ops, i - 1);
        let sub = ops.subrange(0, i);
        assert(sub.drop_last() =~= ops.subrange(0, i - 1));
        assert(sub.last() == ops[i - 1]);
        assert(caches[(i - 1) + 1] == caches[i]);
    } else {
        assert(ops.subrange(0, 0).len() == 0);
    }
}

/// A checked result is answered again from the cache: after `check_with_cache` gave
/// `Ok(v)` for an action (which leaves it the most recently used entry), every cache of a
/// run of further calls, lookups and stores keeps `v` for it, while the run is shorter
/// than the capacity and stores no other result for the action. So a later
/// `check_with_cache` for it returns `Ok(v)` without calling its check.
pub proof fn lemma_cache_answers_again(
    caches: Seq<PermissionCache>,
    ops: Seq<((int, Seq<char>, Seq<char>), Option<bool>)>,
    a: ActionHash,
    v: bool,
)
    requires
        cache_run(caches, ops),
        caches[0].recency().len() > 0,
        caches[0].recency()[0] == (a.key(), v),
        ops.len() < caches[0].capacity(),
        forall|i: int| 0 <= i < ops.len() ==> !((#[trigger] ops[i]).0 == a.key() && ops[i].1 is Some),
    ensures
        caches.last().cached(a) == Some(v),
{
    let s0 = caches[0].recency();
    lemma_entry_index_at(s0, a.key(), 0);
    lemma_run_after(caches, ops, ops.len() as int);
    assert(ops.subrange(0, ops.len() as int) =~= ops);
    lemma_lru_keeps_recent(s0, ops, caches[0].capacity(), a.key(), 0);
    assert(caches.last() == caches[ops.len() as int]);
}

/// Clear a permission cache
pub fn clear_cache(cache: &mut PermissionCache)
    ensures
        final(cache).is_empty_cache(),
        final(cache).capacity() == old(cache).capacity(),
{
    cache.clear();
}

} // verus!
