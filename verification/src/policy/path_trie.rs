use vstd::prelude::*;

use crate::text::{path_segments, split_path, str_eq, texts};

verus! {

/// A node of a path trie: children by path segment, and the node's own flags.
#[derive(Debug)]
pub struct TrieNode {
    children: Vec<(String, TrieNode)>,
    is_allowed: bool,
    is_denied: bool,
}

/// Path trie for efficient path matching
#[derive(Debug)]
pub struct PathTrie {
    root: TrieNode,
}

/// `i` is the first index of `children` whose key is `seg`.
spec fn first_key(children: Seq<(String, TrieNode)>, seg: Seq<char>, i: int) -> bool {
    &&& 0 <= i < children.len()
    &&& children[i].0@ == seg
    &&& forall|j: int| 0 <= j < i ==> (#[trigger] children[j]).0@ != seg
}

/// The flags of the node that the segment path `q` leads to from `node`, if there is one.
spec fn node_lookup(node: TrieNode, q: Seq<Seq<char>>) -> Option<(bool, bool)>
    decreases q.len(),
{
    if q.len() == 0 {
        Some((node.is_allowed, node.is_denied))
    } else if exists|i: int| first_key(node.children@, q[0], i) {
        let i = choose|i: int| first_key(node.children@, q[0], i);
        node_lookup(node.children@[i].1, q.drop_first())
    } else {
        None
    }
}

/// `q` is a prefix of `p` (or `p` itself).
pub open spec fn is_prefix(q: Seq<Seq<char>>, p: Seq<Seq<char>>) -> bool {
    q.len() <= p.len() && p.subrange(0, q.len() as int) == q
}

/// The flags of a node that may not exist yet: a missing node has neither flag.
pub open spec fn flags_of(n: Option<(bool, bool)>) -> (bool, bool) {
    match n {
        Some(f) => f,
        None => (false, false),
    }
}

/// What the node at `q` holds after the segment path `p` was inserted with the given
/// flags, when it held `before`: the nodes along `p` exist, and the last one gains the
/// flags.
pub open spec fn after_insert(
    before: Option<(bool, bool)>,
    q: Seq<Seq<char>>,
    p: Seq<Seq<char>>,
    allow: bool,
    deny: bool,
) -> Option<(bool, bool)> {
    if q == p {
        Some((flags_of(before).0 || allow, flags_of(before).1 || deny))
    } else if is_prefix(q, p) {
        Some(flags_of(before))
    } else {
        before
    }
}

/// What a trie check answers for a node: denied wins over allowed; no node, or a node
/// with neither flag, gives no answer.
pub open spec fn check_answer(n: Option<(bool, bool)>) -> Option<bool> {
    match n {
        None => None,
        Some((a, d)) => if d {
            Some(false)
        } else if a {
            Some(true)
        } else {
            None
        },
    }
}

/// The trie that the given insertions build from an empty one, at segment path `q`.
pub open spec fn trie_model(entries: Seq<(Seq<Seq<char>>, bool, bool)>, q: Seq<Seq<char>>) -> Option<
    (bool, bool),
>
    decreases entries.len(),
{
    if entries.len() == 0 {
        if q.len() == 0 {
            Some((false, false))
        } else {
            None
        }
    } else {
        let e = entries.last();
        after_insert(trie_model(entries.drop_last(), q), q, e.0, e.1, e.2)
    }
}

/// The same trie, said directly: the node at `q` exists when `q` is the root or a prefix of
/// an inserted path, and it is allowed (denied) when some insertion of exactly `q` allowed
/// (denied) it.
pub open spec fn trie_closed_form(entries: Seq<(Seq<Seq<char>>, bool, bool)>, q: Seq<Seq<char>>) -> Option<
    (bool, bool),
> {
    if q.len() == 0 || exists|k: int| 0 <= k < entries.len() && is_prefix(q, (#[trigger] entries[k]).0) {
        Some(
            (
                exists|k: int| 0 <= k < entries.len() && (#[trigger] entries[k]).0 == q && entries[k].1,
                exists|k: int| 0 <= k < entries.len() && (#[trigger] entries[k]).0 == q && entries[k].2,
            ),
        )
    } else {
        None
    }
}

proof fn lemma_self_prefix(q: Seq<Seq<char>>)
    ensures
        is_prefix(q, q),
{
    assert(q.subrange(0, q.len() as int) =~= q);
}

proof fn lemma_first_key_unique(children: Seq<(String, TrieNode)>, seg: Seq<char>, i: int, j: int)
    requires
        first_key(children, seg, i),
        first_key(children, seg, j),
    ensures
        i == j,
{
    if i < j {
        assert(children[i].0@ != seg);
    } else if j < i {
        assert(children[j].0@ != seg);
    }
}

proof fn lemma_fresh_lookup(node: TrieNode, q: Seq<Seq<char>>)
    requires
        node.children@.len() == 0,
        !node.is_allowed,
        !node.is_denied,
    ensures
        node_lookup(node, q) == (if q.len() == 0 {
            Some((false, false))
        } else {
            None::<(bool, bool)>
        }),
{
}

/// Building a trie by insertions gives the closed form: a node exists exactly along the
/// inserted paths, and its flags are those that insertions of exactly its path gave it.
pub proof fn lemma_trie_model_closed_form(
    entries: Seq<(Seq<Seq<char>>, bool, bool)>,
    q: Seq<Seq<char>>,
)
    ensures
        trie_model(entries, q) == trie_closed_form(entries, q),
    decreases entries.len(),
{
    if entries.len() > 0 {
        let init = entries.drop_last();
        let e = entries.last();
        lemma_trie_model_closed_form(init, q);
        let n = entries.len() - 1;
        assert(entries[n] == e);
        assert forall|k: int| 0 <= k < init.len() implies #[trigger] init[k] == entries[k] by {}
        if exists|k: int| 0 <= k < entries.len() && is_prefix(q, (#[trigger] entries[k]).0) {
            let k = choose|k: int| 0 <= k < entries.len() && is_prefix(q, (#[trigger] entries[k]).0);
            if k < n {
                assert(init[k] == entries[k]);
            } else {
                assert(is_prefix(q, e.0));
            }
        }
        if exists|k: int| 0 <= k < init.len() && is_prefix(q, (#[trigger] init[k]).0) {
            let k = choose|k: int| 0 <= k < init.len() && is_prefix(q, (#[trigger] init[k]).0);
            assert(entries[k] == init[k]);
        }
        if exists|k: int| 0 <= k < entries.len() && (#[trigger] entries[k]).0 == q && entries[k].1 {
            let k = choose|k: int| 0 <= k < entries.len() && (#[trigger] entries[k]).0 == q && entries[k].1;
            if k < n {
                assert(init[k] == entries[k]);
            }
        }
        if exists|k: int| 0 <= k < init.len() && (#[trigger] init[k]).0 == q && init[k].1 {
            let k = choose|k: int| 0 <= k < init.len() && (#[trigger] init[k]).0 == q && init[k].1;
            assert(entries[k] == init[k]);
            lemma_self_prefix(q);
        }
        if exists|k: int| 0 <= k < entries.len() && (#[trigger] entries[k]).0 == q && entries[k].2 {
            let k = choose|k: int| 0 <= k < entries.len() && (#[trigger] entries[k]).0 == q && entries[k].2;
            if k < n {
                assert(init[k] == entries[k]);
            }
        }
        if exists|k: int| 0 <= k < init.len() && (#[trigger] init[k]).0 == q && init[k].2 {
            let k = choose|k: int| 0 <= k < init.len() && (#[trigger] init[k]).0 == q && init[k].2;
            assert(entries[k] == init[k]);
            lemma_self_prefix(q);
        }
        if e.0 == q {
            assert(entries[n].0 == q);
            assert(is_prefix(q, e.0)) by {
                assert(e.0.subrange(0, q.len() as int) =~= q);
            }
        }
    }
}

/// Denied wins: when some insertion of exactly the segments of `q` denied it, a check
/// answers "not allowed", whatever was allowed.
pub proof fn lemma_trie_deny_wins(entries: Seq<(Seq<Seq<char>>, bool, bool)>, q: Seq<Seq<char>>, k: int)
    requires
        0 <= k < entries.len(),
        entries[k].0 == q,
        entries[k].2,
    ensures
        check_answer(trie_model(entries, q)) == Some(false),
{
    lemma_trie_model_closed_form(entries, q);
    assert(is_prefix(q, entries[k].0)) by {
        assert(entries[k].0.subrange(0, q.len() as int) =~= q);
    }
}

/// Nothing inserted below or at `q` (and `q` not the root): a check gives no answer.
pub proof fn lemma_trie_unknown_path(entries: Seq<(Seq<Seq<char>>, bool, bool)>, q: Seq<Seq<char>>)
    requires
        q.len() > 0,
        forall|k: int| 0 <= k < entries.len() ==> !is_prefix(q, #[trigger] entries[k].0),
    ensures
        check_answer(trie_model(entries, q)) is None,
{
    lemma_trie_model_closed_form(entries, q);
}

impl TrieNode {
    fn fresh() -> (r: TrieNode)
        ensures
            r.children@.len() == 0,
            !r.is_allowed,
            !r.is_denied,
    {
        TrieNode { children: Vec::new(), is_allowed: false, is_denied: false }
    }
}

fn find_child(children: &Vec<(String, TrieNode)>, seg: &str) -> (r: Option<usize>)
    ensures
        match r {
            Some(i) => first_key(children@, seg@, i as int),
            None => forall|j: int| 0 <= j < children.len() ==> (#[trigger] children@[j]).0@ != seg@,
        },
{
    let mut i: usize = 0;
    while i < children.len()
        invariant
            i <= children.len(),
            forall|j: int| 0 <= j < i ==> (#[trigger] children@[j]).0@ != seg@,
        decreases children.len() - i,
    {
        if str_eq(children[i].0.as_str(), seg) {
            return Some(i);
        }
        i = i + 1;
    }
    None
}

proof fn lemma_no_key(children: Seq<(String, TrieNode)>, seg: Seq<char>)
    requires
        forall|j: int| 0 <= j < children.len() ==> (#[trigger] children[j]).0@ != seg,
    ensures
        !exists|i: int| first_key(children, seg, i),
{
}

proof fn lemma_prefix_step(q: Seq<Seq<char>>, p: Seq<Seq<char>>)
    requires
        q.len() > 0,
        p.len() > 0,
        q[0] == p[0],
    ensures
        (q == p) <==> (q.drop_first() == p.drop_first()),
        is_prefix(q, p) <==> is_prefix(q.drop_first(), p.drop_first()),
{
    if q.drop_first() == p.drop_first() {
        assert(q =~= seq![q[0]] + q.drop_first());
        assert(p =~= seq![p[0]] + p.drop_first());
    }
    if is_prefix(q, p) {
        assert(p.drop_first().subrange(0, q.drop_first().len() as int) =~= q.drop_first());
    }
    if is_prefix(q.drop_first(), p.drop_first()) {
        assert(p.subrange(0, q.len() as int) =~= q) by {
            assert forall|m: int| 0 <= m < q.len() implies p.subrange(0, q.len() as int)[m] == q[m] by {
                if m > 0 {
                    assert(p.drop_first().subrange(0, q.drop_first().len() as int)[m - 1] == q.drop_first()[m - 1]);
                }
            }
        }
    }
}

proof fn lemma_prefix_other_head(q: Seq<Seq<char>>, p: Seq<Seq<char>>)
    requires
        q.len() > 0,
        p.len() > 0,
        q[0] != p[0],
    ensures
        q != p,
        !is_prefix(q, p),
{
    if is_prefix(q, p) {
        assert(p.subrange(0, q.len() as int)[0] == q[0]);
    }
}

/// Inserts the segments `segs[k..]` below `node`.
fn insert_at(node: &mut TrieNode, segs: &Vec<String>, k: usize, allow: bool, deny: bool)
    requires
        k <= segs.len(),
    ensures
        forall|q: Seq<Seq<char>>|
            #[trigger] node_lookup(*final(node), q) == after_insert(
                node_lookup(*old(node), q),
                q,
                texts(segs@).skip(k as int),
                allow,
                deny,
            ),
    decreases segs.len() - k,
{
    let ghost p = texts(segs@).skip(k as int);
    let ghost before = *node;
    if k == segs.len() {
        if allow {
            node.is_allowed = true;
        }
        if deny {
            node.is_denied = true;
        }
        proof {
            assert(p =~= Seq::<Seq<char>>::empty());
            assert forall|q: Seq<Seq<char>>|
                #[trigger] node_lookup(*node, q) == after_insert(node_lookup(before, q), q, p, allow, deny) by {
                if q.len() > 0 {
                    assert(!is_prefix(q, p));
                    assert(q != p);
                    assert(node.children@ == before.children@);
                } else {
                    assert(q =~= p);
                }
            }
        }
        return;
    }
    let seg = segs[k].as_str();
    proof {
        assert(p[0] == segs@[k as int]@);
        assert(p.drop_first() =~= texts(segs@).skip(k + 1));
    }
    match find_child(&node.children, seg) {
        Some(i) => {
            let ghost old_children = node.children@;
            let (key, mut child) = node.children.remove(i);
            let ghost old_child = child;
            insert_at(&mut child, segs, k + 1, allow, deny);
            node.children.insert(i, (key, child));
            proof {
                assert(node.children@ =~= old_children.update(i as int, (key, child)));
                assert forall|q: Seq<Seq<char>>|
                    #[trigger] node_lookup(*node, q) == after_insert(node_lookup(before, q), q, p, allow, deny) by {
                    if q.len() == 0 {
                        assert(is_prefix(q, p)) by {
                            assert(p.subrange(0, 0) =~= q);
                        }
                        assert(q != p);
                    } else if q[0] == p[0] {
                        lemma_prefix_step(q, p);
                        assert(first_key(node.children@, q[0], i as int));
                        assert(first_key(old_children, q[0], i as int));
                        if exists|j: int| first_key(node.children@, q[0], j) {
                            let j = choose|j: int| first_key(node.children@, q[0], j);
                            lemma_first_key_unique(node.children@, q[0], i as int, j);
                        }
                        if exists|j: int| first_key(old_children, q[0], j) {
                            let j = choose|j: int| first_key(old_children, q[0], j);
                            lemma_first_key_unique(old_children, q[0], i as int, j);
                        }
                        assert(node_lookup(child, q.drop_first()) == after_insert(
                            node_lookup(old_child, q.drop_first()),
                            q.drop_first(),
                            p.drop_first(),
                            allow,
                            deny,
                        ));
                    } else {
                        lemma_prefix_other_head(q, p);
                        assert forall|j: int| #[trigger] first_key(node.children@, q[0], j) <==> first_key(old_children, q[0], j) by {
                            assert forall|m: int| 0 <= m < node.children@.len() implies (#[trigger] node.children@[m]).0@ == old_children[m].0@ by {
                                if m == i {
                                    assert(old_children[m].0@ == seg@);
                                }
                            }
                            if first_key(node.children@, q[0], j) {
                                assert forall|m: int| 0 <= m < j implies (#[trigger] old_children[m]).0@ != q[0] by {
                                    assert(node.children@[m].0@ != q[0]);
                                }
                            }
                            if first_key(old_children, q[0], j) {
                                assert forall|m: int| 0 <= m < j implies (#[trigger] node.children@[m]).0@ != q[0] by {
                                    assert(old_children[m].0@ != q[0]);
                                }
                                assert(node.children@[j].0@ == old_children[j].0@);
                            }
                        }
                        if exists|j: int| first_key(old_children, q[0], j) {
                            let j = choose|j: int| first_key(old_children, q[0], j);
                            assert(j != i);
                            assert(first_key(node.children@, q[0], j));
                            let j2 = choose|j: int| first_key(node.children@, q[0], j);
                            lemma_first_key_unique(node.children@, q[0], j, j2);
                        }
                    }
                }
            }
        },
        None => {
            let ghost old_children = node.children@;
            proof {
                lemma_no_key(old_children, seg@);
            }
            let mut child = TrieNode::fresh();
            let ghost fresh = child;
            insert_at(&mut child, segs, k + 1, allow, deny);
            node.children.push((segs[k].clone(), child));
            proof {
                let n = old_children.len() as int;
                assert(node.children@ =~= old_children.push((segs@[k as int], child)));
                assert forall|q: Seq<Seq<char>>|
                    #[trigger] node_lookup(*node, q) == after_insert(node_lookup(before, q), q, p, allow, deny) by {
                    if q.len() == 0 {
                        assert(is_prefix(q, p)) by {
                            assert(p.subrange(0, 0) =~= q);
                        }
                        assert(q != p);
                    } else if q[0] == p[0] {
                        lemma_prefix_step(q, p);
                        lemma_fresh_lookup(fresh, q.drop_first());
                        assert(first_key(node.children@, q[0], n)) by {
                            assert forall|m: int| 0 <= m < n implies (#[trigger] node.children@[m]).0@ != q[0] by {
                                assert(node.children@[m] == old_children[m]);
                            }
                        }
                        let j2 = choose|j: int| first_key(node.children@, q[0], j);
                        lemma_first_key_unique(node.children@, q[0], n, j2);
                        assert(!exists|j: int| first_key(old_children, q[0], j));
                        assert(node_lookup(child, q.drop_first()) == after_insert(
                            node_lookup(fresh, q.drop_first()),
                            q.drop_first(),
                            p.drop_first(),
                            allow,
                            deny,
                        ));
                        if q.drop_first().len() == 0 {
                            assert(p.drop_first().subrange(0, 0) =~= q.drop_first());
                        }
                    } else {
                        lemma_prefix_other_head(q, p);
                        assert forall|j: int| #[trigger] first_key(node.children@, q[0], j) <==> first_key(old_children, q[0], j) by {
                            if first_key(node.children@, q[0], j) {
                                assert(j != n);
                                assert forall|m: int| 0 <= m < j implies (#[trigger] old_children[m]).0@ != q[0] by {
                                    assert(node.children@[m] == old_children[m]);
                                }
                            }
                            if first_key(old_children, q[0], j) {
                                assert forall|m: int| 0 <= m < j implies (#[trigger] node.children@[m]).0@ != q[0] by {
                                    assert(node.children@[m] == old_children[m]);
                                }
                            }
                        }
                        if exists|j: int| first_key(old_children, q[0], j) {
                            let j = choose|j: int| first_key(old_children, q[0], j);
                            assert(first_key(node.children@, q[0], j));
                            let j2 = choose|j: int| first_key(node.children@, q[0], j);
                            lemma_first_key_unique(node.children@, q[0], j, j2);
                            assert(node.children@[j] == old_children[j]);
                        }
                    }
                }
            }
        },
    }
}

impl PathTrie {
    /// The flags of the node at segment path `q`, if the trie has one.
    pub closed spec fn lookup(self, q: Seq<Seq<char>>) -> Option<(bool, bool)> {
        node_lookup(self.root, q)
    }

    /// An empty trie: only the root, with neither flag.
    pub fn new() -> (r: PathTrie)
        ensures
            forall|q: Seq<Seq<char>>| #[trigger] r.lookup(q) == trie_model(seq![], q),
    {
        let r = PathTrie { root: TrieNode::fresh() };
        proof {
            assert forall|q: Seq<Seq<char>>| #[trigger] r.lookup(q) == trie_model(seq![], q) by {
                lemma_fresh_lookup(r.root, q);
            }
        }
        r
    }

    /// Adds the nodes along the path's segments and sets the flags of the last one.
    pub fn insert(&mut self, path: &str, allow: bool, deny: bool)
        ensures
            forall|q: Seq<Seq<char>>|
                #[trigger] final(self).lookup(q) == after_insert(
                    old(self).lookup(q),
                    q,
                    path_segments(path@),
                    allow,
                    deny,
                ),
    {
        let segs = split_path(path);
        assert(texts(segs@).skip(0) =~= texts(segs@));
        insert_at(&mut self.root, &segs, 0, allow, deny);
    }

    /// Check if a path is allowed or denied
    pub fn check(&self, path: &str) -> (r: Option<bool>)
        ensures
            r == check_answer(self.lookup(path_segments(path@))),
    {
        let segs = split_path(path);
        let ghost p = texts(segs@);
        let mut cur: &TrieNode = &self.root;
        let mut k: usize = 0;
        assert(p.skip(0) =~= p);
        while k < segs.len()
            invariant
                k <= segs.len(),
                p == texts(segs@),
                p == path_segments(path@),
                node_lookup(self.root, p) == node_lookup(*cur, p.skip(k as int)),
            decreases segs.len() - k,
        {
            let ghost rest = p.skip(k as int);
            assert(rest[0] == segs@[k as int]@);
            assert(rest.drop_first() =~= p.skip(k + 1));
            match find_child(&cur.children, segs[k].as_str()) {
                Some(i) => {
                    proof {
                        let j = choose|j: int| first_key(cur.children@, rest[0], j);
                        lemma_first_key_unique(cur.children@, rest[0], i as int, j);
                    }
                    cur = &cur.children[i].1;
                },
                None => {
                    proof {
                        lemma_no_key(cur.children@, rest[0]);
                    }
                    return None;
                },
            }
            k = k + 1;
        }
        assert(p.skip(k as int) =~= Seq::<Seq<char>>::empty());
        if cur.is_denied {
            Some(false)
        } else if cur.is_allowed {
            Some(true)
        } else {
            None
        }
    }
}

} // verus!
