use vstd::prelude::*;

use crate::bundle::{lemma_last_none, oci_parts, parse_oci_uri, Bundle, BundleError};
use crate::text::{
    concat_str, first_index_of, has_char, has_prefix, join_dir, last_index_of, join_path, lemma_first_index_of, lemma_last_index_of, path_segments,
    push_char, segments_from, split_path, str_eq, texts,
};

verus! {

/// Cache errors
#[derive(Debug)]
pub enum CacheError {
    /// IO error, by its message
    IoError(String),
    /// Bundle not found in cache
    NotFound(String),
    /// Cache corrupted
    Corrupted(String),
    /// Lock poisoned
    LockPoisoned,
}


/// Bundle cache for local storage: the cache directory and an index from bundle URIs to
/// the directories that hold them.
pub struct BundleCache {
    cache_dir: String,
    index: Vec<(String, String)>,
}

/// The directory that an index holds for a URI: its first entry for the URI.
pub open spec fn index_lookup(v: Seq<(String, String)>, uri: Seq<char>) -> Option<Seq<char>>
    decreases v.len(),
{
    if v.len() == 0 {
        None
    } else if v[0].0@ == uri {
        Some(v[0].1@)
    } else {
        index_lookup(v.drop_first(), uri)
    }
}

/// `dir` as a path prefix of `path`: what follows it, past a separator; all of `path`
/// when `dir` is empty.
pub open spec fn relative_to(path: Seq<char>, dir: Seq<char>) -> Option<Seq<char>> {
    if path == dir {
        Some(seq![])
    } else if dir.len() == 0 {
        Some(path)
    } else if dir.len() > 0 && dir.last() == '/' && path.len() > dir.len() && path.subrange(
        0,
        dir.len() as int,
    ) == dir {
        Some(path.subrange(dir.len() as int, path.len() as int))
    } else if path.len() > dir.len() && path.subrange(0, dir.len() as int) == dir && path[dir.len() as int]
        == '/' {
        Some(path.subrange(dir.len() as int + 1, path.len() as int))
    } else {
        None
    }
}

/// The pieces joined with `/` between them.
pub open spec fn join_slash(pieces: Seq<Seq<char>>) -> Seq<char>
    decreases pieces.len(),
{
    if pieces.len() == 0 {
        seq![]
    } else if pieces.len() == 1 {
        pieces[0]
    } else {
        join_slash(pieces.drop_last()) + seq!['/'] + pieces.last()
    }
}

/// The URI of a cached bundle from its directory `cache_dir/registry/repo.../version`:
/// `oci://registry/repo...:version`, when there are at least three components.
pub open spec fn uri_of_path(cache_dir: Seq<char>, path: Seq<char>) -> Option<Seq<char>> {
    match relative_to(path, cache_dir) {
        None => None,
        Some(rel) => {
            let c = path_segments(rel);
            if c.len() >= 3 {
                Some(
                    "oci://"@ + c[0] + seq!['/'] + join_slash(c.subrange(1, c.len() - 1)) + seq![':']
                        + c.last(),
                )
            } else {
                None
            }
        },
    }
}

/// The directory of the bundle with a URI: `cache_dir/registry/repository/tag`, with the
/// tag `latest` when the URI has none.
pub open spec fn path_of_uri(cache_dir: Seq<char>, uri: Seq<char>) -> Option<Seq<char>> {
    match oci_parts(uri) {
        Err(_) => None,
        Ok((registry, repository, tag)) => Some(
            join_path(
                join_path(join_path(cache_dir, registry), repository),
                match tag {
                    Some(t) => t,
                    None => "latest"@,
                },
            ),
        ),
    }
}

proof fn lemma_first_index_facts(s: Seq<char>, c: char)
    ensures
        first_index_of(s, c) matches Some(p) ==> 0 <= p < s.len() && s[p] == c && forall|j: int|
            0 <= j < p ==> #[trigger] s[j] != c,
    decreases s.len(),
{
    if s.len() > 0 && s[0] != c {
        lemma_first_index_facts(s.drop_first(), c);
        if let Some(p) = first_index_of(s, c) {
            assert forall|j: int| 0 <= j < p implies #[trigger] s[j] != c by {
                if j > 0 {
                    assert(s[j] == s.drop_first()[j - 1]);
                }
            }
        }
    }
}

/// A URI without a tag is cached where its `:latest` form is: the directory of
/// `oci://<registry>/<repository>` is that of `oci://<registry>/<repository>:latest`,
/// `<cache>/<registry>/<repository>/latest`.
pub proof fn lemma_untagged_is_latest(cache_dir: Seq<char>, uri: Seq<char>)
    requires
        oci_parts(uri) matches Ok((_, _, tag)) && tag is None,
    ensures
        path_of_uri(cache_dir, uri) == path_of_uri(cache_dir, uri + ":latest"@),
        oci_parts(uri) matches Ok((registry, repository, _)) && path_of_uri(cache_dir, uri) == Some(
            join_path(join_path(join_path(cache_dir, registry), repository), "latest"@),
        ),
{
    reveal_strlit(":latest");
    reveal_strlit("oci://");
    reveal_strlit("latest");
    let tail = ":latest"@;
    let u2 = uri + tail;
    let n = "oci://"@.len() as int;
    assert(n == 6);
    assert(has_prefix(uri, "oci://"@));
    assert(u2.subrange(0, n) =~= uri.subrange(0, n));
    assert(has_prefix(u2, "oci://"@));
    let rest = uri.subrange(n, uri.len() as int);
    let rest2 = u2.subrange(n, u2.len() as int);
    assert(rest2 =~= rest + tail);
    lemma_first_index_facts(rest, '/');
    let p = first_index_of(rest, '/')->0;
    assert forall|j: int| 0 <= j < p implies rest2[j] != '/' by {
        assert(rest2[j] == rest[j]);
    }
    assert(rest2[p] == rest[p]);
    lemma_first_index_of(rest2, '/', p);
    assert(first_index_of(rest2, '/') == Some(p));
    assert(rest2.subrange(0, p) =~= rest.subrange(0, p));
    let path = rest.subrange(p + 1, rest.len() as int);
    let path2 = rest2.subrange(p + 1, rest2.len() as int);
    assert(path2 =~= path + tail);
    lemma_last_none(path, '@');
    lemma_last_none(path, ':');
    assert forall|j: int| 0 <= j < path2.len() implies path2[j] != '@' by {
        if j < path.len() {
            assert(path2[j] == path[j]);
            assert(!has_char(path, '@'));
        } else {
            assert(path2[j] == tail[j - path.len()]);
        }
    }
    lemma_last_index_of(path2, '@', 0);
    assert forall|j: int| path.len() + 1 <= j < path2.len() implies path2[j] != ':' by {
        assert(path2[j] == tail[j - path.len()]);
    }
    assert(path2[path.len() as int] == ':');
    lemma_last_index_of(path2, ':', path.len() + 1int);
    assert(path2.subrange(0, path.len() as int) =~= path);
    assert(path2.subrange(path.len() + 1int, path2.len() as int) =~= "latest"@);
}

pub(crate) fn join_pieces(pieces: &Vec<String>, from: usize, to: usize) -> (r: String)
    requires
        from <= to <= pieces.len(),
    ensures
        r@ == join_slash(texts(pieces@).subrange(from as int, to as int)),
{
    let mut out = String::new();
    let mut i: usize = from;
    assert(texts(pieces@).subrange(from as int, from as int) =~= Seq::<Seq<char>>::empty());
    while i < to
        invariant
            from <= i <= to <= pieces.len(),
            out@ == join_slash(texts(pieces@).subrange(from as int, i as int)),
        decreases to - i,
    {
        let ghost prev = texts(pieces@).subrange(from as int, i as int);
        let ghost next = texts(pieces@).subrange(from as int, i + 1);
        assert(next.drop_last() =~= prev);
        assert(next.last() == pieces@[i as int]@);
        if i > from {
            push_char(&mut out, '/');
        }
        out = concat_str(out.as_str(), pieces[i].as_str());
        assert(prev.len() == 0 ==> (out@ =~= next[0]));
        i = i + 1;
    }
    out
}

impl BundleCache {
    /// The cache directory.
    pub closed spec fn dir(self) -> Seq<char> {
        self.cache_dir@
    }

    /// The directory the index holds for a URI.
    pub closed spec fn entry(self, uri: Seq<char>) -> Option<Seq<char>> {
        index_lookup(self.index@, uri)
    }

    /// The directories in the index, in its order.
    pub closed spec fn held_dirs(self) -> Seq<Seq<char>> {
        self.index@.map_values(|e: (String, String)| e.1@)
    }

    /// The URIs in the index, in the order they were added.
    pub closed spec fn uris(self) -> Seq<Seq<char>> {
        self.index@.map_values(|e: (String, String)| e.0@)
    }

    /// A cache over `cache_dir` with an empty index
    pub fn new(cache_dir: String) -> (r: BundleCache)
        ensures
            r.dir() == cache_dir@,
            forall|u: Seq<char>| #[trigger] r.entry(u) is None,
            r.uris().len() == 0,
    {
        let r = BundleCache { cache_dir, index: Vec::new() };
        assert(r.uris() =~= Seq::<Seq<char>>::empty());
        r
    }

    /// Convert cache path back to URI
    pub fn path_to_uri(&self, path: &str) -> (r: Option<String>)
        ensures
            match uri_of_path(self.dir(), path@) {
                Some(u) => r matches Some(s) && s@ == u,
                None => r is None,
            },
    {
        let rel = match relative_path(path, self.cache_dir.as_str()) {
            Some(rel) => rel,
            None => {
                return None;
            },
        };
        let c = split_path(rel.as_str());
        if c.len() < 3 {
            return None;
        }
        let repo = join_pieces(&c, 1, c.len() - 1);
        let mut uri = concat_str("oci://", c[0].as_str());
        push_char(&mut uri, '/');
        let uri = concat_str(uri.as_str(), repo.as_str());
        let mut uri = uri;
        push_char(&mut uri, ':');
        let uri = concat_str(uri.as_str(), c[c.len() - 1].as_str());
        proof {
            let t = texts(c@);
            assert(t[0] == c@[0]@);
            assert(t.last() == c@[c.len() - 1]@);
        }
        Some(uri)
    }

    /// Get the cache path for a URI
    pub fn uri_to_path(&self, uri: &str) -> (r: Result<String, BundleError>)
        ensures
            match path_of_uri(self.dir(), uri@) {
                Some(p) => r matches Ok(s) && s@ == p,
                None => r matches Err(BundleError::InvalidUri(m)) && oci_parts(uri@) matches Err(x) && m@
                    == x,
            },
    {
        let (registry, repository, tag) = parse_oci_uri(uri)?;
        let tag = match tag {
            Some(t) => t,
            None => "latest".to_string(),
        };
        let a = join_dir(self.cache_dir.as_str(), registry.as_str());
        let b = join_dir(a.as_str(), repository.as_str());
        Ok(join_dir(b.as_str(), tag.as_str()))
    }

    /// Record in the index that the bundle with a URI is in a directory
    pub fn index_put(&mut self, uri: &str, path: String)
        ensures
            final(self).dir() == old(self).dir(),
            final(self).entry(uri@) == Some(path@),
            forall|u: Seq<char>| u != uri@ ==> #[trigger] final(self).entry(u) == old(self).entry(u),
            final(self).uris() == if old(self).entry(uri@) is Some {
                old(self).uris()
            } else {
                old(self).uris().push(uri@)
            },
    {
        let ghost before = self.index@;
        let mut i: usize = 0;
        while i < self.index.len()
            invariant
                i <= self.index.len(),
                self.index@ == before,
                before == old(self).index@,
                self.cache_dir == old(self).cache_dir,
                forall|j: int| 0 <= j < i ==> (#[trigger] before[j]).0@ != uri@,
            decreases self.index.len() - i,
        {
            if str_eq(self.index[i].0.as_str(), uri) {
                let ghost pv = path@;
                self.index.set(i, (uri.to_string(), path));
                proof {
                    lemma_index_lookup_update(before, i as int, uri@, pv, self.index@);
                    lemma_index_lookup_update(before, i as int, uri@, before[i as int].1@, before);
                    assert(self.uris() =~= before.map_values(|e: (String, String)| e.0@));
                }
                return;
            }
            i = i + 1;
        }
        let ghost pv = path@;
        self.index.push((uri.to_string(), path));
        proof {
            lemma_index_lookup_snoc(before, self.index@[before.len() as int]);
            assert(self.index@ =~= before.push(self.index@[before.len() as int]));
            assert forall|j: int| 0 <= j < before.len() implies (#[trigger] before[j]).0@ != uri@ by {}
            lemma_index_lookup_absent(before, uri@);
            assert(self.uris() =~= before.map_values(|e: (String, String)| e.0@).push(uri@));
        }
    }

    /// Get the directory of a cached bundle
    pub fn get(&self, uri: &str) -> (r: Result<String, CacheError>)
        ensures
            match self.entry(uri@) {
                Some(p) => r matches Ok(s) && s@ == p,
                None => r matches Err(CacheError::NotFound(u)) && u@ == uri@,
            },
    {
        let mut i: usize = 0;
        assert(self.index@.skip(0) =~= self.index@);
        while i < self.index.len()
            invariant
                i <= self.index.len(),
                index_lookup(self.index@, uri@) == index_lookup(self.index@.skip(i as int), uri@),
            decreases self.index.len() - i,
        {
            assert(self.index@.skip(i as int).drop_first() =~= self.index@.skip(i + 1));
            if str_eq(self.index[i].0.as_str(), uri) {
                return Ok(self.index[i].1.clone());
            }
            i = i + 1;
        }
        Err(CacheError::NotFound(uri.to_string()))
    }

    /// Check if a bundle exists in cache
    pub fn has_bundle(&self, uri: &str) -> (r: bool)
        ensures
            r == self.entry(uri@) is Some,
    {
        self.get(uri).is_ok()
    }

    /// Remove a bundle from the index, giving its directory (to be deleted) if it was there
    pub fn index_remove(&mut self, uri: &str) -> (r: Option<String>)
        ensures
            final(self).dir() == old(self).dir(),
            final(self).entry(uri@) is None,
            forall|u: Seq<char>| u != uri@ ==> #[trigger] final(self).entry(u) == old(self).entry(u),
            match old(self).entry(uri@) {
                Some(p) => r matches Some(s) && s@ == p,
                None => r is None,
            },
            final(self).uris() == old(self).uris().filter(|u: Seq<char>| u != uri@),
    {
        let found = match self.get(uri) {
            Ok(p) => Some(p),
            Err(_) => None,
        };
        let ghost before = self.index@;
        let mut kept: Vec<(String, String)> = Vec::new();
        let mut i: usize = 0;
        while i < self.index.len()
            invariant
                i <= self.index.len(),
                self.index@ == before,
                index_lookup(kept@, uri@) is None,
                forall|u: Seq<char>| u != uri@ ==> #[trigger] index_lookup(kept@, u) == index_lookup(before.subrange(0, i as int), u)
                    || (index_lookup(kept@, u) is None && index_lookup(before.subrange(0, i as int), u) is None),
                kept@.map_values(|e: (String, String)| e.0@) == before.subrange(0, i as int).map_values(
                    |e: (String, String)| e.0@,
                ).filter(|u: Seq<char>| u != uri@),
            decreases self.index.len() - i,
        {
            proof {
                lemma_index_lookup_snoc(before.subrange(0, i as int), before[i as int]);
                assert(before.subrange(0, i + 1) =~= before.subrange(0, i as int).push(before[i as int]));
                let f = |e: (String, String)| e.0@;
                let m1 = before.subrange(0, i + 1).map_values(f);
                assert(m1.drop_last() =~= before.subrange(0, i as int).map_values(f));
                assert(m1.last() == before[i as int].0@);
                reveal(Seq::filter);
            }
            if !str_eq(self.index[i].0.as_str(), uri) {
                let ghost prev = kept@;
                let entry = (self.index[i].0.clone(), self.index[i].1.clone());
                kept.push(entry);
                proof {
                    lemma_index_lookup_snoc(prev, entry);
                    assert(kept@.map_values(|e: (String, String)| e.0@) =~= prev.map_values(
                        |e: (String, String)| e.0@,
                    ).push(before[i as int].0@));
                }
            }
            i = i + 1;
        }
        proof {
            assert(before.subrange(0, i as int) =~= before);
        }
        self.index = kept;
        found
    }

    /// Empty the index, giving the directories it held (to be deleted)
    pub fn index_clear(&mut self) -> (r: Vec<String>)
        ensures
            final(self).dir() == old(self).dir(),
            forall|u: Seq<char>| #[trigger] final(self).entry(u) is None,
            r@.map_values(|s: String| s@) == old(self).held_dirs(),
    {
        let mut dirs: Vec<String> = Vec::new();
        let mut i: usize = 0;
        while i < self.index.len()
            invariant
                i <= self.index.len(),
                dirs@.map_values(|s: String| s@) == self.index@.subrange(0, i as int).map_values(
                    |e: (String, String)| e.1@,
                ),
            decreases self.index.len() - i,
        {
            let ghost prev = dirs@.map_values(|s: String| s@);
            dirs.push(self.index[i].1.clone());
            assert(dirs@.map_values(|s: String| s@) =~= prev.push(self.index@[i as int].1@));
            assert(dirs@.map_values(|s: String| s@) =~= self.index@.subrange(0, i + 1).map_values(
                |e: (String, String)| e.1@,
            ));
            i = i + 1;
        }
        assert(self.index@.subrange(0, i as int) =~= self.index@);
        self.index = Vec::new();
        dirs
    }

    /// List all cached bundles
    pub fn list(&self) -> (r: Vec<String>)
        ensures
            r@.map_values(|s: String| s@) == self.uris(),
    {
        let mut out: Vec<String> = Vec::new();
        let mut i: usize = 0;
        while i < self.index.len()
            invariant
                i <= self.index.len(),
                out@.map_values(|s: String| s@) == self.index@.subrange(0, i as int).map_values(
                    |e: (String, String)| e.0@,
                ),
            decreases self.index.len() - i,
        {
            let ghost prev = out@.map_values(|s: String| s@);
            out.push(self.index[i].0.clone());
            assert(out@.map_values(|s: String| s@) =~= prev.push(self.index@[i as int].0@));
            assert(out@.map_values(|s: String| s@) =~= self.index@.subrange(0, i + 1).map_values(
                |e: (String, String)| e.0@,
            ));
            i = i + 1;
        }
        assert(self.index@.subrange(0, i as int) =~= self.index@);
        out
    }

    /// The directories of the index, in its order (for reading the bundles back).
    pub fn indexed_paths(&self) -> (r: Vec<String>)
        ensures
            r@.map_values(|s: String| s@) == self.held_dirs(),
    {
        let mut out: Vec<String> = Vec::new();
        let mut i: usize = 0;
        while i < self.index.len()
            invariant
                i <= self.index.len(),
                out@.map_values(|s: String| s@) == self.index@.subrange(0, i as int).map_values(
                    |e: (String, String)| e.1@,
                ),
            decreases self.index.len() - i,
        {
            let ghost prev = out@.map_values(|s: String| s@);
            out.push(self.index[i].1.clone());
            assert(out@.map_values(|s: String| s@) =~= prev.push(self.index@[i as int].1@));
            assert(out@.map_values(|s: String| s@) =~= self.index@.subrange(0, i + 1).map_values(
                |e: (String, String)| e.1@,
            ));
            i = i + 1;
        }
        assert(self.index@.subrange(0, i as int) =~= self.index@);
        out
    }

    /// Verify cache integrity: the URIs whose bundle could not be read (`None`, in the
    /// order of [`BundleCache::indexed_paths`]) or does not verify.
    pub fn verify(&self, loaded: &Vec<Option<Bundle>>) -> (r: Vec<String>)
        requires
            loaded.len() == self.uris().len(),
        ensures
            r@.map_values(|s: String| s@) == corrupted(self.uris(), loaded@),
    {
        let mut out: Vec<String> = Vec::new();
        let mut i: usize = 0;
        assert(self.uris().subrange(0, 0) =~= Seq::<Seq<char>>::empty());
        while i < self.index.len()
            invariant
                i <= self.index.len(),
                loaded.len() == self.index.len(),
                self.uris() == self.index@.map_values(|e: (String, String)| e.0@),
                out@.map_values(|s: String| s@) == corrupted(
                    self.uris().subrange(0, i as int),
                    loaded@.subrange(0, i as int),
                ),
            decreases self.index.len() - i,
        {
            let ghost prev = out@.map_values(|s: String| s@);
            assert(self.uris().subrange(0, i + 1).drop_last() =~= self.uris().subrange(0, i as int));
            assert(loaded@.subrange(0, i + 1).drop_last() =~= loaded@.subrange(0, i as int));
            let bad = match &loaded[i] {
                None => true,
                Some(b) => b.verify().is_err(),
            };
            if bad {
                out.push(self.index[i].0.clone());
                assert(out@.map_values(|s: String| s@) =~= prev.push(self.index@[i as int].0@));
            }
            i = i + 1;
        }
        assert(self.uris().subrange(0, i as int) =~= self.uris());
        assert(loaded@.subrange(0, i as int) =~= loaded@);
        out
    }
}

/// The bundle is intact: both digests match the contents.
pub open spec fn intact(b: Bundle) -> bool {
    crate::bundle::digest_of(b.wasm@) == b.metadata.wasm_digest@ && crate::bundle::digest_of(
        b.config@,
    ) == b.metadata.config_digest@
}

/// The URIs whose bundle is missing or not intact, in order.
pub open spec fn corrupted(uris: Seq<Seq<char>>, loaded: Seq<Option<Bundle>>) -> Seq<Seq<char>>
    decreases uris.len(),
{
    if uris.len() == 0 || loaded.len() == 0 {
        seq![]
    } else {
        corrupted(uris.drop_last(), loaded.drop_last()) + match loaded.last() {
            Some(b) => if intact(b) {
                seq![]
            } else {
                seq![uris.last()]
            },
            None => seq![uris.last()],
        }
    }
}

proof fn lemma_index_lookup_snoc(v: Seq<(String, String)>, e: (String, String))
    ensures
        forall|u: Seq<char>| #[trigger] index_lookup(v.push(e), u) == (if index_lookup(v, u) is Some {
            index_lookup(v, u)
        } else if e.0@ == u {
            Some(e.1@)
        } else {
            None
        }),
    decreases v.len(),
{
    if v.len() > 0 {
        lemma_index_lookup_snoc(v.drop_first(), e);
        assert(v.push(e).drop_first() =~= v.drop_first().push(e));
        assert(v.push(e)[0] == v[0]);
        assert forall|u: Seq<char>| #[trigger] index_lookup(v.push(e), u) == (if index_lookup(v, u) is Some {
            index_lookup(v, u)
        } else if e.0@ == u {
            Some(e.1@)
        } else {
            None
        }) by {
            if v[0].0@ != u {
                assert(index_lookup(v.push(e), u) == index_lookup(v.drop_first().push(e), u));
            }
        }
    } else {
        assert(v.push(e).drop_first() =~= Seq::<(String, String)>::empty());
        assert(v.push(e)[0] == e);
        assert forall|u: Seq<char>| #[trigger] index_lookup(v.push(e), u) == (if index_lookup(v, u) is Some {
            index_lookup(v, u)
        } else if e.0@ == u {
            Some(e.1@)
        } else {
            None
        }) by {
            assert(index_lookup(v.push(e).drop_first(), u) is None);
        }
    }
}

proof fn lemma_index_lookup_absent(v: Seq<(String, String)>, k: Seq<char>)
    requires
        forall|j: int| 0 <= j < v.len() ==> (#[trigger] v[j]).0@ != k,
    ensures
        index_lookup(v, k) is None,
    decreases v.len(),
{
    if v.len() > 0 {
        assert forall|j: int| 0 <= j < v.drop_first().len() implies (#[trigger] v.drop_first()[j]).0@ != k by {
            assert(v.drop_first()[j] == v[j + 1]);
        }
        lemma_index_lookup_absent(v.drop_first(), k);
    }
}

proof fn lemma_index_lookup_update(v0: Seq<(String, String)>, i: int, k: Seq<char>, p: Seq<char>, v1: Seq<(String, String)>)
    requires
        0 <= i < v0.len(),
        v1.len() == v0.len(),
        v1[i].0@ == k,
        v1[i].1@ == p,
        v0[i].0@ == k,
        forall|j: int| 0 <= j < v0.len() && j != i ==> v1[j] == v0[j],
        forall|j: int| 0 <= j < i ==> (#[trigger] v0[j]).0@ != k,
    ensures
        index_lookup(v1, k) == Some(p),
        forall|x: Seq<char>| x != k ==> #[trigger] index_lookup(v1, x) == index_lookup(v0, x),
    decreases i,
{
    if i > 0 {
        assert forall|j: int| 0 <= j < i - 1 implies (#[trigger] v0.drop_first()[j]).0@ != k by {
            assert(v0.drop_first()[j] == v0[j + 1]);
        }
        lemma_index_lookup_update(v0.drop_first(), i - 1, k, p, v1.drop_first());
        assert(v1[0] == v0[0]);
        assert(v0[0].0@ != k);
        assert forall|x: Seq<char>| x != k implies #[trigger] index_lookup(v1, x) == index_lookup(v0, x) by {
            if v0[0].0@ != x {
                assert(index_lookup(v1.drop_first(), x) == index_lookup(v0.drop_first(), x));
            }
        }
    } else {
        assert(v1.drop_first() =~= v0.drop_first()) by {
            assert forall|j: int| 0 <= j < v1.drop_first().len() implies v1.drop_first()[j] == v0.drop_first()[j] by {
                assert(v1[j + 1] == v0[j + 1]);
            }
        }
        assert forall|x: Seq<char>| x != k implies #[trigger] index_lookup(v1, x) == index_lookup(v0, x) by {
            assert(index_lookup(v1.drop_first(), x) == index_lookup(v0.drop_first(), x));
        }
    }
}

// ----- where a bundle is cached -----

/// A piece of a cache path: not empty and without `/`.
pub open spec fn plain_piece(s: Seq<char>) -> bool {
    s.len() > 0 && !has_char(s, '/')
}

/// The URI `oci://registry/repo/...:tag`, the repository given by its pieces.
pub open spec fn tagged_uri(registry: Seq<char>, repo: Seq<Seq<char>>, tag: Seq<char>) -> Seq<char> {
    "oci://"@ + registry + seq!['/'] + join_slash(repo) + seq![':'] + tag
}

proof fn lemma_segments_plain(s: Seq<char>, rest: Seq<char>, cur: Seq<char>)
    requires
        !has_char(s, '/'),
    ensures
        segments_from(s + rest, cur) == segments_from(rest, cur + s),
    decreases s.len(),
{
    if s.len() == 0 {
        assert(s + rest =~= rest);
        assert(cur + s =~= cur);
    } else {
        assert((s + rest)[0] == s[0]);
        assert((s + rest).drop_first() =~= s.drop_first() + rest);
        assert(!has_char(s.drop_first(), '/')) by {
            if has_char(s.drop_first(), '/') {
                let i = choose|i: int| 0 <= i < s.drop_first().len() && s.drop_first()[i] == '/';
                assert(s[i + 1] == '/');
            }
        }
        lemma_segments_plain(s.drop_first(), rest, cur.push(s[0]));
        assert(cur.push(s[0]) + s.drop_first() =~= cur + s);
    }
}

proof fn lemma_segments_piece(p: Seq<char>, rest: Seq<char>)
    requires
        plain_piece(p),
        rest.len() == 0 || rest[0] == '/',
    ensures
        segments_from(p + rest, seq![]) == seq![p] + segments_from(rest, seq![]),
{
    lemma_segments_plain(p, rest, seq![]);
    assert(Seq::<char>::empty() + p =~= p);
    if rest.len() == 0 {
        assert(seq![p] + Seq::<Seq<char>>::empty() =~= seq![p]);
    } else {
        assert(Seq::<Seq<char>>::empty() + segments_from(rest.drop_first(), seq![]) =~= segments_from(
            rest.drop_first(),
            seq![],
        ));
    }
}

proof fn lemma_segments_join(segs: Seq<Seq<char>>, rest: Seq<char>)
    requires
        segs.len() > 0,
        forall|i: int| 0 <= i < segs.len() ==> plain_piece(#[trigger] segs[i]),
        rest.len() == 0 || rest[0] == '/',
    ensures
        segments_from(join_slash(segs) + rest, seq![]) == segs + segments_from(rest, seq![]),
    decreases segs.len(),
{
    if segs.len() == 1 {
        assert(plain_piece(segs[0]));
        lemma_segments_piece(segs[0], rest);
        assert(seq![segs[0]] =~= segs);
    } else {
        let init = segs.drop_last();
        let last = segs.last();
        assert(plain_piece(segs[segs.len() - 1]));
        let tail = seq!['/'] + last + rest;
        assert(join_slash(segs) + rest =~= join_slash(init) + tail);
        assert forall|i: int| 0 <= i < init.len() implies plain_piece(#[trigger] init[i]) by {
            assert(init[i] == segs[i]);
        }
        lemma_segments_join(init, tail);
        assert(tail.drop_first() =~= last + rest);
        lemma_segments_piece(last, rest);
        assert(Seq::<Seq<char>>::empty() + segments_from(last + rest, seq![]) =~= segments_from(
            last + rest,
            seq![],
        ));
        assert(init + (seq![last] + segments_from(rest, seq![])) =~= segs + segments_from(rest, seq![]));
    }
}

proof fn lemma_join_slash_ends(segs: Seq<Seq<char>>)
    requires
        segs.len() > 0,
        forall|i: int| 0 <= i < segs.len() ==> plain_piece(#[trigger] segs[i]),
    ensures
        join_slash(segs).len() > 0,
        join_slash(segs)[0] != '/',
        join_slash(segs).last() != '/',
    decreases segs.len(),
{
    assert(plain_piece(segs[segs.len() - 1]));
    assert(segs.last()[segs.last().len() - 1] != '/');
    if segs.len() == 1 {
        assert(plain_piece(segs[0]));
        assert(segs[0][0] != '/');
    } else {
        let init = segs.drop_last();
        assert forall|i: int| 0 <= i < init.len() implies plain_piece(#[trigger] init[i]) by {
            assert(init[i] == segs[i]);
        }
        lemma_join_slash_ends(init);
        let j = join_slash(segs);
        assert(j[0] == join_slash(init)[0]);
        assert(j.last() == segs.last().last());
    }
}

proof fn lemma_tagged_uri_parts(registry: Seq<char>, repo: Seq<Seq<char>>, tag: Seq<char>)
    requires
        plain_piece(registry),
        !has_char(tag, ':'),
        !has_char(join_slash(repo), '@'),
        !has_char(tag, '@'),
    ensures
        oci_parts(tagged_uri(registry, repo, tag)) == Ok::<
            (Seq<char>, Seq<char>, Option<Seq<char>>),
            Seq<char>,
        >((registry, join_slash(repo), Some(tag))),
{
    let uri = tagged_uri(registry, repo, tag);
    let j = join_slash(repo);
    reveal_strlit("oci://");
    let rest = registry + seq!['/'] + j + seq![':'] + tag;
    assert(uri =~= "oci://"@ + rest);
    assert("oci://"@.len() == 6);
    assert(uri.subrange(0, 6) =~= "oci://"@);
    assert(has_prefix(uri, "oci://"@));
    assert(uri.subrange(6, uri.len() as int) =~= rest);
    assert forall|k: int| 0 <= k < registry.len() implies rest[k] != '/' by {
        assert(rest[k] == registry[k]);
    }
    assert(rest[registry.len() as int] == '/');
    lemma_first_index_of(rest, '/', registry.len() as int);
    assert(first_index_of(rest, '/') == Some(registry.len() as int));
    assert(rest.subrange(0, registry.len() as int) =~= registry);
    let path = rest.subrange(registry.len() as int + 1, rest.len() as int);
    assert(path =~= j + seq![':'] + tag);
    assert forall|k: int| 0 <= k < path.len() implies path[k] != '@' by {
        if k < j.len() {
            assert(path[k] == j[k]);
        } else if k > j.len() {
            assert(path[k] == tag[k - j.len() - 1]);
        }
    }
    lemma_last_index_of(path, '@', 0);
    assert forall|k: int| j.len() + 1 <= k < path.len() implies path[k] != ':' by {
        assert(path[k] == tag[k - j.len() - 1]);
    }
    assert(path[j.len() as int] == ':');
    lemma_last_index_of(path, ':', j.len() as int + 1);
    assert(last_index_of(path, ':') == Some(j.len() as int));
    assert(path.subrange(0, j.len() as int) =~= j);
    assert(path.subrange(j.len() as int + 1, path.len() as int) =~= tag);
}

proof fn lemma_relative_after_slash_dir(d: Seq<char>, rel: Seq<char>)
    requires
        d.len() > 0,
        d.last() == '/',
        rel.len() > 0,
    ensures
        relative_to(d + rel, d) == Some(rel),
{
    let p = d + rel;
    assert(p.len() != d.len());
    assert(p.subrange(0, d.len() as int) =~= d);
    assert(p.subrange(d.len() as int, p.len() as int) =~= rel);
}

proof fn lemma_relative_after_separator(d: Seq<char>, rel: Seq<char>)
    requires
        d.len() > 0,
        d.last() != '/',
    ensures
        relative_to(d + seq!['/'] + rel, d) == Some(rel),
{
    let p = d + seq!['/'] + rel;
    assert(p.len() != d.len());
    assert(p.subrange(0, d.len() as int) =~= d);
    assert(p[d.len() as int] == '/');
    assert(p.subrange(d.len() as int + 1, p.len() as int) =~= rel);
}

#[verifier::spinoff_prover]
proof fn lemma_bundle_dir(d: Seq<char>, registry: Seq<char>, j: Seq<char>, tag: Seq<char>)
    requires
        registry.len() > 0,
        registry[0] != '/',
        registry.last() != '/',
        j.len() > 0,
        j[0] != '/',
        j.last() != '/',
        tag.len() > 0,
        tag[0] != '/',
    ensures
        relative_to(join_path(join_path(join_path(d, registry), j), tag), d) == Some(
            registry + seq!['/'] + j + seq!['/'] + tag,
        ),
{
    let d1 = join_path(d, registry);
    let d2 = join_path(d1, j);
    assert(d1.len() > 0 && d1.last() == registry.last());
    assert(d2 == d1 + seq!['/'] + j);
    assert(d2.len() > 0 && d2.last() == j.last());
    let p = join_path(d2, tag);
    assert(p == d2 + seq!['/'] + tag);
    let rel = registry + seq!['/'] + j + seq!['/'] + tag;
    if d.len() == 0 {
        assert(d1 == registry);
        assert(p =~= rel);
    } else if d.last() == '/' {
        assert(d1 == d + registry);
        assert(p =~= d + rel);
        lemma_relative_after_slash_dir(d, rel);
    } else {
        assert(d1 == d + seq!['/'] + registry);
        assert(p =~= d + seq!['/'] + rel);
        lemma_relative_after_separator(d, rel);
    }
}

proof fn lemma_bundle_dir_pieces(registry: Seq<char>, repo: Seq<Seq<char>>, tag: Seq<char>)
    requires
        plain_piece(registry),
        repo.len() > 0,
        forall|i: int| 0 <= i < repo.len() ==> plain_piece(#[trigger] repo[i]),
        plain_piece(tag),
    ensures
        path_segments(registry + seq!['/'] + join_slash(repo) + seq!['/'] + tag) == seq![registry]
            + repo + seq![tag],
{
    let j = join_slash(repo);
    let rel = registry + seq!['/'] + j + seq!['/'] + tag;
    let after = seq!['/'] + j + seq!['/'] + tag;
    assert(rel =~= registry + after);
    lemma_segments_piece(registry, after);
    assert(after.drop_first() =~= j + (seq!['/'] + tag));
    lemma_segments_join(repo, seq!['/'] + tag);
    assert((seq!['/'] + tag).drop_first() =~= tag);
    lemma_segments_piece(tag, seq![]);
    assert(tag + Seq::<char>::empty() =~= tag);
    assert(path_segments(rel) =~= seq![registry] + repo + seq![tag]);
}

/// Round trip: the directory that `uri_to_path` gives for a tagged URI reads back, by
/// `path_to_uri`, as that URI, when the registry, each repository piece and the tag are
/// plain path pieces, the tag has no `:`, and neither the repository nor the tag has `@`.
pub proof fn lemma_cache_path_round_trip(
    cache: BundleCache,
    registry: Seq<char>,
    repo: Seq<Seq<char>>,
    tag: Seq<char>,
)
    requires
        plain_piece(registry),
        repo.len() > 0,
        forall|i: int| 0 <= i < repo.len() ==> plain_piece(#[trigger] repo[i]),
        plain_piece(tag),
        !has_char(tag, ':'),
        !has_char(join_slash(repo), '@'),
        !has_char(tag, '@'),
    ensures
        path_of_uri(cache.dir(), tagged_uri(registry, repo, tag)) matches Some(p) && uri_of_path(
            cache.dir(),
            p,
        ) == Some(tagged_uri(registry, repo, tag)),
{
    let uri = tagged_uri(registry, repo, tag);
    let j = join_slash(repo);
    let d = cache.dir();
    lemma_join_slash_ends(repo);
    assert(registry[0] != '/' && registry.last() != '/') by {
        assert(registry[registry.len() - 1] != '/');
    }
    assert(tag[0] != '/');
    lemma_tagged_uri_parts(registry, repo, tag);
    let p = join_path(join_path(join_path(d, registry), j), tag);
    assert(path_of_uri(d, uri) == Some(p));
    lemma_bundle_dir(d, registry, j, tag);
    lemma_bundle_dir_pieces(registry, repo, tag);
    let c = path_segments(registry + seq!['/'] + j + seq!['/'] + tag);
    assert(c.len() == repo.len() + 2);
    assert(c[0] == registry);
    assert(c.last() == tag);
    assert(c.subrange(1, c.len() - 1) =~= repo);
    assert(uri =~= "oci://"@ + c[0] + seq!['/'] + join_slash(c.subrange(1, c.len() - 1)) + seq![':'] + c.last());
}

proof fn lemma_lookup_listed(v: Seq<(String, String)>, u: Seq<char>)
    requires
        index_lookup(v, u) is Some,
    ensures
        v.map_values(|e: (String, String)| e.0@).contains(u),
    decreases v.len(),
{
    let f = |e: (String, String)| e.0@;
    if v[0].0@ == u {
        assert(v.map_values(f)[0] == u);
    } else {
        lemma_lookup_listed(v.drop_first(), u);
        let k = choose|k: int| 0 <= k < v.drop_first().map_values(f).len() && v.drop_first().map_values(f)[k] == u;
        assert(v.map_values(f)[k + 1] == u);
    }
}

/// A URI that the index holds a directory for is among the URIs listed: so after
/// `index_put(uri, path)`, `list` includes `uri` and `get(uri)` gives `path`.
pub proof fn lemma_indexed_uri_listed(cache: BundleCache, uri: Seq<char>)
    requires
        cache.entry(uri) is Some,
    ensures
        cache.uris().contains(uri),
{
    lemma_lookup_listed(cache.index@, uri);
}

/// One step of a cache's history, as its index operations state it: `(0, u)` puts a
/// bundle for `u`, `(1, u)` removes `u`, any other kind clears the index.
pub open spec fn cache_step(before: BundleCache, after: BundleCache, op: (int, Seq<char>)) -> bool {
    if op.0 == 0 {
        after.entry(op.1) is Some && forall|u: Seq<char>| u != op.1 ==> #[trigger] after.entry(u)
            == before.entry(u)
    } else if op.0 == 1 {
        after.entry(op.1) is None && forall|u: Seq<char>| u != op.1 ==> #[trigger] after.entry(u)
            == before.entry(u)
    } else {
        forall|u: Seq<char>| #[trigger] after.entry(u) is None
    }
}

/// Whether the last operation of the history that bears on `u` put a bundle for it.
pub open spec fn last_put(ops: Seq<(int, Seq<char>)>, u: Seq<char>) -> bool
    decreases ops.len(),
{
    if ops.len() == 0 {
        false
    } else if ops.last().0 == 0 && ops.last().1 == u {
        true
    } else if (ops.last().0 == 1 && ops.last().1 == u) || (ops.last().0 != 0 && ops.last().0 != 1) {
        false
    } else {
        last_put(ops.drop_last(), u)
    }
}

/// A cache's history: starting from an empty index, after puts, removals and clears a
/// URI has a bundle exactly when the last of those operations that bears on it was a put.
pub proof fn lemma_cache_history(caches: Seq<BundleCache>, ops: Seq<(int, Seq<char>)>, u: Seq<char>)
    requires
        caches.len() == ops.len() + 1,
        forall|x: Seq<char>| #[trigger] caches[0].entry(x) is None,
        forall|i: int| 0 <= i < ops.len() ==> cache_step(caches[i], caches[i + 1], #[trigger] ops[i]),
    ensures
        (caches.last().entry(u) is Some) == last_put(ops, u),
    decreases ops.len(),
{
    if ops.len() > 0 {
        let n = ops.len() - 1;
        let cs = caches.drop_last();
        let os = ops.drop_last();
        assert forall|i: int| 0 <= i < os.len() implies cache_step(cs[i], cs[i + 1], #[trigger] os[i]) by {
            assert(cache_step(caches[i], caches[i + 1], ops[i]));
        }
        assert(cs[0] == caches[0]);
        lemma_cache_history(cs, os, u);
        assert(cache_step(caches[n], caches[n + 1], ops[n]));
        assert(caches.last() == caches[n + 1]);
        assert(cs.last() == caches[n]);
        assert(ops.last() == ops[n]);
    }
}

/// What follows `dir` in `path` as a path prefix, past a separator.
fn relative_path(path: &str, dir: &str) -> (r: Option<String>)
    ensures
        match relative_to(path@, dir@) {
            Some(rel) => r matches Some(s) && s@ == rel,
            None => r is None,
        },
{
    let p = crate::text::chars_of(path);
    let d = crate::text::chars_of(dir);
    if crate::text::chars_eq(&p, &d) {
        return Some(String::new());
    }
    if d.len() == 0 {
        return Some(path.to_string());
    }
    if d.len() > 0 && d[d.len() - 1] == '/' && p.len() > d.len() && crate::text::occurs_at_exec(&p, &d, 0) {
        assert(p@.subrange(0, d.len() as int) == d@);
        return Some(crate::text::string_from_chars(&crate::text::sub_vec(&p, d.len(), p.len())));
    }
    if p.len() > d.len() && crate::text::occurs_at_exec(&p, &d, 0) && p[d.len()] == '/' {
        return Some(crate::text::string_from_chars(&crate::text::sub_vec(&p, d.len() + 1, p.len())));
    }
    None
}

} // verus!
