use vstd::prelude::*;

use std::sync::Arc;

use crate::bundle::cache::join_slash;
use crate::policy::compiled::{access_view, strip_fs, CompiledPolicy};
use crate::text::{chars_of, concat_str, contains_char, has_char, in_list, list_contains, path_segments, push_char, split_path, str_eq, string_from_chars, texts};

verus! {

/// Maps filesystem permissions from policy to WASI
#[derive(Debug, Clone)]
pub struct FsPermissionMapper {
    policy: Option<Arc<CompiledPolicy>>,
}

/// WASI permissions of a preopened directory and of the files in it
#[derive(Debug, Clone, Copy, PartialEq, Eq, Structural)]
pub struct WasiPerms {
    /// The directory can be read
    pub dir_read: bool,
    /// The directory can be changed
    pub dir_mutate: bool,
    /// Files can be read
    pub file_read: bool,
    /// Files can be written
    pub file_write: bool,
}

/// Represents a directory to preopen with its permissions
#[derive(Debug, Clone)]
pub struct PreopenDir {
    /// Host path to preopen
    pub host_path: String,
    /// Guest path (how it appears inside WASM)
    pub guest_path: String,
    /// Permissions
    pub perms: WasiPerms,
}

/// The WASI permissions that policy access modes give: any of `read`, `write` and
/// `execute` allows reading; `write` also allows changes. Other modes give nothing.
pub open spec fn wasi_perms(access: Seq<String>) -> WasiPerms {
    let read = in_list(access, "read"@) || in_list(access, "write"@) || in_list(access, "execute"@);
    let write = in_list(access, "write"@);
    WasiPerms { dir_read: read, dir_mutate: write, file_read: read, file_write: write }
}

/// The pieces without `.`.
pub open spec fn drop_dots(s: Seq<Seq<char>>) -> Seq<Seq<char>>
    decreases s.len(),
{
    if s.len() == 0 {
        seq![]
    } else {
        (if s[0] == "."@ {
            seq![]
        } else {
            seq![s[0]]
        }) + drop_dots(s.drop_first())
    }
}

/// The path components of a pattern: its pieces between slashes without `.`, except a
/// leading `.` of a relative path.
pub open spec fn components(p: Seq<char>) -> Seq<Seq<char>> {
    let pieces = path_segments(p);
    if !(p.len() > 0 && p[0] == '/') && pieces.len() > 0 && pieces[0] == "."@ {
        seq![pieces[0]] + drop_dots(pieces.drop_first())
    } else {
        drop_dots(pieces)
    }
}

/// The leading components without a glob character (`*` or `?`).
pub open spec fn literal_prefix(cs: Seq<Seq<char>>) -> Seq<Seq<char>>
    decreases cs.len(),
{
    if cs.len() == 0 || has_char(cs[0], '*') || has_char(cs[0], '?') {
        seq![]
    } else {
        seq![cs[0]] + literal_prefix(cs.drop_first())
    }
}

/// The directory to open for a storage pattern: the pattern (without `fs://`) up to its
/// first component with a glob character, `/tmp` when that leaves nothing.
pub open spec fn dir_of_pattern(pattern: Seq<char>) -> Seq<char> {
    let p = strip_fs(pattern);
    let root = p.len() > 0 && p[0] == '/';
    let path = (if root {
        seq!['/']
    } else {
        seq![]
    }) + join_slash(literal_prefix(components(p)));
    if path.len() == 0 {
        "/tmp"@
    } else {
        path
    }
}

fn has_glob_char(s: &str) -> (r: bool)
    ensures
        r == (has_char(s@, '*') || has_char(s@, '?')),
{
    let v = chars_of(s);
    contains_char(&v, '*') || contains_char(&v, '?')
}

/// The directories to preopen for an access map, in order: the base directory of each
/// pattern, with that pattern's permissions, unless an earlier pattern gave the same
/// directory.
pub open spec fn preopen_plan(map: Seq<(String, Vec<String>)>) -> Seq<(Seq<char>, WasiPerms)>
    decreases map.len(),
{
    if map.len() == 0 {
        seq![]
    } else {
        let prev = preopen_plan(map.drop_last());
        let d = dir_of_pattern(map.last().0@);
        if exists|j: int| 0 <= j < prev.len() && (#[trigger] prev[j]).0 == d {
            prev
        } else {
            prev.push((d, wasi_perms(map.last().1@)))
        }
    }
}

/// Preopened directories by their host paths and permissions.
pub open spec fn preopen_view(r: Seq<PreopenDir>) -> Seq<(Seq<char>, WasiPerms)> {
    r.map_values(|p: PreopenDir| (p.host_path@, p.perms))
}

impl FsPermissionMapper {
    /// The policy, if any.
    pub closed spec fn policy_of(self) -> Option<CompiledPolicy> {
        match self.policy {
            Some(p) => Some(*p),
            None => None,
        }
    }

    /// Create a new permission mapper with optional policy
    pub fn new(policy: Option<Arc<CompiledPolicy>>) -> (r: FsPermissionMapper)
        ensures
            r.policy_of() == match policy {
                Some(p) => Some(*p),
                None => None::<CompiledPolicy>,
            },
    {
        FsPermissionMapper { policy }
    }

    /// Map policy access strings to WASI permissions
    pub fn map_to_wasi(access: &Vec<String>) -> (r: WasiPerms)
        ensures
            r == wasi_perms(access@),
    {
        let read = list_contains(access, "read") || list_contains(access, "write") || list_contains(
            access,
            "execute",
        );
        let write = list_contains(access, "write");
        WasiPerms { dir_read: read, dir_mutate: write, file_read: read, file_write: write }
    }

    /// Convert a glob pattern to the base directory that needs to be opened
    pub fn pattern_to_dir_path(pattern: &str) -> (r: String)
        ensures
            r@ == dir_of_pattern(pattern@),
    {
        let p = crate::policy::compiled::strip_fs_scheme(pattern);
        let pv = chars_of(p.as_str());
        let root = pv.len() > 0 && pv[0] == '/';
        let pieces = split_path(p.as_str());
        let ghost ps = texts(pieces@);
        // the components
        let mut comps: Vec<String> = Vec::new();
        let mut i: usize = 0;
        if !root && pieces.len() > 0 && str_eq(pieces[0].as_str(), ".") {
            comps.push(pieces[0].clone());
            i = 1;
        }
        proof {
            if i == 1 {
                assert(ps.skip(1) =~= ps.drop_first());
                assert(texts(comps@) =~= seq![ps[0]]);
            } else {
                assert(ps.skip(0) =~= ps);
                assert(texts(comps@) =~= Seq::<Seq<char>>::empty());
            }
        }
        while i < pieces.len()
            invariant
                i <= pieces.len(),
                ps == texts(pieces@),
                ps == path_segments(p@),
                root == (p@.len() > 0 && p@[0] == '/'),
                components(p@) == texts(comps@) + drop_dots(ps.skip(i as int)),
            decreases pieces.len() - i,
        {
            let ghost before = texts(comps@);
            assert(ps.skip(i as int)[0] == ps[i as int]);
            assert(ps.skip(i as int).drop_first() =~= ps.skip(i + 1));
            if !str_eq(pieces[i].as_str(), ".") {
                comps.push(pieces[i].clone());
                assert(texts(comps@) =~= before + seq![ps[i as int]]);
                assert(before + (seq![ps[i as int]] + drop_dots(ps.skip(i + 1))) =~= texts(comps@) + drop_dots(ps.skip(i + 1)));
            } else {
                assert(texts(comps@) =~= before);
                assert(Seq::<Seq<char>>::empty() + drop_dots(ps.skip(i + 1)) =~= drop_dots(ps.skip(i + 1)));
            }
            i = i + 1;
        }
        assert(ps.skip(i as int).len() == 0);
        assert(texts(comps@) + drop_dots(ps.skip(i as int)) =~= texts(comps@));
        // the literal prefix
        let ghost cs = texts(comps@);
        let mut n: usize = 0;
        assert(cs.skip(0) =~= cs);
        assert(cs.subrange(0, 0) =~= Seq::<Seq<char>>::empty());
        while n < comps.len() && !has_glob_char(comps[n].as_str())
            invariant
                n <= comps.len(),
                cs == texts(comps@),
                literal_prefix(cs) == cs.subrange(0, n as int) + literal_prefix(cs.skip(n as int)),
            decreases comps.len() - n,
        {
            assert(cs.skip(n as int)[0] == cs[n as int]);
            assert(cs.skip(n as int).drop_first() =~= cs.skip(n + 1));
            assert(cs.subrange(0, n as int) + (seq![cs[n as int]] + literal_prefix(cs.skip(n + 1))) =~= cs.subrange(0, n + 1) + literal_prefix(cs.skip(n + 1)));
            n = n + 1;
        }
        proof {
            if n < comps.len() {
                assert(cs.skip(n as int)[0] == cs[n as int]);
                assert(literal_prefix(cs.skip(n as int)) =~= Seq::<Seq<char>>::empty());
            } else {
                assert(cs.skip(n as int).len() == 0);
            }
            assert(literal_prefix(cs) =~= cs.subrange(0, n as int));
        }
        let joined = crate::bundle::cache::join_pieces(&comps, 0, n);
        let mut out = String::new();
        if root {
            push_char(&mut out, '/');
        }
        let out = concat_str(out.as_str(), joined.as_str());
        if out.as_str().is_empty() {
            return "/tmp".to_string();
        }
        out
    }

    /// Check if a specific operation is allowed for a path: never without a policy.
    pub fn is_operation_allowed(&self, path: &str, operation: &str) -> (r: bool)
        ensures
            r == match self.policy_of() {
                Some(p) => p.spec_storage_allowed(path@, operation@),
                None => false,
            },
    {
        match &self.policy {
            Some(p) => p.is_storage_allowed(path, operation),
            None => false,
        }
    }

    /// Extract directories to preopen from policy: one per distinct base directory of the
    /// access map's patterns, with the permissions of the first pattern that gives it.
    pub fn get_preopen_dirs(&self) -> (r: Vec<PreopenDir>)
        ensures
            forall|k: int| 0 <= k < r@.len() ==> (#[trigger] r@[k]).host_path == r@[k].guest_path,
            match self.policy_of() {
                Some(p) => preopen_view(r@) == preopen_plan(p.storage_access_map@),
                None => r@.len() == 0,
            },
    {
        let policy = match &self.policy {
            Some(p) => p,
            None => {
                return Vec::new();
            },
        };
        let map = &policy.storage_access_map;
        let mut out: Vec<PreopenDir> = Vec::new();
        let mut seen: Vec<String> = Vec::new();
        let mut i: usize = 0;
        assert(map@.subrange(0, 0) =~= Seq::<(String, Vec<String>)>::empty());
        assert(preopen_view(out@) =~= Seq::<(Seq<char>, WasiPerms)>::empty());
        while i < map.len()
            invariant
                i <= map.len(),
                *map == policy.storage_access_map,
                self.policy_of() == Some(**policy),
                preopen_view(out@) == preopen_plan(map@.subrange(0, i as int)),
                forall|k: int| 0 <= k < out@.len() ==> (#[trigger] out@[k]).host_path == out@[k].guest_path,
                forall|x: Seq<char>| #[trigger] in_list(seen@, x) <==> exists|j: int|
                    0 <= j < preopen_view(out@).len() && (#[trigger] preopen_view(out@)[j]).0 == x,
            decreases map.len() - i,
        {
            let ghost prev = preopen_view(out@);
            let ghost sub = map@.subrange(0, i + 1);
            assert(sub.drop_last() =~= map@.subrange(0, i as int));
            assert(sub.last() == map@[i as int]);
            let dir = Self::pattern_to_dir_path(map[i].0.as_str());
            if list_contains(&seen, dir.as_str()) {
                i = i + 1;
                continue;
            }
            let perms = Self::map_to_wasi(&map[i].1);
            let ghost dv = dir@;
            let ghost old_seen = seen@;
            seen.push(dir.clone());
            out.push(PreopenDir { host_path: dir.clone(), guest_path: dir, perms });
            proof {
                assert(preopen_view(out@) =~= prev.push((dv, perms)));
                assert forall|x: Seq<char>| #[trigger] in_list(seen@, x) <==> exists|j: int|
                    0 <= j < preopen_view(out@).len() && (#[trigger] preopen_view(out@)[j]).0 == x by {
                    let n = prev.len() as int;
                    if in_list(seen@, x) {
                        let k = choose|k: int| 0 <= k < seen@.len() && (#[trigger] seen@[k])@ == x;
                        if k == seen@.len() - 1 {
                            assert(preopen_view(out@)[n].0 == x);
                        } else {
                            assert(seen@[k] == old_seen[k]);
                            assert(in_list(old_seen, x));
                            let j = choose|j: int| 0 <= j < prev.len() && (#[trigger] prev[j]).0 == x;
                            assert(preopen_view(out@)[j] == prev[j]);
                        }
                    }
                    if exists|j: int| 0 <= j < preopen_view(out@).len() && (#[trigger] preopen_view(out@)[j]).0 == x {
                        let j = choose|j: int| 0 <= j < preopen_view(out@).len() && (#[trigger] preopen_view(out@)[j]).0 == x;
                        if j == n {
                            assert(seen@[seen@.len() - 1]@ == x);
                        } else {
                            assert(preopen_view(out@)[j] == prev[j]);
                            assert(in_list(old_seen, x));
                            let k = choose|k: int| 0 <= k < old_seen.len() && (#[trigger] old_seen[k])@ == x;
                            assert(seen@[k] == old_seen[k]);
                        }
                    }
                }
            }
            i = i + 1;
        }
        assert(map@.subrange(0, i as int) =~= map@);
        out
    }
}

} // verus!
