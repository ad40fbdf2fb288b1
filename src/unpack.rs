use vstd::prelude::*;
use vstd::string::*;

verus! {

/// The components of a path, as the tar entry or link target gives them: `/` stands
/// for a root (or any prefix that makes the path absolute), `..` for the parent,
/// `.` for the current directory, any other text for a name.
pub open spec fn components_view(v: Seq<String>) -> Seq<Seq<char>> {
    v.map_values(|c: String| c@)
}

pub open spec fn is_root(c: Seq<char>) -> bool {
    c == seq!['/']
}

pub open spec fn is_parent(c: Seq<char>) -> bool {
    c == seq!['.', '.']
}

pub open spec fn is_current(c: Seq<char>) -> bool {
    c == seq!['.'] || c.len() == 0
}

/// An entry path is safe when it is relative and never names a parent directory.
pub open spec fn entry_path_safe(p: Seq<Seq<char>>) -> bool {
    forall|i: int| 0 <= i < p.len() ==> !is_root(#[trigger] p[i]) && !is_parent(p[i])
}

/// Where a safe entry lands below the target directory: its path without the
/// archive's top-level directory.
pub open spec fn entry_destination(p: Seq<Seq<char>>) -> Seq<Seq<char>> {
    if p.len() == 0 {
        p
    } else {
        p.subrange(1, p.len() as int)
    }
}

/// The depth below the target directory after following the first `n` components of
/// a link target from `depth`; `None` once the walk has left the directory.
pub open spec fn depth_after(depth: int, t: Seq<Seq<char>>, n: nat) -> Option<int>
    decreases n,
{
    if n == 0 {
        Some(depth)
    } else {
        match depth_after(depth, t, (n - 1) as nat) {
            None => None,
            Some(d) => {
                let c = t[n - 1];
                if is_root(c) {
                    None
                } else if is_parent(c) {
                    if d == 0 {
                        None
                    } else {
                        Some(d - 1)
                    }
                } else if is_current(c) {
                    Some(d)
                } else {
                    Some(d + 1)
                }
            },
        }
    }
}

/// A link at `depth` directories below the target escapes it when its target, read
/// from the link's directory, leaves the target directory at any point.
pub open spec fn link_escapes(depth: int, t: Seq<Seq<char>>) -> bool {
    depth_after(depth, t, t.len()) is None
}

/// The kind of a tar entry, as far as the path policy cares.
#[derive(Debug, Clone, Copy, PartialEq, Eq, Structural)]
pub enum EntryKind {
    File,
    Directory,
    Symlink,
    Other,
}

/// An entry that would write outside the target directory.
#[derive(Debug, Clone)]
pub struct UnsafeArchivePath {
    pub entry: Vec<String>,
}

fn component_is(c: &str, dots: usize) -> (r: bool)
    requires
        dots == 1 || dots == 2,
    ensures
        r == (c@ == Seq::new(dots as nat, |_i: int| '.')),
{
    let n = c.unicode_len();
    if n != dots {
        assert(c@.len() != Seq::new(dots as nat, |_i: int| '.').len());
        return false;
    }
    let a = c.get_char(0);
    if dots == 1 {
        if a == '.' {
            assert(c@ =~= Seq::new(dots as nat, |_i: int| '.'));
        } else {
            assert(c@[0] != Seq::new(dots as nat, |_i: int| '.')[0]);
        }
        a == '.'
    } else {
        let b = c.get_char(1);
        if a == '.' && b == '.' {
            assert(c@ =~= Seq::new(dots as nat, |_i: int| '.'));
        } else if a != '.' {
            assert(c@[0] != Seq::new(dots as nat, |_i: int| '.')[0]);
        } else {
            assert(c@[1] != Seq::new(dots as nat, |_i: int| '.')[1]);
        }
        a == '.' && b == '.'
    }
}

fn is_root_component(c: &str) -> (r: bool)
    ensures
        r == is_root(c@),
{
    let n = c.unicode_len();
    if n != 1 {
        return false;
    }
    let a = c.get_char(0);
    if a == '/' {
        assert(c@ =~= seq!['/']);
    }
    a == '/'
}

fn is_parent_component(c: &str) -> (r: bool)
    ensures
        r == is_parent(c@),
{
    let r = component_is(c, 2);
    assert(Seq::new(2, |_i: int| '.') =~= seq!['.', '.']);
    r
}

fn is_current_component(c: &str) -> (r: bool)
    ensures
        r == is_current(c@),
{
    let r = component_is(c, 1);
    assert(Seq::new(1, |_i: int| '.') =~= seq!['.']);
    r || c.unicode_len() == 0
}

/// Whether a link at `depth` directories below the target directory, pointing to
/// `target`, leads out of it.
pub fn escapes_target(depth: usize, target: &Vec<String>) -> (r: bool)
    requires
        depth + target@.len() <= usize::MAX,
    ensures
        r == link_escapes(depth as int, components_view(target@)),
{
    let ghost t = components_view(target@);
    let mut d: usize = depth;
    let mut i: usize = 0;
    while i < target.len()
        invariant
            i <= target@.len(),
            t == components_view(target@),
            t.len() == target@.len(),
            d <= depth + i,
            depth + target@.len() <= usize::MAX,
            depth_after(depth as int, t, i as nat) == Some(d as int),
        decreases target@.len() - i,
    {
        let c = target[i].as_str();
        assert(t[i as int] == c@);
        if is_root_component(c) {
            assert(depth_after(depth as int, t, (i + 1) as nat) is None);
            proof { lemma_escaped_stays(depth as int, t, (i + 1) as nat, t.len()); }
            return true;
        } else if is_parent_component(c) {
            if d == 0 {
                assert(depth_after(depth as int, t, (i + 1) as nat) is None);
                proof { lemma_escaped_stays(depth as int, t, (i + 1) as nat, t.len()); }
                return true;
            }
            d = d - 1;
        } else if !is_current_component(c) {
            d = d + 1;
        }
        i = i + 1;
    }
    false
}

/// Once a walk has left the target directory it stays out.
pub proof fn lemma_escaped_stays(depth: int, t: Seq<Seq<char>>, n: nat, m: nat)
    requires
        depth_after(depth, t, n) is None,
        n <= m,
    ensures
        depth_after(depth, t, m) is None,
    decreases m - n,
{
    if n < m {
        lemma_escaped_stays(depth, t, n, (m - 1) as nat);
    }
}

/// Where an entry may be written, as components below the target directory: the
/// entry path without its top-level directory. Fails on an absolute path, on a `..`
/// component, and on a symlink whose target leaves the target directory.
pub fn check_entry(kind: EntryKind, path: &Vec<String>, link_target: &Vec<String>) -> (r: Result<
    Vec<String>,
    UnsafeArchivePath,
>)
    requires
        path@.len() + link_target@.len() <= usize::MAX,
    ensures
        r is Ok <==> entry_path_safe(components_view(path@)) && (kind == EntryKind::Symlink
            ==> entry_destination(components_view(path@)).len() > 0 && !link_escapes(
            entry_destination(components_view(path@)).len() - 1,
            components_view(link_target@),
        )),
        r matches Ok(dest) ==> components_view(dest@) == entry_destination(components_view(path@)),
        r matches Err(e) ==> e.entry@ == path@,
{
    let ghost p = components_view(path@);
    let mut i: usize = 0;
    while i < path.len()
        invariant
            i <= path@.len(),
            p == components_view(path@),
            forall|j: int| 0 <= j < i ==> !is_root(#[trigger] p[j]) && !is_parent(p[j]),
        decreases path@.len() - i,
    {
        let c = path[i].as_str();
        if is_root_component(c) || is_parent_component(c) {
            assert(!entry_path_safe(p)) by {
                assert(p[i as int] == c@);
            }
            return Err(UnsafeArchivePath { entry: path.clone() });
        }
        i = i + 1;
    }
    let mut dest: Vec<String> = Vec::new();
    let mut k: usize = 1;
    while k < path.len()
        invariant
            1 <= k,
            p == components_view(path@),
            path@.len() > 0 ==> k <= path@.len(),
            path@.len() == 0 ==> k == 1 && dest@.len() == 0,
            path@.len() > 0 ==> components_view(dest@) =~= p.subrange(1, k as int),
        decreases path@.len() - k,
    {
        dest.push(path[k].clone());
        k = k + 1;
    }
    proof {
        if path@.len() > 0 {
            assert(components_view(dest@) =~= entry_destination(p));
        } else {
            assert(components_view(dest@) =~= entry_destination(p));
        }
    }
    if kind == EntryKind::Symlink {
        let depth: usize = if dest.len() == 0 { 0 } else { dest.len() - 1 };
        if dest.len() == 0 || escapes_target(depth, link_target) {
            return Err(UnsafeArchivePath { entry: path.clone() });
        }
    }
    Ok(dest)
}

/// An entry whose path holds a root component is never accepted.
pub proof fn lemma_absolute_entry_rejected(p: Seq<Seq<char>>, i: int)
    requires
        0 <= i < p.len(),
        is_root(p[i]),
    ensures
        !entry_path_safe(p),
{
}

/// An entry whose path holds a `..` component is never accepted.
pub proof fn lemma_parent_entry_rejected(p: Seq<Seq<char>>, i: int)
    requires
        0 <= i < p.len(),
        is_parent(p[i]),
    ensures
        !entry_path_safe(p),
{
}

/// A link target that climbs above the target directory escapes, whatever follows.
pub proof fn lemma_climbing_link_escapes(depth: int, t: Seq<Seq<char>>, n: nat)
    requires
        n <= t.len(),
        depth_after(depth, t, n) is None,
    ensures
        link_escapes(depth, t),
{
    lemma_escaped_stays(depth, t, n, t.len());
}

/// Permission bits for an extracted file: setuid, setgid and sticky bits cleared,
/// owner read set.
pub fn clamp_mode(mode: u32) -> (r: u32)
    ensures
        r == ((mode & 0o777u32) | 0o400u32),
        r & 0o400u32 == 0o400u32,
        r & 0o7000u32 == 0,
{
    let r = (mode & 0o777u32) | 0o400u32;
    assert(r & 0o400u32 == 0o400u32 && r & 0o7000u32 == 0) by (bit_vector)
        requires
            r == (mode & 0o777u32) | 0o400u32,
    ;
    r
}

} // verus!
