//! Resolution of request paths to filesystem paths under the served root.
//!
//! A request path is split on `/`, its empty segments and its `..`
//! segments are discarded, and the remaining segments are rejoined under
//! the root directory. The result therefore never names anything outside
//! the root, which `lemma_resolved_path_stays_under_root` states for
//! every root and every request path.

use crate::util::copy_bytes;
use vstd::prelude::*;

verus! {

/// One resolution outcome: a concrete file path to serve, the fallback
/// for a root request with no index file, or nothing to serve.
pub enum ResolvedTarget {
    File(Vec<u8>),
    DirectoryListing,
    NotFound,
}

/// The views of a sequence of byte vectors.
pub open spec fn views_of(ps: Seq<Vec<u8>>) -> Seq<Seq<u8>> {
    ps.map_values(|p: Vec<u8>| p@)
}

/// The segments of `s` between occurrences of `/`, in order. An empty
/// input has one empty segment, and every separator starts a new
/// segment, exactly as `str::split('/')` yields them.
pub open spec fn split_slash(s: Seq<u8>) -> Seq<Seq<u8>>
    decreases s.len(),
{
    if s.len() == 0 {
        seq![s]
    } else if s[0] == '/' as u8 {
        seq![Seq::<u8>::empty()] + split_slash(s.skip(1))
    } else {
        let rest = split_slash(s.skip(1));
        seq![seq![s[0]] + rest[0]] + rest.skip(1)
    }
}

pub proof fn lemma_split_slash_len(s: Seq<u8>)
    ensures
        split_slash(s).len() >= 1,
    decreases s.len(),
{
    if s.len() > 0 {
        lemma_split_slash_len(s.skip(1));
    }
}

/// No segment produced by the split contains the separator itself.
pub proof fn lemma_split_slash_no_slash(s: Seq<u8>)
    ensures
        forall|i: int|
            0 <= i < split_slash(s).len() ==> !(#[trigger] split_slash(s)[i]).contains('/' as u8),
    decreases s.len(),
{
    if s.len() == 0 {
    } else if s[0] == '/' as u8 {
        lemma_split_slash_no_slash(s.skip(1));
        assert forall|i: int|
            0 <= i < split_slash(s).len() implies !(#[trigger] split_slash(s)[i]).contains(
            '/' as u8,
        ) by {
            if i > 0 {
                assert(split_slash(s)[i] == split_slash(s.skip(1))[i - 1]);
            }
        }
    } else {
        lemma_split_slash_no_slash(s.skip(1));
        lemma_split_slash_len(s.skip(1));
        let rest = split_slash(s.skip(1));
        assert forall|i: int|
            0 <= i < split_slash(s).len() implies !(#[trigger] split_slash(s)[i]).contains(
            '/' as u8,
        ) by {
            if i == 0 {
                let first = seq![s[0]] + rest[0];
                assert(split_slash(s)[0] == first);
                assert(!rest[0].contains('/' as u8));
                assert forall|j: int| 0 <= j < first.len() implies first[j] != '/' as u8 by {
                    if j > 0 {
                        assert(first[j] == rest[0][j - 1]);
                        assert(!(exists|k: int|
                            0 <= k < rest[0].len() && rest[0][k] == '/' as u8));
                    }
                }
            } else {
                assert(split_slash(s)[i] == rest[i]);
            }
        }
    }
}

/// A segment survives sanitization when it is non-empty and is not the
/// parent-directory reference `..`.
pub open spec fn keep_seg(s: Seq<u8>) -> bool {
    s.len() > 0 && s != seq!['.' as u8, '.' as u8]
}

/// The subsequence of segments that survive sanitization, in order.
pub open spec fn kept_segs(ss: Seq<Seq<u8>>) -> Seq<Seq<u8>>
    decreases ss.len(),
{
    if ss.len() == 0 {
        Seq::<Seq<u8>>::empty()
    } else {
        let front = kept_segs(ss.drop_last());
        if keep_seg(ss.last()) {
            front.push(ss.last())
        } else {
            front
        }
    }
}

/// Every kept segment satisfies `keep_seg` and occurs among the
/// segments it was drawn from.
pub proof fn lemma_kept_segs(ss: Seq<Seq<u8>>)
    ensures
        forall|i: int|
            0 <= i < kept_segs(ss).len() ==> keep_seg(#[trigger] kept_segs(ss)[i]) && ss.contains(
                kept_segs(ss)[i],
            ),
    decreases ss.len(),
{
    if ss.len() > 0 {
        lemma_kept_segs(ss.drop_last());
        let front = kept_segs(ss.drop_last());
        assert forall|i: int|
            0 <= i < kept_segs(ss).len() implies keep_seg(#[trigger] kept_segs(ss)[i])
            && ss.contains(kept_segs(ss)[i]) by {
            if i < front.len() {
                assert(kept_segs(ss)[i] == front[i]);
                let k = choose|k: int|
                    0 <= k < ss.drop_last().len() && ss.drop_last()[k] == front[i];
                assert(ss[k] == front[i]);
            } else {
                assert(kept_segs(ss)[i] == ss.last());
                assert(ss[ss.len() - 1] == ss.last());
            }
        }
    }
}

/// Joins segments with `/` between them. On segments that are all
/// non-empty this introduces no leading, trailing, or doubled separator.
pub open spec fn join_slash(ss: Seq<Seq<u8>>) -> Seq<u8>
    decreases ss.len(),
{
    if ss.len() == 0 {
        Seq::<u8>::empty()
    } else {
        let front = join_slash(ss.drop_last());
        if front.len() == 0 {
            ss.last()
        } else {
            front + seq!['/' as u8] + ss.last()
        }
    }
}

/// The sanitized form of a request path: its non-empty, non-`..`
/// segments, rejoined with `/`.
pub open spec fn sanitize_spec(p: Seq<u8>) -> Seq<u8> {
    join_slash(kept_segs(split_slash(p)))
}

/// `rel` placed under the directory `root`; `root` itself when `rel`
/// is empty.
pub open spec fn joined_under(root: Seq<u8>, rel: Seq<u8>) -> Seq<u8> {
    if rel.len() == 0 {
        root
    } else {
        root + seq!['/' as u8] + rel
    }
}

/// The file path a request path resolves to under `root`.
pub open spec fn resolved_of(root: Seq<u8>, p: Seq<u8>) -> Seq<u8> {
    joined_under(root, sanitize_spec(p))
}

/// `seq![c + ss[0]] + ss.skip(1)`: the split of a string whose first
/// segment is still being accumulated by the splitting loop.
spec fn prepend_first(c: Seq<u8>, ss: Seq<Seq<u8>>) -> Seq<Seq<u8>> {
    seq![c + ss[0]] + ss.skip(1)
}

/// Splits `s` into its `/`-separated segments.
fn split_path_segments(s: &Vec<u8>) -> (parts: Vec<Vec<u8>>)
    ensures
        views_of(parts@) == split_slash(s@),
{
    let mut parts: Vec<Vec<u8>> = Vec::new();
    let mut cur: Vec<u8> = Vec::new();
    let mut i: usize = 0;
    proof {
        lemma_split_slash_len(s@);
        assert(s@.skip(0) =~= s@);
        assert(split_slash(s@) =~~= views_of(parts@) + prepend_first(cur@, split_slash(s@.skip(0))));
    }
    while i < s.len()
        invariant
            i <= s@.len(),
            split_slash(s@) == views_of(parts@) + prepend_first(
                cur@,
                split_slash(s@.skip(i as int)),
            ),
        decreases s@.len() - i,
    {
        let ghost parts0 = parts@;
        let ghost cur0 = cur@;
        proof {
            lemma_split_slash_len(s@.skip(i as int));
            lemma_split_slash_len(s@.skip(i as int + 1));
            assert(s@.skip(i as int).skip(1) =~= s@.skip(i as int + 1));
            assert(s@.skip(i as int)[0] == s@[i as int]);
        }
        if s[i] == '/' as u8 {
            parts.push(cur);
            cur = Vec::new();
            proof {
                let tail = split_slash(s@.skip(i as int + 1));
                assert(split_slash(s@.skip(i as int)) == seq![Seq::<u8>::empty()] + tail);
                assert(prepend_first(cur0, split_slash(s@.skip(i as int))) =~~= seq![cur0] + tail);
                assert(prepend_first(cur@, tail) =~~= tail);
                assert(views_of(parts@) =~~= views_of(parts0) + seq![cur0]);
                assert(split_slash(s@) =~~= views_of(parts@) + prepend_first(cur@, tail));
            }
        } else {
            cur.push(s[i]);
            proof {
                let rest = split_slash(s@.skip(i as int + 1));
                assert(split_slash(s@.skip(i as int)) == seq![seq![s@[i as int]] + rest[0]]
                    + rest.skip(1));
                assert(cur0 + (seq![s@[i as int]] + rest[0]) =~= cur@ + rest[0]);
                assert(prepend_first(cur0, split_slash(s@.skip(i as int))) =~~= prepend_first(
                    cur@,
                    rest,
                ));
                assert(split_slash(s@) =~~= views_of(parts@) + prepend_first(cur@, rest));
            }
        }
        i += 1;
    }
    let ghost parts0 = parts@;
    let ghost cur0 = cur@;
    parts.push(cur);
    proof {
        assert(s@.skip(i as int) =~= Seq::<u8>::empty());
        let tail = split_slash(s@.skip(i as int));
        assert(tail =~~= seq![Seq::<u8>::empty()]);
        assert(prepend_first(cur0, tail) =~~= seq![cur0]);
        assert(views_of(parts@) =~~= views_of(parts0) + seq![cur0]);
        assert(views_of(parts@) =~~= split_slash(s@));
    }
    parts
}

/// Discards empty and `..` segments from a request path and rejoins the
/// rest with `/`, so that the result cannot climb above whatever
/// directory it is later placed under.
pub fn sanitize_path(path: &Vec<u8>) -> (r: Vec<u8>)
    ensures
        r@ == sanitize_spec(path@),
{
    let parts = split_path_segments(path);
    let ghost segs = split_slash(path@);
    let mut out: Vec<u8> = Vec::new();
    let mut j: usize = 0;
    proof {
        assert(segs.take(0) =~~= Seq::<Seq<u8>>::empty());
    }
    while j < parts.len()
        invariant
            j <= parts@.len(),
            views_of(parts@) == segs,
            out@ == join_slash(kept_segs(segs.take(j as int))),
        decreases parts@.len() - j,
    {
        let ghost out0 = out@;
        let ghost kept0 = kept_segs(segs.take(j as int));
        proof {
            assert(segs.take(j as int + 1).drop_last() =~~= segs.take(j as int));
            assert(segs.take(j as int + 1).last() == segs[j as int]);
            assert(parts@[j as int]@ == segs[j as int]);
        }
        let p = &parts[j];
        let is_dot_dot = p.len() == 2 && p[0] == '.' as u8 && p[1] == '.' as u8;
        proof {
            if is_dot_dot {
                assert(p@ =~= seq!['.' as u8, '.' as u8]);
            }
        }
        if p.len() > 0 && !is_dot_dot {
            proof {
                assert(keep_seg(segs[j as int]));
                assert(kept_segs(segs.take(j as int + 1)) == kept0.push(segs[j as int]));
                assert(kept0.push(segs[j as int]).drop_last() =~~= kept0);
                assert(kept0.push(segs[j as int]).last() == segs[j as int]);
            }
            if out.len() > 0 {
                out.push('/' as u8);
            }
            out.extend_from_slice(p.as_slice());
            proof {
                if out0.len() == 0 {
                    assert(out@ =~= segs[j as int]);
                } else {
                    assert(out@ =~= out0 + seq!['/' as u8] + segs[j as int]);
                }
                assert(out@ == join_slash(kept_segs(segs.take(j as int + 1))));
            }
        } else {
            proof {
                assert(!keep_seg(segs[j as int]));
                assert(kept_segs(segs.take(j as int + 1)) == kept0);
            }
        }
        j += 1;
    }
    proof {
        assert(segs.take(j as int) =~~= segs);
    }
    out
}

/// The request path that names the root itself.
pub open spec fn root_request() -> Seq<u8> {
    seq!['/' as u8]
}

/// The file name tried first for a root request.
pub open spec fn index_html() -> Seq<u8> {
    seq![
        'i' as u8,
        'n' as u8,
        'd' as u8,
        'e' as u8,
        'x' as u8,
        '.' as u8,
        'h' as u8,
        't' as u8,
        'm' as u8,
        'l' as u8,
    ]
}

/// The file name tried second for a root request.
pub open spec fn index_htm() -> Seq<u8> {
    seq!['i' as u8, 'n' as u8, 'd' as u8, 'e' as u8, 'x' as u8, '.' as u8, 'h' as u8, 't' as u8, 'm' as u8]
}

/// Joins the sanitized form of `request_path` onto `root_dir`.
pub fn build_file_path(root_dir: &Vec<u8>, request_path: &Vec<u8>) -> (r: Vec<u8>)
    ensures
        r@ == resolved_of(root_dir@, request_path@),
{
    let rel = sanitize_path(request_path);
    let mut out: Vec<u8> = Vec::new();
    out.extend_from_slice(root_dir.as_slice());
    if rel.len() > 0 {
        out.push('/' as u8);
        out.extend_from_slice(rel.as_slice());
        proof {
            assert(out@ =~= root_dir@ + seq!['/' as u8] + rel@);
        }
    } else {
        proof {
            assert(out@ =~= root_dir@);
        }
    }
    out
}

/// The file paths to try for a request, in order: both index files for
/// a root request, and the single resolved path for any other request.
pub fn candidate_paths(root_dir: &Vec<u8>, request_path: &Vec<u8>) -> (cs: Vec<Vec<u8>>)
    ensures
        request_path@ == root_request() ==> cs@.len() == 2 && cs@[0]@ == joined_under(
            root_dir@,
            index_html(),
        ) && cs@[1]@ == joined_under(root_dir@, index_htm()),
        request_path@ != root_request() ==> cs@.len() == 1 && cs@[0]@ == resolved_of(
            root_dir@,
            request_path@,
        ),
{
    let mut cs: Vec<Vec<u8>> = Vec::new();
    let is_root = request_path.len() == 1 && request_path[0] == '/' as u8;
    proof {
        if is_root {
            assert(request_path@ =~= root_request());
        } else {
            assert(request_path@ != root_request());
        }
    }
    if is_root {
        let mut a: Vec<u8> = Vec::new();
        a.extend_from_slice(root_dir.as_slice());
        a.push('/' as u8);
        let html: Vec<u8> = vec![
            'i' as u8,
            'n' as u8,
            'd' as u8,
            'e' as u8,
            'x' as u8,
            '.' as u8,
            'h' as u8,
            't' as u8,
            'm' as u8,
            'l' as u8,
        ];
        a.extend_from_slice(html.as_slice());
        proof {
            assert(html@ =~= index_html());
            assert(a@ =~= root_dir@ + seq!['/' as u8] + index_html());
        }
        cs.push(a);
        let mut b: Vec<u8> = Vec::new();
        b.extend_from_slice(root_dir.as_slice());
        b.push('/' as u8);
        let htm: Vec<u8> = vec![
            'i' as u8,
            'n' as u8,
            'd' as u8,
            'e' as u8,
            'x' as u8,
            '.' as u8,
            'h' as u8,
            't' as u8,
            'm' as u8,
        ];
        b.extend_from_slice(htm.as_slice());
        proof {
            assert(htm@ =~= index_htm());
            assert(b@ =~= root_dir@ + seq!['/' as u8] + index_htm());
        }
        cs.push(b);
    } else {
        cs.push(build_file_path(root_dir, request_path));
    }
    cs
}

/// The position of the first `true` in `found`, if any.
pub open spec fn first_hit(found: Seq<bool>) -> Option<int>
    decreases found.len(),
{
    if found.len() == 0 {
        None
    } else if found[0] {
        Some(0)
    } else {
        match first_hit(found.skip(1)) {
            Some(i) => Some(i + 1),
            None => None,
        }
    }
}

proof fn lemma_first_hit_shift(found: Seq<bool>, i: int)
    requires
        0 <= i <= found.len(),
        forall|j: int| 0 <= j < i ==> !found[j],
    ensures
        first_hit(found) == match first_hit(found.skip(i)) {
            Some(k) => Some(k + i),
            None => None::<int>,
        },
    decreases i,
{
    if i > 0 {
        lemma_first_hit_shift(found.skip(1), i - 1);
        assert(found.skip(1).skip(i - 1) =~= found.skip(i));
        assert(forall|j: int| 0 <= j < i - 1 ==> !found.skip(1)[j]);
    } else {
        assert(found.skip(0) =~= found);
    }
}

/// Picks the resolution outcome once the caller has reported, for each
/// candidate path in order, whether the filesystem can serve it: the
/// first servable candidate wins; with none, a root request falls back
/// to the directory listing and any other request is not found.
pub fn select_target(request_path: &Vec<u8>, candidates: &Vec<Vec<u8>>, found: &Vec<bool>) -> (t:
    ResolvedTarget)
    requires
        candidates@.len() == found@.len(),
    ensures
        match first_hit(found@) {
            Some(k) => t matches ResolvedTarget::File(p) && p@ == candidates@[k]@,
            None => if request_path@ == root_request() {
                t is DirectoryListing
            } else {
                t is NotFound
            },
        },
{
    let mut i: usize = 0;
    while i < found.len()
        invariant
            i <= found@.len(),
            candidates@.len() == found@.len(),
            forall|j: int| 0 <= j < i ==> !found@[j],
        decreases found@.len() - i,
    {
        if found[i] {
            proof {
                lemma_first_hit_shift(found@, i as int);
                assert(found@.skip(i as int)[0] == found@[i as int]);
                assert(first_hit(found@) == Some(i as int));
            }
            return ResolvedTarget::File(copy_bytes(&candidates[i]));
        }
        i += 1;
    }
    proof {
        lemma_first_hit_shift(found@, i as int);
        assert(found@.skip(i as int) =~= Seq::<bool>::empty());
        assert(first_hit(found@) is None);
    }
    let is_root = request_path.len() == 1 && request_path[0] == '/' as u8;
    proof {
        if is_root {
            assert(request_path@ =~= root_request());
        } else {
            assert(request_path@ != root_request());
        }
    }
    if is_root {
        ResolvedTarget::DirectoryListing
    } else {
        ResolvedTarget::NotFound
    }
}

/// The resolver never escapes the root: for every root directory and
/// every request path — in particular any path with `..` segments —
/// the resolved file path has the root as a prefix, and what follows
/// the root is the `/`-joining of segments that are each non-empty,
/// free of `/`, and different from `..`.
pub proof fn lemma_resolved_path_stays_under_root(root: Seq<u8>, path: Seq<u8>)
    ensures
        is_prefix_of(root, resolved_of(root, path)),
        resolved_of(root, path) == joined_under(root, join_slash(kept_segs(split_slash(path)))),
        forall|i: int|
            0 <= i < kept_segs(split_slash(path)).len() ==> keep_seg(
                #[trigger] kept_segs(split_slash(path))[i],
            ) && !kept_segs(split_slash(path))[i].contains('/' as u8),
{
    let ss = split_slash(path);
    lemma_kept_segs(ss);
    lemma_split_slash_no_slash(path);
    let rel = sanitize_spec(path);
    if rel.len() == 0 {
        assert(root.take(root.len() as int) =~= root);
    } else {
        assert((root + seq!['/' as u8] + rel).take(root.len() as int) =~= root);
    }
    assert forall|i: int|
        0 <= i < kept_segs(ss).len() implies keep_seg(#[trigger] kept_segs(ss)[i]) && !kept_segs(
        ss,
    )[i].contains('/' as u8) by {
        let seg = kept_segs(ss)[i];
        assert(ss.contains(seg));
        let k = choose|k: int| 0 <= k < ss.len() && ss[k] == seg;
        assert(!ss[k].contains('/' as u8));
    }
}

/// A sequence is a prefix of another.
pub open spec fn is_prefix_of(pre: Seq<u8>, s: Seq<u8>) -> bool {
    pre.len() <= s.len() && s.take(pre.len() as int) == pre
}

/// Splitting distributes over joining two strings with a `/` between.
proof fn lemma_split_slash_append(a: Seq<u8>, b: Seq<u8>)
    ensures
        split_slash(a + seq!['/' as u8] + b) == split_slash(a) + split_slash(b),
    decreases a.len(),
{
    if a.len() == 0 {
        let s = a + seq!['/' as u8] + b;
        assert(s =~= seq!['/' as u8] + b);
        assert(s[0] == '/' as u8);
        assert(s.skip(1) =~= b);
        assert(split_slash(s) == seq![Seq::<u8>::empty()] + split_slash(b));
        assert(a =~= Seq::<u8>::empty());
        assert(split_slash(s) =~~= split_slash(a) + split_slash(b));
    } else {
        let s = a + seq!['/' as u8] + b;
        assert(s[0] == a[0]);
        assert(s.skip(1) =~= a.skip(1) + seq!['/' as u8] + b);
        lemma_split_slash_append(a.skip(1), b);
        lemma_split_slash_len(a.skip(1));
        let rest_a = split_slash(a.skip(1));
        let rest = split_slash(a.skip(1) + seq!['/' as u8] + b);
        if a[0] == '/' as u8 {
            assert(split_slash(s) == seq![Seq::<u8>::empty()] + rest);
            assert(split_slash(a) == seq![Seq::<u8>::empty()] + rest_a);
            assert(split_slash(s) =~~= split_slash(a) + split_slash(b));
        } else {
            assert(split_slash(s) == seq![seq![s[0]] + rest[0]] + rest.skip(1));
            assert(split_slash(a) == seq![seq![a[0]] + rest_a[0]] + rest_a.skip(1));
            assert(rest[0] == rest_a[0]);
            assert(rest.skip(1) =~~= rest_a.skip(1) + split_slash(b));
            assert(split_slash(s) =~~= split_slash(a) + split_slash(b));
        }
    }
}

/// A non-empty string without `/` splits to itself alone.
proof fn lemma_split_slash_single(x: Seq<u8>)
    requires
        x.len() > 0,
        !x.contains('/' as u8),
    ensures
        split_slash(x) == seq![x],
    decreases x.len(),
{
    assert(x[0] != '/' as u8) by {
        if x[0] == '/' as u8 {
            assert(x.contains('/' as u8));
        }
    }
    let rest = split_slash(x.skip(1));
    if x.len() == 1 {
        assert(x.skip(1) =~= Seq::<u8>::empty());
        assert(rest == seq![x.skip(1)]);
        assert(seq![x[0]] + rest[0] =~= x);
        assert(split_slash(x) =~~= seq![x]);
    } else {
        assert(!x.skip(1).contains('/' as u8)) by {
            if x.skip(1).contains('/' as u8) {
                let k = choose|k: int| 0 <= k < x.skip(1).len() && x.skip(1)[k] == '/' as u8;
                assert(x[k + 1] == '/' as u8);
                assert(x.contains('/' as u8));
            }
        }
        lemma_split_slash_single(x.skip(1));
        assert(seq![x[0]] + rest[0] =~= x);
        assert(split_slash(x) =~~= seq![x]);
    }
}

/// Joining non-empty segments never yields the empty string.
proof fn lemma_join_slash_nonempty(ss: Seq<Seq<u8>>)
    requires
        ss.len() > 0,
        forall|i: int| 0 <= i < ss.len() ==> (#[trigger] ss[i]).len() > 0,
    ensures
        join_slash(ss).len() > 0,
{
    assert(ss[ss.len() - 1].len() > 0);
}

/// Non-empty, `/`-free segments survive a join and a new split intact.
proof fn lemma_join_slash_splits_back(ss: Seq<Seq<u8>>)
    requires
        ss.len() > 0,
        forall|i: int|
            0 <= i < ss.len() ==> (#[trigger] ss[i]).len() > 0 && !ss[i].contains('/' as u8),
    ensures
        split_slash(join_slash(ss)) == ss,
    decreases ss.len(),
{
    if ss.len() == 1 {
        assert(join_slash(ss) == ss.last());
        lemma_split_slash_single(ss[0]);
        assert(seq![ss[0]] =~~= ss);
    } else {
        let front_list = ss.drop_last();
        assert(forall|i: int|
            0 <= i < front_list.len() ==> (#[trigger] front_list[i]).len() > 0
                && !front_list[i].contains('/' as u8));
        lemma_join_slash_splits_back(front_list);
        lemma_join_slash_nonempty(front_list);
        assert(join_slash(ss) == join_slash(front_list) + seq!['/' as u8] + ss.last());
        lemma_split_slash_append(join_slash(front_list), ss.last());
        lemma_split_slash_single(ss.last());
        assert(split_slash(join_slash(ss)) =~~= front_list + seq![ss.last()]);
        assert(front_list + seq![ss.last()] =~~= ss);
    }
}

/// The sanitized path, split on `/` again — as a filesystem reads it —
/// consists of exactly the kept segments, so no join can manufacture a
/// new `..` or empty segment; with nothing kept, the sanitized path is
/// empty and the request resolves to the root itself.
pub proof fn lemma_sanitized_path_splits_back(p: Seq<u8>)
    ensures
        kept_segs(split_slash(p)).len() > 0 ==> split_slash(sanitize_spec(p)) == kept_segs(
            split_slash(p),
        ),
        kept_segs(split_slash(p)).len() == 0 ==> sanitize_spec(p).len() == 0,
{
    let ss = split_slash(p);
    let kept = kept_segs(ss);
    lemma_kept_segs(ss);
    lemma_split_slash_no_slash(p);
    if kept.len() > 0 {
        assert forall|i: int|
            0 <= i < kept.len() implies (#[trigger] kept[i]).len() > 0 && !kept[i].contains(
            '/' as u8,
        ) by {
            assert(ss.contains(kept[i]));
            let k = choose|k: int| 0 <= k < ss.len() && ss[k] == kept[i];
            assert(!ss[k].contains('/' as u8));
        }
        lemma_join_slash_splits_back(kept);
    }
}

} // verus!
