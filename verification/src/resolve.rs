//! Lexical resolution of request URIs to paths under the configured root.
//!
//! The request path is percent-decoded, must be UTF-8, and is then joined
//! onto the root and normalized segment by segment: empty and `.` segments
//! vanish, `..` removes the segment before it. A path whose normal form
//! does not lie below the root (a `..` escape, or an absolute path outside
//! the root) is reported as outside, which callers answer with `403`.

use vstd::prelude::*;
use vstd::utf8::valid_utf8;
use crate::bytes::{SLASH, DOT, bytes_eq, tail_of, extend_bytes};
use crate::pct::{pct_wellformed, pct_decode, decode_percent};

verus! {

/// The segment `.`.
pub open spec fn is_dot(seg: Seq<u8>) -> bool {
    seg.len() == 1 && seg[0] == DOT
}

/// The segment `..`.
pub open spec fn is_dotdot(seg: Seq<u8>) -> bool {
    seg.len() == 2 && seg[0] == DOT && seg[1] == DOT
}

/// Adds one segment to a normalized stack: empty and `.` change nothing,
/// `..` pops (and fails on an empty stack), anything else is appended.
pub open spec fn norm_step(stack: Seq<Seq<u8>>, seg: Seq<u8>) -> Option<Seq<Seq<u8>>> {
    if seg.len() == 0 || is_dot(seg) {
        Some(stack)
    } else if is_dotdot(seg) {
        if stack.len() == 0 {
            None
        } else {
            Some(stack.drop_last())
        }
    } else {
        Some(stack.push(seg))
    }
}

/// Folds the bytes of a relative path (split on `/`) into a normalized
/// segment stack, starting from `stack` with `cur` the segment read so far.
pub open spec fn norm_fold(s: Seq<u8>, stack: Seq<Seq<u8>>, cur: Seq<u8>) -> Option<Seq<Seq<u8>>>
    decreases s.len(),
{
    if s.len() == 0 {
        norm_step(stack, cur)
    } else if s[0] == SLASH {
        match norm_step(stack, cur) {
            Option::None => None,
            Option::Some(st) => norm_fold(s.skip(1), st, Seq::empty()),
        }
    } else {
        norm_fold(s.skip(1), stack, cur.push(s[0]))
    }
}

/// `/a/b/c` for the segments `a`, `b`, `c`; empty for no segments.
pub open spec fn joined(segs: Seq<Seq<u8>>) -> Seq<u8>
    decreases segs.len(),
{
    if segs.len() == 0 {
        Seq::empty()
    } else {
        seq![SLASH] + segs[0] + joined(segs.skip(1))
    }
}

/// The absolute path spelled by `segs`: `/` when empty, else [`joined`].
pub open spec fn path_of(segs: Seq<Seq<u8>>) -> Seq<u8> {
    if segs.len() == 0 {
        seq![SLASH]
    } else {
        joined(segs)
    }
}

/// The root's own normalized segments.
pub open spec fn root_segs(root: Seq<u8>) -> Option<Seq<Seq<u8>>> {
    norm_fold(root.skip(1), Seq::empty(), Seq::empty())
}

/// The root is an absolute path in normal form: spelling its normalized
/// segments back out gives the root itself.
pub open spec fn wf_root(root: Seq<u8>) -> bool {
    &&& root.len() >= 1
    &&& root[0] == SLASH
    &&& root_segs(root) is Some
    &&& path_of(root_segs(root)->0) == root
}

/// What the request path decodes to (the leading `/` stripped first).
pub open spec fn decoded_of(uri: Seq<u8>) -> Seq<u8> {
    pct_decode(uri.skip(1))
}

/// The decode succeeds: percent sequences well formed, output UTF-8.
pub open spec fn decode_ok(uri: Seq<u8>) -> bool {
    pct_wellformed(uri.skip(1)) && valid_utf8(decoded_of(uri))
}

/// The normalized segments of the joined path: an absolute decoded path
/// stands alone, a relative one is joined below the root.
pub open spec fn full_segs(root: Seq<u8>, uri: Seq<u8>) -> Option<Seq<Seq<u8>>> {
    let d = decoded_of(uri);
    if d.len() > 0 && d[0] == SLASH {
        norm_fold(d.skip(1), Seq::empty(), Seq::empty())
    } else {
        norm_fold(d, root_segs(root)->0, Seq::empty())
    }
}

/// The joined path normalizes and its segments extend the root's.
pub open spec fn contained(root: Seq<u8>, uri: Seq<u8>) -> bool {
    &&& full_segs(root, uri) is Some
    &&& full_segs(root, uri)->0.len() >= root_segs(root)->0.len()
    &&& full_segs(root, uri)->0.take(root_segs(root)->0.len() as int) == root_segs(root)->0
}

/// The path a contained request resolves to.
pub open spec fn resolved_path(root: Seq<u8>, uri: Seq<u8>) -> Seq<u8> {
    path_of(full_segs(root, uri)->0)
}

/// `p` is `root` itself or sits strictly below it (`root/...`).
pub open spec fn is_descendant(root: Seq<u8>, p: Seq<u8>) -> bool {
    ||| p == root
    ||| {
        &&& p.len() > root.len()
        &&& p.take(root.len() as int) == root
        &&& root.len() == 1 || p[root.len() as int] == SLASH
    }
}

pub proof fn lemma_joined_concat(a: Seq<Seq<u8>>, b: Seq<Seq<u8>>)
    ensures
        joined(a + b) == joined(a) + joined(b),
    decreases a.len(),
{
    if a.len() == 0 {
        assert(a + b =~= b);
        assert(joined(a) + joined(b) =~= joined(b));
    } else {
        lemma_joined_concat(a.skip(1), b);
        assert((a + b).skip(1) =~= a.skip(1) + b);
        assert((a + b)[0] == a[0]);
        assert(seq![SLASH] + a[0] + (joined(a.skip(1)) + joined(b))
            =~= (seq![SLASH] + a[0] + joined(a.skip(1))) + joined(b));
    }
}

/// Containment of the segments gives lexical descent of the spelled paths:
/// a resolved path is the root itself or lies strictly below it.
pub proof fn lemma_contained_descendant(root: Seq<u8>, f: Seq<Seq<u8>>)
    requires
        wf_root(root),
        f.len() >= root_segs(root)->0.len(),
        f.take(root_segs(root)->0.len() as int) == root_segs(root)->0,
    ensures
        is_descendant(root, path_of(f)),
{
    let rs = root_segs(root)->0;
    let rest = f.skip(rs.len() as int);
    assert(f =~= rs + rest);
    lemma_joined_concat(rs, rest);
    if rs.len() == 0 {
        // the root is `/`
        assert(root =~= seq![SLASH]);
        if f.len() == 0 {
        } else {
            let p = joined(f);
            assert(joined(rs) =~= Seq::<u8>::empty());
            assert(p =~= joined(rest));
            assert(p[0] == SLASH);
            if p.len() == 1 {
                assert(p =~= root);
            } else {
                assert(p.take(1) =~= root);
            }
        }
    } else {
        assert(joined(rs) == root);
        if rest.len() == 0 {
            assert(f =~= rs);
            assert(path_of(f) == root);
        } else {
            let p = joined(f);
            assert(p == root + joined(rest));
            assert(joined(rest).len() >= 1);
            assert(joined(rest)[0] == SLASH);
            assert(p.take(root.len() as int) =~= root);
            assert(p[root.len() as int] == SLASH);
        }
    }
}

/// Relies on `std::str::from_utf8`: it returns `Ok` exactly when the bytes
/// are valid UTF-8, as `vstd::utf8::valid_utf8` states it.
#[verifier::external_body]
pub(crate) fn utf8_check(v: &[u8]) -> (r: bool)
    ensures
        r == valid_utf8(v@),
{
    std::str::from_utf8(v).is_ok()
}

/// Applies [`norm_step`] to a stack held as vectors.
fn step_apply(stack: &mut Vec<Vec<u8>>, cur: &Vec<u8>) -> (ok: bool)
    ensures
        ok ==> norm_step(old(stack).deep_view(), cur@) == Some(final(stack).deep_view()),
        !ok ==> norm_step(old(stack).deep_view(), cur@) is None,
{
    let ghost old_dv = stack.deep_view();
    if cur.len() == 0 || (cur.len() == 1 && cur[0] == DOT) {
        true
    } else if cur.len() == 2 && cur[0] == DOT && cur[1] == DOT {
        if stack.len() == 0 {
            false
        } else {
            stack.pop();
            proof {
                assert(stack.deep_view() =~~= old_dv.drop_last());
            }
            true
        }
    } else {
        let seg = tail_of(cur, 0);
        proof {
            assert(seg@ =~= cur@);
        }
        stack.push(seg);
        proof {
            assert(stack.deep_view() =~~= old_dv.push(cur@));
        }
        true
    }
}

/// Runs [`norm_fold`] over `s` starting from the stack `init`.
#[verifier::loop_isolation(false)]
pub fn norm_segments(s: &Vec<u8>, init: &Vec<Vec<u8>>) -> (r: Option<Vec<Vec<u8>>>)
    ensures
        r is Some ==> norm_fold(s@, init.deep_view(), Seq::empty()) == Some(r->0.deep_view()),
        r is None ==> norm_fold(s@, init.deep_view(), Seq::empty()) is None,
{
    let ghost goal = norm_fold(s@, init.deep_view(), Seq::empty());
    let mut stack = copy_segs(init);
    let mut cur: Vec<u8> = Vec::new();
    let mut i: usize = 0;
    proof {
        assert(s@.skip(0) =~= s@);
        assert(cur@ =~= Seq::<u8>::empty());
    }
    while i < s.len()
        invariant
            i <= s.len(),
            goal == norm_fold(s@.skip(i as int), stack.deep_view(), cur@),
        decreases s.len() - i,
    {
        proof {
            assert(s@.skip(i as int)[0] == s@[i as int]);
            assert(s@.skip(i as int).skip(1) =~= s@.skip(i + 1));
        }
        if s[i] == SLASH {
            let ghost pre_stack = stack.deep_view();
            let ghost pre_cur = cur@;
            if !step_apply(&mut stack, &cur) {
                proof {
                    assert(norm_fold(s@.skip(i as int), pre_stack, pre_cur) is None);
                }
                return None;
            }
            cur = Vec::new();
            proof {
                assert(cur@ =~= Seq::<u8>::empty());
            }
        } else {
            cur.push(s[i]);
        }
        i = i + 1;
    }
    proof {
        assert(s@.skip(s@.len() as int).len() == 0);
    }
    if !step_apply(&mut stack, &cur) {
        return None;
    }
    Some(stack)
}

/// A copy of a segment stack.
fn copy_segs(v: &Vec<Vec<u8>>) -> (r: Vec<Vec<u8>>)
    ensures
        r.deep_view() == v.deep_view(),
{
    let mut out: Vec<Vec<u8>> = Vec::new();
    let mut i: usize = 0;
    while i < v.len()
        invariant
            i <= v.len(),
            out@.len() == i,
            forall|j: int| 0 <= j < i ==> #[trigger] out@[j]@ == v@[j]@,
        decreases v.len() - i,
    {
        let seg = tail_of(&v[i], 0);
        proof {
            assert(seg@ =~= v@[i as int]@);
        }
        out.push(seg);
        i = i + 1;
    }
    proof {
        assert(out.deep_view().len() == v.deep_view().len());
        assert forall|j: int| 0 <= j < v@.len() implies out.deep_view()[j]
            == v.deep_view()[j] by {
            assert(out.deep_view()[j] == out@[j].deep_view());
            assert(v.deep_view()[j] == v@[j].deep_view());
            assert(out@[j].deep_view() =~= out@[j]@);
            assert(v@[j].deep_view() =~= v@[j]@);
            assert(out@[j]@ == v@[j]@);
        }
        assert(out.deep_view() =~= v.deep_view());
    }
    out
}

/// Spells a normalized segment stack back out as an absolute path.
#[verifier::loop_isolation(false)]
pub fn spell_path(segs: &Vec<Vec<u8>>) -> (r: Vec<u8>)
    ensures
        r@ == path_of(segs.deep_view()),
{
    let mut out: Vec<u8> = Vec::new();
    if segs.len() == 0 {
        out.push(SLASH);
        proof {
            assert(out@ =~= path_of(segs.deep_view()));
        }
    } else {
        let mut k: usize = 0;
        proof {
            assert(out@ =~= joined(segs.deep_view().take(0)));
        }
        while k < segs.len()
            invariant
                k <= segs@.len(),
                out@ == joined(segs.deep_view().take(k as int)),
            decreases segs.len() - k,
        {
            out.push(SLASH);
            let seg = &segs[k];
            proof {
                assert(seg@ =~= segs.deep_view()[k as int]);
            }
            extend_bytes(&mut out, seg);
            proof {
                let dv = segs.deep_view();
                lemma_joined_concat(dv.take(k as int), seq![dv[k as int]]);
                assert(dv.take(k as int) + seq![dv[k as int]] =~= dv.take(k + 1));
                assert(joined(seq![dv[k as int]])
                    =~= seq![SLASH] + dv[k as int] + joined(seq![dv[k as int]].skip(1)));
                assert(seq![dv[k as int]].skip(1) =~= Seq::<Seq<u8>>::empty());
                assert(joined(seq![dv[k as int]]) =~= seq![SLASH] + dv[k as int]);
                assert(out@ =~= joined(dv.take(k as int)) + joined(seq![dv[k as int]]));
            }
            k = k + 1;
        }
        proof {
            assert(segs.deep_view().take(segs@.len() as int) =~= segs.deep_view());
        }
    }
    out
}

/// The outcome of resolving a request path.
pub enum Resolution {
    /// The path does not percent-decode to UTF-8.
    Malformed,
    /// The decoded path does not stay under the root.
    Outside,
    /// The resolved path, lexically under the root.
    Within(Vec<u8>),
}

/// Resolves a request URI path against the root: decodes it, joins it onto
/// the root, normalizes, and checks containment. A `Within` result is the
/// normal form of the joined path and always lies lexically under the root.
#[verifier::loop_isolation(false)]
pub fn resolve_path(root: &Vec<u8>, uri_path: &Vec<u8>) -> (r: Resolution)
    requires
        wf_root(root@),
        uri_path@.len() >= 1,
        uri_path@[0] == SLASH,
    ensures
        r is Malformed <==> !decode_ok(uri_path@),
        r is Outside <==> decode_ok(uri_path@) && !contained(root@, uri_path@),
        r is Within <==> decode_ok(uri_path@) && contained(root@, uri_path@),
        r is Within ==> r->0@ == resolved_path(root@, uri_path@),
        r is Within ==> is_descendant(root@, r->0@),
{
    let rel = tail_of(uri_path, 1);
    let decoded = match decode_percent(&rel) {
        Option::Some(d) => d,
        Option::None => {
            return Resolution::Malformed;
        },
    };
    if !utf8_check(decoded.as_slice()) {
        return Resolution::Malformed;
    }
    assert(decoded@ == decoded_of(uri_path@));
    assert(decode_ok(uri_path@));

    let root_rel = tail_of(root, 1);
    let empty_a: Vec<Vec<u8>> = Vec::new();
    proof {
        assert(empty_a.deep_view() =~= Seq::<Seq<u8>>::empty());
    }
    let rs = match norm_segments(&root_rel, &empty_a) {
        Option::Some(v) => v,
        Option::None => {
            // impossible: a well-formed root normalizes
            proof {
                assert(false);
            }
            return Resolution::Outside;
        },
    };
    proof {
        assert(rs.deep_view() == root_segs(root@)->0);
    }

    let fsegs_opt = if decoded.len() > 0 && decoded[0] == SLASH {
        let dtail = tail_of(&decoded, 1);
        let empty_b: Vec<Vec<u8>> = Vec::new();
        proof {
            assert(empty_b.deep_view() =~= Seq::<Seq<u8>>::empty());
        }
        norm_segments(&dtail, &empty_b)
    } else {
        norm_segments(&decoded, &rs)
    };
    let fsegs = match fsegs_opt {
        Option::Some(v) => v,
        Option::None => {
            return Resolution::Outside;
        },
    };
    proof {
        assert(fsegs.deep_view() == full_segs(root@, uri_path@)->0);
    }

    // containment: the root's segments must be a prefix
    if fsegs.len() < rs.len() {
        return Resolution::Outside;
    }
    let mut i: usize = 0;
    while i < rs.len()
        invariant
            i <= rs@.len(),
            fsegs@.len() >= rs@.len(),
            forall|j: int| 0 <= j < i ==> fsegs.deep_view()[j] == rs.deep_view()[j],
        decreases rs.len() - i,
    {
        proof {
            assert(fsegs@[i as int].deep_view() =~= fsegs@[i as int]@);
            assert(rs@[i as int].deep_view() =~= rs@[i as int]@);
            assert(fsegs.deep_view()[i as int] == fsegs@[i as int]@);
            assert(rs.deep_view()[i as int] == rs@[i as int]@);
        }
        if !bytes_eq(&fsegs[i], &rs[i]) {
            proof {
                assert(fsegs.deep_view()[i as int] != rs.deep_view()[i as int]);
                let t = fsegs.deep_view().take(rs.deep_view().len() as int);
                assert(t[i as int] == fsegs.deep_view()[i as int]);
                if t == rs.deep_view() {
                    assert(t[i as int] == rs.deep_view()[i as int]);
                }
                assert(!contained(root@, uri_path@));
            }
            return Resolution::Outside;
        }
        i = i + 1;
    }
    proof {
        assert(fsegs.deep_view().take(rs.deep_view().len() as int) =~= rs.deep_view());
        assert(contained(root@, uri_path@));
    }

    // spell the normal form back out as an absolute path
    let out = spell_path(&fsegs);
    proof {
        lemma_contained_descendant(root@, fsegs.deep_view());
    }
    Resolution::Within(out)
}

} // verus!
