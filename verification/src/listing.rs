//! Listing entries and their order.
//!
//! A listing row carries the entry kind, its path relative to the listed
//! directory (reported with `/` separators), the modification time in
//! milliseconds, and the byte size for files. Listings are sorted by the
//! total order on `(path_type, name, mtime, size)`, ascending.

use vstd::prelude::*;
use vstd::utf8::valid_utf8;
use crate::resolve::utf8_check;

verus! {

/// The kind of a listed entry; the order below is the sort order.
#[derive(Clone, Copy, Debug, PartialEq, Eq)]
pub enum PathType {
    Dir,
    SymlinkDir,
    File,
    SymlinkFile,
}

/// One row of a listing.
#[derive(Debug, PartialEq, Eq)]
pub struct PathItem {
    pub path_type: PathType,
    pub name: Vec<u8>,
    pub mtime: Option<u64>,
    pub size: Option<u64>,
}

/// The rank of a kind in the sort order.
pub open spec fn type_rank(t: PathType) -> int {
    match t {
        PathType::Dir => 0,
        PathType::SymlinkDir => 1,
        PathType::File => 2,
        PathType::SymlinkFile => 3,
    }
}

/// Lexicographic order on byte strings, shorter prefix first.
pub open spec fn bytes_le(a: Seq<u8>, b: Seq<u8>) -> bool
    decreases a.len(),
{
    if a.len() == 0 {
        true
    } else if b.len() == 0 {
        false
    } else if a[0] < b[0] {
        true
    } else if a[0] > b[0] {
        false
    } else {
        bytes_le(a.skip(1), b.skip(1))
    }
}

/// Order on optional numbers: absent sorts first.
pub open spec fn opt_le(a: Option<u64>, b: Option<u64>) -> bool {
    match (a, b) {
        (Option::None, _) => true,
        (Option::Some(_), Option::None) => false,
        (Option::Some(x), Option::Some(y)) => x <= y,
    }
}

/// The listing order: by kind, then name, then mtime, then size.
pub open spec fn item_le(a: PathItem, b: PathItem) -> bool {
    if type_rank(a.path_type) != type_rank(b.path_type) {
        type_rank(a.path_type) < type_rank(b.path_type)
    } else if a.name@ != b.name@ {
        bytes_le(a.name@, b.name@)
    } else if a.mtime != b.mtime {
        opt_le(a.mtime, b.mtime)
    } else {
        opt_le(a.size, b.size)
    }
}

pub proof fn lemma_bytes_le_total(a: Seq<u8>, b: Seq<u8>)
    ensures
        bytes_le(a, b) || bytes_le(b, a),
    decreases a.len(),
{
    if a.len() != 0 && b.len() != 0 && a[0] == b[0] {
        lemma_bytes_le_total(a.skip(1), b.skip(1));
    }
}

pub proof fn lemma_bytes_le_antisym(a: Seq<u8>, b: Seq<u8>)
    requires
        bytes_le(a, b),
        bytes_le(b, a),
    ensures
        a == b,
    decreases a.len(),
{
    if a.len() == 0 {
        assert(b.len() == 0);
        assert(a =~= b);
    } else {
        assert(a[0] == b[0]);
        lemma_bytes_le_antisym(a.skip(1), b.skip(1));
        assert(a =~= seq![a[0]] + a.skip(1));
        assert(b =~= seq![b[0]] + b.skip(1));
    }
}

pub proof fn lemma_bytes_le_trans(a: Seq<u8>, b: Seq<u8>, c: Seq<u8>)
    requires
        bytes_le(a, b),
        bytes_le(b, c),
    ensures
        bytes_le(a, c),
    decreases a.len(),
{
    if a.len() != 0 && b.len() != 0 && c.len() != 0 && a[0] == b[0] && b[0] == c[0] {
        lemma_bytes_le_trans(a.skip(1), b.skip(1), c.skip(1));
    }
}

/// The listing order is total.
pub proof fn lemma_item_le_total(a: PathItem, b: PathItem)
    ensures
        item_le(a, b) || item_le(b, a),
{
    lemma_bytes_le_total(a.name@, b.name@);
}

/// The listing order is transitive.
pub proof fn lemma_item_le_trans(a: PathItem, b: PathItem, c: PathItem)
    requires
        item_le(a, b),
        item_le(b, c),
    ensures
        item_le(a, c),
{
    if type_rank(a.path_type) == type_rank(b.path_type)
        && type_rank(b.path_type) == type_rank(c.path_type) {
        if a.name@ != b.name@ && b.name@ != c.name@ {
            lemma_bytes_le_trans(a.name@, b.name@, c.name@);
            if a.name@ == c.name@ {
                lemma_bytes_le_total(a.name@, b.name@);
                lemma_bytes_le_antisym(a.name@, b.name@);
            }
        }
    }
}

/// Lexicographic comparison of byte strings.
#[verifier::loop_isolation(false)]
pub fn bytes_le_exec(a: &Vec<u8>, b: &Vec<u8>) -> (r: bool)
    ensures
        r == bytes_le(a@, b@),
{
    let mut i: usize = 0;
    proof {
        assert(a@.skip(0) =~= a@);
        assert(b@.skip(0) =~= b@);
    }
    while i < a.len() && i < b.len()
        invariant
            i <= a@.len(),
            i <= b@.len(),
            bytes_le(a@, b@) == bytes_le(a@.skip(i as int), b@.skip(i as int)),
        decreases a.len() - i,
    {
        proof {
            assert(a@.skip(i as int)[0] == a@[i as int]);
            assert(b@.skip(i as int)[0] == b@[i as int]);
            assert(a@.skip(i as int).skip(1) =~= a@.skip(i + 1));
            assert(b@.skip(i as int).skip(1) =~= b@.skip(i + 1));
        }
        if a[i] < b[i] {
            return true;
        }
        if a[i] > b[i] {
            return false;
        }
        i = i + 1;
    }
    proof {
        if i >= a.len() {
            assert(a@.skip(i as int).len() == 0);
        } else {
            assert(b@.skip(i as int).len() == 0);
            assert(a@.skip(i as int).len() > 0);
        }
    }
    i >= a.len()
}

fn type_rank_exec(t: PathType) -> (r: u8)
    ensures
        r as int == type_rank(t),
{
    match t {
        PathType::Dir => 0,
        PathType::SymlinkDir => 1,
        PathType::File => 2,
        PathType::SymlinkFile => 3,
    }
}

fn opt_le_exec(a: &Option<u64>, b: &Option<u64>) -> (r: bool)
    ensures
        r == opt_le(*a, *b),
{
    match (a, b) {
        (Option::None, _) => true,
        (Option::Some(_), Option::None) => false,
        (Option::Some(x), Option::Some(y)) => *x <= *y,
    }
}

fn opt_eq_exec(a: &Option<u64>, b: &Option<u64>) -> (r: bool)
    ensures
        r == (*a == *b),
{
    match (a, b) {
        (Option::None, Option::None) => true,
        (Option::Some(x), Option::Some(y)) => *x == *y,
        _ => false,
    }
}

/// Compares two rows in the listing order.
pub fn item_le_exec(a: &PathItem, b: &PathItem) -> (r: bool)
    ensures
        r == item_le(*a, *b),
{
    let ra = type_rank_exec(a.path_type);
    let rb = type_rank_exec(b.path_type);
    if ra != rb {
        return ra < rb;
    }
    if !crate::bytes::bytes_eq(&a.name, &b.name) {
        return bytes_le_exec(&a.name, &b.name);
    }
    if !opt_eq_exec(&a.mtime, &b.mtime) {
        return opt_le_exec(&a.mtime, &b.mtime);
    }
    opt_le_exec(&a.size, &b.size)
}

proof fn lemma_insert_multiset(s: Seq<PathItem>, i: int, x: PathItem)
    requires
        0 <= i <= s.len(),
    ensures
        s.insert(i, x).to_multiset() == s.to_multiset().insert(x),
{
    broadcast use vstd::seq_lib::group_to_multiset_ensures;

    let t = s.insert(i, x);
    assert(t.remove(i) =~= s);
    assert(t[i] == x);
    assert(t.remove(i).to_multiset() =~= t.to_multiset().remove(x));
    assert(t.to_multiset().contains(x));
    assert(t.to_multiset() =~= t.to_multiset().remove(x).insert(x));
    assert(t.to_multiset() =~= s.to_multiset().insert(x));
}

/// Sorts a listing by the total order on `(path_type, name, mtime, size)`:
/// the result is ordered and holds exactly the rows given.
#[verifier::loop_isolation(false)]
pub fn sort_items(v: &mut Vec<PathItem>)
    ensures
        final(v)@.to_multiset() == old(v)@.to_multiset(),
        forall|i: int, j: int| 0 <= i < j < final(v)@.len()
            ==> item_le(final(v)@[i], final(v)@[j]),
{
    broadcast use vstd::seq_lib::group_to_multiset_ensures;

    let mut out: Vec<PathItem> = Vec::new();
    proof {
        assert(out@.to_multiset().add(v@.to_multiset()) =~= v@.to_multiset());
    }
    while v.len() > 0
        invariant
            out@.to_multiset().add(v@.to_multiset()) == old(v)@.to_multiset(),
            forall|i: int, j: int| 0 <= i < j < out@.len() ==> item_le(out@[i], out@[j]),
        decreases v@.len(),
    {
        let ghost pre_v = v@;
        let ghost pre_out = out@;
        let x = v.remove(0);
        proof {
            assert(pre_v.remove(0).to_multiset() =~= pre_v.to_multiset().remove(x));
        }
        let mut k: usize = 0;
        while k < out.len() && item_le_exec(&out[k], &x)
            invariant
                k <= out@.len(),
                forall|j: int| 0 <= j < k ==> item_le(out@[j], x),
            decreases out.len() - k,
        {
            k = 1 + k;
        }
        proof {
            if k < out@.len() {
                lemma_item_le_total(out@[k as int], x);
                assert(item_le(x, out@[k as int]));
            }
        }
        let ghost mid_out = out@;
        out.insert(k, x);
        proof {
            lemma_insert_multiset(mid_out, k as int, x);
            assert(out@.to_multiset().add(v@.to_multiset())
                =~= old(v)@.to_multiset());
            let n = out@;
            assert forall|i: int, j: int| 0 <= i < j < n.len()
                implies item_le(n[i], n[j]) by {
                if j < k {
                    assert(n[i] == mid_out[i] && n[j] == mid_out[j]);
                } else if i > k {
                    assert(n[i] == mid_out[i - 1] && n[j] == mid_out[j - 1]);
                } else if i < k && j == k {
                    assert(n[i] == mid_out[i] && n[j] == x);
                } else if i == k && j > k {
                    assert(n[i] == x && n[j] == mid_out[j - 1]);
                    assert(item_le(x, mid_out[k as int]));
                    if j - 1 > k {
                        lemma_item_le_trans(x, mid_out[k as int], mid_out[j - 1]);
                    }
                } else if i < k && j > k {
                    assert(n[i] == mid_out[i] && n[j] == mid_out[j - 1]);
                    if i < k && k < j - 1 {
                        lemma_item_le_trans(mid_out[i], mid_out[k as int], mid_out[j - 1]);
                    }
                }
            }
        }
    }
    proof {
        assert(v@.to_multiset().len() == 0);
        assert(out@.to_multiset().add(v@.to_multiset()) =~= out@.to_multiset());
    }
    *v = out;
}

/// A path reported outward: unchanged when its bytes are UTF-8, else empty.
pub open spec fn normal_name(path: Seq<u8>) -> Seq<u8> {
    if valid_utf8(path) {
        path
    } else {
        Seq::empty()
    }
}

/// Renders a relative path for reporting: kept when it is valid UTF-8,
/// replaced by the empty string otherwise.
pub fn normalize_path(path: &Vec<u8>) -> (r: Vec<u8>)
    ensures
        r@ == normal_name(path@),
{
    if utf8_check(path.as_slice()) {
        crate::bytes::tail_of(path, 0)
    } else {
        proof {
            assert(Seq::<u8>::empty() =~= normal_name(path@));
        }
        Vec::new()
    }
}

/// Builds the listing row for one directory entry from its metadata:
/// the kind from the directory/symlink flags, no size for directories,
/// and the relative path as the reported name.
pub fn make_path_item(
    rel_path: &Vec<u8>,
    is_dir: bool,
    is_symlink: bool,
    mtime: Option<u64>,
    size: u64,
) -> (r: PathItem)
    ensures
        r.path_type == (match (is_symlink, is_dir) {
            (true, true) => PathType::SymlinkDir,
            (false, true) => PathType::Dir,
            (true, false) => PathType::SymlinkFile,
            (false, false) => PathType::File,
        }),
        r.name@ == normal_name(rel_path@),
        r.mtime == mtime,
        r.size == (if is_dir {
            Option::<u64>::None
        } else {
            Option::Some(size)
        }),
{
    let path_type = if is_symlink && is_dir {
        PathType::SymlinkDir
    } else if is_dir {
        PathType::Dir
    } else if is_symlink {
        PathType::SymlinkFile
    } else {
        PathType::File
    };
    let name = normalize_path(rel_path);
    let size = if is_dir {
        Option::None
    } else {
        Option::Some(size)
    };
    PathItem { path_type, name, mtime, size }
}

} // verus!
