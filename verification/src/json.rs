//! The JSON payload injected into the index page.
//!
//! The page data has the shape
//! `{"breadcrumb":s,"paths":[{"path_type":k,"name":s,"mtime":n,"size":n}...],"readonly":b}`:
//! strings are escaped as JSON strings, numbers are decimal, an absent
//! number is `null`. The functions below both define that serialization
//! exactly and produce it.

use vstd::prelude::*;
use crate::listing::{PathItem, PathType};

verus! {

/// `{"path_type":` as bytes.
pub open spec fn lit_item_open() -> Seq<u8> {
    seq![123u8, 34, 112, 97, 116, 104, 95, 116, 121, 112, 101, 34, 58]
}

/// `,"name":` as bytes.
pub open spec fn lit_name_key() -> Seq<u8> {
    seq![44u8, 34, 110, 97, 109, 101, 34, 58]
}

/// `,"mtime":` as bytes.
pub open spec fn lit_mtime_key() -> Seq<u8> {
    seq![44u8, 34, 109, 116, 105, 109, 101, 34, 58]
}

/// `,"size":` as bytes.
pub open spec fn lit_size_key() -> Seq<u8> {
    seq![44u8, 34, 115, 105, 122, 101, 34, 58]
}

/// `null` as bytes.
pub open spec fn lit_null() -> Seq<u8> {
    seq![110u8, 117, 108, 108]
}

/// `true` as bytes.
pub open spec fn lit_true() -> Seq<u8> {
    seq![116u8, 114, 117, 101]
}

/// `false` as bytes.
pub open spec fn lit_false() -> Seq<u8> {
    seq![102u8, 97, 108, 115, 101]
}

/// `{"breadcrumb":` as bytes.
pub open spec fn lit_breadcrumb_open() -> Seq<u8> {
    seq![123u8, 34, 98, 114, 101, 97, 100, 99, 114, 117, 109, 98, 34, 58]
}

/// `,"paths":[` as bytes.
pub open spec fn lit_paths_key() -> Seq<u8> {
    seq![44u8, 34, 112, 97, 116, 104, 115, 34, 58, 91]
}

/// `],"readonly":` as bytes.
pub open spec fn lit_readonly_key() -> Seq<u8> {
    seq![93u8, 44, 34, 114, 101, 97, 100, 111, 110, 108, 121, 34, 58]
}

/// `Dir` as bytes.
pub open spec fn lit_dir() -> Seq<u8> {
    seq![68u8, 105, 114]
}

/// `SymlinkDir` as bytes.
pub open spec fn lit_symlink_dir() -> Seq<u8> {
    seq![83u8, 121, 109, 108, 105, 110, 107, 68, 105, 114]
}

/// `File` as bytes.
pub open spec fn lit_file() -> Seq<u8> {
    seq![70u8, 105, 108, 101]
}

/// `SymlinkFile` as bytes.
pub open spec fn lit_symlink_file() -> Seq<u8> {
    seq![83u8, 121, 109, 108, 105, 110, 107, 70, 105, 108, 101]
}

/// The serialized name of an entry kind.
pub open spec fn kind_name(t: PathType) -> Seq<u8> {
    match t {
        PathType::Dir => lit_dir(),
        PathType::SymlinkDir => lit_symlink_dir(),
        PathType::File => lit_file(),
        PathType::SymlinkFile => lit_symlink_file(),
    }
}

/// The character for a hex digit value, lowercase.
pub open spec fn hex_char(d: u8) -> u8 {
    if d < 10 {
        (48 + d) as u8
    } else {
        (87 + d) as u8
    }
}

/// How one byte appears inside a JSON string.
pub open spec fn esc_byte(b: u8) -> Seq<u8> {
    if b == 34 {
        seq![92u8, 34]
    } else if b == 92 {
        seq![92u8, 92]
    } else if b == 8 {
        seq![92u8, 98]
    } else if b == 9 {
        seq![92u8, 116]
    } else if b == 10 {
        seq![92u8, 110]
    } else if b == 12 {
        seq![92u8, 102]
    } else if b == 13 {
        seq![92u8, 114]
    } else if b < 32 {
        seq![92u8, 117, 48, 48, hex_char(b / 16), hex_char(b % 16)]
    } else {
        seq![b]
    }
}

/// A byte string escaped for a JSON string body.
pub open spec fn json_escape(s: Seq<u8>) -> Seq<u8>
    decreases s.len(),
{
    if s.len() == 0 {
        Seq::empty()
    } else {
        esc_byte(s[0]) + json_escape(s.skip(1))
    }
}

/// A byte string as a JSON string, quotes included.
pub open spec fn json_quote(s: Seq<u8>) -> Seq<u8> {
    seq![34u8] + json_escape(s) + seq![34u8]
}

/// A number in decimal.
pub open spec fn dec_of(n: int) -> Seq<u8>
    decreases n,
{
    if n < 10 {
        seq![(48 + n) as u8]
    } else {
        dec_of(n / 10) + seq![(48 + (n % 10)) as u8]
    }
}

/// An optional number: decimal, or `null` when absent.
pub open spec fn json_opt(o: Option<u64>) -> Seq<u8> {
    match o {
        Option::None => lit_null(),
        Option::Some(n) => dec_of(n as int),
    }
}

/// One listing row as a JSON object.
pub open spec fn json_item(it: PathItem) -> Seq<u8> {
    lit_item_open() + json_quote(kind_name(it.path_type)) + lit_name_key() + json_quote(it.name@)
        + lit_mtime_key() + json_opt(it.mtime) + lit_size_key() + json_opt(it.size) + seq![125u8]
}

/// The rows as the body of a JSON array, comma separated.
pub open spec fn json_items(items: Seq<PathItem>) -> Seq<u8>
    decreases items.len(),
{
    if items.len() == 0 {
        Seq::empty()
    } else if items.len() == 1 {
        json_item(items[0])
    } else {
        json_item(items[0]) + seq![44u8] + json_items(items.skip(1))
    }
}

/// The whole page payload.
pub open spec fn json_index(breadcrumb: Seq<u8>, items: Seq<PathItem>, readonly: bool) -> Seq<u8> {
    lit_breadcrumb_open() + json_quote(breadcrumb) + lit_paths_key() + json_items(items)
        + lit_readonly_key() + (if readonly {
        lit_true()
    } else {
        lit_false()
    }) + seq![125u8]
}

proof fn lemma_json_escape_snoc(s: Seq<u8>, x: u8)
    ensures
        json_escape(s.push(x)) == json_escape(s) + esc_byte(x),
    decreases s.len(),
{
    if s.len() == 0 {
        assert(s.push(x)[0] == x);
        assert(s.push(x).skip(1) =~= Seq::<u8>::empty());
        assert(json_escape(Seq::<u8>::empty()) =~= Seq::<u8>::empty());
        assert(json_escape(s.push(x)) =~= esc_byte(x));
        assert(json_escape(s) + esc_byte(x) =~= esc_byte(x));
    } else {
        lemma_json_escape_snoc(s.skip(1), x);
        assert(s.push(x)[0] == s[0]);
        assert(s.push(x).skip(1) =~= s.skip(1).push(x));
        assert(esc_byte(s[0]) + (json_escape(s.skip(1)) + esc_byte(x))
            =~= (esc_byte(s[0]) + json_escape(s.skip(1))) + esc_byte(x));
    }
}

proof fn lemma_json_items_snoc(s: Seq<PathItem>, x: PathItem)
    ensures
        json_items(s.push(x)) == if s.len() == 0 {
            json_item(x)
        } else {
            json_items(s) + seq![44u8] + json_items(seq![x])
        },
    decreases s.len(),
{
    assert(json_items(seq![x]) == json_item(x));
    if s.len() == 0 {
        assert(s.push(x).len() == 1);
        assert(s.push(x)[0] == x);
    } else {
        lemma_json_items_snoc(s.skip(1), x);
        assert(s.push(x)[0] == s[0]);
        assert(s.push(x).skip(1) =~= s.skip(1).push(x));
        if s.len() == 1 {
            assert(s.skip(1).len() == 0);
            assert(json_items(s.push(x)) == json_item(s[0]) + seq![44u8] + json_item(x));
            assert(json_items(s) == json_item(s[0]));
        } else {
            assert(json_items(s.push(x))
                == json_item(s[0]) + seq![44u8] + (json_items(s.skip(1)) + seq![44u8]
                    + json_items(seq![x])));
            assert(json_item(s[0]) + seq![44u8] + (json_items(s.skip(1)) + seq![44u8]
                + json_items(seq![x]))
                =~= (json_item(s[0]) + seq![44u8] + json_items(s.skip(1))) + seq![44u8]
                    + json_items(seq![x]));
        }
    }
}

fn append_item_open(out: &mut Vec<u8>)
    ensures
        final(out)@ == old(out)@ + lit_item_open(),
{
    out.push(123);
    out.push(34);
    out.push(112);
    out.push(97);
    out.push(116);
    out.push(104);
    out.push(95);
    out.push(116);
    out.push(121);
    out.push(112);
    out.push(101);
    out.push(34);
    out.push(58);
    proof {
        assert(out@ =~= old(out)@ + lit_item_open());
    }
}

fn append_name_key(out: &mut Vec<u8>)
    ensures
        final(out)@ == old(out)@ + lit_name_key(),
{
    out.push(44);
    out.push(34);
    out.push(110);
    out.push(97);
    out.push(109);
    out.push(101);
    out.push(34);
    out.push(58);
    proof {
        assert(out@ =~= old(out)@ + lit_name_key());
    }
}

fn append_mtime_key(out: &mut Vec<u8>)
    ensures
        final(out)@ == old(out)@ + lit_mtime_key(),
{
    out.push(44);
    out.push(34);
    out.push(109);
    out.push(116);
    out.push(105);
    out.push(109);
    out.push(101);
    out.push(34);
    out.push(58);
    proof {
        assert(out@ =~= old(out)@ + lit_mtime_key());
    }
}

fn append_size_key(out: &mut Vec<u8>)
    ensures
        final(out)@ == old(out)@ + lit_size_key(),
{
    out.push(44);
    out.push(34);
    out.push(115);
    out.push(105);
    out.push(122);
    out.push(101);
    out.push(34);
    out.push(58);
    proof {
        assert(out@ =~= old(out)@ + lit_size_key());
    }
}

fn append_null(out: &mut Vec<u8>)
    ensures
        final(out)@ == old(out)@ + lit_null(),
{
    out.push(110);
    out.push(117);
    out.push(108);
    out.push(108);
    proof {
        assert(out@ =~= old(out)@ + lit_null());
    }
}

fn append_true(out: &mut Vec<u8>)
    ensures
        final(out)@ == old(out)@ + lit_true(),
{
    out.push(116);
    out.push(114);
    out.push(117);
    out.push(101);
    proof {
        assert(out@ =~= old(out)@ + lit_true());
    }
}

fn append_false(out: &mut Vec<u8>)
    ensures
        final(out)@ == old(out)@ + lit_false(),
{
    out.push(102);
    out.push(97);
    out.push(108);
    out.push(115);
    out.push(101);
    proof {
        assert(out@ =~= old(out)@ + lit_false());
    }
}

fn append_breadcrumb_open(out: &mut Vec<u8>)
    ensures
        final(out)@ == old(out)@ + lit_breadcrumb_open(),
{
    out.push(123);
    out.push(34);
    out.push(98);
    out.push(114);
    out.push(101);
    out.push(97);
    out.push(100);
    out.push(99);
    out.push(114);
    out.push(117);
    out.push(109);
    out.push(98);
    out.push(34);
    out.push(58);
    proof {
        assert(out@ =~= old(out)@ + lit_breadcrumb_open());
    }
}

fn append_paths_key(out: &mut Vec<u8>)
    ensures
        final(out)@ == old(out)@ + lit_paths_key(),
{
    out.push(44);
    out.push(34);
    out.push(112);
    out.push(97);
    out.push(116);
    out.push(104);
    out.push(115);
    out.push(34);
    out.push(58);
    out.push(91);
    proof {
        assert(out@ =~= old(out)@ + lit_paths_key());
    }
}

fn append_readonly_key(out: &mut Vec<u8>)
    ensures
        final(out)@ == old(out)@ + lit_readonly_key(),
{
    out.push(93);
    out.push(44);
    out.push(34);
    out.push(114);
    out.push(101);
    out.push(97);
    out.push(100);
    out.push(111);
    out.push(110);
    out.push(108);
    out.push(121);
    out.push(34);
    out.push(58);
    proof {
        assert(out@ =~= old(out)@ + lit_readonly_key());
    }
}

fn append_dir(out: &mut Vec<u8>)
    ensures
        final(out)@ == old(out)@ + lit_dir(),
{
    out.push(68);
    out.push(105);
    out.push(114);
    proof {
        assert(out@ =~= old(out)@ + lit_dir());
    }
}

fn append_symlink_dir(out: &mut Vec<u8>)
    ensures
        final(out)@ == old(out)@ + lit_symlink_dir(),
{
    out.push(83);
    out.push(121);
    out.push(109);
    out.push(108);
    out.push(105);
    out.push(110);
    out.push(107);
    out.push(68);
    out.push(105);
    out.push(114);
    proof {
        assert(out@ =~= old(out)@ + lit_symlink_dir());
    }
}

fn append_file(out: &mut Vec<u8>)
    ensures
        final(out)@ == old(out)@ + lit_file(),
{
    out.push(70);
    out.push(105);
    out.push(108);
    out.push(101);
    proof {
        assert(out@ =~= old(out)@ + lit_file());
    }
}

fn append_symlink_file(out: &mut Vec<u8>)
    ensures
        final(out)@ == old(out)@ + lit_symlink_file(),
{
    out.push(83);
    out.push(121);
    out.push(109);
    out.push(108);
    out.push(105);
    out.push(110);
    out.push(107);
    out.push(70);
    out.push(105);
    out.push(108);
    out.push(101);
    proof {
        assert(out@ =~= old(out)@ + lit_symlink_file());
    }
}

fn append_kind_name(out: &mut Vec<u8>, t: PathType)
    ensures
        final(out)@ == old(out)@ + kind_name(t),
{
    match t {
        PathType::Dir => append_dir(out),
        PathType::SymlinkDir => append_symlink_dir(out),
        PathType::File => append_file(out),
        PathType::SymlinkFile => append_symlink_file(out),
    }
}

/// Appends `s` escaped as the body of a JSON string.
#[verifier::loop_isolation(false)]
fn append_escaped(out: &mut Vec<u8>, s: &Vec<u8>)
    ensures
        final(out)@ == old(out)@ + json_escape(s@),
{
    let mut i: usize = 0;
    proof {
        assert(s@.take(0) =~= Seq::<u8>::empty());
        assert(out@ =~= old(out)@ + json_escape(s@.take(0)));
    }
    while i < s.len()
        invariant
            i <= s@.len(),
            out@ == old(out)@ + json_escape(s@.take(i as int)),
        decreases s.len() - i,
    {
        let b = s[i];
        if b == 34 {
            out.push(92);
            out.push(34);
        } else if b == 92 {
            out.push(92);
            out.push(92);
        } else if b == 8 {
            out.push(92);
            out.push(98);
        } else if b == 9 {
            out.push(92);
            out.push(116);
        } else if b == 10 {
            out.push(92);
            out.push(110);
        } else if b == 12 {
            out.push(92);
            out.push(102);
        } else if b == 13 {
            out.push(92);
            out.push(114);
        } else if b < 32 {
            out.push(92);
            out.push(117);
            out.push(48);
            out.push(48);
            let hi = b / 16;
            let lo = b % 16;
            out.push(if hi < 10 { 48 + hi } else { 87 + hi });
            out.push(if lo < 10 { 48 + lo } else { 87 + lo });
        } else {
            out.push(b);
        }
        proof {
            lemma_json_escape_snoc(s@.take(i as int), s@[i as int]);
            assert(s@.take(i as int).push(s@[i as int]) =~= s@.take(i + 1));
            assert(out@ =~= old(out)@ + (json_escape(s@.take(i as int)) + esc_byte(s@[i as int])));
        }
        i = i + 1;
    }
    proof {
        assert(s@.take(s@.len() as int) =~= s@);
    }
}

/// Appends `s` as a JSON string, quotes included.
fn append_quoted(out: &mut Vec<u8>, s: &Vec<u8>)
    ensures
        final(out)@ == old(out)@ + json_quote(s@),
{
    out.push(34);
    append_escaped(out, s);
    out.push(34);
    proof {
        assert(out@ =~= old(out)@ + json_quote(s@));
    }
}

/// Appends `n` in decimal.
fn append_dec(out: &mut Vec<u8>, n: u64)
    ensures
        final(out)@ == old(out)@ + dec_of(n as int),
    decreases n,
{
    if n < 10 {
        out.push(48 + (n as u8));
        proof {
            assert(out@ =~= old(out)@ + dec_of(n as int));
        }
    } else {
        append_dec(out, n / 10);
        out.push(48 + ((n % 10) as u8));
        proof {
            assert(out@ =~= old(out)@ + (dec_of((n / 10) as int)
                + seq![(48 + ((n as int) % 10)) as u8]));
        }
    }
}

fn append_opt(out: &mut Vec<u8>, o: &Option<u64>)
    ensures
        final(out)@ == old(out)@ + json_opt(*o),
{
    match o {
        Option::None => append_null(out),
        Option::Some(n) => append_dec(out, *n),
    }
}

/// Appends one listing row as a JSON object.
fn append_item(out: &mut Vec<u8>, it: &PathItem)
    ensures
        final(out)@ == old(out)@ + json_item(*it),
{
    append_item_open(out);
    append_quoted_type(out, it.path_type);
    append_name_key(out);
    append_quoted(out, &it.name);
    append_mtime_key(out);
    append_opt(out, &it.mtime);
    append_size_key(out);
    append_opt(out, &it.size);
    out.push(125);
    proof {
        assert(out@ =~= old(out)@ + json_item(*it));
    }
}

fn append_quoted_type(out: &mut Vec<u8>, t: PathType)
    ensures
        final(out)@ == old(out)@ + json_quote(kind_name(t)),
{
    out.push(34);
    append_kind_name(out, t);
    out.push(34);
    proof {
        assert(kind_name(t) =~= json_escape(kind_name(t))) by {
            lemma_ascii_escape(kind_name(t));
        }
        assert(out@ =~= old(out)@ + json_quote(kind_name(t)));
    }
}

/// Printable ASCII without quote or backslash passes through unescaped.
proof fn lemma_ascii_escape(s: Seq<u8>)
    requires
        forall|i: int| 0 <= i < s.len()
            ==> 32 <= #[trigger] s[i] && s[i] < 127 && s[i] != 34 && s[i] != 92,
    ensures
        json_escape(s) == s,
    decreases s.len(),
{
    if s.len() == 0 {
        assert(json_escape(s) =~= s);
    } else {
        lemma_ascii_escape(s.skip(1));
        assert(esc_byte(s[0]) =~= seq![s[0]]);
        assert(seq![s[0]] + s.skip(1) =~= s);
    }
}

/// Renders the whole page payload.
#[verifier::loop_isolation(false)]
pub fn render_json_index(breadcrumb: &Vec<u8>, items: &Vec<PathItem>, readonly: bool) -> (r:
    Vec<u8>)
    ensures
        r@ == json_index(breadcrumb@, items@, readonly),
{
    let mut out: Vec<u8> = Vec::new();
    append_breadcrumb_open(&mut out);
    append_quoted(&mut out, breadcrumb);
    append_paths_key(&mut out);
    let ghost head = out@;
    let mut i: usize = 0;
    proof {
        assert(items@.take(0) =~= Seq::<PathItem>::empty());
        assert(out@ =~= head + json_items(items@.take(0)));
    }
    while i < items.len()
        invariant
            i <= items@.len(),
            out@ == head + json_items(items@.take(i as int)),
        decreases items.len() - i,
    {
        if i > 0 {
            out.push(44);
        }
        append_item(&mut out, &items[i]);
        proof {
            lemma_json_items_snoc(items@.take(i as int), items@[i as int]);
            assert(items@.take(i as int).push(items@[i as int]) =~= items@.take(i + 1));
            assert(json_items(seq![items@[i as int]]) == json_item(items@[i as int]));
            if i == 0 {
                assert(out@ =~= head + json_items(items@.take(1)));
            } else {
                assert(out@ =~= head + (json_items(items@.take(i as int)) + seq![44u8]
                    + json_items(seq![items@[i as int]])));
            }
        }
        i = i + 1;
    }
    proof {
        assert(items@.take(items@.len() as int) =~= items@);
    }
    append_readonly_key(&mut out);
    if readonly {
        append_true(&mut out);
    } else {
        append_false(&mut out);
    }
    out.push(125);
    proof {
        assert(out@ =~= json_index(breadcrumb@, items@, readonly));
    }
    out
}

} // verus!
