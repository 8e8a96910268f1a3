//! Rendering of the index page: the HTML template carries the markers
//! `__STYLE__` and `__DATA__` once each; the first is replaced by the CSS
//! wrapped in a `style` element, the second by the page's JSON payload.

use vstd::prelude::*;
use crate::bytes::{tail_of, extend_bytes};
use crate::search::{occurs_at, occurs_at_exec};

verus! {

/// The first position at or after `from` where `n` occurs in `h`, or -1.
pub open spec fn find_from(h: Seq<u8>, n: Seq<u8>, from: int) -> int
    decreases h.len() - from,
{
    if from < 0 || n.len() == 0 || from + n.len() > h.len() {
        -1
    } else if occurs_at(h, n, from) {
        from
    } else {
        find_from(h, n, from + 1)
    }
}

/// `h` with the first occurrence of `n` replaced by `rep`; `h` itself
/// when `n` does not occur.
pub open spec fn replace_first_spec(h: Seq<u8>, n: Seq<u8>, rep: Seq<u8>) -> Seq<u8> {
    let i = find_from(h, n, 0);
    if i < 0 {
        h
    } else {
        h.take(i) + rep + h.skip(i + n.len())
    }
}

/// Replaces the first occurrence of `n` in `h` by `rep`.
#[verifier::loop_isolation(false)]
pub fn replace_first(h: &Vec<u8>, n: &Vec<u8>, rep: &Vec<u8>) -> (r: Vec<u8>)
    requires
        n@.len() >= 1,
    ensures
        r@ == replace_first_spec(h@, n@, rep@),
{
    if n.len() > h.len() {
        return tail_of(h, 0);
    }
    let last = h.len() - n.len();
    let mut i: usize = 0;
    while i <= last
        invariant
            i <= last + 1,
            find_from(h@, n@, 0) == find_from(h@, n@, i as int),
        decreases last - i + 1,
    {
        if occurs_at_exec(h, n, i) {
            proof {
                assert(find_from(h@, n@, i as int) == i as int);
            }
            let mut out = Vec::new();
            let head = vstd::slice::slice_subrange(h.as_slice(), 0, i);
            let headv = vstd::slice::slice_to_vec(head);
            proof {
                assert(headv@ =~= h@.take(i as int));
            }
            extend_bytes(&mut out, &headv);
            extend_bytes(&mut out, rep);
            let tail = tail_of(h, i + n.len());
            extend_bytes(&mut out, &tail);
            proof {
                assert(out@ =~= h@.take(i as int) + rep@ + h@.skip(i + n@.len()));
            }
            return out;
        }
        if i == last {
            proof {
                assert(find_from(h@, n@, last + 1) == -1);
            }
            return tail_of(h, 0);
        }
        i = i + 1;
    }
    proof {
        assert(find_from(h@, n@, i as int) == -1);
    }
    tail_of(h, 0)
}

/// `__STYLE__` as bytes.
pub open spec fn style_marker() -> Seq<u8> {
    seq![95u8, 95, 83, 84, 89, 76, 69, 95, 95]
}

/// `__DATA__` as bytes.
pub open spec fn data_marker() -> Seq<u8> {
    seq![95u8, 95, 68, 65, 84, 65, 95, 95]
}

/// `<style>\n` as bytes.
pub open spec fn style_open() -> Seq<u8> {
    seq![60u8, 115, 116, 121, 108, 101, 62, 10]
}

/// `</style>` as bytes.
pub open spec fn style_close() -> Seq<u8> {
    seq![60u8, 47, 115, 116, 121, 108, 101, 62]
}

/// The CSS wrapped in a `style` element.
pub open spec fn style_block(css: Seq<u8>) -> Seq<u8> {
    style_open() + css + style_close()
}

/// The rendered page: the style marker replaced by the wrapped CSS, then
/// the data marker replaced by the JSON payload. The template carries each
/// marker exactly once, so replacing the first occurrence is replacing all.
pub open spec fn rendered_page(template: Seq<u8>, css: Seq<u8>, data: Seq<u8>) -> Seq<u8> {
    replace_first_spec(
        replace_first_spec(template, style_marker(), style_block(css)),
        data_marker(),
        data,
    )
}

fn style_marker_vec() -> (r: Vec<u8>)
    ensures
        r@ == style_marker(),
{
    let mut v: Vec<u8> = Vec::new();
    v.push(95);
    v.push(95);
    v.push(83);
    v.push(84);
    v.push(89);
    v.push(76);
    v.push(69);
    v.push(95);
    v.push(95);
    proof {
        assert(v@ =~= style_marker());
    }
    v
}

fn data_marker_vec() -> (r: Vec<u8>)
    ensures
        r@ == data_marker(),
{
    let mut v: Vec<u8> = Vec::new();
    v.push(95);
    v.push(95);
    v.push(68);
    v.push(65);
    v.push(84);
    v.push(65);
    v.push(95);
    v.push(95);
    proof {
        assert(v@ =~= data_marker());
    }
    v
}

/// Interpolates the CSS and the JSON payload into the HTML template.
pub fn render_page(template: &Vec<u8>, css: &Vec<u8>, data: &Vec<u8>) -> (r: Vec<u8>)
    ensures
        r@ == rendered_page(template@, css@, data@),
{
    let mut style: Vec<u8> = Vec::new();
    style.push(60);
    style.push(115);
    style.push(116);
    style.push(121);
    style.push(108);
    style.push(101);
    style.push(62);
    style.push(10);
    extend_bytes(&mut style, css);
    style.push(60);
    style.push(47);
    style.push(115);
    style.push(116);
    style.push(121);
    style.push(108);
    style.push(101);
    style.push(62);
    proof {
        assert(style@ =~= style_block(css@));
    }
    let smarker = style_marker_vec();
    let dmarker = data_marker_vec();
    let step1 = replace_first(template, &smarker, &style);
    replace_first(&step1, &dmarker, data)
}

} // verus!
