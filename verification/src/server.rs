//! Per-request decisions: the auth gate, method routing, and the follow-up
//! steps that depend on what the filesystem reported. Each function here
//! decides; the surrounding program performs the I/O the decision names
//! and feeds the outcome back in.

use vstd::prelude::*;
use crate::args::Args;
use crate::auth::{auth_passes, auth_guard};
use crate::bytes::{SLASH, tail_of};
use crate::listing::{PathItem, item_le, normal_name, sort_items};
use crate::json::json_index;
use crate::render::rendered_page;
use crate::resolve::{
    Resolution, contained, decode_ok, is_descendant, resolve_path, resolved_path, utf8_check,
};
use vstd::utf8::valid_utf8;

verus! {

/// The request methods the server distinguishes.
pub enum Method {
    Get,
    Put,
    Delete,
    Other,
}

/// What a metadata lookup reported of an existing node.
pub enum MetaKind {
    Dir,
    File,
    Other,
}

/// A buffered response: status, whether to carry `WWW-Authenticate: Basic`,
/// and the body.
pub struct HttpResponse {
    pub status: u16,
    pub www_authenticate: bool,
    pub body: Vec<u8>,
}

/// The reason phrase served as the body of a bare status response.
pub open spec fn reason_of(status: u16) -> Seq<u8> {
    if status == 200 {
        seq![79u8, 75]
    } else if status == 401 {
        seq![85u8, 110, 97, 117, 116, 104, 111, 114, 105, 122, 101, 100]
    } else if status == 403 {
        seq![70u8, 111, 114, 98, 105, 100, 100, 101, 110]
    } else if status == 404 {
        seq![78u8, 111, 116, 32, 70, 111, 117, 110, 100]
    } else {
        seq![73u8, 110, 116, 101, 114, 110, 97, 108, 32, 83, 101, 114, 118, 101, 114, 32, 69, 114,
            114, 111, 114]
    }
}

/// A bare status response: the reason phrase as body, `WWW-Authenticate`
/// exactly on `401`.
pub open spec fn is_status_response(r: HttpResponse, status: u16) -> bool {
    &&& r.status == status
    &&& r.www_authenticate == (status == 401)
    &&& r.body@ == reason_of(status)
}

/// Builds the bare response for a status.
pub fn status_response(status: u16) -> (r: HttpResponse)
    requires
        status == 200 || status == 401 || status == 403 || status == 404 || status == 500,
    ensures
        is_status_response(r, status),
{
    let mut body: Vec<u8> = Vec::new();
    if status == 200 {
        body.push(79);
        body.push(75);
    } else if status == 401 {
        body.push(85);
        body.push(110);
        body.push(97);
        body.push(117);
        body.push(116);
        body.push(104);
        body.push(111);
        body.push(114);
        body.push(105);
        body.push(122);
        body.push(101);
        body.push(100);
    } else if status == 403 {
        body.push(70);
        body.push(111);
        body.push(114);
        body.push(98);
        body.push(105);
        body.push(100);
        body.push(100);
        body.push(101);
        body.push(110);
    } else if status == 404 {
        body.push(78);
        body.push(111);
        body.push(116);
        body.push(32);
        body.push(70);
        body.push(111);
        body.push(117);
        body.push(110);
        body.push(100);
    } else {
        body.push(73);
        body.push(110);
        body.push(116);
        body.push(101);
        body.push(114);
        body.push(110);
        body.push(97);
        body.push(108);
        body.push(32);
        body.push(83);
        body.push(101);
        body.push(114);
        body.push(118);
        body.push(101);
        body.push(114);
        body.push(32);
        body.push(69);
        body.push(114);
        body.push(114);
        body.push(111);
        body.push(114);
    }
    proof {
        assert(body@ =~= reason_of(status));
    }
    HttpResponse { status, www_authenticate: status == 401, body }
}

/// What the dispatcher decided for a request: a finished response, or the
/// path on which I/O is to continue.
pub enum RoutePlan {
    /// Respond as is.
    Done(HttpResponse),
    /// GET: stat this path and continue with [`InnerService::get_step`].
    Fetch(Vec<u8>),
    /// PUT: continue with [`upload_step`] on this path.
    Upload(Vec<u8>),
    /// DELETE: continue with [`delete_step`] on this path.
    Remove(Vec<u8>),
}

/// The service shared by all request handlers.
pub struct InnerService {
    pub args: Args,
}

impl InnerService {
    pub fn new(args: Args) -> (s: Self)
        ensures
            s.args == args,
    {
        Self { args }
    }

    /// The auth gate and method routing, up to the first filesystem
    /// access. Without a passing `Authorization` header nothing but `401`
    /// comes back; a path that does not stay under the root is answered
    /// `403` and reaches no I/O; a path that does not decode is answered
    /// `500`; `PUT` is refused with `403` on a readonly server; an unknown
    /// method is answered `404`. Every path handed on for I/O is a lexical
    /// descendant of the root.
    pub fn route(&self, method: &Method, uri_path: &Vec<u8>, auth_header: &Option<Vec<u8>>) -> (r:
        RoutePlan)
        requires
            self.args.wf(),
            uri_path@.len() >= 1,
            uri_path@[0] == SLASH,
        ensures
            ({
                let pass = auth_passes(self.args.auth.deep_view(), auth_header.deep_view());
                let dok = decode_ok(uri_path@);
                let cont = contained(self.args.path@, uri_path@);
                match r {
                    RoutePlan::Done(resp) => if !pass {
                        is_status_response(resp, 401)
                    } else {
                        match *method {
                            Method::Other => is_status_response(resp, 404),
                            Method::Get => (!dok && is_status_response(resp, 500)) || (dok && !cont
                                && is_status_response(resp, 403)),
                            Method::Put => (self.args.readonly && is_status_response(resp, 403))
                                || (!self.args.readonly && ((!dok && is_status_response(resp, 500))
                                || (dok && !cont && is_status_response(resp, 403)))),
                            Method::Delete => (!dok && is_status_response(resp, 500)) || (dok
                                && !cont && is_status_response(resp, 403)),
                        }
                    },
                    RoutePlan::Fetch(p) => pass && method is Get && dok && cont && p@
                        == resolved_path(self.args.path@, uri_path@) && is_descendant(
                        self.args.path@,
                        p@,
                    ),
                    RoutePlan::Upload(p) => pass && method is Put && !self.args.readonly && dok
                        && cont && p@ == resolved_path(self.args.path@, uri_path@)
                        && is_descendant(self.args.path@, p@),
                    RoutePlan::Remove(p) => pass && method is Delete && dok && cont && p@
                        == resolved_path(self.args.path@, uri_path@) && is_descendant(
                        self.args.path@,
                        p@,
                    ),
                }
            }),
    {
        if !auth_guard(&self.args.auth, auth_header) {
            return RoutePlan::Done(status_response(401));
        }
        match method {
            Method::Get => match resolve_path(&self.args.path, uri_path) {
                Resolution::Malformed => RoutePlan::Done(status_response(500)),
                Resolution::Outside => RoutePlan::Done(status_response(403)),
                Resolution::Within(p) => RoutePlan::Fetch(p),
            },
            Method::Put => {
                if self.args.readonly {
                    return RoutePlan::Done(status_response(403));
                }
                match resolve_path(&self.args.path, uri_path) {
                    Resolution::Malformed => RoutePlan::Done(status_response(500)),
                    Resolution::Outside => RoutePlan::Done(status_response(403)),
                    Resolution::Within(p) => RoutePlan::Upload(p),
                }
            },
            Method::Delete => match resolve_path(&self.args.path, uri_path) {
                Resolution::Malformed => RoutePlan::Done(status_response(500)),
                Resolution::Outside => RoutePlan::Done(status_response(403)),
                Resolution::Within(p) => RoutePlan::Remove(p),
            },
            Method::Other => RoutePlan::Done(status_response(404)),
        }
    }
}

/// The position of the last `/` in `p`, or -1.
pub open spec fn last_slash_idx(p: Seq<u8>) -> int
    decreases p.len(),
{
    if p.len() == 0 {
        -1
    } else if p[p.len() - 1] == SLASH {
        p.len() - 1
    } else {
        last_slash_idx(p.drop_last())
    }
}

/// The parent of an absolute path: everything before the last `/`, the
/// root directory when the last `/` is the first byte, nothing for `/`.
pub open spec fn parent_spec(p: Seq<u8>) -> Option<Seq<u8>> {
    if p.len() <= 1 {
        Option::None
    } else {
        let i = last_slash_idx(p);
        if i <= 0 {
            Option::Some(seq![SLASH])
        } else {
            Option::Some(p.take(i))
        }
    }
}

proof fn lemma_last_slash_bounds(p: Seq<u8>)
    ensures
        -1 <= last_slash_idx(p) < p.len(),
        p.len() > 0 && p[0] == SLASH ==> 0 <= last_slash_idx(p),
    decreases p.len(),
{
    if p.len() > 0 && p[p.len() - 1] != SLASH {
        lemma_last_slash_bounds(p.drop_last());
        if p[0] == SLASH {
            assert(p.drop_last()[0] == SLASH);
        }
    }
}

/// The parent directory of an absolute path.
#[verifier::loop_isolation(false)]
pub fn parent_of(p: &Vec<u8>) -> (r: Option<Vec<u8>>)
    requires
        p@.len() >= 1,
        p@[0] == SLASH,
    ensures
        (match r {
            Option::Some(v) => parent_spec(p@) == Some(v@),
            Option::None => parent_spec(p@) is None,
        }),
{
    if p.len() == 1 {
        return None;
    }
    let mut j: usize = p.len() - 1;
    proof {
        assert(p@.take(p@.len() as int) =~= p@);
    }
    while p[j] != SLASH
        invariant
            0 <= j < p@.len(),
            last_slash_idx(p@) == last_slash_idx(p@.take(j + 1)),
        decreases j,
    {
        proof {
            assert(p@.take(j + 1).len() == j + 1);
            assert(p@.take(j + 1)[j as int] == p@[j as int]);
            assert(p@.take(j + 1).drop_last() =~= p@.take(j as int));
            if j == 0 {
                assert(p@[0] == SLASH);
                assert(false);
            }
        }
        j = j - 1;
    }
    proof {
        assert(p@.take(j + 1)[j as int] == p@[j as int]);
        assert(last_slash_idx(p@.take(j + 1)) == j);
    }
    if j == 0 {
        let mut v: Vec<u8> = Vec::new();
        v.push(SLASH);
        proof {
            assert(v@ =~= seq![SLASH]);
        }
        Some(v)
    } else {
        let head = vstd::slice::slice_subrange(p.as_slice(), 0, j);
        let v = vstd::slice::slice_to_vec(head);
        proof {
            assert(v@ =~= p@.take(j as int));
        }
        Some(v)
    }
}

/// The breadcrumb shown on the index page: the listed path, relative to
/// the root's parent (or kept whole when the root is `/`), empty when its
/// bytes are not UTF-8.
pub open spec fn breadcrumb_of(root: Seq<u8>, p: Seq<u8>) -> Seq<u8> {
    match parent_spec(root) {
        Option::None => normal_name(p),
        Option::Some(par) => if par.len() == 1 {
            normal_name(p.skip(1))
        } else {
            normal_name(p.skip(par.len() as int + 1))
        },
    }
}

impl InnerService {
    /// Renders the breadcrumb for a path under the root.
    pub fn get_breadcrumb(&self, path: &Vec<u8>) -> (r: Vec<u8>)
        requires
            self.args.wf(),
            is_descendant(self.args.path@, path@),
        ensures
            r@ == breadcrumb_of(self.args.path@, path@),
    {
        proof {
            lemma_last_slash_bounds(self.args.path@);
        }
        match parent_of(&self.args.path) {
            Option::None => crate::listing::normalize_path(path),
            Option::Some(par) => {
                let path_len = path.len();
                proof {
                    assert(par@.len() < self.args.path@.len());
                    assert(path@.len() >= self.args.path@.len());
                }
                let from = if par.len() == 1 {
                    1
                } else {
                    par.len() + 1
                };
                let rel = tail_of(path, from);
                crate::listing::normalize_path(&rel)
            },
        }
    }

    /// Builds the index page for a listed path: the rows sorted by the
    /// listing order, serialized as the page's JSON payload with the
    /// breadcrumb and the readonly flag, and interpolated into the
    /// template together with the stylesheet.
    pub fn send_index(
        &self,
        path: &Vec<u8>,
        items: &mut Vec<PathItem>,
        template: &Vec<u8>,
        css: &Vec<u8>,
    ) -> (r: HttpResponse)
        requires
            self.args.wf(),
            is_descendant(self.args.path@, path@),
        ensures
            r.status == 200,
            !r.www_authenticate,
            final(items)@.to_multiset() == old(items)@.to_multiset(),
            forall|i: int, j: int| 0 <= i < j < final(items)@.len()
                ==> item_le(final(items)@[i], final(items)@[j]),
            r.body@ == rendered_page(
                template@,
                css@,
                json_index(
                    breadcrumb_of(self.args.path@, path@),
                    final(items)@,
                    self.args.readonly,
                ),
            ),
    {
        sort_items(items);
        let breadcrumb = self.get_breadcrumb(path);
        let data = crate::json::render_json_index(&breadcrumb, items, self.args.readonly);
        let body = crate::render::render_page(template, css, &data);
        HttpResponse { status: 200, www_authenticate: false, body }
    }
}

/// The archive entry name for a file under the zipped directory: its path
/// relative to that directory, or nothing (the file is skipped) when the
/// file does not sit strictly below the directory or the relative path is
/// not UTF-8.
pub open spec fn zip_entry_name_spec(dir: Seq<u8>, file: Seq<u8>) -> Option<Seq<u8>> {
    if is_descendant(dir, file) && file.len() > dir.len() {
        let rel = if dir.len() == 1 {
            file.skip(1)
        } else {
            file.skip(dir.len() as int + 1)
        };
        if valid_utf8(rel) {
            Option::Some(rel)
        } else {
            Option::None
        }
    } else {
        Option::None
    }
}

/// Computes the archive entry name for a file found under the zipped
/// directory.
pub fn zip_entry_name(dir: &Vec<u8>, file: &Vec<u8>) -> (r: Option<Vec<u8>>)
    requires
        dir@.len() >= 1,
    ensures
        (match r {
            Option::Some(v) => zip_entry_name_spec(dir@, file@) == Some(v@),
            Option::None => zip_entry_name_spec(dir@, file@) is None,
        }),
{
    if file.len() <= dir.len() {
        return None;
    }
    let prefix = vstd::slice::slice_subrange(file.as_slice(), 0, dir.len());
    let prefix_v = vstd::slice::slice_to_vec(prefix);
    proof {
        assert(prefix_v@ =~= file@.take(dir@.len() as int));
    }
    if !crate::bytes::bytes_eq(&prefix_v, dir) {
        return None;
    }
    if dir.len() > 1 && file[dir.len()] != SLASH {
        return None;
    }
    let from = if dir.len() == 1 {
        1
    } else {
        dir.len() + 1
    };
    if from > file.len() {
        return None;
    }
    let rel = tail_of(file, from);
    if utf8_check(rel.as_slice()) {
        Some(rel)
    } else {
        None
    }
}

/// `zip` as bytes.
pub open spec fn zip_query() -> Seq<u8> {
    seq![122u8, 105, 112]
}

/// `q=` as bytes.
pub open spec fn query_prefix() -> Seq<u8> {
    seq![113u8, 61]
}

/// What a GET continues with once the target was stat'ed.
pub enum GetPlan {
    /// Stream the directory as a ZIP archive.
    Zip,
    /// Walk the directory and list entries matching this query.
    Search(Vec<u8>),
    /// List the directory (false: render the empty page for a missing one).
    List(bool),
    /// Stream the file's bytes.
    SendFile,
    /// Respond as is.
    Done(HttpResponse),
}

/// Decides a GET once the metadata lookup came back: a directory serves
/// the archive on the query `zip`, a search on `q=...`, and the listing
/// otherwise; anything else that exists is sent as a file; a missing path
/// is a `404`, except that a trailing-slash request shows an empty listing.
pub fn get_step(query: &Vec<u8>, trailing_slash: bool, meta: &Option<MetaKind>) -> (r: GetPlan)
    ensures
        ({
            match *meta {
                Option::Some(MetaKind::Dir) => if query@ == zip_query() {
                    r is Zip
                } else if query@.len() >= 2 && query@.take(2) == query_prefix() {
                    r matches GetPlan::Search(q) && q@ == query@.skip(2)
                } else {
                    r matches GetPlan::List(ex) && ex == true
                },
                Option::Some(MetaKind::File) => r is SendFile,
                Option::Some(MetaKind::Other) => r is SendFile,
                Option::None => if trailing_slash {
                    r matches GetPlan::List(ex) && ex == false
                } else {
                    r matches GetPlan::Done(resp) && is_status_response(resp, 404)
                },
            }
        }),
{
    match meta {
        Option::Some(MetaKind::Dir) => {
            if query.len() == 3 && query[0] == 122 && query[1] == 105 && query[2] == 112 {
                proof {
                    assert(query@ =~= zip_query());
                }
                return GetPlan::Zip;
            }
            proof {
                if query@.len() == 3 && query@ == zip_query() {
                    assert(query@[0] == 122 && query@[1] == 105 && query@[2] == 112);
                }
            }
            if query.len() >= 2 && query[0] == 113 && query[1] == 61 {
                proof {
                    assert(query@.take(2) =~= query_prefix());
                }
                return GetPlan::Search(tail_of(query, 2));
            }
            proof {
                if query@.len() >= 2 && query@.take(2) == query_prefix() {
                    assert(query@[0] == 113 && query@[1] == 61);
                }
            }
            GetPlan::List(true)
        },
        Option::Some(MetaKind::File) => GetPlan::SendFile,
        Option::Some(MetaKind::Other) => GetPlan::SendFile,
        Option::None => {
            if trailing_slash {
                GetPlan::List(false)
            } else {
                GetPlan::Done(status_response(404))
            }
        },
    }
}

/// What a PUT continues with once the parent directory was stat'ed.
pub enum UploadPlan {
    /// Create the parent chain, then create and fill the file.
    CreateDirs,
    /// Create and fill the file.
    WriteFile,
    /// Respond as is.
    Done(HttpResponse),
}

/// Decides a PUT from the parent directory's metadata: an existing
/// directory is written into, a missing parent is created first, and a
/// parent that exists but is no directory is refused with `403`.
pub fn upload_step(parent_meta: &Option<MetaKind>) -> (r: UploadPlan)
    ensures
        ({
            match *parent_meta {
                Option::Some(MetaKind::Dir) => r is WriteFile,
                Option::Some(MetaKind::File) => r matches UploadPlan::Done(resp)
                    && is_status_response(resp, 403),
                Option::Some(MetaKind::Other) => r matches UploadPlan::Done(resp)
                    && is_status_response(resp, 403),
                Option::None => r is CreateDirs,
            }
        }),
{
    match parent_meta {
        Option::Some(MetaKind::Dir) => UploadPlan::WriteFile,
        Option::Some(MetaKind::File) => UploadPlan::Done(status_response(403)),
        Option::Some(MetaKind::Other) => UploadPlan::Done(status_response(403)),
        Option::None => UploadPlan::CreateDirs,
    }
}

/// What a DELETE continues with once the target was stat'ed.
pub enum DeletePlan {
    /// Unlink the file.
    RemoveFile,
    /// Remove the directory tree recursively.
    RemoveTree,
    /// Respond as is.
    Done(HttpResponse),
}

/// Decides a DELETE from the target's metadata: a regular file is
/// unlinked, anything else that exists is removed recursively, and a
/// missing target is a `500` (its stat failed). The readonly flag does
/// not guard DELETE.
pub fn delete_step(meta: &Option<MetaKind>) -> (r: DeletePlan)
    ensures
        ({
            match *meta {
                Option::Some(MetaKind::File) => r is RemoveFile,
                Option::Some(MetaKind::Dir) => r is RemoveTree,
                Option::Some(MetaKind::Other) => r is RemoveTree,
                Option::None => r matches DeletePlan::Done(resp) && is_status_response(resp, 500),
            }
        }),
{
    match meta {
        Option::Some(MetaKind::File) => DeletePlan::RemoveFile,
        Option::Some(MetaKind::Dir) => DeletePlan::RemoveTree,
        Option::Some(MetaKind::Other) => DeletePlan::RemoveTree,
        Option::None => DeletePlan::Done(status_response(500)),
    }
}

} // verus!
