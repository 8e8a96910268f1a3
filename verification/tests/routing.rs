use duf::args::Args;
use duf::server::{
    DeletePlan, GetPlan, InnerService, MetaKind, Method, RoutePlan, UploadPlan, delete_step,
    get_step, parent_of, status_response, upload_step, zip_entry_name,
};

fn service(auth: Option<&str>, readonly: bool) -> InnerService {
    InnerService::new(Args {
        address: String::from("127.0.0.1"),
        port: 5000,
        path: b"/srv".to_vec(),
        readonly,
        auth: auth.map(|a| a.as_bytes().to_vec()),
    })
}

fn fetch_path(plan: RoutePlan) -> Vec<u8> {
    match plan {
        RoutePlan::Fetch(p) => p,
        _ => panic!("expected a fetch plan"),
    }
}

#[test]
fn get_resolves_under_root() {
    let svc = service(None, false);
    let plan = svc.route(&Method::Get, &b"/foo/bar.txt".to_vec(), &None);
    assert_eq!(fetch_path(plan), b"/srv/foo/bar.txt".to_vec());
}

#[test]
fn get_decodes_percent_sequences() {
    let svc = service(None, false);
    let plan = svc.route(&Method::Get, &b"/%41%20b".to_vec(), &None);
    assert_eq!(fetch_path(plan), b"/srv/A b".to_vec());
}

#[test]
fn traversal_is_forbidden() {
    // `/%2E%2E/etc/passwd` decodes to `/../etc/passwd` and must not escape
    let svc = service(None, false);
    match svc.route(&Method::Get, &b"/%2E%2E/etc/passwd".to_vec(), &None) {
        RoutePlan::Done(resp) => {
            assert_eq!(resp.status, 403);
            assert_eq!(resp.body, b"Forbidden".to_vec());
            assert!(!resp.www_authenticate);
        }
        _ => panic!("traversal must not reach the filesystem"),
    }
}

#[test]
fn absolute_injection_is_forbidden() {
    // `/%2Fetc/passwd` decodes to `//etc/passwd`: an absolute path outside the root
    let svc = service(None, false);
    match svc.route(&Method::Get, &b"/%2Fetc/passwd".to_vec(), &None) {
        RoutePlan::Done(resp) => assert_eq!(resp.status, 403),
        _ => panic!("absolute path outside the root must be rejected"),
    }
}

#[test]
fn absolute_path_under_root_is_allowed() {
    let svc = service(None, false);
    let plan = svc.route(&Method::Get, &b"/%2Fsrv%2Fdata".to_vec(), &None);
    assert_eq!(fetch_path(plan), b"/srv/data".to_vec());
}

#[test]
fn dotdot_inside_root_resolves() {
    let svc = service(None, false);
    let plan = svc.route(&Method::Get, &b"/a/../b.txt".to_vec(), &None);
    assert_eq!(fetch_path(plan), b"/srv/b.txt".to_vec());
}

#[test]
fn invalid_percent_is_an_error() {
    let svc = service(None, false);
    match svc.route(&Method::Get, &b"/%zz".to_vec(), &None) {
        RoutePlan::Done(resp) => {
            assert_eq!(resp.status, 500);
            assert_eq!(resp.body, b"Internal Server Error".to_vec());
        }
        _ => panic!("malformed escape must not resolve"),
    }
}

#[test]
fn non_utf8_decode_is_an_error() {
    let svc = service(None, false);
    match svc.route(&Method::Get, &b"/%FF".to_vec(), &None) {
        RoutePlan::Done(resp) => assert_eq!(resp.status, 500),
        _ => panic!("non-UTF-8 path must not resolve"),
    }
}

#[test]
fn unknown_method_is_not_found() {
    let svc = service(None, false);
    match svc.route(&Method::Other, &b"/".to_vec(), &None) {
        RoutePlan::Done(resp) => {
            assert_eq!(resp.status, 404);
            assert_eq!(resp.body, b"Not Found".to_vec());
        }
        _ => panic!("unknown methods are answered directly"),
    }
}

#[test]
fn put_readonly_is_forbidden() {
    let svc = service(None, true);
    match svc.route(&Method::Put, &b"/new.txt".to_vec(), &None) {
        RoutePlan::Done(resp) => assert_eq!(resp.status, 403),
        _ => panic!("readonly server must refuse PUT"),
    }
}

#[test]
fn put_plans_upload_with_parent_creation() {
    let svc = service(None, false);
    let path = match svc.route(&Method::Put, &b"/new/deep/file.bin".to_vec(), &None) {
        RoutePlan::Upload(p) => p,
        _ => panic!("PUT on a writable server continues with an upload"),
    };
    assert_eq!(path, b"/srv/new/deep/file.bin".to_vec());
    let parent = parent_of(&path).expect("an upload path has a parent");
    assert_eq!(parent, b"/srv/new/deep".to_vec());
    // `/srv/new/deep` does not exist: its chain is created first
    assert!(matches!(upload_step(&None), UploadPlan::CreateDirs));
    assert!(matches!(upload_step(&Some(MetaKind::Dir)), UploadPlan::WriteFile));
    match upload_step(&Some(MetaKind::File)) {
        UploadPlan::Done(resp) => assert_eq!(resp.status, 403),
        _ => panic!("a non-directory parent is refused"),
    }
}

#[test]
fn parent_of_walks_up_to_the_root_dir() {
    assert_eq!(parent_of(&b"/a".to_vec()), Some(b"/".to_vec()));
    assert_eq!(parent_of(&b"/a/b/c".to_vec()), Some(b"/a/b".to_vec()));
    assert_eq!(parent_of(&b"/".to_vec()), None);
}

#[test]
fn delete_ignores_the_readonly_flag() {
    // DELETE is not gated on readonly, unlike PUT
    let svc = service(None, true);
    match svc.route(&Method::Delete, &b"/somedir".to_vec(), &None) {
        RoutePlan::Remove(p) => assert_eq!(p, b"/srv/somedir".to_vec()),
        _ => panic!("DELETE proceeds even on a readonly server"),
    }
    assert!(matches!(delete_step(&Some(MetaKind::Dir)), DeletePlan::RemoveTree));
    assert!(matches!(delete_step(&Some(MetaKind::File)), DeletePlan::RemoveFile));
}

#[test]
fn delete_missing_target_is_an_error() {
    match delete_step(&None) {
        DeletePlan::Done(resp) => assert_eq!(resp.status, 500),
        _ => panic!("a failing stat makes DELETE fail"),
    }
}

#[test]
fn get_step_routes_directory_queries() {
    assert!(matches!(get_step(&b"zip".to_vec(), false, &Some(MetaKind::Dir)), GetPlan::Zip));
    match get_step(&b"q=README".to_vec(), false, &Some(MetaKind::Dir)) {
        GetPlan::Search(q) => assert_eq!(q, b"README".to_vec()),
        _ => panic!("q= starts a search"),
    }
    assert!(matches!(get_step(&Vec::new(), false, &Some(MetaKind::Dir)), GetPlan::List(true)));
    assert!(matches!(get_step(&b"zipx".to_vec(), false, &Some(MetaKind::Dir)), GetPlan::List(true)));
    assert!(matches!(get_step(&Vec::new(), false, &Some(MetaKind::File)), GetPlan::SendFile));
}

#[test]
fn get_step_on_missing_paths() {
    // trailing slash: an empty listing page; otherwise: 404
    assert!(matches!(get_step(&Vec::new(), true, &None), GetPlan::List(false)));
    match get_step(&Vec::new(), false, &None) {
        GetPlan::Done(resp) => {
            assert_eq!(resp.status, 404);
            assert_eq!(resp.body, b"Not Found".to_vec());
        }
        _ => panic!("a missing plain path is not found"),
    }
}

#[test]
fn zip_entry_names_are_relative() {
    assert_eq!(
        zip_entry_name(&b"/srv/somedir".to_vec(), &b"/srv/somedir/sub/b.txt".to_vec()),
        Some(b"sub/b.txt".to_vec())
    );
    assert_eq!(
        zip_entry_name(&b"/srv/somedir".to_vec(), &b"/srv/somedir/a.txt".to_vec()),
        Some(b"a.txt".to_vec())
    );
    assert_eq!(zip_entry_name(&b"/srv/somedir".to_vec(), &b"/srv/other/x".to_vec()), None);
    assert_eq!(zip_entry_name(&b"/".to_vec(), &b"/a.txt".to_vec()), Some(b"a.txt".to_vec()));
    assert_eq!(
        zip_entry_name(&b"/srv/somedir".to_vec(), &b"/srv/somedir/\xFF".to_vec()),
        None
    );
}

#[test]
fn status_responses_carry_reason_bodies() {
    let ok = status_response(200);
    assert_eq!(ok.status, 200);
    assert_eq!(ok.body, b"OK".to_vec());
    assert!(!ok.www_authenticate);
    let unauthorized = status_response(401);
    assert_eq!(unauthorized.body, b"Unauthorized".to_vec());
    assert!(unauthorized.www_authenticate);
    let err = status_response(500);
    assert_eq!(err.body, b"Internal Server Error".to_vec());
}
