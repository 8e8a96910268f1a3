use duf::args::Args;
use duf::listing::make_path_item;
use duf::search::name_matches;
use duf::server::{GetPlan, InnerService, MetaKind, Method, RoutePlan, get_step};

fn service() -> InnerService {
    InnerService::new(Args {
        address: String::from("127.0.0.1"),
        port: 5000,
        path: b"/srv".to_vec(),
        readonly: false,
        auth: None,
    })
}

#[test]
fn root_uri_lists_the_root() {
    let svc = service();
    match svc.route(&Method::Get, &b"/".to_vec(), &None) {
        RoutePlan::Fetch(p) => assert_eq!(p, b"/srv".to_vec()),
        _ => panic!("the root URI resolves to the root"),
    }
    assert!(matches!(get_step(&Vec::new(), true, &Some(MetaKind::Dir)), GetPlan::List(true)));
}

#[test]
fn missing_directory_renders_an_empty_listing() {
    // a trailing-slash request on a deleted directory still gets a page
    let svc = service();
    assert!(matches!(get_step(&Vec::new(), true, &None), GetPlan::List(false)));
    let mut items = Vec::new();
    let resp = svc.send_index(
        &b"/srv/gone".to_vec(),
        &mut items,
        &b"__STYLE__#__DATA__".to_vec(),
        &Vec::new(),
    );
    assert_eq!(resp.status, 200);
    assert_eq!(
        String::from_utf8(resp.body).unwrap(),
        "<style>\n</style>#{\"breadcrumb\":\"srv/gone\",\"paths\":[],\"readonly\":false}"
    );
}

#[test]
fn query_listing_holds_every_match_sorted() {
    // a search under `/srv/somedir` for `README`, case-insensitively
    let walked: Vec<(&[u8], &[u8])> = vec![
        (b"README.md", b"README.md"),
        (b"notes.txt", b"notes.txt"),
        (b"readme.txt", b"sub/readme.txt"),
    ];
    let query = b"README".to_vec();
    let mut items = Vec::new();
    for (basename, rel) in walked {
        if !name_matches(&basename.to_vec(), &query) {
            continue;
        }
        items.push(make_path_item(&rel.to_vec(), false, false, None, 1));
    }
    assert_eq!(items.len(), 2);
    let svc = service();
    let resp = svc.send_index(
        &b"/srv/somedir".to_vec(),
        &mut items,
        &b"__STYLE__#__DATA__".to_vec(),
        &Vec::new(),
    );
    assert_eq!(
        String::from_utf8(resp.body).unwrap(),
        "<style>\n</style>#{\"breadcrumb\":\"srv/somedir\",\"paths\":[\
{\"path_type\":\"File\",\"name\":\"README.md\",\"mtime\":null,\"size\":1},\
{\"path_type\":\"File\",\"name\":\"sub/readme.txt\",\"mtime\":null,\"size\":1}\
],\"readonly\":false}"
    );
}

#[test]
fn encoded_dot_segments_do_not_escape() {
    // every shape of an encoded `..` is caught by the same normalization
    let svc = service();
    for uri in [
        &b"/..%2F..%2Fetc%2Fpasswd"[..],
        b"/%2e%2e/%2e%2e/etc/passwd",
        b"/a/%2E%2E/%2E%2E/b",
    ] {
        match svc.route(&Method::Get, &uri.to_vec(), &None) {
            RoutePlan::Done(resp) => assert_eq!(resp.status, 403),
            _ => panic!("an encoded traversal must be refused"),
        }
    }
}
