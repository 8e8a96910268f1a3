use duf::args::{Args, root_in_normal_form};
use duf::auth::auth_guard;
use duf::json::render_json_index;
use duf::listing::{PathItem, PathType, make_path_item, normalize_path, sort_items};
use duf::render::render_page;
use duf::search::name_matches;
use duf::server::{InnerService, Method, RoutePlan};

fn service_with_auth() -> InnerService {
    InnerService::new(Args {
        address: String::from("127.0.0.1"),
        port: 5000,
        path: b"/srv".to_vec(),
        readonly: false,
        auth: Some(b"alice:secret".to_vec()),
    })
}

#[test]
fn correct_basic_header_passes() {
    // `YWxpY2U6c2VjcmV0` is the base64 of `alice:secret`
    let svc = service_with_auth();
    let header = Some(b"Basic YWxpY2U6c2VjcmV0".to_vec());
    match svc.route(&Method::Get, &b"/foo/bar.txt".to_vec(), &header) {
        RoutePlan::Fetch(p) => assert_eq!(p, b"/srv/foo/bar.txt".to_vec()),
        _ => panic!("a correct credential is accepted"),
    }
}

#[test]
fn missing_header_is_unauthorized() {
    let svc = service_with_auth();
    match svc.route(&Method::Get, &b"/foo".to_vec(), &None) {
        RoutePlan::Done(resp) => {
            assert_eq!(resp.status, 401);
            assert!(resp.www_authenticate);
            assert_eq!(resp.body, b"Unauthorized".to_vec());
        }
        _ => panic!("without a credential the request is denied"),
    }
}

#[test]
fn wrong_credential_is_unauthorized() {
    // `Ym9iOnBhc3M=` is the base64 of `bob:pass`
    let svc = service_with_auth();
    let header = Some(b"Basic Ym9iOnBhc3M=".to_vec());
    match svc.route(&Method::Put, &b"/x".to_vec(), &header) {
        RoutePlan::Done(resp) => assert_eq!(resp.status, 401),
        _ => panic!("a wrong credential is denied"),
    }
}

#[test]
fn malformed_base64_is_unauthorized() {
    let svc = service_with_auth();
    let header = Some(b"Basic !!!".to_vec());
    match svc.route(&Method::Get, &b"/".to_vec(), &header) {
        RoutePlan::Done(resp) => assert_eq!(resp.status, 401),
        _ => panic!("undecodable base64 is denied"),
    }
}

#[test]
fn prefix_is_case_sensitive() {
    let svc = service_with_auth();
    let header = Some(b"basic YWxpY2U6c2VjcmV0".to_vec());
    match svc.route(&Method::Delete, &b"/x".to_vec(), &header) {
        RoutePlan::Done(resp) => assert_eq!(resp.status, 401),
        _ => panic!("the prefix must read `Basic ` exactly"),
    }
}

#[test]
fn auth_guard_without_credential_passes_everything() {
    assert!(auth_guard(&None, &None));
    assert!(auth_guard(&None, &Some(b"anything".to_vec())));
}

#[test]
fn search_matching_is_case_insensitive() {
    assert!(name_matches(&b"README.md".to_vec(), &b"readme".to_vec()));
    assert!(name_matches(&b"readme".to_vec(), &b"EADM".to_vec()));
    assert!(name_matches(&b"notes.txt".to_vec(), &Vec::new()));
    assert!(!name_matches(&b"notes.txt".to_vec(), &b"readme".to_vec()));
}

#[test]
fn listing_sorts_by_kind_name_mtime_size() {
    let mut items = vec![
        make_path_item(&b"b.txt".to_vec(), false, false, Some(7), 10),
        make_path_item(&b"sub".to_vec(), true, false, Some(3), 0),
        make_path_item(&b"a.txt".to_vec(), false, false, Some(9), 2),
        make_path_item(&b"link".to_vec(), true, true, Some(1), 0),
        make_path_item(&b"a.txt".to_vec(), false, false, Some(2), 4),
    ];
    sort_items(&mut items);
    let names: Vec<Vec<u8>> = items.iter().map(|it| it.name.clone()).collect();
    assert_eq!(
        names,
        vec![
            b"sub".to_vec(),
            b"link".to_vec(),
            b"a.txt".to_vec(),
            b"a.txt".to_vec(),
            b"b.txt".to_vec(),
        ]
    );
    // the two equal names are ordered by mtime
    assert_eq!(items[2].mtime, Some(2));
    assert_eq!(items[3].mtime, Some(9));
    assert_eq!(items[0].path_type, PathType::Dir);
    assert_eq!(items[1].path_type, PathType::SymlinkDir);
    assert_eq!(items[0].size, None);
    assert_eq!(items[4].size, Some(10));
}

#[test]
fn path_items_carry_metadata() {
    let it = make_path_item(&b"sub/b.txt".to_vec(), false, true, None, 1);
    assert_eq!(it.path_type, PathType::SymlinkFile);
    assert_eq!(it.name, b"sub/b.txt".to_vec());
    assert_eq!(it.mtime, None);
    assert_eq!(it.size, Some(1));
}

#[test]
fn normalize_path_keeps_utf8_and_drops_the_rest() {
    assert_eq!(normalize_path(&b"sub/b.txt".to_vec()), b"sub/b.txt".to_vec());
    assert_eq!(normalize_path(&b"\xFF\xFE".to_vec()), Vec::<u8>::new());
}

#[test]
fn json_payload_is_exact() {
    let items = vec![PathItem {
        path_type: PathType::Dir,
        name: b"docs".to_vec(),
        mtime: Some(5),
        size: None,
    }];
    let out = render_json_index(&b"srv".to_vec(), &items, false);
    assert_eq!(
        String::from_utf8(out).unwrap(),
        r#"{"breadcrumb":"srv","paths":[{"path_type":"Dir","name":"docs","mtime":5,"size":null}],"readonly":false}"#
    );
}

#[test]
fn json_escapes_strings_and_prints_numbers() {
    let items = vec![
        PathItem {
            path_type: PathType::File,
            name: b"a\"b\\c\nd\x01".to_vec(),
            mtime: Some(1234567890123),
            size: Some(0),
        },
        PathItem {
            path_type: PathType::SymlinkFile,
            name: b"e".to_vec(),
            mtime: None,
            size: Some(18446744073709551615),
        },
    ];
    let out = render_json_index(&Vec::new(), &items, true);
    assert_eq!(
        String::from_utf8(out).unwrap(),
        "{\"breadcrumb\":\"\",\"paths\":[{\"path_type\":\"File\",\"name\":\"a\\\"b\\\\c\\nd\\u0001\",\"mtime\":1234567890123,\"size\":0},{\"path_type\":\"SymlinkFile\",\"name\":\"e\",\"mtime\":null,\"size\":18446744073709551615}],\"readonly\":true}"
    );
}

#[test]
fn template_markers_are_replaced() {
    let template = b"<html>__STYLE__<body>__DATA__</body>".to_vec();
    let out = render_page(&template, &b"p{}".to_vec(), &b"{\"x\":1}".to_vec());
    assert_eq!(
        String::from_utf8(out).unwrap(),
        "<html><style>\np{}</style><body>{\"x\":1}</body>"
    );
}

#[test]
fn index_page_sorts_and_injects() {
    let svc = InnerService::new(Args {
        address: String::from("127.0.0.1"),
        port: 5000,
        path: b"/srv".to_vec(),
        readonly: true,
        auth: None,
    });
    let mut items = vec![
        make_path_item(&b"z.txt".to_vec(), false, false, None, 1),
        make_path_item(&b"a".to_vec(), true, false, None, 0),
    ];
    let template = b"[__STYLE__|__DATA__]".to_vec();
    let resp = svc.send_index(&b"/srv/docs".to_vec(), &mut items, &template, &b"c".to_vec());
    assert_eq!(resp.status, 200);
    assert!(!resp.www_authenticate);
    assert_eq!(
        String::from_utf8(resp.body).unwrap(),
        "[<style>\nc</style>|{\"breadcrumb\":\"srv/docs\",\"paths\":[{\"path_type\":\"Dir\",\"name\":\"a\",\"mtime\":null,\"size\":null},{\"path_type\":\"File\",\"name\":\"z.txt\",\"mtime\":null,\"size\":1}],\"readonly\":true}]"
    );
}

#[test]
fn breadcrumb_is_relative_to_the_roots_parent() {
    let svc = InnerService::new(Args {
        address: String::from("127.0.0.1"),
        port: 5000,
        path: b"/srv".to_vec(),
        readonly: false,
        auth: None,
    });
    assert_eq!(svc.get_breadcrumb(&b"/srv/foo/bar".to_vec()), b"srv/foo/bar".to_vec());
    assert_eq!(svc.get_breadcrumb(&b"/srv".to_vec()), b"srv".to_vec());
    let rooted = InnerService::new(Args {
        address: String::from("127.0.0.1"),
        port: 5000,
        path: b"/".to_vec(),
        readonly: false,
        auth: None,
    });
    assert_eq!(rooted.get_breadcrumb(&b"/x".to_vec()), b"/x".to_vec());
}

#[test]
fn root_normal_form_check() {
    assert!(root_in_normal_form(&b"/srv".to_vec()));
    assert!(root_in_normal_form(&b"/".to_vec()));
    assert!(root_in_normal_form(&b"/a/b".to_vec()));
    assert!(!root_in_normal_form(&b"srv".to_vec()));
    assert!(!root_in_normal_form(&b"/srv/".to_vec()));
    assert!(!root_in_normal_form(&b"/a//b".to_vec()));
    assert!(!root_in_normal_form(&b"/a/./b".to_vec()));
    assert!(!root_in_normal_form(&Vec::new()));
}
