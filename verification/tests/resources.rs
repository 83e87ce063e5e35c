use codex_mcp_server::resources::{
    decode_project_id, encode_project_id, fnv1a64, normalize_cwd, parse_resource_uri,
    project_uri, thread_uri, ResourceKind, PROJECT_SCHEME, THREAD_SCHEME,
};

#[test]
fn encode_project_id_is_short_and_stable() {
    let cwd = "/Volumes/Data/work/src/github.com/xinjiyuan97/codex-skill";
    let id = encode_project_id(cwd);
    assert_eq!(id.len(), 8);
    assert_eq!(id, encode_project_id(cwd));
    assert_eq!(id, encode_project_id(&format!("{cwd}/")));
}

#[test]
fn decode_project_id_supports_legacy_long_ids() {
    let cwd = "/tmp/example-project";
    let legacy = base64::Engine::encode(
        &base64::engine::general_purpose::URL_SAFE_NO_PAD,
        cwd.as_bytes(),
    );
    assert_eq!(decode_project_id(&legacy).as_deref(), Some(cwd));
    assert_eq!(decode_project_id("abcd1234"), None);
}

#[test]
fn project_id_is_base64_of_the_first_six_hash_bytes() {
    let cwd = "/tmp/example-project";
    let hash = fnv1a64(cwd.as_bytes());
    let expected = base64::Engine::encode(
        &base64::engine::general_purpose::URL_SAFE_NO_PAD,
        &hash.to_le_bytes()[..6],
    );
    assert_eq!(encode_project_id(cwd), expected);
    assert!(encode_project_id(cwd)
        .chars()
        .all(|c| c.is_ascii_alphanumeric() || c == '-' || c == '_'));
}

#[test]
fn project_id_ignores_surrounding_whitespace_and_trailing_slashes() {
    let id = encode_project_id("/srv/app");
    assert_eq!(encode_project_id("  /srv/app  "), id);
    assert_eq!(encode_project_id("/srv/app///"), id);
    assert_eq!(encode_project_id("\t/srv/app/\n"), id);
    assert_ne!(encode_project_id("/srv/app2"), id);
}

#[test]
fn short_project_ids_are_never_decoded() {
    let id = encode_project_id("/srv/app");
    assert_eq!(decode_project_id(&id), None);
}

#[test]
fn decode_project_id_rejects_non_paths_and_garbage() {
    let encode = |s: &str| {
        base64::Engine::encode(&base64::engine::general_purpose::URL_SAFE_NO_PAD, s.as_bytes())
    };
    assert_eq!(decode_project_id(&encode("relative/project/dir")), None);
    assert_eq!(decode_project_id(&encode("./relative/project")).as_deref(), Some("./relative/project"));
    assert_eq!(decode_project_id("!!!!!!!!!!!!!!!!"), None);
    let invalid_utf8 = base64::Engine::encode(
        &base64::engine::general_purpose::URL_SAFE_NO_PAD,
        [0x2f, 0xff, 0xfe, 0xfd, 0x2f, 0xff, 0xfe, 0xfd, 0x2f, 0xff],
    );
    assert_eq!(decode_project_id(&invalid_utf8), None);
}

#[test]
fn normalize_cwd_cases() {
    assert_eq!(normalize_cwd("  /a/b/  "), "/a/b");
    assert_eq!(normalize_cwd("/"), "/");
    assert_eq!(normalize_cwd("//"), "");
    assert_eq!(normalize_cwd(" "), "");
    assert_eq!(normalize_cwd("a/"), "a");
    assert_eq!(normalize_cwd("\u{3000}/x\u{a0}"), "/x");
}

#[test]
fn fnv1a64_known_values() {
    assert_eq!(fnv1a64(b""), 0xcbf29ce484222325);
    assert_eq!(fnv1a64(b"a"), 0xaf63dc4c8601ec8c);
    assert_eq!(fnv1a64(b"foobar"), 0x85944171f73967e8);
}

#[test]
fn resource_uris() {
    assert_eq!(PROJECT_SCHEME, "project://");
    assert_eq!(THREAD_SCHEME, "thread://");
    assert_eq!(project_uri("abc"), "project://abc");
    assert_eq!(thread_uri("abc", "t-1"), "thread://abc/t-1");
}

#[test]
fn parse_resource_uri_cases() {
    assert_eq!(parse_resource_uri("project://abc"), ResourceKind::Project("abc".to_string()));
    assert_eq!(parse_resource_uri("project://"), ResourceKind::Project(String::new()));
    assert_eq!(
        parse_resource_uri("thread://abc/t-1"),
        ResourceKind::Thread { project_id: "abc".to_string(), thread_id: "t-1".to_string() }
    );
    assert_eq!(
        parse_resource_uri("thread://abc/t/1"),
        ResourceKind::Thread { project_id: "abc".to_string(), thread_id: "t/1".to_string() }
    );
    assert_eq!(parse_resource_uri("thread://abc/"), ResourceKind::Unknown);
    assert_eq!(parse_resource_uri("thread:///t"), ResourceKind::Unknown);
    assert_eq!(parse_resource_uri("thread://abc"), ResourceKind::Unknown);
    assert_eq!(parse_resource_uri("file:///tmp"), ResourceKind::Unknown);
    assert_eq!(parse_resource_uri(""), ResourceKind::Unknown);
}

#[test]
fn parse_inverts_uri_builders() {
    assert_eq!(parse_resource_uri(&project_uri("p1")), ResourceKind::Project("p1".to_string()));
    assert_eq!(
        parse_resource_uri(&thread_uri("p1", "th/2")),
        ResourceKind::Thread { project_id: "p1".to_string(), thread_id: "th/2".to_string() }
    );
}

#[test]
fn project_id_is_url_safe_and_padding_free() {
    let id = encode_project_id("/srv/app");
    assert_eq!(encode_project_id("/srv/app///"), id);
    assert_eq!(encode_project_id("  /srv/app "), id);
    assert_eq!(encode_project_id("\t/srv/app//\n"), id);
    assert!(id.chars().all(|c| c.is_ascii_alphanumeric() || c == '-' || c == '_'));
}

#[test]
fn legacy_id_of_a_ten_byte_path_reads_back() {
    let cwd = "./abcdefgh";
    let legacy = base64::Engine::encode(&base64::engine::general_purpose::URL_SAFE_NO_PAD, cwd.as_bytes());
    assert_eq!(legacy.len(), 14);
    assert_eq!(decode_project_id(&legacy).as_deref(), Some(cwd));
    let nine = base64::Engine::encode(&base64::engine::general_purpose::URL_SAFE_NO_PAD, "./abcdefg".as_bytes());
    assert_eq!(decode_project_id(&nine), None);
}
