use steam_cdn::client::{
    chunk_args, depot_key_from_response, handle_edge_status, manifest_args,
    manifest_request_code_from_response, remote_cmd_url, u64_to_string,
};
use steam_cdn::error::Error;
use steam_cdn::pool::{ServerDescriptor, ServerKind};

fn server(https: bool, port: u16) -> ServerDescriptor {
    ServerDescriptor {
        kind: ServerKind::Cdn,
        https,
        host: "cache1-fra2.steamcontent.com".to_string(),
        vhost: String::new(),
        port,
        cell_id: 0,
        load: 0,
        weighted_load: 0,
    }
}

#[test]
fn numbers_render_in_decimal() {
    assert_eq!(u64_to_string(0), "0");
    assert_eq!(u64_to_string(5), "5");
    assert_eq!(u64_to_string(443), "443");
    assert_eq!(u64_to_string(u64::MAX), "18446744073709551615");
}

#[test]
fn url_layout_matches_scheme_host_port_path() {
    let url = remote_cmd_url(&server(true, 443), "depot", "1/manifest/2/5", None);
    assert_eq!(url, "https://cache1-fra2.steamcontent.com:443/depot/1/manifest/2/5");
    let url = remote_cmd_url(&server(false, 80), "depot", "1/chunk/abc", None);
    assert_eq!(url, "http://cache1-fra2.steamcontent.com:80/depot/1/chunk/abc");
}

#[test]
fn request_code_is_appended_as_a_segment() {
    let url = remote_cmd_url(&server(true, 443), "depot", "1/manifest/2/5", Some(987654321));
    assert_eq!(url, "https://cache1-fra2.steamcontent.com:443/depot/1/manifest/2/5/987654321");
}

#[test]
fn manifest_args_include_protocol_version() {
    assert_eq!(
        manifest_args(2347771, 9071851182114336641),
        "2347771/manifest/9071851182114336641/5"
    );
}

#[test]
fn chunk_args_embed_the_chunk_id() {
    assert_eq!(chunk_args(2347771, "AAECAwQ="), "2347771/chunk/AAECAwQ=");
}

#[test]
fn depot_key_must_be_exactly_32_bytes() {
    let bytes: Vec<u8> = (0u8..32).collect();
    let key = depot_key_from_response(Some(bytes.clone())).unwrap().unwrap();
    assert_eq!(&key[..], &bytes[..]);
    assert!(depot_key_from_response(None).unwrap().is_none());
    match depot_key_from_response(Some(vec![0u8; 31])) {
        Err(Error::Unexpected(m)) => assert_eq!(m, "depot key has unexpected size"),
        other => panic!("expected an error, got {:?}", other),
    }
}

#[test]
fn request_code_is_required() {
    assert_eq!(manifest_request_code_from_response(Some(7)).unwrap(), 7);
    match manifest_request_code_from_response(None) {
        Err(Error::Unexpected(m)) => assert_eq!(m, "failed to get manifest request code"),
        other => panic!("expected an error, got {:?}", other),
    }
}

#[test]
fn non_success_statuses_surface_http_status() {
    assert!(handle_edge_status(200).is_ok());
    assert!(handle_edge_status(299).is_ok());
    for status in [101u16, 301, 403, 404, 500] {
        match handle_edge_status(status) {
            Err(Error::HttpStatus(s)) => assert_eq!(s, status),
            other => panic!("expected a status error, got {:?}", other),
        }
    }
}
