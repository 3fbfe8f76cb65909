use rprxy::headers::HeaderMap;
use rprxy::proxy::ProxyError;
use rprxy::http_utils::{
    forbidden_payload, http_status_ok_payload, https_not_supported_payload, proxy_auth_payload,
    unauthorized_payload,
};

#[test]
fn unauthorized_payload_bytes() {
    assert_eq!(
        unauthorized_payload(),
        b"HTTP/1.1 401 Unauthorized\r\nConnection: close\r\n\r\n".to_vec()
    );
}

#[test]
fn forbidden_payload_bytes() {
    assert_eq!(
        forbidden_payload(),
        b"HTTP/1.1 403 Forbidden\r\nConnection: close\r\n\r\n".to_vec()
    );
}

#[test]
fn proxy_auth_payload_bytes() {
    assert_eq!(
        proxy_auth_payload(),
        b"HTTP/1.1 407 Proxy Authentication Required\r\nProxy-Authenticate: Basic\r\n\r\n".to_vec()
    );
}

#[test]
fn https_not_supported_payload_bytes() {
    let payload = https_not_supported_payload();
    assert_eq!(
        payload,
        b"HTTP/1.1 400 Bad Request\r\nConnection: close\r\nContent-Length: 28\r\n\r\nProxy does not support https"
            .to_vec()
    );
    // The advertised Content-Length matches the body.
    assert_eq!("Proxy does not support https".len(), 28);
}

#[test]
fn http_status_ok_payload_bytes() {
    assert_eq!(
        http_status_ok_payload(),
        b"HTTP/1.1 200 OK\r\nProxy-Connection: keep-alive\r\n\r\n".to_vec()
    );
}

#[test]
fn proxy_error_variants() {
    let bind = ProxyError::CouldNotBindPort(std::io::Error::new(
        std::io::ErrorKind::AddrInUse,
        "address in use",
    ));
    assert!(matches!(bind, ProxyError::CouldNotBindPort(_)));
    let accept = ProxyError::ConnectionError(std::io::Error::new(
        std::io::ErrorKind::ConnectionReset,
        "reset",
    ));
    assert!(matches!(accept, ProxyError::ConnectionError(_)));
    assert!(matches!(ProxyError::CouldNotSetTTL, ProxyError::CouldNotSetTTL));
    assert!(matches!(ProxyError::CouldNotGetTTL, ProxyError::CouldNotGetTTL));
}

#[test]
fn header_map_insert_and_get() {
    let mut h = HeaderMap::new();
    assert_eq!(h.len(), 0);
    h.insert(String::from("Host"), String::from("example.com"));
    h.insert(String::from("Connection"), String::from("close"));
    assert_eq!(h.len(), 2);
    assert_eq!(h.get("Host"), Some(&String::from("example.com")));
    assert_eq!(h.get("Connection"), Some(&String::from("close")));
    assert_eq!(h.get("Absent"), None);
}

#[test]
fn header_map_insert_replaces_in_place() {
    let mut h = HeaderMap::new();
    h.insert(String::from("A"), String::from("1"));
    h.insert(String::from("B"), String::from("2"));
    h.insert(String::from("A"), String::from("3"));
    assert_eq!(h.len(), 2);
    assert_eq!(h.get("A"), Some(&String::from("3")));
    // Insertion order of keys is preserved across replacement.
    assert_eq!(h.key_at(0), "A");
    assert_eq!(h.value_at(0), "3");
    assert_eq!(h.key_at(1), "B");
}
