use coinmarketcap_utils::headers::{construct_header, get_cookies};
use coinmarketcap_utils::pipeline::cookies_are_valid;
use reqwest::header::{HeaderMap, HeaderValue, COOKIE, SET_COOKIE, USER_AGENT};

const IDENTITY: &str = "Mozilla/5.0 (Windows NT 10.0; Win64; x64) AppleWebKit/537.36 (KHTML, like Gecko) Chrome/100.0.4896.79 Safari/537.36";

fn values(m: &HeaderMap, name: reqwest::header::HeaderName) -> Vec<Vec<u8>> {
    m.get_all(name).iter().map(|v| v.as_bytes().to_vec()).collect()
}

#[test]
fn two_set_cookie_headers_are_both_kept() {
    let mut response = HeaderMap::new();
    response.append(SET_COOKIE, HeaderValue::from_static("a=1"));
    response.append(SET_COOKIE, HeaderValue::from_static("b=2"));
    response.append("content-type", HeaderValue::from_static("text/html"));
    let cookies = get_cookies(&response);
    assert_eq!(cookies, vec![b"a=1".to_vec(), b"b=2".to_vec()]);
    let headers = construct_header(&cookies);
    assert_eq!(values(&headers, COOKIE), vec![b"a=1".to_vec(), b"b=2".to_vec()]);
    assert_eq!(values(&headers, USER_AGENT), vec![IDENTITY.as_bytes().to_vec()]);
    assert_eq!(headers.keys_len(), 2);
}

#[test]
fn no_cookies_still_gives_a_header_set() {
    let response = HeaderMap::new();
    let cookies = get_cookies(&response);
    assert!(cookies.is_empty());
    let headers = construct_header(&cookies);
    assert_eq!(values(&headers, USER_AGENT), vec![IDENTITY.as_bytes().to_vec()]);
    assert!(headers.get(COOKIE).is_none());
    assert_eq!(headers.keys_len(), 1);
}

#[test]
fn cookie_validity() {
    assert!(cookies_are_valid(&vec![]));
    assert!(cookies_are_valid(&vec![b"a=1; Path=/\t".to_vec(), vec![0xc3, 0xa9]]));
    assert!(!cookies_are_valid(&vec![b"a=1".to_vec(), b"b=2\r\n".to_vec()]));
    assert!(!cookies_are_valid(&vec![vec![127]]));
}
