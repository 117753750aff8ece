use vstd::prelude::*;
use vstd::string::is_ascii;

use reqwest::header::{HeaderMap, HeaderValue};

verus! {

#[verifier::external_type_specification]
#[verifier::external_body]
#[verifier::reject_recursive_types(T)]
pub struct ExHeaderMap<T>(HeaderMap<T>);

#[verifier::external_type_specification]
#[verifier::external_body]
pub struct ExHeaderValue(HeaderValue);

/// What a header map holds: for each (lower-case) header name present, its
/// values as bytes, in the order in which they were added.
pub uninterp spec fn header_entries(m: HeaderMap) -> Map<Seq<char>, Seq<Seq<u8>>>;

/// The values that `m` holds under `name`, oldest first; none if the name is
/// absent.
pub open spec fn values_under(m: Map<Seq<char>, Seq<Seq<u8>>>, name: Seq<char>) -> Seq<Seq<u8>> {
    if m.contains_key(name) {
        m[name]
    } else {
        seq![]
    }
}

/// A header name written in lower case: letters and dashes, at most 64 of
/// them.
pub open spec fn valid_header_name(s: Seq<char>) -> bool {
    0 < s.len() <= 64 && forall|i: int|
        0 <= i < s.len() ==> (('a' <= #[trigger] s[i] && s[i] <= 'z') || s[i] == '-')
}

/// The bytes a header value may hold: visible ASCII, tab, and bytes from
/// 128 up.
pub open spec fn valid_value_bytes(b: Seq<u8>) -> bool {
    forall|i: int| 0 <= i < b.len() ==> ((#[trigger] b[i] >= 32 && b[i] != 127) || b[i] == 9)
}

/// The values of a list of byte strings.
pub open spec fn byte_strings(v: Seq<Vec<u8>>) -> Seq<Seq<u8>> {
    v.map_values(|b: Vec<u8>| b@)
}

/// A header map with no entry.
pub open spec fn no_headers() -> Map<Seq<char>, Seq<Seq<u8>>> {
    Map::empty()
}

/// Relies on `HeaderMap::new`: a new map holds no header.
#[verifier::external_body]
pub(crate) fn new_header_map() -> (r: HeaderMap)
    ensures
        header_entries(r) == no_headers(),
{
    HeaderMap::new()
}

/// Relies on `HeaderMap::append`, with the value made by
/// `HeaderValue::from_bytes`: the value is added after those already held
/// under the name, which stay. `from_bytes` accepts exactly the bytes of
/// `valid_value_bytes`; a lower-case static name is accepted as it is, and
/// with few names the map stays far below the size at which `append` panics.
#[verifier::external_body]
pub(crate) fn append_header(m: &mut HeaderMap, name: &'static str, value: &[u8])
    requires
        valid_header_name(name@),
        valid_value_bytes(value@),
        header_entries(*old(m)).dom().finite(),
        header_entries(*old(m)).dom().len() < 64,
    ensures
        header_entries(*final(m)) == header_entries(*old(m)).insert(
            name@,
            values_under(header_entries(*old(m)), name@).push(value@),
        ),
{
    m.append(name, HeaderValue::from_bytes(value).unwrap());
}

/// Relies on `HeaderMap::get_all` and `HeaderValue::as_bytes`: every value
/// held under the name, in the order in which they were added.
#[verifier::external_body]
pub(crate) fn header_values(m: &HeaderMap, name: &'static str) -> (r: Vec<Vec<u8>>)
    requires
        valid_header_name(name@),
    ensures
        byte_strings(r@) == values_under(header_entries(*m), name@),
{
    let mut r = Vec::new();
    for v in m.get_all(name).iter() {
        r.push(v.as_bytes().to_vec());
    }
    r
}

/// The browser identity sent as `User-Agent`.
pub open spec fn browser_identity() -> Seq<char> {
    "Mozilla/5.0 (Windows NT 10.0; Win64; x64) AppleWebKit/537.36 (KHTML, like Gecko) Chrome/100.0.4896.79 Safari/537.36"@
}

/// The bytes of an ASCII text.
pub open spec fn ascii_bytes(s: Seq<char>) -> Seq<u8> {
    Seq::new(s.len(), |i: int| s[i] as u8)
}

/// The header set sent with the page request: the browser identity under
/// `user-agent`, and, when there are any, the harvested cookies under
/// `cookie`, all of them, in the order in which they came.
pub open spec fn request_headers(cookies: Seq<Seq<u8>>) -> Map<Seq<char>, Seq<Seq<u8>>> {
    let identity = no_headers().insert("user-agent"@, seq![ascii_bytes(browser_identity())]);
    if cookies.len() == 0 {
        identity
    } else {
        identity.insert("cookie"@, cookies)
    }
}

/// The cookies that a response sets: every value of its `set-cookie`
/// header, in order. None is dropped or merged.
pub fn get_cookies(response_headers: &HeaderMap) -> (r: Vec<Vec<u8>>)
    ensures
        byte_strings(r@) == values_under(header_entries(*response_headers), "set-cookie"@),
{
    proof {
        reveal_strlit("set-cookie");
    }
    header_values(response_headers, "set-cookie")
}

/// Builds the header set for the page request from the harvested cookies.
/// It is built whatever the cookies are, none included.
pub fn construct_header(cookies: &Vec<Vec<u8>>) -> (r: HeaderMap)
    requires
        forall|i: int| 0 <= i < cookies.len() ==> valid_value_bytes(#[trigger] cookies[i]@),
    ensures
        header_entries(r) == request_headers(byte_strings(cookies@)),
{
    let identity: &'static str = "Mozilla/5.0 (Windows NT 10.0; Win64; x64) AppleWebKit/537.36 (KHTML, like Gecko) Chrome/100.0.4896.79 Safari/537.36";
    proof {
        reveal_strlit("user-agent");
        reveal_strlit("cookie");
        reveal_strlit("Mozilla/5.0 (Windows NT 10.0; Win64; x64) AppleWebKit/537.36 (KHTML, like Gecko) Chrome/100.0.4896.79 Safari/537.36");
        assert(is_ascii(identity));
        vstd::string::is_ascii_spec_bytes(identity);
    }
    let mut m = new_header_map();
    append_header(&mut m, "user-agent", identity.as_bytes());
    let ghost base = header_entries(m);
    assert(base == request_headers(seq![]));
    let mut i: usize = 0;
    while i < cookies.len()
        invariant
            i <= cookies.len(),
            forall|j: int| 0 <= j < cookies.len() ==> valid_value_bytes(#[trigger] cookies[j]@),
            base == request_headers(seq![]),
            header_entries(m) == request_headers(byte_strings(cookies@).take(i as int)),
        decreases cookies.len() - i,
    {
        proof {
            reveal_strlit("user-agent");
            reveal_strlit("cookie");
            assert("cookie"@.len() != "user-agent"@.len());
            assert("cookie"@ != "user-agent"@);
        }
        let ghost before = header_entries(m);
        let ghost done = byte_strings(cookies@).take(i as int);
        proof {
            if i == 0 {
                assert(!before.contains_key("cookie"@));
                assert(values_under(before, "cookie"@) =~= done);
            } else {
                assert(values_under(before, "cookie"@) =~= done);
            }
        }
        append_header(&mut m, "cookie", cookies[i].as_slice());
        proof {
            assert(byte_strings(cookies@).take(i + 1) =~= byte_strings(cookies@).take(i as int).push(cookies[i as int]@));
            assert(header_entries(m) =~= request_headers(byte_strings(cookies@).take(i + 1)));
        }
        i = i + 1;
    }
    assert(byte_strings(cookies@).take(i as int) =~= byte_strings(cookies@));
    m
}

} // verus!
