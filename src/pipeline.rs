use vstd::prelude::*;

use crate::error::TrendingError;
use crate::extract::{entries_result, extract_trending, result_view, table_anchor_paragraphs};
use crate::headers::valid_value_bytes;

verus! {

/// Whether every cookie can be sent as a header value.
pub fn cookies_are_valid(cookies: &Vec<Vec<u8>>) -> (r: bool)
    ensures
        r == forall|i: int| 0 <= i < cookies.len() ==> valid_value_bytes(#[trigger] cookies[i]@),
{
    let mut i: usize = 0;
    while i < cookies.len()
        invariant
            i <= cookies.len(),
            forall|j: int| 0 <= j < i ==> valid_value_bytes(#[trigger] cookies[j]@),
        decreases cookies.len() - i,
    {
        let c = &cookies[i];
        let mut k: usize = 0;
        while k < c.len()
            invariant
                i < cookies.len(),
                c@ == cookies[i as int]@,
                k <= c.len(),
                forall|j: int| 0 <= j < k ==> ((#[trigger] c@[j] >= 32 && c@[j] != 127) || c@[j] == 9),
            decreases c.len() - k,
        {
            let b = c[k];
            if !((b >= 32 && b != 127) || b == 9) {
                assert(!((cookies[i as int]@[k as int] >= 32 && cookies[i as int]@[k as int] != 127)
                    || cookies[i as int]@[k as int] == 9));
                return false;
            }
            k = k + 1;
        }
        i = i + 1;
    }
    true
}

/// The trending list for the outcome of the page request: a transport or
/// decoding failure is handed on as it is, with no list; a body is parsed
/// whatever the status that came with it.
pub fn trending_from_page(page: Result<String, TrendingError>) -> (r: Result<Vec<String>, TrendingError>)
    ensures
        match page {
            Ok(body) => entries_result(table_anchor_paragraphs(body@), result_view(r)),
            Err(e) => r == Err::<Vec<String>, TrendingError>(e),
        },
{
    match page {
        Ok(body) => extract_trending(body.as_str()),
        Err(e) => Err(e),
    }
}

} // verus!
