use coinmarketcap_utils::error::TrendingError;
use coinmarketcap_utils::extract::{extract_trending, format_entries, format_entry};
use coinmarketcap_utils::pipeline::trending_from_page;

const TWO_ROWS: &str = "<table><tr><td><a><p>Bitcoin</p><p>BTC</p></a></td></tr><tr><td><a><p>Ether</p><p>ETH</p></a></td></tr></table>";

fn strings(v: &[&str]) -> Vec<String> {
    v.iter().map(|s| s.to_string()).collect()
}

#[test]
fn two_rows_give_two_entries_in_order() {
    assert_eq!(
        extract_trending(TWO_ROWS),
        Ok(strings(&["Bitcoin (BTC)", "Ether (ETH)"]))
    );
}

#[test]
fn row_without_paragraphs_is_skipped() {
    let html = "<table><tr><td><a><p>Bitcoin</p><p>BTC</p></a></td></tr><tr><td><a>Ether</a></td></tr><tr><td><a><p>Solana</p><p>SOL</p></a></td></tr></table>";
    assert_eq!(
        extract_trending(html),
        Ok(strings(&["Bitcoin (BTC)", "Solana (SOL)"]))
    );
}

#[test]
fn anchor_with_one_paragraph_aborts_the_list() {
    let html = "<table><tr><td><a></a></td></tr><tr><td><a><p>Bitcoin</p><p>BTC</p></a></td></tr><tr><td><a><p>Ether</p></a></td></tr></table>";
    assert_eq!(
        extract_trending(html),
        Err(TrendingError::ExtractionIndexError { anchor: 2 })
    );
}

#[test]
fn anchors_outside_tables_are_ignored() {
    let html = "<div><a><p>Dogecoin</p><p>DOGE</p></a></div><table><tr><td><a><p>Bitcoin</p><p>BTC</p></a></td></tr></table>";
    assert_eq!(extract_trending(html), Ok(strings(&["Bitcoin (BTC)"])));
}

#[test]
fn paragraph_markup_is_kept_as_it_stands() {
    let html = "<table><tr><td><a><p> Wrapped <b>Ether</b></p><p>WETH </p></a></td></tr></table>";
    assert_eq!(
        extract_trending(html),
        Ok(strings(&[" Wrapped <b>Ether</b> (WETH )"]))
    );
}

#[test]
fn page_without_table_gives_empty_list() {
    assert_eq!(extract_trending("<html><body><p>Not found</p></body></html>"), Ok(vec![]));
    assert_eq!(extract_trending(""), Ok(vec![]));
}

#[test]
fn entries_from_paragraph_lists() {
    let groups = vec![
        strings(&["Bitcoin", "BTC", "extra"]),
        vec![],
        strings(&["Ether", "ETH"]),
        strings(&["Bitcoin", "BTC"]),
    ];
    assert_eq!(
        format_entries(&groups),
        Ok(strings(&["Bitcoin (BTC)", "Ether (ETH)", "Bitcoin (BTC)"]))
    );
    assert_eq!(format_entries(&vec![]), Ok(vec![]));
    assert_eq!(format_entries(&vec![vec![], vec![]]), Ok(vec![]));
}

#[test]
fn first_anchor_with_one_paragraph_is_named() {
    let groups = vec![
        strings(&["Bitcoin", "BTC"]),
        strings(&["Ether"]),
        strings(&["Solana"]),
    ];
    assert_eq!(
        format_entries(&groups),
        Err(TrendingError::ExtractionIndexError { anchor: 1 })
    );
}

#[test]
fn entry_text_is_name_then_symbol_in_parentheses() {
    assert_eq!(format_entry("Bitcoin", "BTC"), "Bitcoin (BTC)");
    assert_eq!(format_entry("", ""), " ()");
}

#[test]
fn transport_failure_gives_no_list() {
    assert_eq!(
        trending_from_page(Err(TrendingError::NetworkError)),
        Err(TrendingError::NetworkError)
    );
    assert_eq!(
        trending_from_page(Err(TrendingError::DecodeError)),
        Err(TrendingError::DecodeError)
    );
}

#[test]
fn page_body_is_parsed() {
    assert_eq!(
        trending_from_page(Ok(TWO_ROWS.to_string())),
        Ok(strings(&["Bitcoin (BTC)", "Ether (ETH)"]))
    );
}
