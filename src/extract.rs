use vstd::prelude::*;
use vstd::string::StringExecFns;

use select::document::Document;
use select::predicate::{Name, Predicate};

use crate::error::TrendingError;

verus! {

/// The text of one entry: `"<name> (<symbol>)"`, each part exactly as the
/// page held it.
pub open spec fn entry_text(name: Seq<char>, symbol: Seq<char>) -> Seq<char> {
    name + " ("@ + symbol + ")"@
}

/// Builds the entry text for one anchor from its display name and symbol.
pub fn format_entry(name: &str, symbol: &str) -> (r: String)
    ensures
        r@ == entry_text(name@, symbol@),
{
    proof {
        reveal_strlit(" (");
        reveal_strlit(")");
    }
    let mut r = String::new();
    r.append(name);
    r.append(" (");
    r.append(symbol);
    r.append(")");
    r
}

/// The texts of a list of strings.
pub open spec fn texts(v: Seq<String>) -> Seq<Seq<char>> {
    v.map_values(|s: String| s@)
}

/// The paragraph texts of each anchor, as values.
pub open spec fn groups_view(g: Seq<Vec<String>>) -> Seq<Seq<Seq<char>>> {
    g.map_values(|v: Vec<String>| texts(v@))
}

/// The entries that a run of anchors gives, in order: an anchor with no
/// paragraph gives none, any other gives the entry of its first two
/// paragraphs.
pub open spec fn entries_of(groups: Seq<Seq<Seq<char>>>) -> Seq<Seq<char>>
    decreases groups.len(),
{
    if groups.len() == 0 {
        seq![]
    } else {
        let rest = entries_of(groups.drop_last());
        let g = groups.last();
        if g.len() == 0 {
            rest
        } else {
            rest.push(entry_text(g[0], g[1]))
        }
    }
}

/// The anchor at `i` holds a single paragraph: a name with no symbol.
pub open spec fn is_single(groups: Seq<Seq<Seq<char>>>, i: int) -> bool {
    0 <= i < groups.len() && groups[i].len() == 1
}

/// Some anchor holds a single paragraph.
pub open spec fn has_single(groups: Seq<Seq<Seq<char>>>) -> bool {
    exists|i: int| is_single(groups, i)
}

/// `i` is the first anchor that holds a single paragraph.
pub open spec fn first_single(groups: Seq<Seq<Seq<char>>>, i: int) -> bool {
    is_single(groups, i) && forall|j: int| 0 <= j < i ==> !is_single(groups, j)
}

/// What the paragraph lists of a document's table anchors, in document
/// order, give: the entries, or the first anchor that has a name and no
/// symbol.
pub open spec fn entries_result(
    groups: Seq<Seq<Seq<char>>>,
    r: Result<Seq<Seq<char>>, TrendingError>,
) -> bool {
    match r {
        Ok(v) => !has_single(groups) && v == entries_of(groups),
        Err(e) => match e {
            TrendingError::ExtractionIndexError { anchor } => first_single(groups, anchor as int),
            _ => false,
        },
    }
}

/// The value of a result of entries.
pub open spec fn result_view(r: Result<Vec<String>, TrendingError>) -> Result<
    Seq<Seq<char>>,
    TrendingError,
> {
    match r {
        Ok(v) => Ok(texts(v@)),
        Err(e) => Err(e),
    }
}

/// Turns the paragraph texts of each table anchor, in document order, into
/// the trending entries. An anchor without paragraphs is skipped; one with a
/// single paragraph aborts the whole list.
pub fn format_entries(groups: &Vec<Vec<String>>) -> (r: Result<Vec<String>, TrendingError>)
    ensures
        entries_result(groups_view(groups@), result_view(r)),
{
    let ghost gv = groups_view(groups@);
    let mut out: Vec<String> = Vec::new();
    let mut i: usize = 0;
    while i < groups.len()
        invariant
            gv == groups_view(groups@),
            i <= groups.len(),
            forall|j: int| 0 <= j < i ==> !is_single(gv, j),
            texts(out@) == entries_of(gv.take(i as int)),
        decreases groups.len() - i,
    {
        let g = &groups[i];
        proof {
            assert(gv.take(i + 1).drop_last() =~= gv.take(i as int));
            assert(gv[i as int] == texts(g@));
        }
        if g.len() == 1 {
            return Err(TrendingError::ExtractionIndexError { anchor: i });
        }
        if g.len() >= 2 {
            let e = format_entry(g[0].as_str(), g[1].as_str());
            out.push(e);
            assert(texts(out@) =~= entries_of(gv.take(i + 1)));
        } else {
            assert(texts(out@) =~= entries_of(gv.take(i + 1)));
        }
        i = i + 1;
    }
    assert(gv.take(i as int) =~= gv);
    Ok(out)
}

/// For a page, the anchors (`a` elements) that stand inside a `table`
/// element, in document order, each given by the inner markup of its
/// descendant `p` elements, in document order.
pub uninterp spec fn table_anchor_paragraphs(html: Seq<char>) -> Seq<Seq<Seq<char>>>;

/// Relies on select's `Document::from` to parse the page, `Document::find`
/// with `Name("table").descendant(Name("a"))` and `Node::find` with
/// `Name("p")` to walk it in document order, and `Node::inner_html` for each
/// paragraph's text. The result depends on the page's text alone.
#[verifier::external_body]
fn find_table_anchor_paragraphs(html: &str) -> (r: Vec<Vec<String>>)
    ensures
        groups_view(r@) == table_anchor_paragraphs(html@),
{
    let document = Document::from(html);
    let mut groups = Vec::new();
    for anchor in document.find(Name("table").descendant(Name("a"))) {
        let mut paragraphs = Vec::new();
        for p in anchor.find(Name("p")) {
            paragraphs.push(p.inner_html());
        }
        groups.push(paragraphs);
    }
    groups
}

/// Extracts the trending entries from a page: one `"name (symbol)"` for
/// each table anchor that holds paragraphs, in document order.
pub fn extract_trending(html: &str) -> (r: Result<Vec<String>, TrendingError>)
    ensures
        entries_result(table_anchor_paragraphs(html@), result_view(r)),
{
    let groups = find_table_anchor_paragraphs(html);
    format_entries(&groups)
}

} // verus!
