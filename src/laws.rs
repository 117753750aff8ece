use vstd::prelude::*;

use crate::error::TrendingError;
use crate::extract::{entries_of, entries_result, entry_text, has_single, is_single};

verus! {

/// Anchors that all hold paragraphs give one entry each, in their order.
proof fn lemma_one_entry_per_anchor(groups: Seq<Seq<Seq<char>>>)
    requires
        forall|i: int| 0 <= i < groups.len() ==> #[trigger] groups[i].len() > 0,
    ensures
        entries_of(groups).len() == groups.len(),
        forall|i: int|
            0 <= i < groups.len() ==> entries_of(groups)[i] == entry_text(
                #[trigger] groups[i][0],
                groups[i][1],
            ),
    decreases groups.len(),
{
    if groups.len() > 0 {
        let rest = groups.drop_last();
        assert forall|i: int| 0 <= i < rest.len() implies #[trigger] rest[i].len() > 0 by {
            assert(rest[i] == groups[i]);
        }
        lemma_one_entry_per_anchor(rest);
        assert forall|i: int| 0 <= i < groups.len() implies entries_of(groups)[i] == entry_text(
            #[trigger] groups[i][0],
            groups[i][1],
        ) by {
            if i < rest.len() {
                assert(rest[i] == groups[i]);
            }
        }
    }
}

/// Order: when every table anchor holds a name and a symbol, the list is
/// produced, as long as the anchors, and its `i`-th entry is made from the
/// `i`-th anchor's first two paragraphs.
pub proof fn law_entries_follow_anchor_order(
    groups: Seq<Seq<Seq<char>>>,
    r: Result<Seq<Seq<char>>, TrendingError>,
)
    requires
        entries_result(groups, r),
        forall|i: int| 0 <= i < groups.len() ==> #[trigger] groups[i].len() >= 2,
    ensures
        r is Ok,
        r->Ok_0.len() == groups.len(),
        forall|i: int|
            0 <= i < groups.len() ==> r->Ok_0[i] == entry_text(#[trigger] groups[i][0], groups[i][1]),
{
    if r is Err {
        let e = r->Err_0;
        if let TrendingError::ExtractionIndexError { anchor } = e {
            assert(groups[anchor as int].len() >= 2);
        }
    }
    lemma_one_entry_per_anchor(groups);
}

/// Skipping: taking out an anchor that holds no paragraph changes neither
/// the entries nor whether some anchor lacks its symbol.
pub proof fn law_empty_anchor_gives_no_entry(groups: Seq<Seq<Seq<char>>>, i: int)
    requires
        0 <= i < groups.len(),
        groups[i].len() == 0,
    ensures
        entries_of(groups) == entries_of(groups.remove(i)),
        has_single(groups) == has_single(groups.remove(i)),
    decreases groups.len(),
{
    let shorter = groups.remove(i);
    if i == groups.len() - 1 {
        assert(shorter =~= groups.drop_last());
    } else {
        law_empty_anchor_gives_no_entry(groups.drop_last(), i);
        assert(shorter.drop_last() =~= groups.drop_last().remove(i));
        assert(shorter.last() == groups.last());
    }
    if has_single(groups) {
        let j = choose|j: int| is_single(groups, j);
        if j < i {
            assert(is_single(shorter, j));
        } else {
            assert(is_single(shorter, j - 1));
        }
    }
    if has_single(shorter) {
        let j = choose|j: int| is_single(shorter, j);
        if j < i {
            assert(is_single(groups, j));
        } else {
            assert(is_single(groups, j + 1));
        }
    }
}

/// Format: where no table anchor lacks its symbol, so that the list is
/// produced, every entry reads `"<name> (<symbol>)"` (`entry_text`), with the
/// name and the symbol the first two paragraphs of one anchor, exactly as
/// the page held them.
pub proof fn law_entry_format(groups: Seq<Seq<Seq<char>>>)
    requires
        !has_single(groups),
    ensures
        forall|k: int|
            0 <= k < entries_of(groups).len() ==> exists|i: int|
                0 <= i < groups.len() && groups[i].len() >= 2 && #[trigger] entries_of(groups)[k]
                    == entry_text(groups[i][0], groups[i][1]),
    decreases groups.len(),
{
    if groups.len() > 0 {
        let rest = groups.drop_last();
        assert(!has_single(rest)) by {
            if has_single(rest) {
                let j = choose|j: int| is_single(rest, j);
                assert(is_single(groups, j));
            }
        }
        law_entry_format(rest);
        assert(!is_single(groups, groups.len() - 1));
        assert forall|k: int| 0 <= k < entries_of(groups).len() implies exists|i: int|
            0 <= i < groups.len() && groups[i].len() >= 2 && #[trigger] entries_of(groups)[k]
                == entry_text(groups[i][0], groups[i][1]) by {
            if k < entries_of(rest).len() {
                let i = choose|i: int|
                    0 <= i < rest.len() && rest[i].len() >= 2 && #[trigger] entries_of(rest)[k]
                        == entry_text(rest[i][0], rest[i][1]);
                assert(groups[i] == rest[i]);
            } else {
                assert(groups[groups.len() - 1] == groups.last());
            }
        }
    }
}

} // verus!
