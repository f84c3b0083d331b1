//! What a packed payload holds, and where.
//!
//! The packer goes through sections in the order given, whatever their
//! addresses. The laws here say what comes of that: how long the payload is,
//! that sections which are not laid out leave no trace, and that sections
//! which follow one another in memory stand at the distance of their
//! addresses from the start, with zeros between them.

use crate::elf::SectionView;
use crate::pack::{
    cursor_after, is_packed, lemma_packed_len, lemma_rounded_len, packed, packed_after, GAP_FILL,
    IMAGE_STEP, MIN_PAYLOAD, PAYLOAD_OFFSET,
};
use vstd::prelude::*;

verus! {

/// Every payload has at least the least size, and one whose sections take
/// more than that ends where the image, payload offset included, is a whole
/// number of steps long. So a payload either has the least size, or it makes
/// such an image.
pub proof fn lemma_packed_size(sections: Seq<SectionView>, included: Seq<Seq<char>>, start: int)
    ensures
        packed(sections, included, start).len() >= MIN_PAYLOAD,
        packed(sections, included, start).len() == MIN_PAYLOAD || (packed(
            sections,
            included,
            start,
        ).len() + PAYLOAD_OFFSET) % (IMAGE_STEP as int) == 0,
        packed_after(sections, included, start, sections.len()).len() > MIN_PAYLOAD ==> (packed(
            sections,
            included,
            start,
        ).len() + PAYLOAD_OFFSET) % (IMAGE_STEP as int) == 0,
{
    lemma_rounded_len(packed_after(sections, included, start, sections.len()).len() as int);
}

/// A section that is not laid out leaves no trace: the first `n` sections
/// of the run without it give what the run with it gives, up to and past
/// its position.
pub proof fn lemma_passed_over(
    sections: Seq<SectionView>,
    included: Seq<Seq<char>>,
    start: int,
    i: int,
    n: nat,
)
    requires
        0 <= i < sections.len(),
        !is_packed(sections[i], included),
        n < sections.len(),
    ensures
        n <= i ==> cursor_after(sections.remove(i), included, start, n) == cursor_after(
            sections,
            included,
            start,
            n,
        ) && packed_after(sections.remove(i), included, start, n) == packed_after(
            sections,
            included,
            start,
            n,
        ),
        n >= i ==> cursor_after(sections.remove(i), included, start, n) == cursor_after(
            sections,
            included,
            start,
            n + 1,
        ) && packed_after(sections.remove(i), included, start, n) == packed_after(
            sections,
            included,
            start,
            n + 1,
        ),
    decreases n,
{
    let without = sections.remove(i);
    if n > 0 {
        lemma_passed_over(sections, included, start, i, (n - 1) as nat);
        if n <= i {
            assert(without[n - 1] == sections[n - 1]);
        } else {
            assert(without[n - 1] == sections[n as int]);
        }
    }
    if n == i {
        assert(cursor_after(sections, included, start, n + 1) == cursor_after(
            sections,
            included,
            start,
            n,
        ));
        assert(packed_after(sections, included, start, n + 1) == packed_after(
            sections,
            included,
            start,
            n,
        ));
    }
}

/// A section without bytes is passed over entirely: taking it out of the
/// run changes nothing in the payload, and no padding stands in for it.
pub proof fn lemma_empty_section_skipped(
    sections: Seq<SectionView>,
    included: Seq<Seq<char>>,
    start: int,
    i: int,
)
    requires
        0 <= i < sections.len(),
        sections[i].data.len() == 0,
    ensures
        packed(sections.remove(i), included, start) == packed(sections, included, start),
{
    lemma_passed_over(sections, included, start, i, (sections.len() - 1) as nat);
}

/// Whether the sections that are laid out follow one another in memory:
/// none starts before the start address, nor before the end of one that
/// came earlier.
pub open spec fn is_ascending(sections: Seq<SectionView>, included: Seq<Seq<char>>, start: int) -> bool {
    forall|k: int|
        0 <= k < sections.len() && is_packed(#[trigger] sections[k], included) ==> cursor_after(
            sections,
            included,
            start,
            k as nat,
        ) <= sections[k].addr
}

/// Whether `at` is a place in the payload that section `k` fills.
pub open spec fn is_inside(
    sections: Seq<SectionView>,
    included: Seq<Seq<char>>,
    start: int,
    k: int,
    at: int,
) -> bool {
    &&& is_packed(sections[k], included)
    &&& sections[k].addr - start <= at < sections[k].addr - start + sections[k].data.len()
}

/// What has been laid out stays where it is when more sections follow.
pub proof fn lemma_packed_grows(
    sections: Seq<SectionView>,
    included: Seq<Seq<char>>,
    start: int,
    n: nat,
    m: nat,
)
    requires
        n <= m,
    ensures
        packed_after(sections, included, start, n).len() <= packed_after(
            sections,
            included,
            start,
            m,
        ).len(),
        packed_after(sections, included, start, m).subrange(
            0,
            packed_after(sections, included, start, n).len() as int,
        ) == packed_after(sections, included, start, n),
    decreases m,
{
    let short = packed_after(sections, included, start, n);
    if n < m {
        lemma_packed_grows(sections, included, start, n, (m - 1) as nat);
        let before = packed_after(sections, included, start, (m - 1) as nat);
        let after = packed_after(sections, included, start, m);
        assert(after.subrange(0, before.len() as int) =~= before);
        assert(after.subrange(0, short.len() as int) =~= before.subrange(0, short.len() as int));
    } else {
        assert(short.subrange(0, short.len() as int) =~= short);
    }
}

/// Where the sections follow one another in memory, each one that is laid
/// out stands in the payload at the distance of its address from the start
/// address.
pub proof fn lemma_section_placed(
    sections: Seq<SectionView>,
    included: Seq<Seq<char>>,
    start: int,
    k: int,
)
    requires
        is_ascending(sections, included, start),
        0 <= k < sections.len(),
        is_packed(sections[k], included),
    ensures
        0 <= sections[k].addr - start,
        sections[k].addr - start + sections[k].data.len() <= packed_after(
            sections,
            included,
            start,
            sections.len(),
        ).len(),
        packed_after(sections, included, start, sections.len()).subrange(
            sections[k].addr - start,
            sections[k].addr - start + sections[k].data.len(),
        ) == sections[k].data,
        packed(sections, included, start).subrange(
            sections[k].addr - start,
            sections[k].addr - start + sections[k].data.len(),
        ) == sections[k].data,
{
    let at = sections[k].addr - start;
    let end = at + sections[k].data.len();
    let before = packed_after(sections, included, start, k as nat);
    let with = packed_after(sections, included, start, (k + 1) as nat);
    let all = packed_after(sections, included, start, sections.len());
    lemma_packed_len(sections, included, start, k as nat, k as nat);
    assert(with.len() == end);
    assert(with.subrange(at, end) =~= sections[k].data);
    lemma_packed_grows(sections, included, start, (k + 1) as nat, sections.len());
    assert(all.subrange(at, end) =~= all.subrange(0, end).subrange(at, end));
    assert(packed(sections, included, start).subrange(at, end) =~= all.subrange(at, end));
}

/// Where the sections follow one another in memory, every byte laid out
/// that no section fills is zero.
pub proof fn lemma_gaps_are_zero(
    sections: Seq<SectionView>,
    included: Seq<Seq<char>>,
    start: int,
    n: nat,
    at: int,
)
    requires
        is_ascending(sections, included, start),
        n <= sections.len(),
        0 <= at < packed_after(sections, included, start, n).len(),
        forall|k: int| 0 <= k < n ==> !is_inside(sections, included, start, k, at),
    ensures
        packed_after(sections, included, start, n)[at] == GAP_FILL,
    decreases n,
{
    if n > 0 {
        let before = packed_after(sections, included, start, (n - 1) as nat);
        lemma_packed_len(sections, included, start, (n - 1) as nat, (n - 1) as nat);
        assert(!is_inside(sections, included, start, n - 1, at));
        if at < before.len() {
            lemma_gaps_are_zero(sections, included, start, (n - 1) as nat, at);
        }
    }
}

} // verus!
