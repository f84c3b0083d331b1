//! Sections in the order of their addresses.
//!
//! Sections are sorted by address, and those at one address keep the order
//! they had. The second half is said through what is left of a run of
//! sections when only those at one address are kept: sorting must not
//! change that, for any address.

use crate::elf::{is_ordered, SectionView};
use vstd::prelude::*;

verus! {

/// The test for the sections at one address.
pub open spec fn at_addr(addr: u64) -> spec_fn(SectionView) -> bool {
    |section: SectionView| section.addr == addr
}

/// Whether `sorted` holds the sections of `given` in the order of their
/// addresses, those at one address in the order they have in `given`.
pub open spec fn is_sorted_from(sorted: Seq<SectionView>, given: Seq<SectionView>) -> bool {
    &&& sorted.len() == given.len()
    &&& is_ordered(sorted)
    &&& forall|addr: u64| #[trigger] sorted.filter(at_addr(addr)) == given.filter(at_addr(addr))
}

/// What one section does to the sections at an address when it is put in
/// front of them.
pub proof fn lemma_filter_one(section: SectionView, rest: Seq<SectionView>, addr: u64)
    ensures
        (seq![section] + rest).filter(at_addr(addr)) == if section.addr == addr {
            seq![section] + rest.filter(at_addr(addr))
        } else {
            rest.filter(at_addr(addr))
        },
{
    let one = seq![section];
    Seq::filter_distributes_over_add(one, rest, at_addr(addr));
    reveal_with_fuel(Seq::filter, 2);
    assert(one.drop_last() =~= Seq::<SectionView>::empty());
    assert(one.last() == section);
    if section.addr == addr {
        assert(one.filter(at_addr(addr)) =~= one);
    } else {
        assert(one.filter(at_addr(addr)) =~= Seq::<SectionView>::empty());
        assert(Seq::<SectionView>::empty() + rest.filter(at_addr(addr)) =~= rest.filter(
            at_addr(addr),
        ));
    }
}

/// Putting a section in before the first one that is not below it keeps the
/// order, and leaves it first among those at its address.
pub proof fn lemma_insert(sorted: Seq<SectionView>, section: SectionView, p: int, addr: u64)
    requires
        is_ordered(sorted),
        0 <= p <= sorted.len(),
        forall|j: int| 0 <= j < p ==> sorted[j].addr < section.addr,
        forall|j: int| p <= j < sorted.len() ==> sorted[j].addr >= section.addr,
    ensures
        is_ordered(sorted.insert(p, section)),
        sorted.insert(p, section).filter(at_addr(addr)) == (seq![section] + sorted).filter(
            at_addr(addr),
        ),
{
    let below = sorted.subrange(0, p);
    let above = sorted.subrange(p, sorted.len() as int);
    let one = seq![section];
    let test = at_addr(addr);
    assert(sorted =~= below + above);
    assert(sorted.insert(p, section) =~= below + (one + above));
    Seq::filter_distributes_over_add(below, one + above, test);
    Seq::filter_distributes_over_add(below, above, test);
    lemma_filter_one(section, above, addr);
    lemma_filter_one(section, sorted, addr);
    if section.addr == addr {
        assert(below.all(|s: SectionView| !test(s)));
        below.lemma_all_neg_filter_empty(test);
        assert(below.filter(test) =~= Seq::<SectionView>::empty());
        assert(sorted.insert(p, section).filter(test) =~= one + above.filter(test));
        assert(sorted.filter(test) =~= above.filter(test));
    }
    let after = sorted.insert(p, section);
    assert forall|i: int, j: int| 0 <= i < j < after.len() implies after[i].addr
        <= after[j].addr by {
        sorted.insert_ensures(p, section);
        if i < p && j > p {
            assert(after[j] == sorted[j - 1]);
        } else if i > p {
            assert(after[i] == sorted[i - 1]);
            assert(after[j] == sorted[j - 1]);
        } else if i == p {
            assert(after[j] == sorted[j - 1]);
        }
    }
}

/// Where sections at an address are left over, one of the sections is at
/// that address.
pub proof fn lemma_filter_witness(sections: Seq<SectionView>, addr: u64)
    requires
        sections.filter(at_addr(addr)).len() > 0,
    ensures
        exists|i: int| 0 <= i < sections.len() && (#[trigger] sections[i]).addr == addr,
    decreases sections.len(),
{
    reveal(Seq::filter);
    if sections.len() > 0 {
        if sections.last().addr == addr {
            assert(sections[sections.len() - 1].addr == addr);
        } else {
            lemma_filter_witness(sections.drop_last(), addr);
            let i = choose|i: int|
                0 <= i < sections.drop_last().len() && (#[trigger] sections.drop_last()[i]).addr
                    == addr;
            assert(sections[i].addr == addr);
        }
    }
}

/// Two runs of sections in the order of their addresses that leave the same
/// sections over at every address are the same run.
pub proof fn lemma_ordered_unique(a: Seq<SectionView>, b: Seq<SectionView>)
    requires
        is_ordered(a),
        is_ordered(b),
        a.len() == b.len(),
        forall|addr: u64| #[trigger] a.filter(at_addr(addr)) == b.filter(at_addr(addr)),
    ensures
        a == b,
    decreases a.len(),
{
    if a.len() == 0 {
        assert(a =~= b);
    } else {
        let x = a[0];
        let y = b[0];
        let rest_a = a.skip(1);
        let rest_b = b.skip(1);
        assert(a =~= seq![x] + rest_a);
        assert(b =~= seq![y] + rest_b);
        assert(x.addr <= y.addr) by {
            lemma_filter_one(y, rest_b, y.addr);
            assert(a.filter(at_addr(y.addr)) == b.filter(at_addr(y.addr)));
            lemma_filter_witness(a, y.addr);
            let i = choose|i: int| 0 <= i < a.len() && (#[trigger] a[i]).addr == y.addr;
            assert(a[0].addr <= a[i].addr);
        }
        assert(y.addr <= x.addr) by {
            lemma_filter_one(x, rest_a, x.addr);
            assert(a.filter(at_addr(x.addr)) == b.filter(at_addr(x.addr)));
            lemma_filter_witness(b, x.addr);
            let i = choose|i: int| 0 <= i < b.len() && (#[trigger] b[i]).addr == x.addr;
            assert(b[0].addr <= b[i].addr);
        }
        assert forall|addr: u64| #[trigger]
            rest_a.filter(at_addr(addr)) == rest_b.filter(at_addr(addr)) by {
            lemma_filter_one(x, rest_a, addr);
            lemma_filter_one(y, rest_b, addr);
            assert(a.filter(at_addr(addr)) == b.filter(at_addr(addr)));
            if x.addr == addr {
                let left = seq![x] + rest_a.filter(at_addr(addr));
                let right = seq![y] + rest_b.filter(at_addr(addr));
                assert(left == right);
                assert(left.skip(1) =~= rest_a.filter(at_addr(addr)));
                assert(right.skip(1) =~= rest_b.filter(at_addr(addr)));
            }
        }
        assert(x == y) by {
            lemma_filter_one(x, rest_a, x.addr);
            lemma_filter_one(y, rest_b, x.addr);
            assert(a.filter(at_addr(x.addr)) == b.filter(at_addr(x.addr)));
            let left = seq![x] + rest_a.filter(at_addr(x.addr));
            let right = seq![y] + rest_b.filter(at_addr(x.addr));
            assert(left[0] == right[0]);
        }
        assert(is_ordered(rest_a)) by {
            assert forall|i: int, j: int| 0 <= i < j < rest_a.len() implies rest_a[i].addr
                <= rest_a[j].addr by {
                assert(a[i + 1].addr <= a[j + 1].addr);
            }
        }
        assert(is_ordered(rest_b)) by {
            assert forall|i: int, j: int| 0 <= i < j < rest_b.len() implies rest_b[i].addr
                <= rest_b[j].addr by {
                assert(b[i + 1].addr <= b[j + 1].addr);
            }
        }
        lemma_ordered_unique(rest_a, rest_b);
    }
}

/// There is one way only to sort a run of sections: whatever holds its
/// sections in the order of their addresses, those at one address in the
/// order they had, is the same run.
pub proof fn lemma_sorted_unique(a: Seq<SectionView>, b: Seq<SectionView>, given: Seq<SectionView>)
    requires
        is_sorted_from(a, given),
        is_sorted_from(b, given),
    ensures
        a == b,
{
    assert forall|addr: u64| #[trigger] a.filter(at_addr(addr)) == b.filter(at_addr(addr)) by {
        assert(a.filter(at_addr(addr)) == given.filter(at_addr(addr)));
        assert(b.filter(at_addr(addr)) == given.filter(at_addr(addr)));
    }
    lemma_ordered_unique(a, b);
}

} // verus!
