//! Sections of the action picker: the action catalog grouped by category.
//!
//! Categories appear in the order the catalog first uses them, and actions
//! keep their catalog order within a section. The catalog is described by
//! the category of each action; a section lists the positions of its actions.

use vstd::prelude::*;

verus! {

/// One picker section: a category and the catalog positions of its actions.
#[derive(Debug)]
pub struct Section {
    pub category: u32,
    pub items: Vec<usize>,
}

/// `s` lists, in increasing order, exactly the positions below `n` whose
/// category is `s.category`.
pub open spec fn section_ok(cats: Seq<u32>, n: int, s: Section) -> bool {
    &&& s.items@.len() > 0
    &&& forall|a: int, b: int|
        0 <= a < b < s.items@.len() ==> #[trigger] s.items@[a] < #[trigger] s.items@[b]
    &&& forall|a: int|
        0 <= a < s.items@.len() ==> #[trigger] s.items@[a] < n && cats[s.items@[a] as int]
            == s.category
    &&& forall|j: int|
        0 <= j < n && #[trigger] cats[j] == s.category ==> s.items@.contains(j as usize)
}

/// Some section of `r` has category `c`.
pub open spec fn has_section(r: Seq<Section>, c: u32) -> bool {
    exists|k: int| 0 <= k < r.len() && #[trigger] r[k].category == c
}

/// `r` groups the first `n` catalog positions by category: one section per
/// category used, categories in order of first use.
pub open spec fn grouping_ok(cats: Seq<u32>, n: int, r: Seq<Section>) -> bool {
    &&& forall|k: int| 0 <= k < r.len() ==> section_ok(cats, n, #[trigger] r[k])
    &&& forall|k: int, l: int|
        0 <= k < l < r.len() ==> #[trigger] r[k].category != #[trigger] r[l].category
    &&& forall|k: int, l: int|
        0 <= k < l < r.len() ==> #[trigger] r[k].items@[0] < #[trigger] r[l].items@[0]
    &&& forall|j: int| 0 <= j < n ==> #[trigger] has_section(r, cats[j])
}

/// Groups the catalog, given the category of each action, into sections.
pub fn group_by_category(categories: &Vec<u32>) -> (r: Vec<Section>)
    ensures
        grouping_ok(categories@, categories@.len() as int, r@),
{
    let ghost cats = categories@;
    let mut sections: Vec<Section> = Vec::new();
    let n = categories.len();
    let mut i: usize = 0;
    while i < n
        invariant
            n == cats.len(),
            cats == categories@,
            i <= n,
            grouping_ok(cats, i as int, sections@),
        decreases n - i,
    {
        let cat = categories[i];
        let m = sections.len();
        let mut k: usize = 0;
        while k < m && sections[k].category != cat
            invariant
                m == sections@.len(),
                k <= m,
                forall|l: int| 0 <= l < k ==> #[trigger] sections@[l].category != cat,
            decreases m - k,
        {
            k += 1;
        }
        let ghost before = sections@;
        if k < m {
            sections[k].items.push(i);
            proof {
                assert forall|l: int| 0 <= l < sections@.len() implies section_ok(
                    cats,
                    i + 1,
                    #[trigger] sections@[l],
                ) by {
                    if l != k {
                        assert(sections@[l] == before[l]);
                        assert(before[l].category != cat);
                    } else {
                        let s = sections@[l];
                        assert(s.items@ == before[l].items@.push(i));
                        assert forall|j: int|
                            0 <= j < i + 1 && #[trigger] cats[j] == s.category implies s.items@.contains(
                            j as usize,
                        ) by {
                            if j < i {
                                assert(before[l].items@.contains(j as usize));
                                let a = choose|a: int|
                                    0 <= a < before[l].items@.len() && before[l].items@[a] == j as usize;
                                assert(s.items@[a] == j as usize);
                            } else {
                                assert(s.items@[s.items@.len() - 1] == j as usize);
                            }
                        }
                    }
                }
                assert forall|k1: int, l1: int|
                    0 <= k1 < l1 < sections@.len() implies #[trigger] sections@[k1].items@[0]
                    < #[trigger] sections@[l1].items@[0] by {
                    assert(sections@[k1].items@[0] == before[k1].items@[0]);
                    assert(sections@[l1].items@[0] == before[l1].items@[0]);
                }
                assert forall|j: int| 0 <= j < i + 1 implies #[trigger] has_section(sections@, cats[j]) by {
                    if j == i {
                        assert(sections@[k as int].category == cats[j]);
                    } else {
                        assert(has_section(before, cats[j]));
                        let k1 = choose|k1: int|
                            0 <= k1 < before.len() && #[trigger] before[k1].category == cats[j];
                        assert(sections@[k1].category == cats[j]);
                    }
                }
            }
        } else {
            let mut items: Vec<usize> = Vec::new();
            items.push(i);
            sections.push(Section { category: cat, items });
            proof {
                assert forall|l: int| 0 <= l < sections@.len() implies section_ok(
                    cats,
                    i + 1,
                    #[trigger] sections@[l],
                ) by {
                    if l < m {
                        assert(sections@[l] == before[l]);
                        assert(before[l].category != cat);
                    } else {
                        let s = sections@[l];
                        assert forall|j: int|
                            0 <= j < i + 1 && #[trigger] cats[j] == s.category implies s.items@.contains(
                            j as usize,
                        ) by {
                            if j < i {
                                assert(has_section(before, cats[j]));
                                let k1 = choose|k1: int|
                                    0 <= k1 < before.len() && #[trigger] before[k1].category == cats[j];
                                assert(before[k1].category != cat);
                            } else {
                                assert(s.items@[0] == j as usize);
                            }
                        }
                    }
                }
                assert forall|k1: int, l1: int|
                    0 <= k1 < l1 < sections@.len() implies #[trigger] sections@[k1].items@[0]
                    < #[trigger] sections@[l1].items@[0] by {
                    if l1 == m {
                        assert(section_ok(cats, i as int, before[k1]));
                        assert(before[k1].items@[0] < i);
                    }
                }
                assert forall|j: int| 0 <= j < i + 1 implies #[trigger] has_section(sections@, cats[j]) by {
                    if j == i {
                        assert(sections@[m as int].category == cats[j]);
                    } else {
                        assert(has_section(before, cats[j]));
                        let k1 = choose|k1: int|
                            0 <= k1 < before.len() && #[trigger] before[k1].category == cats[j];
                        assert(sections@[k1].category == cats[j]);
                    }
                }
            }
        }
        i += 1;
    }
    sections
}

} // verus!
