//! Merging the pages of a specification into one.

use crate::model::{ParsedIdlDefinition, ParsedReference, ParsedSection, ParsedSpec};
use vstd::hash_set::StringHashSet;
use vstd::prelude::*;

verus! {

/// The sections of all `specs`, one after the other.
pub open spec fn all_sections(specs: Seq<ParsedSpec>) -> Seq<ParsedSection>
    decreases specs.len(),
{
    if specs.len() == 0 {
        Seq::empty()
    } else {
        all_sections(specs.drop_last()) + specs.last().sections@
    }
}

/// The references of all `specs`, one after the other.
pub open spec fn all_references(specs: Seq<ParsedSpec>) -> Seq<ParsedReference>
    decreases specs.len(),
{
    if specs.len() == 0 {
        Seq::empty()
    } else {
        all_references(specs.drop_last()) + specs.last().references@
    }
}

/// The interface definitions of all `specs`, one after the other.
pub open spec fn all_idl_definitions(specs: Seq<ParsedSpec>) -> Seq<ParsedIdlDefinition>
    decreases specs.len(),
{
    if specs.len() == 0 {
        Seq::empty()
    } else {
        all_idl_definitions(specs.drop_last()) + specs.last().idl_definitions@
    }
}

/// Some section stands under `anchor`.
pub open spec fn has_anchor(sections: Seq<ParsedSection>, anchor: Seq<char>) -> bool {
    exists|i: int| 0 <= i < sections.len() && (#[trigger] sections[i]).anchor@ == anchor
}

/// `sections` without those whose anchor an earlier one has.
pub open spec fn first_by_anchor(sections: Seq<ParsedSection>) -> Seq<ParsedSection>
    decreases sections.len(),
{
    if sections.len() == 0 {
        Seq::empty()
    } else {
        let kept = first_by_anchor(sections.drop_last());
        if has_anchor(sections.drop_last(), sections.last().anchor@) {
            kept
        } else {
            kept.push(sections.last())
        }
    }
}

/// `merged` is what merging `specs` gives: of the sections under one anchor
/// the first, all references and all interface definitions, in their order.
pub open spec fn merged_from(specs: Seq<ParsedSpec>, merged: ParsedSpec) -> bool {
    &&& merged.sections@ == first_by_anchor(all_sections(specs))
    &&& merged.references@ == all_references(specs)
    &&& merged.idl_definitions@ == all_idl_definitions(specs)
}

proof fn lemma_first_by_anchor_push(sections: Seq<ParsedSection>, section: ParsedSection)
    ensures
        first_by_anchor(sections.push(section)) == (if has_anchor(sections, section.anchor@) {
            first_by_anchor(sections)
        } else {
            first_by_anchor(sections).push(section)
        }),
        forall|anchor: Seq<char>| #[trigger]
            has_anchor(sections.push(section), anchor) <==> has_anchor(sections, anchor) || anchor
                == section.anchor@,
{
    let pushed = sections.push(section);
    assert(pushed.drop_last() =~= sections);
    assert forall|anchor: Seq<char>| #[trigger]
        has_anchor(pushed, anchor) <==> has_anchor(sections, anchor) || anchor
            == section.anchor@ by {
        if has_anchor(sections, anchor) {
            let i = choose|i: int|
                0 <= i < sections.len() && (#[trigger] sections[i]).anchor@ == anchor;
            assert(pushed[i].anchor@ == anchor);
        }
        if anchor == section.anchor@ {
            assert(pushed[sections.len() as int].anchor@ == anchor);
        }
        if has_anchor(pushed, anchor) && anchor != section.anchor@ {
            let i = choose|i: int| 0 <= i < pushed.len() && (#[trigger] pushed[i]).anchor@ == anchor;
            assert(sections[i].anchor@ == anchor);
        }
    }
}

/// Merges what was parsed from several pages into one.
pub fn merge_parsed_specs(specs: Vec<ParsedSpec>) -> (merged: ParsedSpec)
    ensures
        merged_from(specs@, merged),
{
    let mut seen_anchors = StringHashSet::new();
    let mut sections: Vec<ParsedSection> = Vec::new();
    let mut references: Vec<ParsedReference> = Vec::new();
    let mut idl_definitions: Vec<ParsedIdlDefinition> = Vec::new();
    let ghost pages = specs@;
    for spec in pages_left: specs
        invariant
            pages_left.seq() == pages,
            forall|anchor: Seq<char>| #[trigger]
                seen_anchors@.contains(anchor) <==> has_anchor(
                    all_sections(pages.take(pages_left.index() as int)),
                    anchor,
                ),
            sections@ == first_by_anchor(all_sections(pages.take(pages_left.index() as int))),
            references@ == all_references(pages.take(pages_left.index() as int)),
            idl_definitions@ == all_idl_definitions(pages.take(pages_left.index() as int)),
    {
        let ghost done = pages.take(pages_left.index() as int);
        let ghost now_done = pages.take(pages_left.index() + 1);
        assert(now_done.drop_last() =~= done);
        assert(now_done.last() == spec);
        let mut spec_references = spec.references;
        let mut spec_idl_definitions = spec.idl_definitions;
        let ghost before = all_sections(done);
        let ghost added = spec.sections@;
        for section in left: spec.sections
            invariant
                left.seq() == added,
                forall|anchor: Seq<char>| #[trigger]
                    seen_anchors@.contains(anchor) <==> has_anchor(
                        before + added.take(left.index() as int),
                        anchor,
                    ),
                sections@ == first_by_anchor(before + added.take(left.index() as int)),
        {
            let ghost so_far = before + added.take(left.index() as int);
            proof {
                assert(before + added.take(left.index() + 1) =~= so_far.push(section));
                lemma_first_by_anchor_push(so_far, section);
            }
            if seen_anchors.insert(section.anchor.clone()) {
                sections.push(section);
            }
        }
        assert(added.take(added.len() as int) =~= added);
        references.append(&mut spec_references);
        idl_definitions.append(&mut spec_idl_definitions);
    }
    assert(pages.take(pages.len() as int) =~= pages);
    ParsedSpec { sections, references, idl_definitions }
}

/// The places of `sections` at which an anchor stands for the first time.
pub open spec fn first_places(sections: Seq<ParsedSection>) -> Seq<int>
    decreases sections.len(),
{
    if sections.len() == 0 {
        Seq::empty()
    } else {
        let places = first_places(sections.drop_last());
        if has_anchor(sections.drop_last(), sections.last().anchor@) {
            places
        } else {
            places.push(sections.len() - 1)
        }
    }
}

/// Merging keeps the sections at the places where an anchor stands for the
/// first time, all of those and no others, in their order.
pub proof fn law_merge_keeps_first_of_each_anchor(sections: Seq<ParsedSection>)
    ensures
        first_by_anchor(sections).len() == first_places(sections).len(),
        forall|k: int|
            0 <= k < first_places(sections).len() ==> {
                &&& 0 <= #[trigger] first_places(sections)[k] < sections.len()
                &&& first_by_anchor(sections)[k] == sections[first_places(sections)[k]]
            },
        forall|k: int, l: int|
            0 <= k < l < first_places(sections).len() ==> #[trigger] first_places(sections)[k]
                < #[trigger] first_places(sections)[l],
        forall|i: int| #![trigger sections[i]]
            0 <= i < sections.len() ==> (first_places(sections).contains(i) <==> !has_anchor(
                sections.take(i),
                sections[i].anchor@,
            )),
    decreases sections.len(),
{
    if sections.len() > 0 {
        let front = sections.drop_last();
        let last = sections.len() - 1;
        law_merge_keeps_first_of_each_anchor(front);
        let places = first_places(sections);
        assert(sections.take(last) =~= front);
        assert forall|k: int| 0 <= k < places.len() implies {
            &&& 0 <= #[trigger] places[k] < sections.len()
            &&& first_by_anchor(sections)[k] == sections[places[k]]
        } by {
            if k < first_places(front).len() {
                assert(places[k] == first_places(front)[k]);
            }
        }
        assert forall|i: int| #![trigger sections[i]] 0 <= i < sections.len() implies (places.contains(
            i,
        ) <==> !has_anchor(sections.take(i), sections[i].anchor@)) by {
            if i < last {
                assert(front.take(i) =~= sections.take(i));
                assert(front[i] == sections[i]);
                if first_places(front).contains(i) {
                    let k = choose|k: int|
                        0 <= k < first_places(front).len() && first_places(front)[k] == i;
                    assert(places[k] == i);
                }
                if places.contains(i) {
                    let k = choose|k: int| 0 <= k < places.len() && places[k] == i;
                    assert(first_places(front)[k] == i);
                }
            } else {
                if has_anchor(front, sections[i].anchor@) {
                    assert forall|k: int| 0 <= k < places.len() implies places[k] != i by {
                        assert(places[k] == first_places(front)[k]);
                    }
                } else {
                    assert(places[places.len() - 1] == i);
                }
            }
        }
    }
}

/// After merging, no two sections stand under one anchor.
pub proof fn law_merged_anchors_are_distinct(sections: Seq<ParsedSection>)
    ensures
        forall|k: int, l: int|
            0 <= k < l < first_by_anchor(sections).len() ==> (#[trigger] first_by_anchor(
                sections,
            )[k]).anchor@ != (#[trigger] first_by_anchor(sections)[l]).anchor@,
{
    law_merge_keeps_first_of_each_anchor(sections);
    let kept = first_by_anchor(sections);
    let places = first_places(sections);
    assert forall|k: int, l: int| 0 <= k < l < kept.len() implies (#[trigger] kept[k]).anchor@ != (
    #[trigger] kept[l]).anchor@ by {
        let i = places[k];
        let j = places[l];
        assert(places.contains(j));
        assert(sections[j] == kept[l]);
        assert(!has_anchor(sections.take(j), sections[j].anchor@));
        assert(sections.take(j)[i] == kept[k]);
    }
}

/// Merging loses no anchor and adds none.
pub proof fn law_merge_keeps_every_anchor(sections: Seq<ParsedSection>, anchor: Seq<char>)
    ensures
        has_anchor(first_by_anchor(sections), anchor) <==> has_anchor(sections, anchor),
    decreases sections.len(),
{
    if sections.len() > 0 {
        let front = sections.drop_last();
        assert(front.push(sections.last()) =~= sections);
        law_merge_keeps_every_anchor(front, anchor);
        lemma_first_by_anchor_push(front, sections.last());
        if !has_anchor(front, sections.last().anchor@) {
            lemma_first_by_anchor_push(first_by_anchor(front), sections.last());
        }
    }
}

/// What was merged has sections if and only if one of its pages has.
pub proof fn law_merge_keeps_sections(specs: Seq<ParsedSpec>, merged: ParsedSpec)
    requires
        merged_from(specs, merged),
    ensures
        merged.sections@.len() > 0 <==> exists|i: int|
            0 <= i < specs.len() && (#[trigger] specs[i]).sections@.len() > 0,
{
    let all = all_sections(specs);
    lemma_some_section(specs);
    if all.len() > 0 {
        assert(has_anchor(all, all[0].anchor@));
        law_merge_keeps_every_anchor(all, all[0].anchor@);
    }
}

proof fn lemma_some_section(specs: Seq<ParsedSpec>)
    ensures
        all_sections(specs).len() > 0 <==> exists|i: int|
            0 <= i < specs.len() && (#[trigger] specs[i]).sections@.len() > 0,
    decreases specs.len(),
{
    if specs.len() > 0 {
        let front = specs.drop_last();
        lemma_some_section(front);
        if all_sections(front).len() > 0 {
            let i = choose|i: int| 0 <= i < front.len() && (#[trigger] front[i]).sections@.len() > 0;
            assert(specs[i].sections@.len() > 0);
        }
        if specs.last().sections@.len() > 0 {
            assert(specs[specs.len() - 1].sections@.len() > 0);
        }
        if all_sections(specs).len() == 0 {
            assert forall|i: int| 0 <= i < specs.len() implies (
            #[trigger] specs[i]).sections@.len() == 0 by {
                if i < front.len() {
                    assert(front[i].sections@.len() == 0);
                }
            }
        }
    }
}

/// Merging in stages gives what merging at once gives: what was merged already
/// may take the place of its pages, whatever stands before and after them.
pub proof fn law_merge_in_stages(
    before: Seq<ParsedSpec>,
    part: Seq<ParsedSpec>,
    merged: ParsedSpec,
    after: Seq<ParsedSpec>,
    result: ParsedSpec,
)
    requires
        merged_from(part, merged),
        merged_from(before + seq![merged] + after, result),
    ensures
        merged_from(before + part + after, result),
{
    lemma_all_of_both(before, part);
    lemma_all_of_both(before + part, after);
    lemma_all_of_both(before, seq![merged]);
    lemma_all_of_both(before + seq![merged], after);
    assert(seq![merged].drop_last() =~= Seq::empty());
    reveal_with_fuel(all_sections, 2);
    reveal_with_fuel(all_references, 2);
    reveal_with_fuel(all_idl_definitions, 2);
    assert(all_sections(seq![merged]) =~= merged.sections@);
    assert(all_references(seq![merged]) =~= merged.references@);
    assert(all_idl_definitions(seq![merged]) =~= merged.idl_definitions@);
    let a = all_sections(before);
    let b = all_sections(part);
    let c = all_sections(after);
    lemma_first_by_anchor_of_rest(a, b);
    lemma_first_by_anchor_in_stages(a + b, c);
    lemma_first_by_anchor_in_stages(a + first_by_anchor(b), c);
}

/// Where two parts are merged by themselves, merging the results gives what
/// merging all pages at once gives.
pub proof fn law_merge_of_merged_parts(
    first: Seq<ParsedSpec>,
    merged_first: ParsedSpec,
    second: Seq<ParsedSpec>,
    merged_second: ParsedSpec,
    result: ParsedSpec,
)
    requires
        merged_from(first, merged_first),
        merged_from(second, merged_second),
        merged_from(seq![merged_first, merged_second], result),
    ensures
        merged_from(first + second, result),
{
    let none = Seq::<ParsedSpec>::empty();
    assert(seq![merged_first, merged_second] =~= none + seq![merged_first] + seq![merged_second]);
    law_merge_in_stages(none, first, merged_first, seq![merged_second], result);
    assert(none + first + seq![merged_second] =~= first + seq![merged_second] + none);
    law_merge_in_stages(first, second, merged_second, none, result);
    assert(first + second + none =~= first + second);
}

proof fn lemma_all_of_both(first: Seq<ParsedSpec>, second: Seq<ParsedSpec>)
    ensures
        all_sections(first + second) == all_sections(first) + all_sections(second),
        all_references(first + second) == all_references(first) + all_references(second),
        all_idl_definitions(first + second) == all_idl_definitions(first) + all_idl_definitions(
            second,
        ),
    decreases second.len(),
{
    if second.len() == 0 {
        assert(first + second =~= first);
    } else {
        lemma_all_of_both(first, second.drop_last());
        assert((first + second).drop_last() =~= first + second.drop_last());
    }
    assert(all_sections(first + second) =~= all_sections(first) + all_sections(second));
    assert(all_references(first + second) =~= all_references(first) + all_references(second));
    assert(all_idl_definitions(first + second) =~= all_idl_definitions(first)
        + all_idl_definitions(second));
}

proof fn lemma_first_by_anchor_in_stages(first: Seq<ParsedSection>, second: Seq<ParsedSection>)
    ensures
        first_by_anchor(first_by_anchor(first) + second) == first_by_anchor(first + second),
    decreases second.len(),
{
    let kept = first_by_anchor(first);
    if second.len() == 0 {
        assert(first + second =~= first);
        assert(kept + second =~= kept);
        law_merged_anchors_are_distinct(first);
        lemma_distinct_kept_whole(kept);
    } else {
        let front = second.drop_last();
        let section = second.last();
        lemma_first_by_anchor_in_stages(first, front);
        assert(first + second =~= (first + front).push(section));
        assert(kept + second =~= (kept + front).push(section));
        lemma_first_by_anchor_push(first + front, section);
        lemma_first_by_anchor_push(kept + front, section);
        lemma_anchor_in_either(first, front, section.anchor@);
        lemma_anchor_in_either(kept, front, section.anchor@);
        law_merge_keeps_every_anchor(first, section.anchor@);
    }
}

proof fn lemma_first_by_anchor_of_rest(first: Seq<ParsedSection>, second: Seq<ParsedSection>)
    ensures
        first_by_anchor(first + first_by_anchor(second)) == first_by_anchor(first + second),
    decreases second.len(),
{
    if second.len() == 0 {
        assert(first_by_anchor(second) =~= second);
    } else {
        let front = second.drop_last();
        let section = second.last();
        let kept = first_by_anchor(front);
        lemma_first_by_anchor_of_rest(first, front);
        assert(first + second =~= (first + front).push(section));
        assert(first + kept.push(section) =~= (first + kept).push(section));
        lemma_first_by_anchor_push(first + front, section);
        lemma_first_by_anchor_push(first + kept, section);
        lemma_anchor_in_either(first, front, section.anchor@);
        lemma_anchor_in_either(first, kept, section.anchor@);
        law_merge_keeps_every_anchor(front, section.anchor@);
    }
}

proof fn lemma_anchor_in_either(
    first: Seq<ParsedSection>,
    second: Seq<ParsedSection>,
    anchor: Seq<char>,
)
    ensures
        has_anchor(first + second, anchor) <==> has_anchor(first, anchor) || has_anchor(
            second,
            anchor,
        ),
{
    let both = first + second;
    if has_anchor(first, anchor) {
        let i = choose|i: int| 0 <= i < first.len() && (#[trigger] first[i]).anchor@ == anchor;
        assert(both[i].anchor@ == anchor);
    }
    if has_anchor(second, anchor) {
        let i = choose|i: int| 0 <= i < second.len() && (#[trigger] second[i]).anchor@ == anchor;
        assert(both[first.len() + i].anchor@ == anchor);
    }
    if has_anchor(both, anchor) {
        let i = choose|i: int| 0 <= i < both.len() && (#[trigger] both[i]).anchor@ == anchor;
        if i < first.len() {
            assert(first[i].anchor@ == anchor);
        } else {
            assert(second[i - first.len()].anchor@ == anchor);
        }
    }
}

proof fn lemma_distinct_kept_whole(sections: Seq<ParsedSection>)
    requires
        forall|k: int, l: int|
            0 <= k < l < sections.len() ==> (#[trigger] sections[k]).anchor@ != (
            #[trigger] sections[l]).anchor@,
    ensures
        first_by_anchor(sections) == sections,
    decreases sections.len(),
{
    if sections.len() > 0 {
        let front = sections.drop_last();
        lemma_distinct_kept_whole(front);
        assert(!has_anchor(front, sections.last().anchor@));
        assert(front.push(sections.last()) =~= sections);
    } else {
        assert(first_by_anchor(sections) =~= sections);
    }
}

/// Merging one page alone keeps its references and definitions as they are, and
/// its sections as they are where no two stand under one anchor.
pub proof fn law_merge_of_one_page(page: ParsedSpec, merged: ParsedSpec)
    requires
        merged_from(seq![page], merged),
    ensures
        merged.references@ == page.references@,
        merged.idl_definitions@ == page.idl_definitions@,
        (forall|k: int, l: int|
            0 <= k < l < page.sections@.len() ==> (#[trigger] page.sections@[k]).anchor@ != (
            #[trigger] page.sections@[l]).anchor@) ==> merged.sections@ == page.sections@,
{
    lemma_all_of_one(page);
    if forall|k: int, l: int|
        0 <= k < l < page.sections@.len() ==> (#[trigger] page.sections@[k]).anchor@ != (
        #[trigger] page.sections@[l]).anchor@ {
        lemma_distinct_kept_whole(page.sections@);
    }
}

proof fn lemma_all_of_one(page: ParsedSpec)
    ensures
        all_sections(seq![page]) == page.sections@,
        all_references(seq![page]) == page.references@,
        all_idl_definitions(seq![page]) == page.idl_definitions@,
{
    assert(seq![page].drop_last() =~= Seq::empty());
    reveal_with_fuel(all_sections, 2);
    reveal_with_fuel(all_references, 2);
    reveal_with_fuel(all_idl_definitions, 2);
    assert(all_sections(seq![page]) =~= page.sections@);
    assert(all_references(seq![page]) =~= page.references@);
    assert(all_idl_definitions(seq![page]) =~= page.idl_definitions@);
}

/// References and definitions of more pages follow those of the pages before,
/// with none left out, added or moved.
pub proof fn law_merge_appends_references(
    first: Seq<ParsedSpec>,
    merged_first: ParsedSpec,
    second: Seq<ParsedSpec>,
    merged_second: ParsedSpec,
    merged: ParsedSpec,
)
    requires
        merged_from(first, merged_first),
        merged_from(second, merged_second),
        merged_from(first + second, merged),
    ensures
        merged.references@ == merged_first.references@ + merged_second.references@,
        merged.idl_definitions@ == merged_first.idl_definitions@ + merged_second.idl_definitions@,
{
    lemma_all_of_both(first, second);
}

/// One more page adds sections of its own behind those that were merged before,
/// which stay as they are. No anchor comes to stand there twice, and none of
/// the page's is missing.
pub proof fn law_merge_adds_new_anchors(
    pages: Seq<ParsedSpec>,
    merged: ParsedSpec,
    page: ParsedSpec,
    extended: ParsedSpec,
)
    requires
        merged_from(pages, merged),
        merged_from(pages.push(page), extended),
    ensures
        merged.sections@.is_prefix_of(extended.sections@),
        forall|k: int, l: int|
            0 <= k < l < extended.sections@.len() ==> (#[trigger] extended.sections@[k]).anchor@
                != (#[trigger] extended.sections@[l]).anchor@,
        forall|k: int|
            merged.sections@.len() <= k < extended.sections@.len() ==> exists|i: int|
                0 <= i < page.sections@.len() && page.sections@[i]
                    == #[trigger] extended.sections@[k],
        forall|i: int|
            0 <= i < page.sections@.len() ==> exists|k: int|
                0 <= k < extended.sections@.len() && (#[trigger] extended.sections@[k]).anchor@
                    == (#[trigger] page.sections@[i]).anchor@,
{
    let all = all_sections(pages);
    let added = page.sections@;
    assert(pages.push(page).drop_last() =~= pages);
    assert(all_sections(pages.push(page)) == all + added);
    lemma_first_by_anchor_extends(all, added);
    law_merged_anchors_are_distinct(all + added);
    assert forall|i: int| 0 <= i < added.len() implies exists|k: int|
        0 <= k < extended.sections@.len() && (#[trigger] extended.sections@[k]).anchor@ == (
        #[trigger] added[i]).anchor@ by {
        assert((all + added)[all.len() + i] == added[i]);
        assert(has_anchor(all + added, added[i].anchor@));
        law_merge_keeps_every_anchor(all + added, added[i].anchor@);
    }
}

proof fn lemma_first_by_anchor_extends(all: Seq<ParsedSection>, added: Seq<ParsedSection>)
    ensures
        first_by_anchor(all).is_prefix_of(first_by_anchor(all + added)),
        forall|k: int|
            first_by_anchor(all).len() <= k < first_by_anchor(all + added).len() ==> exists|i: int|
                0 <= i < added.len() && added[i] == #[trigger] first_by_anchor(all + added)[k],
    decreases added.len(),
{
    let kept = first_by_anchor(all);
    if added.len() == 0 {
        assert(all + added =~= all);
    } else {
        let front = added.drop_last();
        lemma_first_by_anchor_extends(all, front);
        assert(all + added =~= (all + front).push(added.last()));
        lemma_first_by_anchor_push(all + front, added.last());
        let before = first_by_anchor(all + front);
        let after = first_by_anchor(all + added);
        assert(kept =~= after.subrange(0, kept.len() as int)) by {
            assert(kept == before.subrange(0, kept.len() as int));
        }
        assert forall|k: int| kept.len() <= k < after.len() implies exists|i: int|
            0 <= i < added.len() && added[i] == #[trigger] after[k] by {
            if k < before.len() {
                let i = choose|i: int| 0 <= i < front.len() && front[i] == before[k];
                assert(added[i] == after[k]);
            } else {
                assert(added[added.len() - 1] == after[k]);
            }
        }
    }
}

/// Of the sections under one anchor the very first stands in what was merged.
pub proof fn law_merge_keeps_the_first(specs: Seq<ParsedSpec>, merged: ParsedSpec, p: int, i: int)
    requires
        merged_from(specs, merged),
        0 <= p < specs.len(),
        0 <= i < specs[p].sections@.len(),
        forall|q: int, j: int|
            0 <= q <= p && 0 <= j < specs[q].sections@.len() && (q < p || j < i)
                ==> (#[trigger] specs[q].sections@[j]).anchor@ != specs[p].sections@[i].anchor@,
    ensures
        merged.sections@.contains(specs[p].sections@[i]),
{
    let section = specs[p].sections@[i];
    let front = specs.take(p);
    let rest = specs.skip(p + 1);
    assert(specs =~= front + seq![specs[p]] + rest);
    lemma_all_of_one(specs[p]);
    lemma_all_of_both(front, seq![specs[p]]);
    lemma_all_of_both(front + seq![specs[p]], rest);
    let before = all_sections(front) + specs[p].sections@.take(i);
    let after = specs[p].sections@.skip(i + 1) + all_sections(rest);
    assert(all_sections(specs) =~= before.push(section) + after);
    lemma_no_anchor(front, section.anchor@);
    if has_anchor(before, section.anchor@) {
        let at = choose|at: int|
            0 <= at < before.len() && (#[trigger] before[at]).anchor@ == section.anchor@;
        if at < all_sections(front).len() {
            assert(has_anchor(all_sections(front), section.anchor@)) by {
                assert(all_sections(front)[at].anchor@ == section.anchor@);
            }
        } else {
            let j = at - all_sections(front).len();
            assert(specs[p].sections@[j].anchor@ == section.anchor@);
        }
    }
    lemma_first_by_anchor_push(before, section);
    lemma_first_by_anchor_extends(before.push(section), after);
    let kept = first_by_anchor(before.push(section));
    let n = kept.len() - 1;
    assert(kept[n] == section);
    assert(kept =~= merged.sections@.subrange(0, kept.len() as int));
    assert(merged.sections@[n] == section);
}

proof fn lemma_no_anchor(specs: Seq<ParsedSpec>, anchor: Seq<char>)
    requires
        forall|q: int, j: int|
            0 <= q < specs.len() && 0 <= j < specs[q].sections@.len()
                ==> (#[trigger] specs[q].sections@[j]).anchor@ != anchor,
    ensures
        !has_anchor(all_sections(specs), anchor),
    decreases specs.len(),
{
    if specs.len() > 0 {
        let front = specs.drop_last();
        assert forall|q: int, j: int|
            0 <= q < front.len() && 0 <= j < front[q].sections@.len() implies (
        #[trigger] front[q].sections@[j]).anchor@ != anchor by {
            assert(specs[q].sections@[j].anchor@ != anchor);
        }
        lemma_no_anchor(front, anchor);
        lemma_anchor_in_either(all_sections(front), specs.last().sections@, anchor);
        let q = specs.len() - 1;
        if has_anchor(specs.last().sections@, anchor) {
            let j = choose|j: int|
                0 <= j < specs.last().sections@.len() && (
                #[trigger] specs.last().sections@[j]).anchor@ == anchor;
            assert(specs[q].sections@[j].anchor@ != anchor);
        }
    }
}

} // verus!
