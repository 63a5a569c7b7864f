//! The iteration surface a renderer consumes.
//!
//! The tree exposes flattened views: all sections in entry order, all
//! subsections in section order then subsection order, and all pages with
//! root pages first, then section-level pages, then subsection-level pages.
//! The small string predicates at the end are the tests a template engine
//! applies to entry tags and optional text.

use vstd::prelude::*;
use vstd::string::StringExecFns;

use crate::tree::Page;
use crate::tree::Section;
use crate::tree::SectionEntry;
use crate::tree::Subsection;
use crate::tree::Tree;
use crate::tree::TreeEntry;

verus! {

/// The sections among the tree entries, in entry order.
pub open spec fn tree_sections(entries: Seq<TreeEntry>) -> Seq<Section>
    decreases entries.len(),
{
    if entries.len() == 0 {
        Seq::empty()
    } else {
        let rest = tree_sections(entries.drop_last());
        match entries.last() {
            TreeEntry::Section(s) => rest.push(s),
            TreeEntry::Page(_) => rest,
        }
    }
}

/// The root-level pages among the tree entries, in entry order.
pub open spec fn tree_root_pages(entries: Seq<TreeEntry>) -> Seq<Page>
    decreases entries.len(),
{
    if entries.len() == 0 {
        Seq::empty()
    } else {
        let rest = tree_root_pages(entries.drop_last());
        match entries.last() {
            TreeEntry::Page(p) => rest.push(p),
            TreeEntry::Section(_) => rest,
        }
    }
}

/// The subsections among a section's entries, in entry order.
pub open spec fn section_subsections(entries: Seq<SectionEntry>) -> Seq<Subsection>
    decreases entries.len(),
{
    if entries.len() == 0 {
        Seq::empty()
    } else {
        let rest = section_subsections(entries.drop_last());
        match entries.last() {
            SectionEntry::Subsection(s) => rest.push(s),
            SectionEntry::Page(_) => rest,
        }
    }
}

/// The direct pages among a section's entries, in entry order.
pub open spec fn section_pages(entries: Seq<SectionEntry>) -> Seq<Page>
    decreases entries.len(),
{
    if entries.len() == 0 {
        Seq::empty()
    } else {
        let rest = section_pages(entries.drop_last());
        match entries.last() {
            SectionEntry::Page(p) => rest.push(p),
            SectionEntry::Subsection(_) => rest,
        }
    }
}

/// All subsections of the given sections, flattened in section order.
pub open spec fn subsections_of(secs: Seq<Section>) -> Seq<Subsection>
    decreases secs.len(),
{
    if secs.len() == 0 {
        Seq::empty()
    } else {
        subsections_of(secs.drop_last()) + section_subsections(secs.last().entries@)
    }
}

/// All direct pages of the given sections, flattened in section order.
pub open spec fn section_level_pages(secs: Seq<Section>) -> Seq<Page>
    decreases secs.len(),
{
    if secs.len() == 0 {
        Seq::empty()
    } else {
        section_level_pages(secs.drop_last()) + section_pages(secs.last().entries@)
    }
}

/// All pages of the given subsections, flattened in subsection order.
pub open spec fn subsection_pages(subs: Seq<Subsection>) -> Seq<Page>
    decreases subs.len(),
{
    if subs.len() == 0 {
        Seq::empty()
    } else {
        subsection_pages(subs.drop_last()) + subs.last().pages@
    }
}

/// Every page of the tree, in the renderer's priority order: root pages,
/// then section-level pages, then subsection-level pages. The synthesized
/// main page is not among them.
pub open spec fn all_pages(t: Tree) -> Seq<Page> {
    tree_root_pages(t.entries@) + section_level_pages(tree_sections(t.entries@))
        + subsection_pages(subsections_of(tree_sections(t.entries@)))
}

proof fn lemma_tree_sections_take_step(entries: Seq<TreeEntry>, i: int)
    requires
        0 <= i < entries.len(),
    ensures
        entries[i] matches TreeEntry::Section(s) ==> tree_sections(entries.take(i + 1))
            == tree_sections(entries.take(i)).push(s),
        entries[i] is Page ==> tree_sections(entries.take(i + 1)) == tree_sections(
            entries.take(i),
        ),
{
    assert(entries.take(i + 1).drop_last() =~= entries.take(i));
    assert(entries.take(i + 1).last() == entries[i]);
}

proof fn lemma_tree_root_pages_take_step(entries: Seq<TreeEntry>, i: int)
    requires
        0 <= i < entries.len(),
    ensures
        entries[i] matches TreeEntry::Page(p) ==> tree_root_pages(entries.take(i + 1))
            == tree_root_pages(entries.take(i)).push(p),
        entries[i] is Section ==> tree_root_pages(entries.take(i + 1)) == tree_root_pages(
            entries.take(i),
        ),
{
    assert(entries.take(i + 1).drop_last() =~= entries.take(i));
    assert(entries.take(i + 1).last() == entries[i]);
}

proof fn lemma_section_subsections_take_step(entries: Seq<SectionEntry>, i: int)
    requires
        0 <= i < entries.len(),
    ensures
        entries[i] matches SectionEntry::Subsection(s) ==> section_subsections(
            entries.take(i + 1),
        ) == section_subsections(entries.take(i)).push(s),
        entries[i] is Page ==> section_subsections(entries.take(i + 1)) == section_subsections(
            entries.take(i),
        ),
{
    assert(entries.take(i + 1).drop_last() =~= entries.take(i));
    assert(entries.take(i + 1).last() == entries[i]);
}

proof fn lemma_section_pages_take_step(entries: Seq<SectionEntry>, i: int)
    requires
        0 <= i < entries.len(),
    ensures
        entries[i] matches SectionEntry::Page(p) ==> section_pages(entries.take(i + 1))
            == section_pages(entries.take(i)).push(p),
        entries[i] is Subsection ==> section_pages(entries.take(i + 1)) == section_pages(
            entries.take(i),
        ),
{
    assert(entries.take(i + 1).drop_last() =~= entries.take(i));
    assert(entries.take(i + 1).last() == entries[i]);
}

proof fn lemma_subsections_of_take_step(secs: Seq<Section>, i: int)
    requires
        0 <= i < secs.len(),
    ensures
        subsections_of(secs.take(i + 1)) == subsections_of(secs.take(i)) + section_subsections(
            secs[i].entries@,
        ),
{
    assert(secs.take(i + 1).drop_last() =~= secs.take(i));
    assert(secs.take(i + 1).last() == secs[i]);
}

proof fn lemma_section_level_pages_take_step(secs: Seq<Section>, i: int)
    requires
        0 <= i < secs.len(),
    ensures
        section_level_pages(secs.take(i + 1)) == section_level_pages(secs.take(i))
            + section_pages(secs[i].entries@),
{
    assert(secs.take(i + 1).drop_last() =~= secs.take(i));
    assert(secs.take(i + 1).last() == secs[i]);
}

proof fn lemma_subsection_pages_take_step(subs: Seq<Subsection>, i: int)
    requires
        0 <= i < subs.len(),
    ensures
        subsection_pages(subs.take(i + 1)) == subsection_pages(subs.take(i)) + subs[i].pages@,
{
    assert(subs.take(i + 1).drop_last() =~= subs.take(i));
    assert(subs.take(i + 1).last() == subs[i]);
}

/// The subsections among one section's entries, in entry order.
fn section_sub_refs<'a>(sec: &'a Section) -> (r: Vec<&'a Subsection>)
    ensures
        r@.len() == section_subsections(sec.entries@).len(),
        forall|m: int|
            0 <= m < r@.len() ==> *(#[trigger] r@[m]) == section_subsections(sec.entries@)[m],
{
    let mut r: Vec<&Subsection> = Vec::new();
    let mut i: usize = 0;
    while i < sec.entries.len()
        invariant
            i <= sec.entries@.len(),
            r@.len() == section_subsections(sec.entries@.take(i as int)).len(),
            forall|m: int|
                0 <= m < r@.len() ==> *(#[trigger] r@[m]) == section_subsections(
                    sec.entries@.take(i as int),
                )[m],
        decreases sec.entries@.len() - i,
    {
        match &sec.entries[i] {
            SectionEntry::Subsection(s) => r.push(s),
            SectionEntry::Page(_) => {},
        }
        proof {
            lemma_section_subsections_take_step(sec.entries@, i as int);
        }
        i += 1;
    }
    proof {
        assert(sec.entries@.take(sec.entries@.len() as int) =~= sec.entries@);
    }
    r
}

/// The direct pages among one section's entries, in entry order.
fn section_page_refs<'a>(sec: &'a Section) -> (r: Vec<&'a Page>)
    ensures
        r@.len() == section_pages(sec.entries@).len(),
        forall|m: int| 0 <= m < r@.len() ==> *(#[trigger] r@[m]) == section_pages(sec.entries@)[m],
{
    let mut r: Vec<&Page> = Vec::new();
    let mut i: usize = 0;
    while i < sec.entries.len()
        invariant
            i <= sec.entries@.len(),
            r@.len() == section_pages(sec.entries@.take(i as int)).len(),
            forall|m: int|
                0 <= m < r@.len() ==> *(#[trigger] r@[m]) == section_pages(
                    sec.entries@.take(i as int),
                )[m],
        decreases sec.entries@.len() - i,
    {
        match &sec.entries[i] {
            SectionEntry::Page(p) => r.push(p),
            SectionEntry::Subsection(_) => {},
        }
        proof {
            lemma_section_pages_take_step(sec.entries@, i as int);
        }
        i += 1;
    }
    proof {
        assert(sec.entries@.take(sec.entries@.len() as int) =~= sec.entries@);
    }
    r
}

/// One subsection's pages, by reference.
fn subsection_page_refs<'a>(sub: &'a Subsection) -> (r: Vec<&'a Page>)
    ensures
        r@.len() == sub.pages@.len(),
        forall|m: int| 0 <= m < r@.len() ==> *(#[trigger] r@[m]) == sub.pages@[m],
{
    let mut r: Vec<&Page> = Vec::new();
    let mut i: usize = 0;
    while i < sub.pages.len()
        invariant
            i <= sub.pages@.len(),
            r@.len() == i,
            forall|m: int| 0 <= m < r@.len() ==> *(#[trigger] r@[m]) == sub.pages@[m],
        decreases sub.pages@.len() - i,
    {
        r.push(&sub.pages[i]);
        i += 1;
    }
    r
}

impl Tree {
    /// All sections, in entry order.
    pub fn sections(&self) -> (r: Vec<&Section>)
        ensures
            r@.len() == tree_sections(self.entries@).len(),
            forall|m: int|
                0 <= m < r@.len() ==> *(#[trigger] r@[m]) == tree_sections(self.entries@)[m],
    {
        let mut r: Vec<&Section> = Vec::new();
        let mut i: usize = 0;
        while i < self.entries.len()
            invariant
                i <= self.entries@.len(),
                r@.len() == tree_sections(self.entries@.take(i as int)).len(),
                forall|m: int|
                    0 <= m < r@.len() ==> *(#[trigger] r@[m]) == tree_sections(
                        self.entries@.take(i as int),
                    )[m],
            decreases self.entries@.len() - i,
        {
            match &self.entries[i] {
                TreeEntry::Section(s) => r.push(s),
                TreeEntry::Page(_) => {},
            }
            proof {
                lemma_tree_sections_take_step(self.entries@, i as int);
            }
            i += 1;
        }
        proof {
            assert(self.entries@.take(self.entries@.len() as int) =~= self.entries@);
        }
        r
    }

    /// All subsections, flattened: section order first, then subsection
    /// order within each section.
    pub fn subsections(&self) -> (r: Vec<&Subsection>)
        ensures
            r@.len() == subsections_of(tree_sections(self.entries@)).len(),
            forall|m: int|
                0 <= m < r@.len() ==> *(#[trigger] r@[m]) == subsections_of(
                    tree_sections(self.entries@),
                )[m],
    {
        let ghost sseq = tree_sections(self.entries@);
        let secs = self.sections();
        let mut r: Vec<&Subsection> = Vec::new();
        let mut i: usize = 0;
        while i < secs.len()
            invariant
                i <= secs@.len(),
                secs@.len() == sseq.len(),
                sseq == tree_sections(self.entries@),
                forall|k: int| 0 <= k < secs@.len() ==> *(#[trigger] secs@[k]) == sseq[k],
                r@.len() == subsections_of(sseq.take(i as int)).len(),
                forall|m: int|
                    0 <= m < r@.len() ==> *(#[trigger] r@[m]) == subsections_of(
                        sseq.take(i as int),
                    )[m],
            decreases secs@.len() - i,
        {
            let ghost prev = r@;
            let mut part = section_sub_refs(secs[i]);
            let ghost partseq = part@;
            r.append(&mut part);
            proof {
                assert(r@ == prev + partseq);
                lemma_subsections_of_take_step(sseq, i as int);
            }
            i += 1;
        }
        proof {
            assert(sseq.take(sseq.len() as int) =~= sseq);
        }
        r
    }

    /// All pages, flattened in the renderer's priority order: root pages,
    /// then section-level pages, then subsection-level pages. The main
    /// page is not among them.
    pub fn pages(&self) -> (r: Vec<&Page>)
        ensures
            r@.len() == all_pages(*self).len(),
            forall|m: int| 0 <= m < r@.len() ==> *(#[trigger] r@[m]) == all_pages(*self)[m],
    {
        let ghost rp = tree_root_pages(self.entries@);
        let ghost sseq = tree_sections(self.entries@);
        let ghost slp = section_level_pages(sseq);
        let ghost ssubs = subsections_of(sseq);
        let mut r: Vec<&Page> = Vec::new();
        let mut i: usize = 0;
        while i < self.entries.len()
            invariant
                i <= self.entries@.len(),
                r@.len() == tree_root_pages(self.entries@.take(i as int)).len(),
                forall|m: int|
                    0 <= m < r@.len() ==> *(#[trigger] r@[m]) == tree_root_pages(
                        self.entries@.take(i as int),
                    )[m],
            decreases self.entries@.len() - i,
        {
            match &self.entries[i] {
                TreeEntry::Page(p) => r.push(p),
                TreeEntry::Section(_) => {},
            }
            proof {
                lemma_tree_root_pages_take_step(self.entries@, i as int);
            }
            i += 1;
        }
        proof {
            assert(self.entries@.take(self.entries@.len() as int) =~= self.entries@);
        }
        let secs = self.sections();
        let mut i2: usize = 0;
        while i2 < secs.len()
            invariant
                i2 <= secs@.len(),
                secs@.len() == sseq.len(),
                sseq == tree_sections(self.entries@),
                rp == tree_root_pages(self.entries@),
                forall|k: int| 0 <= k < secs@.len() ==> *(#[trigger] secs@[k]) == sseq[k],
                r@.len() == rp.len() + section_level_pages(sseq.take(i2 as int)).len(),
                forall|m: int| 0 <= m < rp.len() ==> *(#[trigger] r@[m]) == rp[m],
                forall|m: int|
                    rp.len() <= m < r@.len() ==> *(#[trigger] r@[m]) == section_level_pages(
                        sseq.take(i2 as int),
                    )[m - rp.len()],
            decreases secs@.len() - i2,
        {
            let ghost prev = r@;
            let mut part = section_page_refs(secs[i2]);
            let ghost partseq = part@;
            r.append(&mut part);
            proof {
                assert(r@ == prev + partseq);
                lemma_section_level_pages_take_step(sseq, i2 as int);
            }
            i2 += 1;
        }
        proof {
            assert(sseq.take(sseq.len() as int) =~= sseq);
        }
        let subs = self.subsections();
        let mut i3: usize = 0;
        while i3 < subs.len()
            invariant
                i3 <= subs@.len(),
                subs@.len() == ssubs.len(),
                sseq == tree_sections(self.entries@),
                ssubs == subsections_of(sseq),
                rp == tree_root_pages(self.entries@),
                slp == section_level_pages(sseq),
                forall|k: int| 0 <= k < subs@.len() ==> *(#[trigger] subs@[k]) == ssubs[k],
                r@.len() == rp.len() + slp.len() + subsection_pages(ssubs.take(i3 as int)).len(),
                forall|m: int| 0 <= m < rp.len() ==> *(#[trigger] r@[m]) == rp[m],
                forall|m: int|
                    rp.len() <= m < rp.len() + slp.len() ==> *(#[trigger] r@[m]) == slp[m
                        - rp.len()],
                forall|m: int|
                    rp.len() + slp.len() <= m < r@.len() ==> *(#[trigger] r@[m])
                        == subsection_pages(ssubs.take(i3 as int))[m - rp.len() - slp.len()],
            decreases subs@.len() - i3,
        {
            let ghost prev = r@;
            let mut part = subsection_page_refs(subs[i3]);
            let ghost partseq = part@;
            r.append(&mut part);
            proof {
                assert(r@ == prev + partseq);
                lemma_subsection_pages_take_step(ssubs, i3 as int);
            }
            i3 += 1;
        }
        proof {
            assert(ssubs.take(ssubs.len() as int) =~= ssubs);
            assert forall|m: int| 0 <= m < r@.len() implies *(r@[m]) == all_pages(*self)[m] by {
                if m < rp.len() {
                    assert(all_pages(*self)[m] == rp[m]);
                } else if m < rp.len() + slp.len() {
                    assert(all_pages(*self)[m] == slp[m - rp.len()]);
                } else {
                    assert(all_pages(*self)[m] == subsection_pages(ssubs)[m - rp.len()
                        - slp.len()]);
                }
            }
        }
        r
    }
}

/// Whether a template value is the empty string.
pub fn is_empty(value: String) -> (r: bool)
    ensures
        r == (value@.len() == 0),
{
    value.as_str().is_empty()
}

/// Whether an entry tag names a section.
pub fn is_section(value: String) -> (r: bool)
    ensures
        r == (value@ == "Section"@),
{
    let tag = String::from_str("Section");
    value == tag
}

/// Whether an entry tag names a page.
pub fn is_page(value: String) -> (r: bool)
    ensures
        r == (value@ == "Page"@),
{
    let tag = String::from_str("Page");
    value == tag
}

} // verus!
