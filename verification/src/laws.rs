//! Site-wide guarantees of discovery and assembly.
//!
//! These proof functions state, over the resolution relations that the
//! constructors ensure, the properties a renderer relies on: assembly
//! reproduces the declared records exactly, ordering of entries is fixed,
//! hrefs are well-formed, and a second run over unchanged inputs yields a
//! structurally identical result.

use vstd::prelude::*;

use crate::discover;
use crate::discover::DirListing;
use crate::paths;
use crate::records::ManifestSpec;
use crate::records::SectionSpec;
use crate::records::SubsectionSpec;
use crate::tree::Page;
use crate::tree::Section;
use crate::tree::SectionEntry;
use crate::tree::Subsection;
use crate::tree::Tree;
use crate::tree::TreeEntry;
use crate::tree::main_page_resolves;
use crate::tree::page_resolves;
use crate::tree::section_resolves;
use crate::tree::subsection_resolves;
use crate::tree::tree_resolves;

verus! {

/// A resolved subsection reproduces its declaration exactly: the declared
/// header, and one page per declared page carrying the declared name,
/// description and relative path — nothing invented, nothing dropped.
pub proof fn lemma_subsection_round_trip(
    s: Subsection,
    record: SubsectionSpec,
    location: Seq<char>,
    root: Seq<char>,
    mtimes: Seq<Option<i64>>,
)
    requires
        subsection_resolves(s, record, location, root, mtimes),
    ensures
        s.name@ == record.subsection.name@,
        s.desc@ == record.subsection.desc@,
        s.pages@.len() == record.pages@.len(),
        forall|j: int|
            0 <= j < record.pages@.len() ==> ((#[trigger] s.pages@[j]).name@
                == record.pages@[j].name@ && s.pages@[j].desc@ == record.pages@[j].desc@
                && s.pages@[j].path@ == paths::join_seq(location, record.pages@[j].path@)),
{
    assert forall|j: int|
        0 <= j < record.pages@.len() implies ((#[trigger] s.pages@[j]).name@
        == record.pages@[j].name@ && s.pages@[j].desc@ == record.pages@[j].desc@
        && s.pages@[j].path@ == paths::join_seq(location, record.pages@[j].path@)) by {
        assert(page_resolves(s.pages@[j], record.pages@[j], location, root, mtimes[j]));
    }
}

/// A resolved section reproduces its declaration exactly: the declared
/// header, the given subsections unchanged, and one page entry per
/// declared page carrying the declared name, description and relative
/// path.
pub proof fn lemma_section_round_trip(
    s: Section,
    record: SectionSpec,
    subs: Seq<Subsection>,
    location: Seq<char>,
    root: Seq<char>,
    mtimes: Seq<Option<i64>>,
)
    requires
        section_resolves(s, record, subs, location, root, mtimes),
    ensures
        s.name@ == record.section.name@,
        s.desc@ == record.section.desc@,
        s.entries@.len() == subs.len() + record.pages@.len(),
        forall|j: int|
            0 <= j < subs.len() ==> (#[trigger] s.entries@[j]) == SectionEntry::Subsection(
                subs[j],
            ),
        forall|j: int|
            subs.len() <= j < s.entries@.len() ==> ((#[trigger] s.entries@[j]) matches SectionEntry::Page(p)
                && p.name@ == record.pages@[j - subs.len()].name@ && p.desc@ == record.pages@[j
                - subs.len()].desc@ && p.path@ == paths::join_seq(
                location,
                record.pages@[j - subs.len()].path@,
            )),
{
}

/// The resolved tree reproduces the manifest exactly: the declared
/// metadata, the given sections unchanged, and one root page entry per
/// declared page carrying the declared name, description and relative
/// path.
pub proof fn lemma_tree_round_trip(
    t: Tree,
    record: ManifestSpec,
    secs: Seq<Section>,
    root: Seq<char>,
    mtimes: Seq<Option<i64>>,
    main_mtime: Option<i64>,
)
    requires
        tree_resolves(t, record, secs, root, mtimes, main_mtime),
    ensures
        t.title@ == record.title@,
        t.append_title == record.append_title,
        t.href_prepend@ == record.href_prepend@,
        t.footer_content@ == record.footer_content@,
        t.main_page.name@ == record.title@,
        t.entries@.len() == secs.len() + record.pages@.len(),
        forall|j: int|
            0 <= j < secs.len() ==> (#[trigger] t.entries@[j]) == TreeEntry::Section(secs[j]),
        forall|j: int|
            secs.len() <= j < t.entries@.len() ==> ((#[trigger] t.entries@[j]) matches TreeEntry::Page(p)
                && p.name@ == record.pages@[j - secs.len()].name@ && p.desc@ == record.pages@[j
                - secs.len()].desc@ && p.path@ == paths::join_seq(
                root,
                record.pages@[j - secs.len()].path@,
            )),
{
}

/// Within a resolved section, every subsection entry precedes every direct
/// page entry, whatever the declaration order was.
pub proof fn lemma_section_order(
    s: Section,
    record: SectionSpec,
    subs: Seq<Subsection>,
    location: Seq<char>,
    root: Seq<char>,
    mtimes: Seq<Option<i64>>,
)
    requires
        section_resolves(s, record, subs, location, root, mtimes),
    ensures
        forall|i: int, j: int|
            0 <= i < s.entries@.len() && 0 <= j < s.entries@.len() && (#[trigger] s.entries@[i])
                is Subsection && (#[trigger] s.entries@[j]) is Page ==> i < j,
{
    assert forall|i: int, j: int|
        0 <= i < s.entries@.len() && 0 <= j < s.entries@.len() && (#[trigger] s.entries@[i])
            is Subsection && (#[trigger] s.entries@[j]) is Page implies i < j by {
        if i >= subs.len() {
            assert(s.entries@[i] is Page);
        }
        if j < subs.len() {
            assert(s.entries@[j] == SectionEntry::Subsection(subs[j]));
        }
    }
}

/// In the resolved tree, every section entry precedes every root page
/// entry.
pub proof fn lemma_tree_order(
    t: Tree,
    record: ManifestSpec,
    secs: Seq<Section>,
    root: Seq<char>,
    mtimes: Seq<Option<i64>>,
    main_mtime: Option<i64>,
)
    requires
        tree_resolves(t, record, secs, root, mtimes, main_mtime),
    ensures
        forall|i: int, j: int|
            0 <= i < t.entries@.len() && 0 <= j < t.entries@.len() && (#[trigger] t.entries@[i])
                is Section && (#[trigger] t.entries@[j]) is Page ==> i < j,
{
    assert forall|i: int, j: int|
        0 <= i < t.entries@.len() && 0 <= j < t.entries@.len() && (#[trigger] t.entries@[i])
            is Section && (#[trigger] t.entries@[j]) is Page implies i < j by {
        if i >= secs.len() {
            assert(t.entries@[i] is Page);
        }
        if j < secs.len() {
            assert(t.entries@[j] == TreeEntry::Section(secs[j]));
        }
    }
}

/// A page href is well-formed: it begins with `/` and does not end with
/// `/`.
pub open spec fn page_href_wellformed(p: Page) -> bool {
    &&& p.href@.len() > 0
    &&& p.href@[0] == '/'
    &&& p.href@[p.href@.len() - 1] != '/'
}

/// A directory href is well-formed: it begins and ends with `/`.
pub open spec fn dir_href_wellformed(href: Seq<char>) -> bool {
    &&& href.len() >= 2
    &&& href[0] == '/'
    &&& href[href.len() - 1] == '/'
}

/// A resolved subsection's href begins and ends with `/`, and each of its
/// pages' hrefs begins with `/` and does not end with `/`.
pub proof fn lemma_subsection_hrefs(
    s: Subsection,
    record: SubsectionSpec,
    location: Seq<char>,
    root: Seq<char>,
    mtimes: Seq<Option<i64>>,
)
    requires
        subsection_resolves(s, record, location, root, mtimes),
    ensures
        dir_href_wellformed(s.href@),
        forall|j: int| 0 <= j < s.pages@.len() ==> page_href_wellformed(#[trigger] s.pages@[j]),
{
    paths::lemma_dir_href_shape(location, root);
    assert forall|j: int| 0 <= j < s.pages@.len() implies page_href_wellformed(
        #[trigger] s.pages@[j],
    ) by {
        assert(page_resolves(s.pages@[j], record.pages@[j], location, root, mtimes[j]));
        paths::lemma_page_href_shape(paths::join_seq(location, record.pages@[j].path@), root);
    }
}

/// A resolved section's href begins and ends with `/`; its direct pages'
/// hrefs begin with `/` and do not end with `/`; and, when each attached
/// subsection resolves its own declaration, the same holds below them.
pub proof fn lemma_section_hrefs(
    s: Section,
    record: SectionSpec,
    subs: Seq<Subsection>,
    location: Seq<char>,
    root: Seq<char>,
    mtimes: Seq<Option<i64>>,
    subrecords: Seq<SubsectionSpec>,
    sublocations: Seq<Seq<char>>,
    submtimes: Seq<Seq<Option<i64>>>,
)
    requires
        section_resolves(s, record, subs, location, root, mtimes),
        subrecords.len() == subs.len(),
        sublocations.len() == subs.len(),
        submtimes.len() == subs.len(),
        forall|k: int|
            0 <= k < subs.len() ==> subsection_resolves(
                #[trigger] subs[k],
                subrecords[k],
                sublocations[k],
                root,
                submtimes[k],
            ),
    ensures
        dir_href_wellformed(s.href@),
        forall|j: int|
            0 <= j < s.entries@.len() ==> ((#[trigger] s.entries@[j]) matches SectionEntry::Page(p)
                ==> page_href_wellformed(p)),
        forall|j: int|
            0 <= j < s.entries@.len() ==> ((#[trigger] s.entries@[j]) matches SectionEntry::Subsection(sub)
                ==> dir_href_wellformed(sub.href@) && forall|m: int|
                0 <= m < sub.pages@.len() ==> page_href_wellformed(#[trigger] sub.pages@[m])),
{
    paths::lemma_dir_href_shape(location, root);
    assert forall|j: int|
        0 <= j < s.entries@.len() implies ((#[trigger] s.entries@[j]) matches SectionEntry::Page(p)
        ==> page_href_wellformed(p)) by {
        if s.entries@[j] is Page {
            assert(j >= subs.len());
            paths::lemma_page_href_shape(
                paths::join_seq(location, record.pages@[j - subs.len()].path@),
                root,
            );
        }
    }
    assert forall|j: int|
        0 <= j < s.entries@.len() implies ((#[trigger] s.entries@[j]) matches SectionEntry::Subsection(sub)
        ==> dir_href_wellformed(sub.href@) && forall|m: int|
        0 <= m < sub.pages@.len() ==> page_href_wellformed(#[trigger] sub.pages@[m])) by {
        if s.entries@[j] is Subsection {
            assert(j < subs.len());
            assert(s.entries@[j] == SectionEntry::Subsection(subs[j]));
            lemma_subsection_hrefs(subs[j], subrecords[j], sublocations[j], root, submtimes[j]);
        }
    }
}

/// In the resolved tree every computed href is well-formed: the main
/// page's href is exactly `/`; every root page's href begins with `/` and
/// does not end with `/`; and, when each attached section and subsection
/// resolves its own declaration, every section and subsection href begins
/// and ends with `/` and every page href below them begins with `/` and
/// does not end with `/`.
pub proof fn lemma_tree_hrefs(
    t: Tree,
    record: ManifestSpec,
    secs: Seq<Section>,
    root: Seq<char>,
    mtimes: Seq<Option<i64>>,
    main_mtime: Option<i64>,
    secrecords: Seq<SectionSpec>,
    secsubs: Seq<Seq<Subsection>>,
    seclocations: Seq<Seq<char>>,
    secmtimes: Seq<Seq<Option<i64>>>,
    subrecords: Seq<Seq<SubsectionSpec>>,
    sublocations: Seq<Seq<Seq<char>>>,
    submtimes: Seq<Seq<Seq<Option<i64>>>>,
)
    requires
        tree_resolves(t, record, secs, root, mtimes, main_mtime),
        secrecords.len() == secs.len(),
        secsubs.len() == secs.len(),
        seclocations.len() == secs.len(),
        secmtimes.len() == secs.len(),
        subrecords.len() == secs.len(),
        sublocations.len() == secs.len(),
        submtimes.len() == secs.len(),
        forall|k: int|
            0 <= k < secs.len() ==> section_resolves(
                #[trigger] secs[k],
                secrecords[k],
                secsubs[k],
                seclocations[k],
                root,
                secmtimes[k],
            ),
        forall|k: int|
            0 <= k < secs.len() ==> (#[trigger] subrecords[k]).len() == secsubs[k].len()
                && sublocations[k].len() == secsubs[k].len() && submtimes[k].len()
                == secsubs[k].len(),
        forall|k: int, l: int|
            0 <= k < secs.len() && 0 <= l < secsubs[k].len() ==> subsection_resolves(
                #[trigger] secsubs[k][l],
                subrecords[k][l],
                sublocations[k][l],
                root,
                submtimes[k][l],
            ),
    ensures
        t.main_page.href@ == "/"@,
        forall|j: int|
            0 <= j < t.entries@.len() ==> ((#[trigger] t.entries@[j]) matches TreeEntry::Page(p)
                ==> page_href_wellformed(p)),
        forall|j: int|
            0 <= j < t.entries@.len() ==> ((#[trigger] t.entries@[j]) matches TreeEntry::Section(sec)
                ==> dir_href_wellformed(sec.href@) && forall|m: int|
                0 <= m < sec.entries@.len() ==> (((#[trigger] sec.entries@[m]) matches SectionEntry::Page(p)
                    ==> page_href_wellformed(p)) && (sec.entries@[m] matches SectionEntry::Subsection(sub)
                    ==> dir_href_wellformed(sub.href@) && forall|q: int|
                    0 <= q < sub.pages@.len() ==> page_href_wellformed(#[trigger] sub.pages@[q])))),
{
    assert forall|j: int|
        0 <= j < t.entries@.len() implies ((#[trigger] t.entries@[j]) matches TreeEntry::Page(p)
        ==> page_href_wellformed(p)) by {
        if t.entries@[j] is Page {
            assert(j >= secs.len());
            paths::lemma_page_href_shape(
                paths::join_seq(root, record.pages@[j - secs.len()].path@),
                root,
            );
        }
    }
    assert forall|j: int|
        0 <= j < t.entries@.len() implies ((#[trigger] t.entries@[j]) matches TreeEntry::Section(sec)
        ==> dir_href_wellformed(sec.href@) && forall|m: int|
        0 <= m < sec.entries@.len() ==> (((#[trigger] sec.entries@[m]) matches SectionEntry::Page(p)
            ==> page_href_wellformed(p)) && (sec.entries@[m] matches SectionEntry::Subsection(sub)
            ==> dir_href_wellformed(sub.href@) && forall|q: int|
            0 <= q < sub.pages@.len() ==> page_href_wellformed(#[trigger] sub.pages@[q])))) by {
        if t.entries@[j] is Section {
            assert(j < secs.len());
            assert(t.entries@[j] == TreeEntry::Section(secs[j]));
            lemma_section_hrefs(
                secs[j],
                secrecords[j],
                secsubs[j],
                seclocations[j],
                root,
                secmtimes[j],
                subrecords[j],
                sublocations[j],
                submtimes[j],
            );
        }
    }
}

/// Two pages are structurally identical when all their text fields agree.
pub open spec fn page_like(a: Page, b: Page) -> bool {
    &&& a.name@ == b.name@
    &&& a.desc@ == b.desc@
    &&& a.path@ == b.path@
    &&& a.href@ == b.href@
    &&& a.date@ == b.date@
}

/// Two subsections are structurally identical when their headers agree
/// and their pages do, pairwise.
pub open spec fn subsection_like(a: Subsection, b: Subsection) -> bool {
    &&& a.name@ == b.name@
    &&& a.desc@ == b.desc@
    &&& a.path@ == b.path@
    &&& a.href@ == b.href@
    &&& a.pages@.len() == b.pages@.len()
    &&& forall|k: int| 0 <= k < a.pages@.len() ==> page_like(#[trigger] a.pages@[k], b.pages@[k])
}

/// Two section entries are structurally identical when they are of the
/// same kind and their payloads are.
pub open spec fn section_entry_like(x: SectionEntry, y: SectionEntry) -> bool {
    match (x, y) {
        (SectionEntry::Page(p), SectionEntry::Page(q)) => page_like(p, q),
        (SectionEntry::Subsection(s), SectionEntry::Subsection(t)) => subsection_like(s, t),
        _ => false,
    }
}

/// Two sections are structurally identical when their headers agree and
/// their entries do, pairwise.
pub open spec fn section_like(a: Section, b: Section) -> bool {
    &&& a.name@ == b.name@
    &&& a.desc@ == b.desc@
    &&& a.path@ == b.path@
    &&& a.href@ == b.href@
    &&& a.entries@.len() == b.entries@.len()
    &&& forall|k: int|
        0 <= k < a.entries@.len() ==> section_entry_like(#[trigger] a.entries@[k], b.entries@[k])
}

/// Two tree entries are structurally identical when they are of the same
/// kind and their payloads are.
pub open spec fn tree_entry_like(x: TreeEntry, y: TreeEntry) -> bool {
    match (x, y) {
        (TreeEntry::Page(p), TreeEntry::Page(q)) => page_like(p, q),
        (TreeEntry::Section(s), TreeEntry::Section(t)) => section_like(s, t),
        _ => false,
    }
}

/// Two trees are structurally identical when their metadata, main page and
/// entries agree, pairwise.
pub open spec fn tree_like(a: Tree, b: Tree) -> bool {
    &&& a.root@ == b.root@
    &&& a.title@ == b.title@
    &&& a.append_title == b.append_title
    &&& a.href_prepend@ == b.href_prepend@
    &&& a.footer_content@ == b.footer_content@
    &&& page_like(a.main_page, b.main_page)
    &&& a.entries@.len() == b.entries@.len()
    &&& forall|k: int|
        0 <= k < a.entries@.len() ==> tree_entry_like(#[trigger] a.entries@[k], b.entries@[k])
}

/// Discovery is deterministic: two skeletons collected from the same
/// listing name the same declaration files in the same order.
pub proof fn lemma_discovery_deterministic(
    a: Seq<discover::Section>,
    b: Seq<discover::Section>,
    dirs: Seq<DirListing>,
)
    requires
        discover::sections_match(a, dirs),
        discover::sections_match(b, dirs),
    ensures
        a.len() == b.len(),
        forall|i: int|
            0 <= i < a.len() ==> ((#[trigger] a[i]).spec_file@ == b[i].spec_file@
                && a[i].subsections@.len() == b[i].subsections@.len() && forall|k: int|
                0 <= k < a[i].subsections@.len() ==> (#[trigger] a[i].subsections@[k]).0@
                    == b[i].subsections@[k].0@),
{
    assert forall|i: int|
        0 <= i < a.len() implies ((#[trigger] a[i]).spec_file@ == b[i].spec_file@
        && a[i].subsections@.len() == b[i].subsections@.len() && forall|k: int|
        0 <= k < a[i].subsections@.len() ==> (#[trigger] a[i].subsections@[k]).0@
            == b[i].subsections@[k].0@) by {
        assert(discover::section_skel_matches(a[i], discover::kept_dirs(dirs)[i]));
        assert(discover::section_skel_matches(b[i], discover::kept_dirs(dirs)[i]));
        let d = discover::kept_dirs(dirs)[i];
        assert forall|k: int|
            0 <= k < a[i].subsections@.len() implies (#[trigger] a[i].subsections@[k]).0@
            == b[i].subsections@[k].0@ by {
            assert(discover::subsection_skel_matches(
                a[i].subsections@[k],
                discover::kept_subdirs(d.subdirs@)[k],
            ));
            assert(discover::subsection_skel_matches(
                b[i].subsections@[k],
                discover::kept_subdirs(d.subdirs@)[k],
            ));
        }
    }
}

/// Assembly of a subsection is deterministic: two resolutions of the same
/// declaration at the same place with the same timestamps are structurally
/// identical, dates included.
pub proof fn lemma_subsection_deterministic(
    a: Subsection,
    b: Subsection,
    record: SubsectionSpec,
    location: Seq<char>,
    root: Seq<char>,
    mtimes: Seq<Option<i64>>,
)
    requires
        subsection_resolves(a, record, location, root, mtimes),
        subsection_resolves(b, record, location, root, mtimes),
    ensures
        subsection_like(a, b),
{
    assert forall|k: int| 0 <= k < a.pages@.len() implies page_like(
        #[trigger] a.pages@[k],
        b.pages@[k],
    ) by {
        assert(page_resolves(a.pages@[k], record.pages@[k], location, root, mtimes[k]));
        assert(page_resolves(b.pages@[k], record.pages@[k], location, root, mtimes[k]));
    }
}

/// Assembly of a section is deterministic, given the same attached
/// subsections.
pub proof fn lemma_section_deterministic(
    a: Section,
    b: Section,
    record: SectionSpec,
    subs: Seq<Subsection>,
    location: Seq<char>,
    root: Seq<char>,
    mtimes: Seq<Option<i64>>,
)
    requires
        section_resolves(a, record, subs, location, root, mtimes),
        section_resolves(b, record, subs, location, root, mtimes),
    ensures
        section_like(a, b),
{
    assert forall|k: int| 0 <= k < a.entries@.len() implies section_entry_like(
        #[trigger] a.entries@[k],
        b.entries@[k],
    ) by {
        if k < subs.len() {
            assert(a.entries@[k] == SectionEntry::Subsection(subs[k]));
            assert(b.entries@[k] == SectionEntry::Subsection(subs[k]));
        } else {
            assert(a.entries@[k] matches SectionEntry::Page(p) && page_resolves(
                p,
                record.pages@[k - subs.len()],
                location,
                root,
                mtimes[k - subs.len()],
            ));
            assert(b.entries@[k] matches SectionEntry::Page(p) && page_resolves(
                p,
                record.pages@[k - subs.len()],
                location,
                root,
                mtimes[k - subs.len()],
            ));
        }
    }
}

/// Assembly of the tree is deterministic, given the same attached
/// sections: running discovery and assembly twice over unchanged inputs
/// yields structurally identical trees, timestamps included as long as the
/// modification times are unchanged.
pub proof fn lemma_tree_deterministic(
    a: Tree,
    b: Tree,
    record: ManifestSpec,
    secs: Seq<Section>,
    root: Seq<char>,
    mtimes: Seq<Option<i64>>,
    main_mtime: Option<i64>,
)
    requires
        tree_resolves(a, record, secs, root, mtimes, main_mtime),
        tree_resolves(b, record, secs, root, mtimes, main_mtime),
    ensures
        tree_like(a, b),
{
    assert(main_page_resolves(a.main_page, record.main_page@, record.title@, root, main_mtime));
    assert(main_page_resolves(b.main_page, record.main_page@, record.title@, root, main_mtime));
    assert(a.main_page.desc@ =~= b.main_page.desc@);
    assert forall|k: int| 0 <= k < a.entries@.len() implies tree_entry_like(
        #[trigger] a.entries@[k],
        b.entries@[k],
    ) by {
        if k < secs.len() {
            assert(a.entries@[k] == TreeEntry::Section(secs[k]));
            assert(b.entries@[k] == TreeEntry::Section(secs[k]));
            assert(tree_entry_like(a.entries@[k], b.entries@[k])) by {
                lemma_section_like_reflexive(secs[k]);
            }
        } else {
            assert(a.entries@[k] matches TreeEntry::Page(p) && page_resolves(
                p,
                record.pages@[k - secs.len()],
                root,
                root,
                mtimes[k - secs.len()],
            ));
            assert(b.entries@[k] matches TreeEntry::Page(p) && page_resolves(
                p,
                record.pages@[k - secs.len()],
                root,
                root,
                mtimes[k - secs.len()],
            ));
        }
    }
}

/// Structural identity is reflexive for sections.
proof fn lemma_section_like_reflexive(s: Section)
    ensures
        section_like(s, s),
{
    assert forall|k: int| 0 <= k < s.entries@.len() implies section_entry_like(
        #[trigger] s.entries@[k],
        s.entries@[k],
    ) by {
        match s.entries@[k] {
            SectionEntry::Page(_) => {},
            SectionEntry::Subsection(_) => {},
        }
    }
}

} // verus!
