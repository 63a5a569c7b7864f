//! The assembled document tree.
//!
//! Assembly turns the parsed records into an immutable tree of owned
//! values: `Tree` owns sections and root pages, a `Section` owns
//! subsections and direct pages, a `Subsection` owns pages. Within a
//! section every subsection entry precedes every direct page entry, and in
//! the tree every section precedes every root page: the ordering is part of
//! the contract, since it drives index rendering. Hrefs and dates are
//! derived here from the records, the tree root and the per-page
//! modification timestamps.

use vstd::prelude::*;
use vstd::string::StringExecFns;

use crate::dates;
use crate::paths;
use crate::records::ManifestSpec;
use crate::records::PageSpec;
use crate::records::SectionSpec;
use crate::records::SubsectionSpec;

verus! {

/// A resolved page: display name, description, the filesystem path of its
/// source, its site-rooted href, and its formatted modification date.
#[derive(Debug)]
pub struct Page {
    pub name: String,
    pub desc: String,
    pub path: String,
    pub href: String,
    pub date: String,
}

/// A resolved subsection and the pages it owns.
#[derive(Debug, PartialEq)]
pub struct Subsection {
    pub name: String,
    pub desc: String,
    pub path: String,
    pub href: String,
    pub pages: Vec<Page>,
}

/// One entry of a section: a subsection or a direct page.
#[derive(Debug, PartialEq)]
pub enum SectionEntry {
    Page(Page),
    Subsection(Subsection),
}

/// A resolved section and its entries, subsections first.
#[derive(Debug, PartialEq)]
pub struct Section {
    pub name: String,
    pub desc: String,
    pub path: String,
    pub href: String,
    pub entries: Vec<SectionEntry>,
}

/// One entry of the tree: a section or a root-level page.
#[derive(Debug, PartialEq)]
pub enum TreeEntry {
    Page(Page),
    Section(Section),
}

/// The assembled site: manifest metadata, the synthesized main page, and
/// the entries, sections first.
#[derive(Debug, PartialEq)]
pub struct Tree {
    pub root: String,
    pub title: String,
    pub append_title: bool,
    pub href_prepend: String,
    pub footer_content: String,
    pub main_page: Page,
    pub entries: Vec<TreeEntry>,
}

/// The site-wide rendering context, borrowed from the tree for the
/// duration of a build.
pub struct Context<'a> {
    pub title: &'a str,
    pub append_title: bool,
    pub href_prepend: &'a str,
    pub footer_content: &'a str,
}

/// Two pages carry equal content when everything but the date matches; the
/// modification date is display metadata, not identity.
impl PartialEq for Page {
    fn eq(&self, other: &Self) -> bool {
        self.name == other.name && self.desc == other.desc && self.path == other.path
            && self.href == other.href
    }
}

impl vstd::std_specs::cmp::PartialEqSpecImpl for Page {
    open spec fn obeys_eq_spec() -> bool {
        true
    }

    open spec fn eq_spec(&self, other: &Page) -> bool {
        self.name@ == other.name@ && self.desc@ == other.desc@ && self.path@ == other.path@
            && self.href@ == other.href@
    }
}

/// A page resolves a declaration when its name and description are the
/// declared ones, its path joins the declaring directory with the declared
/// relative path, its href derives from that path, and its date formats
/// the given timestamp.
pub open spec fn page_resolves(
    p: Page,
    record: PageSpec,
    location: Seq<char>,
    root: Seq<char>,
    mtime: Option<i64>,
) -> bool {
    &&& p.name@ == record.name@
    &&& p.desc@ == record.desc@
    &&& p.path@ == paths::join_seq(location, record.path@)
    &&& p.href@ == paths::page_href_seq(paths::join_seq(location, record.path@), root)
    &&& p.date@ == dates::date_seq(mtime)
}

/// The synthesized main page: the site title as its name, an empty
/// description, the declared main-page path under the root, and the fixed
/// href `/`.
pub open spec fn main_page_resolves(
    p: Page,
    path: Seq<char>,
    title: Seq<char>,
    root: Seq<char>,
    mtime: Option<i64>,
) -> bool {
    &&& p.name@ == title
    &&& p.desc@.len() == 0
    &&& p.path@ == paths::join_seq(root, path)
    &&& p.href@ == "/"@
    &&& p.date@ == dates::date_seq(mtime)
}

/// A subsection resolves its declaration when header, directory, href and
/// every declared page do.
pub open spec fn subsection_resolves(
    s: Subsection,
    record: SubsectionSpec,
    location: Seq<char>,
    root: Seq<char>,
    mtimes: Seq<Option<i64>>,
) -> bool {
    &&& s.name@ == record.subsection.name@
    &&& s.desc@ == record.subsection.desc@
    &&& s.path@ == location
    &&& s.href@ == paths::dir_href_seq(location, root)
    &&& s.pages@.len() == record.pages@.len()
    &&& forall|j: int|
        0 <= j < record.pages@.len() ==> page_resolves(
            #[trigger] s.pages@[j],
            record.pages@[j],
            location,
            root,
            mtimes[j],
        )
}

/// A section resolves its declaration when header, directory and href do,
/// its entries hold the given subsections first, in order, and then one
/// page per declared page, in order.
pub open spec fn section_resolves(
    s: Section,
    record: SectionSpec,
    subs: Seq<Subsection>,
    location: Seq<char>,
    root: Seq<char>,
    mtimes: Seq<Option<i64>>,
) -> bool {
    &&& s.name@ == record.section.name@
    &&& s.desc@ == record.section.desc@
    &&& s.path@ == location
    &&& s.href@ == paths::dir_href_seq(location, root)
    &&& s.entries@.len() == subs.len() + record.pages@.len()
    &&& forall|j: int|
        0 <= j < subs.len() ==> (#[trigger] s.entries@[j]) == SectionEntry::Subsection(subs[j])
    &&& forall|j: int|
        subs.len() <= j < s.entries@.len() ==> ((#[trigger] s.entries@[j]) matches SectionEntry::Page(p)
            && page_resolves(p, record.pages@[j - subs.len()], location, root, mtimes[j - subs.len()]))
}

/// The tree resolves the manifest when its metadata is the declared one,
/// the main page is synthesized from the manifest, and its entries hold
/// the given sections first, in order, then one root page per declared
/// page, in order.
pub open spec fn tree_resolves(
    t: Tree,
    record: ManifestSpec,
    secs: Seq<Section>,
    root: Seq<char>,
    mtimes: Seq<Option<i64>>,
    main_mtime: Option<i64>,
) -> bool {
    &&& t.root@ == root
    &&& t.title@ == record.title@
    &&& t.append_title == record.append_title
    &&& t.href_prepend@ == record.href_prepend@
    &&& t.footer_content@ == record.footer_content@
    &&& main_page_resolves(t.main_page, record.main_page@, record.title@, root, main_mtime)
    &&& t.entries@.len() == secs.len() + record.pages@.len()
    &&& forall|j: int|
        0 <= j < secs.len() ==> (#[trigger] t.entries@[j]) == TreeEntry::Section(secs[j])
    &&& forall|j: int|
        secs.len() <= j < t.entries@.len() ==> ((#[trigger] t.entries@[j]) matches TreeEntry::Page(p)
            && page_resolves(p, record.pages@[j - secs.len()], root, root, mtimes[j - secs.len()]))
}

impl Page {
    /// Resolves one page declaration against the directory `location`
    /// inside the tree rooted at `root`, with the source file's
    /// modification timestamp (or `None` when it has none).
    pub fn from_spec(record: PageSpec, location: &str, root: &str, mtime: Option<i64>) -> (p: Page)
        ensures
            page_resolves(p, record, location@, root@, mtime),
    {
        let path = paths::join_path(location, record.path.as_str());
        let href = paths::href_of_page(path.as_str(), root);
        let date = dates::page_date(mtime);
        Page { name: record.name, desc: record.desc, path, href, date }
    }

    /// Synthesizes the site's main page from the manifest's declared title
    /// and main-page path; its href is `/` by definition.
    pub fn new_main(path: &str, title: &str, root: &str, mtime: Option<i64>) -> (p: Page)
        ensures
            main_page_resolves(p, path@, title@, root@, mtime),
    {
        let joined = paths::join_path(root, path);
        let date = dates::page_date(mtime);
        Page {
            name: String::from_str(title),
            desc: String::new(),
            path: joined,
            href: String::from_str("/"),
            date,
        }
    }
}

impl Subsection {
    /// Resolves a subsection declaration at the directory `location`;
    /// `mtimes` carries one timestamp slot per declared page.
    pub fn from_spec(
        record: SubsectionSpec,
        location: &str,
        root: &str,
        mtimes: &Vec<Option<i64>>,
    ) -> (s: Subsection)
        requires
            mtimes@.len() == record.pages@.len(),
        ensures
            subsection_resolves(s, record, location@, root@, mtimes@),
    {
        let href = paths::href_of_dir(location, root);
        let mut pages: Vec<Page> = Vec::new();
        let mut i: usize = 0;
        while i < record.pages.len()
            invariant
                i <= record.pages@.len(),
                mtimes@.len() == record.pages@.len(),
                pages@.len() == i,
                forall|j: int|
                    0 <= j < i ==> page_resolves(
                        #[trigger] pages@[j],
                        record.pages@[j],
                        location@,
                        root@,
                        mtimes@[j],
                    ),
            decreases record.pages@.len() - i,
        {
            let declared = &record.pages[i];
            let page = Page::from_spec(
                PageSpec {
                    name: declared.name.clone(),
                    desc: declared.desc.clone(),
                    path: declared.path.clone(),
                },
                location,
                root,
                mtimes[i],
            );
            pages.push(page);
            i += 1;
        }
        Subsection {
            name: record.subsection.name,
            desc: record.subsection.desc,
            path: String::from_str(location),
            href,
            pages,
        }
    }

    /// The pages of this subsection, in declaration order.
    pub fn iter(&self) -> (r: &Vec<Page>)
        ensures
            r@ == self.pages@,
    {
        &self.pages
    }
}

impl Section {
    /// Resolves a section declaration at the directory `location`,
    /// attaching the already-resolved `subsections` before the section's
    /// own declared pages; `mtimes` carries one timestamp slot per declared
    /// page.
    pub fn from_spec(
        record: SectionSpec,
        subsections: Vec<Subsection>,
        location: &str,
        root: &str,
        mtimes: &Vec<Option<i64>>,
    ) -> (s: Section)
        requires
            mtimes@.len() == record.pages@.len(),
        ensures
            section_resolves(s, record, subsections@, location@, root@, mtimes@),
    {
        let href = paths::href_of_dir(location, root);
        let ghost orig_subs: Seq<Subsection> = subsections@;
        let mut subs = subsections;
        let mut entries: Vec<SectionEntry> = Vec::new();
        while subs.len() > 0
            invariant
                entries@.len() + subs@.len() == orig_subs.len(),
                subs@ == orig_subs.skip(entries@.len() as int),
                forall|j: int|
                    0 <= j < entries@.len() ==> (#[trigger] entries@[j])
                        == SectionEntry::Subsection(orig_subs[j]),
            decreases subs@.len(),
        {
            let ghost k: int = entries@.len() as int;
            let sub = subs.remove(0);
            proof {
                assert(sub == orig_subs[k]);
                assert(subs@ =~= orig_subs.skip(k + 1));
            }
            entries.push(SectionEntry::Subsection(sub));
        }
        let mut i: usize = 0;
        while i < record.pages.len()
            invariant
                i <= record.pages@.len(),
                mtimes@.len() == record.pages@.len(),
                entries@.len() == orig_subs.len() + i,
                forall|j: int|
                    0 <= j < orig_subs.len() ==> (#[trigger] entries@[j])
                        == SectionEntry::Subsection(orig_subs[j]),
                forall|j: int|
                    orig_subs.len() <= j < entries@.len() ==> ((#[trigger] entries@[j]) matches SectionEntry::Page(p)
                        && page_resolves(
                        p,
                        record.pages@[j - orig_subs.len()],
                        location@,
                        root@,
                        mtimes@[j - orig_subs.len()],
                    )),
            decreases record.pages@.len() - i,
        {
            let declared = &record.pages[i];
            let page = Page::from_spec(
                PageSpec {
                    name: declared.name.clone(),
                    desc: declared.desc.clone(),
                    path: declared.path.clone(),
                },
                location,
                root,
                mtimes[i],
            );
            entries.push(SectionEntry::Page(page));
            i += 1;
        }
        Section {
            name: record.section.name,
            desc: record.section.desc,
            path: String::from_str(location),
            href,
            entries,
        }
    }

    /// The entries of this section: every subsection before every direct
    /// page.
    pub fn iter(&self) -> (r: &Vec<SectionEntry>)
        ensures
            r@ == self.entries@,
    {
        &self.entries
    }
}

impl Tree {
    /// Assembles the tree from the parsed manifest, the tree root, and the
    /// already-resolved sections; `mtimes` carries one timestamp slot per
    /// declared root page and `main_mtime` the main page's.
    pub fn from_spec(
        record: ManifestSpec,
        root: String,
        sections: Vec<Section>,
        mtimes: &Vec<Option<i64>>,
        main_mtime: Option<i64>,
    ) -> (t: Tree)
        requires
            mtimes@.len() == record.pages@.len(),
        ensures
            tree_resolves(t, record, sections@, root@, mtimes@, main_mtime),
    {
        let main_page = Page::new_main(
            record.main_page.as_str(),
            record.title.as_str(),
            root.as_str(),
            main_mtime,
        );
        let ghost orig_secs: Seq<Section> = sections@;
        let mut secs = sections;
        let mut entries: Vec<TreeEntry> = Vec::new();
        while secs.len() > 0
            invariant
                entries@.len() + secs@.len() == orig_secs.len(),
                secs@ == orig_secs.skip(entries@.len() as int),
                forall|j: int|
                    0 <= j < entries@.len() ==> (#[trigger] entries@[j]) == TreeEntry::Section(
                        orig_secs[j],
                    ),
            decreases secs@.len(),
        {
            let ghost k: int = entries@.len() as int;
            let sec = secs.remove(0);
            proof {
                assert(sec == orig_secs[k]);
                assert(secs@ =~= orig_secs.skip(k + 1));
            }
            entries.push(TreeEntry::Section(sec));
        }
        let mut i: usize = 0;
        while i < record.pages.len()
            invariant
                i <= record.pages@.len(),
                mtimes@.len() == record.pages@.len(),
                entries@.len() == orig_secs.len() + i,
                forall|j: int|
                    0 <= j < orig_secs.len() ==> (#[trigger] entries@[j]) == TreeEntry::Section(
                        orig_secs[j],
                    ),
                forall|j: int|
                    orig_secs.len() <= j < entries@.len() ==> ((#[trigger] entries@[j]) matches TreeEntry::Page(p)
                        && page_resolves(
                        p,
                        record.pages@[j - orig_secs.len()],
                        root@,
                        root@,
                        mtimes@[j - orig_secs.len()],
                    )),
            decreases record.pages@.len() - i,
        {
            let declared = &record.pages[i];
            let page = Page::from_spec(
                PageSpec {
                    name: declared.name.clone(),
                    desc: declared.desc.clone(),
                    path: declared.path.clone(),
                },
                root.as_str(),
                root.as_str(),
                mtimes[i],
            );
            entries.push(TreeEntry::Page(page));
            i += 1;
        }
        Tree {
            root,
            title: record.title,
            append_title: record.append_title,
            href_prepend: record.href_prepend,
            footer_content: record.footer_content,
            main_page,
            entries,
        }
    }

    /// The site-wide rendering context derived from the manifest, immutable
    /// for the duration of a build.
    pub fn context<'a>(&'a self) -> (c: Context<'a>)
        ensures
            c.title@ == self.title@,
            c.append_title == self.append_title,
            c.href_prepend@ == self.href_prepend@,
            c.footer_content@ == self.footer_content@,
    {
        Context {
            title: self.title.as_str(),
            append_title: self.append_title,
            href_prepend: self.href_prepend.as_str(),
            footer_content: self.footer_content.as_str(),
        }
    }

    /// The entries of the tree: every section before every root page. The
    /// main page is not among them.
    pub fn iter(&self) -> (r: &Vec<TreeEntry>)
        ensures
            r@ == self.entries@,
    {
        &self.entries
    }
}

/// Builds a page from literal field values.
fn lit_page(name: &str, desc: &str, path: &str, href: &str, date: &str) -> (p: Page)
    ensures
        p.name@ == name@,
        p.desc@ == desc@,
        p.path@ == path@,
        p.href@ == href@,
        p.date@ == date@,
{
    Page {
        name: String::from_str(name),
        desc: String::from_str(desc),
        path: String::from_str(path),
        href: String::from_str(href),
        date: String::from_str(date),
    }
}

impl Subsection {
    /// The subsection that resolving `d1/s1` of the first fixture site
    /// yields.
    pub fn subsection_read_spec1_expected() -> Subsection {
        Subsection {
            name: String::from_str("subsection s1"),
            desc: String::from_str(""),
            path: String::from_str("spec1/d1/s1"),
            href: String::from_str("/d1/s1/"),
            pages: vec![
                lit_page(
                    "D1-S1-1",
                    "this is the most 1's",
                    "spec1/d1/s1/1.md",
                    "/d1/s1/1.html",
                    "1.09.2025 20:34",
                ),
                lit_page(
                    "Second page in the d1/s1 subsection",
                    "",
                    "spec1/d1/s1/2.md",
                    "/d1/s1/2.html",
                    "1.09.2025 20:34",
                ),
            ],
        }
    }

    /// The subsection that resolving `d2/s1` of the second fixture site
    /// yields.
    pub fn subsection_read_spec2_expected() -> Subsection {
        Subsection {
            name: String::from_str("d1/S1 subsection"),
            desc: String::from_str("SZAJSE"),
            path: String::from_str("spec2/d2/s1"),
            href: String::from_str("/d2/s1/"),
            pages: vec![
                lit_page(
                    "1 MD",
                    "The first and only page here",
                    "spec2/d2/s1/1.md",
                    "/d2/s1/1.html",
                    "1.09.2025 20:34",
                ),
            ],
        }
    }
}

impl Section {
    /// The section that resolving `d1` of the second fixture site yields.
    pub fn section_read_spec_expected() -> Section {
        Section {
            name: String::from_str("D1 section"),
            desc: String::from_str("Shit section"),
            path: String::from_str("spec2/d1"),
            href: String::from_str("/d1/"),
            entries: vec![
                SectionEntry::Subsection(
                    Subsection {
                        name: String::from_str("S1 subsection"),
                        desc: String::from_str("Shit shit shit"),
                        path: String::from_str("spec2/d1/s1"),
                        href: String::from_str("/d1/s1/"),
                        pages: vec![
                            lit_page(
                                "1 MD",
                                "The first page here",
                                "spec2/d1/s1/1.md",
                                "/d1/s1/1.html",
                                "1.09.2025 20:34",
                            ),
                            lit_page(
                                "2nd md",
                                "",
                                "spec2/d1/s1/2.md",
                                "/d1/s1/2.html",
                                "1.09.2025 20:34",
                            ),
                        ],
                    },
                ),
                SectionEntry::Subsection(
                    Subsection {
                        name: String::from_str("S2 sub"),
                        desc: String::from_str("Shit"),
                        path: String::from_str("spec2/d1/s2"),
                        href: String::from_str("/d1/s2/"),
                        pages: vec![
                            lit_page(
                                "1 EMDE",
                                "A page",
                                "spec2/d1/s2/1.md",
                                "/d1/s2/1.html",
                                "1.09.2025 20:34",
                            ),
                            lit_page(
                                "second md",
                                "",
                                "spec2/d1/s2/2.md",
                                "/d1/s2/2.html",
                                "1.09.2025 20:34",
                            ),
                        ],
                    },
                ),
                SectionEntry::Page(
                    lit_page(
                        "one MD",
                        "The first page here",
                        "spec2/d1/1.md",
                        "/d1/1.html",
                        "1.09.2025 20:34",
                    ),
                ),
                SectionEntry::Page(
                    lit_page(
                        "2nd markdown",
                        "",
                        "spec2/d1/2.md",
                        "/d1/2.html",
                        "1.09.2025 20:34",
                    ),
                ),
            ],
        }
    }
}

impl Tree {
    /// The tree that discovering and assembling the second fixture site
    /// yields.
    pub fn structure_into_tree_expect() -> Tree {
        Tree {
            root: String::from_str("spec2"),
            title: String::from_str("WGEN Webpage"),
            append_title: false,
            href_prepend: String::from_str("/~home"),
            footer_content: String::from_str("&copy; lysolaka. Contact me: +69 420 024 420"),
            main_page: lit_page(
                "WGEN Webpage",
                "",
                "spec2/index.md",
                "/",
                "3.09.2025 16:14",
            ),
            entries: vec![
                TreeEntry::Section(
                    Section {
                        name: String::from_str("D1 section"),
                        desc: String::from_str("Shit section"),
                        path: String::from_str("spec2/d1"),
                        href: String::from_str("/d1/"),
                        entries: vec![
                            SectionEntry::Subsection(
                                Subsection {
                                    name: String::from_str("S1 subsection"),
                                    desc: String::from_str("Shit shit shit"),
                                    path: String::from_str("spec2/d1/s1"),
                                    href: String::from_str("/d1/s1/"),
                                    pages: vec![
                                        lit_page(
                                            "1 MD",
                                            "The first page here",
                                            "spec2/d1/s1/1.md",
                                            "/d1/s1/1.html",
                                            "29.08.2025 08:45",
                                        ),
                                        lit_page(
                                            "2nd md",
                                            "",
                                            "spec2/d1/s1/2.md",
                                            "/d1/s1/2.html",
                                            "29.08.2025 08:45",
                                        ),
                                    ],
                                },
                            ),
                            SectionEntry::Subsection(
                                Subsection {
                                    name: String::from_str("S2 sub"),
                                    desc: String::from_str("Shit"),
                                    path: String::from_str("spec2/d1/s2"),
                                    href: String::from_str("/d1/s2/"),
                                    pages: vec![
                                        lit_page(
                                            "1 EMDE",
                                            "A page",
                                            "spec2/d1/s2/1.md",
                                            "/d1/s2/1.html",
                                            "29.08.2025 08:45",
                                        ),
                                        lit_page(
                                            "second md",
                                            "",
                                            "spec2/d1/s2/2.md",
                                            "/d1/s2/2.html",
                                            "29.08.2025 08:45",
                                        ),
                                    ],
                                },
                            ),
                            SectionEntry::Page(
                                lit_page(
                                    "one MD",
                                    "The first page here",
                                    "spec2/d1/1.md",
                                    "/d1/1.html",
                                    "29.08.2025 08:45",
                                ),
                            ),
                            SectionEntry::Page(
                                lit_page(
                                    "2nd markdown",
                                    "",
                                    "spec2/d1/2.md",
                                    "/d1/2.html",
                                    "29.08.2025 08:45",
                                ),
                            ),
                        ],
                    },
                ),
                TreeEntry::Section(
                    Section {
                        name: String::from_str("D2 section"),
                        desc: String::from_str("Shittier section"),
                        path: String::from_str("spec2/d2"),
                        href: String::from_str("/d2/"),
                        entries: vec![
                            SectionEntry::Subsection(
                                Subsection {
                                    name: String::from_str("d1/S1 subsection"),
                                    desc: String::from_str("SZAJSE"),
                                    path: String::from_str("spec2/d2/s1"),
                                    href: String::from_str("/d2/s1/"),
                                    pages: vec![
                                        lit_page(
                                            "1 MD",
                                            "The first and only page here",
                                            "spec2/d2/s1/1.md",
                                            "/d2/s1/1.html",
                                            "29.08.2025 08:45",
                                        ),
                                    ],
                                },
                            ),
                            SectionEntry::Page(
                                lit_page(
                                    "one MD",
                                    "The first page here",
                                    "spec2/d2/1.md",
                                    "/d2/1.html",
                                    "29.08.2025 08:45",
                                ),
                            ),
                            SectionEntry::Page(
                                lit_page(
                                    "2nd markdown",
                                    "",
                                    "spec2/d2/2.md",
                                    "/d2/2.html",
                                    "29.08.2025 08:45",
                                ),
                            ),
                        ],
                    },
                ),
                TreeEntry::Page(
                    lit_page(
                        "First page 1.md",
                        "Generic description",
                        "spec2/1.md",
                        "/1.html",
                        "29.08.2025 08:45",
                    ),
                ),
                TreeEntry::Page(
                    lit_page(
                        "Second page in the root",
                        "",
                        "spec2/2.md",
                        "/2.html",
                        "29.08.2025 08:45",
                    ),
                ),
            ],
        }
    }
}

/// The values behind the `Some` entries, in order.
pub open spec fn somes<T>(s: Seq<Option<T>>) -> Seq<T>
    decreases s.len(),
{
    if s.len() == 0 {
        Seq::empty()
    } else {
        match s.last() {
            Option::Some(x) => somes(s.drop_last()).push(x),
            Option::None => somes(s.drop_last()),
        }
    }
}

proof fn lemma_somes_take_step<T>(s: Seq<Option<T>>, i: int)
    requires
        0 <= i < s.len(),
    ensures
        s[i] matches Option::Some(x) ==> somes(s.take(i + 1)) == somes(s.take(i)).push(x),
        s[i] is None ==> somes(s.take(i + 1)) == somes(s.take(i)),
{
    assert(s.take(i + 1).drop_last() =~= s.take(i));
    assert(s.take(i + 1).last() == s[i]);
}

/// Keeps the resolutions that succeeded, dropping the failed ones and
/// preserving the relative order of the survivors: the per-node
/// skip-and-continue policy as one collect-and-filter step.
pub fn keep_some<T>(items: Vec<Option<T>>) -> (r: Vec<T>)
    ensures
        r@ == somes(items@),
{
    let ghost orig: Seq<Option<T>> = items@;
    let mut items = items;
    let mut r: Vec<T> = Vec::new();
    while items.len() > 0
        invariant
            items@.len() <= orig.len(),
            items@ == orig.skip(orig.len() - items@.len()),
            r@ == somes(orig.take(orig.len() - items@.len())),
        decreases items@.len(),
    {
        let ghost k: int = orig.len() - items@.len();
        let it = items.remove(0);
        proof {
            assert(it == orig[k]);
            assert(items@ =~= orig.skip(k + 1));
            lemma_somes_take_step(orig, k);
        }
        match it {
            Option::Some(x) => r.push(x),
            Option::None => {},
        }
    }
    proof {
        assert(orig.take(orig.len() as int) =~= orig);
    }
    r
}

} // verus!
