use wgen::records::ManifestSpec;
use wgen::records::PageSpec;
use wgen::records::SectionField;
use wgen::records::SectionSpec;
use wgen::records::SubsectionSpec;
use wgen::tree::keep_some;
use wgen::tree::Page;
use wgen::tree::Section;
use wgen::tree::SectionEntry;
use wgen::tree::Subsection;
use wgen::tree::Tree;
use wgen::tree::TreeEntry;

fn page_spec(name: &str, desc: &str, path: &str) -> PageSpec {
    PageSpec {
        name: name.to_string(),
        desc: desc.to_string(),
        path: path.to_string(),
    }
}

#[test]
fn page_from_spec() {
    let spec_record = page_spec("Imaginary Name", "Hello!", "imaginary_file.md");

    let page = Page::from_spec(spec_record.clone(), "in/s1/", "in/", None);

    let exp = Page {
        name: "Imaginary Name".to_string(),
        desc: "Hello!".to_string(),
        path: "in/s1/imaginary_file.md".to_string(),
        href: "/s1/imaginary_file.html".to_string(),
        date: "Unknown".to_string(),
    };

    assert_eq!(page, exp);

    let page = Page::from_spec(spec_record.clone(), "", "", None);

    let exp = Page {
        name: "Imaginary Name".to_string(),
        desc: "Hello!".to_string(),
        path: "imaginary_file.md".to_string(),
        href: "/imaginary_file.html".to_string(),
        date: "Unknown".to_string(),
    };

    assert_eq!(page, exp);
}

#[test]
fn page_without_source_gets_unknown_date() {
    let page = Page::from_spec(
        page_spec("Ghost", "", "missing.md"),
        "site/docs",
        "site",
        None,
    );
    assert_eq!(page.date, "Unknown");
    assert_eq!(page.href, "/docs/missing.html");
}

#[test]
fn page_date_formats_timestamp() {
    let page = Page::from_spec(page_spec("Epoch", "", "a.md"), "", "", Some(0));
    assert_eq!(page.date, "1.01.1970 00:00");

    let page = Page::from_spec(page_spec("Later", "", "a.md"), "", "", Some(1_000_000_000));
    assert_eq!(page.date, "9.09.2001 01:46");
}

#[test]
fn page_date_out_of_range_is_unknown() {
    let page = Page::from_spec(page_spec("Far", "", "a.md"), "", "", Some(i64::MAX));
    assert_eq!(page.date, "Unknown");
}

#[test]
fn new_main_is_rooted() {
    let main = Page::new_main("index.md", "My Site", "site", Some(0));
    assert_eq!(main.name, "My Site");
    assert_eq!(main.desc, "");
    assert_eq!(main.path, "site/index.md");
    assert_eq!(main.href, "/");
    assert_eq!(main.date, "1.01.1970 00:00");
}

#[test]
fn keep_some_drops_failures_in_order() {
    let kept = keep_some::<i32>(vec![Some(1), None, Some(3), None, Some(5)]);
    assert_eq!(kept, vec![1, 3, 5]);
    let none_kept = keep_some::<i32>(vec![None, None]);
    assert_eq!(none_kept, Vec::<i32>::new());
}

fn spec2_d1_s1() -> SubsectionSpec {
    SubsectionSpec {
        subsection: SectionField {
            name: "S1 subsection".to_string(),
            desc: "Shit shit shit".to_string(),
        },
        pages: vec![
            page_spec("1 MD", "The first page here", "1.md"),
            page_spec("2nd md", "", "2.md"),
        ],
    }
}

fn spec2_d1_s2() -> SubsectionSpec {
    SubsectionSpec {
        subsection: SectionField {
            name: "S2 sub".to_string(),
            desc: "Shit".to_string(),
        },
        pages: vec![
            page_spec("1 EMDE", "A page", "1.md"),
            page_spec("second md", "", "2.md"),
        ],
    }
}

fn spec2_d2_s1() -> SubsectionSpec {
    SubsectionSpec {
        subsection: SectionField {
            name: "d1/S1 subsection".to_string(),
            desc: "SZAJSE".to_string(),
        },
        pages: vec![page_spec("1 MD", "The first and only page here", "1.md")],
    }
}

fn assemble_spec2() -> Tree {
    let s1 = Subsection::from_spec(spec2_d1_s1(), "spec2/d1/s1", "spec2", &vec![None, None]);
    let s2 = Subsection::from_spec(spec2_d1_s2(), "spec2/d1/s2", "spec2", &vec![None, None]);
    let d1 = Section::from_spec(
        SectionSpec {
            section: SectionField {
                name: "D1 section".to_string(),
                desc: "Shit section".to_string(),
            },
            pages: vec![
                page_spec("one MD", "The first page here", "1.md"),
                page_spec("2nd markdown", "", "2.md"),
            ],
        },
        vec![s1, s2],
        "spec2/d1",
        "spec2",
        &vec![None, None],
    );
    let d2s1 = Subsection::from_spec(spec2_d2_s1(), "spec2/d2/s1", "spec2", &vec![None]);
    let d2 = Section::from_spec(
        SectionSpec {
            section: SectionField {
                name: "D2 section".to_string(),
                desc: "Shittier section".to_string(),
            },
            pages: vec![
                page_spec("one MD", "The first page here", "1.md"),
                page_spec("2nd markdown", "", "2.md"),
            ],
        },
        vec![d2s1],
        "spec2/d2",
        "spec2",
        &vec![None, None],
    );
    let manifest = ManifestSpec {
        title: "WGEN Webpage".to_string(),
        append_title: false,
        main_page: "index.md".to_string(),
        footer_content: "&copy; lysolaka. Contact me: +69 420 024 420".to_string(),
        href_prepend: "/~home".to_string(),
        pages: vec![
            page_spec("First page 1.md", "Generic description", "1.md"),
            page_spec("Second page in the root", "", "2.md"),
        ],
    };
    Tree::from_spec(
        manifest,
        "spec2".to_string(),
        vec![d1, d2],
        &vec![None, None],
        None,
    )
}

#[test]
fn subsection_from_spec_derives_hrefs() {
    let sub = Subsection::from_spec(
        SubsectionSpec {
            subsection: SectionField {
                name: "subsection s1".to_string(),
                desc: "".to_string(),
            },
            pages: vec![
                page_spec("D1-S1-1", "this is the most 1's", "1.md"),
                page_spec("Second page in the d1/s1 subsection", "", "2.md"),
            ],
        },
        "spec1/d1/s1",
        "spec1",
        &vec![None, None],
    );

    assert_eq!(sub, Subsection::subsection_read_spec1_expected());
}

#[test]
fn section_from_spec_lists_subsections_first() {
    let s1 = Subsection::from_spec(spec2_d1_s1(), "spec2/d1/s1", "spec2", &vec![None, None]);
    let s2 = Subsection::from_spec(spec2_d1_s2(), "spec2/d1/s2", "spec2", &vec![None, None]);
    let section = Section::from_spec(
        SectionSpec {
            section: SectionField {
                name: "D1 section".to_string(),
                desc: "Shit section".to_string(),
            },
            pages: vec![
                page_spec("one MD", "The first page here", "1.md"),
                page_spec("2nd markdown", "", "2.md"),
            ],
        },
        vec![s1, s2],
        "spec2/d1",
        "spec2",
        &vec![None, None],
    );

    assert_eq!(section, Section::section_read_spec_expected());

    // every subsection entry comes before every direct page entry
    let kinds: Vec<bool> = section
        .iter()
        .iter()
        .map(|e| matches!(e, SectionEntry::Subsection(_)))
        .collect();
    assert_eq!(kinds, vec![true, true, false, false]);
}

#[test]
fn assemble_spec2_tree() {
    let tree = assemble_spec2();

    assert_eq!(tree, Tree::structure_into_tree_expect());

    // sections precede root pages
    let kinds: Vec<bool> = tree
        .iter()
        .iter()
        .map(|e| matches!(e, TreeEntry::Section(_)))
        .collect();
    assert_eq!(kinds, vec![true, true, false, false]);

    // the flattened page view: root pages, then section-level pages, then
    // subsection-level pages, each group in structural order
    let hrefs: Vec<&str> = tree.pages().iter().map(|p| p.href.as_str()).collect();
    assert_eq!(
        hrefs,
        vec![
            "/1.html",
            "/2.html",
            "/d1/1.html",
            "/d1/2.html",
            "/d2/1.html",
            "/d2/2.html",
            "/d1/s1/1.html",
            "/d1/s1/2.html",
            "/d1/s2/1.html",
            "/d1/s2/2.html",
            "/d2/s1/1.html",
        ]
    );

    assert_eq!(tree.main_page.href, "/");
    assert_eq!(tree.main_page.name, "WGEN Webpage");
    assert_eq!(tree.main_page.date, "Unknown");
}

#[test]
fn assembly_is_repeatable() {
    // unchanged inputs give a structurally identical tree
    assert_eq!(assemble_spec2(), assemble_spec2());
}

#[test]
fn context_carries_manifest_metadata() {
    let tree = assemble_spec2();
    let ctx = tree.context();
    assert_eq!(ctx.title, "WGEN Webpage");
    assert!(!ctx.append_title);
    assert_eq!(ctx.href_prepend, "/~home");
    assert_eq!(ctx.footer_content, "&copy; lysolaka. Contact me: +69 420 024 420");
}
