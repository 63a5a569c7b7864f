use wgen::render::is_empty;
use wgen::render::is_page;
use wgen::render::is_section;
use wgen::tree::Page;
use wgen::tree::Section;
use wgen::tree::SectionEntry;
use wgen::tree::Subsection;
use wgen::tree::Tree;
use wgen::tree::TreeEntry;

fn page(name: &str) -> Page {
    Page {
        name: name.to_string(),
        desc: "".to_string(),
        path: format!("example/{}.md", name.len()),
        href: format!("/{}.html", name.len()),
        date: "Unknown".to_string(),
    }
}

fn subsection(name: &str, pages: Vec<Page>) -> Subsection {
    Subsection {
        name: name.to_string(),
        desc: "".to_string(),
        path: "example/x".to_string(),
        href: "/x/".to_string(),
        pages,
    }
}

fn example_tree() -> Tree {
    let projects = Section {
        name: "Projects".to_string(),
        desc: "Things built".to_string(),
        path: "example/projects".to_string(),
        href: "/projects/".to_string(),
        entries: vec![
            SectionEntry::Subsection(subsection("Games", vec![page("Toxic videogames")])),
            SectionEntry::Page(page("Catalyst improvements")),
            SectionEntry::Page(page("wgen - the very \"limited\" website generator")),
        ],
    };
    let tutorials = Section {
        name: "Tutorials".to_string(),
        desc: "Things learnt".to_string(),
        path: "example/tutorials".to_string(),
        href: "/tutorials/".to_string(),
        entries: vec![
            SectionEntry::Subsection(subsection(
                "Distros",
                vec![
                    page("Choosing your distribution"),
                    page("Why Gentoo is the best?"),
                ],
            )),
            SectionEntry::Subsection(subsection(
                "Links",
                vec![page("Online Linux tutorials")],
            )),
            SectionEntry::Page(page("Gentoo + LLVM")),
            SectionEntry::Page(page("Learning maths")),
        ],
    };
    Tree {
        root: "example".to_string(),
        title: "Example".to_string(),
        append_title: false,
        href_prepend: "".to_string(),
        footer_content: "".to_string(),
        main_page: page("Example"),
        entries: vec![
            TreeEntry::Section(projects),
            TreeEntry::Section(tutorials),
            TreeEntry::Page(page("Schedule")),
            TreeEntry::Page(page("Contact Information")),
        ],
    }
}

#[test]
fn sections_iter() {
    let tree = example_tree();
    let sections: Vec<&str> = tree.sections().iter().map(|s| s.name.as_str()).collect();
    let exp = vec!["Projects", "Tutorials"];

    assert_eq!(sections, exp);
}

#[test]
fn subsections_iter() {
    let tree = Tree::structure_into_tree_expect();
    let subsections: Vec<String> = tree
        .subsections()
        .iter()
        .map(|s| s.name.clone())
        .collect();
    let exp = vec!["S1 subsection", "S2 sub", "d1/S1 subsection"];

    assert_eq!(subsections, exp);
}

#[test]
fn pages_iter() {
    let tree = example_tree();
    let pages: Vec<&str> = tree.pages().iter().map(|p| p.name.as_str()).collect();
    let expect = vec![
        "Schedule",
        "Contact Information",
        "Catalyst improvements",
        "wgen - the very \"limited\" website generator",
        "Gentoo + LLVM",
        "Learning maths",
        "Toxic videogames",
        "Choosing your distribution",
        "Why Gentoo is the best?",
        "Online Linux tutorials",
    ];

    assert_eq!(pages, expect);
}

#[test]
fn template_value_tests() {
    assert!(is_empty("".to_string()));
    assert!(!is_empty("x".to_string()));
    assert!(is_section("Section".to_string()));
    assert!(!is_section("Page".to_string()));
    assert!(is_page("Page".to_string()));
    assert!(!is_page("Section".to_string()));
}

#[test]
fn hrefs_are_site_rooted() {
    let tree = Tree::structure_into_tree_expect();
    for sec in tree.sections() {
        assert!(sec.href.starts_with('/'));
        assert!(sec.href.ends_with('/'));
    }
    for sub in tree.subsections() {
        assert!(sub.href.starts_with('/'));
        assert!(sub.href.ends_with('/'));
    }
    for p in tree.pages() {
        assert!(p.href.starts_with('/'));
        assert!(!p.href.ends_with('/'));
    }
}
