use wgen::discover::DirListing;
use wgen::discover::DiscoveryError;
use wgen::discover::RootListing;
use wgen::discover::Section;
use wgen::discover::Structure;
use wgen::discover::SubdirListing;
use wgen::discover::Subsection;

fn subdir(path: &str, has_spec: bool) -> SubdirListing {
    SubdirListing { path: path.to_string(), has_spec }
}

fn dir(path: &str, has_spec: bool, subdirs: Vec<SubdirListing>) -> DirListing {
    DirListing { path: path.to_string(), has_spec, subdirs }
}

#[test]
fn collect_spec1() {
    let listing = RootListing {
        has_manifest: true,
        dirs: vec![
            dir("spec1/d1", true, vec![subdir("spec1/d1/s1", true)]),
            dir("spec1/d2", true, vec![]),
        ],
    };
    let structure = Structure::collect_from("spec1", &listing).unwrap();
    let expect = Structure {
        root: "spec1".to_string(),
        sections: vec![
            Section {
                spec_file: "spec1/d1/section.toml".to_string(),
                subsections: vec![Subsection("spec1/d1/s1/subsection.toml".to_string())],
            },
            Section {
                spec_file: "spec1/d2/section.toml".to_string(),
                subsections: vec![],
            },
        ],
    };

    assert_eq!(structure, expect);
}

#[test]
fn collect_spec2() {
    let listing = RootListing {
        has_manifest: true,
        dirs: vec![
            dir(
                "spec2/d1",
                true,
                vec![subdir("spec2/d1/s1", true), subdir("spec2/d1/s2", true)],
            ),
            dir("spec2/d2", true, vec![subdir("spec2/d2/s1", true)]),
        ],
    };
    let structure = Structure::collect_from("spec2", &listing).unwrap();
    let expect = Structure {
        root: "spec2".to_string(),
        sections: vec![
            Section {
                spec_file: "spec2/d1/section.toml".to_string(),
                subsections: vec![
                    Subsection("spec2/d1/s1/subsection.toml".to_string()),
                    Subsection("spec2/d1/s2/subsection.toml".to_string()),
                ],
            },
            Section {
                spec_file: "spec2/d2/section.toml".to_string(),
                subsections: vec![Subsection("spec2/d2/s1/subsection.toml".to_string())],
            },
        ],
    };

    assert_eq!(structure, expect);
}

#[test]
fn collect_missing_manifest_fails() {
    let listing = RootListing {
        has_manifest: false,
        dirs: vec![dir("site/d1", true, vec![])],
    };
    let err = Structure::collect_from("site", &listing).unwrap_err();
    assert_eq!(err, DiscoveryError::MissingManifest);
    assert_eq!(
        err.message(),
        "no manifest.toml found in the root, aborting..."
    );
}

#[test]
fn collect_skips_directory_without_section_file() {
    let listing = RootListing {
        has_manifest: true,
        dirs: vec![
            dir("site/assets", false, vec![]),
            dir(
                "site/docs",
                true,
                vec![subdir("site/docs/misc", false), subdir("site/docs/deep", true)],
            ),
        ],
    };
    let structure = Structure::collect_from("site", &listing).unwrap();
    let expect = Structure {
        root: "site".to_string(),
        sections: vec![Section {
            spec_file: "site/docs/section.toml".to_string(),
            subsections: vec![Subsection("site/docs/deep/subsection.toml".to_string())],
        }],
    };

    assert_eq!(structure, expect);
}
