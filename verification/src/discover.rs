//! Discovery of the three-level content hierarchy.
//!
//! The caller enumerates the directories under the root and reports, for
//! each level, whether the level's declaration file exists there as a
//! regular file. Discovery validates that description and produces an
//! unparsed skeleton: the root plus the declaration-file paths of every
//! directory that qualifies as a section or subsection. A directory whose
//! declaration file is missing is skipped, never an error; a missing root
//! manifest fails the whole run.

use vstd::prelude::*;
use vstd::string::StringExecFns;

use crate::paths;

verus! {

/// What discovery sees of a directory nested inside a section directory:
/// its path and whether `subsection.toml` exists in it as a regular file.
#[derive(Debug, PartialEq)]
pub struct SubdirListing {
    pub path: String,
    pub has_spec: bool,
}

/// What discovery sees of a directory directly under the root: its path,
/// whether `section.toml` exists in it as a regular file, and its own
/// subdirectories.
#[derive(Debug, PartialEq)]
pub struct DirListing {
    pub path: String,
    pub has_spec: bool,
    pub subdirs: Vec<SubdirListing>,
}

/// What discovery sees of the root: whether `manifest.toml` exists there as
/// a regular file, and the directories directly under it, in enumeration
/// order.
#[derive(Debug, PartialEq)]
pub struct RootListing {
    pub has_manifest: bool,
    pub dirs: Vec<DirListing>,
}

/// A discovered subsection: the path of its declaration file.
#[derive(Debug, PartialEq)]
pub struct Subsection(pub String);

/// A discovered section: the path of its declaration file and its
/// discovered subsections, in enumeration order.
#[derive(Debug, PartialEq)]
pub struct Section {
    pub spec_file: String,
    pub subsections: Vec<Subsection>,
}

/// The unparsed skeleton of the whole site: the root path and the
/// discovered sections, in enumeration order.
#[derive(Debug, PartialEq)]
pub struct Structure {
    pub root: String,
    pub sections: Vec<Section>,
}

/// The one fatal discovery failure: there is no site without a root
/// manifest.
#[derive(Debug, PartialEq)]
pub enum DiscoveryError {
    MissingManifest,
}

impl DiscoveryError {
    /// The text the run aborts with.
    pub fn message(&self) -> (r: String)
        ensures
            r@ == "no manifest.toml found in the root, aborting..."@,
    {
        String::from_str("no manifest.toml found in the root, aborting...")
    }
}

/// A subsection skeleton stands for a listed subdirectory when it names the
/// subsection declaration file inside that subdirectory.
pub open spec fn subsection_skel_matches(s: Subsection, d: SubdirListing) -> bool {
    s.0@ == paths::join_seq(d.path@, "subsection.toml"@)
}

/// The subdirectories that carry a subsection declaration, in order.
pub open spec fn kept_subdirs(subdirs: Seq<SubdirListing>) -> Seq<SubdirListing>
    decreases subdirs.len(),
{
    if subdirs.len() == 0 {
        Seq::empty()
    } else if subdirs.last().has_spec {
        kept_subdirs(subdirs.drop_last()).push(subdirs.last())
    } else {
        kept_subdirs(subdirs.drop_last())
    }
}

/// The skeletons cover exactly the subdirectories that carry a declaration,
/// in enumeration order.
pub open spec fn subsections_match(skels: Seq<Subsection>, subdirs: Seq<SubdirListing>) -> bool {
    &&& skels.len() == kept_subdirs(subdirs).len()
    &&& forall|i: int|
        0 <= i < skels.len() ==> subsection_skel_matches(
            #[trigger] skels[i],
            kept_subdirs(subdirs)[i],
        )
}

/// A section skeleton stands for a listed directory when it names the
/// section declaration file inside it and its subsections cover the
/// qualifying subdirectories.
pub open spec fn section_skel_matches(s: Section, d: DirListing) -> bool {
    &&& s.spec_file@ == paths::join_seq(d.path@, "section.toml"@)
    &&& subsections_match(s.subsections@, d.subdirs@)
}

/// The directories that carry a section declaration, in order.
pub open spec fn kept_dirs(dirs: Seq<DirListing>) -> Seq<DirListing>
    decreases dirs.len(),
{
    if dirs.len() == 0 {
        Seq::empty()
    } else if dirs.last().has_spec {
        kept_dirs(dirs.drop_last()).push(dirs.last())
    } else {
        kept_dirs(dirs.drop_last())
    }
}

/// The skeletons cover exactly the directories that carry a declaration, in
/// enumeration order.
pub open spec fn sections_match(skels: Seq<Section>, dirs: Seq<DirListing>) -> bool {
    &&& skels.len() == kept_dirs(dirs).len()
    &&& forall|i: int|
        0 <= i < skels.len() ==> section_skel_matches(#[trigger] skels[i], kept_dirs(dirs)[i])
}

proof fn lemma_kept_subdirs_take_step(subdirs: Seq<SubdirListing>, i: int)
    requires
        0 <= i < subdirs.len(),
    ensures
        subdirs[i].has_spec ==> kept_subdirs(subdirs.take(i + 1)) == kept_subdirs(
            subdirs.take(i),
        ).push(subdirs[i]),
        !subdirs[i].has_spec ==> kept_subdirs(subdirs.take(i + 1)) == kept_subdirs(
            subdirs.take(i),
        ),
{
    assert(subdirs.take(i + 1).drop_last() =~= subdirs.take(i));
    assert(subdirs.take(i + 1).last() == subdirs[i]);
}

proof fn lemma_kept_dirs_take_step(dirs: Seq<DirListing>, i: int)
    requires
        0 <= i < dirs.len(),
    ensures
        dirs[i].has_spec ==> kept_dirs(dirs.take(i + 1)) == kept_dirs(dirs.take(i)).push(dirs[i]),
        !dirs[i].has_spec ==> kept_dirs(dirs.take(i + 1)) == kept_dirs(dirs.take(i)),
{
    assert(dirs.take(i + 1).drop_last() =~= dirs.take(i));
    assert(dirs.take(i + 1).last() == dirs[i]);
}

/// Validates one subdirectory as a subsection; a subdirectory without the
/// declaration file is skipped.
fn collect_subdir(dir: &SubdirListing) -> (r: Option<Subsection>)
    ensures
        dir.has_spec ==> (r matches Option::Some(s) && subsection_skel_matches(s, *dir)),
        !dir.has_spec ==> r is None,
{
    if dir.has_spec {
        Option::Some(Subsection(paths::join_path(dir.path.as_str(), "subsection.toml")))
    } else {
        Option::None
    }
}

/// Validates one directory as a section and collects its subsections; a
/// directory without the declaration file is skipped.
fn collect_dir(dir: &DirListing) -> (r: Option<Section>)
    ensures
        dir.has_spec ==> (r matches Option::Some(s) && section_skel_matches(s, *dir)),
        !dir.has_spec ==> r is None,
{
    if !dir.has_spec {
        return Option::None;
    }
    let spec_file = paths::join_path(dir.path.as_str(), "section.toml");
    let mut subsections: Vec<Subsection> = Vec::new();
    let mut i: usize = 0;
    while i < dir.subdirs.len()
        invariant
            i <= dir.subdirs@.len(),
            subsections_match(subsections@, dir.subdirs@.take(i as int)),
        decreases dir.subdirs@.len() - i,
    {
        match collect_subdir(&dir.subdirs[i]) {
            Option::Some(s) => subsections.push(s),
            Option::None => {},
        }
        proof {
            lemma_kept_subdirs_take_step(dir.subdirs@, i as int);
        }
        i += 1;
    }
    proof {
        assert(dir.subdirs@.take(dir.subdirs@.len() as int) =~= dir.subdirs@);
    }
    Option::Some(Section { spec_file, subsections })
}

/// Collects the sections under a root that carries a manifest; without one
/// there is nothing to collect.
fn collect_structure(listing: &RootListing) -> (r: Option<Vec<Section>>)
    ensures
        listing.has_manifest ==> (r matches Option::Some(secs) && sections_match(
            secs@,
            listing.dirs@,
        )),
        !listing.has_manifest ==> r is None,
{
    if !listing.has_manifest {
        return Option::None;
    }
    let mut sections: Vec<Section> = Vec::new();
    let mut i: usize = 0;
    while i < listing.dirs.len()
        invariant
            i <= listing.dirs@.len(),
            sections_match(sections@, listing.dirs@.take(i as int)),
        decreases listing.dirs@.len() - i,
    {
        match collect_dir(&listing.dirs[i]) {
            Option::Some(s) => sections.push(s),
            Option::None => {},
        }
        proof {
            lemma_kept_dirs_take_step(listing.dirs@, i as int);
        }
        i += 1;
    }
    proof {
        assert(listing.dirs@.take(listing.dirs@.len() as int) =~= listing.dirs@);
    }
    Option::Some(sections)
}

impl Structure {
    /// Discovers the site skeleton under `root`, as described by `listing`.
    /// Fails exactly when the root manifest is missing; directories that do
    /// not qualify are left out silently.
    pub fn collect_from(root: &str, listing: &RootListing) -> (r: Result<
        Structure,
        DiscoveryError,
    >)
        ensures
            r is Ok <==> listing.has_manifest,
            r matches Result::Ok(s) ==> s.root@ == root@ && sections_match(
                s.sections@,
                listing.dirs@,
            ),
            r matches Result::Err(e) ==> e == DiscoveryError::MissingManifest,
    {
        match collect_structure(listing) {
            Option::Some(sections) => Result::Ok(
                Structure { root: String::from_str(root), sections },
            ),
            Option::None => Result::Err(DiscoveryError::MissingManifest),
        }
    }
}

} // verus!
