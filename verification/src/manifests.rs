//! The library manifest scanner: what package manifests declare as
//! third-party dependencies.

use vstd::prelude::*;
use crate::dependency_metadata::{LibraryDependency, LibraryModel};
use crate::json::{json_object_section, object_section};

use crate::patterns::{captures_of, group, group_of, regex_captures};
use crate::text::{chars_of, comes_before, lines_of, precedes, split_lines, starts_with, str_eq, string_of, trim, trim_str, trimmed, CharClass};
use crate::text::{
    distinct, file_name_of, lemma_precedes_one_way, lemma_precedes_splits, path_segments,
};
use crate::views::{lemma_deep_view_concat, lemma_deep_view_push};

verus! {

/// Why a manifest could not be read.
#[derive(Debug, Clone, Copy, PartialEq, Eq, Structural)]
pub enum ManifestError {
    /// The node manifest is no JSON document.
    PackageJson,
    /// A line pattern was rejected.
    Pattern,
}

impl ManifestError {
    /// The cause in words.
    pub open spec fn text(self) -> Seq<char> {
        match self {
            ManifestError::PackageJson => "Failed to parse package.json"@,
            ManifestError::Pattern => "Failed to build manifest pattern"@,
        }
    }

    /// The cause in words.
    pub fn message(&self) -> (r: String)
        ensures
            r@ == self.text(),
    {
        match self {
            ManifestError::PackageJson => "Failed to parse package.json".to_string(),
            ManifestError::Pattern => "Failed to build manifest pattern".to_string(),
        }
    }
}

/// A manifest found in a repository: its path relative to the root, with
/// forward slashes, and its text.
#[derive(Debug)]
pub struct ManifestFile {
    pub source_file: String,
    pub content: String,
}

impl View for ManifestFile {
    type V = (Seq<char>, Seq<char>);

    open spec fn view(&self) -> (Seq<char>, Seq<char>) {
        (self.source_file@, self.content@)
    }
}

impl DeepView for ManifestFile {
    type V = (Seq<char>, Seq<char>);

    open spec fn deep_view(&self) -> (Seq<char>, Seq<char>) {
        self@
    }
}

/// Appends `more` to `list`.
pub fn extend_libraries(list: &mut Vec<LibraryDependency>, more: Vec<LibraryDependency>)
    ensures
        final(list).deep_view() == old(list).deep_view() + more.deep_view(),
{
    let mut more = more;
    proof {
        lemma_deep_view_concat(list@, more@);
    }
    list.append(&mut more);
}

// ---------------------------------------------------------------------------
// Node manifest
// ---------------------------------------------------------------------------

/// The libraries of one section of a node manifest.
pub open spec fn section_libraries(
    members: Option<Seq<(Seq<char>, Option<Seq<char>>)>>,
    source_file: Seq<char>,
) -> Seq<LibraryModel> {
    match members {
        Some(list) => Seq::new(
            list.len(),
            |i: int| LibraryModel { name: list[i].0, version: list[i].1, source_file },
        ),
        None => Seq::empty(),
    }
}

/// The libraries of the given section of a node manifest; nothing for a
/// document that does not parse.
pub open spec fn package_section(content: Seq<char>, section: Seq<char>, source_file: Seq<char>) -> Seq<
    LibraryModel,
> {
    match json_object_section(content, section) {
        Some(members) => section_libraries(members, source_file),
        None => Seq::empty(),
    }
}

/// The libraries a node manifest declares: the members of `dependencies`,
/// `devDependencies`, `peerDependencies` and `optionalDependencies`, each
/// with its version or version requirement where that is a string.
pub open spec fn package_json_libraries(content: Seq<char>, source_file: Seq<char>) -> Seq<LibraryModel> {
    package_section(content, "dependencies"@, source_file) + package_section(
        content,
        "devDependencies"@,
        source_file,
    ) + package_section(content, "peerDependencies"@, source_file) + package_section(
        content,
        "optionalDependencies"@,
        source_file,
    )
}

/// Whether the document parses, going by each of the four sections.
pub open spec fn package_json_parses(content: Seq<char>) -> bool {
    &&& json_object_section(content, "dependencies"@) is Some
    &&& json_object_section(content, "devDependencies"@) is Some
    &&& json_object_section(content, "peerDependencies"@) is Some
    &&& json_object_section(content, "optionalDependencies"@) is Some
}

/// The libraries of one section of a node manifest.
fn libraries_of_section(content: &str, section: &str, source_file: &str) -> (r: Result<
    Vec<LibraryDependency>,
    ManifestError,
>)
    ensures
        match r {
            Ok(deps) => json_object_section(content@, section@) is Some && deps.deep_view()
                == package_section(content@, section@, source_file@),
            Err(_) => json_object_section(content@, section@) is None,
        },
{
    let members = match object_section(content, section) {
        Ok(members) => members,
        Err(_) => {
            return Err(ManifestError::PackageJson);
        },
    };
    let mut deps: Vec<LibraryDependency> = Vec::new();
    match members {
        Some(list) => {
            let ghost all = list.deep_view();
            let ghost target = section_libraries(Some(all), source_file@);
            let mut i: usize = 0;
            assert(deps.deep_view() =~= target.take(0));
            while i < list.len()
                invariant
                    i <= list@.len(),
                    all == list.deep_view(),
                    target == section_libraries(Some(all), source_file@),
                    deps.deep_view() == target.take(i as int),
                decreases list@.len() - i,
            {
                let dep = LibraryDependency {
                    name: list[i].0.clone(),
                    version: list[i].1.clone(),
                    source_file: source_file.to_string(),
                };
                proof {
                    lemma_deep_view_push(deps@, deps@.push(dep), dep);
                    assert(target.take(i as int).push(target[i as int]) =~= target.take(i + 1));
                }
                deps.push(dep);
                i += 1;
            }
            assert(target.take(i as int) =~= target);
        },
        None => {
            assert(deps.deep_view() =~= Seq::empty());
        },
    }
    Ok(deps)
}

/// The libraries a node manifest declares. Fails when the manifest is no
/// JSON document.
pub fn parse_package_json(content: &str, source_file: &str) -> (r: Result<
    Vec<LibraryDependency>,
    ManifestError,
>)
    ensures
        match r {
            Ok(deps) => package_json_parses(content@) && deps.deep_view() == package_json_libraries(
                content@,
                source_file@,
            ),
            Err(_) => !package_json_parses(content@),
        },
{
    let mut deps = match libraries_of_section(content, "dependencies", source_file) {
        Ok(deps) => deps,
        Err(e) => {
            return Err(e);
        },
    };
    match libraries_of_section(content, "devDependencies", source_file) {
        Ok(more) => {
            extend_libraries(&mut deps, more);
        },
        Err(e) => {
            return Err(e);
        },
    }
    match libraries_of_section(content, "peerDependencies", source_file) {
        Ok(more) => {
            extend_libraries(&mut deps, more);
        },
        Err(e) => {
            return Err(e);
        },
    }
    match libraries_of_section(content, "optionalDependencies", source_file) {
        Ok(more) => {
            extend_libraries(&mut deps, more);
        },
        Err(e) => {
            return Err(e);
        },
    }
    Ok(deps)
}

// ---------------------------------------------------------------------------
// Line-oriented manifests
// ---------------------------------------------------------------------------

pub const REQUIREMENT_LINE: &'static str = r"^\s*([A-Za-z0-9_.\-]+)\s*([=<>!~]+\s*[^\s;]+)?";

pub const CARGO_SIMPLE: &'static str = r#"^\s*([A-Za-z0-9_\-]+)\s*=\s*\"([^\"]+)\""#;

pub const CARGO_TABLE: &'static str =
    r#"^\s*([A-Za-z0-9_\-]+)\s*=\s*\{[^}]*version\s*=\s*\"([^\"]+)\"[^}]*\}"#;

pub const GO_REQUIRE: &'static str = r"^\s*require\s+([^\s]+)\s+([^\s]+)";

pub const GO_ENTRY: &'static str = r"^\s*([^\s]+)\s+([^\s]+)";

/// Whether the pattern compiles.
pub open spec fn pattern_accepted(pattern: Seq<char>) -> bool {
    regex_captures(pattern, Seq::empty()) is Some
}

/// The groups of the first match of a pattern in a line, if it matches.
pub open spec fn first_capture(pattern: Seq<char>, line: Seq<char>) -> Option<Seq<Option<Seq<char>>>> {
    match regex_captures(pattern, line) {
        Some(found) => if found.len() > 0 {
            Some(found[0])
        } else {
            None
        },
        None => None,
    }
}

/// The groups of the first match of a pattern in a line.
fn capture_first(pattern: &str, line: &str) -> (r: Option<Vec<Option<String>>>)
    ensures
        r.deep_view() == first_capture(pattern@, line@),
{
    match captures_of(pattern, line) {
        Some(found) => {
            if found.len() > 0 {
                let groups = found[0].clone();
                assert(groups.deep_view() =~= found.deep_view()[0]) by {
                    assert(found.deep_view()[0] == found[0].deep_view());
                    assert forall|k: int| 0 <= k < groups@.len() implies groups@[k].deep_view()
                        == found[0]@[k].deep_view() by {
                        assert(vstd::pervasive::cloned(found[0]@[k], groups@[k]));
                    }
                }
                Some(groups)
            } else {
                None
            }
        },
        None => None,
    }
}

/// Whether the pattern compiles.
fn accepted(pattern: &str) -> (r: bool)
    ensures
        r == pattern_accepted(pattern@),
{
    proof {
        reveal_strlit("");
    }
    assert(""@ =~= Seq::<char>::empty());
    captures_of(pattern, "").is_some()
}

/// Whether a line carries nothing: it is empty or a `#` comment.
pub open spec fn is_idle(line: Seq<char>) -> bool {
    line.len() == 0 || line[0] == '#'
}

/// The library a requirements line names: the package name and, where the
/// line gives one, the version specifier without surrounding whitespace.
pub open spec fn requirement_of(line: Seq<char>, source_file: Seq<char>) -> Option<LibraryModel> {
    let text = trimmed(line);
    if is_idle(text) {
        None
    } else {
        match first_capture(REQUIREMENT_LINE@, text) {
            Some(groups) => match group(groups, 1) {
                Some(name) => Some(
                    LibraryModel {
                        name,
                        version: match group(groups, 2) {
                            Some(spec) => Some(trimmed(spec)),
                            None => None,
                        },
                        source_file,
                    },
                ),
                None => None,
            },
            None => None,
        }
    }
}

/// The libraries the lines of a requirements file name.
pub open spec fn requirements_of(lines: Seq<Seq<char>>, source_file: Seq<char>) -> Seq<LibraryModel>
    decreases lines.len(),
{
    if lines.len() == 0 {
        Seq::empty()
    } else {
        match requirement_of(lines.last(), source_file) {
            Some(dep) => requirements_of(lines.drop_last(), source_file).push(dep),
            None => requirements_of(lines.drop_last(), source_file),
        }
    }
}

/// The libraries a Python requirements file names, line by line; blank
/// lines and `#` comments name none. Fails when the line pattern is
/// rejected.
pub fn parse_requirements_txt(content: &str, source_file: &str) -> (r: Result<
    Vec<LibraryDependency>,
    ManifestError,
>)
    ensures
        match r {
            Ok(deps) => pattern_accepted(REQUIREMENT_LINE@) && deps.deep_view() == requirements_of(
                lines_of(content@),
                source_file@,
            ),
            Err(_) => !pattern_accepted(REQUIREMENT_LINE@),
        },
{
    if !accepted(REQUIREMENT_LINE) {
        return Err(ManifestError::Pattern);
    }
    let lines = split_lines(&chars_of(content));
    let ghost all = lines.deep_view();
    let mut deps: Vec<LibraryDependency> = Vec::new();
    let mut i: usize = 0;
    assert(deps.deep_view() =~= requirements_of(all.take(0), source_file@));
    while i < lines.len()
        invariant
            i <= lines@.len(),
            all == lines.deep_view(),
            deps.deep_view() == requirements_of(all.take(i as int), source_file@),
        decreases lines@.len() - i,
    {
        proof {
            assert(all.take(i + 1).drop_last() =~= all.take(i as int));
            assert(all.take(i + 1).last() == lines[i as int].deep_view());
            assert(lines[i as int].deep_view() =~= lines[i as int]@);
        }
        let text = trim(&lines[i], CharClass::Space);
        if text.len() > 0 && text[0] != '#' {
            let line = string_of(text);
            match capture_first(REQUIREMENT_LINE, line.as_str()) {
                Some(groups) => match group_of(&groups, 1) {
                    Some(name) => {
                        let version = match group_of(&groups, 2) {
                            Some(spec) => Some(trim_str(spec.as_str(), CharClass::Space)),
                            None => None,
                        };
                        let dep = LibraryDependency {
                            name: name.clone(),
                            version,
                            source_file: source_file.to_string(),
                        };
                        proof {
                            lemma_deep_view_push(deps@, deps@.push(dep), dep);
                        }
                        deps.push(dep);
                    },
                    None => {},
                },
                None => {},
            }
        }
        i += 1;
    }
    assert(all.take(i as int) =~= all);
    Ok(deps)
}


/// The library two groups of a match name, if both took part.
pub open spec fn named_version(groups: Seq<Option<Seq<char>>>, source_file: Seq<char>) -> Option<
    LibraryModel,
> {
    match (group(groups, 1), group(groups, 2)) {
        (Some(name), Some(version)) => Some(LibraryModel { name, version: Some(version), source_file }),
        _ => None,
    }
}

/// The library two groups of a match name.
fn library_from(groups: &Vec<Option<String>>, source_file: &str) -> (r: Option<LibraryDependency>)
    ensures
        r.deep_view() == named_version(groups.deep_view(), source_file@),
{
    match (group_of(groups, 1), group_of(groups, 2)) {
        (Some(name), Some(version)) => Some(
            LibraryDependency {
                name: name.clone(),
                version: Some(version.clone()),
                source_file: source_file.to_string(),
            },
        ),
        _ => None,
    }
}

/// Where a scan of a manifest stands: whether it is inside a section or
/// block of dependencies, and the libraries found.
pub struct ManifestScan {
    pub inside: bool,
    pub found: Seq<LibraryModel>,
}

/// A scan with one more library, if there is one.
pub open spec fn with_library(scan: ManifestScan, dep: Option<LibraryModel>) -> ManifestScan {
    match dep {
        Some(d) => ManifestScan { inside: scan.inside, found: scan.found.push(d) },
        None => scan,
    }
}

/// Whether a line is one of the headers that open a section of
/// dependencies in a Rust manifest.
pub open spec fn opens_dependencies(header: Seq<char>) -> bool {
    header == "[dependencies]"@ || header == "[dev-dependencies]"@ || header
        == "[build-dependencies]"@
}

/// Reads one line of a Rust manifest. A header line decides whether what
/// follows are dependencies; within them a line `name = { version = ".." }`
/// or `name = ".."` names a library.
pub open spec fn cargo_step(scan: ManifestScan, line: Seq<char>, source_file: Seq<char>) -> ManifestScan {
    let text = trimmed(line);
    if text.len() > 0 && text[0] == '[' && text.last() == ']' {
        ManifestScan { inside: opens_dependencies(text), found: scan.found }
    } else if !scan.inside || is_idle(text) {
        scan
    } else {
        match first_capture(CARGO_TABLE@, text) {
            Some(groups) => with_library(scan, named_version(groups, source_file)),
            None => match first_capture(CARGO_SIMPLE@, text) {
                Some(groups) => with_library(scan, named_version(groups, source_file)),
                None => scan,
            },
        }
    }
}

/// Where a scan of a Rust manifest stands after the given lines.
pub open spec fn cargo_scan(lines: Seq<Seq<char>>, source_file: Seq<char>) -> ManifestScan
    decreases lines.len(),
{
    if lines.len() == 0 {
        ManifestScan { inside: false, found: Seq::empty() }
    } else {
        cargo_step(cargo_scan(lines.drop_last(), source_file), lines.last(), source_file)
    }
}

/// Adds a library to the list, if there is one.
fn push_library(deps: &mut Vec<LibraryDependency>, dep: Option<LibraryDependency>)
    ensures
        final(deps).deep_view() == (match dep.deep_view() {
            Some(d) => old(deps).deep_view().push(d),
            None => old(deps).deep_view(),
        }),
{
    match dep {
        Some(d) => {
            proof {
                lemma_deep_view_push(deps@, deps@.push(d), d);
            }
            deps.push(d);
        },
        None => {},
    }
}

/// The libraries a Rust manifest declares in its `[dependencies]`,
/// `[dev-dependencies]` and `[build-dependencies]` sections. Fails when a
/// line pattern is rejected.
pub fn parse_cargo_toml(content: &str, source_file: &str) -> (r: Result<
    Vec<LibraryDependency>,
    ManifestError,
>)
    ensures
        match r {
            Ok(deps) => pattern_accepted(CARGO_SIMPLE@) && pattern_accepted(CARGO_TABLE@)
                && deps.deep_view() == cargo_scan(lines_of(content@), source_file@).found,
            Err(_) => !(pattern_accepted(CARGO_SIMPLE@) && pattern_accepted(CARGO_TABLE@)),
        },
{
    if !accepted(CARGO_SIMPLE) || !accepted(CARGO_TABLE) {
        return Err(ManifestError::Pattern);
    }
    let lines = split_lines(&chars_of(content));
    let ghost all = lines.deep_view();
    let mut deps: Vec<LibraryDependency> = Vec::new();
    let mut in_deps = false;
    let mut i: usize = 0;
    assert(deps.deep_view() =~= Seq::empty());
    while i < lines.len()
        invariant
            i <= lines@.len(),
            all == lines.deep_view(),
            cargo_scan(all.take(i as int), source_file@) == (ManifestScan {
                inside: in_deps,
                found: deps.deep_view(),
            }),
        decreases lines@.len() - i,
    {
        proof {
            assert(all.take(i + 1).drop_last() =~= all.take(i as int));
            assert(all.take(i + 1).last() == lines[i as int].deep_view());
            assert(lines[i as int].deep_view() =~= lines[i as int]@);
        }
        let text = trim(&lines[i], CharClass::Space);
        let n = text.len();
        if n > 0 && text[0] == '[' && text[n - 1] == ']' {
            let header = string_of(text);
            in_deps = str_eq(header.as_str(), "[dependencies]") || str_eq(
                header.as_str(),
                "[dev-dependencies]",
            ) || str_eq(header.as_str(), "[build-dependencies]");
        } else if in_deps && n > 0 && text[0] != '#' {
            let line = string_of(text);
            match capture_first(CARGO_TABLE, line.as_str()) {
                Some(groups) => {
                    push_library(&mut deps, library_from(&groups, source_file));
                },
                None => match capture_first(CARGO_SIMPLE, line.as_str()) {
                    Some(groups) => {
                        push_library(&mut deps, library_from(&groups, source_file));
                    },
                    None => {},
                },
            }
        }
        i += 1;
    }
    assert(all.take(i as int) =~= all);
    Ok(deps)
}

/// Reads one line of a Go module file. `require (` opens a block and `)`
/// closes it; a line `require <path> <version>` names a library anywhere,
/// a line `<path> <version>` names one inside a block.
pub open spec fn go_step(scan: ManifestScan, line: Seq<char>, source_file: Seq<char>) -> ManifestScan {
    let text = trimmed(line);
    if crate::text::has_prefix(text, "require ("@) {
        ManifestScan { inside: true, found: scan.found }
    } else if scan.inside && text.len() > 0 && text[0] == ')' {
        ManifestScan { inside: false, found: scan.found }
    } else {
        match first_capture(GO_REQUIRE@, text) {
            Some(groups) => with_library(scan, named_version(groups, source_file)),
            None => if scan.inside {
                match first_capture(GO_ENTRY@, text) {
                    Some(groups) => with_library(scan, named_version(groups, source_file)),
                    None => scan,
                }
            } else {
                scan
            },
        }
    }
}

/// Where a scan of a Go module file stands after the given lines.
pub open spec fn go_scan(lines: Seq<Seq<char>>, source_file: Seq<char>) -> ManifestScan
    decreases lines.len(),
{
    if lines.len() == 0 {
        ManifestScan { inside: false, found: Seq::empty() }
    } else {
        go_step(go_scan(lines.drop_last(), source_file), lines.last(), source_file)
    }
}

/// The libraries a Go module file requires. Fails when a line pattern is
/// rejected.
pub fn parse_go_mod(content: &str, source_file: &str) -> (r: Result<Vec<LibraryDependency>, ManifestError>)
    ensures
        match r {
            Ok(deps) => pattern_accepted(GO_REQUIRE@) && pattern_accepted(GO_ENTRY@)
                && deps.deep_view() == go_scan(lines_of(content@), source_file@).found,
            Err(_) => !(pattern_accepted(GO_REQUIRE@) && pattern_accepted(GO_ENTRY@)),
        },
{
    if !accepted(GO_REQUIRE) || !accepted(GO_ENTRY) {
        return Err(ManifestError::Pattern);
    }
    let lines = split_lines(&chars_of(content));
    let ghost all = lines.deep_view();
    let mut deps: Vec<LibraryDependency> = Vec::new();
    let mut in_block = false;
    let block_start = chars_of("require (");
    let mut i: usize = 0;
    assert(deps.deep_view() =~= Seq::empty());
    while i < lines.len()
        invariant
            i <= lines@.len(),
            all == lines.deep_view(),
            block_start@ == "require ("@,
            go_scan(all.take(i as int), source_file@) == (ManifestScan {
                inside: in_block,
                found: deps.deep_view(),
            }),
        decreases lines@.len() - i,
    {
        proof {
            assert(all.take(i + 1).drop_last() =~= all.take(i as int));
            assert(all.take(i + 1).last() == lines[i as int].deep_view());
            assert(lines[i as int].deep_view() =~= lines[i as int]@);
        }
        let text = trim(&lines[i], CharClass::Space);
        if starts_with(&text, &block_start) {
            in_block = true;
        } else if in_block && text.len() > 0 && text[0] == ')' {
            in_block = false;
        } else {
            let line = string_of(text);
            match capture_first(GO_REQUIRE, line.as_str()) {
                Some(groups) => {
                    push_library(&mut deps, library_from(&groups, source_file));
                },
                None => {
                    if in_block {
                        match capture_first(GO_ENTRY, line.as_str()) {
                            Some(groups) => {
                                push_library(&mut deps, library_from(&groups, source_file));
                            },
                            None => {},
                        }
                    }
                },
            }
        }
        i += 1;
    }
    assert(all.take(i as int) =~= all);
    Ok(deps)
}

// ---------------------------------------------------------------------------
// The catalog
// ---------------------------------------------------------------------------

/// `sorted` with `dep` placed behind every entry whose name does not come
/// after its own.
pub open spec fn placed_by_name(sorted: Seq<LibraryModel>, dep: LibraryModel) -> Seq<LibraryModel>
    decreases sorted.len(),
{
    if sorted.len() > 0 && precedes(dep.name, sorted.last().name) {
        placed_by_name(sorted.drop_last(), dep).push(sorted.last())
    } else {
        sorted.push(dep)
    }
}

/// The libraries ordered by name; libraries of the same name keep their
/// order.
pub open spec fn by_name(deps: Seq<LibraryModel>) -> Seq<LibraryModel>
    decreases deps.len(),
{
    if deps.len() == 0 {
        Seq::empty()
    } else {
        placed_by_name(by_name(deps.drop_last()), deps.last())
    }
}

proof fn lemma_placed_by_name(sorted: Seq<LibraryModel>, dep: LibraryModel, p: int)
    requires
        0 <= p <= sorted.len(),
        forall|j: int| p <= j < sorted.len() ==> precedes(dep.name, sorted[j].name),
        p > 0 ==> !precedes(dep.name, sorted[p - 1].name),
    ensures
        placed_by_name(sorted, dep) == sorted.insert(p, dep),
    decreases sorted.len() - p,
{
    if p < sorted.len() {
        lemma_placed_by_name(sorted.drop_last(), dep, p);
        assert(sorted.drop_last().insert(p, dep).push(sorted.last()) =~= sorted.insert(p, dep));
    } else {
        assert(sorted.push(dep) =~= sorted.insert(p, dep));
    }
}

/// Orders libraries by name.
pub fn sort_by_name(deps: Vec<LibraryDependency>) -> (sorted: Vec<LibraryDependency>)
    ensures
        sorted.deep_view() == by_name(deps.deep_view()),
{
    let mut sorted: Vec<LibraryDependency> = Vec::new();
    let ghost all = deps.deep_view();
    assert(sorted.deep_view() =~= by_name(all.take(0)));
    for dep in it: deps
        invariant
            it.seq() == deps@,
            all == deps.deep_view(),
            sorted.deep_view() == by_name(all.take(it.index() as int)),
    {
        let ghost done = it.index() as int;
        let ghost ranked = sorted.deep_view();
        let name = chars_of(dep.name.as_str());
        let mut p: usize = sorted.len();
        loop
            invariant
                p <= sorted@.len(),
                ranked == sorted.deep_view(),
                name@ == dep.name@,
                forall|j: int| p <= j < sorted@.len() ==> precedes(dep.name@, ranked[j].name),
            ensures
                p > 0 ==> !precedes(dep.name@, ranked[p - 1].name),
            decreases p,
        {
            if p == 0 {
                break;
            }
            if !comes_before(&name, &chars_of(sorted[p - 1].name.as_str())) {
                break;
            }
            p -= 1;
        }
        proof {
            lemma_placed_by_name(ranked, dep@, p as int);
            assert(all.take(done + 1).drop_last() =~= all.take(done));
            assert(all.take(done + 1).last() == dep@);
        }
        let ghost before = sorted@;
        sorted.insert(p, dep);
        assert(sorted.deep_view() =~= ranked.insert(p as int, dep@)) by {
            assert forall|j: int| 0 <= j < sorted@.len() implies sorted.deep_view()[j]
                == ranked.insert(p as int, dep@)[j] by {
                if j < p {
                    assert(sorted@[j] == before[j]);
                } else if j > p {
                    assert(sorted@[j] == before[j - 1]);
                }
            }
        }
    }
    assert(all.take(deps@.len() as int) =~= all);
    sorted
}

/// Whether the list holds the library.
fn holds_library(list: &Vec<LibraryDependency>, dep: &LibraryDependency) -> (r: bool)
    ensures
        r == list.deep_view().contains(dep@),
{
    let mut i: usize = 0;
    while i < list.len()
        invariant
            i <= list@.len(),
            forall|j: int| 0 <= j < i ==> list.deep_view()[j] != dep@,
        decreases list@.len() - i,
    {
        let same_version = match (&list[i].version, &dep.version) {
            (Some(a), Some(b)) => str_eq(a.as_str(), b.as_str()),
            (None, None) => true,
            _ => false,
        };
        if same_version && str_eq(list[i].name.as_str(), dep.name.as_str()) && str_eq(
            list[i].source_file.as_str(),
            dep.source_file.as_str(),
        ) {
            assert(list.deep_view()[i as int] == dep@);
            return true;
        }
        i += 1;
    }
    false
}

/// The libraries with nothing repeated.
pub fn dedup_libraries(deps: Vec<LibraryDependency>) -> (out: Vec<LibraryDependency>)
    ensures
        out.deep_view() == distinct(deps.deep_view()),
{
    let mut out: Vec<LibraryDependency> = Vec::new();
    let ghost all = deps.deep_view();
    assert(out.deep_view() =~= distinct(all.take(0)));
    for dep in it: deps
        invariant
            it.seq() == deps@,
            all == deps.deep_view(),
            out.deep_view() == distinct(all.take(it.index() as int)),
    {
        let ghost done = it.index() as int;
        proof {
            assert(all.take(done + 1).drop_last() =~= all.take(done));
            assert(all.take(done + 1).last() == dep@);
        }
        if !holds_library(&out, &dep) {
            proof {
                lemma_deep_view_push(out@, out@.push(dep), dep);
            }
            out.push(dep);
        }
    }
    assert(all.take(deps@.len() as int) =~= all);
    out
}

/// The kinds of manifest the scanner reads.
#[derive(Debug, Clone, Copy, PartialEq, Eq, Structural)]
pub enum ManifestKind {
    PackageJson,
    Requirements,
    Cargo,
    GoMod,
}

/// The kind of manifest a file name stands for.
pub open spec fn manifest_kind_of(file_name: Seq<char>) -> Option<ManifestKind> {
    if file_name == "package.json"@ {
        Some(ManifestKind::PackageJson)
    } else if file_name == "requirements.txt"@ {
        Some(ManifestKind::Requirements)
    } else if file_name == "Cargo.toml"@ {
        Some(ManifestKind::Cargo)
    } else if file_name == "go.mod"@ {
        Some(ManifestKind::GoMod)
    } else {
        None
    }
}

/// The kind of manifest a file name stands for, if it is one.
pub fn manifest_kind(file_name: &str) -> (r: Option<ManifestKind>)
    ensures
        r == manifest_kind_of(file_name@),
{
    if str_eq(file_name, "package.json") {
        Some(ManifestKind::PackageJson)
    } else if str_eq(file_name, "requirements.txt") {
        Some(ManifestKind::Requirements)
    } else if str_eq(file_name, "Cargo.toml") {
        Some(ManifestKind::Cargo)
    } else if str_eq(file_name, "go.mod") {
        Some(ManifestKind::GoMod)
    } else {
        None
    }
}

/// Whether a directory entry is passed over when a repository is walked:
/// hidden entries, and the directories of dependencies, build output,
/// virtual environments and caches.
pub open spec fn passed_over(name: Seq<char>) -> bool {
    ||| (name.len() > 0 && name[0] == '.')
    ||| name == "node_modules"@
    ||| name == "target"@
    ||| name == "dist"@
    ||| name == "build"@
    ||| name == "venv"@
    ||| name == "__pycache__"@
}

/// Whether a directory entry is passed over when a repository is walked.
pub fn skips_entry(name: &str) -> (r: bool)
    ensures
        r == passed_over(name@),
{
    let text = chars_of(name);
    (text.len() > 0 && text[0] == '.') || str_eq(name, "node_modules") || str_eq(name, "target")
        || str_eq(name, "dist") || str_eq(name, "build") || str_eq(name, "venv") || str_eq(
        name,
        "__pycache__",
    )
}

/// What one manifest declares; `None` when it cannot be read.
pub open spec fn manifest_libraries(manifest: (Seq<char>, Seq<char>)) -> Option<Seq<LibraryModel>> {
    let kind = match file_name_of(manifest.0) {
        Some(name) => manifest_kind_of(name),
        None => None,
    };
    match kind {
        Some(ManifestKind::PackageJson) => if package_json_parses(manifest.1) {
            Some(package_json_libraries(manifest.1, manifest.0))
        } else {
            None
        },
        Some(ManifestKind::Requirements) => if pattern_accepted(REQUIREMENT_LINE@) {
            Some(requirements_of(lines_of(manifest.1), manifest.0))
        } else {
            None
        },
        Some(ManifestKind::Cargo) => if pattern_accepted(CARGO_SIMPLE@) && pattern_accepted(
            CARGO_TABLE@,
        ) {
            Some(cargo_scan(lines_of(manifest.1), manifest.0).found)
        } else {
            None
        },
        Some(ManifestKind::GoMod) => if pattern_accepted(GO_REQUIRE@) && pattern_accepted(GO_ENTRY@) {
            Some(go_scan(lines_of(manifest.1), manifest.0).found)
        } else {
            None
        },
        None => Some(Seq::empty()),
    }
}

/// What the manifests declare, manifest by manifest; `None` when one of
/// them cannot be read.
pub open spec fn declared_libraries(manifests: Seq<(Seq<char>, Seq<char>)>) -> Option<Seq<LibraryModel>>
    decreases manifests.len(),
{
    if manifests.len() == 0 {
        Some(Seq::empty())
    } else {
        match (declared_libraries(manifests.drop_last()), manifest_libraries(manifests.last())) {
            (Some(earlier), Some(own)) => Some(earlier + own),
            _ => None,
        }
    }
}

/// What one manifest declares.
fn libraries_of(manifest: &ManifestFile) -> (r: Result<Vec<LibraryDependency>, ManifestError>)
    ensures
        match r {
            Ok(deps) => manifest_libraries(manifest@) == Some(deps.deep_view()),
            Err(_) => manifest_libraries(manifest@) is None,
        },
{
    let segments = path_segments(&chars_of(manifest.source_file.as_str()));
    let n = segments.len();
    let mut kind: Option<ManifestKind> = None;
    if n > 0 {
        let last = &segments[n - 1];
        assert(segments.deep_view()[n - 1] =~= last@);
        let dots = last.len() == 2 && last[0] == '.' && last[1] == '.';
        proof {
            if dots {
                assert(last@ =~= seq!['.', '.']);
            }
            if last@ == seq!['.', '.'] {
                assert(last@.len() == 2 && last@[0] == '.' && last@[1] == '.');
            }
        }
        if !dots {
            let name = string_of(crate::text::slice(last, 0, last.len()));
            assert(last@.subrange(0, last@.len() as int) =~= last@);
            kind = manifest_kind(name.as_str());
        }
    }
    let content = manifest.content.as_str();
    let source_file = manifest.source_file.as_str();
    match kind {
        Some(ManifestKind::PackageJson) => parse_package_json(content, source_file),
        Some(ManifestKind::Requirements) => parse_requirements_txt(content, source_file),
        Some(ManifestKind::Cargo) => parse_cargo_toml(content, source_file),
        Some(ManifestKind::GoMod) => parse_go_mod(content, source_file),
        None => {
            let none: Vec<LibraryDependency> = Vec::new();
            assert(none.deep_view() =~= Seq::empty());
            Ok(none)
        },
    }
}

/// The catalog of libraries the manifests of a repository declare: every
/// declaration once, ordered by name. Fails when a manifest cannot be
/// read.
pub fn collect_library_dependencies(manifests: &[ManifestFile]) -> (r: Result<
    Vec<LibraryDependency>,
    ManifestError,
>)
    ensures
        match r {
            Ok(deps) => declared_libraries(manifests.deep_view()) is Some && deps.deep_view()
                == by_name(distinct(declared_libraries(manifests.deep_view())->0)),
            Err(_) => declared_libraries(manifests.deep_view()) is None,
        },
{
    let mut all_deps: Vec<LibraryDependency> = Vec::new();
    let ghost all = manifests.deep_view();
    let mut i: usize = 0;
    assert(all_deps.deep_view() =~= Seq::empty());
    while i < manifests.len()
        invariant
            i <= manifests@.len(),
            all == manifests.deep_view(),
            declared_libraries(all.take(i as int)) == Some(all_deps.deep_view()),
        decreases manifests@.len() - i,
    {
        proof {
            assert(all.take(i + 1).drop_last() =~= all.take(i as int));
            assert(all.take(i + 1).last() == manifests[i as int]@);
        }
        match libraries_of(&manifests[i]) {
            Ok(own) => {
                extend_libraries(&mut all_deps, own);
            },
            Err(e) => {
                proof {
                    lemma_declared_stays_none(all, i + 1);
                }
                return Err(e);
            },
        }
        i += 1;
    }
    assert(all.take(i as int) =~= all);
    Ok(sort_by_name(dedup_libraries(all_deps)))
}

proof fn lemma_declared_stays_none(manifests: Seq<(Seq<char>, Seq<char>)>, k: int)
    requires
        0 <= k <= manifests.len(),
        declared_libraries(manifests.take(k)) is None,
    ensures
        declared_libraries(manifests) is None,
    decreases manifests.len() - k,
{
    if k < manifests.len() {
        assert(manifests.take(k + 1).drop_last() =~= manifests.take(k));
        lemma_declared_stays_none(manifests, k + 1);
    } else {
        assert(manifests.take(k) =~= manifests);
    }
}


/// Whether libraries stand in order of name.
pub open spec fn ordered_by_name(deps: Seq<LibraryModel>) -> bool {
    forall|i: int, j: int| 0 <= i < j < deps.len() ==> !precedes(deps[j].name, deps[i].name)
}

proof fn lemma_placed_by_name_ordered(sorted: Seq<LibraryModel>, dep: LibraryModel)
    requires
        ordered_by_name(sorted),
    ensures
        ordered_by_name(placed_by_name(sorted, dep)),
        placed_by_name(sorted, dep).to_multiset() == sorted.to_multiset().insert(dep),
        placed_by_name(sorted, dep).len() == sorted.len() + 1,
        forall|k: int|
            0 <= k < placed_by_name(sorted, dep).len() ==> !precedes(
                dep.name,
                (#[trigger] placed_by_name(sorted, dep)[k]).name,
            ) || (exists|m: int| 0 <= m < sorted.len() && sorted[m] == placed_by_name(sorted, dep)[k]),
    decreases sorted.len(),
{
    broadcast use vstd::seq_lib::to_multiset_build;

    if sorted.len() > 0 && precedes(dep.name, sorted.last().name) {
        let rest = sorted.drop_last();
        let inner = placed_by_name(rest, dep);
        let last = sorted.last();
        assert(ordered_by_name(rest)) by {
            assert forall|i: int, j: int| 0 <= i < j < rest.len() implies !precedes(
                rest[j].name,
                rest[i].name,
            ) by {
                assert(rest[i] == sorted[i] && rest[j] == sorted[j]);
            }
        }
        lemma_placed_by_name_ordered(rest, dep);
        let out = inner.push(last);
        assert(sorted =~= rest.push(last));
        assert forall|i: int, j: int| 0 <= i < j < out.len() implies !precedes(
            out[j].name,
            out[i].name,
        ) by {
            if j < inner.len() {
                assert(out[i] == inner[i] && out[j] == inner[j]);
            } else {
                assert(out[i] == inner[i]);
                assert(out[j] == last);
                if precedes(last.name, inner[i].name) {
                    if !precedes(dep.name, inner[i].name) {
                        lemma_precedes_splits(last.name, dep.name, inner[i].name);
                        lemma_precedes_one_way(dep.name, last.name);
                    } else {
                        let m = choose|m: int| 0 <= m < rest.len() && rest[m] == inner[i];
                        assert(sorted[m] == rest[m]);
                        assert(!precedes(sorted[sorted.len() - 1].name, sorted[m].name));
                    }
                }
            }
        }
        assert forall|k: int| 0 <= k < out.len() implies !precedes(
            dep.name,
            (#[trigger] out[k]).name,
        ) || (exists|m: int| 0 <= m < sorted.len() && sorted[m] == out[k]) by {
            if k < inner.len() {
                assert(out[k] == inner[k]);
                if precedes(dep.name, inner[k].name) {
                    let m = choose|m: int| 0 <= m < rest.len() && rest[m] == inner[k];
                    assert(sorted[m] == out[k]);
                }
            } else {
                assert(sorted[sorted.len() - 1] == out[k]);
            }
        }
        assert(out.to_multiset() =~= sorted.to_multiset().insert(dep));
    } else {
        let out = sorted.push(dep);
        assert forall|i: int, j: int| 0 <= i < j < out.len() implies !precedes(
            out[j].name,
            out[i].name,
        ) by {
            if j < sorted.len() {
                assert(out[i] == sorted[i] && out[j] == sorted[j]);
            } else {
                assert(out[i] == sorted[i]);
                assert(out[j] == dep);
                let top = sorted[sorted.len() - 1];
                if precedes(dep.name, sorted[i].name) {
                    if i < sorted.len() - 1 {
                        assert(!precedes(top.name, sorted[i].name));
                        lemma_precedes_splits(dep.name, top.name, sorted[i].name);
                    }
                }
            }
        }
        assert forall|k: int| 0 <= k < out.len() implies !precedes(
            dep.name,
            (#[trigger] out[k]).name,
        ) || (exists|m: int| 0 <= m < sorted.len() && sorted[m] == out[k]) by {
            if k < sorted.len() {
                assert(sorted[k] == out[k]);
            } else {
                assert(out[k] == dep);
                if precedes(dep.name, dep.name) {
                    lemma_precedes_one_way(dep.name, dep.name);
                }
            }
        }
    }
}

/// The catalog is in order and complete: libraries ordered by name stand
/// in the order of their names, and are the very same libraries.
pub proof fn law_catalog_is_ordered(deps: Seq<LibraryModel>)
    ensures
        ordered_by_name(by_name(deps)),
        by_name(deps).to_multiset() == deps.to_multiset(),
        by_name(deps).len() == deps.len(),
    decreases deps.len(),
{
    broadcast use vstd::seq_lib::to_multiset_build;

    if deps.len() > 0 {
        let rest = deps.drop_last();
        law_catalog_is_ordered(rest);
        lemma_placed_by_name_ordered(by_name(rest), deps.last());
        assert(deps =~= rest.push(deps.last()));
    } else {
        assert(by_name(deps) =~= deps);
    }
}

/// The catalog repeats nothing: no declaration occurs twice in it.
pub proof fn law_catalog_repeats_nothing(deps: Seq<LibraryModel>)
    ensures
        distinct(deps).no_duplicates(),
        forall|d: LibraryModel| distinct(deps).contains(d) <==> deps.contains(d),
{
    crate::parsers::common::lemma_distinct_no_duplicates(deps);
}

} // verus!
