//! Module boundaries of a code base: workspaces (physical), top-level
//! directories (logical) and layers (architectural).

use vstd::prelude::*;
use crate::json::{array_section, json_array_section};
use crate::name_map::{set_text, text_at, NameMap};
use crate::parsers::{ParsedFile, ParsedFileModel};
use crate::text::{
    chars_of, join2, contains, decimal, decimal_of, distinct, ends_with, find_char, has_substring,
    has_suffix, holds, lowercase, push_distinct, replace_char, slice, str_eq, string_of,
    strip_prefixes, to_lowercase, with_replaced, without_prefixes,
};
use crate::views::{first_index, lemma_deep_view_push};

verus! {

/// Kind of a boundary.
#[derive(Debug, Clone, Copy, PartialEq, Eq, Hash, Structural)]
pub enum BoundaryType {
    /// A workspace member or a workspace as a whole.
    Physical,
    /// A top-level directory.
    Logical,
    /// A layer.
    Architectural,
}

impl BoundaryType {
    /// Label of the kind.
    pub open spec fn label(self) -> Seq<char> {
        match self {
            BoundaryType::Physical => "physical"@,
            BoundaryType::Logical => "logical"@,
            BoundaryType::Architectural => "architectural"@,
        }
    }

    /// Label of the kind.
    pub fn as_str(&self) -> (r: &'static str)
        ensures
            r@ == self.label(),
    {
        match self {
            BoundaryType::Physical => "physical",
            BoundaryType::Logical => "logical",
            BoundaryType::Architectural => "architectural",
        }
    }
}

/// Layer of an architecture.
#[derive(Debug, Clone, Copy, PartialEq, Eq, Hash, Structural)]
pub enum ArchitecturalLayer {
    /// Components, views, pages, controllers, routes.
    Presentation,
    /// Services and domain logic.
    BusinessLogic,
    /// Repositories, models, schemas, migrations.
    DataAccess,
    /// Configuration, utilities, middleware.
    Infrastructure,
    /// None of the above.
    Unknown,
}

impl ArchitecturalLayer {
    /// Slug of the layer.
    pub open spec fn label(self) -> Seq<char> {
        match self {
            ArchitecturalLayer::Presentation => "presentation"@,
            ArchitecturalLayer::BusinessLogic => "business_logic"@,
            ArchitecturalLayer::DataAccess => "data_access"@,
            ArchitecturalLayer::Infrastructure => "infrastructure"@,
            ArchitecturalLayer::Unknown => "unknown"@,
        }
    }

    /// Name of the layer's boundary.
    pub open spec fn title(self) -> Seq<char> {
        match self {
            ArchitecturalLayer::Presentation => "Presentation Layer"@,
            ArchitecturalLayer::BusinessLogic => "BusinessLogic Layer"@,
            ArchitecturalLayer::DataAccess => "DataAccess Layer"@,
            ArchitecturalLayer::Infrastructure => "Infrastructure Layer"@,
            ArchitecturalLayer::Unknown => "Unknown Layer"@,
        }
    }

    /// Slug of the layer.
    pub fn as_str(&self) -> (r: &'static str)
        ensures
            r@ == self.label(),
    {
        match self {
            ArchitecturalLayer::Presentation => "presentation",
            ArchitecturalLayer::BusinessLogic => "business_logic",
            ArchitecturalLayer::DataAccess => "data_access",
            ArchitecturalLayer::Infrastructure => "infrastructure",
            ArchitecturalLayer::Unknown => "unknown",
        }
    }

    /// Name of the layer's boundary.
    pub fn layer_name(&self) -> (r: &'static str)
        ensures
            r@ == self.title(),
    {
        match self {
            ArchitecturalLayer::Presentation => "Presentation Layer",
            ArchitecturalLayer::BusinessLogic => "BusinessLogic Layer",
            ArchitecturalLayer::DataAccess => "DataAccess Layer",
            ArchitecturalLayer::Infrastructure => "Infrastructure Layer",
            ArchitecturalLayer::Unknown => "Unknown Layer",
        }
    }
}

/// A boundary found in the code base.
#[derive(Debug)]
pub struct Boundary {
    pub id: String,
    pub name: String,
    pub boundary_type: BoundaryType,
    pub path: String,
    pub layer: Option<ArchitecturalLayer>,
    pub file_count: usize,
    pub files: Vec<String>,
}

/// Mathematical value of a [`Boundary`].
pub struct BoundaryModel {
    pub id: Seq<char>,
    pub name: Seq<char>,
    pub boundary_type: BoundaryType,
    pub path: Seq<char>,
    pub layer: Option<ArchitecturalLayer>,
    pub file_count: usize,
    pub files: Seq<Seq<char>>,
}

impl View for Boundary {
    type V = BoundaryModel;

    open spec fn view(&self) -> BoundaryModel {
        BoundaryModel {
            id: self.id@,
            name: self.name@,
            boundary_type: self.boundary_type,
            path: self.path@,
            layer: self.layer,
            file_count: self.file_count,
            files: self.files.deep_view(),
        }
    }
}

impl DeepView for Boundary {
    type V = BoundaryModel;

    open spec fn deep_view(&self) -> BoundaryModel {
        self@
    }
}

impl Clone for Boundary {
    fn clone(&self) -> (r: Self)
        ensures
            r@ == self@,
    {
        let r = Boundary {
            id: self.id.clone(),
            name: self.name.clone(),
            boundary_type: self.boundary_type,
            path: self.path.clone(),
            layer: self.layer,
            file_count: self.file_count,
            files: self.files.clone(),
        };
        assert(r.files.deep_view() =~= self.files.deep_view());
        r
    }
}

/// The boundaries of a code base and, for each file, the boundary it is
/// assigned to.
#[derive(Debug)]
pub struct BoundaryDetectionResult {
    pub boundaries: Vec<Boundary>,
    /// File path to boundary id: the last boundary that lists the file.
    pub file_to_boundary: NameMap<String>,
}

/// What the root of a repository says about workspaces: the text of its
/// node manifest and of its Rust manifest where they can be read, and
/// whether a Go workspace file exists.
#[derive(Debug)]
pub struct WorkspaceManifests {
    pub package_json: Option<String>,
    pub cargo_toml: Option<String>,
    pub go_work: bool,
}

/// Detector of module boundaries.
pub struct BoundaryDetector;

// ---------------------------------------------------------------------------
// Layers
// ---------------------------------------------------------------------------

/// Whether `text` holds one of `words`.
pub open spec fn mentions_any(text: Seq<char>, words: Seq<Seq<char>>) -> bool {
    exists|i: int| 0 <= i < words.len() && has_substring(text, #[trigger] words[i])
}

/// Words that mark the presentation layer.
pub open spec fn presentation_words() -> Seq<Seq<char>> {
    seq!["component"@, "view"@, "page"@, "ui"@, "controller"@, "route"@]
}

/// Words that mark the data-access layer.
pub open spec fn data_access_words() -> Seq<Seq<char>> {
    seq!["repository"@, "dao"@, "model"@, "schema"@, "database"@, "db"@, "migration"@]
}

/// Words that mark the infrastructure layer.
pub open spec fn infrastructure_words() -> Seq<Seq<char>> {
    seq!["config"@, "util"@, "helper"@, "middleware"@, "plugin"@, "infrastructure"@]
}

/// Words that mark the business-logic layer.
pub open spec fn business_words() -> Seq<Seq<char>> {
    seq!["service"@, "business"@, "domain"@, "logic"@, "usecase"@]
}

/// The layer of a file, by the words in its path in lower case. The rules
/// are tried in order and the first that fits decides.
pub open spec fn layer_of(path: Seq<char>) -> ArchitecturalLayer {
    let p = lowercase(path);
    if mentions_any(p, presentation_words()) || has_suffix(p, ".tsx"@) || has_suffix(p, ".jsx"@) {
        ArchitecturalLayer::Presentation
    } else if mentions_any(p, data_access_words()) {
        ArchitecturalLayer::DataAccess
    } else if mentions_any(p, infrastructure_words()) {
        ArchitecturalLayer::Infrastructure
    } else if mentions_any(p, business_words()) {
        ArchitecturalLayer::BusinessLogic
    } else {
        ArchitecturalLayer::Unknown
    }
}

/// Whether `text` holds one of `words`.
fn holds_any(text: &Vec<char>, words: &Vec<&'static str>) -> (r: bool)
    ensures
        r == mentions_any(text@, words.deep_view()),
{
    let mut i: usize = 0;
    while i < words.len()
        invariant
            i <= words@.len(),
            forall|j: int| 0 <= j < i ==> !has_substring(text@, #[trigger] words.deep_view()[j]),
        decreases words@.len() - i,
    {
        let word = chars_of(words[i]);
        if contains(text, &word) {
            assert(has_substring(text@, words.deep_view()[i as int]));
            return true;
        }
        i += 1;
    }
    false
}

// ---------------------------------------------------------------------------
// Directories
// ---------------------------------------------------------------------------

/// The first segment of a path, after any leading `./` or `.\`: what
/// precedes the first `/`, or, in a path without `/`, the first `\`. A path
/// with neither has no top-level directory.
pub open spec fn top_level_dir(path: Seq<char>) -> Option<Seq<char>> {
    let p = without_prefixes(without_prefixes(path, "./"@), ".\\"@);
    let slash = first_index(p, '/');
    let backslash = first_index(p, '\\');
    if slash < p.len() {
        Some(p.take(slash))
    } else if backslash < p.len() {
        Some(p.take(backslash))
    } else {
        None
    }
}

/// The paths of the files whose top-level directory is `dir`, in order.
pub open spec fn paths_in_dir(files: Seq<ParsedFileModel>, dir: Seq<char>) -> Seq<Seq<char>>
    decreases files.len(),
{
    if files.len() == 0 {
        Seq::empty()
    } else if top_level_dir(files.last().path) == Some(dir) {
        paths_in_dir(files.drop_last(), dir).push(files.last().path)
    } else {
        paths_in_dir(files.drop_last(), dir)
    }
}

/// The top-level directory of each file that has one, in order.
pub open spec fn dir_mentions(files: Seq<ParsedFileModel>) -> Seq<Seq<char>>
    decreases files.len(),
{
    if files.len() == 0 {
        Seq::empty()
    } else {
        match top_level_dir(files.last().path) {
            Some(dir) => dir_mentions(files.drop_last()).push(dir),
            None => dir_mentions(files.drop_last()),
        }
    }
}

/// Id of the logical boundary of a directory.
pub open spec fn logical_id(dir: Seq<char>) -> Seq<char> {
    "logical_"@ + with_replaced(with_replaced(dir, '/', '_'), '\\', '_')
}

/// The logical boundary of a directory with the given files.
pub open spec fn logical_boundary(dir: Seq<char>, files: Seq<Seq<char>>) -> BoundaryModel {
    BoundaryModel {
        id: logical_id(dir),
        name: dir,
        boundary_type: BoundaryType::Logical,
        path: dir,
        layer: None,
        file_count: files.len() as usize,
        files,
    }
}

/// The logical boundaries of the given directories: one for each that holds
/// two files or more.
pub open spec fn logical_boundaries_of(files: Seq<ParsedFileModel>, dirs: Seq<Seq<char>>) -> Seq<
    BoundaryModel,
>
    decreases dirs.len(),
{
    if dirs.len() == 0 {
        Seq::empty()
    } else {
        let members = paths_in_dir(files, dirs.last());
        if members.len() >= 2 {
            logical_boundaries_of(files, dirs.drop_last()).push(
                logical_boundary(dirs.last(), members),
            )
        } else {
            logical_boundaries_of(files, dirs.drop_last())
        }
    }
}

/// The logical boundaries of a code base: its top-level directories in
/// order of first appearance, each with two files or more.
pub open spec fn logical_boundaries(files: Seq<ParsedFileModel>) -> Seq<BoundaryModel> {
    logical_boundaries_of(files, distinct(dir_mentions(files)))
}

// ---------------------------------------------------------------------------
// Layer boundaries
// ---------------------------------------------------------------------------

/// The paths of the files of a layer, in order.
pub open spec fn paths_in_layer(files: Seq<ParsedFileModel>, layer: ArchitecturalLayer) -> Seq<
    Seq<char>,
>
    decreases files.len(),
{
    if files.len() == 0 {
        Seq::empty()
    } else if layer_of(files.last().path) == layer {
        paths_in_layer(files.drop_last(), layer).push(files.last().path)
    } else {
        paths_in_layer(files.drop_last(), layer)
    }
}

/// The boundary of a layer with the given files.
pub open spec fn layer_boundary(layer: ArchitecturalLayer, files: Seq<Seq<char>>) -> BoundaryModel {
    BoundaryModel {
        id: "architectural_"@ + layer.label(),
        name: layer.title(),
        boundary_type: BoundaryType::Architectural,
        path: layer.label(),
        layer: Some(layer),
        file_count: files.len() as usize,
        files,
    }
}

/// The boundary of one layer, if the layer holds two files or more.
pub open spec fn layer_boundaries(files: Seq<ParsedFileModel>, layer: ArchitecturalLayer) -> Seq<
    BoundaryModel,
> {
    let members = paths_in_layer(files, layer);
    if members.len() >= 2 {
        seq![layer_boundary(layer, members)]
    } else {
        Seq::empty()
    }
}

/// The architectural boundaries of a code base: presentation, data access,
/// infrastructure, business logic, each if it holds two files or more. The
/// unknown layer has no boundary.
pub open spec fn architectural_boundaries(files: Seq<ParsedFileModel>) -> Seq<BoundaryModel> {
    layer_boundaries(files, ArchitecturalLayer::Presentation) + layer_boundaries(
        files,
        ArchitecturalLayer::DataAccess,
    ) + layer_boundaries(files, ArchitecturalLayer::Infrastructure) + layer_boundaries(
        files,
        ArchitecturalLayer::BusinessLogic,
    )
}

// ---------------------------------------------------------------------------
// Workspaces
// ---------------------------------------------------------------------------

/// A physical boundary: it lists no files.
pub open spec fn physical_boundary(id: Seq<char>, name: Seq<char>, path: Seq<char>) -> BoundaryModel {
    BoundaryModel {
        id,
        name,
        boundary_type: BoundaryType::Physical,
        path,
        layer: None,
        file_count: 0,
        files: Seq::empty(),
    }
}

/// The boundaries of the entries of a workspace list: one for each entry
/// that is a string, numbered by the entry's position.
pub open spec fn workspace_boundaries(entries: Seq<Option<Seq<char>>>) -> Seq<BoundaryModel>
    decreases entries.len(),
{
    if entries.len() == 0 {
        Seq::empty()
    } else {
        match entries.last() {
            Some(path) => workspace_boundaries(entries.drop_last()).push(
                physical_boundary(
                    "physical_workspace_"@ + decimal((entries.len() - 1) as nat),
                    "Workspace: "@ + path,
                    path,
                ),
            ),
            None => workspace_boundaries(entries.drop_last()),
        }
    }
}

/// The boundaries a node manifest declares.
pub open spec fn node_workspaces(package_json: Option<Seq<char>>) -> Seq<BoundaryModel> {
    match package_json {
        Some(text) => match json_array_section(text, "workspaces"@) {
            Some(entries) => workspace_boundaries(entries),
            None => Seq::empty(),
        },
        None => Seq::empty(),
    }
}

/// The boundary a Rust manifest declares: one if it has a `[workspace]`
/// section marker.
pub open spec fn cargo_workspace(cargo_toml: Option<Seq<char>>) -> Seq<BoundaryModel> {
    match cargo_toml {
        Some(text) => if has_substring(text, "[workspace]"@) {
            seq![physical_boundary("physical_cargo_workspace"@, "Cargo Workspace"@, "."@)]
        } else {
            Seq::empty()
        },
        None => Seq::empty(),
    }
}

/// The boundary a Go workspace file stands for.
pub open spec fn go_workspace(go_work: bool) -> Seq<BoundaryModel> {
    if go_work {
        seq![physical_boundary("physical_go_workspace"@, "Go Workspace"@, "."@)]
    } else {
        Seq::empty()
    }
}

/// The physical boundaries of a repository.
pub open spec fn physical_boundaries(manifests: &WorkspaceManifests) -> Seq<BoundaryModel> {
    node_workspaces(manifests.package_json.deep_view()) + cargo_workspace(
        manifests.cargo_toml.deep_view(),
    ) + go_workspace(manifests.go_work)
}

/// All boundaries of a code base: physical, then logical, then
/// architectural.
pub open spec fn all_boundaries(files: Seq<ParsedFileModel>, manifests: &WorkspaceManifests) -> Seq<
    BoundaryModel,
> {
    physical_boundaries(manifests) + logical_boundaries(files) + architectural_boundaries(files)
}

/// The boundary a file is assigned to: the last that lists it.
pub open spec fn boundary_of(boundaries: Seq<BoundaryModel>, file: Seq<char>) -> Option<Seq<char>>
    decreases boundaries.len(),
{
    if boundaries.len() == 0 {
        None
    } else if boundaries.last().files.contains(file) {
        Some(boundaries.last().id)
    } else {
        boundary_of(boundaries.drop_last(), file)
    }
}


/// The paths of the files whose top-level directory is `dir`.
fn files_in_dir(parsed_files: &[ParsedFile], dir: &str) -> (members: Vec<String>)
    ensures
        members.deep_view() == paths_in_dir(parsed_files.deep_view(), dir@),
{
    let mut members: Vec<String> = Vec::new();
    let ghost all = parsed_files.deep_view();
    let mut i: usize = 0;
    assert(members.deep_view() =~= paths_in_dir(all.take(0), dir@));
    while i < parsed_files.len()
        invariant
            i <= parsed_files@.len(),
            all == parsed_files.deep_view(),
            members.deep_view() == paths_in_dir(all.take(i as int), dir@),
        decreases parsed_files@.len() - i,
    {
        proof {
            assert(all.take(i + 1).drop_last() =~= all.take(i as int));
            assert(all.take(i + 1).last() == parsed_files[i as int]@);
        }
        match BoundaryDetector::extract_top_level_dir(parsed_files[i].path.as_str()) {
            Some(found) => {
                if str_eq(found.as_str(), dir) {
                    let path = parsed_files[i].path.clone();
                    proof {
                        lemma_deep_view_push(members@, members@.push(path), path);
                    }
                    members.push(path);
                }
            },
            None => {},
        }
        i += 1;
    }
    assert(all.take(i as int) =~= all);
    members
}

/// The paths of the files of a layer.
fn files_in_layer(parsed_files: &[ParsedFile], layer: ArchitecturalLayer) -> (members: Vec<String>)
    ensures
        members.deep_view() == paths_in_layer(parsed_files.deep_view(), layer),
{
    let mut members: Vec<String> = Vec::new();
    let ghost all = parsed_files.deep_view();
    let mut i: usize = 0;
    assert(members.deep_view() =~= paths_in_layer(all.take(0), layer));
    while i < parsed_files.len()
        invariant
            i <= parsed_files@.len(),
            all == parsed_files.deep_view(),
            members.deep_view() == paths_in_layer(all.take(i as int), layer),
        decreases parsed_files@.len() - i,
    {
        proof {
            assert(all.take(i + 1).drop_last() =~= all.take(i as int));
            assert(all.take(i + 1).last() == parsed_files[i as int]@);
        }
        if BoundaryDetector::classify_architectural_layer(parsed_files[i].path.as_str()) == layer {
            let path = parsed_files[i].path.clone();
            proof {
                lemma_deep_view_push(members@, members@.push(path), path);
            }
            members.push(path);
        }
        i += 1;
    }
    assert(all.take(i as int) =~= all);
    members
}

/// Appends the boundary of a layer if the layer holds two files or more.
fn push_layer(out: &mut Vec<Boundary>, parsed_files: &[ParsedFile], layer: ArchitecturalLayer)
    ensures
        final(out).deep_view() == old(out).deep_view() + layer_boundaries(
            parsed_files.deep_view(),
            layer,
        ),
{
    let members = files_in_layer(parsed_files, layer);
    if members.len() >= 2 {
        let boundary = Boundary {
            id: join2("architectural_", layer.as_str()),
            name: layer.layer_name().to_string(),
            boundary_type: BoundaryType::Architectural,
            path: layer.as_str().to_string(),
            layer: Some(layer),
            file_count: members.len(),
            files: members,
        };
        proof {
            lemma_deep_view_push(out@, out@.push(boundary), boundary);
            assert(old(out).deep_view().push(boundary@) =~= old(out).deep_view() + seq![boundary@]);
        }
        out.push(boundary);
    } else {
        assert(old(out).deep_view() + Seq::<BoundaryModel>::empty() =~= old(out).deep_view());
    }
}

/// A physical boundary.
fn physical(id: String, name: String, path: String) -> (b: Boundary)
    ensures
        b@ == physical_boundary(id@, name@, path@),
{
    let b = Boundary {
        id,
        name,
        boundary_type: BoundaryType::Physical,
        path,
        layer: None,
        file_count: 0,
        files: Vec::new(),
    };
    assert(b.files.deep_view() =~= Seq::empty());
    b
}

/// Appends `more` to `list`.
fn append_boundaries(list: &mut Vec<Boundary>, more: Vec<Boundary>)
    ensures
        final(list).deep_view() == old(list).deep_view() + more.deep_view(),
{
    let mut more = more;
    proof {
        crate::views::lemma_deep_view_concat(list@, more@);
    }
    list.append(&mut more);
}

impl BoundaryDetector {
    /// The layer of the file at `path`.
    pub fn classify_architectural_layer(path: &str) -> (layer: ArchitecturalLayer)
        ensures
            layer == layer_of(path@),
    {
        let lowered = to_lowercase(path);
        let p = chars_of(lowered.as_str());
        let presentation = vec!["component", "view", "page", "ui", "controller", "route"];
        assert(presentation.deep_view() =~= presentation_words());
        if holds_any(&p, &presentation) || ends_with(&p, &chars_of(".tsx")) || ends_with(
            &p,
            &chars_of(".jsx"),
        ) {
            return ArchitecturalLayer::Presentation;
        }
        let data_access = vec!["repository", "dao", "model", "schema", "database", "db", "migration"];
        assert(data_access.deep_view() =~= data_access_words());
        if holds_any(&p, &data_access) {
            return ArchitecturalLayer::DataAccess;
        }
        let infrastructure = vec![
            "config",
            "util",
            "helper",
            "middleware",
            "plugin",
            "infrastructure",
        ];
        assert(infrastructure.deep_view() =~= infrastructure_words());
        if holds_any(&p, &infrastructure) {
            return ArchitecturalLayer::Infrastructure;
        }
        let business = vec!["service", "business", "domain", "logic", "usecase"];
        assert(business.deep_view() =~= business_words());
        if holds_any(&p, &business) {
            return ArchitecturalLayer::BusinessLogic;
        }
        ArchitecturalLayer::Unknown
    }

    /// The top-level directory of the file at `path`, if it has one.
    pub fn extract_top_level_dir(path: &str) -> (r: Option<String>)
        ensures
            r.deep_view() == top_level_dir(path@),
    {
        let text = chars_of(path);
        let p = strip_prefixes(&strip_prefixes(&text, &chars_of("./")), &chars_of(".\\"));
        assert(p@.skip(0) =~= p@);
        let slash = find_char(&p, '/', 0);
        if slash < p.len() {
            let dir = slice(&p, 0, slash);
            assert(p@.subrange(0, slash as int) =~= p@.take(slash as int));
            return Some(string_of(dir));
        }
        let backslash = find_char(&p, '\\', 0);
        if backslash < p.len() {
            let dir = slice(&p, 0, backslash);
            assert(p@.subrange(0, backslash as int) =~= p@.take(backslash as int));
            return Some(string_of(dir));
        }
        None
    }

    /// The logical boundaries of a code base.
    pub fn detect_logical_boundaries(parsed_files: &[ParsedFile]) -> (r: Vec<Boundary>)
        ensures
            r.deep_view() == logical_boundaries(parsed_files.deep_view()),
    {
        let ghost all = parsed_files.deep_view();
        let mut dirs: Vec<String> = Vec::new();
        let mut i: usize = 0;
        assert(dirs.deep_view() =~= distinct(dir_mentions(all.take(0))));
        while i < parsed_files.len()
            invariant
                i <= parsed_files@.len(),
                all == parsed_files.deep_view(),
                dirs.deep_view() == distinct(dir_mentions(all.take(i as int))),
            decreases parsed_files@.len() - i,
        {
            proof {
                assert(all.take(i + 1).drop_last() =~= all.take(i as int));
                assert(all.take(i + 1).last() == parsed_files[i as int]@);
            }
            match Self::extract_top_level_dir(parsed_files[i].path.as_str()) {
                Some(dir) => {
                    push_distinct(&mut dirs, dir, Ghost(dir_mentions(all.take(i as int))));
                },
                None => {},
            }
            i += 1;
        }
        assert(all.take(i as int) =~= all);

        let mut out: Vec<Boundary> = Vec::new();
        let ghost names = dirs.deep_view();
        let mut d: usize = 0;
        assert(out.deep_view() =~= logical_boundaries_of(all, names.take(0)));
        while d < dirs.len()
            invariant
                d <= dirs@.len(),
                all == parsed_files.deep_view(),
                names == dirs.deep_view(),
                out.deep_view() == logical_boundaries_of(all, names.take(d as int)),
            decreases dirs@.len() - d,
        {
            proof {
                assert(names.take(d + 1).drop_last() =~= names.take(d as int));
                assert(names.take(d + 1).last() == dirs[d as int]@);
            }
            let members = files_in_dir(parsed_files, dirs[d].as_str());
            if members.len() >= 2 {
                let dir = chars_of(dirs[d].as_str());
                let slug = string_of(replace_char(&replace_char(&dir, '/', '_'), '\\', '_'));
                let boundary = Boundary {
                    id: join2("logical_", slug.as_str()),
                    name: dirs[d].clone(),
                    boundary_type: BoundaryType::Logical,
                    path: dirs[d].clone(),
                    layer: None,
                    file_count: members.len(),
                    files: members,
                };
                proof {
                    lemma_deep_view_push(out@, out@.push(boundary), boundary);
                }
                out.push(boundary);
            }
            d += 1;
        }
        assert(names.take(d as int) =~= names);
        out
    }

    /// The architectural boundaries of a code base.
    pub fn detect_architectural_boundaries(parsed_files: &[ParsedFile]) -> (r: Vec<Boundary>)
        ensures
            r.deep_view() == architectural_boundaries(parsed_files.deep_view()),
    {
        let mut out: Vec<Boundary> = Vec::new();
        assert(out.deep_view() =~= Seq::empty());
        push_layer(&mut out, parsed_files, ArchitecturalLayer::Presentation);
        push_layer(&mut out, parsed_files, ArchitecturalLayer::DataAccess);
        push_layer(&mut out, parsed_files, ArchitecturalLayer::Infrastructure);
        push_layer(&mut out, parsed_files, ArchitecturalLayer::BusinessLogic);
        assert(out.deep_view() =~= architectural_boundaries(parsed_files.deep_view()));
        out
    }

    /// The physical boundaries of a repository, from what its root says
    /// about workspaces.
    pub fn detect_physical_boundaries(manifests: &WorkspaceManifests) -> (r: Vec<Boundary>)
        ensures
            r.deep_view() == physical_boundaries(manifests),
    {
        let mut out: Vec<Boundary> = Vec::new();
        assert(out.deep_view() =~= Seq::empty());
        match &manifests.package_json {
            Some(text) => match array_section(text.as_str(), "workspaces") {
                Some(entries) => {
                    let ghost all = entries.deep_view();
                    let mut i: usize = 0;
                    assert(out.deep_view() =~= workspace_boundaries(all.take(0)));
                    while i < entries.len()
                        invariant
                            i <= entries@.len(),
                            all == entries.deep_view(),
                            out.deep_view() == workspace_boundaries(all.take(i as int)),
                        decreases entries@.len() - i,
                    {
                        proof {
                            assert(all.take(i + 1).drop_last() =~= all.take(i as int));
                            assert(all.take(i + 1).last() == entries[i as int].deep_view());
                        }
                        match &entries[i] {
                            Some(path) => {
                                let number = string_of(decimal_of(i));
                                let boundary = physical(
                                    join2("physical_workspace_", number.as_str()),
                                    join2("Workspace: ", path.as_str()),
                                    path.clone(),
                                );
                                proof {
                                    lemma_deep_view_push(out@, out@.push(boundary), boundary);
                                }
                                out.push(boundary);
                            },
                            None => {},
                        }
                        i += 1;
                    }
                    assert(all.take(i as int) =~= all);
                },
                None => {},
            },
            None => {},
        }
        assert(out.deep_view() == node_workspaces(manifests.package_json.deep_view()));
        let ghost node = out.deep_view();
        match &manifests.cargo_toml {
            Some(text) => {
                if contains(&chars_of(text.as_str()), &chars_of("[workspace]")) {
                    let boundary = physical(
                        "physical_cargo_workspace".to_string(),
                        "Cargo Workspace".to_string(),
                        ".".to_string(),
                    );
                    proof {
                        lemma_deep_view_push(out@, out@.push(boundary), boundary);
                    }
                    out.push(boundary);
                }
            },
            None => {},
        }
        assert(out.deep_view() =~= node + cargo_workspace(manifests.cargo_toml.deep_view()));
        let ghost with_cargo = out.deep_view();
        if manifests.go_work {
            let boundary = physical(
                "physical_go_workspace".to_string(),
                "Go Workspace".to_string(),
                ".".to_string(),
            );
            proof {
                lemma_deep_view_push(out@, out@.push(boundary), boundary);
            }
            out.push(boundary);
        }
        assert(out.deep_view() =~= with_cargo + go_workspace(manifests.go_work));
        out
    }
}


/// Assigns the files of one boundary to it.
fn assign_files(map: &mut NameMap<String>, boundary: &Boundary, Ghost(earlier): Ghost<Seq<BoundaryModel>>)
    requires
        forall|file: Seq<char>| #[trigger] text_at(old(map), file) == boundary_of(earlier, file),
    ensures
        forall|file: Seq<char>| #[trigger]
            text_at(final(map), file) == boundary_of(earlier.push(boundary@), file),
{
    let ghost files = boundary.files.deep_view();
    let mut k: usize = 0;
    assert forall|file: Seq<char>| !(#[trigger] files.take(0).contains(file)) by {
        if files.take(0).contains(file) {
            let i = choose|i: int| 0 <= i < files.take(0).len() && files.take(0)[i] == file;
        }
    }
    while k < boundary.files.len()
        invariant
            k <= boundary.files@.len(),
            files == boundary.files.deep_view(),
            forall|file: Seq<char>| #[trigger]
                text_at(map, file) == if files.take(k as int).contains(file) {
                    Some(boundary.id@)
                } else {
                    boundary_of(earlier, file)
                },
        decreases boundary.files@.len() - k,
    {
        let ghost before = *map;
        let path = boundary.files[k].clone();
        set_text(map, path, boundary.id.clone());
        proof {
            assert(files.take(k + 1) =~= files.take(k as int).push(files[k as int]));
            assert forall|file: Seq<char>| #[trigger]
                text_at(map, file) == if files.take(k + 1).contains(file) {
                    Some(boundary.id@)
                } else {
                    boundary_of(earlier, file)
                } by {
                crate::graph_laws::lemma_push_contains(files.take(k as int), files[k as int], file);
                assert(text_at(&before, file) == if files.take(k as int).contains(file) {
                    Some(boundary.id@)
                } else {
                    boundary_of(earlier, file)
                });
            }
        }
        k += 1;
    }
    proof {
        assert(files.take(k as int) =~= files);
        assert(earlier.push(boundary@).drop_last() =~= earlier);
    }
}

impl BoundaryDetector {
    /// The boundaries of a code base: physical, then logical, then
    /// architectural, and for each listed file the last boundary that lists
    /// it.
    pub fn detect_boundaries(parsed_files: &[ParsedFile], manifests: &WorkspaceManifests) -> (r:
        BoundaryDetectionResult)
        ensures
            r.boundaries.deep_view() == all_boundaries(parsed_files.deep_view(), manifests),
            forall|file: Seq<char>| #[trigger]
                text_at(&r.file_to_boundary, file) == boundary_of(r.boundaries.deep_view(), file),
    {
        let mut boundaries = Self::detect_physical_boundaries(manifests);
        append_boundaries(&mut boundaries, Self::detect_logical_boundaries(parsed_files));
        append_boundaries(&mut boundaries, Self::detect_architectural_boundaries(parsed_files));

        let mut file_to_boundary: NameMap<String> = NameMap::new();
        let ghost all = boundaries.deep_view();
        let mut i: usize = 0;
        while i < boundaries.len()
            invariant
                i <= boundaries@.len(),
                all == boundaries.deep_view(),
                forall|file: Seq<char>| #[trigger]
                    text_at(&file_to_boundary, file) == boundary_of(all.take(i as int), file),
            decreases boundaries@.len() - i,
        {
            assert(all.take(i + 1) =~= all.take(i as int).push(boundaries[i as int]@));
            assign_files(&mut file_to_boundary, &boundaries[i], Ghost(all.take(i as int)));
            i += 1;
        }
        assert(all.take(i as int) =~= all);
        BoundaryDetectionResult { boundaries, file_to_boundary }
    }
}

proof fn lemma_paths_in_dir_are_paths(files: Seq<ParsedFileModel>, dir: Seq<char>, file: Seq<char>)
    requires
        paths_in_dir(files, dir).contains(file),
    ensures
        exists|i: int| 0 <= i < files.len() && #[trigger] files[i].path == file,
    decreases files.len(),
{
    if files.len() > 0 {
        let rest = files.drop_last();
        if top_level_dir(files.last().path) == Some(dir) {
            crate::graph_laws::lemma_push_contains(paths_in_dir(rest, dir), files.last().path, file);
        }
        if paths_in_dir(rest, dir).contains(file) {
            lemma_paths_in_dir_are_paths(rest, dir, file);
            let i = choose|i: int| 0 <= i < rest.len() && #[trigger] rest[i].path == file;
            assert(files[i].path == file);
        } else {
            assert(files[files.len() - 1].path == file);
        }
    } else {
        let i = choose|i: int|
            0 <= i < paths_in_dir(files, dir).len() && paths_in_dir(files, dir)[i] == file;
    }
}

proof fn lemma_paths_in_layer_are_paths(
    files: Seq<ParsedFileModel>,
    layer: ArchitecturalLayer,
    file: Seq<char>,
)
    requires
        paths_in_layer(files, layer).contains(file),
    ensures
        exists|i: int| 0 <= i < files.len() && #[trigger] files[i].path == file,
    decreases files.len(),
{
    if files.len() > 0 {
        let rest = files.drop_last();
        if layer_of(files.last().path) == layer {
            crate::graph_laws::lemma_push_contains(
                paths_in_layer(rest, layer),
                files.last().path,
                file,
            );
        }
        if paths_in_layer(rest, layer).contains(file) {
            lemma_paths_in_layer_are_paths(rest, layer, file);
            let i = choose|i: int| 0 <= i < rest.len() && #[trigger] rest[i].path == file;
            assert(files[i].path == file);
        } else {
            assert(files[files.len() - 1].path == file);
        }
    } else {
        let i = choose|i: int|
            0 <= i < paths_in_layer(files, layer).len() && paths_in_layer(files, layer)[i] == file;
    }
}

proof fn lemma_workspaces_list_nothing(entries: Seq<Option<Seq<char>>>, b: BoundaryModel)
    requires
        workspace_boundaries(entries).contains(b),
    ensures
        b.files.len() == 0,
        b.layer is None,
    decreases entries.len(),
{
    if entries.len() > 0 {
        let rest = workspace_boundaries(entries.drop_last());
        match entries.last() {
            Some(path) => {
                crate::graph_laws::lemma_push_contains(
                    rest,
                    physical_boundary(
                        "physical_workspace_"@ + decimal((entries.len() - 1) as nat),
                        "Workspace: "@ + path,
                        path,
                    ),
                    b,
                );
                if rest.contains(b) {
                    lemma_workspaces_list_nothing(entries.drop_last(), b);
                }
            },
            None => {
                lemma_workspaces_list_nothing(entries.drop_last(), b);
            },
        }
    } else {
        let i = choose|i: int|
            0 <= i < workspace_boundaries(entries).len() && workspace_boundaries(entries)[i] == b;
    }
}

proof fn lemma_logical_lists_paths(
    files: Seq<ParsedFileModel>,
    dirs: Seq<Seq<char>>,
    b: BoundaryModel,
    file: Seq<char>,
)
    requires
        logical_boundaries_of(files, dirs).contains(b),
        b.files.contains(file),
    ensures
        b.layer is None,
        exists|i: int| 0 <= i < files.len() && #[trigger] files[i].path == file,
    decreases dirs.len(),
{
    if dirs.len() > 0 {
        let rest = logical_boundaries_of(files, dirs.drop_last());
        let members = paths_in_dir(files, dirs.last());
        if members.len() >= 2 {
            crate::graph_laws::lemma_push_contains(rest, logical_boundary(dirs.last(), members), b);
        }
        if rest.contains(b) {
            lemma_logical_lists_paths(files, dirs.drop_last(), b, file);
        } else {
            lemma_paths_in_dir_are_paths(files, dirs.last(), file);
        }
    } else {
        let i = choose|i: int|
            0 <= i < logical_boundaries_of(files, dirs).len() && logical_boundaries_of(
                files,
                dirs,
            )[i] == b;
    }
}

proof fn lemma_layer_lists_paths(
    files: Seq<ParsedFileModel>,
    layer: ArchitecturalLayer,
    b: BoundaryModel,
    file: Seq<char>,
)
    requires
        layer != ArchitecturalLayer::Unknown,
        layer_boundaries(files, layer).contains(b),
        b.files.contains(file),
    ensures
        b.layer != Some(ArchitecturalLayer::Unknown),
        exists|i: int| 0 <= i < files.len() && #[trigger] files[i].path == file,
{
    let list = layer_boundaries(files, layer);
    let i = choose|i: int| 0 <= i < list.len() && list[i] == b;
    assert(b == layer_boundary(layer, paths_in_layer(files, layer)));
    lemma_paths_in_layer_are_paths(files, layer, file);
}

/// Boundaries list only parsed files, and none is of the unknown layer:
/// every file that a boundary of the code base lists is the path of one of
/// the parsed files, and no boundary carries the layer `Unknown`.
pub proof fn law_boundaries_list_parsed_files(
    files: Seq<ParsedFileModel>,
    manifests: &WorkspaceManifests,
    b: BoundaryModel,
    file: Seq<char>,
)
    requires
        all_boundaries(files, manifests).contains(b),
    ensures
        b.layer != Some(ArchitecturalLayer::Unknown),
        b.files.contains(file) ==> exists|i: int|
            0 <= i < files.len() && #[trigger] files[i].path == file,
{
    let physical = physical_boundaries(manifests);
    let logical = logical_boundaries(files);
    let layers = architectural_boundaries(files);
    crate::graph_laws::lemma_concat_contains(physical, logical, b);
    crate::graph_laws::lemma_concat_contains(physical + logical, layers, b);
    if physical.contains(b) {
        let node = node_workspaces(manifests.package_json.deep_view());
        let cargo = cargo_workspace(manifests.cargo_toml.deep_view());
        let go = go_workspace(manifests.go_work);
        crate::graph_laws::lemma_concat_contains(node, cargo, b);
        crate::graph_laws::lemma_concat_contains(node + cargo, go, b);
        if node.contains(b) {
            match manifests.package_json.deep_view() {
                Some(text) => match json_array_section(text, "workspaces"@) {
                    Some(entries) => {
                        lemma_workspaces_list_nothing(entries, b);
                    },
                    None => {
                        let i = choose|i: int| 0 <= i < node.len() && node[i] == b;
                    },
                },
                None => {
                    let i = choose|i: int| 0 <= i < node.len() && node[i] == b;
                },
            }
        } else if cargo.contains(b) {
            let i = choose|i: int| 0 <= i < cargo.len() && cargo[i] == b;
        } else {
            let i = choose|i: int| 0 <= i < go.len() && go[i] == b;
        }
        if b.files.contains(file) {
            let k = choose|k: int| 0 <= k < b.files.len() && b.files[k] == file;
        }
    } else if logical.contains(b) {
        if b.files.contains(file) {
            lemma_logical_lists_paths(files, distinct(dir_mentions(files)), b, file);
        } else {
            lemma_logical_layer(files, distinct(dir_mentions(files)), b);
        }
    } else {
        let a = layer_boundaries(files, ArchitecturalLayer::Presentation);
        let d = layer_boundaries(files, ArchitecturalLayer::DataAccess);
        let n = layer_boundaries(files, ArchitecturalLayer::Infrastructure);
        let l = layer_boundaries(files, ArchitecturalLayer::BusinessLogic);
        crate::graph_laws::lemma_concat_contains(a, d, b);
        crate::graph_laws::lemma_concat_contains(a + d, n, b);
        crate::graph_laws::lemma_concat_contains(a + d + n, l, b);
        let layer = if a.contains(b) {
            ArchitecturalLayer::Presentation
        } else if d.contains(b) {
            ArchitecturalLayer::DataAccess
        } else if n.contains(b) {
            ArchitecturalLayer::Infrastructure
        } else {
            ArchitecturalLayer::BusinessLogic
        };
        let list = layer_boundaries(files, layer);
        let i = choose|i: int| 0 <= i < list.len() && list[i] == b;
        if b.files.contains(file) {
            lemma_layer_lists_paths(files, layer, b, file);
        }
    }
}

proof fn lemma_logical_layer(files: Seq<ParsedFileModel>, dirs: Seq<Seq<char>>, b: BoundaryModel)
    requires
        logical_boundaries_of(files, dirs).contains(b),
    ensures
        b.layer is None,
    decreases dirs.len(),
{
    if dirs.len() > 0 {
        let rest = logical_boundaries_of(files, dirs.drop_last());
        let members = paths_in_dir(files, dirs.last());
        if members.len() >= 2 {
            crate::graph_laws::lemma_push_contains(rest, logical_boundary(dirs.last(), members), b);
        }
        if rest.contains(b) {
            lemma_logical_layer(files, dirs.drop_last(), b);
        }
    } else {
        let i = choose|i: int|
            0 <= i < logical_boundaries_of(files, dirs).len() && logical_boundaries_of(
                files,
                dirs,
            )[i] == b;
    }
}

} // verus!
