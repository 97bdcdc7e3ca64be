//! Index of declared names, built in one pass over the parsed files.

use vstd::prelude::*;
use crate::name_map::NameMap;
use crate::parsers::{ClassInfo, ClassModel, FunctionInfo, FunctionModel, ParsedFile, ParsedFileModel};
use crate::text::str_eq;
use crate::views::{
    first_index, lemma_deep_view_concat, lemma_deep_view_push, lemma_first_index_bounds,
    lemma_first_index_push, lemma_first_index_unique,
};

verus! {

/// Where a name is declared.
#[derive(Debug)]
pub struct SymbolEntry {
    pub file_path: String,
    pub name: String,
    pub start_line: usize,
    pub end_line: usize,
}

/// Mathematical value of a [`SymbolEntry`].
pub struct SymbolEntryModel {
    pub file_path: Seq<char>,
    pub name: Seq<char>,
    pub start_line: usize,
    pub end_line: usize,
}

impl View for SymbolEntry {
    type V = SymbolEntryModel;

    open spec fn view(&self) -> SymbolEntryModel {
        SymbolEntryModel {
            file_path: self.file_path@,
            name: self.name@,
            start_line: self.start_line,
            end_line: self.end_line,
        }
    }
}

impl DeepView for SymbolEntry {
    type V = SymbolEntryModel;

    open spec fn deep_view(&self) -> SymbolEntryModel {
        self@
    }
}

impl Clone for SymbolEntry {
    fn clone(&self) -> (r: Self)
        ensures
            r@ == self@,
    {
        SymbolEntry {
            file_path: self.file_path.clone(),
            name: self.name.clone(),
            start_line: self.start_line,
            end_line: self.end_line,
        }
    }
}

/// Names declared and imported by one file.
#[derive(Debug)]
pub struct FileSymbols {
    pub functions: Vec<String>,
    pub classes: Vec<String>,
    pub imports: Vec<String>,
}

/// Mathematical value of a [`FileSymbols`].
pub struct FileSymbolsModel {
    pub functions: Seq<Seq<char>>,
    pub classes: Seq<Seq<char>>,
    pub imports: Seq<Seq<char>>,
}

impl View for FileSymbols {
    type V = FileSymbolsModel;

    open spec fn view(&self) -> FileSymbolsModel {
        FileSymbolsModel {
            functions: self.functions.deep_view(),
            classes: self.classes.deep_view(),
            imports: self.imports.deep_view(),
        }
    }
}

impl DeepView for FileSymbols {
    type V = FileSymbolsModel;

    open spec fn deep_view(&self) -> FileSymbolsModel {
        self@
    }
}

/// A declaration as the index sees it: the key it is filed under and where
/// it is.
pub struct SymbolDecl {
    pub key: Seq<char>,
    pub entry: SymbolEntryModel,
}

/// Key under which a method is filed besides its bare name.
pub open spec fn qualified_method_name(class_name: Seq<char>, method_name: Seq<char>) -> Seq<char> {
    class_name + "."@ + method_name
}

/// Declaration site of a function of the file at `path`.
pub open spec fn function_site(path: Seq<char>, f: FunctionModel) -> SymbolEntryModel {
    SymbolEntryModel { file_path: path, name: f.name, start_line: f.start_line, end_line: f.end_line }
}

/// Declaration site of a class of the file at `path`.
pub open spec fn class_site(path: Seq<char>, c: ClassModel) -> SymbolEntryModel {
    SymbolEntryModel { file_path: path, name: c.name, start_line: c.start_line, end_line: c.end_line }
}

/// Function-index declarations of top-level functions, in order.
pub open spec fn function_decls(path: Seq<char>, functions: Seq<FunctionModel>) -> Seq<SymbolDecl>
    decreases functions.len(),
{
    if functions.len() == 0 {
        Seq::empty()
    } else {
        function_decls(path, functions.drop_last()).push(
            SymbolDecl { key: functions.last().name, entry: function_site(path, functions.last()) },
        )
    }
}

/// Function-index declarations of the methods of one class: each method is
/// filed under `Class.method` and then under its bare name.
pub open spec fn method_decls(path: Seq<char>, class_name: Seq<char>, methods: Seq<FunctionModel>) -> Seq<
    SymbolDecl,
>
    decreases methods.len(),
{
    if methods.len() == 0 {
        Seq::empty()
    } else {
        let m = methods.last();
        method_decls(path, class_name, methods.drop_last()).push(
            SymbolDecl { key: qualified_method_name(class_name, m.name), entry: function_site(path, m) },
        ).push(SymbolDecl { key: m.name, entry: function_site(path, m) })
    }
}

/// Function-index declarations of the methods of all classes of a file.
pub open spec fn class_method_decls(path: Seq<char>, classes: Seq<ClassModel>) -> Seq<SymbolDecl>
    decreases classes.len(),
{
    if classes.len() == 0 {
        Seq::empty()
    } else {
        class_method_decls(path, classes.drop_last()) + method_decls(
            path,
            classes.last().name,
            classes.last().methods,
        )
    }
}

/// Class-index declarations of a file.
pub open spec fn class_decls(path: Seq<char>, classes: Seq<ClassModel>) -> Seq<SymbolDecl>
    decreases classes.len(),
{
    if classes.len() == 0 {
        Seq::empty()
    } else {
        class_decls(path, classes.drop_last()).push(
            SymbolDecl { key: classes.last().name, entry: class_site(path, classes.last()) },
        )
    }
}

/// Everything the files file into the function index, in indexing order:
/// per file the top-level functions, then the methods class by class.
pub open spec fn all_function_decls(files: Seq<ParsedFileModel>) -> Seq<SymbolDecl>
    decreases files.len(),
{
    if files.len() == 0 {
        Seq::empty()
    } else {
        let f = files.last();
        all_function_decls(files.drop_last()) + function_decls(f.path, f.functions)
            + class_method_decls(f.path, f.classes)
    }
}

/// Everything the files file into the class index, in indexing order.
pub open spec fn all_class_decls(files: Seq<ParsedFileModel>) -> Seq<SymbolDecl>
    decreases files.len(),
{
    if files.len() == 0 {
        Seq::empty()
    } else {
        all_class_decls(files.drop_last()) + class_decls(files.last().path, files.last().classes)
    }
}

/// The declaration sites filed under `name`, in indexing order.
pub open spec fn entries_named(decls: Seq<SymbolDecl>, name: Seq<char>) -> Seq<SymbolEntryModel>
    decreases decls.len(),
{
    if decls.len() == 0 {
        Seq::empty()
    } else if decls.last().key == name {
        entries_named(decls.drop_last(), name).push(decls.last().entry)
    } else {
        entries_named(decls.drop_last(), name)
    }
}

/// The resolution rule: the first site in `current_file` if there is one,
/// else the first site, else nothing.
pub open spec fn resolve(entries: Seq<SymbolEntryModel>, current_file: Seq<char>) -> Option<
    SymbolEntryModel,
> {
    let paths = Seq::new(entries.len(), |i: int| entries[i].file_path);
    let i = first_index(paths, current_file);
    if i < entries.len() {
        Some(entries[i])
    } else if entries.len() > 0 {
        Some(entries[0])
    } else {
        None
    }
}

/// The sites a name index holds under `name`; none when the name is no key.
pub open spec fn sites(index: &NameMap<Vec<SymbolEntry>>, name: Seq<char>) -> Seq<SymbolEntryModel> {
    if index.has(name) {
        index.entries@[index.slot(name)].value.deep_view()
    } else {
        Seq::empty()
    }
}

/// A name index files exactly `decls`: under each name it holds the sites
/// declared under that name, in order, and its keys are the names declared.
pub open spec fn files_exactly(index: &NameMap<Vec<SymbolEntry>>, decls: Seq<SymbolDecl>) -> bool {
    &&& forall|name: Seq<char>| #[trigger] sites(index, name) == entries_named(decls, name)
    &&& forall|name: Seq<char>| #[trigger] index.has(name) <==> entries_named(decls, name).len() > 0
}

/// Files one more declaration.
fn file_decl(index: &mut NameMap<Vec<SymbolEntry>>, key: String, entry: SymbolEntry, Ghost(decls): Ghost<Seq<SymbolDecl>>)
    requires
        files_exactly(old(index), decls),
    ensures
        files_exactly(final(index), decls.push(SymbolDecl { key: key@, entry: entry@ })),
{
    let ghost before = *index;
    let ghost added = SymbolDecl { key: key@, entry: entry@ };
    index.push_to(key, entry);
    proof {
        let grown = decls.push(added);
        assert(grown.drop_last() =~= decls);
        assert forall|name: Seq<char>|
            sites(index, name) == entries_named(grown, name) && (#[trigger] index.has(name)
                <==> entries_named(grown, name).len() > 0) by {
            lemma_first_index_bounds(before.names(), name);
            if name == added.key {
                assert(sites(&before, name) == entries_named(decls, name));
                if before.has(name) {
                    assert(sites(index, name) =~= sites(&before, name).push(added.entry));
                } else {
                    assert(sites(index, name) =~= seq![added.entry]);
                    assert(entries_named(decls, name).push(added.entry) =~= seq![added.entry]);
                }
            } else {
                lemma_first_index_bounds(before.names(), added.key);
                if !before.has(added.key) {
                    lemma_first_index_push(before.names(), added.key, name);
                }
                assert(sites(&before, name) == entries_named(decls, name));
                if before.has(name) {
                    assert(index.slot(name) == before.slot(name));
                    assert(index.entries@[index.slot(name)] == before.entries@[before.slot(name)]);
                }
            }
        }
        assert forall|name: Seq<char>| #[trigger]
            sites(index, name) == entries_named(grown, name) by {
            assert(index.has(name) <==> entries_named(grown, name).len() > 0);
        }
    }
}

/// Index of every declared name of a code base.
#[derive(Debug)]
pub struct SymbolTable {
    /// Function name to the sites that declare it. Methods are filed both
    /// under `Class.method` and under the bare method name.
    pub functions: NameMap<Vec<SymbolEntry>>,
    /// Class name to the sites that declare it.
    pub classes: NameMap<Vec<SymbolEntry>>,
    /// File path to the names the file exports: its functions, then its
    /// classes.
    pub file_exports: NameMap<Vec<String>>,
    /// File path to the names the file declares and imports.
    pub files: NameMap<FileSymbols>,
}


/// Names of the functions, in order.
pub open spec fn function_names(functions: Seq<FunctionModel>) -> Seq<Seq<char>> {
    Seq::new(functions.len(), |i: int| functions[i].name)
}

/// Names of the classes, in order.
pub open spec fn class_names(classes: Seq<ClassModel>) -> Seq<Seq<char>> {
    Seq::new(classes.len(), |i: int| classes[i].name)
}

/// What a file declares and imports.
pub open spec fn symbols_of(file: ParsedFileModel) -> FileSymbolsModel {
    FileSymbolsModel {
        functions: function_names(file.functions),
        classes: class_names(file.classes),
        imports: file.imports,
    }
}

/// What a file exports: its top-level functions, then its classes.
pub open spec fn exports_of(file: ParsedFileModel) -> Seq<Seq<char>> {
    function_names(file.functions) + class_names(file.classes)
}

/// The last file of the sequence that has the given path.
pub open spec fn last_with_path(files: Seq<ParsedFileModel>, path: Seq<char>) -> Option<
    ParsedFileModel,
>
    decreases files.len(),
{
    if files.len() == 0 {
        None
    } else if files.last().path == path {
        Some(files.last())
    } else {
        last_with_path(files.drop_last(), path)
    }
}

/// Export list stored under `path`, if any.
pub open spec fn exports_under(map: &NameMap<Vec<String>>, path: Seq<char>) -> Option<Seq<Seq<char>>> {
    if map.has(path) {
        Some(map.entries@[map.slot(path)].value.deep_view())
    } else {
        None
    }
}

/// File symbols stored under `path`, if any.
pub open spec fn symbols_under(map: &NameMap<FileSymbols>, path: Seq<char>) -> Option<FileSymbolsModel> {
    if map.has(path) {
        Some(map.entries@[map.slot(path)].value@)
    } else {
        None
    }
}

/// The per-file maps of a table describe `files`: under each path stands
/// what the last file with that path declares, and nothing under any other
/// path.
pub open spec fn describes_files(
    exports: &NameMap<Vec<String>>,
    symbols: &NameMap<FileSymbols>,
    files: Seq<ParsedFileModel>,
) -> bool {
    &&& forall|path: Seq<char>| #[trigger]
        exports_under(exports, path) == match last_with_path(files, path) {
            Some(f) => Some(exports_of(f)),
            None => None,
        }
    &&& forall|path: Seq<char>| #[trigger]
        symbols_under(symbols, path) == match last_with_path(files, path) {
            Some(f) => Some(symbols_of(f)),
            None => None,
        }
}

fn index_functions(
    index: &mut NameMap<Vec<SymbolEntry>>,
    path: &String,
    functions: &Vec<FunctionInfo>,
    Ghost(decls): Ghost<Seq<SymbolDecl>>,
) -> (names: Vec<String>)
    requires
        files_exactly(old(index), decls),
    ensures
        files_exactly(final(index), decls + function_decls(path@, functions.deep_view())),
        names.deep_view() == function_names(functions.deep_view()),
{
    let mut names: Vec<String> = Vec::new();
    let ghost all = functions.deep_view();
    assert(decls + function_decls(path@, all.take(0)) =~= decls);
    let mut j: usize = 0;
    while j < functions.len()
        invariant
            j <= functions@.len(),
            all == functions.deep_view(),
            files_exactly(index, decls + function_decls(path@, all.take(j as int))),
            names.deep_view() == function_names(all.take(j as int)),
        decreases functions@.len() - j,
    {
        let func = &functions[j];
        let entry = SymbolEntry {
            file_path: path.clone(),
            name: func.name.clone(),
            start_line: func.start_line,
            end_line: func.end_line,
        };
        proof {
            assert(all.take(j + 1).drop_last() =~= all.take(j as int));
            assert(all.take(j + 1).last() == func@);
            assert(entry@ == function_site(path@, func@));
            assert((decls + function_decls(path@, all.take(j as int))).push(
                SymbolDecl { key: func.name@, entry: entry@ },
            ) =~= decls + function_decls(path@, all.take(j + 1)));
        }
        file_decl(
            index,
            func.name.clone(),
            entry,
            Ghost(decls + function_decls(path@, all.take(j as int))),
        );
        let name = func.name.clone();
        proof {
            lemma_deep_view_push(names@, names@.push(name), name);
        }
        names.push(name);
        assert(names.deep_view() =~= function_names(all.take(j + 1)));
        j += 1;
    }
    assert(all.take(j as int) =~= all);
    names
}

fn index_methods(
    index: &mut NameMap<Vec<SymbolEntry>>,
    path: &String,
    class_name: &String,
    methods: &Vec<FunctionInfo>,
    Ghost(decls): Ghost<Seq<SymbolDecl>>,
)
    requires
        files_exactly(old(index), decls),
    ensures
        files_exactly(final(index), decls + method_decls(path@, class_name@, methods.deep_view())),
{
    let ghost all = methods.deep_view();
    assert(decls + method_decls(path@, class_name@, all.take(0)) =~= decls);
    let mut j: usize = 0;
    while j < methods.len()
        invariant
            j <= methods@.len(),
            all == methods.deep_view(),
            files_exactly(index, decls + method_decls(path@, class_name@, all.take(j as int))),
        decreases methods@.len() - j,
    {
        let method = &methods[j];
        let mut qualified = class_name.clone();
        qualified.append(".");
        qualified.append(method.name.as_str());
        let entry = SymbolEntry {
            file_path: path.clone(),
            name: method.name.clone(),
            start_line: method.start_line,
            end_line: method.end_line,
        };
        let ghost so_far = decls + method_decls(path@, class_name@, all.take(j as int));
        let ghost first = SymbolDecl { key: qualified@, entry: entry@ };
        let ghost second = SymbolDecl { key: method.name@, entry: entry@ };
        proof {
            assert(all.take(j + 1).drop_last() =~= all.take(j as int));
            assert(all.take(j + 1).last() == method@);
            assert(entry@ == function_site(path@, method@));
            assert(qualified@ == qualified_method_name(class_name@, method.name@));
            assert(so_far.push(first).push(second) =~= decls + method_decls(
                path@,
                class_name@,
                all.take(j + 1),
            ));
        }
        file_decl(index, qualified, entry.clone(), Ghost(so_far));
        file_decl(index, method.name.clone(), entry, Ghost(so_far.push(first)));
        j += 1;
    }
    assert(all.take(j as int) =~= all);
}

fn index_classes(
    functions: &mut NameMap<Vec<SymbolEntry>>,
    classes: &mut NameMap<Vec<SymbolEntry>>,
    path: &String,
    declared: &Vec<ClassInfo>,
    Ghost(fdecls): Ghost<Seq<SymbolDecl>>,
    Ghost(cdecls): Ghost<Seq<SymbolDecl>>,
) -> (names: Vec<String>)
    requires
        files_exactly(old(functions), fdecls),
        files_exactly(old(classes), cdecls),
    ensures
        files_exactly(final(functions), fdecls + class_method_decls(path@, declared.deep_view())),
        files_exactly(final(classes), cdecls + class_decls(path@, declared.deep_view())),
        names.deep_view() == class_names(declared.deep_view()),
{
    let mut names: Vec<String> = Vec::new();
    let ghost all = declared.deep_view();
    assert(fdecls + class_method_decls(path@, all.take(0)) =~= fdecls);
    assert(cdecls + class_decls(path@, all.take(0)) =~= cdecls);
    let mut j: usize = 0;
    while j < declared.len()
        invariant
            j <= declared@.len(),
            all == declared.deep_view(),
            files_exactly(functions, fdecls + class_method_decls(path@, all.take(j as int))),
            files_exactly(classes, cdecls + class_decls(path@, all.take(j as int))),
            names.deep_view() == class_names(all.take(j as int)),
        decreases declared@.len() - j,
    {
        let class = &declared[j];
        let entry = SymbolEntry {
            file_path: path.clone(),
            name: class.name.clone(),
            start_line: class.start_line,
            end_line: class.end_line,
        };
        let ghost fnow = fdecls + class_method_decls(path@, all.take(j as int));
        let ghost cnow = cdecls + class_decls(path@, all.take(j as int));
        proof {
            assert(all.take(j + 1).drop_last() =~= all.take(j as int));
            assert(all.take(j + 1).last() == class@);
            assert(entry@ == class_site(path@, class@));
            assert(cnow.push(SymbolDecl { key: class.name@, entry: entry@ }) =~= cdecls + class_decls(
                path@,
                all.take(j + 1),
            ));
            assert(fnow + method_decls(path@, class.name@, class.methods.deep_view()) =~= fdecls
                + class_method_decls(path@, all.take(j + 1)));
        }
        file_decl(classes, class.name.clone(), entry, Ghost(cnow));
        index_methods(functions, path, &class.name, &class.methods, Ghost(fnow));
        let name = class.name.clone();
        proof {
            lemma_deep_view_push(names@, names@.push(name), name);
        }
        names.push(name);
        assert(names.deep_view() =~= class_names(all.take(j + 1)));
        j += 1;
    }
    assert(all.take(j as int) =~= all);
    names
}


/// Records what one more file declares, overwriting an earlier file of the
/// same path.
fn record_file(
    exports: &mut NameMap<Vec<String>>,
    symbols: &mut NameMap<FileSymbols>,
    path: &String,
    listed: FileSymbols,
    exported: Vec<String>,
    Ghost(files): Ghost<Seq<ParsedFileModel>>,
    Ghost(file): Ghost<ParsedFileModel>,
)
    requires
        describes_files(old(exports), old(symbols), files),
        path@ == file.path,
        listed@ == symbols_of(file),
        exported.deep_view() == exports_of(file),
    ensures
        describes_files(final(exports), final(symbols), files.push(file)),
{
    let ghost exports_before = *exports;
    let ghost symbols_before = *symbols;
    exports.insert(path.clone(), exported);
    symbols.insert(path.clone(), listed);
    proof {
        let grown = files.push(file);
        assert(grown.drop_last() =~= files);
        assert forall|p: Seq<char>| #[trigger]
            exports_under(exports, p) == match last_with_path(grown, p) {
                Some(f) => Some(exports_of(f)),
                None => None,
            } by {
            lemma_first_index_bounds(exports_before.names(), p);
            lemma_first_index_bounds(exports_before.names(), path@);
            if p != path@ {
                if !exports_before.has(path@) {
                    lemma_first_index_push(exports_before.names(), path@, p);
                }
                assert(exports_under(&exports_before, p) == match last_with_path(files, p) {
                    Some(f) => Some(exports_of(f)),
                    None => None,
                });
            }
        }
        assert forall|p: Seq<char>| #[trigger]
            symbols_under(symbols, p) == match last_with_path(grown, p) {
                Some(f) => Some(symbols_of(f)),
                None => None,
            } by {
            lemma_first_index_bounds(symbols_before.names(), p);
            lemma_first_index_bounds(symbols_before.names(), path@);
            if p != path@ {
                if !symbols_before.has(path@) {
                    lemma_first_index_push(symbols_before.names(), path@, p);
                }
                assert(symbols_under(&symbols_before, p) == match last_with_path(files, p) {
                    Some(f) => Some(symbols_of(f)),
                    None => None,
                });
            }
        }
    }
}

impl SymbolTable {
    /// The sites that declare the function `name`, in indexing order.
    pub open spec fn function_sites(&self, name: Seq<char>) -> Seq<SymbolEntryModel> {
        sites(&self.functions, name)
    }

    /// The sites that declare the class `name`, in indexing order.
    pub open spec fn class_sites(&self, name: Seq<char>) -> Seq<SymbolEntryModel> {
        sites(&self.classes, name)
    }

    /// The site a call of `name` from `current_file` resolves to.
    pub open spec fn resolved_function(&self, name: Seq<char>, current_file: Seq<char>) -> Option<
        SymbolEntryModel,
    > {
        resolve(self.function_sites(name), current_file)
    }

    /// The site a reference to the class `name` from `current_file` resolves
    /// to.
    pub open spec fn resolved_class(&self, name: Seq<char>, current_file: Seq<char>) -> Option<
        SymbolEntryModel,
    > {
        resolve(self.class_sites(name), current_file)
    }

    /// The table indexes exactly the declarations of `files`.
    pub open spec fn indexes(&self, files: Seq<ParsedFileModel>) -> bool {
        &&& files_exactly(&self.functions, all_function_decls(files))
        &&& files_exactly(&self.classes, all_class_decls(files))
        &&& describes_files(&self.file_exports, &self.files, files)
    }

    /// Builds the symbol table of `parsed_files` in one pass.
    pub fn from_parsed_files(parsed_files: &[ParsedFile]) -> (table: SymbolTable)
        ensures
            table.indexes(parsed_files.deep_view()),
    {
        let mut table = SymbolTable {
            functions: NameMap::new(),
            classes: NameMap::new(),
            file_exports: NameMap::new(),
            files: NameMap::new(),
        };
        let ghost all = parsed_files.deep_view();
        let mut i: usize = 0;
        while i < parsed_files.len()
            invariant
                i <= parsed_files@.len(),
                all == parsed_files.deep_view(),
                table.indexes(all.take(i as int)),
            decreases parsed_files@.len() - i,
        {
            let file = &parsed_files[i];
            let ghost done = all.take(i as int);
            let ghost fdecls = all_function_decls(done);
            let ghost cdecls = all_class_decls(done);
            proof {
                assert(all.take(i + 1).drop_last() =~= done);
                assert(all.take(i + 1).last() == file@);
                assert(all.take(i + 1) =~= done.push(file@));
                assert(cdecls + class_decls(file.path@, Seq::empty()) =~= cdecls);
            }
            let function_names = index_functions(
                &mut table.functions,
                &file.path,
                &file.functions,
                Ghost(fdecls),
            );
            let class_names = index_classes(
                &mut table.functions,
                &mut table.classes,
                &file.path,
                &file.classes,
                Ghost(fdecls + function_decls(file.path@, file.functions.deep_view())),
                Ghost(cdecls),
            );
            let listed = FileSymbols {
                functions: function_names.clone(),
                classes: class_names.clone(),
                imports: file.imports.clone(),
            };
            let mut exported = function_names;
            let mut tail = class_names;
            proof {
                lemma_deep_view_concat(exported@, tail@);
                assert(listed.functions.deep_view() =~= exported.deep_view());
                assert(listed.classes.deep_view() =~= tail.deep_view());
                assert(listed.imports.deep_view() =~= file.imports.deep_view());
            }
            exported.append(&mut tail);
            record_file(
                &mut table.file_exports,
                &mut table.files,
                &file.path,
                listed,
                exported,
                Ghost(done),
                Ghost(file@),
            );
            i += 1;
        }
        assert(all.take(i as int) =~= all);
        table
    }

    /// Resolves a call by name: the declaration in `current_file` if there is
    /// one, else the first declaration indexed, else nothing.
    pub fn resolve_function(&self, name: &str, current_file: &str) -> (r: Option<&SymbolEntry>)
        ensures
            r.deep_view() == self.resolved_function(name@, current_file@),
    {
        match self.functions.get(name) {
            Some(entries) => pick(entries, current_file),
            None => None,
        }
    }

    /// Resolves a class reference by name, by the same rule as calls.
    pub fn resolve_class(&self, name: &str, current_file: &str) -> (r: Option<&SymbolEntry>)
        ensures
            r.deep_view() == self.resolved_class(name@, current_file@),
    {
        match self.classes.get(name) {
            Some(entries) => pick(entries, current_file),
            None => None,
        }
    }
}

/// Applies the resolution rule to the sites of one name.
fn pick<'a>(entries: &'a Vec<SymbolEntry>, current_file: &str) -> (r: Option<&'a SymbolEntry>)
    ensures
        r.deep_view() == resolve(entries.deep_view(), current_file@),
{
    let ghost models = entries.deep_view();
    let ghost paths = Seq::new(models.len(), |i: int| models[i].file_path);
    let mut i: usize = 0;
    while i < entries.len()
        invariant
            i <= entries@.len(),
            models == entries.deep_view(),
            paths == Seq::new(models.len(), |i: int| models[i].file_path),
            forall|j: int| 0 <= j < i ==> paths[j] != current_file@,
        decreases entries@.len() - i,
    {
        if str_eq(entries[i].file_path.as_str(), current_file) {
            proof {
                lemma_first_index_unique(paths, current_file@, i as int);
            }
            return Some(&entries[i]);
        }
        i += 1;
    }
    proof {
        lemma_first_index_unique(paths, current_file@, i as int);
    }
    if entries.len() > 0 {
        Some(&entries[0])
    } else {
        None
    }
}


/// Resolution prefers the current file: a name resolves if and only if it
/// has a site; the site it resolves to is one of its sites; and whenever
/// one of its sites lies in the current file, it resolves to the first
/// such site.
pub proof fn law_resolution_prefers_current_file(
    entries: Seq<SymbolEntryModel>,
    current_file: Seq<char>,
)
    ensures
        resolve(entries, current_file) is Some <==> entries.len() > 0,
        resolve(entries, current_file) matches Some(site) ==> entries.contains(site),
        (exists|i: int| 0 <= i < entries.len() && entries[i].file_path == current_file) ==> ({
            let site = resolve(entries, current_file)->0;
            &&& resolve(entries, current_file) is Some
            &&& site.file_path == current_file
            &&& forall|i: int|
                0 <= i < entries.len() && entries[i].file_path == current_file ==> exists|k: int|
                    0 <= k <= i && entries[k] == site
        }),
        (forall|i: int| 0 <= i < entries.len() ==> entries[i].file_path != current_file)
            && entries.len() > 0 ==> resolve(entries, current_file) == Some(entries[0]),
{
    let paths = Seq::new(entries.len(), |i: int| entries[i].file_path);
    lemma_first_index_bounds(paths, current_file);
    let at = first_index(paths, current_file);
    if at < entries.len() {
        assert(entries[at] == resolve(entries, current_file)->0);
        assert forall|i: int|
            0 <= i < entries.len() && entries[i].file_path == current_file implies exists|k: int|
            0 <= k <= i && entries[k] == entries[at] by {
            assert(paths[i] == current_file);
            assert(at <= i);
        }
    } else {
        assert forall|i: int| 0 <= i < entries.len() implies entries[i].file_path
            != current_file by {
            assert(paths[i] == entries[i].file_path);
        }
        if entries.len() > 0 {
            assert(entries[0] == resolve(entries, current_file)->0);
        }
    }
}

} // verus!
