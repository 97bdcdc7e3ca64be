use ingestion_worker::parsers::outline::{
    calls_within, describe, functions_of, imports_from, marked, methods_within, owner_within,
    params_within, parents_within, pick, same, text_named, within,
};
use ingestion_worker::parsers::{FunctionInfo, SourceLanguage};
use ingestion_worker::syntax::Found;

fn at(name: &str, text: &str, bytes: (usize, usize), rows: (usize, usize)) -> Found {
    Found {
        name: name.to_string(),
        text: text.to_string(),
        range: tree_sitter::Range {
            start_byte: bytes.0,
            end_byte: bytes.1,
            start_point: tree_sitter::Point { row: rows.0, column: 0 },
            end_point: tree_sitter::Point { row: rows.1, column: 0 },
        },
    }
}

fn cap(name: &str, text: &str, start: usize, end: usize) -> Found {
    at(name, text, (start, end), (0, 0))
}

fn function(name: &str, def: (usize, usize), rows: (usize, usize), params: (usize, usize)) -> Vec<Found> {
    vec![
        cap("func.name", name, def.0, def.0 + name.len()),
        cap("func.params", "()", params.0, params.1),
        cap("func.body", "{}", params.1, def.1),
        at("func.def", "", def, rows),
    ]
}

fn names(functions: &[FunctionInfo]) -> Vec<&str> {
    functions.iter().map(|f| f.name.as_str()).collect()
}

#[test]
fn the_last_capture_of_a_name_is_picked() {
    let m = vec![cap("a", "first", 0, 1), cap("b", "other", 1, 2), cap("a", "last", 2, 3)];
    assert_eq!(pick(&m, "a").map(|c| c.text.as_str()), Some("last"));
    assert_eq!(pick(&m, "b").map(|c| c.text.as_str()), Some("other"));
    assert!(pick(&m, "c").is_none());
    assert!(pick(&Vec::new(), "a").is_none());
    assert_eq!(text_named(&m, "a"), "last");
    assert_eq!(text_named(&m, "c"), "");
}

#[test]
fn spans_nest_and_coincide() {
    let outer = cap("x", "", 10, 20);
    assert!(within(&cap("y", "", 10, 20), &outer));
    assert!(within(&cap("y", "", 12, 15), &outer));
    assert!(!within(&cap("y", "", 9, 15), &outer));
    assert!(!within(&cap("y", "", 12, 21), &outer));
    assert!(same(&cap("y", "other text", 10, 20), &outer));
    assert!(!same(&cap("y", "", 10, 19), &outer));
    let all = vec![vec![cap("func.free", "", 1, 2)], vec![cap("func.free", "", 10, 20), cap("z", "", 0, 0)]];
    assert!(marked(&all, "func.free", &outer));
    assert!(!marked(&all, "func.member", &outer));
    assert!(!marked(&all, "func.free", &cap("x", "", 10, 21)));
    assert!(!marked(&Vec::new(), "func.free", &outer));
}

#[test]
fn calls_are_those_within_the_definition() {
    let def = cap("func.def", "", 100, 200);
    let all = vec![
        vec![cap("call.name", "before", 90, 96)],
        vec![cap("call.name", "helper", 110, 116)],
        vec![cap("call.macro", "println", 120, 127)],
        vec![cap("call.other", "ignored", 130, 137)],
        vec![cap("call.name", "helper", 140, 146)],
        vec![cap("call.name", "println", 150, 157)],
        vec![cap("call.macro", "vec", 198, 201)],
        vec![cap("call.name", "last", 196, 200)],
    ];
    assert_eq!(calls_within(&all, &def), vec!["helper", "println!", "helper", "println", "last"]);
    let mut m = function("run", (100, 200), (4, 9), (103, 105));
    m.rotate_left(1);
    let mut with_function = all;
    with_function.push(m);
    let functions = functions_of(SourceLanguage::Go, &with_function);
    assert_eq!(names(&functions), vec!["run"]);
    assert_eq!(functions[0].calls, vec!["helper", "println!", "println", "last"]);
    assert_eq!(functions[0].return_type, None);
    assert_eq!((functions[0].start_line, functions[0].end_line), (5, 10));
}

#[test]
fn parameters_are_those_of_the_list_itself() {
    let list = cap("func.params", "", 10, 30);
    let all = vec![
        vec![cap("param.self", "&mut self", 11, 20), cap("param.list", "", 10, 30)],
        vec![cap("param.name", "count", 22, 27), cap("param.list", "", 10, 30)],
        vec![cap("param.name", "nested", 24, 26), cap("param.list", "", 23, 28)],
        vec![cap("param.type", "usize", 28, 29), cap("param.list", "", 10, 30)],
        vec![cap("param.name", "loose", 12, 13)],
        vec![cap("param.name", "other", 40, 45), cap("param.list", "", 39, 50)],
    ];
    assert_eq!(params_within(&all, &list), vec!["self", "count"]);
    assert!(params_within(&all, &cap("func.params", "", 0, 5)).is_empty());
}

#[test]
fn a_receiver_names_its_class_without_the_star() {
    let list = cap("method.receiver", "", 5, 20);
    let typed = |text: &str, s: usize, e: usize| vec![cap("param.type", text, 8, 19), cap("param.list", "", s, e)];
    assert_eq!(owner_within(&vec![typed("*Server", 5, 20)], &list), "Server");
    assert_eq!(owner_within(&vec![typed("Server", 5, 20)], &list), "Server");
    assert_eq!(owner_within(&vec![typed("** Server ", 5, 20)], &list), "Server");
    assert_eq!(owner_within(&vec![typed("*", 5, 20)], &list), "");
    assert_eq!(owner_within(&vec![typed("*Other", 30, 40)], &list), "");
    assert_eq!(owner_within(&vec![typed("*First", 5, 20), typed("Second", 5, 20)], &list), "Second");
    assert_eq!(owner_within(&Vec::new(), &list), "");
}

#[test]
fn a_rust_file_groups_methods_and_traits_by_type() {
    let all = vec![
        vec![cap("class.name", "User", 7, 11), at("class.def", "", (0, 20), (0, 3))],
        vec![cap("class.name", "", 21, 21), at("class.def", "", (21, 30), (4, 4))],
        vec![cap("class.name", "Kind", 36, 40), at("class.def", "", (31, 60), (5, 8))],
        vec![cap("trait.name", "Display", 65, 72), cap("trait.target", "User", 77, 81)],
        vec![cap("trait.name", "Clone", 82, 87), cap("trait.target", "Ghost", 88, 93)],
        vec![cap("trait.name", "", 94, 94), cap("trait.target", "User", 94, 98)],
        vec![cap("impl.name", "User", 105, 109), cap("impl.body", "", 110, 200), cap("impl.def", "", 100, 200)],
        function("new", (115, 150), (12, 14), (121, 123)),
        vec![cap("param.self", "&self", 161, 166), cap("param.list", "", 160, 167)],
        function("name", (155, 190), (15, 17), (160, 167)),
        vec![cap("impl.name", "Late", 205, 209), cap("impl.body", "", 210, 250), cap("impl.def", "", 200, 250)],
        function("go", (215, 240), (20, 21), (220, 222)),
        vec![cap("impl.name", "Bare", 255, 259), cap("impl.body", "", 260, 262), cap("impl.def", "", 250, 262)],
        function("main", (300, 350), (30, 33), (307, 309)),
        vec![cap("func.free", "", 300, 350)],
        vec![cap("call.name", "helper", 320, 326)],
        function("inner", (400, 450), (40, 41), (408, 410)),
        vec![cap("func.free", "", 400, 450)],
        function("", (460, 470), (42, 42), (462, 464)),
        vec![cap("func.free", "", 460, 470)],
        vec![cap("class.name", "User", 507, 511), at("class.def", "", (500, 520), (19, 21))],
        vec![cap("import.source", "std::fmt", 600, 608)],
        vec![cap("other", "skipped", 610, 617)],
        vec![cap("import.source", "std::fmt", 620, 628)],
    ];
    let file = describe(SourceLanguage::Rust, "src/user.rs", "", &all);
    assert_eq!(file.path, "src/user.rs");
    assert_eq!(file.language, "rust");
    assert_eq!(names(&file.functions), vec!["main", "inner"]);
    assert_eq!(file.functions[0].calls, vec!["helper"]);
    assert_eq!((file.functions[0].start_line, file.functions[0].end_line), (31, 34));
    assert_eq!(file.imports, vec!["std::fmt", "std::fmt"]);

    let listed: Vec<&str> = file.classes.iter().map(|c| c.name.as_str()).collect();
    assert_eq!(listed, vec!["User", "Kind", "Ghost", "Late", "Bare"]);
    let user = &file.classes[0];
    assert_eq!((user.start_line, user.end_line), (20, 22));
    assert_eq!(user.inheritances.len(), 1);
    assert_eq!(user.inheritances[0].name, "Display");
    assert_eq!(user.inheritances[0].kind, "trait");
    assert_eq!(names(&user.methods), vec!["new", "name"]);
    assert_eq!(user.methods[1].params, vec!["self"]);
    assert_eq!((file.classes[1].start_line, file.classes[1].end_line), (6, 9));
    let ghost = &file.classes[2];
    assert_eq!((ghost.start_line, ghost.end_line), (0, 0));
    assert_eq!(ghost.inheritances[0].name, "Clone");
    assert!(ghost.methods.is_empty());
    assert_eq!(names(&file.classes[3].methods), vec!["go"]);
    assert!(file.classes[4].methods.is_empty());
}

#[test]
fn a_go_file_attaches_methods_to_the_receiver_type() {
    let method = |name: &str, def: (usize, usize), receiver: (usize, usize)| {
        let mut m = function(name, def, (0, 0), (receiver.1 + 1, receiver.1 + 3));
        m.insert(0, cap("method.receiver", "", receiver.0, receiver.1));
        m
    };
    let all = vec![
        vec![cap("class.name", "Server", 5, 11), at("class.def", "", (0, 30), (2, 5))],
        function("main", (40, 60), (7, 9), (49, 51)),
        method("Start", (70, 120), (75, 90)),
        vec![cap("param.name", "s", 76, 77), cap("param.list", "", 75, 90)],
        vec![cap("param.type", "*Server", 78, 85), cap("param.list", "", 75, 90)],
        vec![cap("call.name", "Listen", 100, 106)],
        method("Stop", (130, 170), (135, 150)),
        vec![cap("param.type", "Client", 138, 144), cap("param.list", "", 135, 150)],
        method("Loose", (180, 220), (185, 195)),
        vec![cap("param.type", "*", 188, 189), cap("param.list", "", 185, 195)],
        method("", (230, 260), (235, 245)),
        vec![cap("param.type", "*Server", 238, 244), cap("param.list", "", 235, 245)],
        vec![cap("import.source", "\"fmt\"", 300, 305)],
        vec![cap("import.source", "\"net/http\"", 306, 316)],
        vec![cap("import.source", "\"fmt\"", 317, 322)],
        vec![cap("import.source", "`raw`", 323, 328)],
    ];
    let file = describe(SourceLanguage::Go, "cmd/main.go", "", &all);
    assert_eq!(file.language, "go");
    assert_eq!(names(&file.functions), vec!["main", "Loose"]);
    assert_eq!(file.imports, vec!["fmt", "net/http", "fmt", "`raw`"]);
    assert_eq!(file.classes.len(), 2);
    assert_eq!(file.classes[0].name, "Server");
    assert_eq!((file.classes[0].start_line, file.classes[0].end_line), (3, 6));
    assert_eq!(names(&file.classes[0].methods), vec!["Start"]);
    assert_eq!(file.classes[0].methods[0].calls, vec!["Listen"]);
    assert_eq!(file.classes[1].name, "Client");
    assert_eq!((file.classes[1].start_line, file.classes[1].end_line), (0, 0));
    assert_eq!(names(&file.classes[1].methods), vec!["Stop"]);
}

#[test]
fn a_python_file_keeps_methods_out_of_its_functions() {
    let all = vec![
        vec![cap("class.name", "Dog", 6, 9), cap("class.body", "", 25, 100), at("class.def", "", (0, 100), (1, 7))],
        vec![cap("parent.extends", "Animal", 10, 16)],
        vec![cap("parent.extends", "Pet", 18, 21)],
        vec![cap("parent.other", "skipped", 18, 21)],
        function("__init__", (30, 50), (2, 3), (42, 48)),
        vec![cap("func.member", "", 30, 50)],
        function("", (52, 60), (4, 4), (56, 58)),
        function("bark", (62, 95), (5, 7), (70, 76)),
        vec![cap("func.member", "", 62, 95)],
        function("helper", (80, 90), (6, 6), (86, 88)),
        vec![cap("class.name", "", 101, 101), at("class.def", "", (101, 110), (8, 8))],
        function("main", (120, 150), (10, 12), (128, 130)),
        vec![cap("class.name", "Dog", 166, 169), cap("class.body", "", 171, 180), at("class.def", "", (160, 180), (14, 15))],
        vec![cap("parent.extends", "Late", 170, 170)],
        vec![cap("import.source", "os", 200, 202)],
        vec![cap("import.source", ".models", 210, 217)],
    ];
    let file = describe(SourceLanguage::Python, "app/dog.py", "", &all);
    assert_eq!(file.language, "python");
    assert_eq!(names(&file.functions), vec!["helper", "main"]);
    assert_eq!(file.imports, vec!["os", ".models"]);
    assert_eq!(file.classes.len(), 2);
    assert_eq!(file.classes[0].name, "Dog");
    assert_eq!((file.classes[0].start_line, file.classes[0].end_line), (2, 8));
    assert_eq!(names(&file.classes[0].methods), vec!["__init__", "bark", "helper"]);
    let parents: Vec<(&str, &str)> =
        file.classes[0].inheritances.iter().map(|p| (p.name.as_str(), p.kind.as_str())).collect();
    assert_eq!(parents, vec![("Animal", "class"), ("Pet", "class")]);
    assert_eq!((file.classes[1].start_line, file.classes[1].end_line), (15, 16));
    assert!(file.classes[1].methods.is_empty());
    assert_eq!(file.classes[1].inheritances[0].name, "Late");

    let body = cap("class.body", "", 25, 100);
    assert_eq!(names(&methods_within(SourceLanguage::Python, &all, &body)), vec!["__init__", "bark", "helper"]);
    assert_eq!(parents_within(&all, &cap("class.def", "", 160, 180)).len(), 1);
}

#[test]
fn a_typescript_file_records_methods_with_their_class_only() {
    let all = vec![
        function("main", (0, 40), (0, 2), (13, 15)),
        vec![cap("class.name", "UserService", 56, 67), cap("class.body", "", 90, 300), at("class.def", "", (50, 300), (4, 20))],
        vec![cap("parent.extends", "Base", 76, 80)],
        vec![cap("parent.implements", "Loader", 92, 98)],
        vec![cap("parent.implements", "Saver", 100, 105)],
        function("load", (110, 180), (6, 9), (114, 116)),
        vec![cap("func.method", "", 110, 180)],
        function("helper", (130, 170), (7, 8), (139, 141)),
        function("save", (190, 280), (11, 15), (194, 196)),
        vec![cap("func.method", "", 190, 280)],
        function("handler", (310, 350), (22, 24), (320, 322)),
        function("", (360, 370), (26, 26), (362, 364)),
        vec![cap("import.source", "'./user'", 400, 408)],
        vec![cap("import.func", "require", 410, 417), cap("import.source", "\"./user\"", 418, 426)],
        vec![cap("import.source", "`express`", 430, 439)],
    ];
    let file = describe(SourceLanguage::TypeScript, "src/service.ts", "", &all);
    assert_eq!(file.language, "typescript");
    assert_eq!(names(&file.functions), vec!["main", "helper", "handler"]);
    assert_eq!(file.imports, vec!["./user", "express"]);
    assert_eq!(file.classes.len(), 1);
    assert_eq!(names(&file.classes[0].methods), vec!["load", "save"]);
    let parents: Vec<(&str, &str)> =
        file.classes[0].inheritances.iter().map(|p| (p.name.as_str(), p.kind.as_str())).collect();
    assert_eq!(parents, vec![("Base", "class"), ("Loader", "interface"), ("Saver", "interface")]);

    let javascript = describe(SourceLanguage::JavaScript, "service.js", "", &all);
    assert_eq!(javascript.language, "javascript");
    assert_eq!(names(&javascript.functions), vec!["main", "helper", "handler"]);
    assert_eq!(names(&javascript.classes[0].methods), vec!["load", "save"]);
    assert_eq!(javascript.imports, vec!["./user", "express"]);
}

#[test]
fn a_description_scans_the_text_for_tables_and_services() {
    let content = "SELECT * FROM users JOIN orders; fetch('https://api.example.com/v1/x')";
    let file = describe(SourceLanguage::Python, "a\\b.py", content, &Vec::new());
    assert_eq!(file.path, "a\\b.py");
    assert_eq!(file.data_tables, vec!["users", "orders"]);
    assert_eq!(file.service_calls.len(), 1);
    assert_eq!(file.service_calls[0].target, "api.example.com");
    assert_eq!(file.service_calls[0].protocol, "https");
    assert!(file.functions.is_empty());
    assert!(file.classes.is_empty());
    assert!(file.imports.is_empty());
}

#[test]
fn imports_are_listed_once_only_where_the_language_says_so() {
    let all = vec![vec![cap("import.source", "\"a\"", 0, 3)], vec![cap("import.source", "\"a\"", 4, 7)]];
    assert_eq!(imports_from(SourceLanguage::Rust, &all), vec!["\"a\"", "\"a\""]);
    assert_eq!(imports_from(SourceLanguage::Python, &all), vec!["\"a\"", "\"a\""]);
    assert_eq!(imports_from(SourceLanguage::Go, &all), vec!["a", "a"]);
    assert_eq!(imports_from(SourceLanguage::TypeScript, &all), vec!["a"]);
    assert_eq!(imports_from(SourceLanguage::JavaScript, &all), vec!["a"]);
}
