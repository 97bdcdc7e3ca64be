use ingestion_worker::parsers::go_parser::GoParser;
use ingestion_worker::parsers::javascript::JavaScriptParser;
use ingestion_worker::parsers::python_parser::PythonParser;
use ingestion_worker::parsers::rust_parser::RustParser;
use ingestion_worker::parsers::typescript::TypeScriptParser;
use ingestion_worker::parsers::LanguageParser;

#[test]
fn test_parse_go_full() {
    let parser = GoParser::new().unwrap();
    let content = r#"
            package main

            import (
                "fmt"
                "net/http"
            )

            type Server struct {
                port int
            }

            func (s *Server) Start() {
                fmt.Println("Starting server")
                http.ListenAndServe(":", nil)
            }

            func main() {
                server := Server{port: 8080}
                server.Start()
            }
        "#;

    let result = parser.parse_file("test.go", content).unwrap();

    // Imports
    assert!(result.imports.contains(&"fmt".to_string()));
    assert!(result.imports.contains(&"net/http".to_string()));

    // Structs
    let server = result.classes.iter().find(|c| c.name == "Server").expect("Server struct not found");
    assert!(server.methods.iter().any(|m| m.name == "Start"));

    // Functions
    let main = result.functions.iter().find(|f| f.name == "main").expect("main not found");
    assert!(main.calls.contains(&"Start".to_string()));
}

#[test]
fn test_parse_js_full() {
    let parser = JavaScriptParser::new().unwrap();
    let content = r#"
            import axios from 'axios';
            const log = require('logger');
            
            function add(a, b = 1) {
                return a + b;
            }
            
            const subtract = (a, b) => a - b;
            
            class Calculator extends BaseCalc {
                constructor() { super(); }
                
                multiply(a, b) {
                    this.log(a * b);
                    return a * b;
                }
            }
            
            add(1, 2);
        "#;

    let result = parser.parse_file("test.js", content).unwrap();

    // Imports
    assert!(result.imports.contains(&"axios".to_string()));
    assert!(result.imports.contains(&"logger".to_string()));

    // Functions
    let add_fn = result.functions.iter().find(|f| f.name == "add").expect("add not found");
    assert_eq!(add_fn.params, vec!["a", "b"]);

    // Classes
    let calc_class = result.classes.iter().find(|c| c.name == "Calculator").expect("Calculator not found");
    assert!(calc_class.inheritances.iter().any(|p| p.name == "BaseCalc"));

    let mult_method = calc_class.methods.iter().find(|m| m.name == "multiply").expect("multiply not found");
    assert_eq!(mult_method.params, vec!["a", "b"]);
    assert!(mult_method.calls.iter().any(|c| c == "log"));
}

#[test]
fn test_parse_python_full() {
    let parser = PythonParser::new().unwrap();
    let content = r#"
            import os
            from typing import List

            class Processor(BaseProcessor):
                def process(self, data: List[str]):
                    self.clean(data)
                    return data

                def clean(self, data):
                    pass

            def main():
                p = Processor()
                p.process(["foo"])
        "#;

    let result = parser.parse_file("test.py", content).unwrap();

    // Imports
    assert!(result.imports.contains(&"os".to_string()));
    assert!(result.imports.contains(&"typing".to_string()));

    // Classes
    let processor = result.classes.iter().find(|c| c.name == "Processor").expect("Processor not found");
    assert!(processor
        .inheritances
        .iter()
        .any(|inheritance| inheritance.name == "BaseProcessor" && inheritance.kind == "class"));

    let process = processor.methods.iter().find(|m| m.name == "process").expect("process not found");
    assert_eq!(process.params, vec!["self", "data"]);
    assert!(process.calls.contains(&"clean".to_string()));

    // Functions
    let main = result.functions.iter().find(|f| f.name == "main").expect("main not found");
    assert!(main.calls.contains(&"process".to_string()));
}

#[test]
fn test_parse_rust_full() {
    let parser = RustParser::new().unwrap();
    let content = r#"
            use std::collections::HashMap;
            use serde::{Serialize, Deserialize};

            struct User {
                name: String,
                age: u32
            }

            impl User {
                fn new(name: String) -> Self {
                    Self { name, age: 0 }
                }

                fn grow(&mut self) {
                    self.age += 1;
                    println!("Grew!");
                }
            }

            fn main() {
                let mut u = User::new("Alice".to_string());
                u.grow();
            }
        "#;

    let result = parser.parse_file("test.rs", content).unwrap();

    // Imports
    assert!(result.imports.iter().any(|i| i.contains("std::collections::HashMap")));

    // Structs
    let user = result.classes.iter().find(|c| c.name == "User").expect("User struct not found");
    assert!(user.methods.iter().any(|m| m.name == "new"));
    let grow = user.methods.iter().find(|m| m.name == "grow").unwrap();
    assert_eq!(grow.params, vec!["self"]);
    assert!(grow.calls.contains(&"println!".to_string()));

    // Functions
    let main = result.functions.iter().find(|f| f.name == "main").expect("main not found");
    assert!(main.calls.contains(&"new".to_string()));
    assert!(main.calls.contains(&"grow".to_string()));
}

#[test]
fn test_parse_ts_full() {
    let parser = TypeScriptParser::new().unwrap();
    let content = r#"
            import { Foo } from 'bar';
            
            function process(data: string, options?: any) {
                return validate(data);
            }
            
            class User extends Person {
                update(id: number, name: string) {
                    this.save(id, name);
                }
            }
        "#;

    let result = parser.parse_file("test.ts", content).unwrap();

    // Imports
    assert!(result.imports.contains(&"bar".to_string()));

    // Functions
    let proc = result.functions.iter().find(|f| f.name == "process").expect("process not found");
    assert_eq!(proc.params, vec!["data", "options"]);
    assert!(proc.calls.contains(&"validate".to_string()));

    // Classes
    let user = result.classes.iter().find(|c| c.name == "User").expect("User not found");
    assert!(user
        .inheritances
        .iter()
        .any(|inheritance| inheritance.name == "Person" && inheritance.kind == "class"));

    let update = user.methods.iter().find(|m| m.name == "update").expect("update not found");
    assert_eq!(update.params, vec!["id", "name"]);
}

#[test]
fn every_import_form_is_reported() {
    let rust = RustParser::new()
        .unwrap()
        .parse_file(
            "a.rs",
            "use std::fmt;\nuse serde::{Serialize, Deserialize};\nuse crate::x::*;\nuse a::b as c;\nuse d;\n",
        )
        .unwrap();
    assert_eq!(
        rust.imports,
        vec!["std::fmt", "serde::{Serialize, Deserialize}", "crate::x::*", "a::b as c", "d"]
    );
    let python = PythonParser::new()
        .unwrap()
        .parse_file("a.py", "import os\nimport numpy as np\nfrom . import x\nfrom a.b import c\nimport os\n")
        .unwrap();
    assert_eq!(python.imports, vec!["os", "numpy", ".", "a.b", "os"]);
    let ts = TypeScriptParser::new()
        .unwrap()
        .parse_file(
            "a.ts",
            "import { A } from \"./a\";\nimport b from 'b';\nconst c = require('c');\nimport again from 'b';\nconst d = load('d');\n",
        )
        .unwrap();
    assert_eq!(ts.imports, vec!["./a", "b", "c"]);
    let js = JavaScriptParser::new()
        .unwrap()
        .parse_file("a.js", "import x from 'x';\nconst y = require(\"y\");\nconst z = require('x');\n")
        .unwrap();
    assert_eq!(js.imports, vec!["x", "y"]);
    let go = GoParser::new()
        .unwrap()
        .parse_file("a.go", "package main\nimport \"fmt\"\nimport (\n\tu \"net/url\"\n\tr `raw/path`\n)\n")
        .unwrap();
    assert_eq!(go.imports, vec!["fmt", "net/url", "`raw/path`"]);
}

#[test]
fn functions_list_each_called_name_once() {
    let rust = RustParser::new()
        .unwrap()
        .parse_file(
            "a.rs",
            "fn f(a: u32, mut b: String) { g(); h(); g(); x.m(); y::z(); log!(\"a\"); log!(\"b\"); }\n",
        )
        .unwrap();
    assert_eq!(rust.functions.len(), 1);
    assert_eq!(rust.functions[0].name, "f");
    assert_eq!(rust.functions[0].calls, vec!["g", "h", "m", "z", "log!"]);
    assert_eq!(rust.functions[0].params, vec!["a", "b"]);
    assert_eq!(rust.functions[0].start_line, 1);
    assert_eq!(rust.functions[0].end_line, 1);
    assert_eq!(rust.functions[0].return_type, None);
}

#[test]
fn rust_traits_and_impls() {
    let rust = RustParser::new()
        .unwrap()
        .parse_file(
            "shapes.rs",
            "struct Circle;\nenum Kind { A }\nimpl Shape for Circle {\n    fn area(&self) -> f64 { 0.0 }\n}\nimpl Circle {\n    fn new() -> Self { Circle }\n}\nimpl Other {\n    fn go(self) {}\n}\nmod inner {\n    fn hidden() {}\n}\n",
        )
        .unwrap();
    let names: Vec<&str> = rust.classes.iter().map(|c| c.name.as_str()).collect();
    assert_eq!(names, vec!["Circle", "Kind", "Other"]);
    let circle = &rust.classes[0];
    assert_eq!(circle.start_line, 1);
    assert_eq!(circle.inheritances.len(), 1);
    assert_eq!(circle.inheritances[0].name, "Shape");
    assert_eq!(circle.inheritances[0].kind, "trait");
    let methods: Vec<&str> = circle.methods.iter().map(|m| m.name.as_str()).collect();
    assert_eq!(methods, vec!["area", "new"]);
    assert_eq!(circle.methods[0].params, vec!["self"]);
    let other = &rust.classes[2];
    assert_eq!(other.start_line, 0);
    assert_eq!(other.end_line, 0);
    assert!(other.inheritances.is_empty());
    let functions: Vec<&str> = rust.functions.iter().map(|f| f.name.as_str()).collect();
    assert_eq!(functions, vec!["hidden"]);
}

#[test]
fn typescript_extends_and_implements() {
    let ts = TypeScriptParser::new()
        .unwrap()
        .parse_file(
            "a.ts",
            "class A extends B implements C, D {\n  run(x: number, y = 2) { this.go(x); }\n}\nclass E implements F {}\nconst f = (a: string) => { return a; };\n",
        )
        .unwrap();
    assert_eq!(ts.classes.len(), 2);
    let kinds: Vec<(&str, &str)> =
        ts.classes[0].inheritances.iter().map(|i| (i.name.as_str(), i.kind.as_str())).collect();
    assert_eq!(kinds, vec![("B", "class"), ("C", "interface"), ("D", "interface")]);
    let kinds: Vec<(&str, &str)> =
        ts.classes[1].inheritances.iter().map(|i| (i.name.as_str(), i.kind.as_str())).collect();
    assert_eq!(kinds, vec![("F", "interface")]);
    assert_eq!(ts.classes[0].methods.len(), 1);
    assert_eq!(ts.classes[0].methods[0].name, "run");
    assert_eq!(ts.classes[0].methods[0].calls, vec!["go"]);
    let functions: Vec<&str> = ts.functions.iter().map(|f| f.name.as_str()).collect();
    assert_eq!(functions, vec!["f"]);
    assert_eq!(ts.functions[0].params, vec!["a"]);
}

#[test]
fn go_methods_without_a_struct_and_functions() {
    let go = GoParser::new()
        .unwrap()
        .parse_file(
            "a.go",
            "package main\n\nfunc (c Counter) Inc(by int, name string) {\n\tc.add(by)\n}\n\nfunc helper(a, b int) int {\n\treturn a\n}\n",
        )
        .unwrap();
    assert_eq!(go.classes.len(), 1);
    assert_eq!(go.classes[0].name, "Counter");
    assert_eq!(go.classes[0].start_line, 0);
    assert_eq!(go.classes[0].methods[0].name, "Inc");
    assert_eq!(go.classes[0].methods[0].params, vec!["by", "name"]);
    assert_eq!(go.classes[0].methods[0].calls, vec!["add"]);
    assert_eq!(go.functions.len(), 1);
    assert_eq!(go.functions[0].name, "helper");
    assert_eq!(go.functions[0].params, vec!["a", "b"]);
    assert_eq!(go.functions[0].start_line, 7);
    assert_eq!(go.functions[0].end_line, 9);
}

#[test]
fn tables_and_services_of_a_source() {
    let py = PythonParser::new()
        .unwrap()
        .parse_file(
            "q.py",
            "q = \"SELECT * FROM users JOIN orders ON x\"\nu = \"update Users set a=1\"\nd = 'DELETE FROM logs'\nt = table('events')\nr = get(\"https://api.example.com/v1?x=1\")\ng = \"grpc://users:50051\"\nagain = \"https://api.example.com/other\"\n",
        )
        .unwrap();
    assert_eq!(py.data_tables, vec!["users", "logs", "orders", "Users", "events"]);
    let services: Vec<(&str, &str)> =
        py.service_calls.iter().map(|s| (s.target.as_str(), s.protocol.as_str())).collect();
    assert_eq!(services, vec![("api.example.com", "https"), ("users:50051", "grpc")]);
}
