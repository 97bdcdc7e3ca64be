use ingestion_worker::communication_detector::{
    extract_grpc_calls, extract_host, extract_http_calls, extract_proto_services,
    extract_queue_calls, is_interface_definition, make_endpoint_call, parse_docker_compose,
    CommunicationDetector,
    QueueDirection, SourceText,
};

#[test]
fn host_of_a_url() {
    assert_eq!(extract_host("http://api/users"), Some("api".to_string()));
    assert_eq!(extract_host("https://example.com:8080/a/b?x=1#f"), Some("example.com:8080".to_string()));
    assert_eq!(extract_host("https://example.com?x=1"), Some("example.com".to_string()));
    assert_eq!(extract_host("https://example.com#top"), Some("example.com".to_string()));
    assert_eq!(extract_host("no-scheme/path"), None);
    assert_eq!(extract_host("http:///path"), None);
    assert_eq!(extract_host("http://"), None);
    assert_eq!(extract_host(""), None);
    assert_eq!(extract_host("a//b//c"), Some("b".to_string()));
}

#[test]
fn endpoint_call_carries_its_host() {
    let call = make_endpoint_call("src/a.ts", "http://api/users".to_string(), "GET".to_string());
    assert_eq!(call.file_path, "src/a.ts");
    assert_eq!(call.url, "http://api/users");
    assert_eq!(call.method, "GET");
    assert_eq!(call.host, Some("api".to_string()));
    let bare = make_endpoint_call("a", "nothing".to_string(), "POST".to_string());
    assert_eq!(bare.host, None);
}

#[test]
fn http_calls_of_each_pattern() {
    let content = r#"
        fetch("http://api/users");
        axios.post('https://billing.internal/pay');
        requests.get("http://search/q")
        http.Get("http://inventory/items")
    "#;
    let calls = extract_http_calls("src/a.ts", content);
    let seen: Vec<(String, String, Option<String>)> =
        calls.iter().map(|c| (c.url.clone(), c.method.clone(), c.host.clone())).collect();
    assert_eq!(
        seen,
        vec![
            ("http://api/users".to_string(), "GET".to_string(), Some("api".to_string())),
            (
                "https://billing.internal/pay".to_string(),
                "POST".to_string(),
                Some("billing.internal".to_string())
            ),
            ("http://search/q".to_string(), "GET".to_string(), Some("search".to_string())),
            ("http://inventory/items".to_string(), "GET".to_string(), Some("inventory".to_string())),
        ]
    );
    for c in &calls {
        assert_eq!(c.file_path, "src/a.ts");
    }
    assert!(extract_http_calls("x", "nothing here").is_empty());
}

#[test]
fn grpc_calls() {
    let content = "conn, err := grpc.Dial(\"users:50051\")\nimport x from '@grpc/grpc-js'\n";
    let calls = extract_grpc_calls("svc.go", content);
    assert_eq!(calls.len(), 2);
    assert_eq!(calls[0].service_name, "users:50051");
    assert_eq!(calls[0].file_path, "svc.go");
    assert_eq!(calls[1].service_name, "grpc-js");
    assert!(extract_grpc_calls("x", "plain text").is_empty());
}

#[test]
fn queue_calls() {
    let content = r#"
        consumer.subscribe(client, "orders");
        producer.send(client, "payments");
        kafka.publish("audit-log");
    "#;
    let queues = extract_queue_calls("q.js", content);
    assert_eq!(queues.len(), 3);
    assert_eq!(queues[0].topic, "payments");
    assert_eq!(queues[0].direction, QueueDirection::Publish);
    assert_eq!(queues[1].topic, "audit-log");
    assert_eq!(queues[1].direction, QueueDirection::Publish);
    assert_eq!(queues[2].topic, "orders");
    assert_eq!(queues[2].direction, QueueDirection::Consume);
}

#[test]
fn proto_services() {
    let texts = vec![
        "syntax = \"proto3\";\nservice Users {\n}\nservice Billing {}\n".to_string(),
        "message X {}".to_string(),
        "service Search {}".to_string(),
    ];
    assert_eq!(
        extract_proto_services(&texts),
        Ok(vec!["Users".to_string(), "Billing".to_string(), "Search".to_string()])
    );
    assert_eq!(extract_proto_services(&[]), Ok(vec![]));
}

#[test]
fn compose_services_and_ports() {
    let content = "version: '3'\nservices:\n  api:\n    image: x\n    ports:\n      - \"8080:8080\"\n      - 9090\n  db:\n    image: postgres\n    environment:\n      - A=B\n  cache:\n    ports:\n      - \"\"\n      - '6379'\n";
    let services = parse_docker_compose(content);
    assert_eq!(services.len(), 3);
    assert_eq!(services[0].name, "api");
    assert_eq!(services[0].ports, vec!["8080:8080".to_string(), "9090".to_string()]);
    assert_eq!(services[1].name, "db");
    assert!(services[1].ports.is_empty());
    assert_eq!(services[2].name, "cache");
    assert_eq!(services[2].ports, vec!["'6379'".to_string()]);
}

#[test]
fn compose_without_services_line_has_no_services() {
    assert!(parse_docker_compose("  api:\n    ports:\n      - 1\n").is_empty());
    assert!(parse_docker_compose("").is_empty());
    let with_cr = parse_docker_compose("services:\r\n  web:\r\n    ports:\r\n      - \"80:80\"\r\n");
    assert_eq!(with_cr.len(), 1);
    assert_eq!(with_cr[0].name, "web");
    assert_eq!(with_cr[0].ports, vec!["80:80".to_string()]);
}

#[test]
fn detect_gathers_everything() {
    let sources = vec![
        SourceText {
            path: "web/app.ts".to_string(),
            content: "fetch(\"http://api/users\"); producer.send(c, \"events\");".to_string(),
        },
        SourceText { path: "svc/main.go".to_string(), content: "grpc.Dial(\"users:1\")".to_string() },
    ];
    let protos = vec!["service Users {}".to_string()];
    let compose = "services:\n  api:\n    ports:\n      - \"8080:8080\"\n";
    let found = CommunicationDetector::detect(&sources, &protos, Some(compose)).unwrap();
    assert_eq!(found.endpoints.len(), 1);
    assert_eq!(found.endpoints[0].url, "http://api/users");
    assert_eq!(found.endpoints[0].method, "GET");
    assert_eq!(found.rpc_services.len(), 2);
    assert_eq!(found.rpc_services[0].file_path, "svc/main.go");
    assert_eq!(found.rpc_services[0].service_name, "users:1");
    assert_eq!(found.rpc_services[1].file_path, "proto");
    assert_eq!(found.rpc_services[1].service_name, "Users");
    assert_eq!(found.queues.len(), 1);
    assert_eq!(found.queues[0].topic, "events");
    assert_eq!(found.compose_services.len(), 1);
    assert_eq!(found.compose_services[0].name, "api");
    let none = CommunicationDetector::detect(&[], &[], None).unwrap();
    assert!(none.endpoints.is_empty());
    assert!(none.compose_services.is_empty());
}

#[test]
fn interface_definition_files() {
    assert!(is_interface_definition("api/users.proto"));
    assert!(is_interface_definition("users.PROTO"));
    assert!(!is_interface_definition("users.proto.bak"));
    assert!(!is_interface_definition("proto"));
    assert!(!is_interface_definition(".proto"));
}

#[test]
fn fetch_with_a_method_is_reported_with_it_and_as_a_plain_fetch() {
    let content = "fetch(\"http://api/users\", { headers: h, method: \"POST\" })";
    let calls = extract_http_calls("a.ts", content);
    let seen: Vec<(String, String)> = calls.iter().map(|c| (c.url.clone(), c.method.clone())).collect();
    assert_eq!(
        seen,
        vec![
            ("http://api/users".to_string(), "POST".to_string()),
            ("http://api/users".to_string(), "GET".to_string()),
        ]
    );
    let lower = extract_http_calls("a.ts", "fetch('https://x.io/a', {method: 'put'})");
    assert_eq!(lower[0].method, "put");
    assert_eq!(lower[1].method, "GET");
}
