use file_server::{
    extension, is_valid_header_value, request_segments_of, ContentTypes, FileLookup, FileServer,
    Reply,
};

fn segs(v: &[&str]) -> Vec<String> {
    v.iter().map(|s| s.to_string()).collect()
}

fn served_type(server: &FileServer, url: &str) -> (String, String) {
    let segments = server.resolve(url);
    match server.reply(&segments, FileLookup::Opened).unwrap() {
        Reply::File { content_type, header } => (content_type, header.to_string()),
        other => panic!("expected a file reply, got {:?}", other),
    }
}

fn status_of(reply: &Reply) -> u16 {
    match reply {
        Reply::Empty { status } => *status,
        Reply::File { .. } => 200,
    }
}

#[test]
fn new_server_has_default_settings() {
    let server = FileServer::new();
    let types = server.content_type_by_extension();
    assert_eq!(types.get("js"), Some("application/javascript"));
    assert_eq!(types.get("wasm"), Some("application/wasm"));
    assert_eq!(types.get("html"), Some("text/html"));
    assert_eq!(types.get("css"), Some("text/css"));
    assert_eq!(types.get("txt"), None);
    assert_eq!(server.resolve("/"), segs(&["index.html"]));
    assert_eq!(server.content_type_for("notes"), "text/plain");
}

#[test]
fn root_and_empty_url_resolve_to_default_file() {
    let server = FileServer::new();
    assert_eq!(server.resolve("/"), segs(&["index.html"]));
    assert_eq!(server.resolve(""), segs(&["index.html"]));
    assert_eq!(server.resolve("/"), server.resolve("/index.html"));
}

#[test]
fn root_follows_configured_default_file() {
    let mut server = FileServer::new();
    server.set_default_file("main.html");
    assert_eq!(server.resolve("/"), segs(&["main.html"]));
    assert_eq!(server.resolve("/"), server.resolve("/main.html"));
    server.set_default_file("");
    assert_eq!(server.resolve("/"), segs(&[""]));
}

#[test]
fn url_is_split_into_literal_segments() {
    assert_eq!(request_segments_of("/a/b/c", "index.html"), segs(&["a", "b", "c"]));
    assert_eq!(request_segments_of("/app.js", "index.html"), segs(&["app.js"]));
    assert_eq!(request_segments_of("//x", "index.html"), segs(&["", "x"]));
    assert_eq!(request_segments_of("/a//b/", "index.html"), segs(&["a", "", "b", ""]));
    assert_eq!(request_segments_of("a/b", "index.html"), segs(&["a", "b"]));
    assert_eq!(request_segments_of("/../x", "index.html"), segs(&["..", "x"]));
    assert_eq!(request_segments_of("/é/ü", "index.html"), segs(&["é", "ü"]));
    assert_eq!(request_segments_of("é", "index.html"), segs(&["index.html"]));
    assert_eq!(request_segments_of("ab", "index.html"), segs(&["ab"]));
}

#[test]
fn extension_follows_last_dot() {
    assert_eq!(extension("x.js"), Some("js".to_string()));
    assert_eq!(extension("a.b.c"), Some("c".to_string()));
    assert_eq!(extension(".a.b"), Some("b".to_string()));
    assert_eq!(extension("a."), Some("".to_string()));
    assert_eq!(extension("x.JS"), Some("JS".to_string()));
    assert_eq!(extension("README"), None);
    assert_eq!(extension(".profile"), None);
    assert_eq!(extension(".."), None);
    assert_eq!(extension("."), None);
    assert_eq!(extension(""), None);
}

#[test]
fn content_type_by_extension_with_fallback() {
    let server = FileServer::new();
    assert_eq!(served_type(&server, "/x.js").0, "application/javascript");
    assert_eq!(served_type(&server, "/x.unknownext").0, "text/plain");
    assert_eq!(served_type(&server, "/LICENSE").0, "text/plain");
    assert_eq!(served_type(&server, "/dir/style.css").0, "text/css");
    assert_eq!(served_type(&server, "/x.JS").0, "text/plain");
    assert_eq!(served_type(&server, "/.profile").0, "text/plain");
}

#[test]
fn default_content_type_can_be_changed() {
    let mut server = FileServer::new();
    server.set_default_content_type("application/octet-stream");
    assert_eq!(server.content_type_for("data.bin"), "application/octet-stream");
    assert_eq!(server.content_type_for("x.js"), "application/javascript");
}

#[test]
fn overriding_and_removing_extensions() {
    let mut server = FileServer::new();
    server.content_type_by_extension_mut().insert("html", "text/plain");
    assert_eq!(served_type(&server, "/page.html").0, "text/plain");
    server.content_type_by_extension_mut().insert("html", "text/x-html");
    assert_eq!(served_type(&server, "/page.html").0, "text/x-html");
    server.content_type_by_extension_mut().remove("html");
    assert_eq!(server.content_type_by_extension().get("html"), None);
    assert_eq!(served_type(&server, "/page.html").0, "text/plain");
    server.set_default_content_type("text/fallback");
    assert_eq!(served_type(&server, "/page.html").0, "text/fallback");
    assert_eq!(served_type(&server, "/app.js").0, "application/javascript");
}

#[test]
fn content_types_table() {
    let mut types = ContentTypes::new();
    assert_eq!(types.get("md"), None);
    types.insert("md", "text/markdown");
    types.insert("txt", "text/plain");
    assert_eq!(types.get("md"), Some("text/markdown"));
    types.insert("md", "text/x-markdown");
    assert_eq!(types.get("md"), Some("text/x-markdown"));
    types.remove("md");
    assert_eq!(types.get("md"), None);
    assert_eq!(types.get("txt"), Some("text/plain"));
    types.remove("absent");
    assert_eq!(types.get("txt"), Some("text/plain"));
}

#[test]
fn missing_entry_gives_404() {
    let server = FileServer::new();
    let segments = server.resolve("/missing");
    let reply = server.reply(&segments, FileLookup::Missing).unwrap();
    assert_eq!(status_of(&reply), 404);
    assert!(matches!(reply, Reply::Empty { status: 404 }));
}

#[test]
fn unreadable_entry_gives_500() {
    let server = FileServer::new();
    let segments = server.resolve("/some/dir");
    let reply = server.reply(&segments, FileLookup::Unreadable).unwrap();
    assert!(matches!(reply, Reply::Empty { status: 500 }));
}

#[test]
fn opened_file_gives_200_with_header() {
    let server = FileServer::new();
    let segments = server.resolve("/app.js");
    let reply = server.reply(&segments, FileLookup::Opened).unwrap();
    assert_eq!(status_of(&reply), 200);
    match reply {
        Reply::File { content_type, header } => {
            assert_eq!(content_type, "application/javascript");
            assert!(header.field.equiv("Content-Type"));
            assert_eq!(header.value.as_str(), "application/javascript");
        }
        other => panic!("expected a file reply, got {:?}", other),
    }
}

#[test]
fn reply_for_empty_segments_uses_default_type() {
    let server = FileServer::new();
    let (content_type, header) = match server.reply(&Vec::new(), FileLookup::Opened).unwrap() {
        Reply::File { content_type, header } => (content_type, header.to_string()),
        other => panic!("expected a file reply, got {:?}", other),
    };
    assert_eq!(content_type, "text/plain");
    assert_eq!(header, "Content-Type: text/plain");
}

#[test]
fn invalid_content_type_is_an_error() {
    let mut server = FileServer::new();
    server.set_default_content_type("text/plain\r\nX-Injected: 1");
    let segments = server.resolve("/notes");
    let err = server.reply(&segments, FileLookup::Opened).unwrap_err();
    assert_eq!(err.content_type, "text/plain\r\nX-Injected: 1");
    server.content_type_by_extension_mut().insert("txt", "tëxt/plain");
    let err = server.reply(&server.resolve("/a.txt"), FileLookup::Opened).unwrap_err();
    assert_eq!(err.content_type, "tëxt/plain");
    // Errors only concern opened files.
    let reply = server.reply(&segments, FileLookup::Missing).unwrap();
    assert!(matches!(reply, Reply::Empty { status: 404 }));
}

#[test]
fn header_values() {
    assert!(is_valid_header_value("text/html; charset=utf-8"));
    assert!(is_valid_header_value("a\tb"));
    assert!(is_valid_header_value(""));
    assert!(!is_valid_header_value("a\nb"));
    assert!(!is_valid_header_value("a\rb"));
    assert!(!is_valid_header_value("ä"));
    assert!(!is_valid_header_value("a\u{7f}"));
}

#[test]
fn index_and_app_scenario() {
    let server = FileServer::new();
    let (ct, header) = served_type(&server, "/");
    assert_eq!(ct, "text/html");
    assert_eq!(header, "Content-Type: text/html");
    let (ct, header) = served_type(&server, "/app.js");
    assert_eq!(ct, "application/javascript");
    assert_eq!(header, "Content-Type: application/javascript");
    let missing = server.resolve("/missing");
    assert_eq!(missing, segs(&["missing"]));
    let reply = server.reply(&missing, FileLookup::Missing).unwrap();
    assert!(matches!(reply, Reply::Empty { status: 404 }));
}

#[test]
fn root_reply_matches_index_reply() {
    let server = FileServer::new();
    assert_eq!(served_type(&server, "/"), served_type(&server, "/index.html"));
}
