use webserve::handler::{
    content_type, file_outcome, index_outcome, DirEntry, FileKind, IndexRead, Lookup,
    RequestHandler, Resolved, NOT_FOUND_PAGE,
};

fn site() -> RequestHandler {
    RequestHandler::new("/site".to_string(), "index.html".to_string())
}

fn entry(name: &str, is_dir: bool, size: u64) -> DirEntry {
    DirEntry { name: name.to_string(), is_dir, size }
}

#[test]
fn content_types_follow_the_extension_table() {
    assert_eq!(content_type("/site/a.html"), "text/html");
    assert_eq!(content_type("/site/css/a.css"), "text/css");
    assert_eq!(content_type("/site/app.js"), "text/javascript");
    assert_eq!(content_type("/site/i.png"), "image/png");
    assert_eq!(content_type("/site/i.jpg"), "image/jpeg");
    assert_eq!(content_type("/site/i.jpeg"), "image/jpeg");
    assert_eq!(content_type("/site/i.gif"), "image/gif");
    assert_eq!(content_type("/site/i.svg"), "image/svg+xml");
    assert_eq!(content_type("/site/doc.pdf"), "application/pdf");
    assert_eq!(content_type("/site/archive.tar.gz"), "text/html");
    assert_eq!(content_type("/site/README"), "text/html");
    assert_eq!(content_type("/site/.css"), "text/html");
    assert_eq!(content_type("/site/a.css.d/x"), "text/html");
    assert_eq!(content_type("/site/style.CSS"), "text/html");
}

#[test]
fn candidate_strips_one_leading_separator() {
    let h = site();
    assert_eq!(h.candidate_path("/"), "/site/");
    assert_eq!(h.candidate_path("/css/a.css"), "/site/css/a.css");
    assert_eq!(h.candidate_path("/../secret"), "/site/../secret");
    assert_eq!(h.candidate_path("//etc/passwd"), "/etc/passwd");
    assert_eq!(h.candidate_path("a"), "/site/a");
}

#[test]
fn containment_is_by_component() {
    let h = site();
    assert!(h.within_root("/site"));
    assert!(h.within_root("/site/css/a.css"));
    assert!(!h.within_root("/sites/x"));
    assert!(!h.within_root("/secret"));
    assert!(!h.within_root("/"));
    let top = RequestHandler::new("/".to_string(), "index.html".to_string());
    assert!(top.within_root("/etc/passwd"));
}

#[test]
fn traversal_outside_the_root_is_not_found() {
    let h = site();
    for escaped in ["/etc/passwd", "/secret", "/sitex/a.css", "/"] {
        assert!(matches!(h.lookup(Some(escaped.to_string()), FileKind::File), Lookup::NotFound));
        assert!(matches!(
            h.lookup(Some(escaped.to_string()), FileKind::Directory),
            Lookup::NotFound
        ));
    }
    assert!(matches!(h.lookup(None, FileKind::File), Lookup::NotFound));
    assert!(matches!(h.lookup(Some("/site/fifo".to_string()), FileKind::Other), Lookup::NotFound));
}

#[test]
fn site_scenario() {
    let h = site();
    match h.lookup(Some("/site".to_string()), FileKind::Directory) {
        Lookup::Directory { path, index_path, content_type } => {
            assert_eq!(path, "/site");
            assert_eq!(index_path, "/site/index.html");
            assert_eq!(content_type, "text/html");
        }
        _ => panic!("the root is a directory"),
    }
    match h.lookup(Some("/site/css/a.css".to_string()), FileKind::File) {
        Lookup::File { path, content_type } => {
            assert_eq!(path, "/site/css/a.css");
            assert_eq!(content_type, "text/css");
        }
        _ => panic!("a.css is a file"),
    }
    assert!(matches!(h.lookup(Some("/secret".to_string()), FileKind::File), Lookup::NotFound));
    assert!(matches!(h.lookup(None, FileKind::Directory), Lookup::NotFound));
    let reply = h.get_response(Resolved::NotFound);
    assert_eq!(reply.status, 404);
    assert_eq!(reply.content_type, "text/html");
    assert_eq!(reply.body, NOT_FOUND_PAGE.as_bytes());
}

#[test]
fn directory_index_takes_the_directory_extension() {
    let h = site();
    match h.lookup(Some("/site/theme.css".to_string()), FileKind::Directory) {
        Lookup::Directory { index_path, content_type, .. } => {
            assert_eq!(index_path, "/site/theme.css/index.html");
            assert_eq!(content_type, "text/css");
        }
        _ => panic!("theme.css is a directory"),
    }
}

#[test]
fn replies_carry_the_resource() {
    let h = site();
    let r = h.get_response(Resolved::RegularFile {
        bytes: vec![1, 2, 3],
        content_type: "image/png".to_string(),
    });
    assert_eq!((r.status, r.content_type.as_str(), r.body), (200, "image/png", vec![1, 2, 3]));
    let r = h.get_response(Resolved::DirectoryIndex {
        bytes: b"<p>hi</p>".to_vec(),
        content_type: "text/html".to_string(),
    });
    assert_eq!((r.status, r.body), (200, b"<p>hi</p>".to_vec()));
    let r = h.get_response(Resolved::DirectoryListing { html: "<ul></ul>".to_string() });
    assert_eq!((r.status, r.content_type.as_str(), r.body), (200, "text/html", b"<ul></ul>".to_vec()));
}

#[test]
fn root_listing_has_no_parent_entry() {
    let h = site();
    let html = h.explorer("/site", &vec![entry("css", true, 4096), entry("index.txt", false, 2048)]);
    assert!(html.contains("Index of /</h1>"));
    assert_eq!(html.matches("<li class=\"file-item\">").count(), 2);
    assert!(!html.contains("\n..\n"));
    assert!(html.contains("<a href=\"/css\">"));
    assert!(html.contains("<a href=\"/index.txt\">"));
    assert!(html.contains("2.0 KB"));
    assert!(html.find("/css\"").unwrap() < html.find("/index.txt\"").unwrap());
}

#[test]
fn nested_listing_starts_with_parent_entry() {
    let h = site();
    let html = h.explorer("/site/a/b", &vec![entry("x.png", false, 1536)]);
    assert!(html.contains("Index of /a/b</h1>"));
    assert_eq!(html.matches("<li class=\"file-item\">").count(), 2);
    let parent = html.find("<a href=\"/a\">").unwrap();
    assert!(parent < html.find("<a href=\"/a/b/x.png\">").unwrap());
    assert!(html.contains("1.5 KB"));

    let one_down = h.explorer("/site/a", &vec![]);
    assert_eq!(one_down.matches("<li class=\"file-item\">").count(), 1);
    assert!(one_down.contains("<a href=\"/\">"));
}

#[test]
fn index_file_is_served_when_present() {
    match index_outcome("text/html".to_string(), IndexRead::Bytes(b"<h1>home</h1>".to_vec())) {
        Some(Resolved::DirectoryIndex { bytes, content_type }) => {
            assert_eq!(bytes, b"<h1>home</h1>".to_vec());
            assert_eq!(content_type, "text/html");
        }
        _ => panic!("an index that was read is served"),
    }
    assert!(index_outcome("text/html".to_string(), IndexRead::Missing).is_none());
    assert!(matches!(
        index_outcome("text/html".to_string(), IndexRead::Failed),
        Some(Resolved::NotFound)
    ));
}

#[test]
fn unreadable_file_is_not_found() {
    assert!(matches!(file_outcome("text/css".to_string(), None), Resolved::NotFound));
    match file_outcome("text/css".to_string(), Some(b"a{}".to_vec())) {
        Resolved::RegularFile { bytes, content_type } => {
            assert_eq!(bytes, b"a{}".to_vec());
            assert_eq!(content_type, "text/css");
        }
        _ => panic!("a file that was read is served"),
    }
}
