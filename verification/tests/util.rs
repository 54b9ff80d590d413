use krustie::middleware::statics::ServeStatic;
use krustie::router::route::Route;
use krustie::router::{get_path_types, PathType};
use krustie::strutil::{
    parse_usize_or_zero, split_str, str_eq, str_eq_ci, str_starts_with, trim_str, usize_to_string,
};
use krustie::HttpMethod;

#[test]
fn string_utilities() {
    assert!(str_eq("abc", "abc"));
    assert!(!str_eq("abc", "abd"));
    assert!(str_eq_ci("GZip", "gzip"));
    assert!(!str_eq_ci("gzip", "gzi"));
    assert!(str_starts_with("HTTP/1.1", "HTTP/"));
    assert!(!str_starts_with("HTTP", "HTTP/"));
    assert_eq!(trim_str("  a b \r\n"), "a b");
    assert_eq!(trim_str("   "), "");
    assert_eq!(usize_to_string(0), "0");
    assert_eq!(usize_to_string(15552000), "15552000");
    assert_eq!(parse_usize_or_zero("42"), 42);
    assert_eq!(parse_usize_or_zero("4a2"), 0);
    assert_eq!(parse_usize_or_zero(""), 0);
    assert_eq!(parse_usize_or_zero("99999999999999999999999999"), 0);
    let parts = split_str("/a//b/", '/');
    assert_eq!(parts, vec!["", "a", "", "b", ""]);
    assert_eq!(split_str("", ','), vec![""]);
}

#[test]
fn path_patterns() {
    let pts = get_path_types("/a/:id/b").unwrap();
    assert_eq!(pts.len(), 3);
    assert!(matches!(&pts[0], PathType::Subdirectory(s) if s == "a"));
    assert!(matches!(&pts[1], PathType::Parameter(s) if s == "id"));
    assert!(matches!(&pts[2], PathType::Subdirectory(s) if s == "b"));

    // empty pieces are dropped, so these register identically
    let doubled = get_path_types("/a//b/").unwrap();
    assert_eq!(doubled.len(), 2);
    let plain = get_path_types("a/b").unwrap();
    assert_eq!(plain.len(), 2);

    let err = get_path_types("/a b").unwrap_err();
    assert_eq!(err.0, "a b");
}

#[test]
fn route_records() {
    let route = Route::new("/users", &HttpMethod::GET);
    assert_eq!(route.path, "/users");
    assert_eq!(route.method, HttpMethod::GET);
}

#[test]
fn static_file_extensions() {
    let statics = ServeStatic::new("public");
    assert_eq!(statics.folder(), "public");
    assert_eq!(statics.get_extension("public/index.html"), Ok("html".to_string()));
    assert_eq!(statics.get_extension("archive.tar.gz"), Ok("gz".to_string()));
    assert_eq!(statics.get_extension("notes."), Ok("".to_string()));
    assert_eq!(statics.get_extension("dir.v2/file").is_err(), true);
    assert!(statics.get_extension(".gitignore").is_err());
    assert!(statics.get_extension("public/.gitignore").is_err());
    assert!(statics.get_extension("plain").is_err());
    assert!(statics.get_extension("a/b/").is_err());
    assert!(statics.get_extension("..").is_err());
    assert_eq!(
        statics.get_extension("plain"),
        Err("No extension found for file: plain".to_string())
    );
}
