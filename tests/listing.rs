use nws_client::listing::{
    decode_modified, decode_row, origin, parse, parse_cells, resolve_url, Decimal, FileSize,
    ListingCell, Origin, ParseError, RemoteFile, UtcDateTime,
};

fn cell(text: &str) -> ListingCell {
    ListingCell { text: text.to_string(), href: None }
}

fn link_cell(text: &str, href: &str) -> ListingCell {
    ListingCell { text: text.to_string(), href: Some(href.to_string()) }
}

fn magnitude(size: &FileSize) -> f64 {
    let d = match size {
        FileSize::B(d) | FileSize::K(d) | FileSize::M(d) | FileSize::G(d) => d,
    };
    d.as_str().parse::<f64>().unwrap()
}

fn example_origin() -> Option<Origin> {
    Some(Origin { scheme: "https".to_string(), host: "example.test".to_string() })
}

fn time(year: i32, month: u32, day: u32, hour: u32, minute: u32) -> UtcDateTime {
    UtcDateTime { year, month, day, hour, minute, second: 0 }
}

#[test]
fn size_with_unit_suffix() {
    let k = FileSize::new("1.5K").unwrap().unwrap();
    assert!(matches!(k, FileSize::K(_)));
    assert_eq!(magnitude(&k), 1.5);
    let m = FileSize::new("14M").unwrap().unwrap();
    assert!(matches!(m, FileSize::M(_)));
    assert_eq!(magnitude(&m), 14.0);
    let g = FileSize::new("2.25G").unwrap().unwrap();
    assert!(matches!(g, FileSize::G(_)));
    assert_eq!(magnitude(&g), 2.25);
}

#[test]
fn size_absent() {
    assert_eq!(FileSize::new("-"), Ok(None));
    assert_eq!(FileSize::new(""), Ok(None));
}

#[test]
fn size_in_bytes() {
    let b = FileSize::new("200").unwrap().unwrap();
    assert!(matches!(b, FileSize::B(_)));
    assert_eq!(magnitude(&b), 200.0);
    match FileSize::new("1e3").unwrap().unwrap() {
        FileSize::B(d) => assert_eq!(d.as_str(), "1e3"),
        other => panic!("unexpected {:?}", other),
    }
}

#[test]
fn size_kept_as_printed() {
    match FileSize::new("1.50K").unwrap().unwrap() {
        FileSize::K(d) => assert_eq!(d.as_str(), "1.50"),
        other => panic!("unexpected {:?}", other),
    }
}

#[test]
fn size_errors() {
    assert_eq!(FileSize::new("3.2Q"), Err(ParseError::BadSize("3.2Q".to_string())));
    assert_eq!(FileSize::new("K"), Err(ParseError::BadSize("K".to_string())));
    assert_eq!(FileSize::new("1.2.3"), Err(ParseError::BadSize("1.2.3".to_string())));
    assert_eq!(FileSize::new("12 K"), Err(ParseError::BadSize("12 K".to_string())));
    assert_eq!(FileSize::new("x9"), Err(ParseError::BadSize("x9".to_string())));
}

#[test]
fn decimal_syntax() {
    for ok in ["0", "12", "1.5", ".5", "3.", "-2", "+2.5e10", "7E-3", "inf", "-Infinity", "NaN", "+INF"] {
        assert_eq!(Decimal::parse(ok).map(|d| d.as_str().to_string()), Some(ok.to_string()));
        assert!(ok.parse::<f64>().is_ok());
    }
    for bad in ["", ".", "-", "1..2", "e5", "1e", "1e+", "--1", " 1", "1,5", "infin", "nana", "+-inf"] {
        assert_eq!(Decimal::parse(bad), None);
        assert!(bad.parse::<f64>().is_err());
    }
}

#[test]
fn modified_time() {
    assert_eq!(decode_modified("12-Jan-2024 08:30"), Ok(Some(time(2024, 1, 12, 8, 30))));
    assert_eq!(decode_modified(""), Ok(None));
    assert_eq!(
        decode_modified("2024-01-12"),
        Err(ParseError::BadTimestamp("2024-01-12".to_string()))
    );
}

#[test]
fn parent_row_resolves_from_link() {
    let base = "https://example.test/a/b/";
    let url = resolve_url(base, &example_origin(), "Parent Directory", "-", &Some("/a/".to_string()));
    assert_eq!(url, Ok("https://example.test/a/".to_string()));
    let other = resolve_url(base, &example_origin(), "file.tar", "-", &Some("file.tar".to_string()));
    assert_eq!(other, Ok("https://example.test/a/b/file.tar".to_string()));
    let sized = resolve_url(base, &example_origin(), "Parent Directory", "4K", &None);
    assert_eq!(sized, Ok("https://example.test/a/b/Parent Directory".to_string()));
}

#[test]
fn parent_row_errors() {
    let base = "https://example.test/a/";
    assert_eq!(
        resolve_url(base, &example_origin(), "Parent Directory", "-", &None),
        Err(ParseError::MalformedDocument)
    );
    assert_eq!(
        resolve_url("dir/", &None, "Parent Directory", "-", &Some("/".to_string())),
        Err(ParseError::BadBaseUrl("dir/".to_string()))
    );
}

#[test]
fn origin_of_base_url() {
    assert_eq!(origin("https://example.test/dir/"), example_origin());
    assert_eq!(origin("not a url"), None);
}

#[test]
fn row_fields_are_trimmed() {
    let row = decode_row(
        "https://example.test/dir/",
        &example_origin(),
        &cell("  BREF_1.tar \n"),
        &cell(" 01-Jan-2024 00:00 "),
        &cell("\t14M "),
    )
    .unwrap();
    assert_eq!(row.url, "https://example.test/dir/BREF_1.tar");
    assert_eq!(row.last_modified, Some(time(2024, 1, 1, 0, 0)));
    assert_eq!(magnitude(row.size.as_ref().unwrap()), 14.0);
}

#[test]
fn one_record_per_row_in_order() {
    let cells = vec![
        cell("a"), cell("01-Feb-2023 10:00"), cell("1K"),
        cell("b"), cell(""), cell("-"),
        cell("c"), cell("03-Mar-2023 23:59"), cell("5"),
    ];
    let files = parse_cells("https://example.test/d/", &example_origin(), &cells).unwrap();
    let urls: Vec<&str> = files.iter().map(|f| f.url.as_str()).collect();
    assert_eq!(urls, vec!["https://example.test/d/a", "https://example.test/d/b", "https://example.test/d/c"]);
    assert_eq!(files[1].last_modified, None);
    assert_eq!(files[1].size, None);
    assert_eq!(files[2].last_modified, Some(time(2023, 3, 3, 23, 59)));
}

#[test]
fn partial_row_is_left_out() {
    let cells = vec![
        cell("a"), cell(""), cell("1"),
        cell("b"), cell(""), cell("2"),
        cell("c"),
    ];
    let files = parse_cells("https://example.test/", &example_origin(), &cells).unwrap();
    assert_eq!(files.len(), 2);
    assert_eq!(files[1].url, "https://example.test/b");
}

#[test]
fn first_error_is_returned() {
    let cells = vec![
        cell("a"), cell("bad time"), cell("1"),
        cell("b"), cell(""), cell("3.2Q"),
    ];
    let r = parse_cells("https://example.test/", &example_origin(), &cells);
    assert_eq!(r, Err(ParseError::BadTimestamp("bad time".to_string())));
}

#[test]
fn no_cells_is_malformed() {
    assert_eq!(parse_cells("https://example.test/", &example_origin(), &vec![]), Err(ParseError::MalformedDocument));
    assert_eq!(parse("https://example.test/", "<html><body><p>nothing</p></body></html>"), Err(ParseError::MalformedDocument));
}

#[test]
fn listing_page_end_to_end() {
    let html = "<html><body><table>\
        <tr><th>Name</th><th>Last modified</th><th>Size</th></tr>\
        <tr><td><a href=\"/\">Parent Directory</a></td><td></td><td>-</td></tr>\
        <tr><td><a href=\"BREF_20240101.tar\">BREF_20240101.tar</a></td><td>01-Jan-2024 00:00</td><td>14M</td></tr>\
        </table></body></html>";
    let files = parse("https://example.test/dir/", html).unwrap();
    assert_eq!(files.len(), 2);
    assert_eq!(files[0], RemoteFile { url: "https://example.test/".to_string(), last_modified: None, size: None });
    assert_eq!(files[1].url, "https://example.test/dir/BREF_20240101.tar");
    assert_eq!(files[1].last_modified, Some(time(2024, 1, 1, 0, 0)));
    assert!(matches!(files[1].size, Some(FileSize::M(_))));
    assert_eq!(magnitude(files[1].size.as_ref().unwrap()), 14.0);
}

#[test]
fn listing_page_with_seven_cells() {
    let html = "<table>\
        <tr><td>a</td><td></td><td>1</td></tr>\
        <tr><td>b</td><td></td><td>2</td></tr>\
        <tr><td>c</td></tr>\
        </table>";
    let files = parse("https://example.test/x/", html).unwrap();
    assert_eq!(files.len(), 2);
    assert_eq!(files[0].url, "https://example.test/x/a");
    assert_eq!(files[1].url, "https://example.test/x/b");
}

#[test]
fn remote_file_holds_its_fields() {
    let size = FileSize::new("3K").unwrap();
    let f = RemoteFile::new("https://example.test/f", Some(time(2020, 2, 29, 12, 0)), size.clone());
    assert_eq!(f.url, "https://example.test/f");
    assert_eq!(f.last_modified, Some(time(2020, 2, 29, 12, 0)));
    assert_eq!(f.size, size);
}

#[test]
fn size_with_special_magnitude() {
    let k = FileSize::new("infK").unwrap().unwrap();
    assert!(matches!(k, FileSize::K(_)));
    assert_eq!(magnitude(&k), f64::INFINITY);
    let m = FileSize::new("-INFINITYM").unwrap().unwrap();
    assert!(matches!(m, FileSize::M(_)));
    assert_eq!(magnitude(&m), f64::NEG_INFINITY);
    let g = FileSize::new("NaNG").unwrap().unwrap();
    assert!(matches!(g, FileSize::G(_)));
    assert!(magnitude(&g).is_nan());
    assert_eq!(FileSize::new("nan"), Err(ParseError::BadSize("nan".to_string())));
}
