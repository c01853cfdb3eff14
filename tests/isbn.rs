use nickelhardcover::{
    get_identifiers, get_isbn, get_oebps_path, identifier_from_text, identifiers_from_events, isbn_source,
    oebps_path_from_events, package_path, scan_identifiers, IdentifierScan, IsbnLookup, IsbnSource, ScanStep, XmlEvent,
};

#[test]
fn identifiers_from_package_metadata() {
    let opf = r#"<?xml version="1.0"?>
<package xmlns="http://www.idpf.org/2007/opf">
  <dc:identifier>ignored-outside-metadata-9780000000002</dc:identifier>
  <metadata xmlns:dc="http://purl.org/dc/elements/1.1/">
    <dc:identifier id="uid">urn:isbn:978-0-00-000000-2</dc:identifier>
    <dc:identifier>urn:uuid:1234</dc:identifier>
    <dc:identifier>0306406152</dc:identifier>
    <dc:identifier>isbn:9780000000002</dc:identifier>
    <dc:title>0123456789</dc:title>
  </metadata>
  <dc:identifier>B00ABCDEFG</dc:identifier>
</package>"#;
    assert_eq!(get_identifiers(opf), Ok(vec!["9780000000002".to_string(), "0306406152".to_string()]));
}

#[test]
fn malformed_package_is_an_error() {
    assert!(get_identifiers("<metadata><identifier>0306406152</identifier></wrong>").is_err());
    assert_eq!(get_identifiers(""), Ok(vec![]));
}

#[test]
fn identifier_text_is_normalised() {
    assert_eq!(identifier_from_text("urn:isbn:978-0-00-000000-2"), Some("9780000000002".to_string()));
    assert_eq!(identifier_from_text("B00ABCDEFG"), Some("B00ABCDEFG".to_string()));
    assert_eq!(identifier_from_text("urn:uuid:1234"), None);
    assert_eq!(identifier_from_text("030-640-6152"), Some("0306406152".to_string()));
    assert_eq!(identifier_from_text(""), None);
}

#[test]
fn root_file_of_container() {
    let container = r#"<?xml version="1.0"?>
<container version="1.0" xmlns="urn:oasis:names:tc:opendocument:xmlns:container">
  <rootfiles>
    <rootfile full-path="other.xml" media-type="text/plain"/>
    <rootfile full-path="OEBPS/content.opf" media-type="application/oebps-package+xml"/>
  </rootfiles>
</container>"#;
    assert_eq!(get_oebps_path(container), Ok("OEBPS/content.opf".to_string()));
    assert_eq!(get_oebps_path("<container/>"), Err("Failed to find oebps root file path".to_string()));
}

#[test]
fn source_of_identifiers() {
    assert_eq!(isbn_source("file:///mnt/onboard/book.epub"), IsbnSource::Epub { path: "/mnt/onboard/book.epub".to_string() });
    assert_eq!(isbn_source("1234-abcd"), IsbnSource::Database { content_id: "1234-abcd".to_string() });
}

#[test]
fn identifier_lookup_outcomes() {
    assert_eq!(get_isbn(IsbnLookup::Database(Ok("978".to_string()))), Ok(vec!["978".to_string()]));
    assert_eq!(
        get_isbn(IsbnLookup::Epub(Ok(vec![]))),
        Err("Couldn't find an ISBN in the epub metadata. Please link book manually.".to_string())
    );
    assert_eq!(
        get_isbn(IsbnLookup::Epub(Err("bad zip".to_string()))),
        Err("Encountered an unexpected error while parsing epub metadata. Please link book manually.<br><br>bad zip".to_string())
    );
    assert_eq!(
        get_isbn(IsbnLookup::Database(Err("no row".to_string()))),
        Err("Encountered an unexpected error while fetching ISBN from the database. Please link book manually.<br><br>no row".to_string())
    );
    assert_eq!(get_isbn(IsbnLookup::Epub(Ok(vec!["x".to_string()]))), Ok(vec!["x".to_string()]));
}

#[test]
fn scanning_events_one_by_one() {
    let mut scan = IdentifierScan { ids: vec![], metadata_open: false, identifier_open: false };
    let t = |s: &str| s.to_string();
    assert_eq!(scan_identifiers(&mut scan, &XmlEvent::Start(t("identifier"))), ScanStep::Continue);
    assert!(!scan.identifier_open);
    assert_eq!(scan_identifiers(&mut scan, &XmlEvent::Text(t("0306406152"))), ScanStep::Continue);
    assert!(scan.ids.is_empty());
    scan_identifiers(&mut scan, &XmlEvent::Start(t("metadata")));
    scan_identifiers(&mut scan, &XmlEvent::Start(t("identifier")));
    assert!(scan.identifier_open);
    scan_identifiers(&mut scan, &XmlEvent::Text(t("urn:isbn:0306406152")));
    scan_identifiers(&mut scan, &XmlEvent::Text(t("0306406152")));
    assert_eq!(scan.ids, vec![t("0306406152")]);
    scan_identifiers(&mut scan, &XmlEvent::End(t("identifier")));
    assert!(!scan.identifier_open);
    assert_eq!(scan_identifiers(&mut scan, &XmlEvent::Other), ScanStep::Continue);
    assert_eq!(scan_identifiers(&mut scan, &XmlEvent::End(t("metadata"))), ScanStep::Done);
    assert_eq!(scan_identifiers(&mut scan, &XmlEvent::Eof), ScanStep::Done);
    assert_eq!(
        scan_identifiers(&mut scan, &XmlEvent::Failed(t("at position 3"))),
        ScanStep::Failed(t("Error reading oebps file at position 3"))
    );
}

#[test]
fn package_path_from_rootfile_attributes() {
    let t = |s: &str| s.to_string();
    let attrs = vec![
        Some((t("full-path"), Some(t("OEBPS/content.opf")))),
        None,
        Some((t("media-type"), Some(t("application/oebps-package+xml")))),
    ];
    assert_eq!(package_path(&t("rootfile"), &attrs), Some(Ok(t("OEBPS/content.opf"))));
    assert_eq!(package_path(&t("other"), &attrs), None);
    let wrong_type = vec![Some((t("media-type"), Some(t("text/plain")))), Some((t("full-path"), Some(t("x"))))];
    assert_eq!(package_path(&t("rootfile"), &wrong_type), None);
    assert_eq!(
        package_path(&t("rootfile"), &vec![Some((t("full-path"), Some(t("x"))))]),
        Some(Err(t("The rootfile has no `media-type` attribute")))
    );
    assert_eq!(
        package_path(&t("rootfile"), &vec![Some((t("media-type"), None))]),
        Some(Err(t("Failed to decode the `media-type` attribute value")))
    );
    assert_eq!(
        package_path(&t("rootfile"), &vec![Some((t("media-type"), Some(t("application/oebps-package+xml"))))]),
        Some(Err(t("The rootfile has no `full-path` attribute")))
    );
}

#[test]
fn identifiers_of_example_package() {
    let opf = "<package><metadata><dc:identifier>urn:isbn:9780306406157</dc:identifier><dc:identifier>9780306406157</dc:identifier><dc:identifier>uuid:abc</dc:identifier></metadata></package>";
    assert_eq!(get_identifiers(opf), Ok(vec!["9780306406157".to_string()]));
    let t = |s: &str| s.to_string();
    let events = vec![
        XmlEvent::Start(t("package")),
        XmlEvent::Start(t("metadata")),
        XmlEvent::Start(t("identifier")),
        XmlEvent::Text(t("urn:isbn:9780306406157")),
        XmlEvent::End(t("identifier")),
        XmlEvent::Start(t("identifier")),
        XmlEvent::Text(t("9780306406157")),
        XmlEvent::End(t("identifier")),
        XmlEvent::Start(t("identifier")),
        XmlEvent::Text(t("uuid:abc")),
        XmlEvent::End(t("identifier")),
        XmlEvent::End(t("metadata")),
        XmlEvent::Failed(t("never read")),
    ];
    assert_eq!(identifiers_from_events(&events), Ok(vec![t("9780306406157")]));
    assert_eq!(
        identifiers_from_events(&vec![XmlEvent::Failed(t("at position 0: bad"))]),
        Err(t("Error reading oebps file at position 0: bad"))
    );
    assert_eq!(identifiers_from_events(&vec![]), Ok(vec![]));
}

#[test]
fn package_path_of_example_container() {
    let manifest = "<container><rootfiles><rootfile full-path='OEBPS/content.opf' media-type='application/oebps-package+xml'/></rootfiles></container>";
    assert_eq!(get_oebps_path(manifest), Ok("OEBPS/content.opf".to_string()));
    let t = |s: &str| s.to_string();
    let rootfile = |path: &str, media: &str| {
        XmlEvent::Empty(t("rootfile"), vec![Some((t("full-path"), Some(t(path)))), Some((t("media-type"), Some(t(media))))])
    };
    let events = vec![
        XmlEvent::Start(t("container")),
        rootfile("a.txt", "text/plain"),
        rootfile("OEBPS/content.opf", "application/oebps-package+xml"),
        rootfile("second.opf", "application/oebps-package+xml"),
    ];
    assert_eq!(oebps_path_from_events(&events), Ok(t("OEBPS/content.opf")));
    assert_eq!(oebps_path_from_events(&vec![XmlEvent::Eof]), Err(t("Failed to find oebps root file path")));
    assert_eq!(
        oebps_path_from_events(&vec![XmlEvent::Failed(t("at position 2: x"))]),
        Err(t("Error reading container manifest at position 2: x"))
    );
}
