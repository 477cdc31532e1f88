use ao3_sync::format::DownloadFormat;

#[test]
fn render_and_parse_round_trip() {
    for f in DownloadFormat::all() {
        assert_eq!(DownloadFormat::parse(&f.extension()), Some(f));
        assert_eq!(DownloadFormat::parse(&f.to_string()), Some(f));
    }
}

#[test]
fn every_format_in_order() {
    assert_eq!(
        DownloadFormat::all(),
        vec![
            DownloadFormat::AZW3,
            DownloadFormat::EPUB,
            DownloadFormat::MOBI,
            DownloadFormat::PDF,
            DownloadFormat::HTML
        ]
    );
}

#[test]
fn names_and_extensions() {
    assert_eq!(DownloadFormat::EPUB.to_string(), "EPUB");
    assert_eq!(DownloadFormat::AZW3.extension(), "azw3");
    assert_eq!(DownloadFormat::PDF.extension(), "pdf");
}

#[test]
fn parse_ignores_case_only() {
    assert_eq!(DownloadFormat::parse("Epub"), Some(DownloadFormat::EPUB));
    assert_eq!(DownloadFormat::parse("hTmL"), Some(DownloadFormat::HTML));
    assert_eq!(DownloadFormat::parse("epub "), None);
    assert_eq!(DownloadFormat::parse("docx"), None);
    assert_eq!(DownloadFormat::parse(""), None);
}
