use ao3_sync::config::Config;
use ao3_sync::error::Ao3Error;
use ao3_sync::format::DownloadFormat;
use ao3_sync::series::{num_series_pages, pages_to_fetch, series_page_count, Series};
use ao3_sync::work::{SeriesLink, Work};

fn config(map: &[(&str, &str)]) -> Config {
    Config {
        download_path: "downloads".to_owned(),
        ao3_username: None,
        ao3_password: None,
        devices: Vec::new(),
        fandom_map: map.iter().map(|(a, b)| (a.to_string(), b.to_string())).collect(),
        fandom_filter: Vec::new(),
    }
}

const WORK_PAGE: &str = r#"<html><body>
<h2 class="title heading">
   A Title
</h2>
<h3 class="byline heading"><a href="/users/someone">Someone</a></h3>
<ul><li class="download"><ul>
<li><a href="/downloads/12/A_Title.epub?updated_at=1">EPUB</a></li>
<li><a href="/downloads/12/A_Title.pdf?updated_at=1">PDF</a></li>
</ul></li></ul>
<dl class="work meta group">
<dd class="fandom tags"><ul><li><a class="tag">Fandom 1 the big boy</a></li></ul></dd>
<dd class="relationship tags"><ul><li><a class="tag">A/B</a></li></ul></dd>
<dd class="character tags"><ul><li><a class="tag">A</a></li><li><a class="tag">B</a></li></ul></dd>
<dd class="freeform tags"><ul><li><a class="tag">Fluff</a></li></ul></dd>
<dd class="series"><span class="series"><span class="position">Part 2 of <a href="/series/345">The Saga series</a></span></span></dd>
</dl>
</body></html>"#;

fn blurb(id: &str, title: &str, fandom: &str, part: &str, series_id: &str) -> String {
    format!(
        r#"<li id="work_{id}" class="work blurb group">
<div class="header module">
<h4 class="heading"><a href="/works/{id}">{title}</a> by <a rel="author" href="/users/someone">someone</a></h4>
<h5 class="fandoms heading"><a class="tag" href="/tags/x">{fandom}</a></h5>
</div>
<ul class="tags commas"><li class="relationships"><a class="tag">A/B</a></li><li class="characters"><a class="tag">A</a></li><li class="freeforms"><a class="tag">Fluff</a></li></ul>
<ul class="series"><li>Part <strong>{part}</strong> of <a href="/series/{series_id}">My Series</a></li></ul>
</li>"#
    )
}

fn listing(blurbs: &[String], pagination_items: usize) -> String {
    let items: String = (0..pagination_items).map(|i| format!("<li>{i}</li>")).collect();
    format!(
        r#"<html><body>
<h2 class="heading">
  My Series
</h2>
<dl class="series meta group">
<dt>Creator:</dt><dd><a href="/users/someone">someone</a></dd>
<dt>Series Begun:</dt><dd>2020-01-01</dd>
<dt>Series Updated:</dt><dd>2021-02-03</dd>
<dt>Description:</dt><dd><blockquote class="userstuff"><p>About it.</p></blockquote></dd>
<dt>Stats:</dt><dd><dl class="stats"><dt>Words:</dt><dd class="words">12,345</dd><dt>Works:</dt><dd class="works">2</dd><dt>Complete:</dt><dd>Yes</dd><dt>Bookmarks:</dt><dd class="bookmarks"><a href="/b"> 1.024 </a></dd></dl></dd>
</dl>
<ol class="pagination actions">{items}</ol>
<ul class="series work index group">{}</ul>
</body></html>"#,
        blurbs.concat()
    )
}

#[test]
fn work_page_is_read() {
    let config = config(&[("Fandom 1 the big boy", "Fandom 1")]);
    let work = Work::parse_work("12", WORK_PAGE, &config).unwrap();
    assert_eq!(work.id(), "12");
    assert_eq!(work.title(), "A Title");
    assert_eq!(work.author(), "Someone");
    assert_eq!(work.fandoms(), vec!["Fandom 1 the big boy".to_string()]);
    assert_eq!(work.filtered_fandom, "Fandom 1");
    assert_eq!(work.relationships(), vec!["A/B".to_string()]);
    assert_eq!(work.characters(), vec!["A".to_string(), "B".to_string()]);
    assert_eq!(work.additional_tags(), vec!["Fluff".to_string()]);
    assert_eq!(
        work.download_link(DownloadFormat::EPUB).unwrap(),
        "https://archiveofourown.org/downloads/12/A_Title.epub?updated_at=1"
    );
    assert_eq!(work.download_link(DownloadFormat::MOBI), None);
    let link = work.get_series_link(&"345".to_string()).unwrap();
    assert_eq!(link.series_name, "The Saga");
    assert_eq!(link.part_in_series, 2);
    assert!(work.get_series_link(&"999".to_string()).is_none());
    assert_eq!(work.get_filename(DownloadFormat::EPUB, Some(&"345".to_string())), "2 - A Title.epub");
    assert_eq!(work.get_filename(DownloadFormat::PDF, None), "A Title.pdf");
    assert_eq!(work.get_filename(DownloadFormat::PDF, Some(&"999".to_string())), "A Title.pdf");
}

#[test]
fn work_page_without_title_fails() {
    let config = config(&[]);
    let page = WORK_PAGE.replace("title heading", "other");
    assert_eq!(Work::parse_work("12", &page, &config).err(), Some(Ao3Error::Extraction));
}

#[test]
fn unknown_download_format_fails() {
    let config = config(&[]);
    let page = WORK_PAGE.replace(">PDF<", ">DOCX<");
    assert_eq!(Work::parse_work("12", &page, &config).err(), Some(Ao3Error::Extraction));
}

#[test]
fn unreadable_part_number_fails() {
    let config = config(&[]);
    let page = WORK_PAGE.replace("Part 2 of", "Part two of");
    assert_eq!(Work::parse_work("12", &page, &config).err(), Some(Ao3Error::Extraction));
}

#[test]
fn blurb_is_read_with_direct_links() {
    let config = config(&[]);
    let html = blurb("111", " Chapter One ", "Fandom 2", "1", "777");
    let work = Work::parse_work_from_blurb(&html, &"My Series".to_string(), &config).unwrap();
    assert_eq!(work.id(), "111");
    assert_eq!(work.title(), "Chapter One");
    assert_eq!(work.author(), "someone");
    assert_eq!(work.filtered_fandom, "Fandom 2");
    assert_eq!(
        work.download_link(DownloadFormat::AZW3).unwrap(),
        "https://download.archiveofourown.org/downloads/111/work.azw3"
    );
    assert_eq!(
        work.download_link(DownloadFormat::HTML).unwrap(),
        "https://download.archiveofourown.org/downloads/111/work.html"
    );
    let link = work.get_series_link(&"777".to_string()).unwrap();
    assert_eq!(
        *link,
        SeriesLink {
            series_id: "777".to_string(),
            series_name: "My Series".to_string(),
            part_in_series: 1
        }
    );
    assert_eq!(work.series_count(), 1);
}

#[test]
fn blurb_with_bad_position_fails() {
    let config = config(&[]);
    let html = blurb("111", "Chapter One", "Fandom 2", "300", "777");
    assert_eq!(
        Work::parse_work_from_blurb(&html, &"My Series".to_string(), &config).err(),
        Some(Ao3Error::Extraction)
    );
}

#[test]
fn page_count_formula() {
    assert_eq!(num_series_pages(0), 1);
    assert_eq!(num_series_pages(6), 1);
    assert_eq!(num_series_pages(10), 3);
    assert_eq!(num_series_pages(2), 1);
    assert_eq!(num_series_pages(5), 1);
    assert_eq!(num_series_pages(7), 1);
    assert_eq!(num_series_pages(8), 2);
}

#[test]
fn page_count_from_the_widget() {
    assert_eq!(series_page_count(&listing(&[], 0)), 1);
    assert_eq!(series_page_count(&listing(&[], 10)), 3);
}

#[test]
fn series_over_two_pages() {
    let config = config(&[("Fandom 1 the big boy", "Fandom 1")]);
    let page1 = listing(
        &[
            blurb("1", "W1", "Fandom 1 the big boy", "1", "777"),
            blurb("2", "W2", "Fandom 2", "2", "777"),
        ],
        8,
    );
    let page2 = listing(&[], 8);
    let series = Series::parse_series("777", &vec![page1, page2], &config).unwrap();
    assert_eq!(series.filtered_fandom, "Multiple");
    assert_eq!(series.works.len(), 2);
    assert_eq!(series.works[0].title(), "W1");
    assert_eq!(series.works[1].title(), "W2");
    assert_eq!(series.works[0].filtered_fandom, "Fandom 1");
    assert_eq!(series.works[1].filtered_fandom, "Fandom 2");
    assert_eq!(
        series.fandoms(),
        vec!["Fandom 1 the big boy".to_string(), "Fandom 2".to_string()]
    );
    assert_eq!(series.authors(), vec!["someone".to_string()]);
    assert_eq!(series.title, "My Series");
    assert_eq!(series.creator(), "someone");
    assert_eq!(series.series_begun(), "2020-01-01");
    assert_eq!(series.series_updated(), "2021-02-03");
    assert_eq!(series.description(), "About it.");
    assert_eq!(series.num_words(), 12345);
    assert_eq!(series.num_works(), 2);
    assert!(series.is_completed());
    assert_eq!(series.num_bookmarks(), 1024);
}

#[test]
fn works_keep_listing_order_across_pages() {
    let config = config(&[]);
    let page1 = listing(&[blurb("1", "W1", "F", "1", "9"), blurb("2", "W2", "F", "2", "9")], 8);
    let page2 = listing(&[blurb("3", "W3", "F", "3", "9")], 8);
    let series = Series::parse_series("9", &vec![page1, page2], &config).unwrap();
    let titles: Vec<String> = series.works.iter().map(|w| w.title().clone()).collect();
    assert_eq!(titles, vec!["W1", "W2", "W3"]);
    assert_eq!(series.filtered_fandom, "F");
}

#[test]
fn series_without_pages_or_with_bad_blurb_fails() {
    let config = config(&[]);
    assert_eq!(Series::parse_series("9", &Vec::new(), &config).err(), Some(Ao3Error::Extraction));
    let bad = listing(&[blurb("1", "W1", "F", "x", "9")], 0);
    assert_eq!(Series::parse_series("9", &vec![bad], &config).err(), Some(Ao3Error::Extraction));
    let no_count = listing(&[], 0).replace("12,345", "many");
    assert_eq!(
        Series::parse_series("9", &vec![no_count], &config).err(),
        Some(Ao3Error::Extraction)
    );
}

#[test]
fn pages_after_the_first() {
    assert_eq!(pages_to_fetch(&listing(&[], 0)), Vec::<usize>::new());
    assert_eq!(pages_to_fetch(&listing(&[], 6)), Vec::<usize>::new());
    assert_eq!(pages_to_fetch(&listing(&[], 3)), Vec::<usize>::new());
    assert_eq!(pages_to_fetch(&listing(&[], 10)), vec![2, 3]);
}
