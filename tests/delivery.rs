use ao3_sync::config::{Config, Device};
use ao3_sync::delivery::{chunk_ranges, join_path, remote_dirs, upload_file, upload_series, DirCreation, CHUNK_SIZE};
use ao3_sync::error::Ao3Error;
use ao3_sync::fetch::{auth_token, check_page, page_url};
use ao3_sync::format::DownloadFormat;
use ao3_sync::series::Series;
use ao3_sync::work::Work;

fn device(root: &str) -> Device {
    Device {
        name: "reader".to_string(),
        ip: "127.0.0.1".to_string(),
        port: 22,
        username: "u".to_string(),
        password: "p".to_string(),
        download_folder: root.to_string(),
        uses_koreader: None,
    }
}

fn config() -> Config {
    Config {
        download_path: "downloads".to_owned(),
        ao3_username: None,
        ao3_password: None,
        devices: Vec::new(),
        fandom_map: Vec::new(),
        fandom_filter: Vec::new(),
    }
}

const ONE_WORK_LISTING: &str = r#"<html><body>
<h2 class="heading">My Series</h2>
<dl class="series meta group">
<dt>Creator:</dt><dd><a href="/users/someone">someone</a></dd>
<dd>2020-01-01</dd><dd>2021-02-03</dd>
<dd><blockquote class="userstuff"><p>About it.</p></blockquote></dd>
<dd><dl class="stats"><dd class="words">100</dd><dd class="works">1</dd><dd>No</dd><dd class="bookmarks"><a>0</a></dd></dl></dd>
</dl>
<ul class="series work index group">
<li id="work_5" class="work blurb group">
<h4 class="heading"><a href="/works/5">Chapter One</a> by <a href="/users/someone">someone</a></h4>
<h5 class="fandoms heading"><a class="tag">Fandom 1</a></h5>
<ul class="series"><li>Part <strong>1</strong> of <a href="/series/42">My Series</a></li></ul>
</li>
</ul>
</body></html>"#;

fn walk(dirs: Vec<String>, existing: &[&str]) -> Vec<String> {
    let mut w = DirCreation::new(dirs);
    let mut created = Vec::new();
    while let Some(d) = w.pending().cloned() {
        if let Some(c) = w.record(existing.contains(&d.as_str())) {
            created.push(c);
        }
    }
    created
}

#[test]
fn series_delivery_paths() {
    let series = Series::parse_series("42", &vec![ONE_WORK_LISTING.to_string()], &config()).unwrap();
    assert_eq!(series.filtered_fandom, "Fandom 1");
    assert!(!series.is_completed());
    let plan = upload_series(&series, &device("/books"), &config(), DownloadFormat::EPUB).unwrap();
    assert_eq!(plan.remote_dirs, vec!["/books/Fandom 1", "/books/Fandom 1/My Series"]);
    assert_eq!(plan.files.len(), 1);
    assert_eq!(plan.files[0].filename, "1 - Chapter One.epub");
    assert_eq!(plan.files[0].remote_path, "/books/Fandom 1/My Series/1 - Chapter One.epub");
    assert_eq!(plan.files[0].local_path, "downloads/My Series/1 - Chapter One.epub");
}

#[test]
fn directory_walk_creates_missing_until_one_exists() {
    let dirs = vec!["/books/Fandom 1".to_string(), "/books/Fandom 1/My Series".to_string()];
    assert_eq!(walk(dirs.clone(), &[]), dirs);
    assert_eq!(walk(dirs.clone(), &["/books/Fandom 1"]), Vec::<String>::new());
    assert_eq!(
        walk(dirs.clone(), &["/books/Fandom 1/My Series"]),
        vec!["/books/Fandom 1".to_string()]
    );
    assert_eq!(walk(Vec::new(), &[]), Vec::<String>::new());
}

#[test]
fn single_work_delivery_paths() {
    let series = Series::parse_series("42", &vec![ONE_WORK_LISTING.to_string()], &config()).unwrap();
    let work: &Work = &series.works[0];
    let plan = upload_file(work, &device("/books/"), &config(), DownloadFormat::PDF, None).unwrap();
    assert_eq!(plan.filename, "Chapter One.pdf");
    assert_eq!(plan.remote_dirs, vec!["/books/Fandom 1"]);
    assert_eq!(plan.remote_path, "/books/Fandom 1/Chapter One.pdf");
    assert_eq!(plan.local_path, "downloads/Chapter One.pdf");
    let err = upload_file(work, &device("/books"), &config(), DownloadFormat::PDF, Some(&"1".to_string()));
    assert_eq!(err.err(), Some(Ao3Error::NotFound));
}

#[test]
fn path_joining() {
    assert_eq!(join_path("/books", "a"), "/books/a");
    assert_eq!(join_path("/books/", "a"), "/books/a");
    assert_eq!(join_path("", "a"), "a");
    assert_eq!(join_path("/books", "/abs"), "/abs");
    let parts = vec!["x".to_string(), "y".to_string(), "z".to_string()];
    assert_eq!(remote_dirs("r", &parts), vec!["r/x", "r/x/y", "r/x/y/z"]);
}

#[test]
fn chunks_cover_the_file() {
    assert_eq!(
        chunk_ranges(45000, CHUNK_SIZE),
        vec![(0, 20000), (20000, 40000), (40000, 45000)]
    );
    assert_eq!(chunk_ranges(40000, CHUNK_SIZE), vec![(0, 20000), (20000, 40000)]);
    assert_eq!(chunk_ranges(0, CHUNK_SIZE), Vec::<(usize, usize)>::new());
    assert_eq!(chunk_ranges(5, 2), vec![(0, 2), (2, 4), (4, 5)]);
}

#[test]
fn page_addresses() {
    assert_eq!(page_url("12", None), "https://archiveofourown.org/works/12");
    assert_eq!(page_url("345", Some(2)), "https://archiveofourown.org/series/345?page=2");
    assert_eq!(page_url("345", Some(120)), "https://archiveofourown.org/series/345?page=120");
}

#[test]
fn fetched_page_status() {
    assert_eq!(
        check_page("https://archiveofourown.org/users/login?restricted=true", "<html></html>"),
        Err(Ao3Error::Restricted)
    );
    assert_eq!(
        check_page("https://archiveofourown.org/works/1", "<h2 class=\"heading\">Error 404</h2>"),
        Err(Ao3Error::NotFound)
    );
    assert_eq!(
        check_page("https://archiveofourown.org/works/1", "<h2 class=\"heading\">A work</h2>"),
        Ok(())
    );
    assert_eq!(check_page("https://archiveofourown.org/works/1", "<p>x</p>"), Ok(()));
}

#[test]
fn login_token() {
    let page = r#"<form><input name="authenticity_token" value="abc123"><input name="x" value="y"></form>"#;
    assert_eq!(auth_token(page), Some("abc123".to_string()));
    assert_eq!(auth_token("<form></form>"), None);
}

const TWO_FANDOM_LISTING: &str = r#"<html><body>
<h2 class="heading">My Series</h2>
<dl class="series meta group">
<dd><a href="/users/someone">someone</a></dd>
<dd>2020-01-01</dd><dd>2021-02-03</dd>
<dd><blockquote class="userstuff"><p>About it.</p></blockquote></dd>
<dd><dl class="stats"><dd class="words">100</dd><dd class="works">2</dd><dd>No</dd><dd class="bookmarks"><a>0</a></dd></dl></dd>
</dl>
<ul class="series work index group">
<li class="work blurb group">
<h4 class="heading"><a href="/works/5">Chapter One</a> by <a href="/users/someone">someone</a></h4>
<h5 class="fandoms heading"><a class="tag">Fandom 1</a></h5>
<ul class="series"><li>Part <strong>1</strong> of <a href="/series/42">My Series</a></li></ul>
</li>
<li class="work blurb group">
<h4 class="heading"><a href="/works/6">Chapter Two</a> by <a href="/users/someone">someone</a></h4>
<h5 class="fandoms heading"><a class="tag">Fandom 2</a></h5>
<ul class="series"><li>Part <strong>2</strong> of <a href="/series/42">My Series</a></li></ul>
</li>
</ul>
</body></html>"#;

#[test]
fn series_files_go_into_the_series_folder() {
    let series = Series::parse_series("42", &vec![TWO_FANDOM_LISTING.to_string()], &config()).unwrap();
    assert_eq!(series.filtered_fandom, "Multiple");
    assert_eq!(series.works[0].filtered_fandom, "Fandom 1");
    let plan = upload_series(&series, &device("/books"), &config(), DownloadFormat::EPUB).unwrap();
    assert_eq!(plan.remote_dirs, vec!["/books/Multiple", "/books/Multiple/My Series"]);
    assert_eq!(plan.files[0].remote_path, "/books/Multiple/My Series/1 - Chapter One.epub");
    assert_eq!(plan.files[1].remote_path, "/books/Multiple/My Series/2 - Chapter Two.epub");
    assert_eq!(plan.files[1].local_path, "downloads/My Series/2 - Chapter Two.epub");
}
