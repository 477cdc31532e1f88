//! A work: its metadata, the links to its files, its series memberships and
//! its filing label, built from its own page or from its blurb on a series
//! listing.

use vstd::prelude::*;

use crate::canon::{canonical_label, filter_fandoms, filter_table, rename_table};
use crate::config::Config;
use crate::error::Ao3Error;
use crate::format::{all_formats, format_extension, parse_format, DownloadFormat};
use crate::names::{clone_names, strs};
use crate::scrape::{
    opt_strs, select_attrs, select_html, select_texts, selected_attrs, selected_html, selected_texts,
};
use crate::text::{
    chars_of, join_spaced, parse_u8, parse_unsigned, segment_at, segments, split_words, string_of,
    trim, trim_string, without, words, words_without, decimal, decimal_chars,
};

verus! {

/// The membership of a work in a series.
#[derive(Clone, Debug)]
pub struct SeriesLink {
    pub series_id: String,
    pub series_name: String,
    /// 1-based position of the work in the series.
    pub part_in_series: u8,
}

pub struct SeriesLinkView {
    pub series_id: Seq<char>,
    pub series_name: Seq<char>,
    pub part_in_series: u8,
}

impl View for SeriesLink {
    type V = SeriesLinkView;

    open spec fn view(&self) -> SeriesLinkView {
        SeriesLinkView {
            series_id: self.series_id@,
            series_name: self.series_name@,
            part_in_series: self.part_in_series,
        }
    }
}

impl PartialEq for SeriesLink {
    fn eq(&self, other: &SeriesLink) -> (r: bool) {
        self.series_id == other.series_id && self.series_name == other.series_name
            && self.part_in_series == other.part_in_series
    }
}

impl vstd::std_specs::cmp::PartialEqSpecImpl for SeriesLink {
    open spec fn obeys_eq_spec() -> bool {
        true
    }

    open spec fn eq_spec(&self, other: &SeriesLink) -> bool {
        self@ == other@
    }
}

pub open spec fn link_views(s: Seq<SeriesLink>) -> Seq<SeriesLinkView> {
    s.map_values(|l: SeriesLink| l@)
}

pub open spec fn url_views(s: Seq<(DownloadFormat, String)>) -> Seq<(DownloadFormat, Seq<char>)> {
    s.map_values(|e: (DownloadFormat, String)| (e.0, e.1@))
}

/// A series-membership entry as the queries read it: the texts of the entry
/// element, and the texts and `href` values of its child elements.
pub struct SeriesEntry {
    pub texts: Vec<String>,
    pub child_texts: Vec<String>,
    pub child_hrefs: Vec<Option<String>>,
}

pub struct SeriesEntryView {
    pub texts: Seq<Seq<char>>,
    pub child_texts: Seq<Seq<char>>,
    pub child_hrefs: Seq<Option<Seq<char>>>,
}

impl View for SeriesEntry {
    type V = SeriesEntryView;

    open spec fn view(&self) -> SeriesEntryView {
        SeriesEntryView {
            texts: strs(self.texts@),
            child_texts: strs(self.child_texts@),
            child_hrefs: opt_strs(self.child_hrefs@),
        }
    }
}

pub open spec fn entry_views(s: Seq<SeriesEntry>) -> Seq<SeriesEntryView> {
    s.map_values(|e: SeriesEntry| e@)
}

pub open spec fn series_word() -> Seq<char> {
    seq!['s', 'e', 'r', 'i', 'e', 's']
}

/// The identifier in a link such as "/works/123" or "/series/45": its third
/// '/'-separated segment.
pub open spec fn link_id(href: Seq<char>) -> Option<Seq<char>> {
    if segments(href).len() > 2 {
        Some(segments(href)[2])
    } else {
        None
    }
}

/// A series name as a link or heading shows it: its words other than
/// "series", joined with single spaces.
pub open spec fn series_title(s: Seq<char>) -> Seq<char> {
    join_spaced(without(words(s), series_word()))
}

/// The series link of an entry of a work's own page: its text reads
/// "Part <n> of ...", and its first child links to the series and shows its
/// name.
pub open spec fn page_entry_link(e: SeriesEntryView) -> Option<SeriesLinkView> {
    if e.texts.len() > 0 && words(e.texts[0]).len() > 1 && parse_unsigned(
        words(e.texts[0])[1],
        255,
    ) is Some && e.child_hrefs.len() > 0 && e.child_hrefs[0] is Some && link_id(
        e.child_hrefs[0]->0,
    ) is Some && e.child_texts.len() > 0 {
        Some(
            SeriesLinkView {
                series_id: link_id(e.child_hrefs[0]->0)->0,
                series_name: series_title(e.child_texts[0]),
                part_in_series: (parse_unsigned(words(e.texts[0])[1], 255)->0) as u8,
            },
        )
    } else {
        None
    }
}

/// The series link of an entry of a blurb on the listing of series
/// `series_name`: its first child shows the position, its second links to
/// the series.
pub open spec fn blurb_entry_link(e: SeriesEntryView, series_name: Seq<char>) -> Option<
    SeriesLinkView,
> {
    if e.child_texts.len() > 0 && parse_unsigned(e.child_texts[0], 255) is Some
        && e.child_hrefs.len() > 1 && e.child_hrefs[1] is Some && link_id(
        e.child_hrefs[1]->0,
    ) is Some {
        Some(
            SeriesLinkView {
                series_id: link_id(e.child_hrefs[1]->0)->0,
                series_name: series_name,
                part_in_series: (parse_unsigned(e.child_texts[0], 255)->0) as u8,
            },
        )
    } else {
        None
    }
}

/// `t` with `l` filed under its series id: it replaces the link of the same
/// series, or is added at the end.
pub open spec fn put_link(t: Seq<SeriesLinkView>, l: SeriesLinkView) -> Seq<SeriesLinkView> {
    if exists|i: int| 0 <= i < t.len() && t[i].series_id == l.series_id {
        t.map_values(|x: SeriesLinkView| if x.series_id == l.series_id { l } else { x })
    } else {
        t.push(l)
    }
}

/// The series links that `read` gives for the entries `es`, each filed by
/// its series id, or `None` when an entry does not read.
pub open spec fn links_from(
    es: Seq<SeriesEntryView>,
    read: spec_fn(SeriesEntryView) -> Option<SeriesLinkView>,
) -> Option<Seq<SeriesLinkView>>
    decreases es.len(),
{
    if es.len() == 0 {
        Some(Seq::empty())
    } else {
        match (links_from(es.drop_last(), read), read(es.last())) {
            (Some(t), Some(l)) => Some(put_link(t, l)),
            _ => None,
        }
    }
}

/// The series links of the entries of a work's own page, or `None` when one
/// of them does not read.
pub open spec fn page_links(es: Seq<SeriesEntryView>) -> Option<Seq<SeriesLinkView>> {
    links_from(es, |e: SeriesEntryView| page_entry_link(e))
}

/// The series links of the entries of a blurb, or `None` when one of them
/// does not read.
pub open spec fn blurb_links(es: Seq<SeriesEntryView>, series_name: Seq<char>) -> Option<
    Seq<SeriesLinkView>,
> {
    links_from(es, |e: SeriesEntryView| blurb_entry_link(e, series_name))
}

/// `t` with `url` filed under format `f`.
pub open spec fn put_url(t: Seq<(DownloadFormat, Seq<char>)>, f: DownloadFormat, url: Seq<char>) -> Seq<
    (DownloadFormat, Seq<char>),
> {
    if exists|i: int| 0 <= i < t.len() && t[i].0 == f {
        t.map_values(
            |x: (DownloadFormat, Seq<char>)|
                if x.0 == f {
                    (f, url)
                } else {
                    x
                },
        )
    } else {
        t.push((f, url))
    }
}

pub open spec fn site_root() -> Seq<char> {
    "https://archiveofourown.org"@
}

pub open spec fn download_root() -> Seq<char> {
    "https://download.archiveofourown.org/downloads/"@
}

pub open spec fn work_file_stem() -> Seq<char> {
    "/work."@
}

/// The download links of a work's download menu, from the menu's entry
/// names and `href` values, or `None` when an entry does not read.
pub open spec fn menu_links(names: Seq<Seq<char>>, hrefs: Seq<Option<Seq<char>>>, k: nat) -> Option<
    Seq<(DownloadFormat, Seq<char>)>,
>
    decreases k,
{
    if k == 0 {
        Some(Seq::empty())
    } else if k > names.len() {
        None
    } else {
        let i = k - 1;
        match menu_links(names, hrefs, (k - 1) as nat) {
            Some(t) => if i < hrefs.len() && hrefs[i] is Some && parse_format(names[i]) is Some {
                Some(put_url(t, parse_format(names[i])->0, site_root() + hrefs[i]->0))
            } else {
                None
            },
            None => None,
        }
    }
}

/// The direct download address of work `id` in format `f`.
pub open spec fn direct_url(id: Seq<char>, f: DownloadFormat) -> Seq<char> {
    download_root() + id + work_file_stem() + format_extension(f)
}

/// The direct download addresses of work `id`, one per format.
pub open spec fn direct_links(id: Seq<char>) -> Seq<(DownloadFormat, Seq<char>)> {
    all_formats().map_values(|f: DownloadFormat| (f, direct_url(id, f)))
}


/// What a work's own page shows, as the queries read it.
pub struct WorkPage {
    pub titles: Vec<String>,
    pub authors: Vec<String>,
    /// Entry names of the download menu.
    pub download_names: Vec<String>,
    /// `href` values of the download menu's entries.
    pub download_hrefs: Vec<Option<String>>,
    pub fandoms: Vec<String>,
    pub relationships: Vec<String>,
    pub characters: Vec<String>,
    pub additional_tags: Vec<String>,
    pub series: Vec<SeriesEntry>,
}

pub struct WorkPageView {
    pub titles: Seq<Seq<char>>,
    pub authors: Seq<Seq<char>>,
    pub download_names: Seq<Seq<char>>,
    pub download_hrefs: Seq<Option<Seq<char>>>,
    pub fandoms: Seq<Seq<char>>,
    pub relationships: Seq<Seq<char>>,
    pub characters: Seq<Seq<char>>,
    pub additional_tags: Seq<Seq<char>>,
    pub series: Seq<SeriesEntryView>,
}

impl View for WorkPage {
    type V = WorkPageView;

    open spec fn view(&self) -> WorkPageView {
        WorkPageView {
            titles: strs(self.titles@),
            authors: strs(self.authors@),
            download_names: strs(self.download_names@),
            download_hrefs: opt_strs(self.download_hrefs@),
            fandoms: strs(self.fandoms@),
            relationships: strs(self.relationships@),
            characters: strs(self.characters@),
            additional_tags: strs(self.additional_tags@),
            series: entry_views(self.series@),
        }
    }
}

/// A work's blurb on a series listing, as the queries read it.
pub struct Blurb {
    /// Texts of the heading links: the title, then the author.
    pub headings: Vec<String>,
    /// `href` values of the heading links.
    pub heading_hrefs: Vec<Option<String>>,
    pub fandoms: Vec<String>,
    pub relationships: Vec<String>,
    pub characters: Vec<String>,
    pub additional_tags: Vec<String>,
    pub series: Vec<SeriesEntry>,
}

pub struct BlurbView {
    pub headings: Seq<Seq<char>>,
    pub heading_hrefs: Seq<Option<Seq<char>>>,
    pub fandoms: Seq<Seq<char>>,
    pub relationships: Seq<Seq<char>>,
    pub characters: Seq<Seq<char>>,
    pub additional_tags: Seq<Seq<char>>,
    pub series: Seq<SeriesEntryView>,
}

impl View for Blurb {
    type V = BlurbView;

    open spec fn view(&self) -> BlurbView {
        BlurbView {
            headings: strs(self.headings@),
            heading_hrefs: opt_strs(self.heading_hrefs@),
            fandoms: strs(self.fandoms@),
            relationships: strs(self.relationships@),
            characters: strs(self.characters@),
            additional_tags: strs(self.additional_tags@),
            series: entry_views(self.series@),
        }
    }
}

/// A work of the archive.
///
/// `filtered_fandom` is the filing label of `fandoms` under the tables the
/// work was built with.
#[derive(Debug)]
pub struct Work {
    id: String,
    title: String,
    author: String,
    download_links: Vec<(DownloadFormat, String)>,
    fandoms: Vec<String>,
    pub filtered_fandom: String,
    relationships: Vec<String>,
    characters: Vec<String>,
    additional_tags: Vec<String>,
    series: Vec<SeriesLink>,
}

pub struct WorkView {
    pub id: Seq<char>,
    pub title: Seq<char>,
    pub author: Seq<char>,
    pub download_links: Seq<(DownloadFormat, Seq<char>)>,
    pub fandoms: Seq<Seq<char>>,
    pub filtered_fandom: Seq<char>,
    pub relationships: Seq<Seq<char>>,
    pub characters: Seq<Seq<char>>,
    pub additional_tags: Seq<Seq<char>>,
    pub series: Seq<SeriesLinkView>,
}

impl View for Work {
    type V = WorkView;

    closed spec fn view(&self) -> WorkView {
        WorkView {
            id: self.id@,
            title: self.title@,
            author: self.author@,
            download_links: url_views(self.download_links@),
            fandoms: strs(self.fandoms@),
            filtered_fandom: self.filtered_fandom@,
            relationships: strs(self.relationships@),
            characters: strs(self.characters@),
            additional_tags: strs(self.additional_tags@),
            series: link_views(self.series@),
        }
    }
}

/// The rename table of a configuration.
pub open spec fn renames(c: &Config) -> Seq<(Seq<char>, Seq<char>)> {
    rename_table(c.fandom_map@)
}

/// The suppression table of a configuration.
pub open spec fn filters(c: &Config) -> Seq<(Seq<char>, Seq<Seq<char>>)> {
    filter_table(c.fandom_filter@)
}

/// The work that page `p` of work `id` shows, or `None` when a title, an
/// author, a download menu entry or a series entry is missing or does not
/// read.
pub open spec fn work_from_page(
    id: Seq<char>,
    p: WorkPageView,
    m: Seq<(Seq<char>, Seq<char>)>,
    f: Seq<(Seq<char>, Seq<Seq<char>>)>,
) -> Option<WorkView> {
    let menu = menu_links(p.download_names, p.download_hrefs, p.download_names.len());
    if p.titles.len() > 0 && p.authors.len() > 0 && menu is Some && page_links(p.series) is Some {
        Some(
            WorkView {
                id: id,
                title: trim(p.titles[0]),
                author: p.authors[0],
                download_links: menu->0,
                fandoms: p.fandoms,
                filtered_fandom: canonical_label(p.fandoms, m, f),
                relationships: p.relationships,
                characters: p.characters,
                additional_tags: p.additional_tags,
                series: page_links(p.series)->0,
            },
        )
    } else {
        None
    }
}

/// The work that blurb `b` on the listing of series `series_name` shows, or
/// `None` when its heading or a series entry is missing or does not read.
pub open spec fn work_from_blurb(
    b: BlurbView,
    series_name: Seq<char>,
    m: Seq<(Seq<char>, Seq<char>)>,
    f: Seq<(Seq<char>, Seq<Seq<char>>)>,
) -> Option<WorkView> {
    if b.headings.len() > 1 && b.heading_hrefs.len() > 0 && b.heading_hrefs[0] is Some && link_id(
        b.heading_hrefs[0]->0,
    ) is Some && blurb_links(b.series, series_name) is Some {
        let id = link_id(b.heading_hrefs[0]->0)->0;
        Some(
            WorkView {
                id: id,
                title: trim(b.headings[0]),
                author: b.headings[1],
                download_links: direct_links(id),
                fandoms: b.fandoms,
                filtered_fandom: canonical_label(b.fandoms, m, f),
                relationships: b.relationships,
                characters: b.characters,
                additional_tags: b.additional_tags,
                series: blurb_links(b.series, series_name)->0,
            },
        )
    } else {
        None
    }
}

/// No two download links of `t` are for the same format.
pub open spec fn formats_distinct(t: Seq<(DownloadFormat, Seq<char>)>) -> bool {
    forall|i: int, j: int| 0 <= i < j < t.len() ==> t[i].0 != t[j].0
}

/// No two links of `t` are to the same series.
pub open spec fn series_distinct(t: Seq<SeriesLinkView>) -> bool {
    forall|i: int, j: int| 0 <= i < j < t.len() ==> t[i].series_id != t[j].series_id
}

/// A work holds at most one download link per format and at most one link
/// per series.
pub open spec fn keys_distinct(w: WorkView) -> bool {
    formats_distinct(w.download_links) && series_distinct(w.series)
}

proof fn lemma_put_link_distinct(t: Seq<SeriesLinkView>, l: SeriesLinkView)
    requires
        series_distinct(t),
    ensures
        series_distinct(put_link(t, l)),
{
    let r = put_link(t, l);
    if exists|i: int| 0 <= i < t.len() && t[i].series_id == l.series_id {
        assert forall|i: int| 0 <= i < t.len() implies #[trigger] r[i].series_id == t[i].series_id by {}
    } else {
        assert forall|i: int, j: int| 0 <= i < j < r.len() implies r[i].series_id != r[j].series_id by {
            if j == t.len() {
                assert(!(t[i].series_id == l.series_id));
            }
        }
    }
}

proof fn lemma_put_url_distinct(t: Seq<(DownloadFormat, Seq<char>)>, f: DownloadFormat, u: Seq<char>)
    requires
        formats_distinct(t),
    ensures
        formats_distinct(put_url(t, f, u)),
{
    let r = put_url(t, f, u);
    if exists|i: int| 0 <= i < t.len() && t[i].0 == f {
        assert forall|i: int| 0 <= i < t.len() implies #[trigger] r[i].0 == t[i].0 by {}
    } else {
        assert forall|i: int, j: int| 0 <= i < j < r.len() implies r[i].0 != r[j].0 by {
            if j == t.len() {
                assert(!(t[i].0 == f));
            }
        }
    }
}

proof fn lemma_links_distinct(
    es: Seq<SeriesEntryView>,
    read: spec_fn(SeriesEntryView) -> Option<SeriesLinkView>,
)
    ensures
        links_from(es, read) matches Some(t) ==> series_distinct(t),
    decreases es.len(),
{
    if es.len() > 0 {
        lemma_links_distinct(es.drop_last(), read);
        if let (Some(t), Some(l)) = (links_from(es.drop_last(), read), read(es.last())) {
            lemma_put_link_distinct(t, l);
        }
    }
}

proof fn lemma_menu_links_distinct(names: Seq<Seq<char>>, hrefs: Seq<Option<Seq<char>>>, k: nat)
    ensures
        menu_links(names, hrefs, k) matches Some(t) ==> formats_distinct(t),
    decreases k,
{
    if k > 0 && k <= names.len() {
        lemma_menu_links_distinct(names, hrefs, (k - 1) as nat);
        let i = k - 1;
        if let Some(t) = menu_links(names, hrefs, (k - 1) as nat) {
            if i < hrefs.len() && hrefs[i] is Some && parse_format(names[i]) is Some {
                lemma_put_url_distinct(t, parse_format(names[i])->0, site_root() + hrefs[i]->0);
            }
        }
    }
}

/// A work read from its own page has distinct keys.
pub proof fn lemma_page_work_keys_distinct(
    id: Seq<char>,
    p: WorkPageView,
    m: Seq<(Seq<char>, Seq<char>)>,
    f: Seq<(Seq<char>, Seq<Seq<char>>)>,
)
    ensures
        work_from_page(id, p, m, f) matches Some(w) ==> keys_distinct(w),
{
    lemma_menu_links_distinct(p.download_names, p.download_hrefs, p.download_names.len());
    lemma_links_distinct(p.series, |e: SeriesEntryView| page_entry_link(e));
}

/// A work read from its blurb has distinct keys.
pub proof fn lemma_blurb_work_keys_distinct(
    b: BlurbView,
    series_name: Seq<char>,
    m: Seq<(Seq<char>, Seq<char>)>,
    f: Seq<(Seq<char>, Seq<Seq<char>>)>,
)
    ensures
        work_from_blurb(b, series_name, m, f) matches Some(w) ==> keys_distinct(w),
{
    lemma_links_distinct(b.series, |e: SeriesEntryView| blurb_entry_link(e, series_name));
    if b.heading_hrefs.len() > 0 && b.heading_hrefs[0] is Some && link_id(b.heading_hrefs[0]->0) is Some {
        let id = link_id(b.heading_hrefs[0]->0)->0;
        let t = direct_links(id);
        assert forall|i: int, j: int| 0 <= i < j < t.len() implies t[i].0 != t[j].0 by {
            assert(all_formats()[0] == DownloadFormat::AZW3);
            assert(all_formats()[1] == DownloadFormat::EPUB);
            assert(all_formats()[2] == DownloadFormat::MOBI);
            assert(all_formats()[3] == DownloadFormat::PDF);
            assert(all_formats()[4] == DownloadFormat::HTML);
        }
    }
}

pub open spec fn link_opt(r: Option<SeriesLink>) -> Option<SeriesLinkView> {
    match r {
        Some(l) => Some(l@),
        None => None,
    }
}

fn series_chars() -> (r: Vec<char>)
    ensures
        r@ == series_word(),
{
    proof {
        reveal_strlit("series");
    }
    let r = chars_of("series");
    assert(r@ =~= series_word());
    r
}

/// A series name as a heading or link shows it, without the word "series".
pub fn read_series_title(s: &String) -> (r: String)
    ensures
        r@ == series_title(s@),
{
    string_of(&words_without(&chars_of(s.as_str()), &series_chars()))
}

/// The identifier in a link such as "/works/123".
fn read_link_id(href: &String) -> (r: Option<String>)
    ensures
        match r {
            Some(x) => link_id(href@) == Some(x@),
            None => link_id(href@) is None,
        },
{
    segment_at(href.as_str(), 2)
}

fn read_page_entry(e: &SeriesEntry) -> (r: Option<SeriesLink>)
    ensures
        link_opt(r) == page_entry_link(e@),
{
    if e.texts.len() == 0 {
        return None;
    }
    assert(e@.texts[0] == e.texts@[0]@);
    let ws = split_words(&chars_of(e.texts[0].as_str()));
    if ws.len() < 2 {
        return None;
    }
    let part = match parse_u8(&ws[1]) {
        Some(p) => p,
        None => {
            return None;
        },
    };
    if e.child_hrefs.len() == 0 {
        return None;
    }
    let href = match &e.child_hrefs[0] {
        Some(h) => h,
        None => {
            return None;
        },
    };
    assert(e@.child_hrefs[0] == Some(href@));
    let id = match read_link_id(href) {
        Some(x) => x,
        None => {
            return None;
        },
    };
    if e.child_texts.len() == 0 {
        return None;
    }
    assert(e@.child_texts[0] == e.child_texts@[0]@);
    let name = read_series_title(&e.child_texts[0]);
    Some(SeriesLink { series_id: id, series_name: name, part_in_series: part })
}

fn read_blurb_entry(e: &SeriesEntry, series_name: &String) -> (r: Option<SeriesLink>)
    ensures
        link_opt(r) == blurb_entry_link(e@, series_name@),
{
    if e.child_texts.len() == 0 {
        return None;
    }
    assert(e@.child_texts[0] == e.child_texts@[0]@);
    let part = match parse_u8(&chars_of(e.child_texts[0].as_str())) {
        Some(p) => p,
        None => {
            return None;
        },
    };
    if e.child_hrefs.len() < 2 {
        return None;
    }
    let href = match &e.child_hrefs[1] {
        Some(h) => h,
        None => {
            return None;
        },
    };
    assert(e@.child_hrefs[1] == Some(href@));
    let id = match read_link_id(href) {
        Some(x) => x,
        None => {
            return None;
        },
    };
    Some(SeriesLink { series_id: id, series_name: series_name.clone(), part_in_series: part })
}


fn put_series_link(t: &mut Vec<SeriesLink>, l: SeriesLink)
    ensures
        link_views(final(t)@) == put_link(link_views(old(t)@), l@),
{
    let ghost before = link_views(t@);
    let ghost lv = l@;
    let mut found = false;
    let mut i: usize = 0;
    while i < t.len()
        invariant
            lv == l@,
            t.len() == before.len(),
            i <= t.len(),
            forall|j: int|
                0 <= j < i ==> #[trigger] link_views(t@)[j] == (if before[j].series_id
                    == lv.series_id {
                    lv
                } else {
                    before[j]
                }),
            forall|j: int| i <= j < t.len() ==> #[trigger] link_views(t@)[j] == before[j],
            found == exists|j: int| 0 <= j < i && before[j].series_id == lv.series_id,
        decreases t.len() - i,
    {
        assert(link_views(t@)[i as int] == before[i as int]);
        if t[i].series_id == l.series_id {
            let copy = SeriesLink {
                series_id: l.series_id.clone(),
                series_name: l.series_name.clone(),
                part_in_series: l.part_in_series,
            };
            let ghost prev = t@;
            t.set(i, copy);
            assert(t@ == prev.update(i as int, copy));
            assert forall|j: int| 0 <= j < t.len() implies #[trigger] link_views(t@)[j] == (if j
                == i {
                lv
            } else {
                link_views(prev)[j]
            }) by {}
            assert(before[i as int].series_id == lv.series_id);
            found = true;
        }
        i = i + 1;
    }
    if found {
        assert(link_views(t@) =~= before.map_values(
            |x: SeriesLinkView| if x.series_id == lv.series_id { lv } else { x },
        ));
    } else {
        assert forall|j: int| 0 <= j < t.len() implies #[trigger] link_views(t@)[j] == before[j] by {
            assert(!(before[j].series_id == lv.series_id));
        }
        assert(link_views(t@) =~= before);
        let ghost prev = t@;
        t.push(l);
        assert(link_views(t@) =~= link_views(prev).push(lv));
    }
}

fn put_download_url(t: &mut Vec<(DownloadFormat, String)>, f: DownloadFormat, url: String)
    ensures
        url_views(final(t)@) == put_url(url_views(old(t)@), f, url@),
{
    let ghost before = url_views(t@);
    let ghost u = url@;
    let mut found = false;
    let mut i: usize = 0;
    while i < t.len()
        invariant
            u == url@,
            t.len() == before.len(),
            i <= t.len(),
            forall|j: int|
                0 <= j < i ==> #[trigger] url_views(t@)[j] == (if before[j].0 == f {
                    (f, u)
                } else {
                    before[j]
                }),
            forall|j: int| i <= j < t.len() ==> #[trigger] url_views(t@)[j] == before[j],
            found == exists|j: int| 0 <= j < i && before[j].0 == f,
        decreases t.len() - i,
    {
        assert(url_views(t@)[i as int] == before[i as int]);
        if t[i].0 == f {
            let ghost prev = t@;
            let copy = url.clone();
            t.set(i, (f, copy));
            assert(t@ == prev.update(i as int, (f, copy)));
            assert forall|j: int| 0 <= j < t.len() implies #[trigger] url_views(t@)[j] == (if j
                == i {
                (f, u)
            } else {
                url_views(prev)[j]
            }) by {}
            assert(before[i as int].0 == f);
            found = true;
        }
        i = i + 1;
    }
    if found {
        assert(url_views(t@) =~= before.map_values(
            |x: (DownloadFormat, Seq<char>)|
                if x.0 == f {
                    (f, u)
                } else {
                    x
                },
        ));
    } else {
        assert forall|j: int| 0 <= j < t.len() implies #[trigger] url_views(t@)[j] == before[j] by {
            assert(!(before[j].0 == f));
        }
        assert(url_views(t@) =~= before);
        let ghost prev = t@;
        t.push((f, url));
        assert(url_views(t@) =~= url_views(prev).push((f, u)));
    }
}

fn read_page_links(es: &Vec<SeriesEntry>) -> (r: Option<Vec<SeriesLink>>)
    ensures
        match r {
            Some(t) => page_links(entry_views(es@)) == Some(link_views(t@)),
            None => page_links(entry_views(es@)) is None,
        },
{
    let mut t: Vec<SeriesLink> = Vec::new();
    let mut i: usize = 0;
    assert(link_views(t@) =~= Seq::<SeriesLinkView>::empty());
    while i < es.len()
        invariant
            i <= es.len(),
            page_links(entry_views(es@).subrange(0, i as int)) == Some(link_views(t@)),
        decreases es.len() - i,
    {
        let ghost pre = entry_views(es@).subrange(0, i + 1);
        assert(pre.drop_last() =~= entry_views(es@).subrange(0, i as int));
        assert(pre.last() == es@[i as int]@);
        match read_page_entry(&es[i]) {
            Some(l) => put_series_link(&mut t, l),
            None => {
                assert(page_links(pre) is None);
                assert(entry_views(es@).subrange(0, es.len() as int) =~= entry_views(es@));
                proof {
                    lemma_links_fail_extends(
                        entry_views(es@),
                        |e: SeriesEntryView| page_entry_link(e),
                        i + 1,
                    );
                }
                return None;
            },
        }
        i = i + 1;
    }
    assert(entry_views(es@).subrange(0, es.len() as int) =~= entry_views(es@));
    Some(t)
}

/// Once a prefix of the entries fails to read, so does every longer prefix.
proof fn lemma_links_fail_extends(
    es: Seq<SeriesEntryView>,
    read: spec_fn(SeriesEntryView) -> Option<SeriesLinkView>,
    k: int,
)
    requires
        0 <= k <= es.len(),
        links_from(es.subrange(0, k), read) is None,
    ensures
        links_from(es, read) is None,
    decreases es.len() - k,
{
    if k < es.len() {
        assert(es.subrange(0, k + 1).drop_last() =~= es.subrange(0, k));
        lemma_links_fail_extends(es, read, k + 1);
    } else {
        assert(es.subrange(0, k) =~= es);
    }
}

fn read_blurb_links(es: &Vec<SeriesEntry>, series_name: &String) -> (r: Option<Vec<SeriesLink>>)
    ensures
        match r {
            Some(t) => blurb_links(entry_views(es@), series_name@) == Some(link_views(t@)),
            None => blurb_links(entry_views(es@), series_name@) is None,
        },
{
    let mut t: Vec<SeriesLink> = Vec::new();
    let mut i: usize = 0;
    assert(link_views(t@) =~= Seq::<SeriesLinkView>::empty());
    while i < es.len()
        invariant
            i <= es.len(),
            blurb_links(entry_views(es@).subrange(0, i as int), series_name@) == Some(
                link_views(t@),
            ),
        decreases es.len() - i,
    {
        let ghost pre = entry_views(es@).subrange(0, i + 1);
        assert(pre.drop_last() =~= entry_views(es@).subrange(0, i as int));
        assert(pre.last() == es@[i as int]@);
        match read_blurb_entry(&es[i], series_name) {
            Some(l) => put_series_link(&mut t, l),
            None => {
                assert(blurb_links(pre, series_name@) is None);
                proof {
                    lemma_links_fail_extends(
                        entry_views(es@),
                        |e: SeriesEntryView| blurb_entry_link(e, series_name@),
                        i + 1,
                    );
                }
                return None;
            },
        }
        i = i + 1;
    }
    assert(entry_views(es@).subrange(0, es.len() as int) =~= entry_views(es@));
    Some(t)
}

/// Once a prefix of the menu fails to read, so does the whole menu.
proof fn lemma_menu_fail_extends(names: Seq<Seq<char>>, hrefs: Seq<Option<Seq<char>>>, k: nat)
    requires
        k <= names.len(),
        menu_links(names, hrefs, k) is None,
    ensures
        menu_links(names, hrefs, names.len()) is None,
    decreases names.len() - k,
{
    if k < names.len() {
        lemma_menu_fail_extends(names, hrefs, k + 1);
    }
}

fn read_menu(names: &Vec<String>, hrefs: &Vec<Option<String>>) -> (r: Option<
    Vec<(DownloadFormat, String)>,
>)
    ensures
        match r {
            Some(t) => menu_links(strs(names@), opt_strs(hrefs@), names.len() as nat) == Some(
                url_views(t@),
            ),
            None => menu_links(strs(names@), opt_strs(hrefs@), names.len() as nat) is None,
        },
{
    let mut t: Vec<(DownloadFormat, String)> = Vec::new();
    let mut i: usize = 0;
    assert(url_views(t@) =~= Seq::<(DownloadFormat, Seq<char>)>::empty());
    while i < names.len()
        invariant
            i <= names.len(),
            menu_links(strs(names@), opt_strs(hrefs@), i as nat) == Some(url_views(t@)),
        decreases names.len() - i,
    {
        assert(strs(names@)[i as int] == names@[i as int]@);
        if i >= hrefs.len() {
            proof {
                lemma_menu_fail_extends(strs(names@), opt_strs(hrefs@), (i + 1) as nat);
            }
            return None;
        }
        let href = match &hrefs[i] {
            Some(h) => h,
            None => {
                proof {
                    lemma_menu_fail_extends(strs(names@), opt_strs(hrefs@), (i + 1) as nat);
                }
                return None;
            },
        };
        assert(opt_strs(hrefs@)[i as int] == Some(href@));
        let f = match DownloadFormat::parse(names[i].as_str()) {
            Some(f) => f,
            None => {
                proof {
                    lemma_menu_fail_extends(strs(names@), opt_strs(hrefs@), (i + 1) as nat);
                }
                return None;
            },
        };
        let url = String::from_str("https://archiveofourown.org").concat(href.as_str());
        put_download_url(&mut t, f, url);
        i = i + 1;
    }
    Some(t)
}

/// The direct download addresses of work `id`.
fn direct_urls(id: &String) -> (r: Vec<(DownloadFormat, String)>)
    ensures
        url_views(r@) == direct_links(id@),
{
    let all = DownloadFormat::all();
    let mut t: Vec<(DownloadFormat, String)> = Vec::new();
    let mut i: usize = 0;
    while i < all.len()
        invariant
            all@ == all_formats(),
            i <= all.len(),
            url_views(t@) == direct_links(id@).subrange(0, i as int),
        decreases all.len() - i,
    {
        let f = all[i];
        let url = String::from_str("https://download.archiveofourown.org/downloads/").concat(
            id.as_str(),
        ).concat("/work.").concat(f.extension().as_str());
        let ghost before = url_views(t@);
        t.push((f, url));
        assert(url_views(t@) =~= before.push((f, direct_url(id@, f))));
        assert(direct_links(id@).subrange(0, i + 1) =~= direct_links(id@).subrange(
            0,
            i as int,
        ).push((f, direct_url(id@, f))));
        i = i + 1;
    }
    assert(direct_links(id@).subrange(0, i as int) =~= direct_links(id@));
    t
}


impl Work {
    /// The work that page `page` of work `id` shows, with its filing label
    /// under the tables of `config`. Fails with `Extraction` when a title, an
    /// author, a download menu entry or a series entry is missing or does not
    /// read.
    pub fn from_page(id: &str, page: &WorkPage, config: &Config) -> (r: Result<Work, Ao3Error>)
        ensures
            r matches Ok(w) ==> keys_distinct(w@),
            match r {
                Ok(w) => work_from_page(id@, page@, renames(config), filters(config)) == Some(w@),
                Err(e) => e == Ao3Error::Extraction && work_from_page(
                    id@,
                    page@,
                    renames(config),
                    filters(config),
                ) is None,
            },
    {
        if page.titles.len() == 0 || page.authors.len() == 0 {
            return Err(Ao3Error::Extraction);
        }
        let download_links = match read_menu(&page.download_names, &page.download_hrefs) {
            Some(t) => t,
            None => {
                return Err(Ao3Error::Extraction);
            },
        };
        let series = match read_page_links(&page.series) {
            Some(t) => t,
            None => {
                return Err(Ao3Error::Extraction);
            },
        };
        assert(page@.titles[0] == page.titles@[0]@);
        assert(page@.authors[0] == page.authors@[0]@);
        proof {
            lemma_page_work_keys_distinct(id@, page@, renames(config), filters(config));
        }
        let w = Work {
            id: String::from_str(id),
            title: trim_string(page.titles[0].as_str()),
            author: page.authors[0].clone(),
            download_links,
            fandoms: clone_names(&page.fandoms),
            filtered_fandom: filter_fandoms(&page.fandoms, config),
            relationships: clone_names(&page.relationships),
            characters: clone_names(&page.characters),
            additional_tags: clone_names(&page.additional_tags),
            series,
        };
        Ok(w)
    }

    /// The work that blurb `blurb` on the listing of series `series_name`
    /// shows. Its download links are the direct addresses for every format.
    /// Fails with `Extraction` when the heading or a series entry is missing
    /// or does not read.
    pub fn from_blurb(blurb: &Blurb, series_name: &String, config: &Config) -> (r: Result<
        Work,
        Ao3Error,
    >)
        ensures
            r matches Ok(w) ==> keys_distinct(w@),
            match r {
                Ok(w) => work_from_blurb(blurb@, series_name@, renames(config), filters(config))
                    == Some(w@),
                Err(e) => e == Ao3Error::Extraction && work_from_blurb(
                    blurb@,
                    series_name@,
                    renames(config),
                    filters(config),
                ) is None,
            },
    {
        if blurb.headings.len() < 2 || blurb.heading_hrefs.len() == 0 {
            return Err(Ao3Error::Extraction);
        }
        let href = match &blurb.heading_hrefs[0] {
            Some(h) => h,
            None => {
                return Err(Ao3Error::Extraction);
            },
        };
        assert(blurb@.heading_hrefs[0] == Some(href@));
        let id = match read_link_id(href) {
            Some(x) => x,
            None => {
                return Err(Ao3Error::Extraction);
            },
        };
        let series = match read_blurb_links(&blurb.series, series_name) {
            Some(t) => t,
            None => {
                return Err(Ao3Error::Extraction);
            },
        };
        assert(blurb@.headings[0] == blurb.headings@[0]@);
        assert(blurb@.headings[1] == blurb.headings@[1]@);
        let download_links = direct_urls(&id);
        proof {
            lemma_blurb_work_keys_distinct(blurb@, series_name@, renames(config), filters(config));
        }
        let w = Work {
            id,
            title: trim_string(blurb.headings[0].as_str()),
            author: blurb.headings[1].clone(),
            download_links,
            fandoms: clone_names(&blurb.fandoms),
            filtered_fandom: filter_fandoms(&blurb.fandoms, config),
            relationships: clone_names(&blurb.relationships),
            characters: clone_names(&blurb.characters),
            additional_tags: clone_names(&blurb.additional_tags),
            series,
        };
        Ok(w)
    }
}


/// A series entry read from the HTML `frag` of the entry element: `own`
/// selects the entry itself, `children` its child elements.
pub open spec fn entry_of(frag: Seq<char>, own: Seq<char>, children: Seq<char>) -> SeriesEntryView {
    SeriesEntryView {
        texts: selected_texts(frag, own),
        child_texts: selected_texts(frag, children),
        child_hrefs: selected_attrs(frag, children, "href"@),
    }
}

/// The entries that `sel` selects in `html`, each read as `entry_of` reads it.
pub open spec fn entries_of(html: Seq<char>, sel: Seq<char>, own: Seq<char>, children: Seq<char>) -> Seq<
    SeriesEntryView,
> {
    selected_html(html, sel).map_values(|fr: Seq<char>| entry_of(fr, own, children))
}

/// What the queries read from the HTML of a work's own page.
pub open spec fn page_of_html(html: Seq<char>) -> WorkPageView {
    WorkPageView {
        titles: selected_texts(html, "h2.title.heading"@),
        authors: selected_texts(html, "h3.byline.heading>a"@),
        download_names: selected_texts(html, "li.download>ul>li>a"@),
        download_hrefs: selected_attrs(html, "li.download>ul>li>a"@, "href"@),
        fandoms: selected_texts(html, "dd.fandom.tags>ul>li>a"@),
        relationships: selected_texts(html, "dd.relationship.tags>ul>li>a"@),
        characters: selected_texts(html, "dd.character.tags>ul>li>a"@),
        additional_tags: selected_texts(html, "dd.freeform.tags>ul>li>a"@),
        series: entries_of(
            html,
            "dd.series>span.series>span.position"@,
            "span.position"@,
            "span.position>*"@,
        ),
    }
}

/// What the queries read from the HTML of a work's blurb.
pub open spec fn blurb_of_html(html: Seq<char>) -> BlurbView {
    BlurbView {
        headings: selected_texts(html, "h4.heading>a"@),
        heading_hrefs: selected_attrs(html, "h4.heading>a"@, "href"@),
        fandoms: selected_texts(html, "h5.fandoms.heading>a.tag"@),
        relationships: selected_texts(html, "li.relationships>a.tag"@),
        characters: selected_texts(html, "li.characters>a.tag"@),
        additional_tags: selected_texts(html, "li.freeforms>a.tag"@),
        series: entries_of(html, "ul.series>li"@, "li"@, "li>*"@),
    }
}

fn read_entries(html: &str, sel: &str, own: &str, children: &str) -> (r: Vec<SeriesEntry>)
    ensures
        entry_views(r@) == entries_of(html@, sel@, own@, children@),
{
    let frags = select_html(html, sel);
    let ghost want = entries_of(html@, sel@, own@, children@);
    let mut r: Vec<SeriesEntry> = Vec::new();
    let mut i: usize = 0;
    while i < frags.len()
        invariant
            strs(frags@) == selected_html(html@, sel@),
            want == entries_of(html@, sel@, own@, children@),
            i <= frags.len(),
            entry_views(r@) == want.subrange(0, i as int),
        decreases frags.len() - i,
    {
        let frag = frags[i].as_str();
        assert(strs(frags@)[i as int] == frags@[i as int]@);
        let e = SeriesEntry {
            texts: select_texts(frag, own),
            child_texts: select_texts(frag, children),
            child_hrefs: select_attrs(frag, children, "href"),
        };
        let ghost before = entry_views(r@);
        r.push(e);
        assert(entry_views(r@) =~= before.push(e@));
        assert(want.subrange(0, i + 1) =~= want.subrange(0, i as int).push(e@));
        i = i + 1;
    }
    assert(want.subrange(0, i as int) =~= want);
    r
}

impl Work {
    /// Reads work `id` from the HTML of its own page, with its filing label
    /// under the tables of `config`.
    pub fn parse_work(id: &str, html: &str, config: &Config) -> (r: Result<Work, Ao3Error>)
        ensures
            r matches Ok(w) ==> keys_distinct(w@),
            match r {
                Ok(w) => work_from_page(id@, page_of_html(html@), renames(config), filters(config))
                    == Some(w@),
                Err(e) => e == Ao3Error::Extraction && work_from_page(
                    id@,
                    page_of_html(html@),
                    renames(config),
                    filters(config),
                ) is None,
            },
    {
        let page = WorkPage {
            titles: select_texts(html, "h2.title.heading"),
            authors: select_texts(html, "h3.byline.heading>a"),
            download_names: select_texts(html, "li.download>ul>li>a"),
            download_hrefs: select_attrs(html, "li.download>ul>li>a", "href"),
            fandoms: select_texts(html, "dd.fandom.tags>ul>li>a"),
            relationships: select_texts(html, "dd.relationship.tags>ul>li>a"),
            characters: select_texts(html, "dd.character.tags>ul>li>a"),
            additional_tags: select_texts(html, "dd.freeform.tags>ul>li>a"),
            series: read_entries(
                html,
                "dd.series>span.series>span.position",
                "span.position",
                "span.position>*",
            ),
        };
        assert(page@ == page_of_html(html@));
        Work::from_page(id, &page, config)
    }

    /// Reads a work from the HTML of its blurb on the listing of series
    /// `series_name`.
    pub fn parse_work_from_blurb(html: &str, series_name: &String, config: &Config) -> (r: Result<
        Work,
        Ao3Error,
    >)
        ensures
            r matches Ok(w) ==> keys_distinct(w@),
            match r {
                Ok(w) => work_from_blurb(
                    blurb_of_html(html@),
                    series_name@,
                    renames(config),
                    filters(config),
                ) == Some(w@),
                Err(e) => e == Ao3Error::Extraction && work_from_blurb(
                    blurb_of_html(html@),
                    series_name@,
                    renames(config),
                    filters(config),
                ) is None,
            },
    {
        let blurb = Blurb {
            headings: select_texts(html, "h4.heading>a"),
            heading_hrefs: select_attrs(html, "h4.heading>a", "href"),
            fandoms: select_texts(html, "h5.fandoms.heading>a.tag"),
            relationships: select_texts(html, "li.relationships>a.tag"),
            characters: select_texts(html, "li.characters>a.tag"),
            additional_tags: select_texts(html, "li.freeforms>a.tag"),
            series: read_entries(html, "ul.series>li", "li", "li>*"),
        };
        assert(blurb@ == blurb_of_html(html@));
        Work::from_blurb(&blurb, series_name, config)
    }
}


/// The first link of `t` to series `id`.
pub open spec fn find_link(t: Seq<SeriesLinkView>, id: Seq<char>) -> Option<SeriesLinkView>
    decreases t.len(),
{
    if t.len() == 0 {
        None
    } else if t[0].series_id == id {
        Some(t[0])
    } else {
        find_link(t.drop_first(), id)
    }
}

/// The first download address of `t` for format `f`.
pub open spec fn find_url(t: Seq<(DownloadFormat, Seq<char>)>, f: DownloadFormat) -> Option<Seq<char>>
    decreases t.len(),
{
    if t.len() == 0 {
        None
    } else if t[0].0 == f {
        Some(t[0].1)
    } else {
        find_url(t.drop_first(), f)
    }
}

/// The file name of work `w` in format `f`: "<title>.<ext>", or
/// "<part> - <title>.<ext>" when it is filed under series `series_id` and is
/// part of that series.
pub open spec fn filename_of(w: WorkView, f: DownloadFormat, series_id: Option<Seq<char>>) -> Seq<
    char,
> {
    let plain = w.title + "."@ + format_extension(f);
    match series_id {
        Some(sid) => match find_link(w.series, sid) {
            Some(l) => decimal(l.part_in_series as nat) + " - "@ + plain,
            None => plain,
        },
        None => plain,
    }
}

impl Work {
    pub fn id(&self) -> (r: &String)
        ensures
            r@ == self@.id,
    {
        &self.id
    }

    pub fn title(&self) -> (r: &String)
        ensures
            r@ == self@.title,
    {
        &self.title
    }

    pub fn author(&self) -> (r: String)
        ensures
            r@ == self@.author,
    {
        self.author.clone()
    }

    pub fn fandoms(&self) -> (r: Vec<String>)
        ensures
            strs(r@) == self@.fandoms,
    {
        clone_names(&self.fandoms)
    }

    pub fn filtered_fandom(&self) -> (r: &String)
        ensures
            r@ == self@.filtered_fandom,
    {
        &self.filtered_fandom
    }

    pub fn relationships(&self) -> (r: Vec<String>)
        ensures
            strs(r@) == self@.relationships,
    {
        clone_names(&self.relationships)
    }

    pub fn characters(&self) -> (r: Vec<String>)
        ensures
            strs(r@) == self@.characters,
    {
        clone_names(&self.characters)
    }

    pub fn additional_tags(&self) -> (r: Vec<String>)
        ensures
            strs(r@) == self@.additional_tags,
    {
        clone_names(&self.additional_tags)
    }

    /// The number of series the work belongs to.
    pub fn series_count(&self) -> (r: usize)
        ensures
            r == self@.series.len(),
    {
        self.series.len()
    }

    /// The work's link to series `series_id`, if it belongs to that series.
    pub fn get_series_link(&self, series_id: &String) -> (r: Option<&SeriesLink>)
        ensures
            match r {
                Some(l) => find_link(self@.series, series_id@) == Some(l@),
                None => find_link(self@.series, series_id@) is None,
            },
    {
        let ghost t = self@.series;
        let mut i: usize = 0;
        assert(t.subrange(0, t.len() as int) =~= t);
        while i < self.series.len()
            invariant
                t == self@.series,
                t == link_views(self.series@),
                i <= self.series.len(),
                find_link(t, series_id@) == find_link(
                    t.subrange(i as int, self.series.len() as int),
                    series_id@,
                ),
            decreases self.series.len() - i,
        {
            let ghost rest = t.subrange(i as int, self.series.len() as int);
            assert(rest.drop_first() =~= t.subrange(i + 1, self.series.len() as int));
            assert(rest[0] == self.series@[i as int]@);
            if self.series[i].series_id == *series_id {
                return Some(&self.series[i]);
            }
            i = i + 1;
        }
        None
    }

    /// The address from which the work can be downloaded in format `format`.
    pub fn download_link(&self, format: DownloadFormat) -> (r: Option<&String>)
        ensures
            match r {
                Some(u) => find_url(self@.download_links, format) == Some(u@),
                None => find_url(self@.download_links, format) is None,
            },
    {
        let ghost t = self@.download_links;
        let mut i: usize = 0;
        assert(t.subrange(0, t.len() as int) =~= t);
        while i < self.download_links.len()
            invariant
                t == self@.download_links,
                t == url_views(self.download_links@),
                i <= self.download_links.len(),
                find_url(t, format) == find_url(
                    t.subrange(i as int, self.download_links.len() as int),
                    format,
                ),
            decreases self.download_links.len() - i,
        {
            let ghost rest = t.subrange(i as int, self.download_links.len() as int);
            assert(rest.drop_first() =~= t.subrange(i + 1, self.download_links.len() as int));
            assert(rest[0] == (self.download_links@[i as int].0, self.download_links@[i as int].1@));
            if self.download_links[i].0 == format {
                return Some(&self.download_links[i].1);
            }
            i = i + 1;
        }
        None
    }

    /// The name of the work's file in format `format`; filed under series
    /// `series_id`, the name starts with the work's part in that series.
    pub fn get_filename(&self, format: DownloadFormat, series_id: Option<&String>) -> (r: String)
        ensures
            r@ == filename_of(
                self@,
                format,
                match series_id {
                    Some(s) => Some(s@),
                    None => None,
                },
            ),
    {
        let plain = self.title.clone().concat(".").concat(format.extension().as_str());
        match series_id {
            Some(sid) => match self.get_series_link(sid) {
                Some(l) => string_of(&decimal_chars(l.part_in_series as u64)).concat(" - ").concat(
                    plain.as_str(),
                ),
                None => plain,
            },
            None => plain,
        }
    }
}

} // verus!
