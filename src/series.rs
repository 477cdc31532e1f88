//! A series: its listing's own fields and the works that its listing pages
//! show, with the authors and fandoms gathered from them.

use vstd::prelude::*;

use crate::canon::{canonical_label, filter_fandoms};
use crate::config::Config;
use crate::error::Ao3Error;
use crate::names::{clone_names, insert_name, strs};
use crate::scrape::{select_html, select_texts, selected_html, selected_texts};
use crate::text::{
    chars_of, parse_u32, parse_unsigned, remove_separators, string_of, strip_separators, trim,
    trim_chars,
};
use crate::work::{
    blurb_of_html, filters, read_series_title, renames, series_title, work_from_blurb, Work,
    WorkView,
};

verus! {

/// The number of listing pages that a pagination widget of `items` items
/// stands for: the widget shows each page twice and two more items, and no
/// widget means one page.
pub open spec fn page_count(items: nat) -> nat {
    if items == 0 {
        1
    } else if items / 2 >= 3 {
        (items / 2 - 2) as nat
    } else {
        1
    }
}

/// The number of listing pages for a pagination widget of `items` items.
pub fn num_series_pages(items: usize) -> (r: usize)
    ensures
        r == page_count(items as nat),
        r >= 1,
{
    if items == 0 {
        1
    } else if items / 2 >= 3 {
        items / 2 - 2
    } else {
        1
    }
}

/// The number of listing pages of a series, read from the HTML of its first
/// listing page.
pub fn series_page_count(html: &str) -> (r: usize)
    ensures
        r == page_count(selected_texts(html@, "ol.pagination.actions>li"@).len()),
{
    let items = select_texts(html, "ol.pagination.actions>li");
    num_series_pages(items.len())
}

/// The listing pages to fetch after the first one, in order: 2 through the
/// page count that the first page's pagination widget stands for.
pub fn pages_to_fetch(first_page: &str) -> (r: Vec<usize>)
    ensures
        r@.len() + 1 == page_count(selected_texts(first_page@, "ol.pagination.actions>li"@).len()),
        forall|i: int| 0 <= i < r@.len() ==> #[trigger] r@[i] == i + 2,
{
    let count = series_page_count(first_page);
    let mut r: Vec<usize> = Vec::new();
    let mut i: usize = 0;
    while i + 1 < count
        invariant
            count >= 1,
            i + 1 <= count,
            r@.len() == i,
            forall|k: int| 0 <= k < r@.len() ==> #[trigger] r@[k] == k + 2,
        decreases count - i,
    {
        r.push(i + 2);
        i = i + 1;
    }
    r
}

/// The series-level fields of the first listing page, as the queries read
/// them.
pub struct SeriesHeader {
    pub headings: Vec<String>,
    pub creators: Vec<String>,
    /// The texts of the meta list's values: creator, begun, updated, ...
    pub meta: Vec<String>,
    pub descriptions: Vec<String>,
    pub words: Vec<String>,
    pub works: Vec<String>,
    /// The texts of the stats list's values; the third tells completion.
    pub stats: Vec<String>,
    pub bookmarks: Vec<String>,
}

pub struct SeriesHeaderView {
    pub headings: Seq<Seq<char>>,
    pub creators: Seq<Seq<char>>,
    pub meta: Seq<Seq<char>>,
    pub descriptions: Seq<Seq<char>>,
    pub words: Seq<Seq<char>>,
    pub works: Seq<Seq<char>>,
    pub stats: Seq<Seq<char>>,
    pub bookmarks: Seq<Seq<char>>,
}

impl View for SeriesHeader {
    type V = SeriesHeaderView;

    open spec fn view(&self) -> SeriesHeaderView {
        SeriesHeaderView {
            headings: strs(self.headings@),
            creators: strs(self.creators@),
            meta: strs(self.meta@),
            descriptions: strs(self.descriptions@),
            words: strs(self.words@),
            works: strs(self.works@),
            stats: strs(self.stats@),
            bookmarks: strs(self.bookmarks@),
        }
    }
}

/// What the queries read from the HTML of a series's first listing page.
pub open spec fn header_of_html(html: Seq<char>) -> SeriesHeaderView {
    SeriesHeaderView {
        headings: selected_texts(html, "h2.heading"@),
        creators: selected_texts(html, "dl.series.meta.group>dd>a"@),
        meta: selected_texts(html, "dl.series.meta.group>dd"@),
        descriptions: selected_texts(html, "blockquote.userstuff>p"@),
        words: selected_texts(html, "dd.words"@),
        works: selected_texts(html, "dd.works"@),
        stats: selected_texts(html, "dl.stats>dd"@),
        bookmarks: selected_texts(html, "dd.bookmarks>a"@),
    }
}

/// A count as the listing shows it, with ',' and '.' as digit group marks.
pub open spec fn count_of(s: Seq<char>) -> Option<nat> {
    parse_unsigned(strip_separators(s), u32::MAX as nat)
}

/// The header fields are all there and the counts read.
pub open spec fn header_reads(h: SeriesHeaderView) -> bool {
    &&& h.headings.len() > 0
    &&& h.creators.len() > 0
    &&& h.meta.len() > 2
    &&& h.descriptions.len() > 0
    &&& h.words.len() > 0 && count_of(h.words[0]) is Some
    &&& h.works.len() > 0 && count_of(h.works[0]) is Some
    &&& h.stats.len() > 2
    &&& h.bookmarks.len() > 0 && count_of(trim(h.bookmarks[0])) is Some
}

/// `s` without repeats, each item where it first occurs.
pub open spec fn dedup(s: Seq<Seq<char>>) -> Seq<Seq<char>>
    decreases s.len(),
{
    if s.len() == 0 {
        s
    } else if dedup(s.drop_last()).contains(s.last()) {
        dedup(s.drop_last())
    } else {
        dedup(s.drop_last()).push(s.last())
    }
}

/// The raw fandom tags of `ws`, work after work.
pub open spec fn tags_of(ws: Seq<WorkView>) -> Seq<Seq<char>>
    decreases ws.len(),
{
    if ws.len() == 0 {
        Seq::empty()
    } else {
        tags_of(ws.drop_last()) + ws.last().fandoms
    }
}

/// The authors of `ws`, work after work.
pub open spec fn authors_of(ws: Seq<WorkView>) -> Seq<Seq<char>> {
    ws.map_values(|w: WorkView| w.author)
}

pub struct SeriesView {
    pub id: Seq<char>,
    pub title: Seq<char>,
    pub creator: Seq<char>,
    pub series_begun: Seq<char>,
    pub series_updated: Seq<char>,
    pub description: Seq<char>,
    pub num_words: u32,
    pub num_works: u32,
    pub is_completed: bool,
    pub num_bookmarks: u32,
    pub works: Seq<WorkView>,
    pub authors: Seq<Seq<char>>,
    pub fandoms: Seq<Seq<char>>,
    pub filtered_fandom: Seq<char>,
}

/// The series `id` with header `h` and works `ws`, or `None` when a header
/// field is missing or does not read. Its authors and fandoms gather those of
/// its works, and its label is that of all its works' raw fandom tags.
pub open spec fn series_from_parts(
    id: Seq<char>,
    h: SeriesHeaderView,
    ws: Seq<WorkView>,
    m: Seq<(Seq<char>, Seq<char>)>,
    f: Seq<(Seq<char>, Seq<Seq<char>>)>,
) -> Option<SeriesView> {
    if header_reads(h) {
        Some(
            SeriesView {
                id: id,
                title: series_title(h.headings[0]),
                creator: h.creators[0],
                series_begun: h.meta[1],
                series_updated: h.meta[2],
                description: h.descriptions[0],
                num_words: (count_of(h.words[0])->0) as u32,
                num_works: (count_of(h.works[0])->0) as u32,
                is_completed: h.stats[2] == seq!['Y', 'e', 's'],
                num_bookmarks: (count_of(trim(h.bookmarks[0]))->0) as u32,
                works: ws,
                authors: dedup(authors_of(ws)),
                fandoms: dedup(tags_of(ws)),
                filtered_fandom: canonical_label(dedup(tags_of(ws)), m, f),
            },
        )
    } else {
        None
    }
}

/// A series of the archive.
pub struct Series {
    pub id: String,
    pub title: String,
    creator: String,
    series_begun: String,
    series_updated: String,
    description: String,
    num_words: u32,
    num_works: u32,
    is_completed: bool,
    num_bookmarks: u32,
    pub works: Vec<Work>,
    authors: Vec<String>,
    fandoms: Vec<String>,
    pub filtered_fandom: String,
}

pub open spec fn work_views(ws: Seq<Work>) -> Seq<WorkView> {
    ws.map_values(|w: Work| w@)
}

impl View for Series {
    type V = SeriesView;

    closed spec fn view(&self) -> SeriesView {
        SeriesView {
            id: self.id@,
            title: self.title@,
            creator: self.creator@,
            series_begun: self.series_begun@,
            series_updated: self.series_updated@,
            description: self.description@,
            num_words: self.num_words,
            num_works: self.num_works,
            is_completed: self.is_completed,
            num_bookmarks: self.num_bookmarks,
            works: work_views(self.works@),
            authors: strs(self.authors@),
            fandoms: strs(self.fandoms@),
            filtered_fandom: self.filtered_fandom@,
        }
    }
}


/// The blurbs of the listing pages `pages`, page after page, in document
/// order.
pub open spec fn blurbs_of(pages: Seq<Seq<char>>) -> Seq<Seq<char>>
    decreases pages.len(),
{
    if pages.len() == 0 {
        Seq::empty()
    } else {
        blurbs_of(pages.drop_last()) + selected_html(pages.last(), "li.work.blurb"@)
    }
}

/// The works of the blurbs `blurbs` on the listing of series `name`, or
/// `None` when one of them does not read.
pub open spec fn works_from(
    blurbs: Seq<Seq<char>>,
    name: Seq<char>,
    m: Seq<(Seq<char>, Seq<char>)>,
    f: Seq<(Seq<char>, Seq<Seq<char>>)>,
) -> Option<Seq<WorkView>>
    decreases blurbs.len(),
{
    if blurbs.len() == 0 {
        Some(Seq::empty())
    } else {
        match (
            works_from(blurbs.drop_last(), name, m, f),
            work_from_blurb(blurb_of_html(blurbs.last()), name, m, f),
        ) {
            (Some(ws), Some(w)) => Some(ws.push(w)),
            _ => None,
        }
    }
}

/// The series `id` whose listing pages, first page first, are `pages`, or
/// `None` when there is no page or a field or a blurb does not read.
pub open spec fn series_from_pages(
    id: Seq<char>,
    pages: Seq<Seq<char>>,
    m: Seq<(Seq<char>, Seq<char>)>,
    f: Seq<(Seq<char>, Seq<Seq<char>>)>,
) -> Option<SeriesView> {
    if pages.len() == 0 {
        None
    } else {
        let h = header_of_html(pages[0]);
        if h.headings.len() == 0 {
            None
        } else {
            match works_from(blurbs_of(pages), series_title(h.headings[0]), m, f) {
                Some(ws) => series_from_parts(id, h, ws, m, f),
                None => None,
            }
        }
    }
}

proof fn lemma_works_fail_extends(
    blurbs: Seq<Seq<char>>,
    name: Seq<char>,
    m: Seq<(Seq<char>, Seq<char>)>,
    f: Seq<(Seq<char>, Seq<Seq<char>>)>,
    k: int,
)
    requires
        0 <= k <= blurbs.len(),
        works_from(blurbs.subrange(0, k), name, m, f) is None,
    ensures
        works_from(blurbs, name, m, f) is None,
    decreases blurbs.len() - k,
{
    if k < blurbs.len() {
        assert(blurbs.subrange(0, k + 1).drop_last() =~= blurbs.subrange(0, k));
        lemma_works_fail_extends(blurbs, name, m, f, k + 1);
    } else {
        assert(blurbs.subrange(0, k) =~= blurbs);
    }
}

fn read_count(s: &String) -> (r: Option<u32>)
    ensures
        match r {
            Some(v) => count_of(s@) == Some(v as nat),
            None => count_of(s@) is None,
        },
{
    parse_u32(&remove_separators(&chars_of(s.as_str())))
}

fn is_yes(s: &String) -> (r: bool)
    ensures
        r == (s@ == seq!['Y', 'e', 's']),
{
    proof {
        reveal_strlit("Yes");
    }
    let yes = String::from_str("Yes");
    assert(yes@ =~= seq!['Y', 'e', 's']);
    *s == yes
}

fn gather_authors(works: &Vec<Work>) -> (r: Vec<String>)
    ensures
        strs(r@) == dedup(authors_of(work_views(works@))),
{
    let ghost wv = work_views(works@);
    let mut r: Vec<String> = Vec::new();
    let mut i: usize = 0;
    assert(authors_of(wv).subrange(0, 0) =~= Seq::<Seq<char>>::empty());
    while i < works.len()
        invariant
            wv == work_views(works@),
            i <= works.len(),
            strs(r@) == dedup(authors_of(wv).subrange(0, i as int)),
        decreases works.len() - i,
    {
        let a = works[i].author();
        let ghost pre = authors_of(wv).subrange(0, i + 1);
        assert(pre.drop_last() =~= authors_of(wv).subrange(0, i as int));
        assert(pre.last() == a@);
        insert_name(&mut r, &a);
        i = i + 1;
    }
    assert(authors_of(wv).subrange(0, i as int) =~= authors_of(wv));
    r
}

fn gather_fandoms(works: &Vec<Work>) -> (r: Vec<String>)
    ensures
        strs(r@) == dedup(tags_of(work_views(works@))),
{
    let ghost wv = work_views(works@);
    let mut r: Vec<String> = Vec::new();
    let mut i: usize = 0;
    assert(wv.subrange(0, 0) =~= Seq::<WorkView>::empty());
    while i < works.len()
        invariant
            wv == work_views(works@),
            i <= works.len(),
            strs(r@) == dedup(tags_of(wv.subrange(0, i as int))),
        decreases works.len() - i,
    {
        let fs = works[i].fandoms();
        let ghost base = tags_of(wv.subrange(0, i as int));
        assert(base + strs(fs@).subrange(0, 0) =~= base);
        let mut j: usize = 0;
        while j < fs.len()
            invariant
                j <= fs.len(),
                strs(r@) == dedup(base + strs(fs@).subrange(0, j as int)),
            decreases fs.len() - j,
        {
            let ghost pre = base + strs(fs@).subrange(0, j + 1);
            assert(pre.drop_last() =~= base + strs(fs@).subrange(0, j as int));
            assert(pre.last() == fs@[j as int]@);
            insert_name(&mut r, &fs[j]);
            j = j + 1;
        }
        assert(wv.subrange(0, i + 1).drop_last() =~= wv.subrange(0, i as int));
        assert(strs(fs@).subrange(0, j as int) =~= wv[i as int].fandoms);
        i = i + 1;
    }
    assert(wv.subrange(0, i as int) =~= wv);
    r
}

impl Series {
    /// The series `id` with the header fields `header` and the works `works`
    /// of its listing, in listing order. Fails with `Extraction` when a
    /// header field is missing or a count does not read.
    pub fn from_listing(id: &str, header: &SeriesHeader, works: Vec<Work>, config: &Config) -> (r:
        Result<Series, Ao3Error>)
        ensures
            match r {
                Ok(s) => series_from_parts(
                    id@,
                    header@,
                    work_views(works@),
                    renames(config),
                    filters(config),
                ) == Some(s@),
                Err(e) => e == Ao3Error::Extraction && series_from_parts(
                    id@,
                    header@,
                    work_views(works@),
                    renames(config),
                    filters(config),
                ) is None,
            },
    {
        if header.headings.len() == 0 || header.creators.len() == 0 || header.meta.len() < 3
            || header.descriptions.len() == 0 || header.words.len() == 0 || header.works.len() == 0
            || header.stats.len() < 3 || header.bookmarks.len() == 0 {
            return Err(Ao3Error::Extraction);
        }
        assert(header@.words[0] == header.words@[0]@);
        assert(header@.works[0] == header.works@[0]@);
        assert(header@.bookmarks[0] == header.bookmarks@[0]@);
        assert(header@.headings[0] == header.headings@[0]@);
        assert(header@.stats[2] == header.stats@[2]@);
        let num_words = match read_count(&header.words[0]) {
            Some(v) => v,
            None => {
                return Err(Ao3Error::Extraction);
            },
        };
        let num_works = match read_count(&header.works[0]) {
            Some(v) => v,
            None => {
                return Err(Ao3Error::Extraction);
            },
        };
        let marks = string_of(&trim_chars(&chars_of(header.bookmarks[0].as_str())));
        let num_bookmarks = match read_count(&marks) {
            Some(v) => v,
            None => {
                return Err(Ao3Error::Extraction);
            },
        };
        let title = read_series_title(&header.headings[0]);
        let authors = gather_authors(&works);
        let fandoms = gather_fandoms(&works);
        let filtered_fandom = filter_fandoms(&fandoms, config);
        let is_completed = is_yes(&header.stats[2]);
        Ok(
            Series {
                id: String::from_str(id),
                title,
                creator: header.creators[0].clone(),
                series_begun: header.meta[1].clone(),
                series_updated: header.meta[2].clone(),
                description: header.descriptions[0].clone(),
                num_words,
                num_works,
                is_completed,
                num_bookmarks,
                works,
                authors,
                fandoms,
                filtered_fandom,
            },
        )
    }
}


/// The blurbs of all listing pages, page after page.
fn collect_blurbs(pages: &Vec<String>) -> (r: Vec<String>)
    ensures
        strs(r@) == blurbs_of(strs(pages@)),
{
    let ghost ps = strs(pages@);
    let mut all: Vec<String> = Vec::new();
    let mut p: usize = 0;
    while p < pages.len()
        invariant
            ps == strs(pages@),
            p <= pages.len(),
            strs(all@) == blurbs_of(ps.subrange(0, p as int)),
        decreases pages.len() - p,
    {
        assert(ps[p as int] == pages@[p as int]@);
        let frags = select_html(pages[p].as_str(), "li.work.blurb");
        let ghost base = strs(all@);
        let mut b: usize = 0;
        assert(base + strs(frags@).subrange(0, 0) =~= base);
        while b < frags.len()
            invariant
                b <= frags.len(),
                strs(all@) == base + strs(frags@).subrange(0, b as int),
            decreases frags.len() - b,
        {
            let ghost before = strs(all@);
            all.push(frags[b].clone());
            assert(strs(all@) =~= before.push(frags@[b as int]@));
            assert(strs(frags@).subrange(0, b + 1) =~= strs(frags@).subrange(0, b as int).push(
                frags@[b as int]@,
            ));
            b = b + 1;
        }
        assert(strs(frags@).subrange(0, b as int) =~= strs(frags@));
        assert(ps.subrange(0, p + 1).drop_last() =~= ps.subrange(0, p as int));
        p = p + 1;
    }
    assert(ps.subrange(0, p as int) =~= ps);
    all
}

impl Series {
    /// Reads series `id` from the HTML of its listing pages, first page first.
    ///
    /// The first page gives the series-level fields; every page gives blurbs,
    /// which become the series's works in listing order. Fails with
    /// `Extraction` when there is no page, or a field or a blurb does not
    /// read.
    pub fn parse_series(id: &str, pages: &Vec<String>, config: &Config) -> (r: Result<
        Series,
        Ao3Error,
    >)
        ensures
            match r {
                Ok(s) => series_from_pages(id@, strs(pages@), renames(config), filters(config))
                    == Some(s@),
                Err(e) => e == Ao3Error::Extraction && series_from_pages(
                    id@,
                    strs(pages@),
                    renames(config),
                    filters(config),
                ) is None,
            },
    {
        let ghost m = renames(config);
        let ghost f = filters(config);
        if pages.len() == 0 {
            return Err(Ao3Error::Extraction);
        }
        let first = pages[0].as_str();
        assert(strs(pages@)[0] == pages@[0]@);
        let header = SeriesHeader {
            headings: select_texts(first, "h2.heading"),
            creators: select_texts(first, "dl.series.meta.group>dd>a"),
            meta: select_texts(first, "dl.series.meta.group>dd"),
            descriptions: select_texts(first, "blockquote.userstuff>p"),
            words: select_texts(first, "dd.words"),
            works: select_texts(first, "dd.works"),
            stats: select_texts(first, "dl.stats>dd"),
            bookmarks: select_texts(first, "dd.bookmarks>a"),
        };
        assert(header@ == header_of_html(strs(pages@)[0]));
        if header.headings.len() == 0 {
            return Err(Ao3Error::Extraction);
        }
        assert(header@.headings[0] == header.headings@[0]@);
        let title = read_series_title(&header.headings[0]);
        let blurbs = collect_blurbs(pages);
        let ghost bs = strs(blurbs@);
        let mut works: Vec<Work> = Vec::new();
        let mut i: usize = 0;
        assert(bs.subrange(0, 0) =~= Seq::<Seq<char>>::empty());
        assert(work_views(works@) =~= Seq::<WorkView>::empty());
        while i < blurbs.len()
            invariant
                bs == strs(blurbs@),
                bs == blurbs_of(strs(pages@)),
                pages.len() > 0,
                header@ == header_of_html(strs(pages@)[0]),
                header.headings.len() > 0,
                title@ == series_title(header@.headings[0]),
                m == renames(config),
                f == filters(config),
                i <= blurbs.len(),
                works_from(bs.subrange(0, i as int), title@, m, f) == Some(work_views(works@)),
            decreases blurbs.len() - i,
        {
            assert(bs[i as int] == blurbs@[i as int]@);
            let ghost pre = bs.subrange(0, i + 1);
            assert(pre.drop_last() =~= bs.subrange(0, i as int));
            match Work::parse_work_from_blurb(blurbs[i].as_str(), &title, config) {
                Ok(w) => {
                    let ghost before = work_views(works@);
                    works.push(w);
                    assert(work_views(works@) =~= before.push(w@));
                },
                Err(e) => {
                    proof {
                        lemma_works_fail_extends(bs, title@, m, f, i + 1);
                    }
                    return Err(e);
                },
            }
            i = i + 1;
        }
        assert(bs.subrange(0, i as int) =~= bs);
        Series::from_listing(id, &header, works, config)
    }
}


impl Series {
    pub fn id(&self) -> (r: &String)
        ensures
            r@ == self@.id,
    {
        &self.id
    }

    pub fn title(&self) -> (r: &String)
        ensures
            r@ == self@.title,
    {
        &self.title
    }

    pub fn creator(&self) -> (r: &String)
        ensures
            r@ == self@.creator,
    {
        &self.creator
    }

    pub fn series_begun(&self) -> (r: &String)
        ensures
            r@ == self@.series_begun,
    {
        &self.series_begun
    }

    pub fn series_updated(&self) -> (r: &String)
        ensures
            r@ == self@.series_updated,
    {
        &self.series_updated
    }

    pub fn description(&self) -> (r: &String)
        ensures
            r@ == self@.description,
    {
        &self.description
    }

    pub fn num_words(&self) -> (r: u32)
        ensures
            r == self@.num_words,
    {
        self.num_words
    }

    pub fn num_works(&self) -> (r: u32)
        ensures
            r == self@.num_works,
    {
        self.num_works
    }

    pub fn is_completed(&self) -> (r: bool)
        ensures
            r == self@.is_completed,
    {
        self.is_completed
    }

    pub fn num_bookmarks(&self) -> (r: u32)
        ensures
            r == self@.num_bookmarks,
    {
        self.num_bookmarks
    }

    pub fn works(&self) -> (r: &Vec<Work>)
        ensures
            work_views(r@) == self@.works,
    {
        &self.works
    }

    pub fn authors(&self) -> (r: Vec<String>)
        ensures
            strs(r@) == self@.authors,
    {
        clone_names(&self.authors)
    }

    pub fn fandoms(&self) -> (r: Vec<String>)
        ensures
            strs(r@) == self@.fandoms,
    {
        clone_names(&self.fandoms)
    }

    pub fn filtered_fandom(&self) -> (r: &String)
        ensures
            r@ == self@.filtered_fandom,
    {
        &self.filtered_fandom
    }
}

} // verus!
