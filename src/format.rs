//! The file formats in which the archive offers a work.

use vstd::prelude::*;

use crate::text::chars_of;

verus! {

/// A file format of a downloadable work.
#[derive(Clone, Copy, Debug, PartialEq, Eq, Structural, Hash)]
pub enum DownloadFormat {
    AZW3,
    EPUB,
    MOBI,
    PDF,
    HTML,
}

/// The name of a format as the archive's download menu shows it.
pub open spec fn format_name(f: DownloadFormat) -> Seq<char> {
    match f {
        DownloadFormat::AZW3 => seq!['A', 'Z', 'W', '3'],
        DownloadFormat::EPUB => seq!['E', 'P', 'U', 'B'],
        DownloadFormat::MOBI => seq!['M', 'O', 'B', 'I'],
        DownloadFormat::PDF => seq!['P', 'D', 'F'],
        DownloadFormat::HTML => seq!['H', 'T', 'M', 'L'],
    }
}

/// The lowercase name of a format, used in download URLs and file names.
pub open spec fn format_extension(f: DownloadFormat) -> Seq<char> {
    match f {
        DownloadFormat::AZW3 => seq!['a', 'z', 'w', '3'],
        DownloadFormat::EPUB => seq!['e', 'p', 'u', 'b'],
        DownloadFormat::MOBI => seq!['m', 'o', 'b', 'i'],
        DownloadFormat::PDF => seq!['p', 'd', 'f'],
        DownloadFormat::HTML => seq!['h', 't', 'm', 'l'],
    }
}

/// Every format, in declaration order.
pub open spec fn all_formats() -> Seq<DownloadFormat> {
    seq![
        DownloadFormat::AZW3,
        DownloadFormat::EPUB,
        DownloadFormat::MOBI,
        DownloadFormat::PDF,
        DownloadFormat::HTML,
    ]
}

/// The code of `c` with ASCII upper-case letters mapped to lower case.
pub open spec fn fold_case(c: char) -> u32 {
    let u = c as u32;
    if 0x41 <= u <= 0x5A {
        (u + 32) as u32
    } else {
        u
    }
}

/// `a` and `b` are equal up to the case of ASCII letters.
pub open spec fn eq_ignore_case(a: Seq<char>, b: Seq<char>) -> bool {
    a.len() == b.len() && forall|i: int| 0 <= i < a.len() ==> fold_case(a[i]) == fold_case(b[i])
}

/// The format that `s` names, ignoring the case of letters.
pub open spec fn parse_format(s: Seq<char>) -> Option<DownloadFormat> {
    if eq_ignore_case(s, format_extension(DownloadFormat::AZW3)) {
        Some(DownloadFormat::AZW3)
    } else if eq_ignore_case(s, format_extension(DownloadFormat::EPUB)) {
        Some(DownloadFormat::EPUB)
    } else if eq_ignore_case(s, format_extension(DownloadFormat::MOBI)) {
        Some(DownloadFormat::MOBI)
    } else if eq_ignore_case(s, format_extension(DownloadFormat::PDF)) {
        Some(DownloadFormat::PDF)
    } else if eq_ignore_case(s, format_extension(DownloadFormat::HTML)) {
        Some(DownloadFormat::HTML)
    } else {
        None
    }
}

fn fold_char(c: char) -> (r: u32)
    ensures
        r == fold_case(c),
{
    let u = c as u32;
    if 0x41 <= u && u <= 0x5A {
        u + 32
    } else {
        u
    }
}

fn same_ignoring_case(a: &Vec<char>, b: &Vec<char>) -> (r: bool)
    ensures
        r == eq_ignore_case(a@, b@),
{
    if a.len() != b.len() {
        return false;
    }
    let mut i: usize = 0;
    while i < a.len()
        invariant
            a.len() == b.len(),
            i <= a.len(),
            forall|j: int| 0 <= j < i ==> fold_case(a@[j]) == fold_case(b@[j]),
        decreases a.len() - i,
    {
        if fold_char(a[i]) != fold_char(b[i]) {
            return false;
        }
        i = i + 1;
    }
    true
}

impl DownloadFormat {
    /// The menu name of the format ("EPUB").
    pub fn to_string(&self) -> (r: String)
        ensures
            r@ == format_name(*self),
    {
        let s = match self {
            DownloadFormat::AZW3 => "AZW3",
            DownloadFormat::EPUB => "EPUB",
            DownloadFormat::MOBI => "MOBI",
            DownloadFormat::PDF => "PDF",
            DownloadFormat::HTML => "HTML",
        };
        proof {
            reveal_strlit("AZW3");
            reveal_strlit("EPUB");
            reveal_strlit("MOBI");
            reveal_strlit("PDF");
            reveal_strlit("HTML");
        }
        let r = String::from_str(s);
        assert(r@ =~= format_name(*self));
        r
    }

    /// The lowercase name of the format ("epub").
    pub fn extension(&self) -> (r: String)
        ensures
            r@ == format_extension(*self),
    {
        let s = match self {
            DownloadFormat::AZW3 => "azw3",
            DownloadFormat::EPUB => "epub",
            DownloadFormat::MOBI => "mobi",
            DownloadFormat::PDF => "pdf",
            DownloadFormat::HTML => "html",
        };
        proof {
            reveal_strlit("azw3");
            reveal_strlit("epub");
            reveal_strlit("mobi");
            reveal_strlit("pdf");
            reveal_strlit("html");
        }
        let r = String::from_str(s);
        assert(r@ =~= format_extension(*self));
        r
    }

    /// The format that `s` names, in any letter case ("EPUB", "epub").
    pub fn parse(s: &str) -> (r: Option<DownloadFormat>)
        ensures
            r == parse_format(s@),
    {
        let c = chars_of(s);
        let all = DownloadFormat::all();
        let mut i: usize = 0;
        while i < all.len()
            invariant
                all@ == all_formats(),
                c@ == s@,
                i <= all.len(),
                forall|j: int|
                    0 <= j < i ==> !eq_ignore_case(s@, #[trigger] format_extension(all@[j])),
            decreases all.len() - i,
        {
            let e = all[i].extension();
            if same_ignoring_case(&c, &chars_of(e.as_str())) {
                return Some(all[i]);
            }
            i = i + 1;
        }
        None
    }

    /// Every format, in declaration order.
    pub fn all() -> (r: Vec<DownloadFormat>)
        ensures
            r@ == all_formats(),
    {
        let r = vec![
            DownloadFormat::AZW3,
            DownloadFormat::EPUB,
            DownloadFormat::MOBI,
            DownloadFormat::PDF,
            DownloadFormat::HTML,
        ];
        assert(r@ =~= all_formats());
        r
    }
}

/// Reading back what a format renders to gives that format, both for the
/// lowercase name and for the menu name.
pub proof fn lemma_format_round_trip(f: DownloadFormat)
    ensures
        parse_format(format_extension(f)) == Some(f),
        parse_format(format_name(f)) == Some(f),
{
    let e = format_extension(f);
    let n = format_name(f);
    assert(eq_ignore_case(e, e));
    assert(eq_ignore_case(n, e));
    let others = all_formats();
    assert forall|j: int| 0 <= j < 5 && others[j] != f implies !eq_ignore_case(
        e,
        #[trigger] format_extension(others[j]),
    ) && !eq_ignore_case(n, format_extension(others[j])) by {
        let o = format_extension(others[j]);
        if e.len() == o.len() {
            assert(fold_case(e[0]) != fold_case(o[0]) || fold_case(e[1]) != fold_case(o[1]));
        }
    }
    assert(others[0] == DownloadFormat::AZW3);
    assert(others[1] == DownloadFormat::EPUB);
    assert(others[2] == DownloadFormat::MOBI);
    assert(others[3] == DownloadFormat::PDF);
    assert(others[4] == DownloadFormat::HTML);
}

} // verus!
