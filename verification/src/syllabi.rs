//! Syllabus files: which course and section a file belongs to, going by its
//! title, and the departments, seasons and years to look through.

use crate::department::{department_at, Department, DEPARTMENT_COUNT};
use crate::syllabus_data::{year_at, years_until, Season, Year};
use crate::text::{
    all_digit_chars, all_digits, chars_of, find, find_chars, is_digit, is_digit_char, lowered,
    lowered_chars, same_text, spells, split_chars, split_on, string_of, subvec, texts, trim,
    trim_bounds, views,
};
use vstd::prelude::*;

verus! {

// ---------------------------------------------------------------------------
// Titles
// ---------------------------------------------------------------------------

/// Whether `c` ends the part of a title that names the course: a space, a
/// point, an underscore or a colon.
pub open spec fn is_break(c: char) -> bool {
    c == ' ' || c == '.' || c == '_' || c == ':'
}

/// The number of characters at the start of `s` that are no digits.
pub open spec fn digit_index(s: Seq<char>) -> nat
    decreases s.len(),
{
    if s.len() == 0 || is_digit(s[0]) {
        0
    } else {
        1 + digit_index(s.drop_first())
    }
}

/// The number of characters at the start of `s` that are no breaks.
pub open spec fn break_index(s: Seq<char>) -> nat
    decreases s.len(),
{
    if s.len() == 0 || is_break(s[0]) {
        0
    } else {
        1 + break_index(s.drop_first())
    }
}

/// The number of bytes that `c` takes in UTF-8.
pub open spec fn char_bytes(c: char) -> nat {
    if (c as u32) < 0x80 {
        1
    } else if (c as u32) < 0x800 {
        2
    } else if (c as u32) < 0x10000 {
        3
    } else {
        4
    }
}

/// The number of bytes that `s` takes in UTF-8.
pub open spec fn byte_len(s: Seq<char>) -> nat
    decreases s.len(),
{
    if s.len() == 0 {
        0
    } else {
        byte_len(s.drop_last()) + char_bytes(s.last())
    }
}

/// The texts of `p` with a hyphen between each two.
pub open spec fn hyphenated(p: Seq<Seq<char>>) -> Seq<char>
    decreases p.len(),
{
    if p.len() == 0 {
        Seq::empty()
    } else if p.len() == 1 {
        p[0]
    } else {
        hyphenated(p.drop_last()) + seq!['-'] + p.last()
    }
}

/// The course number and the section that the hyphen-separated parts `p` of
/// a title stand for.
///
/// - One part is the number.
/// - Of two parts, the first is the number and the second the section where
///   the first is five bytes long; else the two make up the number.
/// - Of three, the first is the number where the second is `objectives` or
///   `syllabus` in any case.
/// - Else the first two make up the number and the rest the section.
pub open spec fn key_of_parts(p: Seq<Seq<char>>) -> (Seq<char>, Seq<char>) {
    if p.len() == 0 {
        ("unknown"@, Seq::empty())
    } else if p.len() == 1 {
        (p[0], Seq::empty())
    } else if p.len() == 2 {
        if byte_len(p[0]) == 5 {
            (p[0], p[1])
        } else {
            (p[0] + p[1], Seq::empty())
        }
    } else if p.len() == 3 && (lowered(p[1]) == "objectives"@ || lowered(p[1]) == "syllabus"@) {
        (p[0], Seq::empty())
    } else {
        (p[0] + p[1], hyphenated(p.skip(2)))
    }
}

/// The five digits that follow the first `S18 ` of `title`, where five
/// digits follow it.
pub open spec fn spring_2018_number(title: Seq<char>) -> Option<Seq<char>> {
    match find(title, "S18 "@) {
        Some(i) => {
            let after = title.skip(i + 4);
            if after.len() >= 5 && all_digits(after.take(5)) {
                Some(after.take(5))
            } else {
                None
            }
        },
        None => None,
    }
}

/// The course number and the section that `title` stands for.
///
/// Five digits after `S18 ` are the number, with no section. Otherwise the
/// title counts from its first digit up to the first break after it, and
/// the parts of that between hyphens decide. A title without a digit stands
/// for the number `unknown`.
pub open spec fn title_key(title: Seq<char>) -> (Seq<char>, Seq<char>) {
    match spring_2018_number(title) {
        Some(number) => (number, Seq::empty()),
        None => {
            let d = digit_index(title) as int;
            if d >= title.len() {
                ("unknown"@, Seq::empty())
            } else {
                let rest = title.skip(d);
                key_of_parts(split_on(rest.take(break_index(rest) as int), '-'))
            }
        },
    }
}

proof fn lemma_digit_index(s: Seq<char>, k: int)
    requires
        0 <= k <= s.len(),
        forall|j: int| 0 <= j < k ==> !is_digit(s[j]),
        k < s.len() ==> is_digit(s[k]),
    ensures
        digit_index(s) == k,
    decreases k,
{
    if k > 0 {
        let t = s.drop_first();
        assert forall|j: int| 0 <= j < k - 1 implies !is_digit(t[j]) by {
            assert(t[j] == s[j + 1]);
        }
        lemma_digit_index(t, k - 1);
    }
}

proof fn lemma_break_index(s: Seq<char>, k: int)
    requires
        0 <= k <= s.len(),
        forall|j: int| 0 <= j < k ==> !is_break(s[j]),
        k < s.len() ==> is_break(s[k]),
    ensures
        break_index(s) == k,
    decreases k,
{
    if k > 0 {
        let t = s.drop_first();
        assert forall|j: int| 0 <= j < k - 1 implies !is_break(t[j]) by {
            assert(t[j] == s[j + 1]);
        }
        lemma_break_index(t, k - 1);
    }
}

fn is_five_bytes(v: &Vec<char>) -> (r: bool)
    ensures
        r == (byte_len(v@) == 5),
{
    let mut total: u128 = 0;
    let mut i: usize = 0;
    assert(v@.take(0) =~= Seq::<char>::empty());
    while i < v.len()
        invariant
            i <= v.len(),
            total == byte_len(v@.take(i as int)),
            total <= 4 * i,
        decreases v.len() - i,
    {
        let n: u32 = v[i] as u32;
        let w: u128 = if n < 0x80 {
            1
        } else if n < 0x800 {
            2
        } else if n < 0x10000 {
            3
        } else {
            4
        };
        assert(v@.take(i + 1).drop_last() =~= v@.take(i as int));
        total += w;
        i += 1;
    }
    assert(v@.take(v@.len() as int) =~= v@);
    total == 5
}

fn join_hyphenated(p: &Vec<Vec<char>>, from: usize) -> (r: Vec<char>)
    requires
        from <= p@.len(),
    ensures
        r@ == hyphenated(views(p@).skip(from as int)),
{
    let ghost all = views(p@).skip(from as int);
    let mut out: Vec<char> = Vec::new();
    let mut i: usize = from;
    assert(all.take(0) =~= Seq::<Seq<char>>::empty());
    while i < p.len()
        invariant
            from <= i <= p.len(),
            all == views(p@).skip(from as int),
            out@ == hyphenated(all.take(i - from)),
        decreases p.len() - i,
    {
        proof {
            assert(all.take(i - from + 1).drop_last() =~= all.take(i - from));
            assert(all.take(i - from + 1).last() == p@[i as int]@);
            if i > from {
                assert(all.take(i - from + 1).len() >= 2);
            } else {
                assert(all.take(1)[0] == p@[i as int]@);
            }
        }
        if i > from {
            out.push('-');
        }
        let mut piece = subvec(&p[i], 0, p[i].len());
        assert(piece@ =~= p@[i as int]@);
        out.append(&mut piece);
        assert(out@ =~= hyphenated(all.take(i - from + 1)));
        i += 1;
    }
    assert(all.take(all.len() as int) =~= all);
    out
}

fn concat(a: &Vec<char>, b: &Vec<char>) -> (r: Vec<char>)
    ensures
        r@ == a@ + b@,
{
    let mut out = subvec(a, 0, a.len());
    let mut rest = subvec(b, 0, b.len());
    out.append(&mut rest);
    assert(out@ =~= a@ + b@);
    out
}

fn key_of_part_chars(p: &Vec<Vec<char>>) -> (r: (Vec<char>, Vec<char>))
    ensures
        (r.0@, r.1@) == key_of_parts(views(p@)),
{
    let ghost all = views(p@);
    assert(all.len() == p@.len());
    let n = p.len();
    if n == 0 {
        return (chars_of("unknown"), Vec::new());
    }
    assert(all[0] == p@[0]@);
    if n == 1 {
        return (subvec(&p[0], 0, p[0].len()), Vec::new());
    }
    assert(all[1] == p@[1]@);
    if n == 2 {
        if is_five_bytes(&p[0]) {
            return (subvec(&p[0], 0, p[0].len()), subvec(&p[1], 0, p[1].len()));
        } else {
            return (concat(&p[0], &p[1]), Vec::new());
        }
    }
    if n == 3 {
        let label = lowered_chars(&p[1]);
        if spells(&label, "objectives") || spells(&label, "syllabus") {
            return (subvec(&p[0], 0, p[0].len()), Vec::new());
        }
    }
    (concat(&p[0], &p[1]), join_hyphenated(p, 2))
}

fn spring_2018_chars(v: &Vec<char>) -> (r: Option<Vec<char>>)
    ensures
        (match r {
            Some(n) => Some(n@),
            None => None,
        }) == spring_2018_number(v@),
{
    let pat = chars_of("S18 ");
    proof {
        reveal_strlit("S18 ");
    }
    match find_chars(v, &pat) {
        Some(i) => {
            let n = v.len();
            let start = i + 4;
            assert(v@.skip(start as int).len() == n - start);
            if n - start < 5 {
                return None;
            }
            let five = subvec(v, start, start + 5);
            assert(five@ =~= v@.skip(start as int).take(5));
            if all_digit_chars(&five) {
                Some(five)
            } else {
                None
            }
        },
        None => None,
    }
}

/// The course number and the section that a title stands for, as
/// characters.
pub fn parse_title_chars(v: &Vec<char>) -> (r: (Vec<char>, Vec<char>))
    ensures
        (r.0@, r.1@) == title_key(v@),
{
    match spring_2018_chars(v) {
        Some(number) => {
            return (number, Vec::new());
        },
        None => {},
    }
    let n = v.len();
    let mut d: usize = 0;
    while d < n && !is_digit_char(v[d])
        invariant
            d <= n == v.len(),
            forall|j: int| 0 <= j < d ==> !is_digit(v@[j]),
        decreases n - d,
    {
        d += 1;
    }
    proof {
        lemma_digit_index(v@, d as int);
    }
    if d == n {
        return (chars_of("unknown"), Vec::new());
    }
    let mut e: usize = d;
    let ghost rest = v@.skip(d as int);
    while e < n && !(v[e] == ' ' || v[e] == '.' || v[e] == '_' || v[e] == ':')
        invariant
            d <= e <= n == v.len(),
            rest == v@.skip(d as int),
            forall|j: int| 0 <= j < e - d ==> !is_break(rest[j]),
        decreases n - e,
    {
        e += 1;
    }
    proof {
        lemma_break_index(rest, e - d);
    }
    let head = subvec(v, d, e);
    assert(head@ =~= rest.take(e - d));
    let parts = split_chars(&head, '-');
    key_of_part_chars(&parts)
}

/// The course number and the section that the title of a syllabus file
/// stands for, such as `15122` and `A` for `15122-A: Syllabus`.
pub fn parse_title(title: &str) -> (r: (String, String))
    ensures
        (r.0@, r.1@) == title_key(title@),
{
    let v = chars_of(title);
    let (number, section) = parse_title_chars(&v);
    (string_of(&number), string_of(&section))
}

// ---------------------------------------------------------------------------
// Files
// ---------------------------------------------------------------------------

/// A syllabus file: the course and section it belongs to, and where it is.
#[derive(Debug, Clone, PartialEq, Eq)]
pub struct FileWithUrl {
    pub season: Season,
    pub year: Year,
    pub number: String,
    pub section: String,
    pub url: String,
}

/// The mathematical value of a `FileWithUrl`.
pub struct FileWithUrlView {
    pub season: Season,
    pub year: Year,
    pub number: Seq<char>,
    pub section: Seq<char>,
    pub url: Seq<char>,
}

impl View for FileWithUrl {
    type V = FileWithUrlView;

    open spec fn view(&self) -> FileWithUrlView {
        FileWithUrlView {
            season: self.season,
            year: self.year,
            number: self.number@,
            section: self.section@,
            url: self.url@,
        }
    }
}

/// The views of a sequence of files.
pub open spec fn file_views(fs: Seq<FileWithUrl>) -> Seq<FileWithUrlView> {
    Seq::new(fs.len(), |i: int| fs[i]@)
}

/// The file at `url` with the title `title`, where the title names a course
/// and the address is not blank.
pub open spec fn file_of(url: Seq<char>, title: Seq<char>, season: Season, year: Year) -> Option<
    FileWithUrlView,
> {
    if title_key(title).0 != "unknown"@ && trim(url).len() > 0 {
        Some(
            FileWithUrlView {
                season,
                year,
                number: title_key(title).0,
                section: title_key(title).1,
                url,
            },
        )
    } else {
        None
    }
}

/// The files of the first `n` addresses and titles, in order.
pub open spec fn files_among(
    urls: Seq<Seq<char>>,
    titles: Seq<Seq<char>>,
    n: nat,
    season: Season,
    year: Year,
) -> Seq<FileWithUrlView>
    decreases n,
{
    if n == 0 {
        Seq::empty()
    } else {
        match file_of(urls[n - 1], titles[n - 1], season, year) {
            Some(f) => files_among(urls, titles, (n - 1) as nat, season, year).push(f),
            None => files_among(urls, titles, (n - 1) as nat, season, year),
        }
    }
}

/// The files that a list of addresses and a list of titles stand for: none
/// where the lists differ in length, else one for each address and the title
/// at its place, where that pair is a file.
pub open spec fn files_of(
    urls: Seq<Seq<char>>,
    titles: Seq<Seq<char>>,
    season: Season,
    year: Year,
) -> Seq<FileWithUrlView> {
    if urls.len() != titles.len() {
        Seq::empty()
    } else {
        files_among(urls, titles, urls.len(), season, year)
    }
}

/// The file with its address replaced by `url`, where `url` is not blank.
pub open spec fn relocated(file: FileWithUrlView, url: Seq<char>) -> Option<FileWithUrlView> {
    if trim(url).len() > 0 {
        Some(FileWithUrlView { url, ..file })
    } else {
        None
    }
}

fn is_blank(s: &str) -> (r: bool)
    ensures
        r == (trim(s@).len() == 0),
{
    let v = chars_of(s);
    let (lo, hi) = trim_bounds(&v);
    lo == hi
}

/// The syllabus files of a department for one season and year, from the
/// addresses and the titles that its page lists.
pub fn files_with_urls(urls: &Vec<String>, titles: &Vec<String>, season: Season, year: Year) -> (r:
    Vec<FileWithUrl>)
    ensures
        file_views(r@) == files_of(texts(urls@), texts(titles@), season, year),
{
    let mut out: Vec<FileWithUrl> = Vec::new();
    assert(file_views(out@) =~= Seq::<FileWithUrlView>::empty());
    if urls.len() != titles.len() {
        return out;
    }
    let ghost us = texts(urls@);
    let ghost ts = texts(titles@);
    let mut i: usize = 0;
    while i < urls.len()
        invariant
            i <= urls.len() == titles.len(),
            us == texts(urls@),
            ts == texts(titles@),
            file_views(out@) == files_among(us, ts, i as nat, season, year),
        decreases urls.len() - i,
    {
        let ghost before = file_views(out@);
        assert(us[i as int] == urls@[i as int]@);
        assert(ts[i as int] == titles@[i as int]@);
        let (number, section) = parse_title(titles[i].as_str());
        if !same_text(number.as_str(), "unknown") && !is_blank(urls[i].as_str()) {
            let file = FileWithUrl { season, year, number, section, url: urls[i].clone() };
            out.push(file);
            assert(file_views(out@) =~= before.push(file@));
        }
        i += 1;
    }
    out
}

/// The file at its final address, where there is one.
pub fn with_final_url(file: FileWithUrl, url: String) -> (r: Option<FileWithUrl>)
    ensures
        (match r {
            Some(f) => Some(f@),
            None => None,
        }) == relocated(file@, url@),
{
    if is_blank(url.as_str()) {
        None
    } else {
        let FileWithUrl { season, year, number, section, url: _ } = file;
        Some(FileWithUrl { season, year, number, section, url })
    }
}

/// What a syllabus is looked up by: year, season, course number and section.
pub type SyllabusKey = (Year, Season, Seq<char>, Seq<char>);

/// The key of a file.
pub open spec fn key_of(file: FileWithUrlView) -> SyllabusKey {
    (file.year, file.season, file.number, file.section)
}

/// The addresses of `files` by their keys; of two files with one key the
/// later counts.
pub open spec fn addresses(files: Seq<FileWithUrlView>) -> Map<SyllabusKey, Seq<char>>
    decreases files.len(),
{
    if files.len() == 0 {
        Map::empty()
    } else {
        addresses(files.drop_last()).insert(key_of(files.last()), files.last().url)
    }
}

/// The addresses of syllabus files by year, season, course number and
/// section.
#[derive(Debug, Clone)]
pub struct SyllabusMap {
    files: Vec<FileWithUrl>,
}

impl View for SyllabusMap {
    type V = Map<SyllabusKey, Seq<char>>;

    closed spec fn view(&self) -> Map<SyllabusKey, Seq<char>> {
        addresses(file_views(self.files@))
    }
}

impl SyllabusMap {
    /// A map without addresses.
    pub fn new() -> (r: SyllabusMap)
        ensures
            r@ == Map::<SyllabusKey, Seq<char>>::empty(),
    {
        let r = SyllabusMap { files: Vec::new() };
        assert(file_views(r.files@) =~= Seq::<FileWithUrlView>::empty());
        r
    }

    /// Puts the address of `file` in under its key, in place of any that was
    /// there.
    pub fn insert(&mut self, file: FileWithUrl)
        ensures
            final(self)@ == old(self)@.insert(key_of(file@), file.url@),
    {
        let ghost before = file_views(self.files@);
        self.files.push(file);
        proof {
            let after = file_views(self.files@);
            assert(after.drop_last() =~= before);
            assert(after.last() == file@);
        }
    }

    /// The address under the key, if there is one.
    pub fn get(&self, year: Year, season: Season, number: &str, section: &str) -> (r: Option<
        String,
    >)
        ensures
            (match r {
                Some(url) => Some(url@),
                None => None,
            }) == (if self@.contains_key((year, season, number@, section@)) {
                Some(self@[(year, season, number@, section@)])
            } else {
                None
            }),
    {
        let ghost all = file_views(self.files@);
        let ghost key = (year, season, number@, section@);
        let mut i: usize = self.files.len();
        assert(all.take(all.len() as int) =~= all);
        while i > 0
            invariant
                i <= self.files.len(),
                all == file_views(self.files@),
                key == (year, season, number@, section@),
                addresses(all).contains_key(key) == addresses(all.take(i as int)).contains_key(key),
                addresses(all).contains_key(key) ==> addresses(all)[key] == addresses(
                    all.take(i as int),
                )[key],
            decreases i,
        {
            let file = &self.files[i - 1];
            proof {
                assert(all.take(i as int).drop_last() =~= all.take(i - 1));
                assert(all.take(i as int).last() == file@);
            }
            if file.year.0 == year.0 && same_season(file.season, season) && same_text(
                file.number.as_str(),
                number,
            ) && same_text(file.section.as_str(), section) {
                return Some(file.url.clone());
            }
            i -= 1;
        }
        assert(all.take(0) =~= Seq::<FileWithUrlView>::empty());
        None
    }
}

fn same_season(a: Season, b: Season) -> (r: bool)
    ensures
        r == (a == b),
{
    match (a, b) {
        (Season::Fall, Season::Fall) => true,
        (Season::Spring, Season::Spring) => true,
        (Season::Summer1, Season::Summer1) => true,
        (Season::Summer2, Season::Summer2) => true,
        _ => false,
    }
}

/// The map of the addresses of `files`, put in in order.
pub fn syllabus_map(files: Vec<FileWithUrl>) -> (r: SyllabusMap)
    ensures
        r@ == addresses(file_views(files@)),
{
    let r = SyllabusMap { files };
    r
}

// ---------------------------------------------------------------------------
// Combinations
// ---------------------------------------------------------------------------

/// The season at the place `i`: fall, spring, first summer, second summer.
pub open spec fn season_at(i: int) -> Season {
    if i == 0 {
        Season::Fall
    } else if i == 1 {
        Season::Spring
    } else if i == 2 {
        Season::Summer1
    } else {
        Season::Summer2
    }
}

/// Every department with every season and every year of `years`: the years
/// run fastest, the departments slowest.
pub open spec fn combinations(years: Seq<Year>) -> Seq<(Department, Season, Year)> {
    Seq::new(
        (DEPARTMENT_COUNT * 4 * years.len()) as nat,
        |i: int|
            (
                department_at(i / (4 * (years.len() as int))),
                season_at(i / (years.len() as int) % 4),
                years[i % (years.len() as int)],
            ),
    )
}

/// Every department with every season and every year of `years`.
pub fn combine(years: &Vec<Year>) -> (r: Vec<(Department, Season, Year)>)
    ensures
        r@ == combinations(years@),
{
    let departments = Department::all();
    let seasons = Season::all();
    let count = years.len();
    let ghost y = count as int;
    let mut out: Vec<(Department, Season, Year)> = Vec::new();
    let mut d: usize = 0;
    while d < DEPARTMENT_COUNT
        invariant
            d <= DEPARTMENT_COUNT,
            y == count == years@.len(),
            departments@ == crate::department::departments(),
            seasons@ == seq![Season::Fall, Season::Spring, Season::Summer1, Season::Summer2],
            out@.len() == d * 4 * y,
            forall|i: int| 0 <= i < out@.len() ==> out@[i] == combinations(years@)[i],
        decreases DEPARTMENT_COUNT - d,
    {
        let mut s: usize = 0;
        while s < 4
            invariant
                d < DEPARTMENT_COUNT,
                s <= 4,
                y == count == years@.len(),
                departments@ == crate::department::departments(),
                seasons@ == seq![Season::Fall, Season::Spring, Season::Summer1, Season::Summer2],
                out@.len() == (d * 4 + s) * y,
                forall|i: int| 0 <= i < out@.len() ==> out@[i] == combinations(years@)[i],
            decreases 4 - s,
        {
            let mut k: usize = 0;
            while k < count
                invariant
                    d < DEPARTMENT_COUNT,
                    s < 4,
                    k <= count,
                    y == count == years@.len(),
                    departments@ == crate::department::departments(),
                    seasons@ == seq![
                        Season::Fall,
                        Season::Spring,
                        Season::Summer1,
                        Season::Summer2,
                    ],
                    out@.len() == (d * 4 + s) * y + k,
                    forall|i: int| 0 <= i < out@.len() ==> out@[i] == combinations(years@)[i],
                decreases count - k,
            {
                proof {
                    let i = (d * 4 + s) * y + k;
                    lemma_place(d as int, s as int, k as int, y);
                    assert(i < DEPARTMENT_COUNT * 4 * y) by (nonlinear_arith)
                        requires
                            i == (d * 4 + s) * y + k,
                            0 <= k < y,
                            0 <= s < 4,
                            0 <= d < DEPARTMENT_COUNT,
                    ;
                    assert(departments@[d as int] == department_at(d as int));
                    assert(seasons@[s as int] == season_at(s as int));
                }
                out.push((departments[d], seasons[s], years[k]));
                k += 1;
            }
            assert((d * 4 + s) * y + y == (d * 4 + (s + 1)) * y) by (nonlinear_arith);
            s += 1;
        }
        assert((d * 4 + 4) * y == (d + 1) * 4 * y) by (nonlinear_arith);
        d += 1;
    }
    assert(out@ =~= combinations(years@));
    out
}

/// The place `(d * 4 + s) * y + k` belongs to the department `d`, the season
/// `s` and the year `k`.
proof fn lemma_place(d: int, s: int, k: int, y: int)
    requires
        0 <= d,
        0 <= s < 4,
        0 <= k < y,
    ensures
        ((d * 4 + s) * y + k) / (4 * y) == d,
        ((d * 4 + s) * y + k) / y % 4 == s,
        ((d * 4 + s) * y + k) % y == k,
{
    let i = (d * 4 + s) * y + k;
    vstd::arithmetic::div_mod::lemma_fundamental_div_mod_converse(i, y, d * 4 + s, k);
    assert(i == d * (4 * y) + (s * y + k)) by (nonlinear_arith)
        requires
            i == (d * 4 + s) * y + k,
    ;
    assert(0 <= s * y + k < 4 * y) by (nonlinear_arith)
        requires
            0 <= s < 4,
            0 <= k < y,
    ;
    vstd::arithmetic::div_mod::lemma_fundamental_div_mod_converse(i, 4 * y, d, s * y + k);
    vstd::arithmetic::div_mod::lemma_fundamental_div_mod_converse(d * 4 + s, 4, d, s);
}

/// Every department with every season and every year from the first kept to
/// the current one; none where the clock gives no year. What the clock reads
/// is the clock's to say.
pub fn generate_combinations() -> (r: Vec<(Department, Season, Year)>)
    ensures
        exists|seconds: Option<u64>| r@ == combinations(years_until(year_at(seconds))),
{
    let years = Year::all();
    combine(&years)
}

} // verus!
