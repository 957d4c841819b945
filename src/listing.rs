//! Directory listings: the HTML index pages under which radar files are
//! published, read into one `RemoteFile` per table row.
//!
//! A listing is a table whose cells come in rows of three: the name (a link),
//! the time of last modification, and the size.

use vstd::prelude::*;
use vstd::string::*;
use chrono::{Datelike, NaiveDateTime, Timelike};
use select::document::Document;
use select::predicate::{Child, Name};
use crate::number::{decimal_number_in, is_decimal_number, is_digit};
use crate::text::{same_text, trim, trim_text};

verus! {

// ---------------------------------------------------------------------------
// Types
// ---------------------------------------------------------------------------

/// A calendar date and time of day in UTC, to the second.
#[derive(Copy, Clone, Debug, PartialEq, Eq, Structural)]
pub struct UtcDateTime {
    pub year: i32,
    pub month: u32,
    pub day: u32,
    pub hour: u32,
    pub minute: u32,
    pub second: u32,
}

impl UtcDateTime {
    pub open spec fn wf(&self) -> bool {
        &&& 1 <= self.month <= 12
        &&& 1 <= self.day <= 31
        &&& self.hour < 24
        &&& self.minute < 60
        &&& self.second < 60
    }

    /// Year, month, day, hour, minute and second.
    pub open spec fn fields(&self) -> (int, int, int, int, int, int) {
        (
            self.year as int,
            self.month as int,
            self.day as int,
            self.hour as int,
            self.minute as int,
            self.second as int,
        )
    }
}

pub open spec fn datetime_from_fields(f: (int, int, int, int, int, int)) -> UtcDateTime {
    UtcDateTime {
        year: f.0 as i32,
        month: f.1 as u32,
        day: f.2 as u32,
        hour: f.3 as u32,
        minute: f.4 as u32,
        second: f.5 as u32,
    }
}

/// A number kept as the text it was printed as, in the syntax that Rust's
/// `f64` parser reads (see `is_decimal_number`).
#[derive(Clone, Debug, PartialEq, Eq)]
pub struct Decimal {
    text: String,
}

impl View for Decimal {
    type V = Seq<char>;

    closed spec fn view(&self) -> Seq<char> {
        self.text@
    }
}

impl Decimal {
    pub open spec fn wf(&self) -> bool {
        is_decimal_number(self@)
    }

    /// The number as printed.
    pub fn as_str(&self) -> (r: &str)
        ensures
            r@ == self@,
    {
        self.text.as_str()
    }

    /// Reads a number; `None` where `s` is not one in that syntax.
    pub fn parse(s: &str) -> (r: Option<Decimal>)
        ensures
            r is Some <==> is_decimal_number(s@),
            r matches Some(d) ==> d@ == s@ && d.wf(),
    {
        let n = s.unicode_len();
        assert(s@.subrange(0, n as int) =~= s@);
        if decimal_number_in(s, 0, n) {
            Some(Decimal { text: s.to_owned() })
        } else {
            None
        }
    }
}

/// A size as printed in a listing: the magnitude and its unit, bytes or
/// kilo-, mega- or gigabytes. The magnitude is kept as printed, not scaled.
#[derive(Clone, Debug, PartialEq, Eq)]
pub enum FileSize {
    B(Decimal),
    K(Decimal),
    M(Decimal),
    G(Decimal),
}

/// The model of a `FileSize`: unit and printed magnitude.
pub enum FileSizeView {
    B(Seq<char>),
    K(Seq<char>),
    M(Seq<char>),
    G(Seq<char>),
}

impl View for FileSize {
    type V = FileSizeView;

    open spec fn view(&self) -> FileSizeView {
        match self {
            FileSize::B(d) => FileSizeView::B(d@),
            FileSize::K(d) => FileSizeView::K(d@),
            FileSize::M(d) => FileSizeView::M(d@),
            FileSize::G(d) => FileSizeView::G(d@),
        }
    }
}

/// One entry of a directory listing.
#[derive(Clone, Debug, PartialEq, Eq)]
pub struct RemoteFile {
    pub url: String,
    pub last_modified: Option<UtcDateTime>,
    pub size: Option<FileSize>,
}

impl RemoteFile {
    pub fn new(url: &str, last_modified: Option<UtcDateTime>, size: Option<FileSize>) -> (r: RemoteFile)
        ensures
            r.url@ == url@,
            r.last_modified == last_modified,
            r.size == size,
    {
        RemoteFile { url: url.to_owned(), last_modified, size }
    }
}

pub struct RemoteFileView {
    pub url: Seq<char>,
    pub last_modified: Option<UtcDateTime>,
    pub size: Option<FileSizeView>,
}

pub open spec fn size_view(s: Option<FileSize>) -> Option<FileSizeView> {
    match s {
        Some(z) => Some(z@),
        None => None,
    }
}

impl View for RemoteFile {
    type V = RemoteFileView;

    open spec fn view(&self) -> RemoteFileView {
        RemoteFileView {
            url: self.url@,
            last_modified: self.last_modified,
            size: size_view(self.size),
        }
    }
}

/// Why a listing could not be read. Each error carries the offending text.
#[derive(Clone, Debug, PartialEq, Eq)]
pub enum ParseError {
    /// The page holds no table cells, or a parent-directory row has no link.
    MalformedDocument,
    /// A modification time that is not `day-Mon-year hour:minute`.
    BadTimestamp(String),
    /// A size that is not a number with an optional `K`, `M` or `G`.
    BadSize(String),
    /// A parent-directory row under a base URL without scheme and host.
    BadBaseUrl(String),
}

pub enum ParseErrorView {
    MalformedDocument,
    BadTimestamp(Seq<char>),
    BadSize(Seq<char>),
    BadBaseUrl(Seq<char>),
}

impl View for ParseError {
    type V = ParseErrorView;

    open spec fn view(&self) -> ParseErrorView {
        match self {
            ParseError::MalformedDocument => ParseErrorView::MalformedDocument,
            ParseError::BadTimestamp(s) => ParseErrorView::BadTimestamp(s@),
            ParseError::BadSize(s) => ParseErrorView::BadSize(s@),
            ParseError::BadBaseUrl(s) => ParseErrorView::BadBaseUrl(s@),
        }
    }
}

/// A table cell: its text, and the `href` of its first child where that is a link.
#[derive(Clone, Debug, PartialEq, Eq)]
pub struct ListingCell {
    pub text: String,
    pub href: Option<String>,
}

impl View for ListingCell {
    type V = (Seq<char>, Option<Seq<char>>);

    open spec fn view(&self) -> (Seq<char>, Option<Seq<char>>) {
        (self.text@, self.href.deep_view())
    }
}

pub open spec fn cells_view(c: Seq<ListingCell>) -> Seq<(Seq<char>, Option<Seq<char>>)> {
    c.map_values(|x: ListingCell| x@)
}

/// Scheme and host of the URL a listing was read from.
#[derive(Clone, Debug, PartialEq, Eq)]
pub struct Origin {
    pub scheme: String,
    pub host: String,
}

impl View for Origin {
    type V = (Seq<char>, Seq<char>);

    open spec fn view(&self) -> (Seq<char>, Seq<char>) {
        (self.scheme@, self.host@)
    }
}

pub open spec fn origin_view(o: Option<Origin>) -> Option<(Seq<char>, Seq<char>)> {
    match o {
        Some(x) => Some(x@),
        None => None,
    }
}

// ---------------------------------------------------------------------------
// Outside capabilities
// ---------------------------------------------------------------------------

/// The cells of an HTML page that are `cell_tag` elements directly under a
/// `row_tag` element, in document order: each cell's text, and the
/// `link_attr` attribute of its first child node where it has one.
pub uninterp spec fn child_cells_of(
    html: Seq<char>,
    row_tag: Seq<char>,
    cell_tag: Seq<char>,
    link_attr: Seq<char>,
) -> Seq<(Seq<char>, Option<Seq<char>>)>;

/// Relies on select's `Document::from` and `Document::find(Child(Name(..), Name(..)))`
/// to select the cells in document order; each node found is turned into plain
/// values with `Node::text` and `Node::first_child` / `Node::attr`.
#[verifier::external_body]
fn child_cells(html: &str, row_tag: &str, cell_tag: &str, link_attr: &str) -> (r: Vec<ListingCell>)
    ensures
        cells_view(r@) == child_cells_of(html@, row_tag@, cell_tag@, link_attr@),
{
    let doc = Document::from(html);
    let mut r: Vec<ListingCell> = Vec::new();
    for node in doc.find(Child(Name(row_tag), Name(cell_tag))) {
        let href = match node.first_child() {
            Some(c) => c.attr(link_attr).map(|h| h.to_owned()),
            None => None,
        };
        r.push(ListingCell { text: node.text(), href });
    }
    r
}

/// The date and time that `text` gives in the strftime-style `format`, as
/// (year, month, day, hour, minute, second); `None` where it gives none.
pub uninterp spec fn parsed_naive_datetime(text: Seq<char>, format: Seq<char>) -> Option<
    (int, int, int, int, int, int),
>;

/// Relies on chrono's `NaiveDateTime::parse_from_str`, read through the
/// `Datelike` and `Timelike` accessors, whose documented ranges are stated.
#[verifier::external_body]
fn parse_naive_datetime(text: &str, format: &str) -> (r: Option<UtcDateTime>)
    ensures
        r is None <==> parsed_naive_datetime(text@, format@) is None,
        r matches Some(d) ==> parsed_naive_datetime(text@, format@) == Some(d.fields()) && d.wf(),
{
    match NaiveDateTime::parse_from_str(text, format) {
        Ok(t) => Some(UtcDateTime {
            year: t.year(),
            month: t.month(),
            day: t.day(),
            hour: t.hour(),
            minute: t.minute(),
            second: t.second(),
        }),
        Err(_) => None,
    }
}

/// The scheme of `url`; `None` where it is not a URL.
pub uninterp spec fn url_scheme_of(url: Seq<char>) -> Option<Seq<char>>;

/// The host of `url`; `None` where it is not a URL or has no host.
pub uninterp spec fn url_host_of(url: Seq<char>) -> Option<Seq<char>>;

/// Relies on url's `Url::parse` and `Url::scheme`.
#[verifier::external_body]
fn url_scheme(url: &str) -> (r: Option<String>)
    ensures
        r.deep_view() == url_scheme_of(url@),
{
    match url::Url::parse(url) {
        Ok(u) => Some(u.scheme().to_owned()),
        Err(_) => None,
    }
}

/// Relies on url's `Url::parse` and `Url::host_str`.
#[verifier::external_body]
fn url_host(url: &str) -> (r: Option<String>)
    ensures
        r.deep_view() == url_host_of(url@),
{
    match url::Url::parse(url) {
        Ok(u) => u.host_str().map(|h| h.to_owned()),
        Err(_) => None,
    }
}

// ---------------------------------------------------------------------------
// Decoding the fields of a row
// ---------------------------------------------------------------------------

/// The pattern of modification times in a listing: `12-Jan-2024 08:30`.
pub open spec fn listing_time_format() -> Seq<char> {
    "%d-%b-%Y %H:%M"@
}

/// What a size text decodes to: nothing for an empty text or `-`; bytes for a
/// text ending in a digit that is a number; kilo-, mega- or gigabytes for a
/// number followed by `K`, `M` or `G` (`1.5K`, `infK`).
pub open spec fn size_result(t: Seq<char>) -> Result<Option<FileSizeView>, ParseErrorView> {
    if t.len() == 0 || t == "-"@ {
        Ok(None)
    } else if is_digit(t.last()) {
        if is_decimal_number(t) {
            Ok(Some(FileSizeView::B(t)))
        } else {
            Err(ParseErrorView::BadSize(t))
        }
    } else if t.last() == 'K' || t.last() == 'M' || t.last() == 'G' {
        let m = t.drop_last();
        if !is_decimal_number(m) {
            Err(ParseErrorView::BadSize(t))
        } else if t.last() == 'K' {
            Ok(Some(FileSizeView::K(m)))
        } else if t.last() == 'M' {
            Ok(Some(FileSizeView::M(m)))
        } else {
            Ok(Some(FileSizeView::G(m)))
        }
    } else {
        Err(ParseErrorView::BadSize(t))
    }
}

/// What a modification-time text decodes to: nothing for an empty text, else
/// the time it gives in the listing's pattern.
pub open spec fn modified_result(t: Seq<char>) -> Result<Option<UtcDateTime>, ParseErrorView> {
    if t.len() == 0 {
        Ok(None)
    } else {
        match parsed_naive_datetime(t, listing_time_format()) {
            Some(f) => Ok(Some(datetime_from_fields(f))),
            None => Err(ParseErrorView::BadTimestamp(t)),
        }
    }
}

/// The row that links to the directory above.
pub open spec fn is_parent_row(name: Seq<char>, size: Seq<char>) -> bool {
    name == "Parent Directory"@ && size == "-"@
}

/// Where a row points: for the parent-directory row, the link's target on the
/// base URL's scheme and host; for any other row, the base URL followed by the name.
pub open spec fn url_result(
    base: Seq<char>,
    origin: Option<(Seq<char>, Seq<char>)>,
    name: Seq<char>,
    size: Seq<char>,
    href: Option<Seq<char>>,
) -> Result<Seq<char>, ParseErrorView> {
    if is_parent_row(name, size) {
        match origin {
            None => Err(ParseErrorView::BadBaseUrl(base)),
            Some(o) => match href {
                None => Err(ParseErrorView::MalformedDocument),
                Some(h) => Ok(o.0 + "://"@ + o.1 + h),
            },
        }
    } else {
        Ok(base + name)
    }
}

pub open spec fn result_view<T: View>(r: Result<T, ParseError>) -> Result<T::V, ParseErrorView> {
    match r {
        Ok(x) => Ok(x@),
        Err(e) => Err(e@),
    }
}

pub open spec fn optional_size_result_view(r: Result<Option<FileSize>, ParseError>) -> Result<
    Option<FileSizeView>,
    ParseErrorView,
> {
    match r {
        Ok(x) => Ok(size_view(x)),
        Err(e) => Err(e@),
    }
}

impl FileSize {
    /// Decodes a size text as printed in a listing (`1.5K`, `14M`, `200`, `-`).
    pub fn new(value: &str) -> (r: Result<Option<FileSize>, ParseError>)
        ensures
            optional_size_result_view(r) == size_result(value@),
    {
        let n = value.unicode_len();
        if n == 0 || same_text(value, "-") {
            return Ok(None);
        }
        let last = value.get_char(n - 1);
        assert(value@.subrange(0, n as int) =~= value@);
        assert(value@.subrange(0, n - 1) =~= value@.drop_last());
        if '0' <= last && last <= '9' {
            if decimal_number_in(value, 0, n) {
                Ok(Some(FileSize::B(Decimal { text: value.to_owned() })))
            } else {
                Err(ParseError::BadSize(value.to_owned()))
            }
        } else if last == 'K' || last == 'M' || last == 'G' {
            if !decimal_number_in(value, 0, n - 1) {
                return Err(ParseError::BadSize(value.to_owned()));
            }
            let d = Decimal { text: value.substring_char(0, n - 1).to_owned() };
            if last == 'K' {
                Ok(Some(FileSize::K(d)))
            } else if last == 'M' {
                Ok(Some(FileSize::M(d)))
            } else {
                Ok(Some(FileSize::G(d)))
            }
        } else {
            Err(ParseError::BadSize(value.to_owned()))
        }
    }
}

/// Decodes a modification-time text as printed in a listing (`12-Jan-2024 08:30`, UTC).
pub fn decode_modified(text: &str) -> (r: Result<Option<UtcDateTime>, ParseError>)
    ensures
        match (r, modified_result(text@)) {
            (Ok(a), Ok(b)) => a == b,
            (Err(e), Err(f)) => e@ == f,
            _ => false,
        },
{
    if text.unicode_len() == 0 {
        return Ok(None);
    }
    match parse_naive_datetime(text, "%d-%b-%Y %H:%M") {
        Some(d) => {
            assert(datetime_from_fields(d.fields()) == d);
            Ok(Some(d))
        },
        None => Err(ParseError::BadTimestamp(text.to_owned())),
    }
}

/// Resolves the URL of a row from its trimmed name and size texts and the
/// link of its name cell.
pub fn resolve_url(
    base_url: &str,
    origin: &Option<Origin>,
    name: &str,
    size: &str,
    href: &Option<String>,
) -> (r: Result<String, ParseError>)
    ensures
        result_view(r) == url_result(base_url@, origin_view(*origin), name@, size@, href.deep_view()),
{
    if same_text(name, "Parent Directory") && same_text(size, "-") {
        match origin {
            None => Err(ParseError::BadBaseUrl(base_url.to_owned())),
            Some(o) => match href {
                None => Err(ParseError::MalformedDocument),
                Some(h) => {
                    let mut u = o.scheme.clone();
                    u.append("://");
                    u.append(o.host.as_str());
                    u.append(h.as_str());
                    Ok(u)
                },
            },
        }
    } else {
        let mut u = String::from_str(base_url);
        u.append(name);
        Ok(u)
    }
}

// ---------------------------------------------------------------------------
// Rows and listings
// ---------------------------------------------------------------------------

/// The record of one row of three cells, or the first error met in it: the
/// URL is resolved first, then the modification time, then the size.
pub open spec fn row_result(
    base: Seq<char>,
    origin: Option<(Seq<char>, Seq<char>)>,
    name_cell: (Seq<char>, Option<Seq<char>>),
    modified_cell: (Seq<char>, Option<Seq<char>>),
    size_cell: (Seq<char>, Option<Seq<char>>),
) -> Result<RemoteFileView, ParseErrorView> {
    let name = trim(name_cell.0);
    let modified = trim(modified_cell.0);
    let size = trim(size_cell.0);
    match url_result(base, origin, name, size, name_cell.1) {
        Err(e) => Err(e),
        Ok(url) => match modified_result(modified) {
            Err(e) => Err(e),
            Ok(m) => match size_result(size) {
                Err(e) => Err(e),
                Ok(z) => Ok(RemoteFileView { url, last_modified: m, size: z }),
            },
        },
    }
}

/// The record of the row of cells `3 * g`, `3 * g + 1` and `3 * g + 2`.
pub open spec fn group_result(
    base: Seq<char>,
    origin: Option<(Seq<char>, Seq<char>)>,
    cells: Seq<(Seq<char>, Option<Seq<char>>)>,
    g: int,
) -> Result<RemoteFileView, ParseErrorView> {
    row_result(base, origin, cells[3 * g], cells[3 * g + 1], cells[3 * g + 2])
}

/// The records of the first `n` rows in order, or the first error among them.
pub open spec fn rows_result(
    base: Seq<char>,
    origin: Option<(Seq<char>, Seq<char>)>,
    cells: Seq<(Seq<char>, Option<Seq<char>>)>,
    n: nat,
) -> Result<Seq<RemoteFileView>, ParseErrorView>
    decreases n,
{
    if n == 0 {
        Ok(Seq::empty())
    } else {
        match rows_result(base, origin, cells, (n - 1) as nat) {
            Err(e) => Err(e),
            Ok(prev) => match group_result(base, origin, cells, n - 1) {
                Err(e) => Err(e),
                Ok(f) => Ok(prev.push(f)),
            },
        }
    }
}

/// What a listing of table cells reads as: an error where there are no cells;
/// else one record for each complete row of three, a trailing partial row
/// being left out.
pub open spec fn listing_result(
    base: Seq<char>,
    origin: Option<(Seq<char>, Seq<char>)>,
    cells: Seq<(Seq<char>, Option<Seq<char>>)>,
) -> Result<Seq<RemoteFileView>, ParseErrorView> {
    if cells.len() == 0 {
        Err(ParseErrorView::MalformedDocument)
    } else {
        rows_result(base, origin, cells, cells.len() / 3)
    }
}

/// Scheme and host of a base URL, where it has both.
pub open spec fn origin_of(base: Seq<char>) -> Option<(Seq<char>, Seq<char>)> {
    match (url_scheme_of(base), url_host_of(base)) {
        (Some(s), Some(h)) => Some((s, h)),
        _ => None,
    }
}

pub open spec fn files_view(v: Seq<RemoteFile>) -> Seq<RemoteFileView> {
    v.map_values(|f: RemoteFile| f@)
}

pub open spec fn files_result_view(r: Result<Vec<RemoteFile>, ParseError>) -> Result<
    Seq<RemoteFileView>,
    ParseErrorView,
> {
    match r {
        Ok(v) => Ok(files_view(v@)),
        Err(e) => Err(e@),
    }
}

proof fn lemma_rows_error_stays(
    base: Seq<char>,
    origin: Option<(Seq<char>, Seq<char>)>,
    cells: Seq<(Seq<char>, Option<Seq<char>>)>,
    k: nat,
    n: nat,
)
    requires
        k <= n,
        rows_result(base, origin, cells, k) is Err,
    ensures
        rows_result(base, origin, cells, n) == rows_result(base, origin, cells, k),
    decreases n,
{
    if n > k {
        lemma_rows_error_stays(base, origin, cells, k, (n - 1) as nat);
    }
}

/// Decodes one row from its three cells.
pub fn decode_row(
    base_url: &str,
    origin: &Option<Origin>,
    name_cell: &ListingCell,
    modified_cell: &ListingCell,
    size_cell: &ListingCell,
) -> (r: Result<RemoteFile, ParseError>)
    ensures
        result_view(r) == row_result(
            base_url@,
            origin_view(*origin),
            name_cell@,
            modified_cell@,
            size_cell@,
        ),
{
    let name = trim_text(name_cell.text.as_str());
    let modified = trim_text(modified_cell.text.as_str());
    let size = trim_text(size_cell.text.as_str());
    let url = match resolve_url(base_url, origin, name.as_str(), size.as_str(), &name_cell.href) {
        Ok(u) => u,
        Err(e) => return Err(e),
    };
    let last_modified = match decode_modified(modified.as_str()) {
        Ok(m) => m,
        Err(e) => return Err(e),
    };
    let size = match FileSize::new(size.as_str()) {
        Ok(z) => z,
        Err(e) => return Err(e),
    };
    Ok(RemoteFile { url, last_modified, size })
}

/// Reads the table cells of a listing page, in document order, into records.
pub fn parse_cells(base_url: &str, origin: &Option<Origin>, cells: &Vec<ListingCell>) -> (r: Result<
    Vec<RemoteFile>,
    ParseError,
>)
    ensures
        files_result_view(r) == listing_result(base_url@, origin_view(*origin), cells_view(cells@)),
{
    let ghost o = origin_view(*origin);
    let ghost cv = cells_view(cells@);
    if cells.len() == 0 {
        return Err(ParseError::MalformedDocument);
    }
    let n = cells.len() / 3;
    let mut files: Vec<RemoteFile> = Vec::new();
    let mut g: usize = 0;
    assert(files_view(files@) =~= Seq::<RemoteFileView>::empty());
    while g < n
        invariant
            n == cells.len() / 3,
            g <= n,
            cv == cells_view(cells@),
            o == origin_view(*origin),
            rows_result(base_url@, o, cv, g as nat) == Ok::<Seq<RemoteFileView>, ParseErrorView>(
                files_view(files@),
            ),
        decreases n - g,
    {
        assert(3 * g + 2 < cells.len()) by (nonlinear_arith)
            requires
                g < n,
                n == cells.len() / 3,
        ;
        let i = 3 * g;
        let f = decode_row(base_url, origin, &cells[i], &cells[i + 1], &cells[i + 2]);
        assert(cv[i as int] == cells@[i as int]@);
        assert(cv[i + 1] == cells@[i + 1]@);
        assert(cv[i + 2] == cells@[i + 2]@);
        assert(result_view(f) == group_result(base_url@, o, cv, g as int));
        match f {
            Ok(file) => {
                let ghost before = files@;
                files.push(file);
                assert(files_view(files@) =~= files_view(before).push(file@));
                assert(rows_result(base_url@, o, cv, (g + 1) as nat) == Ok::<
                    Seq<RemoteFileView>,
                    ParseErrorView,
                >(files_view(before).push(file@)));
            },
            Err(e) => {
                proof {
                    lemma_rows_error_stays(base_url@, o, cv, (g + 1) as nat, n as nat);
                }
                return Err(e);
            },
        }
        g = g + 1;
    }
    Ok(files)
}

/// Scheme and host of a base URL, where it has both.
pub fn origin(base_url: &str) -> (r: Option<Origin>)
    ensures
        origin_view(r) == origin_of(base_url@),
{
    match (url_scheme(base_url), url_host(base_url)) {
        (Some(scheme), Some(host)) => Some(Origin { scheme, host }),
        _ => None,
    }
}

/// Reads a directory listing page fetched from `base_url` into one record per
/// row, in document order.
pub fn parse(base_url: &str, html: &str) -> (r: Result<Vec<RemoteFile>, ParseError>)
    ensures
        files_result_view(r) == listing_result(
            base_url@,
            origin_of(base_url@),
            child_cells_of(html@, "tr"@, "td"@, "href"@),
        ),
{
    let cells = child_cells(html, "tr", "td", "href");
    let origin = origin(base_url);
    parse_cells(base_url, &origin, &cells)
}

// ---------------------------------------------------------------------------
// Laws
// ---------------------------------------------------------------------------

proof fn lemma_rows_in_order(
    base: Seq<char>,
    origin: Option<(Seq<char>, Seq<char>)>,
    cells: Seq<(Seq<char>, Option<Seq<char>>)>,
    n: nat,
)
    requires
        forall|g: int| 0 <= g < n ==> (#[trigger] group_result(base, origin, cells, g)) is Ok,
    ensures
        rows_result(base, origin, cells, n) is Ok,
        rows_result(base, origin, cells, n)->Ok_0.len() == n,
        forall|g: int|
            0 <= g < n ==> #[trigger] group_result(base, origin, cells, g) == Ok::<
                RemoteFileView,
                ParseErrorView,
            >(rows_result(base, origin, cells, n)->Ok_0[g]),
    decreases n,
{
    if n > 0 {
        lemma_rows_in_order(base, origin, cells, (n - 1) as nat);
        assert(group_result(base, origin, cells, n - 1) is Ok);
    }
}

/// When every complete row of three cells decodes, the listing reads as
/// exactly one record per row, in the order of the rows; cells after the
/// last complete row are left out.
pub proof fn lemma_one_record_per_row(
    base: Seq<char>,
    origin: Option<(Seq<char>, Seq<char>)>,
    cells: Seq<(Seq<char>, Option<Seq<char>>)>,
)
    requires
        cells.len() > 0,
        forall|g: int|
            0 <= g < cells.len() / 3 ==> (#[trigger] group_result(base, origin, cells, g)) is Ok,
    ensures
        listing_result(base, origin, cells) is Ok,
        listing_result(base, origin, cells)->Ok_0.len() == cells.len() / 3,
        forall|g: int|
            0 <= g < cells.len() / 3 ==> #[trigger] group_result(base, origin, cells, g) == Ok::<
                RemoteFileView,
                ParseErrorView,
            >(listing_result(base, origin, cells)->Ok_0[g]),
{
    lemma_rows_in_order(base, origin, cells, (cells.len() / 3) as nat);
}

/// The parent-directory row (name `Parent Directory`, size `-`) that decodes
/// points at its link's target on the base URL's scheme and host, whatever
/// the base URL's path and the row's name.
pub proof fn lemma_parent_row_url(
    base: Seq<char>,
    origin: Option<(Seq<char>, Seq<char>)>,
    name_cell: (Seq<char>, Option<Seq<char>>),
    modified_cell: (Seq<char>, Option<Seq<char>>),
    size_cell: (Seq<char>, Option<Seq<char>>),
)
    requires
        trim(name_cell.0) == "Parent Directory"@,
        trim(size_cell.0) == "-"@,
        row_result(base, origin, name_cell, modified_cell, size_cell) is Ok,
    ensures
        origin is Some,
        name_cell.1 is Some,
        row_result(base, origin, name_cell, modified_cell, size_cell)->Ok_0.url == (origin->0).0
            + "://"@ + (origin->0).1 + name_cell.1->0,
{
}

} // verus!
