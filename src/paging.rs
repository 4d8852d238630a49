//! Pages of records from a source API, and the pagination loop's decisions.
use vstd::prelude::*;
use crate::value::{Json, Value, copy_value, get_member, member, same_text};
use crate::reconcile::values_model;

verus! {

/// One page of records, and the token of the next page if there is one.
pub struct Page {
    pub records: Vec<Value>,
    pub next: Option<String>,
}

/// The model of a [`Page`].
pub struct PageModel {
    pub records: Seq<Json>,
    pub next: Option<Seq<char>>,
}

impl View for Page {
    type V = PageModel;

    open spec fn view(&self) -> PageModel {
        PageModel {
            records: values_model(self.records@),
            next: match self.next {
                Some(t) => Some(t@),
                None => None,
            },
        }
    }
}

/// Why a response body is not a page.
#[derive(Debug, PartialEq)]
pub enum FetchError {
    /// The body has no list of records where one is expected.
    MissingRecords,
    /// The continuation marker is present but not text.
    MalformedOffset,
}

/// The continuation that a record-store response declares: none when the
/// `offset` member is absent or the text `None`, else its text.
pub open spec fn continuation(body: Json) -> Option<Seq<char>> {
    match member(body, "offset"@) {
        Some(Json::Text(t)) => if t == "None"@ {
            None
        } else {
            Some(t)
        },
        _ => None,
    }
}

/// Whether the `offset` member of a record-store response is readable.
pub open spec fn offset_readable(body: Json) -> bool {
    match member(body, "offset"@) {
        None => true,
        Some(Json::Text(_)) => true,
        _ => false,
    }
}

fn copy_values(vs: &Vec<Value>) -> (r: Vec<Value>)
    ensures
        values_model(r@) == values_model(vs@),
{
    let mut out: Vec<Value> = Vec::new();
    let mut i: usize = 0;
    while i < vs.len()
        invariant
            i <= vs@.len(),
            out@.len() == i,
            forall|k: int| 0 <= k < i ==> (#[trigger] out@[k])@ == vs@[k]@,
        decreases vs@.len() - i,
    {
        out.push(copy_value(&vs[i]));
        i = i + 1;
    }
    assert(values_model(out@) =~= values_model(vs@));
    out
}

/// Reads a record-store response: its `records` list and its continuation.
pub fn record_store_page(body: &Value) -> (r: Result<Page, FetchError>)
    ensures
        match r {
            Ok(p) => member(body@, "records"@) matches Some(Json::Array(items)) && offset_readable(
                body@,
            ) && p@ == (PageModel { records: items, next: continuation(body@) }),
            Err(FetchError::MissingRecords) => !(member(body@, "records"@) matches Some(
                Json::Array(_),
            )),
            Err(FetchError::MalformedOffset) => member(body@, "records"@) matches Some(
                Json::Array(_),
            ) && !offset_readable(body@),
        },
{
    let items = match get_member(body, "records") {
        Some(Value::Array(items)) => items,
        _ => {
            return Err(FetchError::MissingRecords);
        },
    };
    let next = match get_member(body, "offset") {
        None => None,
        Some(Value::Text(t)) => {
            if same_text(t.as_str(), "None") {
                None
            } else {
                Some(t.clone())
            }
        },
        Some(_) => {
            return Err(FetchError::MalformedOffset);
        },
    };
    let records = copy_values(items);
    let p = Page { records, next };
    assert(values_model(items@) =~= member(body@, "records"@)->Some_0->Array_0);
    Ok(p)
}

/// Reads a reporting response: its `Records` list, or no records when the
/// member is absent. Such a response is never followed by another page.
pub fn report_page(body: &Value) -> (r: Result<Page, FetchError>)
    ensures
        match r {
            Ok(p) => p@.next is None && match member(body@, "Records"@) {
                None => p@.records.len() == 0,
                Some(Json::Array(items)) => p@.records == items,
                _ => false,
            },
            Err(FetchError::MissingRecords) => member(body@, "Records"@) matches Some(v) && !(
            v is Array),
            Err(_) => false,
        },
{
    match get_member(body, "Records") {
        None => Ok(Page { records: Vec::new(), next: None }),
        Some(Value::Array(items)) => {
            let records = copy_values(items);
            assert(values_model(items@) =~= member(body@, "Records"@)->Some_0->Array_0);
            Ok(Page { records, next: None })
        },
        Some(_) => Err(FetchError::MissingRecords),
    }
}

/// Where a pagination loop stands.
pub enum Cursor {
    /// No page fetched yet.
    Start,
    /// The server named the next page.
    Next(String),
    /// The server signalled that no page follows.
    Done,
}

/// The model of a [`Cursor`].
pub enum CursorModel {
    Start,
    Next(Seq<char>),
    Done,
}

/// The state of one pagination loop: where it stands, the records gathered so
/// far, and how many pages were fetched.
pub struct Pagination {
    cursor: Cursor,
    records: Vec<Value>,
    pages: usize,
}

/// The model of a [`Pagination`].
pub struct PaginationModel {
    pub cursor: CursorModel,
    pub records: Seq<Json>,
    pub pages: nat,
}

impl View for Pagination {
    type V = PaginationModel;

    closed spec fn view(&self) -> PaginationModel {
        PaginationModel {
            cursor: match self.cursor {
                Cursor::Start => CursorModel::Start,
                Cursor::Next(t) => CursorModel::Next(t@),
                Cursor::Done => CursorModel::Done,
            },
            records: values_model(self.records@),
            pages: self.pages as nat,
        }
    }
}

/// A loop that has fetched nothing yet.
pub open spec fn initial_pagination() -> PaginationModel {
    PaginationModel { cursor: CursorModel::Start, records: Seq::empty(), pages: 0 }
}

/// The loop after it has received page `p`.
pub open spec fn after_page(s: PaginationModel, p: PageModel) -> PaginationModel {
    PaginationModel {
        cursor: match p.next {
            Some(t) => CursorModel::Next(t),
            None => CursorModel::Done,
        },
        records: s.records + p.records,
        pages: s.pages + 1,
    }
}

/// The loop after it has been served `pages` in turn, fetching while the
/// server names a next page.
pub open spec fn after_pages(s: PaginationModel, pages: Seq<PageModel>) -> PaginationModel
    decreases pages.len(),
{
    if s.cursor is Done || pages.len() == 0 {
        s
    } else {
        after_pages(after_page(s, pages[0]), pages.drop_first())
    }
}

/// The records of `pages`, one page after another.
pub open spec fn all_records(pages: Seq<PageModel>) -> Seq<Json>
    decreases pages.len(),
{
    if pages.len() == 0 {
        Seq::empty()
    } else {
        pages[0].records + all_records(pages.drop_first())
    }
}

impl Pagination {
    /// A loop that has fetched nothing yet.
    pub fn new() -> (p: Pagination)
        ensures
            p@ == initial_pagination(),
    {
        let p = Pagination { cursor: Cursor::Start, records: Vec::new(), pages: 0 };
        assert(p@.records =~= Seq::<Json>::empty());
        p
    }

    /// Whether the server has signalled that no page follows.
    pub fn is_done(&self) -> (r: bool)
        ensures
            r == (self@.cursor is Done),
    {
        match self.cursor {
            Cursor::Done => true,
            _ => false,
        }
    }

    /// The offset to request next: empty for the first page, the server's
    /// token after that, nothing once the server has signalled the end.
    pub fn next_offset(&self) -> (r: Option<String>)
        ensures
            match self@.cursor {
                CursorModel::Start => r matches Some(t) && t@ == Seq::<char>::empty(),
                CursorModel::Next(t) => r matches Some(x) && x@ == t,
                CursorModel::Done => r is None,
            },
    {
        match &self.cursor {
            Cursor::Start => Some(String::new()),
            Cursor::Next(t) => Some(t.clone()),
            Cursor::Done => None,
        }
    }

    /// How many pages were received.
    pub fn pages_fetched(&self) -> (r: usize)
        ensures
            r == self@.pages,
    {
        self.pages
    }

    /// Takes in the page that the server returned for [`Pagination::next_offset`].
    pub fn receive(&mut self, page: Page)
        requires
            !(old(self)@.cursor is Done),
            old(self)@.pages < usize::MAX,
        ensures
            final(self)@ == after_page(old(self)@, page@),
    {
        let Page { records, next } = page;
        let mut records = records;
        self.records.append(&mut records);
        self.pages = self.pages + 1;
        self.cursor = match next {
            Some(t) => Cursor::Next(t),
            None => Cursor::Done,
        };
        assert(self@.records =~= old(self)@.records + page@.records);
    }

    /// The records gathered, in the order their pages came.
    pub fn into_records(self) -> (r: Vec<Value>)
        ensures
            values_model(r@) == self@.records,
    {
        self.records
    }
}

proof fn lemma_pages_from(s: PaginationModel, pages: Seq<PageModel>, rest: Seq<PageModel>)
    requires
        !(s.cursor is Done),
        pages.len() >= 1,
        forall|i: int| 0 <= i < pages.len() - 1 ==> (#[trigger] pages[i]).next is Some,
        pages[pages.len() - 1].next is None,
    ensures
        after_pages(s, pages + rest) == (PaginationModel {
            cursor: CursorModel::Done,
            records: s.records + all_records(pages),
            pages: s.pages + pages.len(),
        }),
    decreases pages.len(),
{
    let next = after_page(s, pages[0]);
    assert((pages + rest)[0] == pages[0]);
    assert(after_pages(s, pages + rest) == after_pages(next, (pages + rest).drop_first()));
    if pages.len() == 1 {
        assert(next.cursor is Done);
        assert(after_pages(next, (pages + rest).drop_first()) == next);
        assert(all_records(pages.drop_first()) =~= Seq::<Json>::empty());
        assert(s.records + pages[0].records =~= s.records + all_records(pages));
    } else {
        assert((pages + rest).drop_first() =~= pages.drop_first() + rest);
        assert(pages[0].next is Some);
        lemma_pages_from(next, pages.drop_first(), rest);
        assert(next.records + all_records(pages.drop_first()) =~= s.records + all_records(pages));
    }
}

/// Termination of pagination: when every page but the last names a next page
/// and the last names none, the loop fetches exactly those pages, whatever the
/// server would serve after them, stops, and holds their records in order.
pub proof fn lemma_pagination_stops(pages: Seq<PageModel>, rest: Seq<PageModel>)
    requires
        pages.len() >= 1,
        forall|i: int| 0 <= i < pages.len() - 1 ==> (#[trigger] pages[i]).next is Some,
        pages[pages.len() - 1].next is None,
    ensures
        after_pages(initial_pagination(), pages + rest) == (PaginationModel {
            cursor: CursorModel::Done,
            records: all_records(pages),
            pages: pages.len(),
        }),
{
    lemma_pages_from(initial_pagination(), pages, rest);
    assert(Seq::<Json>::empty() + all_records(pages) =~= all_records(pages));
}

/// The address of one page of a record-store endpoint:
/// `{base}/{endpoint}?pageSize=100&offset={offset}`.
pub fn record_store_url(base: &str, endpoint: &str, offset: &str) -> (r: String)
    ensures
        r@ == base@ + "/"@ + endpoint@ + "?pageSize=100&offset="@ + offset@,
{
    let mut url = base.to_owned();
    url.append("/");
    url.append(endpoint);
    url.append("?pageSize=100&offset=");
    url.append(offset);
    url
}

} // verus!
