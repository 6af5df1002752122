//! The `SearchNotes` call.
use vstd::prelude::*;

use crate::list::SELECT_NOTES;
use crate::note::{self, Note, NoteRow, NoteRowView};
use crate::status::{self, map_db_error, DbError, Status};
use crate::text;

verus! {

/// A request to search the notes.
#[derive(Debug)]
pub struct SearchNotesRequest {
    pub query: String,
}

/// Whether a row has the query in its title or in its content.
pub open spec fn matches_query(row: NoteRowView, query: Seq<char>) -> bool {
    text::has_substring(row.title, query) || text::has_substring(row.content, query)
}

/// The rows that match the query, in their order.
pub open spec fn matching(rows: Seq<NoteRowView>, query: Seq<char>) -> Seq<NoteRowView> {
    rows.filter(|row: NoteRowView| matches_query(row, query))
}

/// Tells whether a row has the query in its title or in its content.
fn row_matches(row: &NoteRow, query: &str) -> (res: bool)
    ensures
        res == matches_query(row@, query@),
        res <==> text::has_substring(row.title@, query@) || text::has_substring(
            row.content@,
            query@,
        ),
{
    text::contains_text(row.title.as_str(), query) || text::contains_text(
        row.content.as_str(),
        query,
    )
}

/// Returns the rows that match the query, in their order.
pub fn matching_rows(rows: Vec<NoteRow>, query: &str) -> (res: Vec<NoteRow>)
    ensures
        note::row_views(res@) == matching(note::row_views(rows@), query@),
{
    let mut res: Vec<NoteRow> = Vec::new();
    let ghost views = note::row_views(rows@);
    for row in iter: rows
        invariant
            iter.seq() == rows@,
            views == note::row_views(rows@),
            note::row_views(res@) == matching(views.take(iter.index()), query@),
    {
        let ghost before = note::row_views(res@);
        proof {
            let k = iter.index();
            assert(views.take(k + 1).drop_last() == views.take(k));
            reveal(Seq::filter);
        }
        if row_matches(&row, query) {
            let ghost view = row@;
            res.push(row);
            assert(note::row_views(res@) == before.push(view));
        }
    }
    assert(views.take(rows@.len() as int) == views);
    res
}

/// Waits for the rows of the table, to search them for a query.
pub struct AwaitRows {
    query: String,
}

impl View for AwaitRows {
    type V = Seq<char>;

    closed spec fn view(&self) -> Seq<char> {
        self.query@
    }
}

/// The first step of `SearchNotes`: select the rows of the table, with the given statement.
pub struct SearchStep {
    pub statement: &'static str,
    pub next: AwaitRows,
}

/// Begins `SearchNotes`.
pub fn search_notes(request: SearchNotesRequest) -> (res: SearchStep)
    ensures
        res.statement@ == SELECT_NOTES@,
        res.statement@
            == "SELECT id, title, content, created_at, updated_at FROM notes ORDER BY created_at DESC"@,
        res.next@ == request.query@,
{
    SearchStep { statement: SELECT_NOTES, next: AwaitRows { query: request.query } }
}

impl AwaitRows {
    /// Answers `SearchNotes` once the database has answered: the notes to stream, in the order
    /// of the rows.
    pub fn selected(self, selected: Result<Vec<NoteRow>, DbError>) -> (res: Result<
        Vec<Note>,
        Status,
    >)
        ensures
            match selected {
                Ok(rows) => res matches Ok(notes) && note::note_views(notes@) == note::notes_of(
                    matching(note::row_views(rows@), self@),
                ),
                Err(_) => res matches Err(failure) && failure@ == status::db_failure(),
            },
    {
        match selected {
            Ok(rows) => Ok(note::map_notes(matching_rows(rows, self.query.as_str()))),
            Err(err) => Err(map_db_error(err)),
        }
    }
}

/// A search finds a row exactly when the table holds it and it matches the query.
pub proof fn search_finds_the_matches(rows: Seq<NoteRowView>, query: Seq<char>, row: NoteRowView)
    ensures
        matching(rows, query).contains(row) <==> rows.contains(row) && matches_query(row, query),
{
    let pred = |r: NoteRowView| matches_query(r, query);
    if matching(rows, query).contains(row) {
        rows.lemma_filter_contains_rev(pred, row);
        let k = choose|k: int| 0 <= k < rows.filter(pred).len() && rows.filter(pred)[k] == row;
        rows.lemma_filter_pred(pred, k);
    }
    if rows.contains(row) && matches_query(row, query) {
        let k = choose|k: int| 0 <= k < rows.len() && rows[k] == row;
        rows.lemma_filter_contains(pred, k);
    }
}

/// A search whose query no row matches finds nothing.
pub proof fn search_without_match_is_empty(rows: Seq<NoteRowView>, query: Seq<char>)
    requires
        forall|i: int| 0 <= i < rows.len() ==> !matches_query(#[trigger] rows[i], query),
    ensures
        matching(rows, query).len() == 0,
{
    if matching(rows, query).len() > 0 {
        let row = matching(rows, query)[0];
        assert(matching(rows, query).contains(row));
        search_finds_the_matches(rows, query, row);
    }
}

/// A row matches a query exactly when its title, or its content, is made of some text, the query
/// and some text again.
pub proof fn match_holds_the_query(row: NoteRowView, query: Seq<char>)
    ensures
        matches_query(row, query) <==> exists|a: Seq<char>, b: Seq<char>|
            {
                let around = #[trigger] (a + query + b);
                row.title == around || row.content == around
            },
{
    text::substring_stands_between_two_texts(row.title, query);
    text::substring_stands_between_two_texts(row.content, query);
    if text::has_substring(row.title, query) {
        let (a, b) = choose|a: Seq<char>, b: Seq<char>| row.title == #[trigger] (a + query + b);
        assert(row.title == a + query + b);
    }
    if text::has_substring(row.content, query) {
        let (a, b) = choose|a: Seq<char>, b: Seq<char>| row.content == #[trigger] (a + query + b);
        assert(row.content == a + query + b);
    }
}

/// Whatever stands before and behind the query in the title or in the content of a row of the
/// table, a search for the query finds the row.
pub proof fn search_finds_the_query_anywhere(
    rows: Seq<NoteRowView>,
    row: NoteRowView,
    a: Seq<char>,
    query: Seq<char>,
    b: Seq<char>,
)
    requires
        rows.contains(row),
        row.title == a + query + b || row.content == a + query + b,
    ensures
        matching(rows, query).contains(row),
{
    match_holds_the_query(row, query);
    search_finds_the_matches(rows, query, row);
}

/// What a search finds is the rows at certain places of the table, each place once and in the
/// order of the table: the places whose row has, in its title or in its content, some text, the
/// query and some text again.
pub proof fn search_finds_each_match_once_in_order(
    rows: Seq<NoteRowView>,
    query: Seq<char>,
) -> (places: Seq<int>)
    ensures
        places.len() == matching(rows, query).len(),
        forall|k: int|
            0 <= k < places.len() ==> 0 <= #[trigger] places[k] < rows.len() && matching(
                rows,
                query,
            )[k] == rows[places[k]],
        forall|k: int, l: int| 0 <= k < l < places.len() ==> places[k] < places[l],
        forall|i: int|
            0 <= i < rows.len() ==> (places.contains(i) <==> exists|a: Seq<char>, b: Seq<char>|
                {
                    let around = #[trigger] (a + query + b);
                    (#[trigger] rows[i]).title == around || rows[i].content == around
                }),
    decreases rows.len(),
{
    reveal(Seq::filter);
    if rows.len() == 0 {
        Seq::empty()
    } else {
        let init = rows.drop_last();
        let n = init.len() as int;
        let before = search_finds_each_match_once_in_order(init, query);
        let places = if matches_query(rows[n], query) {
            before.push(n)
        } else {
            before
        };
        match_holds_the_query(rows[n], query);
        assert forall|i: int| 0 <= i < rows.len() implies (places.contains(i) <==> exists|
            a: Seq<char>,
            b: Seq<char>,
        |
            {
                let around = #[trigger] (a + query + b);
                (#[trigger] rows[i]).title == around || rows[i].content == around
            }) by {
            if i < n {
                assert(init[i] == rows[i]);
                if before.contains(i) {
                    let k = choose|k: int| 0 <= k < before.len() && before[k] == i;
                    assert(places[k] == i);
                }
                if places.contains(i) {
                    let k = choose|k: int| 0 <= k < places.len() && places[k] == i;
                    assert(before[k] == i);
                }
            } else {
                if matches_query(rows[n], query) {
                    assert(places[before.len() as int] == n);
                }
                if places.contains(n) {
                    let k = choose|k: int| 0 <= k < places.len() && places[k] == n;
                    assert(k < before.len() ==> before[k] < n);
                }
            }
        }
        places
    }
}

} // verus!
