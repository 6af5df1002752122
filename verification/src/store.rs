//! What the calls do to the store as a whole: laws on runs of `CreateNote` and `ListNotes`.
//!
//! The laws are about runs that come one after the other. They say nothing of runs that overlap:
//! a list that is cached after another call has deleted the cached text can be stale.
use vstd::prelude::*;

use crate::cache::{self, NOTES_LIST_KEY};
use crate::create::{self, CreateStepView, INSERT_NOTE};
use crate::list::{self, ListStepView, SELECT_NOTES};
use crate::note::{self, NoteRowView, NoteView};
use crate::status::{self, StatusView};
use crate::text;

verus! {

/// What the service keeps: the rows of the table of notes, in the order in which `SELECT_NOTES`
/// returns them, and the text that is cached under `NOTES_LIST_KEY`, if there is one.
pub struct Store {
    pub rows: Seq<NoteRowView>,
    pub cached: Option<Seq<char>>,
}

impl Store {
    /// Whether the cached text, if there is one, is that of the notes in the table.
    pub open spec fn coherent(self) -> bool {
        self.cached matches Some(text) ==> text == cache::notes_text(note::notes_of(self.rows))
    }

    /// Whether the calendar holds the instants of all rows.
    pub open spec fn valid(self) -> bool {
        forall|i: int| 0 <= i < self.rows.len() ==> (#[trigger] self.rows[i]).valid()
    }
}

/// Whether `after` has one row more than `before`, the given one, and the others as they were.
pub open spec fn adds_row(
    before: Seq<NoteRowView>,
    row: NoteRowView,
    after: Seq<NoteRowView>,
) -> bool {
    exists|at: int| 0 <= at <= before.len() && after == #[trigger] before.insert(at, row)
}

/// Whether `after` has one note more than `before`, the given one, and the others as they were.
pub open spec fn adds_note(before: Seq<NoteView>, note: NoteView, after: Seq<NoteView>) -> bool {
    exists|at: int| 0 <= at <= before.len() && after == #[trigger] before.insert(at, note)
}

/// Whether the database can run a statement with the given title and content, with the given
/// answer, and take the store from `before` to `after`. `INSERT_NOTE`, where it succeeds, adds
/// the row that it returns, with the title and the content given; where it fails, nothing
/// changes. Nothing is known of other statements.
pub open spec fn inserts(
    before: Store,
    statement: Seq<char>,
    title: Seq<char>,
    content: Seq<char>,
    inserted: Result<NoteRowView, ()>,
    after: Store,
) -> bool {
    statement == INSERT_NOTE@ ==> match inserted {
        Ok(row) => {
            &&& row.title == title
            &&& row.content == content
            &&& after.cached == before.cached
            &&& adds_row(before.rows, row, after.rows)
        },
        Err(_) => after == before,
    }
}

/// Whether the database can answer a statement as given: `SELECT_NOTES` returns the rows, or
/// fails. Nothing is known of other statements.
pub open spec fn selects(
    store: Store,
    statement: Seq<char>,
    selected: Result<Seq<NoteRowView>, ()>,
) -> bool {
    statement == SELECT_NOTES@ ==> selected == Ok::<Seq<NoteRowView>, ()>(store.rows)
        || selected is Err
}

/// Whether a read of the cache under `key` can see `seen`. A read that fails sees nothing.
pub open spec fn reads(store: Store, key: Seq<char>, seen: Option<Seq<char>>) -> bool {
    key == NOTES_LIST_KEY@ ==> seen == store.cached || seen is None
}

/// The store once the text under `key` has been deleted, where that succeeds.
pub open spec fn after_deletion(before: Store, key: Seq<char>, deleted: bool) -> Store {
    if deleted && key == NOTES_LIST_KEY@ {
        Store { cached: None, ..before }
    } else {
        before
    }
}

/// The store once a text has been cached under `key`, where that succeeds.
pub open spec fn after_write(
    before: Store,
    key: Seq<char>,
    text: Seq<char>,
    written: bool,
) -> Store {
    if written && key == NOTES_LIST_KEY@ {
        Store { cached: Some(text), ..before }
    } else {
        before
    }
}

/// Whether a run of `CreateNote` takes the store from `before` to `after` and ends with `reply`.
pub open spec fn creates(
    before: Store,
    title: Seq<char>,
    content: Seq<char>,
    inserted: Result<NoteRowView, ()>,
    deleted: bool,
    reply: Result<Option<NoteView>, StatusView>,
    after: Store,
) -> bool {
    match create::step_on_request(title, content) {
        CreateStepView::Reply(refusal) => reply == refusal && after == before,
        CreateStepView::Insert { statement, title: new_title, content: new_content } => exists|
            between: Store,
        |
            {
                &&& #[trigger] inserts(
                    before,
                    statement,
                    new_title,
                    new_content,
                    inserted,
                    between,
                )
                &&& match create::step_on_row(inserted) {
                    CreateStepView::Reply(failure) => reply == failure && after == between,
                    CreateStepView::Delete { key, note } => {
                        &&& after == after_deletion(between, key, deleted)
                        &&& create::step_on_deletion(note) == CreateStepView::Reply(reply)
                    },
                    CreateStepView::Insert { .. } => false,
                }
            },
        CreateStepView::Delete { .. } => false,
    }
}

/// Whether a run of `ListNotes` takes the store from `before` to `after` and ends with `reply`.
pub open spec fn lists(
    before: Store,
    seen: Option<Seq<char>>,
    selected: Result<Seq<NoteRowView>, ()>,
    written: bool,
    reply: Result<Seq<NoteView>, StatusView>,
    after: Store,
) -> bool {
    &&& list::first_step() matches ListStepView::Read { key } && reads(before, key, seen)
    &&& exists|step: ListStepView|
        {
            &&& #[trigger] list::is_step_on_cached(seen, step)
            &&& match step {
                ListStepView::Reply(cached_reply) => reply == cached_reply && after == before,
                ListStepView::Select { statement } => {
                    &&& selects(before, statement, selected)
                    &&& match list::step_on_rows(selected) {
                        ListStepView::Reply(failure) => reply == failure && after == before,
                        ListStepView::Write { key, text, notes } => {
                            &&& after == after_write(before, key, text, written)
                            &&& list::step_on_write(notes) == ListStepView::Reply(reply)
                        },
                        _ => false,
                    }
                },
                _ => false,
            }
        }
}

/// A request whose title is blank is refused, and leaves the store as it was.
pub proof fn blank_title_changes_nothing(
    before: Store,
    title: Seq<char>,
    content: Seq<char>,
    inserted: Result<NoteRowView, ()>,
    deleted: bool,
    reply: Result<Option<NoteView>, StatusView>,
    after: Store,
)
    requires
        text::is_blank(title),
        creates(before, title, content, inserted, deleted, reply, after),
    ensures
        reply == Err::<Option<NoteView>, StatusView>(
            status::invalid_argument("title is required"@),
        ),
        after == before,
{
}

/// A request that the database fails to store is answered with a failure, and leaves the store
/// as it was.
pub proof fn failed_insertion_changes_nothing(
    before: Store,
    title: Seq<char>,
    content: Seq<char>,
    inserted: Result<NoteRowView, ()>,
    deleted: bool,
    reply: Result<Option<NoteView>, StatusView>,
    after: Store,
)
    requires
        !text::is_blank(title),
        inserted is Err,
        creates(before, title, content, inserted, deleted, reply, after),
    ensures
        reply == Err::<Option<NoteView>, StatusView>(status::db_failure()),
        after == before,
{
}

/// A request with a title that is stored adds one row to the table and changes no other. It is
/// answered with the note of that row, which has the trimmed title and the content given. Where
/// the cached text could be deleted, it is gone; where it could not, it is as it was.
pub proof fn created_note_is_the_reply(
    before: Store,
    title: Seq<char>,
    content: Seq<char>,
    row: NoteRowView,
    deleted: bool,
    reply: Result<Option<NoteView>, StatusView>,
    after: Store,
)
    requires
        !text::is_blank(title),
        creates(before, title, content, Ok(row), deleted, reply, after),
    ensures
        reply == Ok::<Option<NoteView>, StatusView>(Some(note::note_of(row))),
        note::note_of(row).title == text::trimmed(title),
        note::note_of(row).content == content,
        adds_row(before.rows, row, after.rows),
        after.cached == if deleted {
            None
        } else {
            before.cached
        },
        deleted ==> after.coherent(),
{
}

/// `ListNotes` replies with the notes in the table, from the cache or not, unless the database
/// had to be asked and failed. It leaves the table as it was, and a coherent cache stays so. Only
/// where a cached list is served does this rest on the cache having been coherent.
pub proof fn list_shows_the_table(
    before: Store,
    seen: Option<Seq<char>>,
    selected: Result<Seq<NoteRowView>, ()>,
    written: bool,
    reply: Result<Seq<NoteView>, StatusView>,
    after: Store,
)
    requires
        list::is_cached_list(seen) ==> before.coherent() && cache::all_storable(
            note::notes_of(before.rows),
        ),
        lists(before, seen, selected, written, reply, after),
    ensures
        list::is_cached_list(seen) || selected is Ok ==> reply == Ok::<Seq<NoteView>, StatusView>(
            note::notes_of(before.rows),
        ),
        !list::is_cached_list(seen) && selected is Err ==> reply == Err::<
            Seq<NoteView>,
            StatusView,
        >(status::db_failure()),
        after.rows == before.rows,
        before.coherent() || (selected is Ok && written) ==> after.coherent(),
{
    if list::is_cached_list(seen) {
        cache::cached_text_determines_notes(reply->Ok_0, note::notes_of(before.rows));
    }
}

/// Where the database returns the rows with the newest first, `ListNotes` replies with the newest
/// note first, from the cache or not.
pub proof fn list_comes_newest_first(
    before: Store,
    seen: Option<Seq<char>>,
    selected: Result<Seq<NoteRowView>, ()>,
    written: bool,
    notes: Seq<NoteView>,
    after: Store,
)
    requires
        before.valid(),
        note::newest_row_first(before.rows),
        list::is_cached_list(seen) ==> before.coherent() && cache::all_storable(
            note::notes_of(before.rows),
        ),
        lists(before, seen, selected, written, Ok(notes), after),
    ensures
        note::newest_note_first(notes),
{
    list_shows_the_table(before, seen, selected, written, Ok(notes), after);
    note::notes_keep_newest_first(before.rows);
}

/// A list that was served from the cache or could be cached is served from the cache from then
/// on, with the same notes and whether or not the database answers.
pub proof fn cached_list_is_served_again(
    before: Store,
    seen: Option<Seq<char>>,
    selected: Result<Seq<NoteRowView>, ()>,
    first: Seq<NoteView>,
    between: Store,
    selected_again: Result<Seq<NoteRowView>, ()>,
    written_again: bool,
    second: Result<Seq<NoteView>, StatusView>,
    after: Store,
)
    requires
        cache::all_storable(first),
        lists(before, seen, selected, true, Ok(first), between),
        lists(between, between.cached, selected_again, written_again, second, after),
    ensures
        between.cached == Some(cache::notes_text(first)),
        second == Ok::<Seq<NoteView>, StatusView>(first),
        after == between,
{
    assert(list::is_cached_list(Some(cache::notes_text(first))));
    cache::cached_text_determines_notes(second->Ok_0, first);
}

/// A row put into a table puts its note into the list of notes, at the same place.
proof fn lemma_added_row_is_added_note(
    before: Seq<NoteRowView>,
    row: NoteRowView,
    after: Seq<NoteRowView>,
)
    requires
        adds_row(before, row, after),
    ensures
        adds_note(note::notes_of(before), note::note_of(row), note::notes_of(after)),
{
    let at = choose|at: int| 0 <= at <= before.len() && after == #[trigger] before.insert(at, row);
    assert(note::notes_of(after) == note::notes_of(before).insert(at, note::note_of(row)));
}

/// A list with one note more holds that note and the others, and is longer by one.
proof fn lemma_added_note(before: Seq<NoteView>, note: NoteView, after: Seq<NoteView>)
    requires
        adds_note(before, note, after),
    ensures
        after.len() == before.len() + 1,
        after.contains(note),
        forall|i: int| 0 <= i < before.len() ==> after.contains(#[trigger] before[i]),
{
    let at = choose|at: int| 0 <= at <= before.len() && after == #[trigger] before.insert(at, note);
    assert(after[at] == note);
    assert forall|i: int| 0 <= i < before.len() implies after.contains(#[trigger] before[i]) by {
        if i < at {
            assert(after[i] == before[i]);
        } else {
            assert(after[i + 1] == before[i]);
        }
    }
}

/// The list that follows a creation has the notes of the table as it was before, and the note
/// that was created. This holds unless the cached text could not be deleted and is served.
pub proof fn created_note_is_listed(
    before: Store,
    title: Seq<char>,
    content: Seq<char>,
    row: NoteRowView,
    deleted: bool,
    created: Result<Option<NoteView>, StatusView>,
    between: Store,
    seen: Option<Seq<char>>,
    written: bool,
    listed: Result<Seq<NoteView>, StatusView>,
    after: Store,
)
    requires
        !text::is_blank(title),
        creates(before, title, content, Ok(row), deleted, created, between),
        deleted || !list::is_cached_list(seen),
        lists(between, seen, Ok(between.rows), written, listed, after),
    ensures
        created matches Ok(Some(note)) && listed matches Ok(notes) && {
            &&& adds_note(note::notes_of(before.rows), note, notes)
            &&& notes.contains(note)
        },
        deleted || written ==> after.coherent(),
{
    created_note_is_the_reply(before, title, content, row, deleted, created, between);
    assert(!list::is_cached_list(seen));
    list_shows_the_table(between, seen, Ok(between.rows), written, listed, after);
    lemma_added_row_is_added_note(before.rows, row, between.rows);
    lemma_added_note(
        note::notes_of(before.rows),
        note::note_of(row),
        note::notes_of(between.rows),
    );
}

/// A creation between two lists adds its note to the second: it has that note, every note of the
/// first, and is longer by one. This holds unless the first list was served from a cache that was
/// not coherent, or the cached text could not be deleted and is served as the second.
pub proof fn creation_adds_one_note_to_the_list(
    start: Store,
    seen: Option<Seq<char>>,
    selected: Result<Seq<NoteRowView>, ()>,
    written: bool,
    first: Seq<NoteView>,
    before: Store,
    title: Seq<char>,
    content: Seq<char>,
    row: NoteRowView,
    deleted: bool,
    created: Result<Option<NoteView>, StatusView>,
    between: Store,
    seen_again: Option<Seq<char>>,
    written_again: bool,
    second: Result<Seq<NoteView>, StatusView>,
    after: Store,
)
    requires
        list::is_cached_list(seen) ==> start.coherent() && cache::all_storable(
            note::notes_of(start.rows),
        ),
        lists(start, seen, selected, written, Ok(first), before),
        !text::is_blank(title),
        creates(before, title, content, Ok(row), deleted, created, between),
        deleted || !list::is_cached_list(seen_again),
        lists(between, seen_again, Ok(between.rows), written_again, second, after),
    ensures
        created matches Ok(Some(note)) && second matches Ok(notes) && {
            &&& adds_note(first, note, notes)
            &&& notes.contains(note)
            &&& forall|i: int| 0 <= i < first.len() ==> notes.contains(#[trigger] first[i])
            &&& notes.len() == first.len() + 1
        },
{
    list_shows_the_table(start, seen, selected, written, Ok(first), before);
    created_note_is_listed(
        before,
        title,
        content,
        row,
        deleted,
        created,
        between,
        seen_again,
        written_again,
        second,
        after,
    );
    lemma_added_note(first, note::note_of(row), second->Ok_0);
}

} // verus!
