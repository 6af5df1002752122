//! The `ListNotes` call.
//!
//! `list_notes` begins the call. Each step says what to do next, and whom to tell how it went:
//! read the cache, ask the database, write the cache, or send the reply.
use vstd::prelude::*;

use crate::cache::{self, decode_notes, encode_notes, CacheError, NOTES_LIST_KEY};
use crate::note::{self, map_notes, Note, NoteRow, NoteRowView, NoteView};
use crate::status::{self, map_db_error, Code, DbError, Status, StatusView};

verus! {

/// The statement that returns all rows of the table of notes, the newest first.
pub const SELECT_NOTES: &'static str = "SELECT id, title, content, created_at, updated_at FROM notes ORDER BY created_at DESC";

/// The reply to `ListNotes`.
#[derive(Debug)]
pub struct ListNotesResponse {
    pub notes: Vec<Note>,
}

/// Waits for the cached text.
pub struct AwaitCached {
    waiting: (),
}

/// Waits for the rows of the table.
pub struct AwaitRows {
    waiting: (),
}

/// Waits until the text has been cached, to reply with the notes.
pub struct AwaitWrite {
    notes: Vec<Note>,
}

impl View for AwaitWrite {
    type V = Seq<NoteView>;

    closed spec fn view(&self) -> Seq<NoteView> {
        note::note_views(self.notes@)
    }
}

/// What to do next in `ListNotes`.
pub enum ListStep {
    /// Read the text that is cached under `key`.
    Read { key: &'static str, next: AwaitCached },
    /// Select the rows of the table, with the given statement.
    Select { statement: &'static str, next: AwaitRows },
    /// Cache a text under `key`.
    Write { key: &'static str, text: String, next: AwaitWrite },
    /// Send the reply.
    Reply(Result<ListNotesResponse, Status>),
}

/// What a step of `ListNotes` says.
pub enum ListStepView {
    Read { key: Seq<char> },
    Select { statement: Seq<char> },
    Write { key: Seq<char>, text: Seq<char>, notes: Seq<NoteView> },
    Reply(Result<Seq<NoteView>, StatusView>),
}

impl View for ListStep {
    type V = ListStepView;

    open spec fn view(&self) -> ListStepView {
        match *self {
            ListStep::Read { key, next } => ListStepView::Read { key: key@ },
            ListStep::Select { statement, next } => ListStepView::Select { statement: statement@ },
            ListStep::Write { key, text, next } => ListStepView::Write {
                key: key@,
                text: text@,
                notes: next@,
            },
            ListStep::Reply(Ok(response)) => ListStepView::Reply(
                Ok(note::note_views(response.notes@)),
            ),
            ListStep::Reply(Err(status)) => ListStepView::Reply(Err(status@)),
        }
    }
}

/// Whether the cached text, if there is one, is that of a list of notes.
pub open spec fn is_cached_list(cached: Option<Seq<char>>) -> bool {
    exists|notes: Seq<NoteView>| cached == Some(#[trigger] cache::notes_text(notes))
}

/// The text that a read of the cache has returned, if there is one. A read that failed has
/// returned none.
pub open spec fn text_read(read: Result<Option<String>, CacheError>) -> Option<Seq<char>> {
    match read {
        Ok(Some(text)) => Some(text@),
        _ => None,
    }
}

/// The first step.
pub open spec fn first_step() -> ListStepView {
    ListStepView::Read { key: NOTES_LIST_KEY@ }
}

/// Whether `step` is the step once the cache has returned `seen`: where that is the text of a
/// list of notes, the list is the reply; where it is not, the database is asked.
pub open spec fn is_step_on_cached(seen: Option<Seq<char>>, step: ListStepView) -> bool {
    if is_cached_list(seen) {
        step matches ListStepView::Reply(Ok(notes)) && {
            &&& cache::all_storable(notes)
            &&& seen == Some(cache::notes_text(notes))
        }
    } else {
        step == (ListStepView::Select { statement: SELECT_NOTES@ })
    }
}

/// The step once the database has answered: its notes are cached; without them the call fails.
pub open spec fn step_on_rows(selected: Result<Seq<NoteRowView>, ()>) -> ListStepView {
    match selected {
        Ok(rows) => ListStepView::Write {
            key: NOTES_LIST_KEY@,
            text: cache::notes_text(note::notes_of(rows)),
            notes: note::notes_of(rows),
        },
        Err(_) => ListStepView::Reply(Err(status::db_failure())),
    }
}

/// The step once the cache has answered: the notes are the reply, whether or not the text could
/// be cached.
pub open spec fn step_on_write(notes: Seq<NoteView>) -> ListStepView {
    ListStepView::Reply(Ok(notes))
}

/// Begins `ListNotes`.
pub fn list_notes() -> (res: ListStep)
    ensures
        res@ == first_step(),
        res matches ListStep::Read { key, .. } && key@ == "notes:list"@,
{
    ListStep::Read { key: NOTES_LIST_KEY, next: AwaitCached { waiting: () } }
}

impl AwaitCached {
    /// Goes on once the cache has answered.
    pub fn read(self, read: Result<Option<String>, CacheError>) -> (res: ListStep)
        ensures
            is_step_on_cached(text_read(read), res@),
            match res {
                ListStep::Reply(Ok(response)) => {
                    &&& read matches Ok(Some(text))
                    &&& text@ == cache::notes_text(note::note_views(response.notes@))
                },
                ListStep::Select { statement, .. } => {
                    &&& read matches Ok(Some(text)) ==> forall|notes: Seq<NoteView>|
                        text@ != #[trigger] cache::notes_text(notes)
                    &&& statement@
                        == "SELECT id, title, content, created_at, updated_at FROM notes ORDER BY created_at DESC"@
                },
                _ => false,
            },
    {
        match read {
            Ok(Some(text)) => match decode_notes(text.as_str()) {
                Some(notes) => {
                    assert(is_cached_list(
                        Some(cache::notes_text(note::note_views(notes@))),
                    ));
                    ListStep::Reply(Ok(ListNotesResponse { notes }))
                },
                None => ListStep::Select {
                    statement: SELECT_NOTES,
                    next: AwaitRows { waiting: () },
                },
            },
            _ => ListStep::Select {
                    statement: SELECT_NOTES,
                    next: AwaitRows { waiting: () },
                },
        }
    }
}

impl AwaitRows {
    /// Goes on once the database has answered.
    pub fn selected(self, selected: Result<Vec<NoteRow>, DbError>) -> (res: ListStep)
        ensures
            res@ == step_on_rows(note::rows_result(selected)),
            selected matches Ok(rows) ==> {
                &&& cache::all_storable(note::notes_of(note::row_views(rows@)))
                &&& forall|i: int| 0 <= i < rows@.len() ==> (#[trigger] rows@[i])@.valid()
            },
            selected matches Ok(rows) ==> {
                &&& res matches ListStep::Write { key, text, next }
                &&& key@ == "notes:list"@
                &&& text@ == cache::notes_text(next@)
                &&& next@ == note::notes_of(note::row_views(rows@))
            },
            selected is Err ==> {
                &&& res matches ListStep::Reply(Err(failure))
                &&& failure.code == Code::Internal
                &&& failure.message@ == "database operation failed"@
            },
    {
        match selected {
            Ok(rows) => {
                let notes = map_notes(rows);
                let text = encode_notes(&notes);
                ListStep::Write { key: NOTES_LIST_KEY, text, next: AwaitWrite { notes } }
            },
            Err(err) => ListStep::Reply(Err(map_db_error(err))),
        }
    }
}

impl AwaitWrite {
    /// Goes on once the cache has answered.
    pub fn written(self, _written: Result<(), CacheError>) -> (res: ListStep)
        ensures
            res@ == step_on_write(self@),
            res matches ListStep::Reply(Ok(response)) && note::note_views(response.notes@)
                == self@,
    {
        ListStep::Reply(Ok(ListNotesResponse { notes: self.notes }))
    }
}

/// What a step says is what its fields hold.
pub proof fn step_shows_its_fields(step: ListStep)
    ensures
        step matches ListStep::Read { key, .. } ==> step@ == (ListStepView::Read { key: key@ }),
        step matches ListStep::Select { statement, .. } ==> step@ == (ListStepView::Select {
            statement: statement@,
        }),
        step matches ListStep::Write { key, text, next } ==> step@ == (ListStepView::Write {
            key: key@,
            text: text@,
            notes: next@,
        }),
        step matches ListStep::Reply(Ok(response)) ==> {
            &&& step@ matches ListStepView::Reply(Ok(notes))
            &&& notes.len() == response.notes@.len()
            &&& forall|i: int| 0 <= i < notes.len() ==> #[trigger] notes[i] == response.notes@[i]@
        },
        step matches ListStep::Reply(Err(status)) ==> step@ == ListStepView::Reply(
            Err(StatusView { code: status.code, message: status.message@ }),
        ),
{
}

/// The call begins with a read of the cached list.
pub proof fn cache_is_read_first()
    ensures
        first_step() == (ListStepView::Read { key: "notes:list"@ }),
{
}

/// A read of the cache returns the text that it has found. One that has found none returns none,
/// and so does one that has failed.
pub proof fn read_returns_the_text_found(text: String, failure: CacheError)
    ensures
        text_read(Ok(Some(text))) == Some(text@),
        text_read(Ok(None)) is None,
        text_read(Err(failure)) is None,
{
}

/// Where the cache holds the text of a list of notes, the reply is exactly that list.
pub proof fn cached_list_is_the_reply(notes: Seq<NoteView>, step: ListStepView)
    requires
        forall|i: int|
            0 <= i < notes.len() ==> {
                &&& (#[trigger] notes[i]).id.len() <= u64::MAX
                &&& notes[i].title.len() <= u64::MAX
                &&& notes[i].content.len() <= u64::MAX
            },
    ensures
        is_step_on_cached(Some(cache::notes_text(notes)), step) <==> step == ListStepView::Reply(
            Ok(notes),
        ),
{
    let seen = Some(cache::notes_text(notes));
    assert(is_cached_list(seen));
    assert(cache::all_storable(notes));
    if is_step_on_cached(seen, step) {
        let reply = step->Reply_0->Ok_0;
        cache::cached_text_determines_notes(reply, notes);
    }
}

/// Where the cache holds nothing, or a text that is not that of a list of notes, the database is
/// asked for the rows, the newest first.
pub proof fn database_is_asked_where_no_list_is_cached(
    seen: Option<Seq<char>>,
    step: ListStepView,
)
    requires
        seen matches Some(text) ==> forall|notes: Seq<NoteView>|
            text != #[trigger] cache::notes_text(notes),
    ensures
        is_step_on_cached(seen, step) <==> step == (ListStepView::Select {
            statement:
                "SELECT id, title, content, created_at, updated_at FROM notes ORDER BY created_at DESC"@,
        }),
{
    assert(!is_cached_list(seen));
}

/// The notes of all rows that the database returns are cached, in their order and under the key
/// that is read first; they are kept for the reply. Where the database fails, the reply is a
/// failure that does not tell why.
pub proof fn selected_notes_are_cached(rows: Seq<NoteRowView>)
    ensures
        step_on_rows(Ok(rows)) matches ListStepView::Write { key, text, notes } && {
            &&& key == "notes:list"@
            &&& text == cache::notes_text(notes)
            &&& notes.len() == rows.len()
            &&& forall|i: int|
                0 <= i < rows.len() ==> #[trigger] notes[i] == note::note_of(rows[i])
        },
        step_on_rows(Err(())) == ListStepView::Reply(
            Err(StatusView { code: Code::Internal, message: "database operation failed"@ }),
        ),
{
}

/// The reply has the notes that were to be cached.
pub proof fn notes_kept_are_the_reply(notes: Seq<NoteView>)
    ensures
        step_on_write(notes) == ListStepView::Reply(Ok(notes)),
{
}

} // verus!
