//! The `CreateNote` call.
//!
//! `create_note` begins the call. Each step says what to do next, and whom to tell how it went:
//! insert a note, delete a cached text, or send the reply.
use vstd::prelude::*;

use crate::cache::{CacheError, NOTES_LIST_KEY};
use crate::note::{self, map_note, Note, NoteRow, NoteRowView, NoteView};
use crate::status::{self, map_db_error, Code, DbError, Status, StatusView};
use crate::text;

verus! {

/// The statement that stores a note. Its parameters are the title and the content; it returns
/// the row that was stored.
pub const INSERT_NOTE: &'static str = "INSERT INTO notes (title, content) VALUES ($1, $2) RETURNING id, title, content, created_at, updated_at";

/// A request to create a note.
#[derive(Debug)]
pub struct CreateNoteRequest {
    pub title: String,
    pub content: String,
}

/// The title and the content of a note to insert.
#[derive(Debug)]
pub struct NewNote {
    pub title: String,
    pub content: String,
}

/// The reply to `CreateNote`.
#[derive(Debug)]
pub struct CreateNoteResponse {
    pub note: Option<Note>,
}

/// Waits for the row that was inserted.
pub struct AwaitRow {
    waiting: (),
}

/// Waits until the cached text has been deleted, to reply with the note that was stored.
pub struct AwaitDeletion {
    note: Note,
}

impl View for AwaitDeletion {
    type V = NoteView;

    closed spec fn view(&self) -> NoteView {
        self.note@
    }
}

/// What to do next in `CreateNote`.
pub enum CreateStep {
    /// Insert a note into the database, with the given statement.
    Insert { statement: &'static str, note: NewNote, next: AwaitRow },
    /// Delete the text that is cached under `key`.
    Delete { key: &'static str, next: AwaitDeletion },
    /// Send the reply.
    Reply(Result<CreateNoteResponse, Status>),
}

/// What a step of `CreateNote` says.
pub enum CreateStepView {
    Insert { statement: Seq<char>, title: Seq<char>, content: Seq<char> },
    Delete { key: Seq<char>, note: NoteView },
    Reply(Result<Option<NoteView>, StatusView>),
}

impl View for CreateStep {
    type V = CreateStepView;

    open spec fn view(&self) -> CreateStepView {
        match *self {
            CreateStep::Insert { statement, note, next } => CreateStepView::Insert {
                statement: statement@,
                title: note.title@,
                content: note.content@,
            },
            CreateStep::Delete { key, next } => CreateStepView::Delete { key: key@, note: next@ },
            CreateStep::Reply(Ok(response)) => CreateStepView::Reply(
                Ok(
                    match response.note {
                        Some(note) => Some(note@),
                        None => None,
                    },
                ),
            ),
            CreateStep::Reply(Err(status)) => CreateStepView::Reply(Err(status@)),
        }
    }
}

/// The first step: a request with a blank title is refused; any other is stored, its title
/// trimmed.
pub open spec fn step_on_request(title: Seq<char>, content: Seq<char>) -> CreateStepView {
    if text::is_blank(title) {
        CreateStepView::Reply(Err(status::invalid_argument("title is required"@)))
    } else {
        CreateStepView::Insert { statement: INSERT_NOTE@, title: text::trimmed(title), content }
    }
}

/// The step once the database has answered: where the note was stored, the cached list is stale;
/// where it was not, the call fails.
pub open spec fn step_on_row(inserted: Result<NoteRowView, ()>) -> CreateStepView {
    match inserted {
        Ok(row) => CreateStepView::Delete { key: NOTES_LIST_KEY@, note: note::note_of(row) },
        Err(_) => CreateStepView::Reply(Err(status::db_failure())),
    }
}

/// The step once the cache has answered: the note that was stored is the reply, whether or not
/// the text could be deleted.
pub open spec fn step_on_deletion(note: NoteView) -> CreateStepView {
    CreateStepView::Reply(Ok(Some(note)))
}

/// Begins `CreateNote`.
pub fn create_note(request: CreateNoteRequest) -> (res: CreateStep)
    ensures
        res@ == step_on_request(request.title@, request.content@),
        text::is_blank(request.title@) ==> {
            &&& res matches CreateStep::Reply(Err(refusal))
            &&& refusal.code == Code::InvalidArgument
            &&& refusal.message@ == "title is required"@
        },
        !text::is_blank(request.title@) ==> {
            &&& res matches CreateStep::Insert { statement, note, .. }
            &&& statement@
                == "INSERT INTO notes (title, content) VALUES ($1, $2) RETURNING id, title, content, created_at, updated_at"@
            &&& note.title@ == text::trimmed(request.title@)
            &&& note.content@ == request.content@
        },
{
    let title = text::trim(request.title.as_str());
    proof {
        text::blank_is_trimmed_to_nothing(request.title@);
    }
    if title.as_str().is_empty() {
        return CreateStep::Reply(Err(Status::invalid_argument("title is required")));
    }
    CreateStep::Insert {
        statement: INSERT_NOTE,
        note: NewNote { title, content: request.content },
        next: AwaitRow { waiting: () },
    }
}

impl AwaitRow {
    /// Goes on once the database has answered.
    pub fn inserted(self, inserted: Result<NoteRow, DbError>) -> (res: CreateStep)
        ensures
            res@ == step_on_row(note::row_result(inserted)),
            inserted matches Ok(row) ==> row@.valid(),
            inserted matches Ok(row) ==> {
                &&& res matches CreateStep::Delete { key, next }
                &&& key@ == "notes:list"@
                &&& next@ == note::note_of(row@)
            },
            inserted is Err ==> {
                &&& res matches CreateStep::Reply(Err(failure))
                &&& failure.code == Code::Internal
                &&& failure.message@ == "database operation failed"@
            },
    {
        match inserted {
            Ok(row) => CreateStep::Delete {
                key: NOTES_LIST_KEY,
                next: AwaitDeletion { note: map_note(row) },
            },
            Err(err) => CreateStep::Reply(Err(map_db_error(err))),
        }
    }
}

impl AwaitDeletion {
    /// Goes on once the cache has answered.
    pub fn deleted(self, _deleted: Result<(), CacheError>) -> (res: CreateStep)
        ensures
            res@ == step_on_deletion(self@),
            res matches CreateStep::Reply(Ok(response)) && response.note matches Some(note)
                && note@ == self@,
    {
        CreateStep::Reply(Ok(CreateNoteResponse { note: Some(self.note) }))
    }
}

/// What a step says is what its fields hold.
pub proof fn step_shows_its_fields(step: CreateStep)
    ensures
        step matches CreateStep::Insert { statement, note, .. } ==> step@ == (
        CreateStepView::Insert {
            statement: statement@,
            title: note.title@,
            content: note.content@,
        }),
        step matches CreateStep::Delete { key, next } ==> step@ == (CreateStepView::Delete {
            key: key@,
            note: next@,
        }),
        step matches CreateStep::Reply(Ok(response)) ==> {
            &&& response.note matches Some(note) ==> step@ == CreateStepView::Reply(
                Ok(Some(note@)),
            )
            &&& response.note is None ==> step@ == CreateStepView::Reply(Ok(None))
        },
        step matches CreateStep::Reply(Err(status)) ==> step@ == CreateStepView::Reply(
            Err(StatusView { code: status.code, message: status.message@ }),
        ),
{
}

/// A title with no character but white space is refused, whatever the content is.
pub proof fn blank_title_is_refused(title: Seq<char>, content: Seq<char>)
    requires
        forall|c: char| #[trigger] title.contains(c) ==> text::is_white_space(c),
    ensures
        step_on_request(title, content) == CreateStepView::Reply(
            Err(StatusView { code: Code::InvalidArgument, message: "title is required"@ }),
        ),
{
    text::blank_text_holds_white_space_alone(title);
}

/// A title with some other character is stored without the white space around it, and its content
/// is stored as it is.
pub proof fn title_is_stored_without_white_space_around(
    a: Seq<char>,
    title: Seq<char>,
    b: Seq<char>,
    content: Seq<char>,
)
    requires
        forall|k: int| 0 <= k < a.len() ==> text::is_white_space(#[trigger] a[k]),
        forall|k: int| 0 <= k < b.len() ==> text::is_white_space(#[trigger] b[k]),
        title.len() > 0,
        !text::is_white_space(title.first()),
        !text::is_white_space(title.last()),
    ensures
        step_on_request(a + title + b, content) == (CreateStepView::Insert {
            statement:
                "INSERT INTO notes (title, content) VALUES ($1, $2) RETURNING id, title, content, created_at, updated_at"@,
            title,
            content,
        }),
{
    let s = a + title + b;
    text::trimming_takes_off_white_space_around(a, title, b);
    text::blank_is_trimmed_to_nothing(s);
}

/// Where a note was stored, the cached list is deleted and the note of its row is kept for the
/// reply; where it was not, the reply is a failure that does not tell why.
pub proof fn stored_note_makes_the_cached_list_stale(row: NoteRowView)
    ensures
        step_on_row(Ok(row)) == (CreateStepView::Delete {
            key: "notes:list"@,
            note: note::note_of(row),
        }),
        step_on_row(Err(())) == CreateStepView::Reply(
            Err(StatusView { code: Code::Internal, message: "database operation failed"@ }),
        ),
{
}

/// The reply has the note that was stored.
pub proof fn stored_note_is_the_reply(note: NoteView)
    ensures
        step_on_deletion(note) == CreateStepView::Reply(Ok(Some(note))),
{
}

} // verus!
