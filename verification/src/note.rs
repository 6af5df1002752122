//! Notes, as the database stores them and as clients see them.
use vstd::prelude::*;

use crate::ids;
use crate::status::DbError;
use crate::time::{to_timestamp, Instant, Timestamp, UtcDateTime};

verus! {

/// A row of the table of notes.
pub struct NoteRow {
    pub id: u128,
    pub title: String,
    pub content: String,
    pub created_at: UtcDateTime,
    pub updated_at: UtcDateTime,
}

/// What a row of the table of notes holds.
pub struct NoteRowView {
    pub id: u128,
    pub title: Seq<char>,
    pub content: Seq<char>,
    pub created_at: Instant,
    pub updated_at: Instant,
}

impl View for NoteRow {
    type V = NoteRowView;

    open spec fn view(&self) -> NoteRowView {
        NoteRowView {
            id: self.id,
            title: self.title@,
            content: self.content@,
            created_at: self.created_at@,
            updated_at: self.updated_at@,
        }
    }
}

impl Clone for NoteRow {
    fn clone(&self) -> (res: NoteRow)
        ensures
            res@ == self@,
            res.id == self.id,
            res.title@ == self.title@,
            res.content@ == self.content@,
            res.created_at == self.created_at,
            res.updated_at == self.updated_at,
    {
        NoteRow {
            id: self.id,
            title: self.title.clone(),
            content: self.content.clone(),
            created_at: self.created_at,
            updated_at: self.updated_at,
        }
    }
}

impl NoteRowView {
    /// Whether the calendar holds the instants of the row.
    pub open spec fn valid(self) -> bool {
        self.created_at.valid() && self.updated_at.valid()
    }
}

/// A note, as clients see it.
#[derive(Debug, PartialEq, Eq)]
pub struct Note {
    pub id: String,
    pub title: String,
    pub content: String,
    pub created_at: Option<Timestamp>,
    pub updated_at: Option<Timestamp>,
}

/// What a note holds.
#[verifier::ext_equal]
pub struct NoteView {
    pub id: Seq<char>,
    pub title: Seq<char>,
    pub content: Seq<char>,
    pub created_at: Option<Timestamp>,
    pub updated_at: Option<Timestamp>,
}

impl View for Note {
    type V = NoteView;

    open spec fn view(&self) -> NoteView {
        NoteView {
            id: self.id@,
            title: self.title@,
            content: self.content@,
            created_at: self.created_at,
            updated_at: self.updated_at,
        }
    }
}

impl Clone for Note {
    fn clone(&self) -> (res: Note)
        ensures
            res@ == self@,
            res.id@ == self.id@,
            res.title@ == self.title@,
            res.content@ == self.content@,
            res.created_at == self.created_at,
            res.updated_at == self.updated_at,
    {
        Note {
            id: self.id.clone(),
            title: self.title.clone(),
            content: self.content.clone(),
            created_at: self.created_at,
            updated_at: self.updated_at,
        }
    }
}

/// The note that a row stands for.
pub open spec fn note_of(row: NoteRowView) -> NoteView {
    NoteView {
        id: ids::hyphenated_text(row.id),
        title: row.title,
        content: row.content,
        created_at: Some(row.created_at.timestamp()),
        updated_at: Some(row.updated_at.timestamp()),
    }
}

/// What the rows of a vector hold.
pub open spec fn row_views(rows: Seq<NoteRow>) -> Seq<NoteRowView> {
    rows.map_values(|row: NoteRow| row@)
}

/// What the notes of a vector hold.
pub open spec fn note_views(notes: Seq<Note>) -> Seq<NoteView> {
    notes.map_values(|note: Note| note@)
}

/// The notes that rows stand for, in the order of the rows.
pub open spec fn notes_of(rows: Seq<NoteRowView>) -> Seq<NoteView> {
    rows.map_values(|row: NoteRowView| note_of(row))
}

/// What the database has answered to an insertion, the description of an error left out.
pub open spec fn row_result(inserted: Result<NoteRow, DbError>) -> Result<NoteRowView, ()> {
    match inserted {
        Ok(row) => Ok(row@),
        Err(_) => Err(()),
    }
}

/// What the database has answered to a selection, the description of an error left out.
pub open spec fn rows_result(selected: Result<Vec<NoteRow>, DbError>) -> Result<
    Seq<NoteRowView>,
    (),
> {
    match selected {
        Ok(rows) => Ok(row_views(rows@)),
        Err(_) => Err(()),
    }
}

/// Turns a row into the note that it stands for.
pub fn map_note(row: NoteRow) -> (res: Note)
    ensures
        row@.valid(),
        res@ == note_of(row@),
        res.id@ == ids::hyphenated_text(row.id),
        res.title@ == row.title@,
        res.content@ == row.content@,
        res.created_at == Some(row.created_at@.timestamp()),
        res.updated_at == Some(row.updated_at@.timestamp()),
{
    Note {
        id: ids::uuid_to_string(row.id),
        title: row.title,
        content: row.content,
        created_at: Some(to_timestamp(row.created_at)),
        updated_at: Some(to_timestamp(row.updated_at)),
    }
}

/// Turns rows into the notes that they stand for, in the order of the rows.
pub fn map_notes(rows: Vec<NoteRow>) -> (res: Vec<Note>)
    ensures
        forall|i: int| 0 <= i < rows@.len() ==> (#[trigger] rows@[i])@.valid(),
        note_views(res@) == notes_of(row_views(rows@)),
        res.len() == rows.len(),
        forall|i: int|
            0 <= i < rows.len() ==> {
                &&& (#[trigger] res[i]).id@ == ids::hyphenated_text(rows[i].id)
                &&& res[i].title@ == rows[i].title@
                &&& res[i].content@ == rows[i].content@
                &&& res[i].created_at == Some(rows[i].created_at@.timestamp())
                &&& res[i].updated_at == Some(rows[i].updated_at@.timestamp())
            },
{
    let mut res: Vec<Note> = Vec::new();
    for row in iter: rows
        invariant
            iter.seq() == rows@,
            forall|i: int| 0 <= i < iter.index() ==> (#[trigger] rows@[i])@.valid(),
            note_views(res@) == notes_of(row_views(rows@.take(iter.index()))),
            res.len() == iter.index(),
            forall|i: int|
                0 <= i < iter.index() ==> {
                    &&& (#[trigger] res[i]).id@ == ids::hyphenated_text(rows[i].id)
                    &&& res[i].title@ == rows[i].title@
                    &&& res[i].content@ == rows[i].content@
                    &&& res[i].created_at == Some(rows[i].created_at@.timestamp())
                    &&& res[i].updated_at == Some(rows[i].updated_at@.timestamp())
                },
    {
        let ghost before = note_views(res@);
        let note = map_note(row);
        res.push(note);
        assert(note_views(res@) == before.push(note@));
    }
    assert(rows@.take(rows@.len() as int) == rows@);
    res
}

/// Whether rows come in descending order of their creation.
pub open spec fn newest_row_first(rows: Seq<NoteRowView>) -> bool {
    forall|i: int, j: int|
        0 <= i < j < rows.len() ==> !(#[trigger] rows[i]).created_at.before(
            (#[trigger] rows[j]).created_at,
        )
}

/// Whether notes come in descending order of their creation.
pub open spec fn newest_note_first(notes: Seq<NoteView>) -> bool {
    forall|i: int, j: int|
        0 <= i < j < notes.len() ==> {
            &&& (#[trigger] notes[i]).created_at matches Some(a)
            &&& (#[trigger] notes[j]).created_at matches Some(b)
            &&& !a.before(b)
        }
}

/// Where the rows come with the newest first, so do their notes.
pub proof fn notes_keep_newest_first(rows: Seq<NoteRowView>)
    requires
        forall|i: int| 0 <= i < rows.len() ==> (#[trigger] rows[i]).valid(),
        newest_row_first(rows),
    ensures
        newest_note_first(notes_of(rows)),
{
    assert forall|i: int, j: int| 0 <= i < j < rows.len() implies !rows[i].created_at.timestamp().before(
        rows[j].created_at.timestamp(),
    ) by {
        crate::time::timestamps_keep_order(rows[i].created_at, rows[j].created_at);
    }
}

/// Rows with different ids have notes with different ids.
pub proof fn note_ids_tell_rows_apart(a: NoteRowView, b: NoteRowView)
    requires
        note_of(a).id == note_of(b).id,
    ensures
        a.id == b.id,
{
    ids::canonical_text_denotes_its_id(a.id);
    ids::canonical_text_denotes_its_id(b.id);
    ids::text_denotes_one_id(note_of(a).id, a.id, b.id);
}

/// What a row holds is what its fields hold.
pub proof fn row_shows_its_fields(row: NoteRow)
    ensures
        row@.id == row.id,
        row@.title == row.title@,
        row@.content == row.content@,
        row@.created_at == row.created_at@,
        row@.updated_at == row.updated_at@,
{
}

/// What a note holds is what its fields hold.
pub proof fn note_shows_its_fields(note: Note)
    ensures
        note@.id == note.id@,
        note@.title == note.title@,
        note@.content == note.content@,
        note@.created_at == note.created_at,
        note@.updated_at == note.updated_at,
{
}

/// A note has the title and the content of its row, the canonical text of its id, and timestamps
/// that count the seconds from the start of 1970 to its instants.
pub proof fn note_shows_its_row(row: NoteRowView)
    requires
        row.valid(),
    ensures
        note_of(row).title == row.title,
        note_of(row).content == row.content,
        note_of(row).id == ids::hyphenated_text(row.id),
        note_of(row).created_at matches Some(at) && {
            &&& at.seconds == 86_400 * (row.created_at.day - 719_163) + row.created_at.second
            &&& at.nanos == row.created_at.nanosecond
        },
        note_of(row).updated_at matches Some(at) && {
            &&& at.seconds == 86_400 * (row.updated_at.day - 719_163) + row.updated_at.second
            &&& at.nanos == row.updated_at.nanosecond
        },
{
    crate::time::timestamp_counts_days_and_seconds(row.created_at);
    crate::time::timestamp_counts_days_and_seconds(row.updated_at);
}

/// A row is valid exactly when both of its instants are.
pub proof fn valid_row_has_valid_instants(row: NoteRowView)
    ensures
        row.valid() <==> row.created_at.valid() && row.updated_at.valid(),
{
}

/// There is one note for each row, at the place of the row.
pub proof fn notes_stand_at_the_places_of_their_rows(rows: Seq<NoteRowView>)
    ensures
        notes_of(rows).len() == rows.len(),
        forall|i: int| 0 <= i < rows.len() ==> #[trigger] notes_of(rows)[i] == note_of(rows[i]),
{
}

/// What rows hold is what each of them holds, in order.
pub proof fn rows_show_each_row(rows: Seq<NoteRow>)
    ensures
        row_views(rows).len() == rows.len(),
        forall|i: int| 0 <= i < rows.len() ==> #[trigger] row_views(rows)[i] == rows[i]@,
{
}

/// What notes hold is what each of them holds, in order.
pub proof fn notes_show_each_note(notes: Seq<Note>)
    ensures
        note_views(notes).len() == notes.len(),
        forall|i: int| 0 <= i < notes.len() ==> #[trigger] note_views(notes)[i] == notes[i]@,
{
}

/// An insertion that succeeds gives what its row holds, and one that fails gives nothing.
pub proof fn insertion_gives_its_row(row: NoteRow, failure: DbError)
    ensures
        row_result(Ok(row)) == Ok::<NoteRowView, ()>(row@),
        row_result(Err(failure)) is Err,
{
}

/// A selection that succeeds gives what its rows hold, in order, and one that fails gives nothing.
pub proof fn selection_gives_its_rows(rows: Vec<NoteRow>, failure: DbError)
    ensures
        rows_result(Ok(rows)) matches Ok(views) && {
            &&& views.len() == rows@.len()
            &&& forall|i: int| 0 <= i < views.len() ==> #[trigger] views[i] == rows@[i]@
        },
        rows_result(Err(failure)) is Err,
{
}

/// Rows come with the newest first exactly when no row has fewer nanoseconds before its creation
/// than a row behind it.
pub proof fn newest_row_is_the_latest(rows: Seq<NoteRowView>)
    requires
        forall|i: int| 0 <= i < rows.len() ==> (#[trigger] rows[i]).valid(),
    ensures
        newest_row_first(rows) <==> forall|i: int, j: int|
            0 <= i < j < rows.len() ==> {
                let a = (#[trigger] rows[i]).created_at;
                let b = (#[trigger] rows[j]).created_at;
                (b.day * 86_400 + b.second) * 2_000_000_000 + b.nanosecond <= (a.day * 86_400
                    + a.second) * 2_000_000_000 + a.nanosecond
            },
{
    assert forall|i: int, j: int| 0 <= i < j < rows.len() implies {
        let a = (#[trigger] rows[i]).created_at;
        let b = (#[trigger] rows[j]).created_at;
        a.before(b) <==> (a.day * 86_400 + a.second) * 2_000_000_000 + a.nanosecond < (b.day
            * 86_400 + b.second) * 2_000_000_000 + b.nanosecond
    } by {
        crate::time::instants_are_ordered_by_time(rows[i].created_at, rows[j].created_at);
    }
}

/// Notes come with the newest first exactly when each of two or more has a time of creation, and
/// none is earlier than that of a note behind it.
pub proof fn newest_note_is_the_latest(notes: Seq<NoteView>)
    ensures
        newest_note_first(notes) <==> forall|i: int, j: int|
            0 <= i < j < notes.len() ==> {
                &&& (#[trigger] notes[i]).created_at matches Some(a)
                &&& (#[trigger] notes[j]).created_at matches Some(b)
                &&& b.seconds * 0x1_0000_0000 + b.nanos <= a.seconds * 0x1_0000_0000 + a.nanos
            },
{
}

} // verus!
