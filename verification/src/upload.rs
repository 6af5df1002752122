//! The `UploadDocument` call.
//!
//! The messages of the client's stream are taken in one by one. When the stream has ended,
//! `Upload::finish` says what to insert, and when the database has answered, `document_stored`
//! says what to reply.
use vstd::prelude::*;

use crate::ids;
use crate::status::{self, map_db_error, Code, DbError, Status};

verus! {

/// The statement that stores a document. Its parameters are the id of the note, the name of the
/// file and the content; it returns the id of the document.
pub const INSERT_DOCUMENT: &'static str = "INSERT INTO documents (note_id, filename, content) VALUES ($1, $2, $3) RETURNING id";

/// A message of the client's stream. The first carries the id of the note and the name of the
/// file; the others may leave them empty.
#[derive(Debug)]
pub struct UploadDocumentRequest {
    pub note_id: String,
    pub filename: String,
    pub chunk: Vec<u8>,
}

/// What a message of the client's stream holds.
pub struct MessageView {
    pub note_id: Seq<char>,
    pub filename: Seq<char>,
    pub chunk: Seq<u8>,
}

impl View for UploadDocumentRequest {
    type V = MessageView;

    open spec fn view(&self) -> MessageView {
        MessageView { note_id: self.note_id@, filename: self.filename@, chunk: self.chunk@ }
    }
}

/// What has been received of a document.
pub struct Upload {
    note_id: String,
    filename: String,
    content: Vec<u8>,
}

/// What has been received of a document: the first id of a note that was not empty, the first
/// name of a file that was not empty, and the chunks one behind the other.
#[verifier::ext_equal]
pub struct UploadView {
    pub note_id: Seq<char>,
    pub filename: Seq<char>,
    pub content: Seq<u8>,
}

impl View for Upload {
    type V = UploadView;

    closed spec fn view(&self) -> UploadView {
        UploadView { note_id: self.note_id@, filename: self.filename@, content: self.content@ }
    }
}

/// `known`, or `given` where `known` is empty.
pub open spec fn known_or(known: Seq<char>, given: Seq<char>) -> Seq<char> {
    if known.len() == 0 {
        given
    } else {
        known
    }
}

impl UploadView {
    /// Nothing received yet.
    pub open spec fn empty() -> UploadView {
        UploadView { note_id: Seq::empty(), filename: Seq::empty(), content: Seq::empty() }
    }

    /// What has been received once another message has come.
    pub open spec fn with(self, message: MessageView) -> UploadView {
        UploadView {
            note_id: known_or(self.note_id, message.note_id),
            filename: known_or(self.filename, message.filename),
            content: self.content + message.chunk,
        }
    }
}

/// What has been received once the given messages have come.
pub open spec fn received(messages: Seq<MessageView>) -> UploadView
    decreases messages.len(),
{
    if messages.len() == 0 {
        UploadView::empty()
    } else {
        received(messages.drop_last()).with(messages.last())
    }
}

/// A document to insert with the given statement, and the number of its bytes.
#[derive(Debug)]
pub struct NewDocument {
    pub statement: &'static str,
    pub note_id: u128,
    pub filename: String,
    pub content: Vec<u8>,
    pub bytes_received: i64,
}

/// The reply to `UploadDocument`.
#[derive(Debug)]
pub struct UploadDocumentResponse {
    pub document_id: String,
    pub bytes_received: i64,
}

impl Upload {
    /// Begins an upload.
    pub fn new() -> (res: Upload)
        ensures
            res@ == UploadView::empty(),
            res@.note_id.len() == 0,
            res@.filename.len() == 0,
            res@.content.len() == 0,
    {
        Upload { note_id: String::new(), filename: String::new(), content: Vec::new() }
    }

    /// The number of bytes received.
    pub fn bytes_received(&self) -> (res: usize)
        ensures
            res == self@.content.len(),
    {
        self.content.len()
    }

    /// Takes in a message.
    pub fn receive(&mut self, message: UploadDocumentRequest)
        ensures
            final(self)@ == old(self)@.with(message@),
            final(self)@.content == old(self)@.content + message.chunk@,
            old(self)@.note_id.len() > 0 ==> final(self)@.note_id == old(self)@.note_id,
            old(self)@.note_id.len() == 0 ==> final(self)@.note_id == message.note_id@,
            old(self)@.filename.len() > 0 ==> final(self)@.filename == old(self)@.filename,
            old(self)@.filename.len() == 0 ==> final(self)@.filename == message.filename@,
    {
        if self.note_id.as_str().is_empty() {
            self.note_id = message.note_id;
        }
        if self.filename.as_str().is_empty() {
            self.filename = message.filename;
        }
        let mut chunk = message.chunk;
        self.content.append(&mut chunk);
    }

    /// Ends an upload. One whose id of a note is no UUID is refused.
    pub fn finish(self) -> (res: Result<NewDocument, Status>)
        requires
            self@.content.len() <= i64::MAX,
        ensures
            match res {
                Ok(document) => {
                    &&& document.statement@ == INSERT_DOCUMENT@
                    &&& document.statement@
                        == "INSERT INTO documents (note_id, filename, content) VALUES ($1, $2, $3) RETURNING id"@
                    &&& ids::denotes(self@.note_id, document.note_id)
                    &&& document.filename@ == self@.filename
                    &&& document.content@ == self@.content
                    &&& document.bytes_received == self@.content.len()
                },
                Err(refusal) => {
                    &&& forall|id: u128| !ids::denotes(self@.note_id, id)
                    &&& refusal@ == status::invalid_argument("note_id must be a UUID"@)
                    &&& refusal.code == Code::InvalidArgument
                    &&& refusal.message@ == "note_id must be a UUID"@
                },
            },
    {
        match ids::parse_uuid(self.note_id.as_str()) {
            Some(note_id) => {
                let bytes_received = self.content.len() as i64;
                Ok(
                    NewDocument {
                        statement: INSERT_DOCUMENT,
                        note_id,
                        filename: self.filename,
                        content: self.content,
                        bytes_received,
                    },
                )
            },
            None => Err(Status::invalid_argument("note_id must be a UUID")),
        }
    }
}

/// Answers `UploadDocument` once the database has answered with the id of the document.
pub fn document_stored(
    bytes_received: i64,
    inserted: Result<u128, DbError>,
) -> (res: Result<UploadDocumentResponse, Status>)
    ensures
        match inserted {
            Ok(id) => res matches Ok(response) && {
                &&& response.document_id@ == ids::hyphenated_text(id)
                &&& response.bytes_received == bytes_received
            },
            Err(_) => res matches Err(failure) && {
                &&& failure@ == status::db_failure()
                &&& failure.code == Code::Internal
                &&& failure.message@ == "database operation failed"@
            },
        },
{
    match inserted {
        Ok(id) => Ok(
            UploadDocumentResponse { document_id: ids::uuid_to_string(id), bytes_received },
        ),
        Err(err) => Err(map_db_error(err)),
    }
}

/// The chunks of messages.
pub open spec fn chunks(messages: Seq<MessageView>) -> Seq<Seq<u8>> {
    messages.map_values(|message: MessageView| message.chunk)
}

/// The content of a document is its chunks, one behind the other.
pub proof fn content_is_the_chunks(messages: Seq<MessageView>)
    ensures
        received(messages).content == chunks(messages).flatten(),
    decreases messages.len(),
{
    chunks(messages).lemma_flatten_and_flatten_alt_are_equivalent();
    if messages.len() > 0 {
        content_is_the_chunks(messages.drop_last());
        chunks(messages.drop_last()).lemma_flatten_and_flatten_alt_are_equivalent();
        assert(chunks(messages).drop_last() == chunks(messages.drop_last()));
    }
}

/// Where the first message carries the id of the note and the name of the file, they are taken
/// from it, whatever the later messages carry.
pub proof fn first_message_names_the_document(messages: Seq<MessageView>)
    requires
        messages.len() > 0,
    ensures
        messages.first().note_id.len() > 0 ==> received(messages).note_id
            == messages.first().note_id,
        messages.first().filename.len() > 0 ==> received(messages).filename
            == messages.first().filename,
    decreases messages.len(),
{
    reveal_with_fuel(received, 2);
    if messages.len() > 1 {
        first_message_names_the_document(messages.drop_last());
        assert(messages.drop_last().first() == messages.first());
    }
}

/// What a message holds is what its fields hold.
pub proof fn message_shows_its_fields(message: UploadDocumentRequest)
    ensures
        message@.note_id == message.note_id@,
        message@.filename == message.filename@,
        message@.chunk == message.chunk@,
{
}

/// The chunks of messages are those of each message, in order.
pub proof fn chunks_are_those_of_the_messages(messages: Seq<MessageView>)
    ensures
        chunks(messages).len() == messages.len(),
        forall|i: int| 0 <= i < messages.len() ==> #[trigger] chunks(messages)[i]
            == messages[i].chunk,
{
}

/// Before the first message nothing has been received. Each message puts its chunk, whatever
/// bytes it has, behind the content received so far.
pub proof fn message_adds_its_chunk(messages: Seq<MessageView>, message: MessageView)
    ensures
        received(Seq::empty()).content.len() == 0,
        received(messages.push(message)).content == received(messages).content + message.chunk,
{
    assert(messages.push(message).drop_last() == messages);
}

/// The id of the note is that of the first message that has one; it is empty where none has.
pub proof fn note_id_is_the_first_given(messages: Seq<MessageView>, k: int)
    requires
        0 <= k <= messages.len(),
        forall|i: int| 0 <= i < k ==> (#[trigger] messages[i]).note_id.len() == 0,
        k < messages.len() ==> messages[k].note_id.len() > 0,
    ensures
        k < messages.len() ==> received(messages).note_id == messages[k].note_id,
        k == messages.len() ==> received(messages).note_id.len() == 0,
    decreases messages.len(),
{
    if messages.len() > 0 {
        let init = messages.drop_last();
        let n = if k < messages.len() {
            k
        } else {
            k - 1
        };
        assert(forall|i: int| 0 <= i < init.len() ==> #[trigger] init[i] == messages[i]);
        note_id_is_the_first_given(init, n);
    }
}

/// The name of the file is that of the first message that has one; it is empty where none has.
pub proof fn filename_is_the_first_given(messages: Seq<MessageView>, k: int)
    requires
        0 <= k <= messages.len(),
        forall|i: int| 0 <= i < k ==> (#[trigger] messages[i]).filename.len() == 0,
        k < messages.len() ==> messages[k].filename.len() > 0,
    ensures
        k < messages.len() ==> received(messages).filename == messages[k].filename,
        k == messages.len() ==> received(messages).filename.len() == 0,
    decreases messages.len(),
{
    if messages.len() > 0 {
        let init = messages.drop_last();
        let n = if k < messages.len() {
            k
        } else {
            k - 1
        };
        assert(forall|i: int| 0 <= i < init.len() ==> #[trigger] init[i] == messages[i]);
        filename_is_the_first_given(init, n);
    }
}

/// A message that comes later changes neither an id of a note nor a name of a file that is known,
/// and gives those that are not.
pub proof fn later_message_keeps_what_is_known(upload: UploadView, message: MessageView)
    ensures
        upload.note_id.len() > 0 ==> upload.with(message).note_id == upload.note_id,
        upload.note_id.len() == 0 ==> upload.with(message).note_id == message.note_id,
        upload.filename.len() > 0 ==> upload.with(message).filename == upload.filename,
        upload.filename.len() == 0 ==> upload.with(message).filename == message.filename,
        upload.with(message).content == upload.content + message.chunk,
{
}

} // verus!
