//! The `AskVault` call.
use vstd::prelude::*;
use vstd::string::*;

use crate::list::SELECT_NOTES;
use crate::note::{self, NoteRow};
use crate::search::{self, matching_rows};
use crate::status::{self, map_db_error, DbError, Status};
use crate::text;

verus! {

/// A question to the vault.
#[derive(Debug)]
pub struct AskVaultRequest {
    pub question: String,
}

/// The answer to a question that `found` notes match.
pub open spec fn answer_text(found: nat) -> Seq<char> {
    if found == 0 {
        "No relevant notes found."@
    } else if found == 1 {
        "Found 1 relevant note."@
    } else {
        "Found "@ + text::numeral(found) + " relevant notes."@
    }
}

/// Returns the answer to a question that `found` notes match.
pub fn answer(found: usize) -> (res: String)
    ensures
        res@ == answer_text(found as nat),
        found == 0 ==> res@ == "No relevant notes found."@,
        found == 1 ==> res@ == "Found 1 relevant note."@,
        found > 1 ==> res@ == "Found "@ + text::numeral(found as nat) + " relevant notes."@,
{
    if found == 0 {
        "No relevant notes found.".to_owned()
    } else if found == 1 {
        "Found 1 relevant note.".to_owned()
    } else {
        let count = text::decimal(found as u64);
        "Found ".to_owned().concat(count.as_str()).concat(" relevant notes.")
    }
}

/// Waits for the rows of the table, to answer a question.
pub struct AwaitRows {
    question: String,
}

impl View for AwaitRows {
    type V = Seq<char>;

    closed spec fn view(&self) -> Seq<char> {
        self.question@
    }
}

/// The first step on a question of `AskVault`: select the rows of the table, with the given
/// statement.
pub struct AskStep {
    pub statement: &'static str,
    pub next: AwaitRows,
}

/// Takes a question of `AskVault`.
pub fn ask_vault(request: AskVaultRequest) -> (res: AskStep)
    ensures
        res.statement@ == SELECT_NOTES@,
        res.statement@
            == "SELECT id, title, content, created_at, updated_at FROM notes ORDER BY created_at DESC"@,
        res.next@ == request.question@,
{
    AskStep { statement: SELECT_NOTES, next: AwaitRows { question: request.question } }
}

impl AwaitRows {
    /// Answers the question once the database has answered: the tokens to stream, which make up
    /// the answer.
    pub fn selected(self, selected: Result<Vec<NoteRow>, DbError>) -> (res: Result<
        Vec<String>,
        Status,
    >)
        ensures
            match selected {
                Ok(rows) => res matches Ok(tokens) && text::is_cut_at_spaces(
                    text::texts(tokens@),
                    answer_text(search::matching(note::row_views(rows@), self@).len()),
                ),
                Err(_) => res matches Err(failure) && failure@ == status::db_failure(),
            },
    {
        match selected {
            Ok(rows) => {
                let found = matching_rows(rows, self.question.as_str());
                let reply = answer(found.len());
                assert(note::row_views(found@).len() == found.len());
                Ok(text::cut_at_spaces(reply.as_str()))
            },
            Err(err) => Err(map_db_error(err)),
        }
    }
}

/// An answer has at least one token, whose texts make up the answer.
pub proof fn answer_has_tokens(tokens: Seq<Seq<char>>, found: nat)
    requires
        text::is_cut_at_spaces(tokens, answer_text(found)),
    ensures
        tokens.len() > 0,
        tokens.flatten() == answer_text(found),
{
    reveal_strlit("No relevant notes found.");
    reveal_strlit("Found 1 relevant note.");
    reveal_strlit("Found ");
    assert(answer_text(found).len() > 0);
    if tokens.len() == 0 {
        assert(tokens.flatten().len() == 0);
    }
}

/// The answer says "Found" exactly when there are matching notes, and "No relevant" exactly
/// when there are none.
pub proof fn answer_tells_whether_notes_match(found: nat)
    ensures
        text::has_substring(answer_text(found), "Found"@) <==> found > 0,
        text::has_substring(answer_text(found), "No relevant"@) <==> found == 0,
{
    reveal_strlit("No relevant notes found.");
    reveal_strlit("Found 1 relevant note.");
    reveal_strlit("Found ");
    reveal_strlit(" relevant notes.");
    reveal_strlit("Found");
    reveal_strlit("No relevant");
    let answer = answer_text(found);
    if found == 0 {
        assert(answer.subrange(0int, 0int + "No relevant"@.len()) == "No relevant"@);
        assert forall|i: int| 0 <= i <= answer.len() - 5 implies #[trigger] answer.subrange(
            i,
            i + 5,
        ) != "Found"@ by {
            assert(answer.subrange(i, i + 5)[0] == answer[i]);
        }
    } else {
        assert(answer.subrange(0int, 0int + "Found"@.len()) == "Found"@);
        text::lemma_numeral_is_digits(found);
        assert forall|i: int| 0 <= i <= answer.len() - 11 implies #[trigger] answer.subrange(
            i,
            i + 11,
        ) != "No relevant"@ by {
            assert(answer.subrange(i, i + 11)[0] == answer[i]);
        }
    }
}

/// Where notes match, the answer says "Found", their count as a decimal numeral without leading
/// zeros, and "relevant note" or "relevant notes" as the count asks for. Where none does, it says
/// so.
pub proof fn answer_states_the_count(found: nat) -> (count: Seq<char>)
    ensures
        found == 0 ==> answer_text(found) == "No relevant notes found."@,
        found == 1 ==> answer_text(found) == "Found "@ + count + " relevant note."@,
        found > 1 ==> answer_text(found) == "Found "@ + count + " relevant notes."@,
        count.len() > 0,
        found > 0 ==> count[0] != '0',
        found < vstd::arithmetic::power::pow(10, count.len()),
        forall|i: int|
            0 <= i < count.len() ==> (#[trigger] count[i]) as int == 48 + (found as int
                / vstd::arithmetic::power::pow(10, (count.len() - 1 - i) as nat)) % 10,
{
    let count = text::numeral(found);
    text::numeral_has_the_digits_of_the_number(found);
    if found > 0 {
        text::numeral_does_not_begin_with_zero(found);
    }
    if found == 1 {
        reveal_strlit("Found 1 relevant note.");
        reveal_strlit("Found ");
        reveal_strlit(" relevant note.");
        assert(count == seq!['1']);
    }
    count
}

/// The answers to different counts are different.
pub proof fn answers_tell_counts_apart(m: nat, n: nat)
    requires
        answer_text(m) == answer_text(n),
    ensures
        m == n,
{
    reveal_strlit("No relevant notes found.");
    reveal_strlit("Found 1 relevant note.");
    reveal_strlit("Found ");
    reveal_strlit(" relevant notes.");
    let answer = answer_text(m);
    if m > 1 && n > 1 {
        assert(text::numeral(m) == answer.subrange(6, answer.len() - 16));
        assert(text::numeral(n) == answer.subrange(6, answer.len() - 16));
        text::numerals_tell_numbers_apart(m, n);
    } else {
        assert(m == 0 ==> answer_text(m)[0] == 'N');
        assert(n == 0 ==> answer_text(n)[0] == 'N');
        assert(m > 0 ==> answer_text(m)[0] == 'F');
        assert(n > 0 ==> answer_text(n)[0] == 'F');
        assert(m > 1 ==> answer_text(m)[answer.len() - 2] == 's');
        assert(n > 1 ==> answer_text(n)[answer.len() - 2] == 's');
        assert(m == 1 ==> answer_text(m)[answer.len() - 2] == 'e');
        assert(n == 1 ==> answer_text(n)[answer.len() - 2] == 'e');
    }
}

} // verus!
