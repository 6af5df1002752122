//! The cached list of notes: the key it is stored under, and the text it is stored as.
//!
//! The text is the notes one behind the other. A string is stored as its length, in 16
//! hexadecimal digits, and its characters; a timestamp as a mark and its two numbers, shifted
//! so that they are not negative, in hexadecimal digits.
use vstd::prelude::*;
use vstd::string::*;

use crate::hex;
use crate::note::{self, Note, NoteView};
use crate::text;
use crate::time::Timestamp;

verus! {

/// The key under which the list of notes is cached.
pub const NOTES_LIST_KEY: &'static str = "notes:list";

/// An error of the cache, with its description.
#[derive(Debug)]
pub struct CacheError {
    pub description: String,
}

/// The text of a string.
pub open spec fn string_text(s: Seq<char>) -> Seq<char> {
    hex::digits(s.len(), 16) + s
}

/// The text of a timestamp, or of the lack of one.
pub open spec fn timestamp_text(timestamp: Option<Timestamp>) -> Seq<char> {
    match timestamp {
        None => seq!['n'],
        Some(t) => seq!['t'] + hex::digits((t.seconds + 0x8000_0000_0000_0000) as nat, 16)
            + hex::digits((t.nanos + 0x8000_0000) as nat, 8),
    }
}

/// The text of a note.
pub open spec fn note_text(note: NoteView) -> Seq<char> {
    string_text(note.id) + (string_text(note.title) + (string_text(note.content) + (timestamp_text(
        note.created_at,
    ) + timestamp_text(note.updated_at))))
}

/// The text of a list of notes.
pub open spec fn notes_text(notes: Seq<NoteView>) -> Seq<char>
    decreases notes.len(),
{
    if notes.len() == 0 {
        Seq::empty()
    } else {
        note_text(notes.first()) + notes_text(notes.drop_first())
    }
}

/// Whether the lengths of the strings of a note can be stored.
pub open spec fn storable(note: NoteView) -> bool {
    &&& note.id.len() <= u64::MAX
    &&& note.title.len() <= u64::MAX
    &&& note.content.len() <= u64::MAX
}

/// Whether the lengths of all strings of a list of notes can be stored.
pub open spec fn all_storable(notes: Seq<NoteView>) -> bool {
    forall|i: int| 0 <= i < notes.len() ==> storable(#[trigger] notes[i])
}

/// Two texts that begin a common text and have the same length are equal, and so is what
/// follows them.
proof fn lemma_same_prefix(a: Seq<char>, s: Seq<char>, b: Seq<char>, t: Seq<char>)
    requires
        a + s == b + t,
        a.len() == b.len(),
    ensures
        a == b,
        s == t,
{
    assert(a == (a + s).take(a.len() as int));
    assert(b == (b + t).take(b.len() as int));
    assert(s == (a + s).skip(a.len() as int));
    assert(t == (b + t).skip(b.len() as int));
}

/// The text of a string shows where it ends.
proof fn lemma_string_prefix(a: Seq<char>, s: Seq<char>, b: Seq<char>, t: Seq<char>)
    requires
        a.len() <= u64::MAX,
        b.len() <= u64::MAX,
        string_text(a) + s == string_text(b) + t,
    ensures
        a == b,
        s == t,
{
    hex::lemma_shape(a.len(), 16);
    hex::lemma_shape(b.len(), 16);
    hex::lemma_limits();
    assert(string_text(a) + s == hex::digits(a.len(), 16) + (a + s));
    assert(string_text(b) + t == hex::digits(b.len(), 16) + (b + t));
    lemma_same_prefix(hex::digits(a.len(), 16), a + s, hex::digits(b.len(), 16), b + t);
    hex::lemma_injective(a.len(), b.len(), 16);
    lemma_same_prefix(a, s, b, t);
}

/// The text of a timestamp shows where it ends.
proof fn lemma_timestamp_prefix(
    a: Option<Timestamp>,
    s: Seq<char>,
    b: Option<Timestamp>,
    t: Seq<char>,
)
    requires
        timestamp_text(a) + s == timestamp_text(b) + t,
    ensures
        a == b,
        s == t,
{
    assert((timestamp_text(a) + s)[0] == timestamp_text(a)[0]);
    assert((timestamp_text(b) + t)[0] == timestamp_text(b)[0]);
    match (a, b) {
        (Some(x), Some(y)) => {
            let xs = (x.seconds + 0x8000_0000_0000_0000) as nat;
            let xn = (x.nanos + 0x8000_0000) as nat;
            let ys = (y.seconds + 0x8000_0000_0000_0000) as nat;
            let yn = (y.nanos + 0x8000_0000) as nat;
            hex::lemma_shape(xs, 16);
            hex::lemma_shape(xn, 8);
            hex::lemma_shape(ys, 16);
            hex::lemma_shape(yn, 8);
            hex::lemma_limits();
            lemma_same_prefix(timestamp_text(a), s, timestamp_text(b), t);
            lemma_same_prefix(
                seq!['t'] + hex::digits(xs, 16),
                hex::digits(xn, 8),
                seq!['t'] + hex::digits(ys, 16),
                hex::digits(yn, 8),
            );
            lemma_same_prefix(seq!['t'], hex::digits(xs, 16), seq!['t'], hex::digits(ys, 16));
            hex::lemma_injective(xs, ys, 16);
            hex::lemma_injective(xn, yn, 8);
        },
        (None, None) => {
            lemma_same_prefix(seq!['n'], s, seq!['n'], t);
        },
        _ => {},
    }
}

/// What stands behind the first, second, third and fourth part of the text of a note.
proof fn lemma_note_parts(n: NoteView, s: Seq<char>)
    ensures
        note_text(n) + s == string_text(n.id) + (string_text(n.title) + (string_text(n.content) + (
        timestamp_text(n.created_at) + (timestamp_text(n.updated_at) + s)))),
{
}

/// The text of a note shows where it ends.
proof fn lemma_note_prefix(a: NoteView, s: Seq<char>, b: NoteView, t: Seq<char>)
    requires
        storable(a),
        storable(b),
        note_text(a) + s == note_text(b) + t,
    ensures
        a == b,
        s == t,
{
    lemma_note_parts(a, s);
    lemma_note_parts(b, t);
    let a5 = timestamp_text(a.updated_at) + s;
    let a4 = timestamp_text(a.created_at) + a5;
    let a3 = string_text(a.content) + a4;
    let a2 = string_text(a.title) + a3;
    let b5 = timestamp_text(b.updated_at) + t;
    let b4 = timestamp_text(b.created_at) + b5;
    let b3 = string_text(b.content) + b4;
    let b2 = string_text(b.title) + b3;
    lemma_string_prefix(a.id, a2, b.id, b2);
    lemma_string_prefix(a.title, a3, b.title, b3);
    lemma_string_prefix(a.content, a4, b.content, b4);
    lemma_timestamp_prefix(a.created_at, a5, b.created_at, b5);
    lemma_timestamp_prefix(a.updated_at, s, b.updated_at, t);
}

/// A list whose text begins with the text of another list begins with that list.
proof fn lemma_notes_prefix(a: Seq<NoteView>, s: Seq<char>, b: Seq<NoteView>)
    requires
        all_storable(a),
        all_storable(b),
        notes_text(a) + s == notes_text(b),
    ensures
        a.len() <= b.len(),
        a == b.take(a.len() as int),
        s == notes_text(b.skip(a.len() as int)),
    decreases a.len(),
{
    if a.len() == 0 {
        assert(b.skip(0) == b);
        assert(notes_text(a) + s == s);
    } else {
        lemma_note_length(a.first());
        assert(notes_text(a) + s == note_text(a.first()) + (notes_text(a.drop_first()) + s));
        assert(b.len() > 0);
        lemma_note_prefix(
            a.first(),
            notes_text(a.drop_first()) + s,
            b.first(),
            notes_text(b.drop_first()),
        );
        lemma_notes_prefix(a.drop_first(), s, b.drop_first());
        assert(b.drop_first().skip(a.len() - 1) == b.skip(a.len() as int));
        assert forall|i: int| 0 <= i < a.len() implies a[i] == b[i] by {
            if i > 0 {
                assert(a.drop_first()[i - 1] == b.drop_first().take(a.len() - 1)[i - 1]);
            }
        }
    }
}

/// The text of a note is longer than each of its strings.
proof fn lemma_note_length(n: NoteView)
    ensures
        note_text(n).len() > n.id.len(),
        note_text(n).len() > n.title.len(),
        note_text(n).len() > n.content.len(),
{
    hex::lemma_shape(n.id.len(), 16);
    hex::lemma_shape(n.title.len(), 16);
    hex::lemma_shape(n.content.len(), 16);
}

/// A list whose text is short enough has strings that can be stored.
proof fn lemma_short_text_is_storable(notes: Seq<NoteView>)
    requires
        notes_text(notes).len() <= u64::MAX,
    ensures
        all_storable(notes),
    decreases notes.len(),
{
    if notes.len() > 0 {
        lemma_note_length(notes.first());
        lemma_short_text_is_storable(notes.drop_first());
        assert forall|i: int| 0 <= i < notes.len() implies storable(#[trigger] notes[i]) by {
            if i > 0 {
                assert(storable(notes.drop_first()[i - 1]));
            }
        }
    }
}

/// A note put at the end of a list puts its text at the end of the text.
proof fn lemma_notes_push(notes: Seq<NoteView>, n: NoteView)
    ensures
        notes_text(notes.push(n)) == notes_text(notes) + note_text(n),
    decreases notes.len(),
{
    if notes.len() == 0 {
        assert(notes_text(notes.push(n).drop_first()) == Seq::<char>::empty());
        assert(note_text(n) + Seq::<char>::empty() == note_text(n));
    } else {
        lemma_notes_push(notes.drop_first(), n);
        assert(notes.push(n).first() == notes.first());
        assert(notes.push(n).drop_first() == notes.drop_first().push(n));
    }
}

/// Different lists of notes have different texts, so a text read back is the list that was
/// written.
pub proof fn cached_text_determines_notes(a: Seq<NoteView>, b: Seq<NoteView>)
    requires
        all_storable(a),
        all_storable(b),
        notes_text(a) == notes_text(b),
    ensures
        a == b,
{
    assert(notes_text(a) + Seq::<char>::empty() == notes_text(b));
    lemma_notes_prefix(a, Seq::empty(), b);
    assert(notes_text(b) + Seq::<char>::empty() == notes_text(a));
    lemma_notes_prefix(b, Seq::empty(), a);
}

/// The strings of a note can be stored exactly when their lengths have 64 bits.
pub proof fn storable_note_has_lengths_of_64_bits(note: NoteView)
    ensures
        storable(note) <==> {
            &&& note.id.len() <= 0xffff_ffff_ffff_ffff
            &&& note.title.len() <= 0xffff_ffff_ffff_ffff
            &&& note.content.len() <= 0xffff_ffff_ffff_ffff
        },
{
}

/// The text of a list shows each of its notes in full: lists with the same text have as many
/// notes, and at each place a note with the same id, title, content and timestamps.
pub proof fn cached_text_shows_each_note(a: Seq<NoteView>, b: Seq<NoteView>)
    requires
        forall|i: int|
            0 <= i < a.len() ==> {
                &&& (#[trigger] a[i]).id.len() <= 0xffff_ffff_ffff_ffff
                &&& a[i].title.len() <= 0xffff_ffff_ffff_ffff
                &&& a[i].content.len() <= 0xffff_ffff_ffff_ffff
            },
        forall|i: int|
            0 <= i < b.len() ==> {
                &&& (#[trigger] b[i]).id.len() <= 0xffff_ffff_ffff_ffff
                &&& b[i].title.len() <= 0xffff_ffff_ffff_ffff
                &&& b[i].content.len() <= 0xffff_ffff_ffff_ffff
            },
        notes_text(a) == notes_text(b),
    ensures
        a.len() == b.len(),
        forall|i: int|
            0 <= i < a.len() ==> {
                &&& (#[trigger] a[i]).id == b[i].id
                &&& a[i].title == b[i].title
                &&& a[i].content == b[i].content
                &&& a[i].created_at == b[i].created_at
                &&& a[i].updated_at == b[i].updated_at
            },
{
    cached_text_determines_notes(a, b);
}

/// The text of two lists, one behind the other, is the text of the list that they make up; an
/// empty list has an empty text.
pub proof fn cached_text_is_that_of_each_note(a: Seq<NoteView>, b: Seq<NoteView>)
    ensures
        notes_text(Seq::empty()).len() == 0,
        notes_text(a + b) == notes_text(a) + notes_text(b),
    decreases a.len(),
{
    if a.len() == 0 {
        assert(a + b == b);
        assert(notes_text(a) + notes_text(b) == notes_text(b));
    } else {
        cached_text_is_that_of_each_note(a.drop_first(), b);
        assert((a + b).drop_first() == a.drop_first() + b);
        assert((a + b).first() == a.first());
        assert(note_text(a.first()) + (notes_text(a.drop_first()) + notes_text(b)) == notes_text(a)
            + notes_text(b));
    }
}

/// Appends the text of a string to `out`.
fn push_string(out: &mut String, s: &str)
    ensures
        s@.len() <= u64::MAX,
        final(out)@ == old(out)@ + string_text(s@),
{
    hex::push_digits(out, s.unicode_len() as u64, 16);
    out.append(s);
}

/// Appends the text of a timestamp, or of the lack of one, to `out`.
fn push_timestamp(out: &mut String, timestamp: Option<Timestamp>)
    ensures
        final(out)@ == old(out)@ + timestamp_text(timestamp),
{
    match timestamp {
        None => {
            out.push('n');
        },
        Some(t) => {
            out.push('t');
            hex::push_digits(out, (t.seconds as i128 + 0x8000_0000_0000_0000) as u64, 16);
            hex::push_digits(out, (t.nanos as i64 + 0x8000_0000) as u64, 8);
        },
    }
}

/// Appends the text of a note to `out`.
fn push_note(out: &mut String, note: &Note)
    ensures
        storable(note@),
        final(out)@ == old(out)@ + note_text(note@),
{
    push_string(out, note.id.as_str());
    push_string(out, note.title.as_str());
    push_string(out, note.content.as_str());
    push_timestamp(out, note.created_at);
    push_timestamp(out, note.updated_at);
}

/// Returns the text under which a list of notes is cached.
pub fn encode_notes(notes: &Vec<Note>) -> (res: String)
    ensures
        all_storable(note::note_views(notes@)),
        res@ == notes_text(note::note_views(notes@)),
{
    let mut res = String::new();
    let mut k: usize = 0;
    let ghost views = note::note_views(notes@);
    while k < notes.len()
        invariant
            k <= notes.len(),
            views == note::note_views(notes@),
            all_storable(views.take(k as int)),
            res@ == notes_text(views.take(k as int)),
        decreases notes.len() - k,
    {
        push_note(&mut res, &notes[k]);
        proof {
            lemma_notes_push(views.take(k as int), views[k as int]);
            assert(views.take(k as int).push(views[k as int]) == views.take(k + 1));
        }
        k += 1;
    }
    assert(views.take(notes.len() as int) == views);
    res
}

/// Reads the string whose text stands at `pos`, if there is one, and tells where it ends.
fn read_string(chars: &Vec<char>, pos: usize) -> (res: Option<(String, usize)>)
    requires
        pos <= chars.len(),
    ensures
        match res {
            Some((s, next)) => {
                &&& pos <= next <= chars.len()
                &&& chars@.skip(pos as int) == string_text(s@) + chars@.skip(next as int)
            },
            None => forall|s: Seq<char>, t: Seq<char>|
                chars@.skip(pos as int) != #[trigger] (string_text(s) + t),
        },
{
    match hex::read_digits(chars, pos, 16) {
        None => {
            assert forall|s: Seq<char>, t: Seq<char>|
                chars@.skip(pos as int) != #[trigger] (string_text(s) + t) by {
                hex::lemma_shape(s.len(), 16);
                if chars@.skip(pos as int) == string_text(s) + t {
                    assert(chars@.subrange(pos as int, pos + 16) == (string_text(s) + t).take(16));
                    assert((string_text(s) + t).take(16) == hex::digits(s.len(), 16));
                }
            }
            None
        },
        Some(len) => {
            let from: usize = pos + 16;
            if len > (chars.len() - from) as u64 {
                assert forall|s: Seq<char>, t: Seq<char>|
                    chars@.skip(pos as int) != #[trigger] (string_text(s) + t) by {
                    hex::lemma_shape(s.len(), 16);
                    hex::lemma_limits();
                    if chars@.skip(pos as int) == string_text(s) + t {
                        assert(chars@.subrange(pos as int, pos + 16) == (string_text(s) + t).take(
                            16,
                        ));
                        assert((string_text(s) + t).take(16) == hex::digits(s.len(), 16));
                        hex::lemma_injective(len as nat, s.len(), 16);
                    }
                }
                return None;
            }
            let to: usize = from + len as usize;
            let mut s = String::new();
            let mut k: usize = from;
            while k < to
                invariant
                    from <= k <= to <= chars.len(),
                    s@ == chars@.subrange(from as int, k as int),
                decreases to - k,
            {
                s.push(chars[k]);
                assert(chars@.subrange(from as int, k + 1) == chars@.subrange(
                    from as int,
                    k as int,
                ).push(chars@[k as int]));
                k += 1;
            }
            proof {
                assert(s@.len() == len);
                assert(chars@.skip(pos as int) == chars@.subrange(pos as int, pos + 16) + s@
                    + chars@.skip(to as int));
            }
            Some((s, to))
        },
    }
}

/// Reads the timestamp whose text stands at `pos`, if there is one, and tells where it ends.
fn read_timestamp(chars: &Vec<char>, pos: usize) -> (res: Option<(Option<Timestamp>, usize)>)
    requires
        pos <= chars.len(),
    ensures
        match res {
            Some((timestamp, next)) => {
                &&& pos <= next <= chars.len()
                &&& chars@.skip(pos as int) == timestamp_text(timestamp) + chars@.skip(next as int)
            },
            None => forall|timestamp: Option<Timestamp>, t: Seq<char>|
                chars@.skip(pos as int) != #[trigger] (timestamp_text(timestamp) + t),
        },
{
    let ghost rest = chars@.skip(pos as int);
    proof {
        assert forall|timestamp: Option<Timestamp>, t: Seq<char>|
            rest == #[trigger] (timestamp_text(timestamp) + t) implies rest.len() > 0 && rest[0] == (
        if timestamp is Some {
            't'
        } else {
            'n'
        }) && (timestamp matches Some(x) ==> {
            &&& rest.len() >= 25
            &&& rest.subrange(1, 17) == hex::digits(
                (x.seconds + 0x8000_0000_0000_0000) as nat,
                16,
            )
            &&& rest.subrange(17, 25) == hex::digits((x.nanos + 0x8000_0000) as nat, 8)
        }) by {
            if let Some(x) = timestamp {
                hex::lemma_shape((x.seconds + 0x8000_0000_0000_0000) as nat, 16);
                hex::lemma_shape((x.nanos + 0x8000_0000) as nat, 8);
            }
        }
    }
    if pos == chars.len() {
        return None;
    }
    if chars[pos] == 'n' {
        assert(rest == seq!['n'] + chars@.skip(pos + 1));
        return Some((None, pos + 1));
    }
    if chars[pos] != 't' {
        return None;
    }
    match hex::read_digits(chars, pos + 1, 16) {
        None => {
            assert(rest.len() >= 25 ==> rest.subrange(1, 17) == chars@.subrange(pos + 1, pos + 17));
            None
        },
        Some(seconds) => match hex::read_digits(chars, pos + 17, 8) {
            None => {
                assert(rest.len() >= 25 ==> rest.subrange(17, 25) == chars@.subrange(
                    pos + 17,
                    pos + 25,
                ));
                None
            },
            Some(nanos) => {
                proof {
                    hex::lemma_limits();
                    assert(rest == seq!['t'] + chars@.subrange(pos + 1, pos + 17) + chars@.subrange(
                        pos + 17,
                        pos + 25,
                    ) + chars@.skip(pos + 25));
                }
                let timestamp = Timestamp {
                    seconds: (seconds as i128 - 0x8000_0000_0000_0000) as i64,
                    nanos: (nanos as i64 - 0x8000_0000) as i32,
                };
                Some((Some(timestamp), pos + 25))
            },
        },
    }
}

/// Reads the note whose text stands at `pos`, if there is one, and tells where it ends.
fn read_note(chars: &Vec<char>, pos: usize) -> (res: Option<(Note, usize)>)
    requires
        pos <= chars.len(),
    ensures
        match res {
            Some((note, next)) => {
                &&& pos <= next <= chars.len()
                &&& chars@.skip(pos as int) == note_text(note@) + chars@.skip(next as int)
            },
            None => forall|note: NoteView, t: Seq<char>|
                chars@.skip(pos as int) != #[trigger] (note_text(note) + t),
        },
{
    let ghost rest = chars@.skip(pos as int);
    assert(rest.len() == chars.len() - pos);
    proof {
        assert forall|n: NoteView, t: Seq<char>| rest == #[trigger] (note_text(n) + t) implies {
            &&& storable(n)
            &&& rest == string_text(n.id) + (string_text(n.title) + (string_text(n.content) + (
            timestamp_text(n.created_at) + (timestamp_text(n.updated_at) + t))))
        } by {
            lemma_note_parts(n, t);
            lemma_note_length(n);
        }
    }
    let (id, p1) = match read_string(chars, pos) {
        None => {
            return None;
        },
        Some(read) => read,
    };
    proof {
        assert(string_text(id@).len() >= id@.len());
        assert forall|n: NoteView, t: Seq<char>| rest == #[trigger] (note_text(n) + t) implies {
            &&& id@ == n.id
            &&& chars@.skip(p1 as int) == string_text(n.title) + (string_text(n.content) + (
            timestamp_text(n.created_at) + (timestamp_text(n.updated_at) + t)))
        } by {
            lemma_string_prefix(
                id@,
                chars@.skip(p1 as int),
                n.id,
                string_text(n.title) + (string_text(n.content) + (timestamp_text(n.created_at) + (
                timestamp_text(n.updated_at) + t))),
            );
        }
    }
    let (title, p2) = match read_string(chars, p1) {
        None => {
            return None;
        },
        Some(read) => read,
    };
    proof {
        assert(string_text(title@).len() >= title@.len());
        assert forall|n: NoteView, t: Seq<char>| rest == #[trigger] (note_text(n) + t) implies {
            &&& chars@.skip(p2 as int) == string_text(n.content) + (timestamp_text(n.created_at) + (
            timestamp_text(n.updated_at) + t))
        } by {
            lemma_string_prefix(
                title@,
                chars@.skip(p2 as int),
                n.title,
                string_text(n.content) + (timestamp_text(n.created_at) + (timestamp_text(
                    n.updated_at,
                ) + t)),
            );
        }
    }
    let (content, p3) = match read_string(chars, p2) {
        None => {
            return None;
        },
        Some(read) => read,
    };
    proof {
        assert(string_text(content@).len() >= content@.len());
        assert forall|n: NoteView, t: Seq<char>| rest == #[trigger] (note_text(n) + t) implies {
            &&& chars@.skip(p3 as int) == timestamp_text(n.created_at) + (timestamp_text(
                n.updated_at,
            ) + t)
        } by {
            lemma_string_prefix(
                content@,
                chars@.skip(p3 as int),
                n.content,
                timestamp_text(n.created_at) + (timestamp_text(n.updated_at) + t),
            );
        }
    }
    let (created_at, p4) = match read_timestamp(chars, p3) {
        None => {
            return None;
        },
        Some(read) => read,
    };
    proof {
        assert forall|n: NoteView, t: Seq<char>| rest == #[trigger] (note_text(n) + t) implies {
            &&& chars@.skip(p4 as int) == timestamp_text(n.updated_at) + t
        } by {
            lemma_timestamp_prefix(
                created_at,
                chars@.skip(p4 as int),
                n.created_at,
                timestamp_text(n.updated_at) + t,
            );
        }
    }
    let (updated_at, p5) = match read_timestamp(chars, p4) {
        None => {
            return None;
        },
        Some(read) => read,
    };
    let note = Note { id, title, content, created_at, updated_at };
    proof {
        lemma_note_parts(note@, chars@.skip(p5 as int));
    }
    Some((note, p5))
}

/// Returns the list of notes that is cached under the given text; `None` where the text is not
/// that of any list of notes.
pub fn decode_notes(text: &str) -> (res: Option<Vec<Note>>)
    ensures
        match res {
            Some(notes) => {
                &&& all_storable(note::note_views(notes@))
                &&& text@ == notes_text(note::note_views(notes@))
            },
            None => forall|notes: Seq<NoteView>| text@ != #[trigger] notes_text(notes),
        },
{
    let chars = text::chars_of(text);
    let mut notes: Vec<Note> = Vec::new();
    let mut pos: usize = 0;
    assert(notes_text(note::note_views(notes@)) + chars@.skip(0) == text@);
    while pos < chars.len()
        invariant
            chars@ == text@,
            pos <= chars.len(),
            text@ == notes_text(note::note_views(notes@)) + chars@.skip(pos as int),
        decreases chars.len() - pos,
    {
        let ghost before = note::note_views(notes@);
        match read_note(&chars, pos) {
            None => {
                assert forall|others: Seq<NoteView>| text@ != #[trigger] notes_text(others) by {
                    if text@ == notes_text(others) {
                        lemma_short_text_is_storable(before);
                        lemma_short_text_is_storable(others);
                        lemma_notes_prefix(before, chars@.skip(pos as int), others);
                        let rest = others.skip(before.len() as int);
                        assert(chars@.skip(pos as int).len() > 0);
                        assert(chars@.skip(pos as int) == note_text(rest.first()) + notes_text(
                            rest.drop_first(),
                        ));
                    }
                }
                return None;
            },
            Some((note, next)) => {
                proof {
                    lemma_note_length(note@);
                    lemma_notes_push(before, note@);
                }
                notes.push(note);
                assert(note::note_views(notes@) == before.push(note@));
                pos = next;
            },
        }
    }
    assert(notes_text(note::note_views(notes@)) + chars@.skip(pos as int) == notes_text(
        note::note_views(notes@),
    ));
    proof {
        lemma_short_text_is_storable(note::note_views(notes@));
    }
    Some(notes)
}

} // verus!
