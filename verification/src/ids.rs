//! UUIDs as 128-bit numbers and as text.
use uuid::Uuid;
use vstd::prelude::*;

use crate::hex;

verus! {

/// The 32 hexadecimal digits of `id`.
pub open spec fn simple_text(id: u128) -> Seq<char> {
    hex::digits(id as nat, 32)
}

/// The canonical text of `id`: its digits in groups of 8, 4, 4, 4 and 12, parted by hyphens.
pub open spec fn hyphenated_text(id: u128) -> Seq<char> {
    let d = simple_text(id);
    d.subrange(0, 8) + seq!['-'] + d.subrange(8, 12) + seq!['-'] + d.subrange(12, 16) + seq!['-']
        + d.subrange(16, 20) + seq!['-'] + d.subrange(20, 32)
}

/// `c`, or its lower-case form where it is an upper-case ASCII letter.
pub open spec fn ascii_lower(c: char) -> char {
    if 'A' <= c <= 'Z' {
        (c as nat + 32) as char
    } else {
        c
    }
}

/// Whether `s` is the lower-case text `t`, the case of ASCII letters aside.
pub open spec fn spells(s: Seq<char>, t: Seq<char>) -> bool {
    &&& s.len() == t.len()
    &&& forall|i: int| 0 <= i < s.len() ==> ascii_lower(#[trigger] s[i]) == t[i]
}

/// Whether `s` is one of the four texts that stand for `id`: the bare digits, the canonical
/// text, the canonical text in braces, or the canonical text as a URN.
pub open spec fn denotes(s: Seq<char>, id: u128) -> bool {
    ||| spells(s, simple_text(id))
    ||| spells(s, hyphenated_text(id))
    ||| spells(s, seq!['{'] + hyphenated_text(id) + seq!['}'])
    ||| spells(
        s,
        seq!['u', 'r', 'n', ':', 'u', 'u', 'i', 'd', ':'] + hyphenated_text(id),
    )
}

/// `Uuid::to_string` (through `Display`) returns the canonical text of the UUID, in lower case.
#[verifier::external_body]
pub(crate) fn uuid_to_string(id: u128) -> (res: String)
    ensures
        res@ == hyphenated_text(id),
{
    Uuid::from_u128(id).to_string()
}

/// `Uuid::parse_str` reads any of the four texts of a UUID, in either case of the letters, and
/// fails on every other text.
#[verifier::external_body]
pub(crate) fn parse_uuid(text: &str) -> (res: Option<u128>)
    ensures
        match res {
            Some(id) => denotes(text@, id),
            None => forall|id: u128| !denotes(text@, id),
        },
{
    match Uuid::parse_str(text) {
        Ok(id) => Some(id.as_u128()),
        Err(_) => None,
    }
}

/// The canonical text has 36 characters: the digits in order, and hyphens between the groups.
pub proof fn lemma_hyphenated_text(id: u128)
    ensures
        hyphenated_text(id).len() == 36,
        forall|i: int|
            0 <= i < 36 ==> #[trigger] hyphenated_text(id)[i] == if i == 8 || i == 13 || i == 18
                || i == 23 {
                '-'
            } else if i < 8 {
                simple_text(id)[i]
            } else if i < 13 {
                simple_text(id)[i - 1]
            } else if i < 18 {
                simple_text(id)[i - 2]
            } else if i < 23 {
                simple_text(id)[i - 3]
            } else {
                simple_text(id)[i - 4]
            },
{
    hex::lemma_shape(id as nat, 32);
}

/// The canonical text of an id stands for that id.
pub proof fn canonical_text_denotes_its_id(id: u128)
    ensures
        denotes(hyphenated_text(id), id),
{
    hex::lemma_shape(id as nat, 32);
    lemma_hyphenated_text(id);
}

/// A text stands for one id at most.
pub proof fn text_denotes_one_id(s: Seq<char>, a: u128, b: u128)
    requires
        denotes(s, a),
        denotes(s, b),
    ensures
        a == b,
{
    hex::lemma_shape(a as nat, 32);
    hex::lemma_shape(b as nat, 32);
    lemma_hyphenated_text(a);
    lemma_hyphenated_text(b);
    hex::lemma_limits();
    let x = simple_text(a);
    let y = simple_text(b);
    if s.len() != 32 {
        let from: int = if s.len() == 36 {
            0
        } else if s.len() == 38 {
            1
        } else {
            9
        };
        let p = hyphenated_text(a);
        let q = hyphenated_text(b);
        assert forall|i: int| 0 <= i < 36 implies #[trigger] p[i] == q[i] by {
            assert(ascii_lower(s[from + i]) == p[i]);
            assert(ascii_lower(s[from + i]) == q[i]);
        }
        assert forall|i: int| 0 <= i < 32 implies #[trigger] x[i] == y[i] by {
            let at = if i < 8 {
                i
            } else if i < 12 {
                i + 1
            } else if i < 16 {
                i + 2
            } else if i < 20 {
                i + 3
            } else {
                i + 4
            };
            assert(p[at] == q[at]);
        }
    } else {
        assert forall|i: int| 0 <= i < 32 implies #[trigger] x[i] == y[i] by {
            assert(ascii_lower(s[i]) == x[i]);
        }
    }
    assert(x == y);
    hex::lemma_injective(a as nat, b as nat, 32);
}

/// The canonical text of an id has the lower-case hexadecimal digit at place `i` of the 32 digits
/// of the id at the same place, put back by one for each of the four hyphens that stand before it.
pub proof fn canonical_text_has_the_digits_of_the_id(id: u128, i: int)
    requires
        0 <= i < 32,
    ensures
        hyphenated_text(id).len() == 36,
        hyphenated_text(id)[8] == '-',
        hyphenated_text(id)[13] == '-',
        hyphenated_text(id)[18] == '-',
        hyphenated_text(id)[23] == '-',
        ({
            let d = (id as int / vstd::arithmetic::power::pow(16, (31 - i) as nat)) % 16;
            let at = if i < 8 {
                i
            } else if i < 12 {
                i + 1
            } else if i < 16 {
                i + 2
            } else if i < 20 {
                i + 3
            } else {
                i + 4
            };
            hyphenated_text(id)[at] as int == if d < 10 {
                48 + d
            } else {
                87 + d
            }
        }),
{
    lemma_hyphenated_text(id);
    hex::digits_are_those_of_the_number(id as nat, 32, i);
    let at = if i < 8 {
        i
    } else if i < 12 {
        i + 1
    } else if i < 16 {
        i + 2
    } else if i < 20 {
        i + 3
    } else {
        i + 4
    };
    assert(hyphenated_text(id)[at] == simple_text(id)[i]);
}

/// The bare text of an id is its canonical text without the hyphens.
pub proof fn bare_text_is_the_canonical_text_without_hyphens(id: u128)
    ensures
        simple_text(id).len() == 32,
        simple_text(id) == hyphenated_text(id).subrange(0, 8) + hyphenated_text(id).subrange(9, 13)
            + hyphenated_text(id).subrange(14, 18) + hyphenated_text(id).subrange(19, 23)
            + hyphenated_text(id).subrange(24, 36),
{
    hex::lemma_shape(id as nat, 32);
    lemma_hyphenated_text(id);
}

/// The texts that stand for an id are, once each upper-case letter is made a lower-case one, its
/// bare text and its canonical text, bare, in braces or behind `urn:uuid:`.
pub proof fn id_has_four_texts(s: Seq<char>, id: u128)
    ensures
        denotes(s, id) <==> {
            let lower = Seq::new(
                s.len(),
                |i: int|
                    if 65 <= s[i] as int <= 90 {
                        (s[i] as int + 32) as char
                    } else {
                        s[i]
                    },
            );
            ||| lower == simple_text(id)
            ||| lower == hyphenated_text(id)
            ||| lower == "{"@ + hyphenated_text(id) + "}"@
            ||| lower == "urn:uuid:"@ + hyphenated_text(id)
        },
{
    reveal_strlit("{");
    reveal_strlit("}");
    reveal_strlit("urn:uuid:");
    let lower = Seq::new(
        s.len(),
        |i: int|
            if 65 <= s[i] as int <= 90 {
                (s[i] as int + 32) as char
            } else {
                s[i]
            },
    );
    lemma_spells(s, lower, simple_text(id));
    lemma_spells(s, lower, hyphenated_text(id));
    lemma_spells(s, lower, seq!['{'] + hyphenated_text(id) + seq!['}']);
    lemma_spells(
        s,
        lower,
        seq!['u', 'r', 'n', ':', 'u', 'u', 'i', 'd', ':'] + hyphenated_text(id),
    );
    assert("{"@ == seq!['{']);
    assert("}"@ == seq!['}']);
    assert("urn:uuid:"@ == seq!['u', 'r', 'n', ':', 'u', 'u', 'i', 'd', ':']);
}

/// A text spells another exactly when its lower-case form is the other.
proof fn lemma_spells(s: Seq<char>, lower: Seq<char>, t: Seq<char>)
    requires
        lower.len() == s.len(),
        forall|i: int| 0 <= i < s.len() ==> #[trigger] lower[i] == ascii_lower(s[i]),
    ensures
        spells(s, t) <==> lower == t,
{
    if spells(s, t) {
        assert forall|i: int| 0 <= i < s.len() implies #[trigger] lower[i] == t[i] by {
            assert(ascii_lower(s[i]) == t[i]);
        }
        assert(lower == t);
    }
}

} // verus!
