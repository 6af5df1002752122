//! Text helpers: trimming, substring search, decimal numerals and word tokens.
use vstd::prelude::*;
use vstd::string::*;

verus! {

/// `String::push` appends the given character to the end of the string.
pub assume_specification[ String::push ](s: &mut String, c: char)
    ensures
        final(s)@ == old(s)@.push(c),
;

/// The characters that have the Unicode property `White_Space`.
pub open spec fn is_white_space(c: char) -> bool {
    ||| '\u{9}' <= c <= '\u{d}'
    ||| c == '\u{20}'
    ||| c == '\u{85}'
    ||| c == '\u{a0}'
    ||| c == '\u{1680}'
    ||| '\u{2000}' <= c <= '\u{200a}'
    ||| c == '\u{2028}'
    ||| c == '\u{2029}'
    ||| c == '\u{202f}'
    ||| c == '\u{205f}'
    ||| c == '\u{3000}'
}

/// `s` without its leading white space.
pub open spec fn trimmed_start(s: Seq<char>) -> Seq<char>
    decreases s.len(),
{
    if s.len() > 0 && is_white_space(s.first()) {
        trimmed_start(s.drop_first())
    } else {
        s
    }
}

/// `s` without its trailing white space.
pub open spec fn trimmed_end(s: Seq<char>) -> Seq<char>
    decreases s.len(),
{
    if s.len() > 0 && is_white_space(s.last()) {
        trimmed_end(s.drop_last())
    } else {
        s
    }
}

/// `s` without its leading and trailing white space.
pub open spec fn trimmed(s: Seq<char>) -> Seq<char> {
    trimmed_end(trimmed_start(s))
}

/// Whether `s` holds nothing but white space.
pub open spec fn is_blank(s: Seq<char>) -> bool {
    forall|i: int| 0 <= i < s.len() ==> is_white_space(#[trigger] s[i])
}

/// Tells whether `c` has the Unicode property `White_Space`.
pub fn white_space(c: char) -> (res: bool)
    ensures
        res == is_white_space(c),
{
    ('\u{9}' <= c && c <= '\u{d}') || c == '\u{20}' || c == '\u{85}' || c == '\u{a0}' || c
        == '\u{1680}' || ('\u{2000}' <= c && c <= '\u{200a}') || c == '\u{2028}' || c == '\u{2029}'
        || c == '\u{202f}' || c == '\u{205f}' || c == '\u{3000}'
}

/// The characters of `s`, in order.
pub fn chars_of(s: &str) -> (res: Vec<char>)
    ensures
        res@ == s@,
{
    let mut res: Vec<char> = Vec::new();
    for c in iter: s.chars()
        invariant
            iter.seq() == s@,
            res@ == s@.take(iter.index()),
    {
        res.push(c);
    }
    res
}

/// Returns `s` without its leading and trailing white space.
pub fn trim(s: &str) -> (res: String)
    ensures
        res@ == trimmed(s@),
        exists|i: int, j: int|
            {
                &&& 0 <= i <= j <= s@.len()
                &&& res@ == #[trigger] s@.subrange(i, j)
                &&& forall|k: int| 0 <= k < i || j <= k < s@.len() ==> is_white_space(s@[k])
                &&& i < j ==> !is_white_space(s@[i]) && !is_white_space(s@[j - 1])
            },
{
    let chars = chars_of(s);
    let mut from: usize = 0;
    assert(s@.skip(0) == s@);
    while from < chars.len() && white_space(chars[from])
        invariant
            chars@ == s@,
            from <= chars.len(),
            forall|k: int| 0 <= k < from ==> is_white_space(s@[k]),
            trimmed_start(s@.skip(from as int)) == trimmed_start(s@),
        decreases chars.len() - from,
    {
        assert(s@.skip(from as int).drop_first() == s@.skip(from + 1));
        from += 1;
    }
    let mut to: usize = chars.len();
    assert(s@.subrange(from as int, to as int) == s@.skip(from as int));
    while to > from && white_space(chars[to - 1])
        invariant
            chars@ == s@,
            from <= to <= chars.len(),
            forall|k: int| to <= k < s@.len() ==> is_white_space(s@[k]),
            trimmed_end(s@.subrange(from as int, to as int)) == trimmed(s@),
        decreases to - from,
    {
        assert(s@.subrange(from as int, to as int).drop_last() == s@.subrange(
            from as int,
            to - 1,
        ));
        to -= 1;
    }
    assert(s@.subrange(from as int, to as int) == trimmed(s@));
    s.substring_char(from, to).to_owned()
}

/// Whether `needle` occurs in `hay` as a contiguous run of characters.
pub open spec fn has_substring(hay: Seq<char>, needle: Seq<char>) -> bool {
    exists|i: int|
        0 <= i <= hay.len() - needle.len() && #[trigger] hay.subrange(i, i + needle.len()) == needle
}

/// Tells whether `needle` occurs in `hay` at position `at`.
fn matches_at(hay: &Vec<char>, needle: &Vec<char>, at: usize) -> (res: bool)
    requires
        at + needle.len() <= hay.len(),
    ensures
        res == (hay@.subrange(at as int, at + needle.len()) == needle@),
{
    let mut k: usize = 0;
    while k < needle.len()
        invariant
            k <= needle.len(),
            at + needle.len() <= hay.len(),
            hay@.subrange(at as int, at + k) == needle@.take(k as int),
        decreases needle.len() - k,
    {
        if hay[at + k] != needle[k] {
            assert(hay@.subrange(at as int, at + needle.len())[k as int] != needle@[k as int]);
            return false;
        }
        assert(hay@.subrange(at as int, at + k + 1) == hay@.subrange(at as int, at + k).push(
            hay@[at + k],
        ));
        assert(needle@.take(k + 1) == needle@.take(k as int).push(needle@[k as int]));
        k += 1;
    }
    assert(needle@.take(needle.len() as int) == needle@);
    true
}

/// Tells whether `needle` occurs in `hay`.
pub fn contains_text(hay: &str, needle: &str) -> (res: bool)
    ensures
        res == has_substring(hay@, needle@),
        res <==> exists|i: int|
            0 <= i <= hay@.len() - needle@.len() && #[trigger] hay@.subrange(i, i + needle@.len())
                == needle@,
{
    let hay_chars = chars_of(hay);
    let needle_chars = chars_of(needle);
    if needle_chars.len() > hay_chars.len() {
        return false;
    }
    let last: usize = hay_chars.len() - needle_chars.len();
    let mut at: usize = 0;
    loop
        invariant
            hay_chars@ == hay@,
            needle_chars@ == needle@,
            last == hay@.len() - needle@.len(),
            at <= last,
            forall|i: int|
                0 <= i < at ==> #[trigger] hay@.subrange(i, i + needle@.len()) != needle@,
        decreases last - at,
    {
        if matches_at(&hay_chars, &needle_chars, at) {
            return true;
        }
        if at == last {
            return false;
        }
        at += 1;
    }
}

/// The decimal digit for `d`.
pub open spec fn digit(d: nat) -> char {
    (d + 48) as char
}

/// The decimal numeral of `n`, without leading zeros.
pub open spec fn numeral(n: nat) -> Seq<char>
    decreases n,
{
    if n < 10 {
        seq![digit(n)]
    } else {
        numeral(n / 10).push(digit(n % 10))
    }
}

/// A numeral has nothing but decimal digits.
pub proof fn lemma_numeral_is_digits(n: nat)
    ensures
        numeral(n).len() > 0,
        forall|i: int| 0 <= i < numeral(n).len() ==> '0' <= #[trigger] numeral(n)[i] <= '9',
    decreases n,
{
    if n >= 10 {
        lemma_numeral_is_digits(n / 10);
    }
}

/// A numeral has as many digits as its number needs, and the digit at place `i` stands for the
/// multiple of the power of ten that has its place.
pub proof fn numeral_has_the_digits_of_the_number(n: nat)
    ensures
        numeral(n).len() > 0,
        n < vstd::arithmetic::power::pow(10, numeral(n).len()),
        numeral(n).len() > 1 ==> vstd::arithmetic::power::pow(10, (numeral(n).len() - 1) as nat)
            <= n,
        forall|i: int|
            0 <= i < numeral(n).len() ==> (#[trigger] numeral(n)[i]) as int == 48 + (n as int
                / vstd::arithmetic::power::pow(10, (numeral(n).len() - 1 - i) as nat)) % 10,
    decreases n,
{
    reveal(vstd::arithmetic::power::pow);
    vstd::arithmetic::power::lemma_pow0(10);
    vstd::arithmetic::power::lemma_pow1(10);
    if n < 10 {
        assert(numeral(n)[0] as int == 48 + (n as int / vstd::arithmetic::power::pow(10, 0)) % 10);
    } else {
        let rest = numeral(n / 10);
        numeral_has_the_digits_of_the_number(n / 10);
        assert forall|i: int| 0 <= i < numeral(n).len() implies (#[trigger] numeral(n)[i]) as int
            == 48 + (n as int / vstd::arithmetic::power::pow(
            10,
            (numeral(n).len() - 1 - i) as nat,
        )) % 10 by {
            if i < rest.len() {
                assert(numeral(n)[i] == rest[i]);
                let p = vstd::arithmetic::power::pow(10, (rest.len() - 1 - i) as nat);
                vstd::arithmetic::power::lemma_pow_positive(10, (rest.len() - 1 - i) as nat);
                vstd::arithmetic::div_mod::lemma_div_denominator(n as int, 10, p);
            }
        }
    }
}

/// The numeral of a number above zero does not begin with a zero.
pub proof fn numeral_does_not_begin_with_zero(n: nat)
    requires
        n > 0,
    ensures
        numeral(n).len() > 0,
        numeral(n)[0] != '0',
    decreases n,
{
    if n >= 10 {
        numeral_does_not_begin_with_zero(n / 10);
    }
}

/// Different numbers have different numerals.
pub proof fn numerals_tell_numbers_apart(m: nat, n: nat)
    requires
        numeral(m) == numeral(n),
    ensures
        m == n,
    decreases m,
{
    numeral_has_the_digits_of_the_number(m);
    numeral_has_the_digits_of_the_number(n);
    vstd::arithmetic::power::lemma_pow0(10);
    let last = numeral(m).len() - 1;
    assert(numeral(m)[last] as int == 48 + m % 10);
    assert(numeral(n)[last] as int == 48 + n % 10);
    if m >= 10 {
        lemma_numeral_is_digits(m / 10);
        lemma_numeral_is_digits(n / 10);
        assert(numeral(m).drop_last() == numeral(m / 10));
        assert(numeral(n).drop_last() == numeral(n / 10));
        numerals_tell_numbers_apart(m / 10, n / 10);
    } else if n >= 10 {
        lemma_numeral_is_digits(n / 10);
    }
}

/// Returns the decimal numeral of `n`.
pub fn decimal(n: u64) -> (res: String)
    ensures
        res@ == numeral(n as nat),
    decreases n,
{
    let last = (48 + (n % 10) as u8) as char;
    let mut res = if n < 10 {
        String::new()
    } else {
        decimal(n / 10)
    };
    res.push(last);
    res
}

/// The texts that the strings of `parts` hold.
pub open spec fn texts(parts: Seq<String>) -> Seq<Seq<char>> {
    parts.map_values(|part: String| part@)
}

/// Whether `tokens` is `s` cut behind each space: the tokens make up `s`, none is empty,
/// each but the last ends in a space, and a space stands only at the end of a token.
pub open spec fn is_cut_at_spaces(tokens: Seq<Seq<char>>, s: Seq<char>) -> bool {
    &&& tokens.flatten() == s
    &&& forall|i: int| 0 <= i < tokens.len() ==> (#[trigger] tokens[i]).len() > 0
    &&& forall|i: int| 0 <= i < tokens.len() - 1 ==> (#[trigger] tokens[i]).last() == ' '
    &&& forall|i: int, j: int|
        0 <= i < tokens.len() && 0 <= j < tokens[i].len() - 1 ==> (#[trigger] tokens[i][j]) != ' '
}

/// Cuts `s` behind each space.
pub fn cut_at_spaces(s: &str) -> (res: Vec<String>)
    ensures
        is_cut_at_spaces(texts(res@), s@),
        texts(res@).flatten() == s@,
        forall|i: int| 0 <= i < res.len() ==> (#[trigger] res[i])@.len() > 0,
        forall|i: int| 0 <= i < res.len() - 1 ==> (#[trigger] res[i])@.last() == ' ',
        forall|i: int, j: int|
            0 <= i < res.len() && 0 <= j < res[i]@.len() - 1 ==> (#[trigger] res[i]@[j]) != ' ',
{
    let chars = chars_of(s);
    let mut res: Vec<String> = Vec::new();
    let mut word = String::new();
    let mut k: usize = 0;
    proof {
        texts(res@).lemma_flatten_and_flatten_alt_are_equivalent();
    }
    while k < chars.len()
        invariant
            chars@ == s@,
            k <= chars.len(),
            s@.take(k as int) == texts(res@).flatten_alt() + word@,
            forall|i: int| 0 <= i < word@.len() ==> word@[i] != ' ',
            forall|i: int| 0 <= i < res.len() ==> (#[trigger] texts(res@)[i]).len() > 0,
            forall|i: int| 0 <= i < res.len() ==> (#[trigger] texts(res@)[i]).last() == ' ',
            forall|i: int, j: int|
                0 <= i < res.len() && 0 <= j < texts(res@)[i].len() - 1 ==> (
                #[trigger] texts(res@)[i][j]) != ' ',
        decreases chars.len() - k,
    {
        let c = chars[k];
        word.push(c);
        assert(s@.take(k + 1) == s@.take(k as int).push(c));
        if c == ' ' {
            let ghost before = texts(res@);
            let ghost cut = word@;
            res.push(word);
            assert(texts(res@) == before.push(cut));
            assert(texts(res@).drop_last() == before);
            word = String::new();
        }
        k += 1;
    }
    assert(s@.take(s@.len() as int) == s@);
    if !word.as_str().is_empty() {
        let ghost before = texts(res@);
        let ghost cut = word@;
        res.push(word);
        assert(texts(res@) == before.push(cut));
        assert(texts(res@).drop_last() == before);
    }
    proof {
        texts(res@).lemma_flatten_and_flatten_alt_are_equivalent();
        assert(forall|i: int| 0 <= i < res.len() ==> texts(res@)[i] == (#[trigger] res[i])@);
    }
    res
}

/// What `trimmed_start` leaves is the suffix of `s` behind its leading white space.
proof fn lemma_trimmed_start(s: Seq<char>)
    ensures
        trimmed_start(s).len() <= s.len(),
        trimmed_start(s) == s.skip(s.len() - trimmed_start(s).len()),
        is_blank(s.take(s.len() - trimmed_start(s).len())),
        trimmed_start(s).len() > 0 ==> !is_white_space(trimmed_start(s).first()),
    decreases s.len(),
{
    if s.len() > 0 && is_white_space(s.first()) {
        let rest = s.drop_first();
        lemma_trimmed_start(rest);
        let n = trimmed_start(s).len();
        assert(s.skip(s.len() - n) == rest.skip(rest.len() - n));
        assert forall|i: int| 0 <= i < s.len() - n implies is_white_space(
            #[trigger] s.take(s.len() - n)[i],
        ) by {
            if i > 0 {
                assert(rest.take(rest.len() - n)[i - 1] == s[i]);
            }
        }
    }
}

/// What `trimmed_end` leaves is the prefix of `s` before its trailing white space.
proof fn lemma_trimmed_end(s: Seq<char>)
    ensures
        trimmed_end(s).len() <= s.len(),
        trimmed_end(s) == s.take(trimmed_end(s).len() as int),
        is_blank(s.skip(trimmed_end(s).len() as int)),
        trimmed_end(s).len() > 0 ==> !is_white_space(trimmed_end(s).last()),
    decreases s.len(),
{
    if s.len() > 0 && is_white_space(s.last()) {
        let rest = s.drop_last();
        lemma_trimmed_end(rest);
        let n = trimmed_end(s).len() as int;
        assert(s.take(n) == rest.take(n));
        assert forall|i: int| 0 <= i < s.len() - n implies is_white_space(
            #[trigger] s.skip(n)[i],
        ) by {
            if i < rest.len() - n {
                assert(rest.skip(n)[i] == s[n + i]);
            }
        }
    }
}

/// A text is trimmed to nothing exactly when it is blank.
pub proof fn blank_is_trimmed_to_nothing(s: Seq<char>)
    ensures
        trimmed(s).len() == 0 <==> is_blank(s),
{
    let t = trimmed_start(s);
    lemma_trimmed_start(s);
    lemma_trimmed_end(t);
    if t.len() > 0 {
        assert(t.first() == s[s.len() - t.len()]);
        if trimmed_end(t).len() == 0 {
            assert(is_white_space(t.skip(0)[0]));
        }
    } else {
        assert(s.take(s.len() as int) == s);
    }
}

/// A trimmed text neither begins nor ends with white space.
pub proof fn trimmed_has_no_outer_white_space(s: Seq<char>)
    requires
        trimmed(s).len() > 0,
    ensures
        !is_white_space(trimmed(s).first()),
        !is_white_space(trimmed(s).last()),
{
    lemma_trimmed_start(s);
    lemma_trimmed_end(trimmed_start(s));
}

/// Trimming a trimmed text changes nothing.
pub proof fn trimming_is_idempotent(s: Seq<char>)
    ensures
        trimmed(trimmed(s)) == trimmed(s),
{
    if trimmed(s).len() > 0 {
        trimmed_has_no_outer_white_space(s);
    }
}

/// The white space characters are the tab, the line breaks, the space, the no-break space, the
/// Ogham space mark, the spaces of the general punctuation block and the ideographic space.
pub proof fn white_space_is_the_unicode_property(c: char)
    ensures
        is_white_space(c) <==> set![
            0x9int, 0xa, 0xb, 0xc, 0xd, 0x20, 0x85, 0xa0, 0x1680, 0x2000, 0x2001, 0x2002, 0x2003,
            0x2004, 0x2005, 0x2006, 0x2007, 0x2008, 0x2009, 0x200a, 0x2028, 0x2029, 0x202f, 0x205f,
            0x3000,
        ].contains(c as int),
{
}

/// A text is blank exactly when each character that it holds is white space.
pub proof fn blank_text_holds_white_space_alone(s: Seq<char>)
    ensures
        is_blank(s) <==> (forall|c: char| #[trigger] s.contains(c) ==> is_white_space(c)),
{
    if !is_blank(s) {
        let i = choose|i: int| 0 <= i < s.len() && !is_white_space(#[trigger] s[i]);
        assert(s.contains(s[i]));
    }
}

/// Trimming a text takes the longest run of white space off each end, and nothing else.
pub proof fn trimmed_stands_between_white_space(s: Seq<char>)
    ensures
        exists|i: int, j: int|
            {
                &&& 0 <= i <= j <= s.len()
                &&& trimmed(s) == #[trigger] s.subrange(i, j)
                &&& forall|k: int| 0 <= k < i || j <= k < s.len() ==> is_white_space(s[k])
                &&& i < j ==> !is_white_space(s[i]) && !is_white_space(s[j - 1])
            },
{
    let t = trimmed_start(s);
    lemma_trimmed_start(s);
    lemma_trimmed_end(t);
    let i = s.len() - t.len();
    let j = i + trimmed(s).len();
    assert(trimmed(s) == s.subrange(i, j));
    assert forall|k: int| 0 <= k < i || j <= k < s.len() implies is_white_space(s[k]) by {
        if k < i {
            assert(s.take(i)[k] == s[k]);
        } else {
            assert(t.skip(trimmed(s).len() as int)[k - j] == s[k]);
        }
    }
}

/// White space put round a text that has none at its ends is taken off again by trimming.
pub proof fn trimming_takes_off_white_space_around(a: Seq<char>, t: Seq<char>, b: Seq<char>)
    requires
        forall|k: int| 0 <= k < a.len() ==> is_white_space(#[trigger] a[k]),
        forall|k: int| 0 <= k < b.len() ==> is_white_space(#[trigger] b[k]),
        t.len() > 0 ==> !is_white_space(t.first()) && !is_white_space(t.last()),
    ensures
        trimmed(a + t + b) == t,
{
    let s = a + t + b;
    trimmed_stands_between_white_space(s);
    let (i, j) = choose|i: int, j: int|
        {
            &&& 0 <= i <= j <= s.len()
            &&& trimmed(s) == #[trigger] s.subrange(i, j)
            &&& forall|k: int| 0 <= k < i || j <= k < s.len() ==> is_white_space(s[k])
            &&& i < j ==> !is_white_space(s[i]) && !is_white_space(s[j - 1])
        };
    if t.len() > 0 {
        let last = a.len() + t.len() - 1;
        assert(s[a.len() as int] == t.first());
        assert(s[last] == t.last());
        if i < a.len() {
            assert(s[i] == a[i]);
        }
        if j - 1 > last {
            assert(s[j - 1] == b[j - 1 - a.len() - t.len()]);
        }
        assert(i == a.len() && j == last + 1);
    } else if i < j {
        if i < a.len() {
            assert(s[i] == a[i]);
        } else {
            assert(s[i] == b[i - a.len()]);
        }
    }
    assert(trimmed(s) == t);
}

/// A text that neither begins nor ends with white space is kept as it is by trimming, whatever
/// stands inside.
pub proof fn text_without_outer_white_space_is_kept(s: Seq<char>)
    requires
        s.len() > 0 ==> !is_white_space(s.first()) && !is_white_space(s.last()),
    ensures
        trimmed(s) == s,
{
    let none = Seq::<char>::empty();
    trimming_takes_off_white_space_around(none, s, none);
    assert(none + s + none == s);
}

/// A text occurs in another exactly when the other is made of some text, that text and some
/// text again.
pub proof fn substring_stands_between_two_texts(hay: Seq<char>, needle: Seq<char>)
    ensures
        has_substring(hay, needle) <==> exists|a: Seq<char>, b: Seq<char>|
            hay == #[trigger] (a + needle + b),
{
    if has_substring(hay, needle) {
        let i = choose|i: int|
            0 <= i <= hay.len() - needle.len() && #[trigger] hay.subrange(i, i + needle.len())
                == needle;
        let a = hay.take(i);
        let b = hay.skip(i + needle.len());
        assert(hay == a + hay.subrange(i, i + needle.len()) + b);
        assert(hay == a + needle + b);
    }
    if exists|a: Seq<char>, b: Seq<char>| hay == #[trigger] (a + needle + b) {
        let (a, b) = choose|a: Seq<char>, b: Seq<char>| hay == #[trigger] (a + needle + b);
        let i = a.len() as int;
        assert(hay.subrange(i, i + needle.len()) == needle);
    }
}

/// The texts of strings are those that the strings hold, in order.
pub proof fn texts_are_those_of_the_strings(parts: Seq<String>)
    ensures
        texts(parts).len() == parts.len(),
        forall|i: int| 0 <= i < parts.len() ==> #[trigger] texts(parts)[i] == parts[i]@,
{
}

/// The first token of a text that begins with a word and a space is that word with the space,
/// and the other tokens are those of the rest.
pub proof fn first_token_is_the_word_before_the_first_space(
    word: Seq<char>,
    rest: Seq<char>,
    tokens: Seq<Seq<char>>,
)
    requires
        !word.contains(' '),
        is_cut_at_spaces(tokens, word.push(' ') + rest),
    ensures
        tokens.len() > 0,
        tokens[0] == word.push(' '),
        is_cut_at_spaces(tokens.skip(1), rest),
{
    let s = word.push(' ') + rest;
    let n = word.len() as int;
    assert(s[n] == ' ');
    assert(tokens.len() > 0) by {
        if tokens.len() == 0 {
            assert(tokens.flatten().len() == 0);
        }
    }
    let first = tokens[0];
    let others = tokens.skip(1);
    assert(tokens.drop_first() == others);
    assert(s == first + others.flatten());
    let m = first.len() as int;
    if m <= n {
        assert(first[m - 1] == s[m - 1]);
        assert(s[m - 1] == word[m - 1]);
        assert(first.last() != ' ');
        assert(tokens.len() == 1);
        assert(others.len() == 0);
        assert(others.flatten().len() == 0);
    }
    if m > n + 1 {
        assert(first[n] == s[n]);
        assert(tokens[0][n] != ' ');
    }
    assert(m == n + 1);
    assert(first == s.take(m));
    assert(s.take(m) == word.push(' '));
    assert(others.flatten() == s.skip(m));
    assert(s.skip(m) == rest);
    assert forall|i: int, j: int|
        0 <= i < others.len() && 0 <= j < others[i].len() - 1 implies (
    #[trigger] others[i][j]) != ' ' by {
        assert(tokens[i + 1][j] != ' ');
    }
    assert forall|i: int| 0 <= i < others.len() implies (#[trigger] others[i]).len() > 0 by {
        assert(tokens[i + 1].len() > 0);
    }
    assert forall|i: int| 0 <= i < others.len() - 1 implies (#[trigger] others[i]).last()
        == ' ' by {
        assert(tokens[i + 1].last() == ' ');
    }
}

/// A text without a space is one token, and an empty text has none.
pub proof fn text_without_space_is_one_token(s: Seq<char>, tokens: Seq<Seq<char>>)
    requires
        !s.contains(' '),
        is_cut_at_spaces(tokens, s),
    ensures
        s.len() == 0 ==> tokens.len() == 0,
        s.len() > 0 ==> tokens == seq![s],
{
    if tokens.len() == 0 {
        assert(tokens.flatten().len() == 0);
    } else {
        let first = tokens[0];
        let others = tokens.drop_first();
        assert(s == first + others.flatten());
        assert(first.last() == s[first.len() - 1]);
        assert(tokens.len() == 1);
        assert(others.len() == 0);
        assert(others.flatten().len() == 0);
        assert(first == s);
        assert(tokens == seq![s]);
    }
}

} // verus!
