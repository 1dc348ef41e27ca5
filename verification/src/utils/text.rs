//! Text helpers shared by the catalogues and parsers of the crate.

use vstd::prelude::*;
use vstd::utf8::is_ascii_chars;

verus! {

/// The upper-case form of a text, as `str::to_uppercase` of the standard
/// library computes it from the text's characters.
pub uninterp spec fn uppercase_of(text: Seq<char>) -> Seq<char>;

/// The upper-case form of `text`.
///
/// Calls `str::to_uppercase`. The contract gives the result a name and says
/// nothing more of it: the result depends on the characters of `text` alone.
/// The crate calls it for texts that hold a character outside ASCII.
#[verifier::external_body]
pub(crate) fn to_uppercase(text: &str) -> (upper: String)
    ensures
        upper@ == uppercase_of(text@),
{
    text.to_uppercase()
}

/// Whether two texts hold the same characters.
pub fn str_equal(a: &str, b: &str) -> (equal: bool)
    ensures
        equal == (a@ == b@),
{
    let len = a.unicode_len();
    if len != b.unicode_len() {
        return false;
    }
    let mut i: usize = 0;
    while i < len
        invariant
            len == a@.len(),
            len == b@.len(),
            0 <= i <= len,
            forall|j: int| 0 <= j < i ==> a@[j] == b@[j],
        decreases len - i,
    {
        if a.get_char(i) != b.get_char(i) {
            return false;
        }
        i += 1;
    }
    assert(a@ =~= b@);
    true
}

/// The characters of `text`, in order.
pub fn chars_of(text: &str) -> (chars: Vec<char>)
    ensures
        chars@ == text@,
{
    let mut chars: Vec<char> = Vec::new();
    for c in it: text.chars()
        invariant
            it.seq() == text@,
            chars@ == it.seq().take(it.index() as int),
    {
        chars.push(c);
    }
    assert(chars@ =~= text@);
    chars
}

/// The upper-case form of an ASCII character: a letter from `a` to `z`
/// becomes the letter from `A` to `Z`, any other character stays as it is.
pub open spec fn ascii_upper_char(c: char) -> char {
    if 'a' <= c && c <= 'z' {
        ((c as u8 - 32) as u8) as char
    } else {
        c
    }
}

/// A text with each of its characters in ASCII upper case.
pub open spec fn ascii_upper(text: Seq<char>) -> Seq<char> {
    text.map_values(|c: char| ascii_upper_char(c))
}

/// The form in which a name or a flag string is compared, whatever the case
/// it was written in: its upper-case form. For a text of ASCII characters
/// that is the text with `a` to `z` replaced by `A` to `Z`.
pub open spec fn canonical(text: Seq<char>) -> Seq<char> {
    if is_ascii_chars(text) {
        ascii_upper(text)
    } else {
        uppercase_of(text)
    }
}

/// The upper-case form of an ASCII character.
pub fn upper_char(c: char) -> (upper: char)
    ensures
        upper == ascii_upper_char(c),
{
    if 'a' <= c && c <= 'z' {
        ((c as u8) - 32) as char
    } else {
        c
    }
}

/// The characters of the canonical form of `text`.
///
/// A text of ASCII characters is put in upper case letter by letter; any
/// other text is put in upper case by the standard library.
pub fn to_canonical(text: &str) -> (chars: Vec<char>)
    ensures
        chars@ == canonical(text@),
{
    if text.is_ascii() {
        let plain = chars_of(text);
        let mut chars: Vec<char> = Vec::new();
        let mut i: usize = 0;
        while i < plain.len()
            invariant
                0 <= i <= plain.len(),
                plain@ == text@,
                chars@ == ascii_upper(plain@.take(i as int)),
            decreases plain.len() - i,
        {
            chars.push(upper_char(plain[i]));
            assert(chars@ =~= ascii_upper(plain@.take(i + 1)));
            i += 1;
        }
        assert(plain@.take(i as int) =~= plain@);
        chars
    } else {
        let upper = to_uppercase(text);
        chars_of(upper.as_str())
    }
}

/// Whether `text` holds exactly the characters `chars`.
pub fn str_equals_chars(text: &str, chars: &Vec<char>) -> (equal: bool)
    ensures
        equal == (text@ == chars@),
{
    let len = text.unicode_len();
    if len != chars.len() {
        return false;
    }
    let mut i: usize = 0;
    while i < len
        invariant
            len == text@.len(),
            len == chars@.len(),
            0 <= i <= len,
            forall|j: int| 0 <= j < i ==> text@[j] == chars@[j],
        decreases len - i,
    {
        if text.get_char(i) != chars[i] {
            return false;
        }
        i += 1;
    }
    assert(text@ =~= chars@);
    true
}

/// Putting an ASCII text in upper case twice changes nothing more.
pub proof fn lemma_ascii_upper_idempotent(text: Seq<char>)
    requires
        is_ascii_chars(text),
    ensures
        is_ascii_chars(ascii_upper(text)),
        ascii_upper(ascii_upper(text)) == ascii_upper(text),
        canonical(ascii_upper(text)) == canonical(text),
{
    assert(ascii_upper(ascii_upper(text)) =~= ascii_upper(text));
}

/// Two ASCII texts that differ in the case of their letters only have the
/// same canonical form.
pub proof fn lemma_canonical_ignores_ascii_case(a: Seq<char>, b: Seq<char>)
    requires
        is_ascii_chars(a),
        is_ascii_chars(b),
        ascii_upper(a) == ascii_upper(b),
    ensures
        canonical(a) == canonical(b),
{
}

} // verus!
