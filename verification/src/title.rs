//! Well-formedness of a record's title.

use vstd::prelude::*;
use vstd::utf8::encode_utf8;
use crate::error::TodoError;

verus! {

/// The least number of bytes in a title.
pub const MIN_TITLE_LEN: usize = 3;

/// The greatest number of bytes in a title.
pub const MAX_TITLE_LEN: usize = 200;

/// The characters that Unicode gives the property `White_Space`.
pub open spec fn is_white_space(c: char) -> bool {
    let n = c as u32;
    ||| 0x09 <= n <= 0x0D
    ||| n == 0x20
    ||| n == 0x85
    ||| n == 0xA0
    ||| n == 0x1680
    ||| 0x2000 <= n <= 0x200A
    ||| n == 0x2028
    ||| n == 0x2029
    ||| n == 0x202F
    ||| n == 0x205F
    ||| n == 0x3000
}

/// `s` without the white space it begins with.
pub open spec fn trim_start(s: Seq<char>) -> Seq<char>
    decreases s.len(),
{
    if s.len() > 0 && is_white_space(s[0]) {
        trim_start(s.drop_first())
    } else {
        s
    }
}

/// `s` without the white space it ends with.
pub open spec fn trim_end(s: Seq<char>) -> Seq<char>
    decreases s.len(),
{
    if s.len() > 0 && is_white_space(s.last()) {
        trim_end(s.drop_last())
    } else {
        s
    }
}

/// `s` without the white space at either end.
pub open spec fn trimmed(s: Seq<char>) -> Seq<char> {
    trim_end(trim_start(s))
}

/// Every character of `s` is white space.
pub open spec fn is_blank(s: Seq<char>) -> bool {
    forall|i: int| 0 <= i < s.len() ==> is_white_space(#[trigger] s[i])
}

/// The number of bytes that `s` takes as UTF-8.
pub open spec fn byte_len(s: Seq<char>) -> nat {
    encode_utf8(s).len()
}

/// What validation says of a title: the first of the four checks that fails
/// names the error.
pub open spec fn title_verdict(s: Seq<char>) -> Result<(), TodoError> {
    if s.len() == 0 {
        Err(TodoError::TitleEmpty)
    } else if is_blank(s) {
        Err(TodoError::TitleWhitespaceOnly)
    } else if byte_len(s) < MIN_TITLE_LEN {
        Err(TodoError::TitleTooShort)
    } else if byte_len(s) > MAX_TITLE_LEN {
        Err(TodoError::TitleTooLong)
    } else {
        Ok(())
    }
}

/// A title that validation accepts.
pub open spec fn is_valid_title(s: Seq<char>) -> bool {
    title_verdict(s) is Ok
}

/// Trimming at the front leaves nothing exactly of a blank string, and what
/// it leaves otherwise begins with a character that is no white space.
proof fn lemma_trim_start(s: Seq<char>)
    ensures
        trim_start(s).len() == 0 <==> is_blank(s),
        trim_start(s).len() > 0 ==> !is_white_space(trim_start(s)[0]),
    decreases s.len(),
{
    if s.len() > 0 && is_white_space(s[0]) {
        let rest = s.drop_first();
        lemma_trim_start(rest);
        if is_blank(rest) {
            assert forall|i: int| 0 <= i < s.len() implies is_white_space(#[trigger] s[i]) by {
                if i > 0 {
                    assert(rest[i - 1] == s[i]);
                }
            }
        }
        if is_blank(s) {
            assert forall|i: int| 0 <= i < rest.len() implies is_white_space(
                #[trigger] rest[i],
            ) by {
                assert(rest[i] == s[i + 1]);
            }
        }
    } else if s.len() > 0 {
        assert(!is_white_space(s[0]));
    }
}

/// Trimming at the back never empties a string that begins with a character
/// that is no white space.
proof fn lemma_trim_end_keeps_head(s: Seq<char>)
    requires
        s.len() > 0,
        !is_white_space(s[0]),
    ensures
        trim_end(s).len() > 0,
    decreases s.len(),
{
    if is_white_space(s.last()) {
        assert(s.len() > 1);
        assert(s.drop_last()[0] == s[0]);
        lemma_trim_end_keeps_head(s.drop_last());
    }
}

/// Trimming leaves nothing of exactly the blank strings.
pub proof fn lemma_trimmed_empty_iff_blank(s: Seq<char>)
    ensures
        trimmed(s).len() == 0 <==> is_blank(s),
{
    lemma_trim_start(s);
    let t = trim_start(s);
    if t.len() > 0 {
        lemma_trim_end_keeps_head(t);
    } else {
        assert(trim_end(t) == t);
    }
}

/// `str::trim`: the same string without the white space at its two ends,
/// white space being the characters with Unicode's property `White_Space`.
#[verifier::external_body]
fn trim(s: &str) -> (r: &str)
    ensures
        r@ == trimmed(s@),
{
    s.trim()
}

/// Checks a title, in this order: it is not empty, it is not white space
/// alone, it has at least three bytes, it has at most two hundred.
pub fn validate_title(input: &String) -> (r: Result<(), TodoError>)
    ensures
        r == title_verdict(input@),
{
    let s = input.as_str();
    if s.is_empty() {
        return Err(TodoError::TitleEmpty);
    }
    proof {
        lemma_trimmed_empty_iff_blank(s@);
    }
    if trim(s).is_empty() {
        return Err(TodoError::TitleWhitespaceOnly);
    }
    let len: usize = s.as_bytes().len();
    if len < MIN_TITLE_LEN {
        return Err(TodoError::TitleTooShort);
    }
    if len > MAX_TITLE_LEN {
        return Err(TodoError::TitleTooLong);
    }
    Ok(())
}

} // verus!
