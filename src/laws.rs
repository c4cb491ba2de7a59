//! Properties that hold of the conversions over all inputs.
use crate::ascii::{ascii_lower, ascii_upper};
use crate::convert::{
    is_ascii_char, lemma_ascii_run_cases, lowercase_of, uppercase_of,
};
use vstd::prelude::*;
use vstd::utf8::*;

verus! {

/// On ASCII text, lowercasing replaces each of `A`–`Z` by the matching
/// letter of `a`–`z` and keeps every other value; uppercasing replaces each
/// of `a`–`z` by the matching letter of `A`–`Z` and keeps every other value.
pub proof fn lemma_ascii_text_cases(s: Seq<char>)
    requires
        is_ascii_chars(s),
    ensures
        lowercase_of(s) == s.map_values(|c: char| ascii_lower(c)),
        uppercase_of(s) == s.map_values(|c: char| ascii_upper(c)),
{
    assert forall|i: int| 0 <= i < s.len() implies is_ascii_char(#[trigger] s[i]) by {
        assert('\0' <= s[i] <= '\u{7f}');
    }
    lemma_ascii_run_cases(s, s.len() as int);
    assert(lowercase_of(s) =~= s.map_values(|c: char| ascii_lower(c)));
    assert(uppercase_of(s) =~= s.map_values(|c: char| ascii_upper(c)));
}

/// On ASCII text, lowercasing a second time changes nothing, and neither
/// does uppercasing a second time.
pub proof fn lemma_ascii_text_idempotent(s: Seq<char>)
    requires
        is_ascii_chars(s),
    ensures
        lowercase_of(lowercase_of(s)) == lowercase_of(s),
        uppercase_of(uppercase_of(s)) == uppercase_of(s),
{
    lemma_ascii_text_cases(s);
    let lo = s.map_values(|c: char| ascii_lower(c));
    let up = s.map_values(|c: char| ascii_upper(c));
    assert(is_ascii_chars(lo)) by {
        assert forall|i: int| 0 <= i < lo.len() implies '\0' <= #[trigger] lo[i] <= '\u{7f}' by {
            assert('\0' <= s[i] <= '\u{7f}');
        }
    }
    assert(is_ascii_chars(up)) by {
        assert forall|i: int| 0 <= i < up.len() implies '\0' <= #[trigger] up[i] <= '\u{7f}' by {
            assert('\0' <= s[i] <= '\u{7f}');
        }
    }
    lemma_ascii_text_cases(lo);
    lemma_ascii_text_cases(up);
    assert(lo.map_values(|c: char| ascii_lower(c)) =~= lo);
    assert(up.map_values(|c: char| ascii_upper(c)) =~= up);
}

/// Both conversions produce valid encoded text: the UTF-8 encoding of the
/// result is well formed and decodes back to the result.
pub proof fn lemma_results_are_valid_text(s: Seq<char>)
    ensures
        valid_utf8(encode_utf8(lowercase_of(s))),
        decode_utf8(encode_utf8(lowercase_of(s))) == lowercase_of(s),
        valid_utf8(encode_utf8(uppercase_of(s))),
        decode_utf8(encode_utf8(uppercase_of(s))) == uppercase_of(s),
{
    broadcast use encode_utf8_valid_utf8, encode_utf8_decode_utf8;

}

} // verus!
