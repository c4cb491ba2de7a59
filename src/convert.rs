//! The conversion engine: an ASCII state that transcodes the leading ASCII
//! run in bulk, then a Unicode state that maps the rest one scalar value at
//! a time.
use crate::ascii::{
    all_ascii, ascii_flip, ascii_lower, ascii_prefix_len, ascii_upper, flip_byte, is_ascii,
    lemma_ascii_prefix, push_ascii_run,
};
use crate::sigma::{
    is_final_sigma, scan_cased_after, scan_cased_before, sigma_form, split_text, CAPITAL_SIGMA,
    SMALL_FINAL_SIGMA, SMALL_SIGMA,
};
use crate::unicode::{lower_of, push_lowercase, push_uppercase, upper_of};
use vstd::prelude::*;
use vstd::string::StringSliceAdditionalSpecFns;
use vstd::utf8::*;

verus! {

/// A scalar value below 0x80.
pub open spec fn is_ascii_char(c: char) -> bool {
    (c as u32) < 0x80
}

/// What the value at index `i` of `s` lowercases to: ASCII letters by the
/// ASCII rule, a capital sigma by the Final_Sigma rule, anything else by the
/// Unicode lowercase mapping.
pub open spec fn lowercase_at(s: Seq<char>, i: int) -> Seq<char> {
    let c = s[i];
    if is_ascii_char(c) {
        seq![ascii_lower(c)]
    } else if c == CAPITAL_SIGMA {
        if is_final_sigma(s, i) {
            seq![SMALL_FINAL_SIGMA]
        } else {
            seq![SMALL_SIGMA]
        }
    } else {
        lower_of(c)
    }
}

/// What the value at index `i` of `s` uppercases to: ASCII letters by the
/// ASCII rule, anything else by the Unicode uppercase mapping.
pub open spec fn uppercase_at(s: Seq<char>, i: int) -> Seq<char> {
    let c = s[i];
    if is_ascii_char(c) {
        seq![ascii_upper(c)]
    } else {
        upper_of(c)
    }
}

/// The lowercase forms of the first `n` values of `s`, concatenated.
pub open spec fn lowercase_prefix(s: Seq<char>, n: int) -> Seq<char>
    decreases n,
{
    if n <= 0 {
        seq![]
    } else {
        lowercase_prefix(s, n - 1) + lowercase_at(s, n - 1)
    }
}

/// The uppercase forms of the first `n` values of `s`, concatenated.
pub open spec fn uppercase_prefix(s: Seq<char>, n: int) -> Seq<char>
    decreases n,
{
    if n <= 0 {
        seq![]
    } else {
        uppercase_prefix(s, n - 1) + uppercase_at(s, n - 1)
    }
}

/// The default lowercase mapping of the text `s`.
pub open spec fn lowercase_of(s: Seq<char>) -> Seq<char> {
    lowercase_prefix(s, s.len() as int)
}

/// The default uppercase mapping of the text `s`.
pub open spec fn uppercase_of(s: Seq<char>) -> Seq<char> {
    uppercase_prefix(s, s.len() as int)
}

/// On a prefix of ASCII values, lowercasing and uppercasing apply the ASCII
/// rule to each value.
pub proof fn lemma_ascii_run_cases(s: Seq<char>, n: int)
    requires
        0 <= n <= s.len(),
        forall|i: int| 0 <= i < n ==> is_ascii_char(#[trigger] s[i]),
    ensures
        lowercase_prefix(s, n) == Seq::new(n as nat, |i: int| ascii_lower(s[i])),
        uppercase_prefix(s, n) == Seq::new(n as nat, |i: int| ascii_upper(s[i])),
    decreases n,
{
    if n > 0 {
        lemma_ascii_run_cases(s, n - 1);
        assert(lowercase_prefix(s, n) =~= Seq::new(n as nat, |i: int| ascii_lower(s[i])));
        assert(uppercase_prefix(s, n) =~= Seq::new(n as nat, |i: int| ascii_upper(s[i])));
    } else {
        assert(lowercase_prefix(s, n) =~= Seq::new(n as nat, |i: int| ascii_lower(s[i])));
        assert(uppercase_prefix(s, n) =~= Seq::new(n as nat, |i: int| ascii_upper(s[i])));
    }
}

/// The scalar values of `s`, in order.
fn collect_chars(s: &str) -> (v: Vec<char>)
    ensures
        v@ == s@,
{
    let mut v: Vec<char> = Vec::new();
    for c in it: s.chars()
        invariant
            v@ == it.seq().take(it.index() as int),
    {
        v.push(c);
    }
    v
}


/// Flips the case of an ASCII scalar value.
fn flip_char(c: char, upper: bool) -> (r: char)
    requires
        is_ascii_char(c),
    ensures
        r == ascii_flip(c, upper),
{
    let b = (c as u32) as u8;
    proof {
        char_u32_cast(c, c as u32);
    }
    flip_byte(b, upper) as char
}

/// Writes the first `n` scalar values of `s`, all ASCII, converted into a
/// new buffer sized for `s`, and returns the buffer with the scalar values
/// that follow them.
fn convert_ascii_head(s: &str, n: usize, upper: bool) -> (r: (String, Vec<char>))
    requires
        n <= s.spec_bytes().len(),
        all_ascii(s.spec_bytes(), 0, n as int),
    ensures
        split_text(s@, s.spec_bytes(), n as int, r.1@),
        r.0@ == Seq::new(n as nat, |i: int| ascii_flip(s@[i], upper)),
        forall|i: int| 0 <= i < n ==> is_ascii_char(#[trigger] s@[i]),
{
    let bytes = s.as_bytes();
    proof {
        lemma_ascii_prefix(s@, n as int);
    }
    let mut out = String::with_capacity(bytes.len());
    push_ascii_run(&mut out, bytes, n, upper);
    assert(out@ =~= Seq::new(n as nat, |i: int| ascii_flip(s@[i], upper)));
    let (_, rest) = s.split_at(n);
    proof {
        broadcast use encode_utf8_decode_utf8;

        assert(rest@ == decode_utf8(encode_utf8(rest@)));
    }
    let tail = collect_chars(rest);
    proof {
        let sub = s@.subrange(n as int, s@.len() as int);
        assert(decode_utf8(encode_utf8(sub)) == sub);
        assert(tail@ =~= sub);
        assert(s@.len() == n + tail@.len());
        assert forall|k: int| 0 <= k < tail@.len() implies #[trigger] s@[n + k] == tail@[k] by {
            assert(tail@[k] == sub[k]);
        }
        assert forall|i: int| 0 <= i < n implies is_ascii_char(#[trigger] s@[i]) by {
            assert(bytes@[i] < 0x80);
        }
    }
    (out, tail)
}

/// Where the bulk ASCII conversion stops: the end of the leading ASCII run
/// when `upfront` is false; when it is true, the end of `s` if `s` is
/// entirely ASCII and its start otherwise.
fn ascii_head_len(s: &str, upfront: bool) -> (n: usize)
    ensures
        n <= s.spec_bytes().len(),
        all_ascii(s.spec_bytes(), 0, n as int),
{
    let bytes = s.as_bytes();
    if upfront {
        if is_ascii(bytes) {
            bytes.len()
        } else {
            0
        }
    } else {
        ascii_prefix_len(bytes)
    }
}

/// The Unicode state of lowercasing: maps the values after the ASCII head
/// one at a time and appends them to `out`, which holds the head lowercased.
fn lowercase_tail(s: &str, out: String, n: usize, tail: Vec<char>) -> (r: String)
    requires
        split_text(s@, s.spec_bytes(), n as int, tail@),
        out@ == lowercase_prefix(s@, n as int),
    ensures
        r@ == lowercase_of(s@),
{
    let mut out = out;
    let head = s.as_bytes();
    for k in 0..tail.len()
        invariant
            split_text(s@, head@, n as int, tail@),
            out@ == lowercase_prefix(s@, n + k),
    {
        let c = tail[k];
        assert(s@[n + k] == c);
        if (c as u32) < 0x80 {
            out.push(flip_char(c, false));
        } else if c == CAPITAL_SIGMA {
            let before = scan_cased_before(head, n, &tail, k, Ghost(s@));
            let after = scan_cased_after(head, n, &tail, k, Ghost(s@));
            out.push(sigma_form(before, after));
        } else {
            push_lowercase(&mut out, c);
        }
        assert(out@ =~= lowercase_prefix(s@, n + k + 1));
    }
    out
}

/// The Unicode state of uppercasing: maps the values after the ASCII head
/// one at a time and appends them to `out`, which holds the head uppercased.
fn uppercase_tail(s: &str, out: String, n: usize, tail: Vec<char>) -> (r: String)
    requires
        split_text(s@, s.spec_bytes(), n as int, tail@),
        out@ == uppercase_prefix(s@, n as int),
    ensures
        r@ == uppercase_of(s@),
{
    let mut out = out;
    for k in 0..tail.len()
        invariant
            split_text(s@, s.spec_bytes(), n as int, tail@),
            out@ == uppercase_prefix(s@, n + k),
    {
        let c = tail[k];
        assert(s@[n + k] == c);
        if (c as u32) < 0x80 {
            out.push(flip_char(c, true));
        } else {
            push_uppercase(&mut out, c);
        }
        assert(out@ =~= uppercase_prefix(s@, n + k + 1));
    }
    out
}

/// Lowercases `s`, with the ASCII head chosen as [`ascii_head_len`] says.
fn lowercase_with(s: &str, upfront: bool) -> (r: String)
    ensures
        r@ == lowercase_of(s@),
{
    let n = ascii_head_len(s, upfront);
    let (out, tail) = convert_ascii_head(s, n, false);
    proof {
        lemma_ascii_run_cases(s@, n as int);
        assert(out@ =~= lowercase_prefix(s@, n as int));
    }
    lowercase_tail(s, out, n, tail)
}

/// Uppercases `s`, with the ASCII head chosen as [`ascii_head_len`] says.
fn uppercase_with(s: &str, upfront: bool) -> (r: String)
    ensures
        r@ == uppercase_of(s@),
{
    let n = ascii_head_len(s, upfront);
    let (out, tail) = convert_ascii_head(s, n, true);
    proof {
        lemma_ascii_run_cases(s@, n as int);
        assert(out@ =~= uppercase_prefix(s@, n as int));
    }
    uppercase_tail(s, out, n, tail)
}

/// The lowercase equivalent of `s`, by the default Unicode lowercase
/// mapping with the Final_Sigma rule.
///
/// The leading ASCII run is found chunk by chunk and converted in bulk; the
/// rest is converted one scalar value at a time.
pub fn to_lowercase(s: &str) -> (r: String)
    ensures
        r@ == lowercase_of(s@),
{
    lowercase_with(s, false)
}

/// The uppercase equivalent of `s`, by the default Unicode uppercase
/// mapping.
///
/// The leading ASCII run is found chunk by chunk and converted in bulk; the
/// rest is converted one scalar value at a time.
pub fn to_uppercase(s: &str) -> (r: String)
    ensures
        r@ == uppercase_of(s@),
{
    uppercase_with(s, false)
}

/// The same result as [`to_lowercase`], dispatched up front: the whole of
/// `s` is first tested for ASCII; ASCII text is converted in one bulk pass,
/// other text one scalar value at a time from its start.
pub fn to_lowercase_upfront(s: &str) -> (r: String)
    ensures
        r@ == lowercase_of(s@),
{
    lowercase_with(s, true)
}

/// The same result as [`to_uppercase`], dispatched up front: the whole of
/// `s` is first tested for ASCII; ASCII text is converted in one bulk pass,
/// other text one scalar value at a time from its start.
pub fn to_uppercase_upfront(s: &str) -> (r: String)
    ensures
        r@ == uppercase_of(s@),
{
    uppercase_with(s, true)
}

} // verus!
