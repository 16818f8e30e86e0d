use vstd::prelude::*;

verus! {

/// The words that POSIX-shell word splitting makes of a text, or `None`
/// where the text cannot be split (an unclosed quote, a trailing escape).
pub uninterp spec fn shell_words(s: Seq<char>) -> Option<Seq<Seq<char>>>;

/// The text that POSIX-shell quoting makes of a single word.
pub uninterp spec fn shell_quoted(s: Seq<char>) -> Seq<char>;

/// The characters of each string, in order.
pub open spec fn views_of(v: Seq<String>) -> Seq<Seq<char>> {
    v.map_values(|w: String| w@)
}

/// Unicode's White_Space property.
pub open spec fn is_white_space(c: char) -> bool {
    let n = c as u32;
    (0x9 <= n && n <= 0xd) || n == 0x20 || n == 0x85 || n == 0xa0 || n == 0x1680 || (0x2000
        <= n && n <= 0x200a) || n == 0x2028 || n == 0x2029 || n == 0x202f || n == 0x205f || n
        == 0x3000
}

/// Relies on shlex::split: the words of `s` under shell quoting rules, or
/// `None` where the quoting is unbalanced.
#[verifier::external_body]
pub(crate) fn split_words(s: &str) -> (r: Option<Vec<String>>)
    ensures
        match r {
            Some(v) => shell_words(s@) == Some(views_of(v@)),
            None => shell_words(s@) is None,
        },
{
    shlex::split(s)
}

/// Relies on shlex::quote: `value` quoted so that a shell reads it as one word.
#[verifier::external_body]
pub(crate) fn shell_quote(value: &str) -> (r: String)
    ensures
        r@ == shell_quoted(value@),
        value@.len() == 0 ==> r@ == seq!['\'', '\''],
{
    shlex::quote(value).to_string()
}

/// Whether `c` has Unicode's White_Space property, as `char::is_whitespace`
/// tests it.
pub fn is_whitespace(c: char) -> (r: bool)
    ensures
        r == is_white_space(c),
{
    let n = c as u32;
    (0x9 <= n && n <= 0xd) || n == 0x20 || n == 0x85 || n == 0xa0 || n == 0x1680 || (0x2000 <= n
        && n <= 0x200a) || n == 0x2028 || n == 0x2029 || n == 0x202f || n == 0x205f || n == 0x3000
}

/// The characters of `s`, in order.
pub fn chars_of(s: &str) -> (r: Vec<char>)
    ensures
        r@ == s@,
{
    let n = s.unicode_len();
    let mut r: Vec<char> = Vec::new();
    let mut i: usize = 0;
    while i < n
        invariant
            n == s@.len(),
            i <= n,
            r@ == s@.take(i as int),
        decreases n - i,
    {
        r.push(s.get_char(i));
        assert(r@ =~= s@.take(i + 1));
        i += 1;
    }
    assert(r@ =~= s@);
    r
}

} // verus!
