//! Character sets and lengths allowed in proposal text and links.
use vstd::prelude::*;
use vstd::utf8::encode_utf8;
use vstd::string::StringSliceAdditionalSpecFns;

verus! {

/// Length of a text in bytes once encoded as UTF-8, as `str::len` gives it.
pub open spec fn byte_len(s: Seq<char>) -> usize {
    encode_utf8(s).len() as usize
}

pub open spec fn ascii_alphanumeric(c: char) -> bool {
    ('0' <= c && c <= '9') || ('a' <= c && c <= 'z') || ('A' <= c && c <= 'Z')
}

/// ASCII whitespace as Rust defines it: space, tab, line feed, form feed
/// and carriage return.
pub open spec fn ascii_whitespace(c: char) -> bool {
    c == ' ' || c == '\t' || c == '\n' || c == '\x0C' || c == '\r'
}

/// Punctuation allowed in a title or a description.
pub open spec fn text_punctuation(c: char) -> bool {
    c == '!' || c == '&' || c == '?' || c == '#' || c == '(' || c == ')' || c == '*' || c == '+'
        || c == '\'' || c == '-' || c == '.' || c == '/' || c == '"'
}

/// Punctuation allowed in a link.
pub open spec fn link_punctuation(c: char) -> bool {
    c == '-' || c == '_' || c == ':' || c == '/' || c == '?' || c == '#' || c == '@' || c == '!'
        || c == '$' || c == '&' || c == '(' || c == ')' || c == '*' || c == '+' || c == ','
        || c == ';' || c == '=' || c == '.' || c == '~' || c == '[' || c == ']' || c == '\''
        || c == '%'
}

pub open spec fn safe_text_char(c: char) -> bool {
    ascii_alphanumeric(c) || ascii_whitespace(c) || text_punctuation(c)
}

pub open spec fn safe_link_char(c: char) -> bool {
    ascii_alphanumeric(c) || link_punctuation(c)
}

/// Every character of `s` is allowed in proposal text.
pub open spec fn safe_text(s: Seq<char>) -> bool {
    forall|i: int| 0 <= i < s.len() ==> safe_text_char(#[trigger] s[i])
}

/// Every character of `s` is allowed in a link.
pub open spec fn safe_link(s: Seq<char>) -> bool {
    forall|i: int| 0 <= i < s.len() ==> safe_link_char(#[trigger] s[i])
}

fn is_alphanumeric(c: char) -> (r: bool)
    ensures
        r == ascii_alphanumeric(c),
{
    ('0' <= c && c <= '9') || ('a' <= c && c <= 'z') || ('A' <= c && c <= 'Z')
}

fn is_safe_text_char(c: char) -> (r: bool)
    ensures
        r == safe_text_char(c),
{
    is_alphanumeric(c) || c == ' ' || c == '\t' || c == '\n' || c == '\x0C' || c == '\r' || c
        == '!' || c == '&' || c == '?' || c == '#' || c == '(' || c == ')' || c == '*' || c == '+'
        || c == '\'' || c == '-' || c == '.' || c == '/' || c == '"'
}

fn is_safe_link_char(c: char) -> (r: bool)
    ensures
        r == safe_link_char(c),
{
    is_alphanumeric(c) || c == '-' || c == '_' || c == ':' || c == '/' || c == '?' || c == '#' || c
        == '@' || c == '!' || c == '$' || c == '&' || c == '(' || c == ')' || c == '*' || c == '+'
        || c == ',' || c == ';' || c == '=' || c == '.' || c == '~' || c == '[' || c == ']' || c
        == '\'' || c == '%'
}

/// Byte length of `s` in UTF-8.
pub fn text_len(s: &String) -> (r: usize)
    ensures
        r == byte_len(s@),
{
    let t = s.as_str();
    let n = t.len();
    proof {
        assert(t@ == s@);
        assert(t.spec_bytes() == encode_utf8(t@));
    }
    n
}

/// Whether every character of `s` is allowed in proposal text.
pub fn is_safe_text(s: &str) -> (r: bool)
    ensures
        r == safe_text(s@),
{
    let n = s.unicode_len();
    let mut i: usize = 0;
    while i < n
        invariant
            n == s@.len(),
            i <= n,
            forall|j: int| 0 <= j < i ==> safe_text_char(#[trigger] s@[j]),
        decreases n - i,
    {
        if !is_safe_text_char(s.get_char(i)) {
            return false;
        }
        i = i + 1;
    }
    true
}

/// Whether every character of `link` is ASCII alphanumeric or allowed URL
/// punctuation.
pub fn is_safe_link(link: &str) -> (r: bool)
    ensures
        r == safe_link(link@),
{
    let n = link.unicode_len();
    let mut i: usize = 0;
    while i < n
        invariant
            n == link@.len(),
            i <= n,
            forall|j: int| 0 <= j < i ==> safe_link_char(#[trigger] link@[j]),
        decreases n - i,
    {
        if !is_safe_link_char(link.get_char(i)) {
            return false;
        }
        i = i + 1;
    }
    true
}

/// A link in a list of links is well formed: safe characters only, a dot
/// somewhere, and a slash at the end.
pub open spec fn well_formed_link(s: Seq<char>) -> bool {
    safe_link(s) && (exists|i: int| 0 <= i < s.len() && s[i] == '.') && s.len() > 0 && s.last()
        == '/'
}

/// Whether some character of `s` is `c`.
fn has_char(s: &str, c: char) -> (r: bool)
    ensures
        r == exists|i: int| 0 <= i < s@.len() && s@[i] == c,
{
    let n = s.unicode_len();
    let mut i: usize = 0;
    while i < n
        invariant
            n == s@.len(),
            i <= n,
            forall|j: int| 0 <= j < i ==> s@[j] != c,
        decreases n - i,
    {
        if s.get_char(i) == c {
            return true;
        }
        i = i + 1;
    }
    false
}

/// Checks each link; fails with the position of the first that is not
/// well formed.
pub fn validate_links(links: &Vec<String>) -> (r: Result<(), usize>)
    ensures
        r.is_ok() <==> forall|i: int| 0 <= i < links@.len() ==> well_formed_link(#[trigger] links@[i]@),
        r.is_err() ==> ({
            let k = r.unwrap_err() as int;
            &&& 0 <= k < links@.len()
            &&& !well_formed_link(links@[k]@)
            &&& forall|i: int| 0 <= i < k ==> well_formed_link(#[trigger] links@[i]@)
        }),
{
    let mut i: usize = 0;
    while i < links.len()
        invariant
            i <= links@.len(),
            forall|j: int| 0 <= j < i ==> well_formed_link(#[trigger] links@[j]@),
        decreases links@.len() - i,
    {
        let s = links[i].as_str();
        let n = s.unicode_len();
        let ok = is_safe_link(s) && has_char(s, '.') && n > 0 && s.get_char(n - 1) == '/';
        if !ok {
            return Err(i);
        }
        i = i + 1;
    }
    Ok(())
}

} // verus!
