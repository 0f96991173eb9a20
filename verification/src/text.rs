//! Text helpers: UTF-8 conversions, ASCII case folding and whitespace
//! trimming, with what the standard library documents of them.
use vstd::prelude::*;
use vstd::string::{StrSliceExecFns, StringExecFns};
use vstd::utf8::{decode_utf8, encode_utf8, is_ascii_chars, valid_utf8};

verus! {

/// The text of an optional string.
pub open spec fn opt_text(s: Option<String>) -> Option<Seq<char>> {
    match s {
        Some(t) => Some(t@),
        None => None,
    }
}

/// The characters that `String::from_utf8_lossy` makes of `bytes` (invalid
/// sequences replaced by U+FFFD).
pub uninterp spec fn utf8_lossy(bytes: Seq<u8>) -> Seq<char>;

/// The text that `String::from_utf8_lossy` makes of `bytes`: the decoded
/// characters when the bytes are valid UTF-8.
pub open spec fn lossy_text(bytes: Seq<u8>) -> Seq<char> {
    if valid_utf8(bytes) {
        decode_utf8(bytes)
    } else {
        utf8_lossy(bytes)
    }
}

/// `String::from_utf8_lossy(bytes).into_owned()`: the documentation promises the
/// text unchanged when the bytes are valid UTF-8; otherwise the result is named.
#[verifier::external_body]
pub(crate) fn string_from_utf8_lossy(bytes: &[u8]) -> (r: String)
    ensures
        valid_utf8(bytes@) ==> r@ == decode_utf8(bytes@),
        !valid_utf8(bytes@) ==> r@ == utf8_lossy(bytes@),
{
    String::from_utf8_lossy(bytes).into_owned()
}

/// `std::str::from_utf8(bytes)`: the text when the bytes are valid UTF-8, else nothing.
#[verifier::external_body]
pub(crate) fn utf8_to_string(bytes: &[u8]) -> (r: Option<String>)
    ensures
        r is Some <==> valid_utf8(bytes@),
        r matches Some(s) ==> s@ == decode_utf8(bytes@),
{
    match std::str::from_utf8(bytes) {
        Ok(s) => Some(s.to_string()),
        Err(_) => None,
    }
}

/// ASCII lower-casing of one character.
pub open spec fn ascii_lower_char(c: char) -> char {
    if 'A' <= c <= 'Z' {
        ((c as u32) + 32) as char
    } else {
        c
    }
}

/// ASCII lower-casing: 'A'..='Z' become 'a'..='z', every other character is kept.
pub open spec fn ascii_lower(s: Seq<char>) -> Seq<char> {
    s.map_values(|c: char| ascii_lower_char(c))
}

/// `str::to_ascii_lowercase`, which the documentation defines as `ascii_lower`.
#[verifier::external_body]
pub(crate) fn to_ascii_lowercase(s: &str) -> (r: String)
    ensures
        r@ == ascii_lower(s@),
{
    s.to_ascii_lowercase()
}

/// Lower-casing twice is lower-casing once.
pub proof fn lemma_ascii_lower_idempotent(s: Seq<char>)
    ensures
        ascii_lower(ascii_lower(s)) == ascii_lower(s),
{
    assert forall|i: int| 0 <= i < s.len() implies #[trigger] ascii_lower(ascii_lower(s))[i] == ascii_lower(s)[i] by {
        let c = s[i];
        if 'A' <= c <= 'Z' {
            assert((((c as u32) + 32) as char) as u32 == (c as u32) + 32);
        }
    }
    assert(ascii_lower(ascii_lower(s)) =~= ascii_lower(s));
}

/// The characters that `char::is_whitespace` accepts (the Unicode White_Space property).
pub open spec fn is_white_space(c: char) -> bool {
    let u = c as u32;
    (0x9 <= u <= 0xD) || u == 0x20 || u == 0x85 || u == 0xA0 || u == 0x1680 || (0x2000 <= u <= 0x200A)
        || u == 0x2028 || u == 0x2029 || u == 0x202F || u == 0x205F || u == 0x3000
}

/// `s` without its leading whitespace.
pub open spec fn trim_start(s: Seq<char>) -> Seq<char>
    decreases s.len(),
{
    if s.len() > 0 && is_white_space(s[0]) {
        trim_start(s.drop_first())
    } else {
        s
    }
}

/// `s` without its trailing whitespace.
pub open spec fn trim_end(s: Seq<char>) -> Seq<char>
    decreases s.len(),
{
    if s.len() > 0 && is_white_space(s.last()) {
        trim_end(s.drop_last())
    } else {
        s
    }
}

/// `s` without leading and trailing whitespace.
pub open spec fn trim(s: Seq<char>) -> Seq<char> {
    trim_end(trim_start(s))
}

/// `str::trim`: the documentation defines it as removing leading and trailing
/// characters that have the White_Space property.
#[verifier::external_body]
pub(crate) fn str_trim(s: &str) -> (r: &str)
    ensures
        r@ == trim(s@),
{
    s.trim()
}

/// Text with no whitespace at either end is left unchanged by trimming.
pub proof fn lemma_trim_noop(s: Seq<char>)
    requires
        s.len() > 0 ==> !is_white_space(s[0]) && !is_white_space(s.last()),
    ensures
        trim(s) == s,
{
}

/// The characters whose codes are the given ASCII bytes.
pub open spec fn ascii_chars(bytes: Seq<u8>) -> Seq<char> {
    bytes.map_values(|b: u8| b as char)
}

/// Turns ASCII bytes into the string of the same characters.
pub fn ascii_bytes_to_string(bytes: &[u8]) -> (r: String)
    requires
        forall|i: int| 0 <= i < bytes@.len() ==> bytes@[i] < 128,
    ensures
        r@ == ascii_chars(bytes@),
{
    proof {
        let chars = ascii_chars(bytes@);
        assert(is_ascii_chars(chars));
        vstd::utf8::is_ascii_chars_encode_utf8(chars);
        assert(encode_utf8(chars) =~= bytes@);
        vstd::utf8::encode_utf8_valid_utf8(chars);
        vstd::utf8::encode_utf8_decode_utf8(chars);
    }
    match utf8_to_string(bytes) {
        Some(s) => s,
        None => String::new(),
    }
}

/// Whether two texts hold the same characters.
pub fn str_equals(a: &str, b: &str) -> (r: bool)
    ensures
        r == (a@ == b@),
{
    let n = a.unicode_len();
    if n != b.unicode_len() {
        return false;
    }
    let mut i: usize = 0;
    while i < n
        invariant
            0 <= i <= n,
            n == a@.len(),
            n == b@.len(),
            forall|j: int| 0 <= j < i ==> a@[j] == b@[j],
        decreases n - i,
    {
        if a.get_char(i) != b.get_char(i) {
            return false;
        }
        i = i + 1;
    }
    assert(a@ =~= b@);
    true
}

/// Whether `s` starts with the characters of `p`.
pub fn str_starts_with(s: &str, p: &str) -> (r: bool)
    ensures
        r == (p@.len() <= s@.len() && s@.subrange(0, p@.len() as int) == p@),
{
    let n = p.unicode_len();
    if n > s.unicode_len() {
        return false;
    }
    let mut i: usize = 0;
    while i < n
        invariant
            0 <= i <= n,
            n == p@.len(),
            n <= s@.len(),
            forall|j: int| 0 <= j < i ==> s@[j] == p@[j],
        decreases n - i,
    {
        if s.get_char(i) != p.get_char(i) {
            assert(s@.subrange(0, n as int)[i as int] != p@[i as int]);
            return false;
        }
        i = i + 1;
    }
    assert(s@.subrange(0, n as int) =~= p@);
    true
}

/// The characters of `s` from position `k` on.
pub fn str_from(s: &str, k: usize) -> (r: String)
    requires
        k <= s@.len(),
    ensures
        r@ == s@.subrange(k as int, s@.len() as int),
{
    let n = s.unicode_len();
    s.substring_char(k, n).to_owned()
}

/// The character of a decimal digit.
pub open spec fn digit_char(d: nat) -> char {
    (48 + d) as char
}

/// The decimal text of a natural number, without sign or leading zeros.
pub open spec fn decimal_text(n: nat) -> Seq<char>
    decreases n,
{
    if n < 10 {
        seq![digit_char(n)]
    } else {
        decimal_text(n / 10).push(digit_char(n % 10))
    }
}

/// `u64::to_string` (its `Display`): the decimal digits of `n`.
#[verifier::external_body]
pub(crate) fn decimal_string(n: u64) -> (r: String)
    ensures
        r@ == decimal_text(n as nat),
{
    n.to_string()
}

/// The text `a` followed by the text `b`.
pub fn concat_text(a: &str, b: &str) -> (r: String)
    ensures
        r@ == a@ + b@,
{
    let mut s = a.to_string();
    s.append(b);
    s
}

/// The `Debug` rendering of a text: quoted, with special characters escaped.
pub uninterp spec fn debug_quoted(s: Seq<char>) -> Seq<char>;

/// `format!("{:?}", s)` for a `str`: the text in double quotes with its
/// special characters escaped; the result is named.
#[verifier::external_body]
pub(crate) fn str_debug(s: &str) -> (r: String)
    ensures
        r@ == debug_quoted(s@),
{
    format!("{:?}", s)
}

/// The decimal numbers of a list of bytes, separated by `, `.
pub open spec fn byte_items_text(s: Seq<u8>) -> Seq<char>
    decreases s.len(),
{
    if s.len() == 0 {
        Seq::empty()
    } else if s.len() == 1 {
        decimal_text(s[0] as nat)
    } else {
        byte_items_text(s.drop_last()) + ", "@ + decimal_text(s.last() as nat)
    }
}

/// The `Debug` rendering of a list of bytes: `[` the numbers `]`.
pub open spec fn byte_list_text(s: Seq<u8>) -> Seq<char> {
    "["@ + byte_items_text(s) + "]"@
}

/// Renders a list of bytes as `Debug` does: `[1, 2, 3]`.
pub fn byte_list_string(s: &[u8]) -> (r: String)
    ensures
        r@ == byte_list_text(s@),
{
    let mut items = String::new();
    let mut i: usize = 0;
    while i < s.len()
        invariant
            0 <= i <= s@.len(),
            items@ == byte_items_text(s@.subrange(0, i as int)),
        decreases s@.len() - i,
    {
        let digits = decimal_string(s[i] as u64);
        if i == 0 {
            items = digits;
        } else {
            let with_sep = concat_text(items.as_str(), ", ");
            items = concat_text(with_sep.as_str(), digits.as_str());
        }
        proof {
            let t = s@.subrange(0, i + 1);
            assert(t.drop_last() =~= s@.subrange(0, i as int));
            if i == 0 {
                assert(items@ =~= byte_items_text(t));
            }
        }
        i = i + 1;
    }
    assert(s@.subrange(0, s@.len() as int) =~= s@);
    let open = concat_text("[", items.as_str());
    concat_text(open.as_str(), "]")
}

/// The first position at or after `i` where `n` occurs in `h`.
pub open spec fn find_from(h: Seq<char>, n: Seq<char>, i: int) -> Option<int>
    decreases h.len() + 1 - i,
{
    if i < 0 || i + n.len() > h.len() {
        None
    } else if h.subrange(i, i + n.len()) == n {
        Some(i)
    } else {
        find_from(h, n, i + 1)
    }
}

/// A position found at or after `i` is one where `n` occurs.
pub proof fn lemma_find_from(h: Seq<char>, n: Seq<char>, i: int)
    ensures
        find_from(h, n, i) matches Some(p) ==> i <= p && p + n.len() <= h.len() && h.subrange(p, p + n.len()) == n,
    decreases h.len() + 1 - i,
{
    if !(i < 0 || i + n.len() > h.len()) && h.subrange(i, i + n.len()) != n {
        lemma_find_from(h, n, i + 1);
    }
}

/// `n` occurs at `p` and at no position from `i` up to `p`: the search
/// from `i` finds it at `p`.
pub proof fn lemma_find_first(h: Seq<char>, n: Seq<char>, i: int, p: int)
    requires
        0 <= i <= p,
        p + n.len() <= h.len(),
        h.subrange(p, p + n.len()) == n,
        forall|j: int| i <= j < p ==> #[trigger] h.subrange(j, j + n.len()) != n,
    ensures
        find_from(h, n, i) == Some(p),
    decreases p - i,
{
    if i < p {
        lemma_find_first(h, n, i + 1, p);
    }
}

/// The character position of the first occurrence of `n` in `h`.
pub fn find_text(h: &str, n: &str) -> (r: Option<usize>)
    ensures
        match r {
            Some(p) => find_from(h@, n@, 0) == Some(p as int),
            None => find_from(h@, n@, 0) is None,
        },
{
    let hl = h.unicode_len();
    let nl = n.unicode_len();
    let mut i: usize = 0;
    while nl <= hl && i <= hl - nl
        invariant
            hl == h@.len(),
            nl == n@.len(),
            find_from(h@, n@, 0) == find_from(h@, n@, i as int),
        decreases hl + 1 - i,
    {
        let mut j: usize = 0;
        let mut same = true;
        while j < nl
            invariant
                hl == h@.len(),
                nl == n@.len(),
                i + nl <= hl,
                j <= nl,
                same == (forall|k: int| 0 <= k < j ==> h@[i + k] == n@[k]),
            decreases nl - j,
        {
            if h.get_char(i + j) != n.get_char(j) {
                same = false;
            }
            j = j + 1;
        }
        if same {
            assert(h@.subrange(i as int, i + nl) =~= n@);
            return Some(i);
        } else {
            assert(h@.subrange(i as int, i + nl) != n@) by {
                let k = choose|k: int| 0 <= k < nl && h@[i + k] != n@[k];
                assert(h@.subrange(i as int, i + nl)[k] == h@[i + k]);
            }
        }
        i = i + 1;
    }
    None
}

/// Trimming the start keeps a suffix whose first character is not whitespace.
proof fn lemma_trim_start_shape(s: Seq<char>)
    ensures
        trim_start(s).len() <= s.len(),
        trim_start(s) == s.subrange(s.len() - trim_start(s).len(), s.len() as int),
        trim_start(s).len() > 0 ==> !is_white_space(trim_start(s)[0]),
    decreases s.len(),
{
    if s.len() > 0 && is_white_space(s[0]) {
        lemma_trim_start_shape(s.drop_first());
        assert(s.drop_first() =~= s.subrange(1, s.len() as int));
    } else {
        assert(s.subrange(0, s.len() as int) =~= s);
    }
}

/// Trimming the end keeps a prefix whose last character is not whitespace.
proof fn lemma_trim_end_shape(s: Seq<char>)
    ensures
        trim_end(s).len() <= s.len(),
        trim_end(s) == s.subrange(0, trim_end(s).len() as int),
        trim_end(s).len() > 0 ==> !is_white_space(trim_end(s).last()),
    decreases s.len(),
{
    if s.len() > 0 && is_white_space(s.last()) {
        lemma_trim_end_shape(s.drop_last());
        assert(s.drop_last() =~= s.subrange(0, s.len() - 1));
    } else {
        assert(s.subrange(0, s.len() as int) =~= s);
    }
}

/// Trimming twice is trimming once.
pub proof fn lemma_trim_idempotent(s: Seq<char>)
    ensures
        trim(trim(s)) == trim(s),
{
    let t = trim_start(s);
    lemma_trim_start_shape(s);
    let u = trim_end(t);
    lemma_trim_end_shape(t);
    if u.len() > 0 {
        assert(u[0] == t[0]);
    }
    lemma_trim_noop(u);
}

/// `str::trim_start`: the documentation defines it as removing leading
/// characters that have the White_Space property.
#[verifier::external_body]
pub(crate) fn str_trim_start(s: &str) -> (r: &str)
    ensures
        r@ == trim_start(s@),
{
    s.trim_start()
}

/// A text in double quotes.
pub open spec fn quoted(s: Seq<char>) -> Seq<char> {
    "\""@ + s + "\""@
}

/// The text in double quotes.
pub fn quote_text(s: &str) -> (r: String)
    ensures
        r@ == quoted(s@),
{
    let a = concat_text("\"", s);
    concat_text(a.as_str(), "\"")
}

/// The text of a boolean, as `Debug` renders it.
pub open spec fn bool_text(b: bool) -> Seq<char> {
    if b { "true"@ } else { "false"@ }
}

/// The text of a boolean, as `Debug` renders it.
pub fn bool_string(b: bool) -> (r: String)
    ensures
        r@ == bool_text(b),
{
    if b { "true".to_string() } else { "false".to_string() }
}

} // verus!
