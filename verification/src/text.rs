//! Character-level text operations on which answer matching is built.
use vstd::prelude::*;
use vstd::utf8::{
    char_is_scalar, encode_scalar, encode_utf8, encode_utf8_first_scalar, encode_utf8_valid_utf8,
    is_ascii_chars, is_char_boundary, pop_first_scalar, valid_utf8,
};

verus! {

// ---------------------------------------------------------------------------
// Building strings
// ---------------------------------------------------------------------------

/// Appends one character. The call is `String::push`, which grows the string
/// by exactly that character.
#[verifier::external_body]
pub(crate) fn push_char(s: &mut String, c: char)
    ensures
        final(s)@ == old(s)@.push(c),
{
    s.push(c);
}

/// The characters of `s`, in order.
pub fn chars_of(s: &str) -> (out: Vec<char>)
    ensures
        out@ == s@,
{
    let mut out: Vec<char> = Vec::new();
    for c in it: s.chars()
        invariant
            it.seq() == s@,
            out@ == it.seq().take(it.index()),
    {
        out.push(c);
    }
    out
}

/// The string made of `v[lo..hi]`.
pub fn string_of_range(v: &Vec<char>, lo: usize, hi: usize) -> (s: String)
    requires
        lo <= hi <= v.len(),
    ensures
        s@ == v@.subrange(lo as int, hi as int),
{
    let mut s = String::new();
    let mut i = lo;
    while i < hi
        invariant
            lo <= i <= hi <= v.len(),
            s@ == v@.subrange(lo as int, i as int),
        decreases hi - i,
    {
        push_char(&mut s, v[i]);
        assert(v@.subrange(lo as int, i + 1) == v@.subrange(lo as int, i as int).push(v@[i as int]));
        i = i + 1;
    }
    s
}

// ---------------------------------------------------------------------------
// Lowercase
// ---------------------------------------------------------------------------

/// The Unicode lowercase mapping of a character sequence, as
/// `str::to_lowercase` computes it.
pub uninterp spec fn lowercase(s: Seq<char>) -> Seq<char>;

/// The ASCII lowercase of `c`: 'A' to 'Z' become 'a' to 'z', every other
/// character stays.
pub open spec fn ascii_lower(c: char) -> char {
    let u = c as u32;
    if 0x41 <= u <= 0x5a {
        (u + 0x20) as char
    } else {
        c
    }
}

/// Lowercases `s`. The call is `str::to_lowercase`; its result depends on the
/// characters of `s` alone, and is named `lowercase`. Of the Unicode case
/// tables only the ASCII part is stated: a text of ASCII characters is
/// lowercased character by character, 'A' to 'Z' becoming 'a' to 'z'.
#[verifier::external_body]
pub fn to_lowercase(s: &str) -> (res: String)
    ensures
        res@ == lowercase(s@),
        is_ascii_chars(s@) ==> res@ == s@.map_values(|c: char| ascii_lower(c)),
{
    s.to_lowercase()
}

// ---------------------------------------------------------------------------
// Substring search
// ---------------------------------------------------------------------------

/// `pat` occurs in `text` starting at position `i`.
pub open spec fn occurs_at(text: Seq<char>, pat: Seq<char>, i: int) -> bool {
    0 <= i && i + pat.len() <= text.len() && text.subrange(i, i + pat.len()) == pat
}

/// `pat` occurs somewhere in `text` (the empty pattern occurs everywhere).
pub open spec fn has_substring(text: Seq<char>, pat: Seq<char>) -> bool {
    exists|i: int| occurs_at(text, pat, i)
}

fn matches_at(text: &Vec<char>, pat: &Vec<char>, i: usize) -> (b: bool)
    requires
        i + pat.len() <= text.len(),
    ensures
        b == occurs_at(text@, pat@, i as int),
{
    let mut j: usize = 0;
    while j < pat.len()
        invariant
            i + pat.len() <= text.len(),
            j <= pat.len(),
            forall|k: int| 0 <= k < j ==> text@[i + k] == pat@[k],
        decreases pat.len() - j,
    {
        if text[i + j] != pat[j] {
            assert(text@.subrange(i as int, i + pat.len())[j as int] != pat@[j as int]);
            return false;
        }
        j = j + 1;
    }
    assert(text@.subrange(i as int, i + pat.len()) =~= pat@);
    true
}

/// Whether `pat` occurs in `text`, both given as characters.
pub fn contains_chars(text: &Vec<char>, pat: &Vec<char>) -> (b: bool)
    ensures
        b == has_substring(text@, pat@),
{
    if pat.len() > text.len() {
        return false;
    }
    let last = text.len() - pat.len();
    let mut i: usize = 0;
    loop
        invariant
            last == text.len() - pat.len(),
            i <= last,
            forall|k: int| 0 <= k < i ==> !occurs_at(text@, pat@, k),
        decreases last - i,
    {
        if matches_at(text, pat, i) {
            return true;
        }
        if i == last {
            assert forall|k: int| occurs_at(text@, pat@, k) implies false by {
                assert(k <= last);
            }
            return false;
        }
        i = i + 1;
    }
}

/// Whether `pat` occurs in `text`, as `str::contains` with a string pattern.
pub fn contains(text: &str, pat: &str) -> (b: bool)
    ensures
        b == has_substring(text@, pat@),
{
    let t = chars_of(text);
    let p = chars_of(pat);
    contains_chars(&t, &p)
}

/// Whether the character `c` occurs in `text`, as `str::contains` with a
/// character pattern.
pub fn contains_char(text: &str, c: char) -> (b: bool)
    ensures
        b == text@.contains(c),
{
    let v = chars_of(text);
    let mut i: usize = 0;
    while i < v.len()
        invariant
            v@ == text@,
            i <= v.len(),
            forall|k: int| 0 <= k < i ==> v@[k] != c,
        decreases v.len() - i,
    {
        if v[i] == c {
            return true;
        }
        i = i + 1;
    }
    false
}


// ---------------------------------------------------------------------------
// Whitespace, trimming and words
// ---------------------------------------------------------------------------

/// The Unicode `White_Space` property, which `char::is_whitespace` tests.
pub open spec fn is_space(c: char) -> bool {
    let u = c as u32;
    ||| 0x9 <= u <= 0xd
    ||| u == 0x20
    ||| u == 0x85
    ||| u == 0xa0
    ||| u == 0x1680
    ||| 0x2000 <= u <= 0x200a
    ||| u == 0x2028
    ||| u == 0x2029
    ||| u == 0x202f
    ||| u == 0x205f
    ||| u == 0x3000
}

/// Whether `c` is white space.
pub fn is_space_char(c: char) -> (b: bool)
    ensures
        b == is_space(c),
{
    let u = c as u32;
    (0x9 <= u && u <= 0xd) || u == 0x20 || u == 0x85 || u == 0xa0 || u == 0x1680 || (0x2000 <= u
        && u <= 0x200a) || u == 0x2028 || u == 0x2029 || u == 0x202f || u == 0x205f || u == 0x3000
}

/// `s` without its leading white space.
pub open spec fn trim_start(s: Seq<char>) -> Seq<char>
    decreases s.len(),
{
    if s.len() > 0 && is_space(s[0]) {
        trim_start(s.drop_first())
    } else {
        s
    }
}

/// `s` without its trailing white space.
pub open spec fn trim_end(s: Seq<char>) -> Seq<char>
    decreases s.len(),
{
    if s.len() > 0 && is_space(s.last()) {
        trim_end(s.drop_last())
    } else {
        s
    }
}

/// `s` without leading and trailing white space, as `str::trim` gives it.
pub open spec fn trimmed(s: Seq<char>) -> Seq<char> {
    trim_end(trim_start(s))
}

/// `s` with leading and trailing white space removed.
pub fn trim(s: &str) -> (t: String)
    ensures
        t@ == trimmed(s@),
{
    let v = chars_of(s);
    let n = v.len();
    let mut i: usize = 0;
    assert(v@.subrange(0, n as int) == v@);
    while i < n && is_space_char(v[i])
        invariant
            v@ == s@,
            n == v.len(),
            i <= n,
            trim_start(v@) == trim_start(v@.subrange(i as int, n as int)),
        decreases n - i,
    {
        assert(v@.subrange(i as int, n as int).drop_first() == v@.subrange(i + 1, n as int));
        i = i + 1;
    }
    assert(trim_start(v@) == v@.subrange(i as int, n as int)) by {
        let t = v@.subrange(i as int, n as int);
        if i < n {
            assert(t[0] == v@[i as int]);
        }
    }
    let mut j: usize = n;
    while j > i && is_space_char(v[j - 1])
        invariant
            v@ == s@,
            n == v.len(),
            i <= j <= n,
            trim_end(v@.subrange(i as int, n as int)) == trim_end(v@.subrange(i as int, j as int)),
        decreases j - i,
    {
        assert(v@.subrange(i as int, j as int).drop_last() == v@.subrange(i as int, j - 1));
        j = j - 1;
    }
    string_of_range(&v, i, j)
}

/// The number of leading characters of `s` that are not white space.
pub open spec fn word_len(s: Seq<char>) -> nat
    decreases s.len(),
{
    if s.len() > 0 && !is_space(s[0]) {
        1 + word_len(s.drop_first())
    } else {
        0
    }
}

/// A word is no longer than the text it starts.
pub proof fn lemma_word_len_bound(s: Seq<char>)
    ensures
        word_len(s) <= s.len(),
    decreases s.len(),
{
    if s.len() > 0 && !is_space(s[0]) {
        lemma_word_len_bound(s.drop_first());
    }
}

/// The words of `s`: its maximal runs of characters that are not white
/// space, in order, as `str::split_whitespace` yields them.
pub open spec fn words(s: Seq<char>) -> Seq<Seq<char>>
    decreases s.len(),
{
    if s.len() == 0 {
        seq![]
    } else if is_space(s[0]) {
        words(s.drop_first())
    } else {
        proof {
            lemma_word_len_bound(s);
        }
        seq![s.take(word_len(s) as int)] + words(s.skip(word_len(s) as int))
    }
}

/// If `s[0..j]` holds no white space and `s[j]` is white space or past the
/// end, the first word is exactly `s[0..j]`.
proof fn lemma_word_len_run(s: Seq<char>, j: int)
    requires
        0 <= j <= s.len(),
        forall|k: int| 0 <= k < j ==> !is_space(#[trigger] s[k]),
        j == s.len() || is_space(s[j]),
    ensures
        word_len(s) == j,
    decreases j,
{
    if j > 0 {
        let t = s.drop_first();
        assert forall|k: int| 0 <= k < j - 1 implies !is_space(#[trigger] t[k]) by {
            assert(t[k] == s[k + 1]);
        }
        if j < s.len() {
            assert(t[j - 1] == s[j]);
        }
        lemma_word_len_run(t, j - 1);
    }
}

/// The words of `s`, in order.
pub fn split_words(s: &str) -> (out: Vec<String>)
    ensures
        out@.len() == words(s@).len(),
        forall|k: int| 0 <= k < out@.len() ==> #[trigger] out@[k]@ == words(s@)[k],
{
    let v = chars_of(s);
    let n = v.len();
    let mut out: Vec<String> = Vec::new();
    let ghost mut done: Seq<Seq<char>> = seq![];
    let mut i: usize = 0;
    assert(v@.skip(0) == v@);
    assert(done + words(v@) == words(v@));
    while i < n
        invariant
            v@ == s@,
            n == v.len(),
            i <= n,
            out@.len() == done.len(),
            forall|k: int| 0 <= k < out@.len() ==> #[trigger] out@[k]@ == done[k],
            words(v@) == done + words(v@.skip(i as int)),
        decreases n - i,
    {
        if is_space_char(v[i]) {
            assert(v@.skip(i as int).drop_first() == v@.skip(i + 1));
            i = i + 1;
        } else {
            let mut j = i;
            while j < n && !is_space_char(v[j])
                invariant
                    n == v.len(),
                    i <= j <= n,
                    forall|k: int| i <= k < j ==> !is_space(#[trigger] v@[k]),
                decreases n - j,
            {
                j = j + 1;
            }
            let w = string_of_range(&v, i, j);
            proof {
                let t = v@.skip(i as int);
                assert forall|k: int| 0 <= k < j - i implies !is_space(#[trigger] t[k]) by {
                    assert(t[k] == v@[i + k]);
                }
                if j < n {
                    assert(t[j - i] == v@[j as int]);
                }
                lemma_word_len_run(t, j - i);
                assert(t.take(j - i) == v@.subrange(i as int, j as int));
                assert(t.skip(j - i) == v@.skip(j as int));
                assert(words(t) == seq![t.take(j - i)] + words(t.skip(j - i)));
                done = done.push(v@.subrange(i as int, j as int));
            }
            out.push(w);
            i = j;
        }
    }
    proof {
        assert(v@.skip(n as int) == Seq::<char>::empty());
        assert(words(Seq::<char>::empty()) == Seq::<Seq<char>>::empty());
        assert(done + Seq::<Seq<char>>::empty() == done);
    }
    out
}

// ---------------------------------------------------------------------------
// Concatenation, joining, dashes
// ---------------------------------------------------------------------------

/// Appends all of `t` to `s`.
pub fn push_str(s: &mut String, t: &str)
    ensures
        final(s)@ == old(s)@ + t@,
{
    let v = chars_of(t);
    let ghost start = s@;
    let mut i: usize = 0;
    while i < v.len()
        invariant
            v@ == t@,
            i <= v.len(),
            s@ == start + v@.take(i as int),
        decreases v.len() - i,
    {
        push_char(s, v[i]);
        assert(v@.take(i + 1) == v@.take(i as int).push(v@[i as int]));
        i = i + 1;
    }
    assert(v@.take(v.len() as int) == v@);
}

/// A new string holding the characters of `s`.
pub fn owned(s: &str) -> (res: String)
    ensures
        res@ == s@,
{
    let mut res = String::new();
    push_str(&mut res, s);
    assert(Seq::<char>::empty() + s@ == s@);
    res
}

/// `a` followed by `b`, as a new string.
pub fn concatenated(a: &str, b: &str) -> (res: String)
    ensures
        res@ == a@ + b@,
{
    let mut s = String::new();
    push_str(&mut s, a);
    push_str(&mut s, b);
    assert(Seq::<char>::empty() + a@ == a@);
    s
}

/// The pieces of `parts` with `sep` between each two neighbours.
pub open spec fn joined(parts: Seq<Seq<char>>, sep: Seq<char>) -> Seq<char>
    decreases parts.len(),
{
    if parts.len() == 0 {
        seq![]
    } else if parts.len() == 1 {
        parts[0]
    } else {
        joined(parts.drop_last(), sep) + sep + parts.last()
    }
}

/// The views of a list of strings.
pub open spec fn views(v: Seq<String>) -> Seq<Seq<char>> {
    v.map_values(|x: String| x@)
}

/// Joins `parts` with `sep`, as `[String]::join` does.
pub fn join(parts: &Vec<String>, sep: &str) -> (res: String)
    ensures
        res@ == joined(views(parts@), sep@),
{
    let mut res = String::new();
    let mut i: usize = 0;
    while i < parts.len()
        invariant
            i <= parts.len(),
            res@ == joined(views(parts@).take(i as int), sep@),
        decreases parts.len() - i,
    {
        let ghost before = views(parts@).take(i as int);
        if i > 0 {
            push_str(&mut res, sep);
        }
        push_str(&mut res, parts[i].as_str());
        proof {
            let now = views(parts@).take(i + 1);
            assert(now.drop_last() == before);
            assert(now.last() == parts@[i as int]@);
            if i == 0 {
                assert(now.len() == 1);
                assert(Seq::<char>::empty() + parts@[i as int]@ == parts@[i as int]@);
            }
        }
        i = i + 1;
    }
    assert(views(parts@).take(parts.len() as int) == views(parts@));
    res
}

/// `s` with every ' ' made '-', as `str::replace(' ', "-")` gives it.
pub open spec fn dashed(s: Seq<char>) -> Seq<char> {
    s.map_values(|c: char| if c == ' ' { '-' } else { c })
}

/// The form in which titles and topics enter identifiers: lowercased, with
/// spaces made dashes.
pub open spec fn slug(s: Seq<char>) -> Seq<char> {
    dashed(lowercase(s))
}

/// Replaces every ' ' in `s` by '-'.
pub fn dash_spaces(s: &str) -> (t: String)
    ensures
        t@ == dashed(s@),
{
    let v = chars_of(s);
    let mut t = String::new();
    let mut i: usize = 0;
    while i < v.len()
        invariant
            v@ == s@,
            i <= v.len(),
            t@ == dashed(v@.take(i as int)),
        decreases v.len() - i,
    {
        let c = v[i];
        if c == ' ' {
            push_char(&mut t, '-');
        } else {
            push_char(&mut t, c);
        }
        assert(dashed(v@.take(i + 1)) == dashed(v@.take(i as int)).push(
            if c == ' ' { '-' } else { c },
        ));
        i = i + 1;
    }
    assert(v@.take(v.len() as int) == v@);
    t
}

/// `prefix` followed by the slug of `s`.
pub fn slug_id(prefix: &str, s: &str) -> (id: String)
    ensures
        id@ == prefix@ + slug(s@),
{
    let lower = to_lowercase(s);
    let d = dash_spaces(lower.as_str());
    concatenated(prefix, d.as_str())
}

// ---------------------------------------------------------------------------
// UTF-8 lengths and byte prefixes
// ---------------------------------------------------------------------------

/// The number of bytes UTF-8 takes for `c`, as `char::len_utf8` gives it.
pub open spec fn utf8_width(c: char) -> nat {
    let u = c as u32;
    if u < 0x80 {
        1
    } else if u < 0x800 {
        2
    } else if u < 0x10000 {
        3
    } else {
        4
    }
}

/// The number of bytes UTF-8 takes for `s`.
pub open spec fn utf8_len(s: Seq<char>) -> nat
    decreases s.len(),
{
    if s.len() == 0 {
        0
    } else {
        utf8_width(s[0]) + utf8_len(s.drop_first())
    }
}

/// The longest prefix of `s` whose UTF-8 form takes at most `n` bytes.
pub open spec fn byte_prefix(s: Seq<char>, n: int) -> Seq<char>
    decreases s.len(),
{
    if s.len() == 0 || utf8_width(s[0]) > n {
        seq![]
    } else {
        seq![s[0]] + byte_prefix(s.drop_first(), n - utf8_width(s[0]))
    }
}

/// Where a text whose UTF-8 form is `bytes` is cut when it is sliced to its
/// first `n` bytes, or to all of them when it is shorter.
pub open spec fn cut_point(bytes: Seq<u8>, n: int) -> int {
    if bytes.len() <= n {
        bytes.len() as int
    } else {
        n
    }
}

/// Slicing `s` to its first `min(byte length, n)` bytes cuts between two
/// characters, so that the slice is `byte_prefix(s, n)`.
pub open spec fn cuts_cleanly(s: Seq<char>, n: nat) -> bool {
    utf8_len(byte_prefix(s, n as int)) == if utf8_len(s) <= n {
        utf8_len(s)
    } else {
        n
    }
}

fn char_width(c: char) -> (w: usize)
    ensures
        w == utf8_width(c),
{
    let u = c as u32;
    if u < 0x80 {
        1
    } else if u < 0x800 {
        2
    } else if u < 0x10000 {
        3
    } else {
        4
    }
}

/// The longest prefix of `s` that fits in `n` bytes of UTF-8.
pub fn prefix_within_bytes(s: &str, n: usize) -> (p: String)
    ensures
        p@ == byte_prefix(s@, n as int),
{
    let v = chars_of(s);
    let mut i: usize = 0;
    let mut used: usize = 0;
    assert(v@.skip(0) == v@);
    assert(v@.take(0) + byte_prefix(v@, n as int) == byte_prefix(v@, n as int));
    while i < v.len() && char_width(v[i]) <= n - used
        invariant
            v@ == s@,
            i <= v.len(),
            used <= n,
            byte_prefix(v@, n as int) == v@.take(i as int) + byte_prefix(
                v@.skip(i as int),
                n - used,
            ),
        decreases v.len() - i,
    {
        proof {
            let t = v@.skip(i as int);
            assert(t[0] == v@[i as int]);
            assert(t.drop_first() == v@.skip(i + 1));
            assert(v@.take(i + 1) == v@.take(i as int) + seq![v@[i as int]]);
        }
        used = used + char_width(v[i]);
        i = i + 1;
    }
    proof {
        let t = v@.skip(i as int);
        if i < v.len() {
            assert(t[0] == v@[i as int]);
        }
        assert(byte_prefix(t, n - used) == Seq::<char>::empty());
        assert(v@.take(i as int) + Seq::<char>::empty() == v@.take(i as int));
    }
    string_of_range(&v, 0, i)
}

// ---------------------------------------------------------------------------
// Equality
// ---------------------------------------------------------------------------

/// Whether `a` and `b` hold the same characters.
pub fn text_eq(a: &str, b: &str) -> (r: bool)
    ensures
        r == (a@ == b@),
{
    let x = chars_of(a);
    let y = chars_of(b);
    if x.len() != y.len() {
        return false;
    }
    let mut i: usize = 0;
    while i < x.len()
        invariant
            x@ == a@,
            y@ == b@,
            x.len() == y.len(),
            i <= x.len(),
            forall|k: int| 0 <= k < i ==> x@[k] == y@[k],
        decreases x.len() - i,
    {
        if x[i] != y[i] {
            return false;
        }
        i = i + 1;
    }
    assert(x@ =~= y@);
    true
}

/// A copy of a list of strings.
pub fn copy_strings(v: &Vec<String>) -> (out: Vec<String>)
    ensures
        out@ == v@,
{
    let mut out: Vec<String> = Vec::new();
    let mut i: usize = 0;
    while i < v.len()
        invariant
            i <= v.len(),
            out@ == v@.take(i as int),
        decreases v.len() - i,
    {
        out.push(v[i].clone());
        assert(v@.take(i + 1) == v@.take(i as int).push(v@[i as int]));
        i = i + 1;
    }
    assert(v@.take(v.len() as int) == v@);
    out
}

/// When the first `n` characters of `s` (or all, if fewer) are ASCII, the
/// `n`-byte prefix is that many characters, so the cut is clean.
pub proof fn lemma_ascii_head_cuts_cleanly(s: Seq<char>, n: nat)
    requires
        forall|i: int| 0 <= i < s.len() && i < n ==> (#[trigger] s[i] as u32) < 0x80,
    ensures
        cuts_cleanly(s, n),
        is_char_boundary(encode_utf8(s), cut_point(encode_utf8(s), n as int)),
    decreases s.len(),
{
    lemma_ascii_head_cuts_cleanly_chars(s, n);
    lemma_cuts_cleanly_char_boundary(s, n);
}

proof fn lemma_ascii_head_cuts_cleanly_chars(s: Seq<char>, n: nat)
    requires
        forall|i: int| 0 <= i < s.len() && i < n ==> (#[trigger] s[i] as u32) < 0x80,
    ensures
        cuts_cleanly(s, n),
    decreases s.len(),
{
    if s.len() > 0 && n > 0 {
        let rest = s.drop_first();
        assert forall|i: int| 0 <= i < rest.len() && i < n - 1 implies (#[trigger] rest[i] as u32)
            < 0x80 by {
            assert(rest[i] == s[i + 1]);
        }
        lemma_ascii_head_cuts_cleanly_chars(rest, (n - 1) as nat);
        assert((s[0] as u32) < 0x80);
        let bp = byte_prefix(rest, n - 1);
        assert((seq![s[0]] + bp)[0] == s[0]);
        assert((seq![s[0]] + bp).drop_first() == bp);
    }
}

/// `utf8_width` is the length of the UTF-8 encoding of a character.
pub proof fn lemma_utf8_width(c: char)
    ensures
        encode_scalar(c as u32).len() == utf8_width(c),
{
    char_is_scalar(c);
}

/// `utf8_len` is the length of the UTF-8 encoding of a text.
pub proof fn lemma_utf8_len(s: Seq<char>)
    ensures
        encode_utf8(s).len() == utf8_len(s),
    decreases s.len(),
{
    if s.len() > 0 {
        lemma_utf8_width(s[0]);
        lemma_utf8_len(s.drop_first());
    }
}

/// The UTF-8 encoding of `byte_prefix(s, n)` is the start of the encoding of
/// `s`.
pub proof fn lemma_byte_prefix_encoding(s: Seq<char>, n: int)
    ensures
        encode_utf8(byte_prefix(s, n)) == encode_utf8(s).take(utf8_len(byte_prefix(s, n)) as int),
        utf8_len(byte_prefix(s, n)) <= utf8_len(s),
    decreases s.len(),
{
    lemma_utf8_len(s);
    let p = byte_prefix(s, n);
    if s.len() == 0 || utf8_width(s[0]) > n {
        assert(encode_utf8(p) =~= encode_utf8(s).take(0));
    } else {
        let rest = s.drop_first();
        let w = utf8_width(s[0]);
        let q = byte_prefix(rest, n - w);
        lemma_byte_prefix_encoding(rest, n - w);
        lemma_utf8_width(s[0]);
        lemma_utf8_len(rest);
        assert(p[0] == s[0]);
        assert(p.drop_first() =~= q);
        let e = encode_scalar(s[0] as u32);
        assert(encode_utf8(s) == e + encode_utf8(rest));
        assert(encode_utf8(p) == e + encode_utf8(q));
        assert(utf8_len(p) == w + utf8_len(q));
        assert(encode_utf8(p) =~= encode_utf8(s).take(utf8_len(p) as int));
    }
}

/// Cutting the UTF-8 encoding of `s` after `n` bytes falls between two
/// characters exactly when the characters that fit in `n` bytes take all
/// `n` of them.
pub proof fn lemma_char_boundary_byte_prefix(s: Seq<char>, n: int)
    requires
        0 <= n <= utf8_len(s),
    ensures
        is_char_boundary(encode_utf8(s), n) <==> utf8_len(byte_prefix(s, n)) == n,
    decreases s.len(),
{
    broadcast use encode_utf8_valid_utf8;

    lemma_utf8_len(s);
    if n > 0 {
        let bytes = encode_utf8(s);
        let rest = s.drop_first();
        encode_utf8_first_scalar(s);
        lemma_utf8_width(s[0]);
        lemma_utf8_len(rest);
        let w = utf8_width(s[0]);
        assert(pop_first_scalar(bytes) =~= encode_utf8(rest));
        assert(valid_utf8(bytes));
        assert(valid_utf8(encode_utf8(rest)));
        assert(is_char_boundary(bytes, n) == is_char_boundary(encode_utf8(rest), n - w));
        if n >= w {
            lemma_char_boundary_byte_prefix(rest, n - w);
            let p = byte_prefix(s, n);
            assert(p[0] == s[0]);
            assert(p.drop_first() =~= byte_prefix(rest, n - w));
        } else {
            assert(!is_char_boundary(encode_utf8(rest), n - w));
            assert(byte_prefix(s, n) =~= Seq::<char>::empty());
        }
    } else {
        if s.len() > 0 {
            assert(byte_prefix(s, n) =~= Seq::<char>::empty());
        }
    }
}

/// `cuts_cleanly(s, 8)` is the byte-level test that the first
/// `min(byte length, 8)` bytes of the encoding of `s` end between
/// characters.
pub proof fn lemma_cuts_cleanly_char_boundary(s: Seq<char>, n: nat)
    ensures
        cuts_cleanly(s, n) <==> is_char_boundary(encode_utf8(s), cut_point(encode_utf8(s), n as int)),
{
    lemma_utf8_len(s);
    let m = if utf8_len(s) <= n {
        utf8_len(s) as int
    } else {
        n as int
    };
    lemma_char_boundary_byte_prefix(s, m);
    if utf8_len(s) <= n {
        lemma_byte_prefix_all(s, n as int);
        lemma_byte_prefix_all(s, m);
    }
}

/// When all of `s` fits in `n` bytes, the prefix is `s` itself.
proof fn lemma_byte_prefix_all(s: Seq<char>, n: int)
    requires
        utf8_len(s) <= n,
    ensures
        byte_prefix(s, n) == s,
    decreases s.len(),
{
    if s.len() > 0 {
        let rest = s.drop_first();
        lemma_byte_prefix_all(rest, n - utf8_width(s[0]));
        assert(seq![s[0]] + rest =~= s);
    }
}

/// A pattern found in `t` is still found once text is put before and
/// after `t`.
pub proof fn lemma_substring_in_context(a: Seq<char>, t: Seq<char>, b: Seq<char>, pat: Seq<char>)
    requires
        has_substring(t, pat),
    ensures
        has_substring(a + t + b, pat),
{
    let p = choose|p: int| occurs_at(t, pat, p);
    let whole = a + t + b;
    assert(whole.subrange(a.len() + p, a.len() + p + pat.len()) =~= t.subrange(p, p + pat.len()));
    assert(occurs_at(whole, pat, a.len() + p));
}

/// Each part of a joined text occurs in it.
pub proof fn lemma_joined_holds_parts(parts: Seq<Seq<char>>, sep: Seq<char>, i: int)
    requires
        0 <= i < parts.len(),
    ensures
        has_substring(joined(parts, sep), parts[i]),
    decreases parts.len(),
{
    let j = joined(parts, sep);
    if parts.len() == 1 {
        assert(j.subrange(0, parts[0].len() as int) =~= parts[0]);
        assert(occurs_at(j, parts[i], 0));
    } else {
        let d = parts.drop_last();
        if i == parts.len() - 1 {
            let start: int = (joined(d, sep).len() + sep.len()) as int;
            assert(j.subrange(start, start + parts[i].len()) =~= parts.last());
            assert(occurs_at(j, parts[i], start));
        } else {
            lemma_joined_holds_parts(d, sep, i);
            assert(d[i] == parts[i]);
            lemma_substring_in_context(seq![], joined(d, sep), sep + parts.last(), parts[i]);
            assert(seq![] + joined(d, sep) + (sep + parts.last()) =~= j);
        }
    }
}

} // verus!
