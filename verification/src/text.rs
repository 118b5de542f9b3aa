//! Character classes, trimming, splitting into words and decimal numbers,
//! stated over the characters of a string.
use vstd::prelude::*;
use vstd::string::StringExecFns;
use vstd::std_specs::iter::IteratorSpec;

verus! {

// ---------------------------------------------------------------------------
// Character classes
// ---------------------------------------------------------------------------

/// The Unicode `White_Space` property, which `char::is_whitespace` and
/// `str::trim` use.
pub open spec fn is_white_space(c: char) -> bool {
    let u = c as u32;
    ||| 0x09 <= u <= 0x0d
    ||| u == 0x20
    ||| u == 0x85
    ||| u == 0xa0
    ||| u == 0x1680
    ||| 0x2000 <= u <= 0x200a
    ||| u == 0x2028
    ||| u == 0x2029
    ||| u == 0x202f
    ||| u == 0x205f
    ||| u == 0x3000
}

/// ASCII whitespace as `char::is_ascii_whitespace` and
/// `str::split_ascii_whitespace` define it (no vertical tab).
pub open spec fn is_ascii_space(c: char) -> bool {
    c == ' ' || c == '\t' || c == '\n' || c == '\x0C' || c == '\r'
}

/// The Unicode general category `Cc`, which `char::is_control` tests.
pub open spec fn is_control_char(c: char) -> bool {
    let u = c as u32;
    u <= 0x1f || (0x7f <= u <= 0x9f)
}

pub open spec fn is_ascii_digit_char(c: char) -> bool {
    '0' <= c <= '9'
}

pub open spec fn is_ascii_alphanumeric_char(c: char) -> bool {
    ||| '0' <= c <= '9'
    ||| 'a' <= c <= 'z'
    ||| 'A' <= c <= 'Z'
}

/// `char::to_ascii_uppercase`: ASCII lower-case letters map to upper case,
/// every other character is unchanged.
pub open spec fn ascii_upper(c: char) -> char {
    if 'a' <= c <= 'z' {
        ((c as u32) - 32) as char
    } else {
        c
    }
}

pub fn is_white_space_char(c: char) -> (r: bool)
    ensures
        r == is_white_space(c),
{
    let u = c as u32;
    (0x09 <= u && u <= 0x0d) || u == 0x20 || u == 0x85 || u == 0xa0 || u == 0x1680 || (0x2000
        <= u && u <= 0x200a) || u == 0x2028 || u == 0x2029 || u == 0x202f || u == 0x205f || u
        == 0x3000
}

pub fn is_ascii_space_char(c: char) -> (r: bool)
    ensures
        r == is_ascii_space(c),
{
    c == ' ' || c == '\t' || c == '\n' || c == '\x0C' || c == '\r'
}

pub fn is_control(c: char) -> (r: bool)
    ensures
        r == is_control_char(c),
{
    let u = c as u32;
    u <= 0x1f || (0x7f <= u && u <= 0x9f)
}

pub fn is_ascii_digit(c: char) -> (r: bool)
    ensures
        r == is_ascii_digit_char(c),
{
    '0' <= c && c <= '9'
}

pub fn is_ascii_alphanumeric(c: char) -> (r: bool)
    ensures
        r == is_ascii_alphanumeric_char(c),
{
    ('0' <= c && c <= '9') || ('a' <= c && c <= 'z') || ('A' <= c && c <= 'Z')
}

pub fn to_ascii_upper(c: char) -> (r: char)
    ensures
        r == ascii_upper(c),
{
    if 'a' <= c && c <= 'z' {
        let u = (c as u32) - 32;
        char_from_ascii_code(u)
    } else {
        c
    }
}

/// The ASCII character with code `u`.
fn char_from_ascii_code(u: u32) -> (c: char)
    requires
        u < 128,
    ensures
        c == u as char,
{
    let b: u8 = u as u8;
    b as char
}

// ---------------------------------------------------------------------------
// Building strings
// ---------------------------------------------------------------------------

/// `String::push`: appends one character at the end.
#[verifier::external_body]
pub fn push_char(s: &mut String, c: char)
    ensures
        final(s)@ == old(s)@.push(c),
{
    s.push(c)
}

pub fn string_of(s: &str) -> (r: String)
    ensures
        r@ == s@,
{
    s.to_owned()
}

pub fn string_from_chars(v: &[char]) -> (r: String)
    ensures
        r@ == v@,
{
    let mut out = String::new();
    let mut i: usize = 0;
    while i < v.len()
        invariant
            i <= v@.len(),
            out@ == v@.take(i as int),
        decreases v@.len() - i,
    {
        push_char(&mut out, v[i]);
        assert(v@.take(i + 1) =~= v@.take(i as int).push(v@[i as int]));
        i += 1;
    }
    assert(v@.take(v@.len() as int) =~= v@);
    out
}

/// Appends `t` to `s`.
pub fn push_str(s: &mut String, t: &str)
    ensures
        final(s)@ == old(s)@ + t@,
{
    s.append(t);
}

pub fn chars_of(s: &str) -> (v: Vec<char>)
    ensures
        v@ == s@,
{
    let mut v: Vec<char> = Vec::new();
    for c in it: s.chars()
        invariant
            it.seq() == s@,
            v@ == s@.take(it.index()),
    {
        v.push(c);
        assert(s@.take(it.index() + 1) =~= s@.take(it.index()).push(c));
    }
    assert(v@ =~= s@);
    v
}

pub fn str_eq(a: &str, b: &str) -> (r: bool)
    ensures
        r == (a@ == b@),
{
    let x = a.to_owned();
    let y = b.to_owned();
    x == y
}

// ---------------------------------------------------------------------------
// Trimming
// ---------------------------------------------------------------------------

/// The number of `White_Space` characters at the start of `s`.
pub open spec fn leading_space(s: Seq<char>) -> nat
    decreases s.len(),
{
    if s.len() > 0 && is_white_space(s[0]) {
        1 + leading_space(s.drop_first())
    } else {
        0
    }
}

/// The number of `White_Space` characters at the end of `s`.
pub open spec fn trailing_space(s: Seq<char>) -> nat
    decreases s.len(),
{
    if s.len() > 0 && is_white_space(s.last()) {
        1 + trailing_space(s.drop_last())
    } else {
        0
    }
}

/// `str::trim`: `s` without leading and trailing `White_Space`.
pub open spec fn trimmed(s: Seq<char>) -> Seq<char> {
    let t = s.skip(leading_space(s) as int);
    t.take(t.len() - trailing_space(t))
}

pub proof fn lemma_leading_space(s: Seq<char>)
    ensures
        leading_space(s) <= s.len(),
        forall|i: int| 0 <= i < leading_space(s) ==> is_white_space(#[trigger] s[i]),
        leading_space(s) < s.len() ==> !is_white_space(s[leading_space(s) as int]),
    decreases s.len(),
{
    if s.len() > 0 && is_white_space(s[0]) {
        lemma_leading_space(s.drop_first());
        assert forall|i: int| 0 <= i < leading_space(s) implies is_white_space(#[trigger] s[i]) by {
            if i > 0 {
                assert(s[i] == s.drop_first()[i - 1]);
            }
        }
    }
}

pub proof fn lemma_trailing_space(s: Seq<char>)
    ensures
        trailing_space(s) <= s.len(),
        forall|i: int|
            s.len() - trailing_space(s) <= i < s.len() ==> is_white_space(#[trigger] s[i]),
        trailing_space(s) < s.len() ==> !is_white_space(s[s.len() - trailing_space(s) - 1]),
    decreases s.len(),
{
    if s.len() > 0 && is_white_space(s.last()) {
        lemma_trailing_space(s.drop_last());
        assert forall|i: int|
            s.len() - trailing_space(s) <= i < s.len() implies is_white_space(#[trigger] s[i]) by {
            if i < s.len() - 1 {
                assert(s[i] == s.drop_last()[i]);
            }
        }
    }
}

fn count_leading_space(s: &[char]) -> (n: usize)
    ensures
        n == leading_space(s@),
{
    let mut i: usize = 0;
    assert(s@.skip(0) =~= s@);
    while i < s.len() && is_white_space_char(s[i])
        invariant
            i <= s@.len(),
            leading_space(s@) == i + leading_space(s@.skip(i as int)),
        decreases s@.len() - i,
    {
        assert(s@.skip(i as int).drop_first() =~= s@.skip(i + 1));
        i += 1;
    }
    assert(s@.skip(i as int) =~= s@.skip(i as int));
    i
}

fn count_trailing_space(s: &[char]) -> (n: usize)
    ensures
        n == trailing_space(s@),
{
    let mut i: usize = s.len();
    assert(s@.take(s@.len() as int) =~= s@);
    while i > 0 && is_white_space_char(s[i - 1])
        invariant
            i <= s@.len(),
            trailing_space(s@) == (s@.len() - i) + trailing_space(s@.take(i as int)),
        decreases i,
    {
        assert(s@.take(i as int).drop_last() =~= s@.take(i - 1));
        i -= 1;
    }
    (s.len() - i) as usize
}

pub fn trim_chars(s: &[char]) -> (r: Vec<char>)
    ensures
        r@ == trimmed(s@),
{
    let lead = count_leading_space(s);
    proof {
        lemma_leading_space(s@);
    }
    let mut t: Vec<char> = Vec::new();
    let mut i = lead;
    while i < s.len()
        invariant
            lead <= i <= s@.len(),
            t@ == s@.subrange(lead as int, i as int),
        decreases s@.len() - i,
    {
        t.push(s[i]);
        assert(s@.subrange(lead as int, i + 1) =~= s@.subrange(lead as int, i as int).push(
            s@[i as int],
        ));
        i += 1;
    }
    assert(t@ =~= s@.skip(lead as int));
    let trail = count_trailing_space(t.as_slice());
    proof {
        lemma_trailing_space(t@);
    }
    let keep = t.len() - trail;
    t.truncate(keep);
    t
}

/// `str::trim` followed by `to_owned`.
pub fn trim(s: &str) -> (r: String)
    ensures
        r@ == trimmed(s@),
{
    let v = chars_of(s);
    let t = trim_chars(v.as_slice());
    string_from_chars(t.as_slice())
}

// ---------------------------------------------------------------------------
// Words separated by whitespace
// ---------------------------------------------------------------------------

/// The separators of words: ASCII whitespace, as
/// `str::split_ascii_whitespace` uses it, or Unicode `White_Space`, as
/// `str::split_whitespace` uses it.
pub open spec fn is_separator(c: char, unicode: bool) -> bool {
    if unicode {
        is_white_space(c)
    } else {
        is_ascii_space(c)
    }
}

fn is_separator_char(c: char, unicode: bool) -> (r: bool)
    ensures
        r == is_separator(c, unicode),
{
    if unicode {
        is_white_space_char(c)
    } else {
        is_ascii_space_char(c)
    }
}

/// The number of separators at the start of `s`.
pub open spec fn leading_separators(s: Seq<char>, unicode: bool) -> nat
    decreases s.len(),
{
    if s.len() > 0 && is_separator(s[0], unicode) {
        1 + leading_separators(s.drop_first(), unicode)
    } else {
        0
    }
}

/// The number of characters at the start of `s` before the first separator.
pub open spec fn word_len(s: Seq<char>, unicode: bool) -> nat
    decreases s.len(),
{
    if s.len() > 0 && !is_separator(s[0], unicode) {
        1 + word_len(s.drop_first(), unicode)
    } else {
        0
    }
}

/// The maximal runs of characters that are not separators, in order.
pub open spec fn words(s: Seq<char>, unicode: bool) -> Seq<Seq<char>>
    decreases s.len(),
{
    let t = s.skip(leading_separators(s, unicode) as int);
    if leading_separators(s, unicode) >= s.len() {
        Seq::empty()
    } else {
        proof {
            lemma_leading_separators_bound(s, unicode);
            lemma_word_len_bound(t, unicode);
        }
        seq![t.take(word_len(t, unicode) as int)] + words(t.skip(word_len(t, unicode) as int), unicode)
    }
}

/// `str::split_ascii_whitespace`.
pub open spec fn ascii_words(s: Seq<char>) -> Seq<Seq<char>> {
    words(s, false)
}

/// `str::split_whitespace`.
pub open spec fn white_space_words(s: Seq<char>) -> Seq<Seq<char>> {
    words(s, true)
}

pub proof fn lemma_leading_separators_bound(s: Seq<char>, unicode: bool)
    ensures
        leading_separators(s, unicode) <= s.len(),
        leading_separators(s, unicode) < s.len() ==> !is_separator(
            s[leading_separators(s, unicode) as int],
            unicode,
        ),
    decreases s.len(),
{
    if s.len() > 0 && is_separator(s[0], unicode) {
        lemma_leading_separators_bound(s.drop_first(), unicode);
    }
}

pub proof fn lemma_word_len_bound(s: Seq<char>, unicode: bool)
    ensures
        word_len(s, unicode) <= s.len(),
        s.len() > 0 && !is_separator(s[0], unicode) ==> word_len(s, unicode) >= 1,
    decreases s.len(),
{
    if s.len() > 0 && !is_separator(s[0], unicode) {
        lemma_word_len_bound(s.drop_first(), unicode);
    }
}

proof fn lemma_word_len_chars(s: Seq<char>, unicode: bool)
    ensures
        forall|j: int| 0 <= j < word_len(s, unicode) ==> !is_separator(#[trigger] s[j], unicode),
    decreases s.len(),
{
    lemma_word_len_bound(s, unicode);
    if s.len() > 0 && !is_separator(s[0], unicode) {
        lemma_word_len_chars(s.drop_first(), unicode);
        assert forall|j: int| 0 <= j < word_len(s, unicode) implies !is_separator(
            #[trigger] s[j],
            unicode,
        ) by {
            if j > 0 {
                assert(s[j] == s.drop_first()[j - 1]);
            }
        }
    }
}

proof fn lemma_word_len_whole(s: Seq<char>, unicode: bool)
    requires
        forall|j: int| 0 <= j < s.len() ==> !is_separator(#[trigger] s[j], unicode),
    ensures
        word_len(s, unicode) == s.len(),
    decreases s.len(),
{
    if s.len() > 0 {
        assert forall|j: int| 0 <= j < s.drop_first().len() implies !is_separator(
            #[trigger] s.drop_first()[j],
            unicode,
        ) by {
            assert(s.drop_first()[j] == s[j + 1]);
        }
        lemma_word_len_whole(s.drop_first(), unicode);
    }
}

/// Every character of a word is a character of the text and no separator.
pub proof fn lemma_words_chars(s: Seq<char>, unicode: bool)
    ensures
        forall|k: int, j: int|
            #![trigger words(s, unicode)[k][j]]
            0 <= k < words(s, unicode).len() && 0 <= j < words(s, unicode)[k].len() ==> !is_separator(
                words(s, unicode)[k][j],
                unicode,
            ) && exists|i: int| 0 <= i < s.len() && s[i] == words(s, unicode)[k][j],
    decreases s.len(),
{
    let ls = leading_separators(s, unicode);
    if ls < s.len() {
        lemma_leading_separators_bound(s, unicode);
        let t = s.skip(ls as int);
        lemma_word_len_bound(t, unicode);
        lemma_word_len_chars(t, unicode);
        let wl = word_len(t, unicode);
        let rest = t.skip(wl as int);
        lemma_words_chars(rest, unicode);
        let ws = words(s, unicode);
        assert(ws == seq![t.take(wl as int)] + words(rest, unicode));
        assert forall|k: int, j: int|
            0 <= k < ws.len() && 0 <= j < ws[k].len() implies !is_separator(ws[k][j], unicode)
            && exists|i: int| 0 <= i < s.len() && s[i] == ws[k][j] by {
            if k == 0 {
                assert(ws[k][j] == t[j]);
                assert(s[ls + j] == t[j]);
            } else {
                assert(ws[k] == words(rest, unicode)[k - 1]);
                assert(words(rest, unicode)[k - 1][j] == ws[k][j]);
                let i2 = choose|i2: int| 0 <= i2 < rest.len() && rest[i2] == words(rest, unicode)[k - 1][j];
                assert(s[ls + wl + i2] == rest[i2]);
            }
        }
    }
}

/// A text without separators is one word, or none when it is empty.
pub proof fn lemma_words_unbroken(s: Seq<char>, unicode: bool)
    requires
        forall|j: int| 0 <= j < s.len() ==> !is_separator(#[trigger] s[j], unicode),
    ensures
        words(s, unicode) == (if s.len() == 0 {
            Seq::<Seq<char>>::empty()
        } else {
            seq![s]
        }),
{
    if s.len() > 0 {
        assert(leading_separators(s, unicode) == 0);
        assert(s.skip(0) =~= s);
        lemma_word_len_whole(s, unicode);
        assert(s.take(s.len() as int) =~= s);
        let rest = s.skip(s.len() as int);
        assert(rest.len() == 0);
        assert(words(rest, unicode) =~= Seq::<Seq<char>>::empty());
        assert(words(s, unicode) =~= seq![s]);
    }
}

/// The characters of `trimmed(s)` are those of `s` from the first one that
/// is not white space.
pub proof fn lemma_trimmed_chars(s: Seq<char>)
    ensures
        trimmed(s).len() <= s.len() - leading_space(s),
        forall|i: int| 0 <= i < trimmed(s).len() ==> #[trigger] trimmed(s)[i] == s[leading_space(s) + i],
{
    lemma_leading_space(s);
    let t = s.skip(leading_space(s) as int);
    lemma_trailing_space(t);
}

fn count_leading_separators(s: &[char], from: usize, unicode: bool) -> (n: usize)
    requires
        from <= s@.len(),
    ensures
        n == from + leading_separators(s@.skip(from as int), unicode),
        n <= s@.len(),
{
    let mut i = from;
    while i < s.len() && is_separator_char(s[i], unicode)
        invariant
            from <= i <= s@.len(),
            leading_separators(s@.skip(from as int), unicode) == (i - from) + leading_separators(
                s@.skip(i as int),
                unicode,
            ),
        decreases s@.len() - i,
    {
        assert(s@.skip(i as int).drop_first() =~= s@.skip(i + 1));
        i += 1;
    }
    i
}

fn count_word(s: &[char], from: usize, unicode: bool) -> (n: usize)
    requires
        from <= s@.len(),
    ensures
        n == from + word_len(s@.skip(from as int), unicode),
        n <= s@.len(),
{
    let mut i = from;
    while i < s.len() && !is_separator_char(s[i], unicode)
        invariant
            from <= i <= s@.len(),
            word_len(s@.skip(from as int), unicode) == (i - from) + word_len(s@.skip(i as int), unicode),
        decreases s@.len() - i,
    {
        assert(s@.skip(i as int).drop_first() =~= s@.skip(i + 1));
        i += 1;
    }
    i
}

/// The words of `s`, each as a `String`.
pub fn split_words(s: &[char], unicode: bool) -> (ws: Vec<String>)
    ensures
        ws@.len() == words(s@, unicode).len(),
        forall|k: int| 0 <= k < ws@.len() ==> #[trigger] ws@[k]@ == words(s@, unicode)[k],
{
    let mut ws: Vec<String> = Vec::new();
    let mut pos: usize = 0;
    assert(s@.skip(0) =~= s@);
    loop
        invariant
            pos <= s@.len(),
            ws@.len() + words(s@.skip(pos as int), unicode).len() == words(s@, unicode).len(),
            forall|k: int|
                0 <= k < ws@.len() ==> #[trigger] ws@[k]@ == words(s@, unicode)[k],
            forall|k: int|
                0 <= k < words(s@.skip(pos as int), unicode).len() ==> words(s@, unicode)[ws@.len()
                    + k] == #[trigger] words(s@.skip(pos as int), unicode)[k],
        decreases s@.len() - pos,
    {
        let ghost rest = s@.skip(pos as int);
        let start = count_leading_separators(s, pos, unicode);
        proof {
            lemma_leading_separators_bound(rest, unicode);
        }
        if start >= s.len() {
            assert(words(rest, unicode).len() == 0);
            return ws;
        }
        let end = count_word(s, start, unicode);
        proof {
            let t = rest.skip(leading_separators(rest, unicode) as int);
            assert(t =~= s@.skip(start as int));
            lemma_word_len_bound(t, unicode);
            assert(t.take(word_len(t, unicode) as int) =~= s@.subrange(start as int, end as int));
            assert(t.skip(word_len(t, unicode) as int) =~= s@.skip(end as int));
        }
        let mut w: Vec<char> = Vec::new();
        let mut i = start;
        while i < end
            invariant
                start <= i <= end <= s@.len(),
                w@ == s@.subrange(start as int, i as int),
            decreases end - i,
        {
            w.push(s[i]);
            assert(s@.subrange(start as int, i + 1) =~= s@.subrange(start as int, i as int).push(
                s@[i as int],
            ));
            i += 1;
        }
        let word = string_from_chars(w.as_slice());
        ws.push(word);
        proof {
            assert(words(rest, unicode)[0] == w@);
            assert forall|k: int|
                0 <= k < words(s@.skip(end as int), unicode).len() implies words(s@, unicode)[ws@.len()
                + k] == #[trigger] words(s@.skip(end as int), unicode)[k] by {
                assert(words(rest, unicode)[k + 1] == words(s@.skip(end as int), unicode)[k]);
            }
        }
        pos = end;
    }
}

/// The words of `s` separated by ASCII whitespace.
pub fn split_ascii_words(s: &[char]) -> (ws: Vec<String>)
    ensures
        ws@.len() == ascii_words(s@).len(),
        forall|k: int| 0 <= k < ws@.len() ==> #[trigger] ws@[k]@ == ascii_words(s@)[k],
{
    split_words(s, false)
}

/// The words of `s` separated by Unicode whitespace.
pub fn split_white_space_words(s: &[char]) -> (ws: Vec<String>)
    ensures
        ws@.len() == white_space_words(s@).len(),
        forall|k: int| 0 <= k < ws@.len() ==> #[trigger] ws@[k]@ == white_space_words(s@)[k],
{
    split_words(s, true)
}

// ---------------------------------------------------------------------------
// Finding a character
// ---------------------------------------------------------------------------

/// The index of the first `c` in `s`.
pub open spec fn char_index(s: Seq<char>, c: char) -> Option<nat>
    decreases s.len(),
{
    if s.len() == 0 {
        None
    } else if s[0] == c {
        Some(0)
    } else {
        match char_index(s.drop_first(), c) {
            Some(i) => Some(i + 1),
            None => None,
        }
    }
}

pub proof fn lemma_char_index(s: Seq<char>, c: char)
    ensures
        match char_index(s, c) {
            Some(i) => i < s.len() && s[i as int] == c && forall|k: int| 0 <= k < i ==> s[k] != c,
            None => forall|k: int| 0 <= k < s.len() ==> s[k] != c,
        },
    decreases s.len(),
{
    if s.len() > 0 && s[0] != c {
        lemma_char_index(s.drop_first(), c);
        assert forall|k: int| 0 < k < s.len() implies s[k] == s.drop_first()[k - 1] by {}
    }
}

/// The index of the first `c` in `s` at or after `from`.
pub fn find_char(s: &Vec<char>, from: usize, c: char) -> (r: Option<usize>)
    requires
        from <= s@.len(),
    ensures
        match r {
            Some(i) => from <= i < s@.len() && char_index(s@.skip(from as int), c) == Some(
                (i - from) as nat,
            ),
            None => char_index(s@.skip(from as int), c) is None,
        },
{
    let ghost t = s@.skip(from as int);
    proof {
        lemma_char_index(t, c);
    }
    let mut i = from;
    while i < s.len()
        invariant
            from <= i <= s@.len(),
            t == s@.skip(from as int),
            forall|k: int| from <= k < i ==> s@[k] != c,
            match char_index(t, c) {
                Some(j) => j < t.len() && t[j as int] == c && forall|k: int| 0 <= k < j ==> t[k] != c,
                None => forall|k: int| 0 <= k < t.len() ==> t[k] != c,
            },
        decreases s@.len() - i,
    {
        if s[i] == c {
            assert(t[i - from] == c);
            proof {
                match char_index(t, c) {
                    Some(j) => {
                        if j < i - from {
                            assert(s@[from + j] == t[j as int]);
                        }
                    },
                    None => {},
                }
            }
            return Some(i);
        }
        i += 1;
    }
    proof {
        match char_index(t, c) {
            Some(j) => {
                assert(s@[from + j] == t[j as int]);
            },
            None => {},
        }
    }
    None
}

/// The characters of `s` from `start` up to `end`.
pub fn sub_chars(s: &Vec<char>, start: usize, end: usize) -> (r: Vec<char>)
    requires
        start <= end <= s@.len(),
    ensures
        r@ == s@.subrange(start as int, end as int),
{
    let mut out: Vec<char> = Vec::new();
    let mut i = start;
    while i < end
        invariant
            start <= i <= end <= s@.len(),
            out@ == s@.subrange(start as int, i as int),
        decreases end - i,
    {
        out.push(s[i]);
        assert(s@.subrange(start as int, i + 1) =~= s@.subrange(start as int, i as int).push(
            s@[i as int],
        ));
        i += 1;
    }
    out
}

// ---------------------------------------------------------------------------
// Secrets
// ---------------------------------------------------------------------------

/// A secret is well formed when it is not empty, `trim` leaves it as it is
/// and it holds no whitespace.
pub open spec fn secret_well_formed(s: Seq<char>) -> bool {
    &&& s.len() > 0
    &&& trimmed(s) == s
    &&& forall|i: int| 0 <= i < s.len() ==> !is_white_space(#[trigger] s[i])
}

pub fn is_well_formed_secret(value: &str) -> (r: bool)
    ensures
        r == secret_well_formed(value@),
{
    if value.is_empty() {
        return false;
    }
    let t = trim(value);
    if !str_eq(t.as_str(), value) {
        return false;
    }
    let chars = chars_of(value);
    let mut i: usize = 0;
    while i < chars.len()
        invariant
            i <= chars@.len(),
            chars@ == value@,
            forall|k: int| 0 <= k < i ==> !is_white_space(#[trigger] chars@[k]),
        decreases chars@.len() - i,
    {
        if is_white_space_char(chars[i]) {
            return false;
        }
        i += 1;
    }
    true
}

// ---------------------------------------------------------------------------
// Decimal numbers
// ---------------------------------------------------------------------------

pub open spec fn digit_char(d: nat) -> char
    recommends
        d < 10,
{
    (('0' as u32) + d) as char
}

/// The shortest decimal digits of `n`, as `u64`'s `Display` writes them.
pub open spec fn decimal(n: nat) -> Seq<char>
    decreases n,
{
    if n < 10 {
        seq![digit_char(n)]
    } else {
        decimal(n / 10).push(digit_char(n % 10))
    }
}

fn digit_of(d: u64) -> (c: char)
    requires
        d < 10,
    ensures
        c == digit_char(d as nat),
{
    char_from_ascii_code((48 + d) as u32)
}

/// Appends the decimal digits of `n`.
pub fn push_decimal(s: &mut String, n: u64)
    ensures
        final(s)@ == old(s)@ + decimal(n as nat),
    decreases n,
{
    if n >= 10 {
        push_decimal(s, n / 10);
    }
    push_char(s, digit_of(n % 10));
    assert(final(s)@ =~= old(s)@ + decimal(n as nat));
}

/// The decimal digits of `n` with a leading `-` when it is negative, as
/// `i64`'s `Display` writes them.
pub open spec fn signed_decimal(n: int) -> Seq<char> {
    if n < 0 {
        seq!['-'] + decimal((-n) as nat)
    } else {
        decimal(n as nat)
    }
}

/// Appends the decimal digits of `n`, after a `-` when it is negative.
pub fn push_signed_decimal(s: &mut String, n: i64)
    ensures
        final(s)@ == old(s)@ + signed_decimal(n as int),
{
    if n < 0 {
        push_char(s, '-');
        let magnitude: u64 = ((-(n + 1)) as u64) + 1;
        push_decimal(s, magnitude);
        assert(final(s)@ =~= old(s)@ + signed_decimal(n as int));
    } else {
        push_decimal(s, n as u64);
    }
}

/// The value of a nonempty string of ASCII digits.
pub open spec fn digits_value(s: Seq<char>) -> nat
    decreases s.len(),
{
    if s.len() == 0 {
        0
    } else {
        digits_value(s.drop_last()) * 10 + ((s.last() as u32) - ('0' as u32)) as nat
    }
}

/// The characters after an optional leading `+`.
pub open spec fn strip_plus(s: Seq<char>) -> Seq<char> {
    if s.len() > 0 && s[0] == '+' {
        s.drop_first()
    } else {
        s
    }
}

pub open spec fn all_ascii_digits(d: Seq<char>) -> bool {
    forall|i: int| 0 <= i < d.len() ==> is_ascii_digit_char(#[trigger] d[i])
}

/// `u64::from_str`: an optional `+` and then at least one ASCII digit, whose
/// value fits in a `u64`.
pub open spec fn parse_u64(s: Seq<char>) -> Option<u64> {
    let d = strip_plus(s);
    if d.len() == 0 || !all_ascii_digits(d) {
        None
    } else if digits_value(d) > u64::MAX {
        None
    } else {
        Some(digits_value(d) as u64)
    }
}

proof fn lemma_digits_value_monotone(s: Seq<char>, i: int)
    requires
        0 <= i <= s.len(),
        forall|k: int| 0 <= k < s.len() ==> is_ascii_digit_char(#[trigger] s[k]),
    ensures
        digits_value(s.take(i)) <= digits_value(s),
    decreases s.len() - i,
{
    if i < s.len() {
        lemma_digits_value_monotone(s, i + 1);
        assert(s.take(i + 1).drop_last() =~= s.take(i));
    } else {
        assert(s.take(i) =~= s);
    }
}

pub fn parse_decimal_u64(s: &[char]) -> (r: Option<u64>)
    ensures
        r == parse_u64(s@),
{
    let start: usize = if s.len() > 0 && s[0] == '+' {
        1
    } else {
        0
    };
    let ghost d = strip_plus(s@);
    assert(d =~= s@.skip(start as int));
    if start >= s.len() {
        return None;
    }
    let mut value: u64 = 0;
    let mut i = start;
    while i < s.len()
        invariant
            start <= i <= s@.len(),
            d =~= s@.skip(start as int),
            d == strip_plus(s@),
            forall|k: int| 0 <= k < i - start ==> is_ascii_digit_char(#[trigger] d[k]),
            value == digits_value(d.take(i - start)),
        decreases s@.len() - i,
    {
        let c = s[i];
        assert(d[i - start] == c);
        if !is_ascii_digit(c) {
            assert(!all_ascii_digits(d));
            return None;
        }
        assert(d.take(i - start + 1).drop_last() =~= d.take(i - start));
        let digit = (c as u32 - '0' as u32) as u64;
        match value.checked_mul(10) {
            Some(v) => match v.checked_add(digit) {
                Some(w) => {
                    value = w;
                },
                None => {
                    proof {
                        if all_ascii_digits(d) {
                            lemma_digits_value_monotone(d, i - start + 1);
                        }
                    }
                    return None;
                },
            },
            None => {
                proof {
                    if all_ascii_digits(d) {
                        lemma_digits_value_monotone(d, i - start + 1);
                    }
                }
                return None;
            },
        }
        i += 1;
    }
    assert(d.take(s@.len() - start) =~= d);
    Some(value)
}

} // verus!
