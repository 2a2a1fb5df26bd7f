//! Text helpers: prefix, suffix and substring tests, and the splitting of
//! slash-delimited paths into components.

use vstd::prelude::*;
use vstd::string::{StrSliceExecFns, StringExecFns};

verus! {

/// `s` begins with `prefix`.
pub open spec fn has_prefix(s: Seq<char>, prefix: Seq<char>) -> bool {
    prefix.len() <= s.len() && s.subrange(0, prefix.len() as int) == prefix
}

/// `s` ends with `suffix`.
pub open spec fn has_suffix(s: Seq<char>, suffix: Seq<char>) -> bool {
    suffix.len() <= s.len() && s.subrange(s.len() - suffix.len(), s.len() as int) == suffix
}

/// `needle` occurs somewhere inside `s`.
pub open spec fn has_infix(s: Seq<char>, needle: Seq<char>) -> bool {
    exists|i: int|
        0 <= i && i + needle.len() <= s.len() && #[trigger] s.subrange(i, i + needle.len())
            == needle
}

/// The characters of a text.
pub fn chars_of(s: &str) -> (chars: Vec<char>)
    ensures
        chars@ == s@,
{
    let mut chars: Vec<char> = Vec::new();
    for c in it: s.chars()
        invariant
            it.seq() == s@,
            chars@ == s@.take(it.index() as int),
    {
        chars.push(c);
        proof {
            assert(chars@ =~= s@.take(it.index() as int + 1));
        }
    }
    proof {
        assert(s@.take(s@.len() as int) =~= s@);
    }
    chars
}

/// Whether `needle` stands in `hay` at position `at`.
fn occurs_at(hay: &Vec<char>, needle: &Vec<char>, at: usize) -> (r: bool)
    ensures
        r == (at + needle@.len() <= hay@.len() && hay@.subrange(
            at as int,
            at + needle@.len(),
        ) == needle@),
{
    let hay_len: usize = hay.len();
    let needle_len: usize = needle.len();
    if needle_len > hay_len || at > hay_len - needle_len {
        return false;
    }
    let mut i: usize = 0;
    while i < needle_len
        invariant
            i <= needle_len,
            needle_len == needle@.len(),
            hay_len == hay@.len(),
            at + needle_len <= hay_len,
            forall|j: int| 0 <= j < i ==> hay@[at + j] == needle@[j],
        decreases needle_len - i,
    {
        if hay[at + i] != needle[i] {
            proof {
                assert(hay@.subrange(at as int, at + needle_len)[i as int] == hay@[at + i]);
            }
            return false;
        }
        i += 1;
    }
    proof {
        assert(hay@.subrange(at as int, at + needle_len) =~= needle@);
    }
    true
}

/// Whether the text begins with the characters of `prefix`.
pub fn str_starts_with(s: &str, prefix: &str) -> (r: bool)
    ensures
        r == has_prefix(s@, prefix@),
{
    occurs_at(&chars_of(s), &chars_of(prefix), 0)
}

/// Whether the text ends with the characters of `suffix`.
pub fn str_ends_with(s: &str, suffix: &str) -> (r: bool)
    ensures
        r == has_suffix(s@, suffix@),
{
    let hay = chars_of(s);
    let needle = chars_of(suffix);
    if needle.len() > hay.len() {
        return false;
    }
    occurs_at(&hay, &needle, hay.len() - needle.len())
}

/// Whether the characters of `needle` occur as a contiguous run of the text.
pub fn str_contains(s: &str, needle: &str) -> (r: bool)
    ensures
        r == has_infix(s@, needle@),
{
    let hay = chars_of(s);
    let pattern = chars_of(needle);
    let hay_len: usize = hay.len();
    let pattern_len: usize = pattern.len();
    if pattern_len > hay_len {
        return false;
    }
    let last: usize = hay_len - pattern_len;
    let mut at: usize = 0;
    loop
        invariant
            at <= last,
            last == hay@.len() - pattern@.len(),
            hay@ == s@,
            pattern@ == needle@,
            forall|i: int|
                0 <= i < at ==> #[trigger] hay@.subrange(i, i + pattern@.len()) != pattern@,
        decreases last - at,
    {
        if occurs_at(&hay, &pattern, at) {
            return true;
        }
        if at == last {
            return false;
        }
        at += 1;
    }
}

/// Whether two strings hold the same characters in the same order.
pub fn string_equal(a: &String, b: &String) -> (r: bool)
    ensures
        r == (a@ == b@),
{
    *a == *b
}

/// Whether two texts hold the same characters in the same order.
pub fn str_equal(a: &str, b: &str) -> (r: bool)
    ensures
        r == (a@ == b@),
{
    string_equal(&a.to_owned(), &b.to_owned())
}

/// `String::push`: appends one character.
pub assume_specification[ std::string::String::push ](s: &mut std::string::String, c: char)
    ensures
        final(s)@ == old(s)@.push(c),
;

/// `s` without its leading run of `c`.
pub open spec fn trim_leading(s: Seq<char>, c: char) -> Seq<char>
    decreases s.len(),
{
    if s.len() > 0 && s[0] == c {
        trim_leading(s.drop_first(), c)
    } else {
        s
    }
}

/// The pieces of `s` between occurrences of `sep`. There is always at least
/// one piece; pieces may be empty.
pub open spec fn split_on(s: Seq<char>, sep: char) -> Seq<Seq<char>>
    decreases s.len(),
{
    if s.len() == 0 {
        seq![Seq::<char>::empty()]
    } else {
        let head = split_on(s.drop_last(), sep);
        if s.last() == sep {
            head.push(Seq::<char>::empty())
        } else {
            head.update(head.len() - 1, head.last().push(s.last()))
        }
    }
}

/// The components of a slash-delimited path. Leading slashes are ignored; a
/// path made of slashes only (or empty) has no components.
pub open spec fn path_components(path: Seq<char>) -> Seq<Seq<char>> {
    let trimmed = trim_leading(path, '/');
    if trimmed.len() == 0 {
        Seq::<Seq<char>>::empty()
    } else {
        split_on(trimmed, '/')
    }
}

/// The character views of a sequence of strings.
pub open spec fn views_of(v: Seq<String>) -> Seq<Seq<char>> {
    Seq::new(v.len(), |i: int| v[i]@)
}

/// A split has at least one piece.
pub proof fn lemma_split_on_nonempty(s: Seq<char>, sep: char)
    ensures
        split_on(s, sep).len() >= 1,
    decreases s.len(),
{
    if s.len() > 0 {
        lemma_split_on_nonempty(s.drop_last(), sep);
    }
}

/// No piece of a split contains the separator.
pub proof fn lemma_split_on_pieces_lack_sep(s: Seq<char>, sep: char)
    ensures
        forall|i: int, j: int|
            0 <= i < split_on(s, sep).len() && 0 <= j < split_on(s, sep)[i].len()
                ==> split_on(s, sep)[i][j] != sep,
    decreases s.len(),
{
    if s.len() > 0 {
        lemma_split_on_nonempty(s.drop_last(), sep);
        lemma_split_on_pieces_lack_sep(s.drop_last(), sep);
    }
}

proof fn lemma_trim_leading_push(s: Seq<char>, c: char, x: char)
    ensures
        trim_leading(s, c).len() > 0 ==> trim_leading(s.push(x), c) == trim_leading(s, c).push(x),
        trim_leading(s, c).len() == 0 && x == c ==> trim_leading(s.push(x), c).len() == 0,
        trim_leading(s, c).len() == 0 && x != c ==> trim_leading(s.push(x), c) == seq![x],
    decreases s.len(),
{
    if s.len() > 0 && s[0] == c {
        lemma_trim_leading_push(s.drop_first(), c, x);
        assert(s.push(x).drop_first() == s.drop_first().push(x));
    } else if s.len() == 0 {
        assert(s.push(x) == seq![x]);
        if x == c {
            assert(seq![x].drop_first().len() == 0);
            assert(trim_leading(seq![x].drop_first(), c).len() == 0);
        }
    } else {
        assert(s.push(x)[0] == s[0]);
    }
}

/// Splits a slash-delimited path into its components.
pub fn split_path(path: &str) -> (parts: Vec<String>)
    ensures
        views_of(parts@) == path_components(path@),
{
    let mut parts: Vec<String> = Vec::new();
    let mut cur = String::new();
    let mut started = false;
    for c in it: path.chars()
        invariant
            it.seq() == path@,
            !started ==> trim_leading(path@.take(it.index() as int), '/').len() == 0,
            !started ==> parts@.len() == 0 && cur@.len() == 0,
            started ==> trim_leading(path@.take(it.index() as int), '/').len() > 0,
            started ==> views_of(parts@).push(cur@) == split_on(
                trim_leading(path@.take(it.index() as int), '/'),
                '/',
            ),
    {
        let ghost before = path@.take(it.index() as int);
        let ghost after = path@.take(it.index() as int + 1);
        proof {
            assert(after == before.push(c));
            lemma_trim_leading_push(before, '/', c);
        }
        let ghost tb = trim_leading(before, '/');
        let ghost ta = trim_leading(after, '/');
        if !started && c == '/' {
        } else if !started {
            started = true;
            cur.push(c);
            proof {
                assert(ta == seq![c]);
                assert(ta.drop_last() == Seq::<char>::empty());
                let head = split_on(ta.drop_last(), '/');
                assert(head == seq![Seq::<char>::empty()]);
                assert(ta.last() == c);
                assert(split_on(ta, '/') == head.update(0, head.last().push(c)));
                assert(cur@ == Seq::<char>::empty().push(c));
                assert(views_of(parts@) == Seq::<Seq<char>>::empty());
                assert(views_of(parts@).push(cur@) == split_on(ta, '/'));
            }
        } else if c == '/' {
            let ghost old_parts = views_of(parts@);
            let ghost old_cur = cur@;
            parts.push(cur);
            cur = String::new();
            proof {
                assert(ta.drop_last() == tb);
                assert(views_of(parts@) == old_parts.push(old_cur));
                assert(views_of(parts@).push(cur@) == split_on(ta, '/'));
            }
        } else {
            let ghost old_parts = views_of(parts@);
            let ghost old_cur = cur@;
            cur.push(c);
            proof {
                assert(ta.drop_last() == tb);
                let head = split_on(tb, '/');
                assert(head == old_parts.push(old_cur));
                assert(head.update(head.len() - 1, head.last().push(c)) == old_parts.push(
                    old_cur.push(c),
                ));
                assert(views_of(parts@) == old_parts);
            }
        }
    }
    proof {
        assert(path@.take(path@.len() as int) == path@);
    }
    if started {
        let ghost old_parts = views_of(parts@);
        parts.push(cur);
        proof {
            assert(views_of(parts@) == old_parts.push(cur@));
        }
    } else {
        proof {
            assert(views_of(parts@) == Seq::<Seq<char>>::empty());
        }
    }
    parts
}


/// The path without its leading slashes.
pub fn trim_leading_slashes(path: &str) -> (trimmed: String)
    ensures
        trimmed@ == trim_leading(path@, '/'),
{
    let mut out = String::new();
    let mut started = false;
    for c in it: path.chars()
        invariant
            it.seq() == path@,
            started == (out@.len() > 0),
            out@ == trim_leading(path@.take(it.index() as int), '/'),
    {
        proof {
            let before = path@.take(it.index() as int);
            assert(path@.take(it.index() as int + 1) == before.push(c));
            lemma_trim_leading_push(before, '/', c);
        }
        if !started && c == '/' {
            proof {
                assert(out@.len() == 0);
                assert(out@ =~= trim_leading(path@.take(it.index() as int + 1), '/'));
            }
        } else {
            out.push(c);
            started = true;
            proof {
                assert(Seq::<char>::empty().push(c) =~= seq![c]);
            }
        }
    }
    proof {
        assert(path@.take(path@.len() as int) == path@);
    }
    out
}

/// The path with exactly one leading slash.
pub open spec fn normalized_path(path: Seq<char>) -> Seq<char> {
    seq!['/'] + trim_leading(path, '/')
}

/// Rewrites a path so that it starts with exactly one slash.
pub fn normalize_path(path: &str) -> (normalized: String)
    ensures
        normalized@ == normalized_path(path@),
{
    let trimmed = trim_leading_slashes(path);
    let mut out = String::new();
    out.push('/');
    out.append(trimmed.as_str());
    proof {
        assert(Seq::<char>::empty().push('/') =~= seq!['/']);
    }
    out
}


/// The decimal digit for a number below ten.
pub open spec fn digit_char(d: nat) -> char {
    if d == 0 {
        '0'
    } else if d == 1 {
        '1'
    } else if d == 2 {
        '2'
    } else if d == 3 {
        '3'
    } else if d == 4 {
        '4'
    } else if d == 5 {
        '5'
    } else if d == 6 {
        '6'
    } else if d == 7 {
        '7'
    } else if d == 8 {
        '8'
    } else {
        '9'
    }
}

/// The decimal digits of a natural number, most significant first.
pub open spec fn decimal_digits(n: nat) -> Seq<char>
    decreases n,
{
    if n < 10 {
        seq![digit_char(n)]
    } else {
        decimal_digits(n / 10).push(digit_char(n % 10))
    }
}

/// A whole number in decimal, with a minus sign where it is negative.
pub open spec fn decimal(n: int) -> Seq<char> {
    if n < 0 {
        seq!['-'] + decimal_digits((-n) as nat)
    } else {
        decimal_digits(n as nat)
    }
}

fn digit(d: u64) -> (c: char)
    requires
        d < 10,
    ensures
        c == digit_char(d as nat),
{
    if d == 0 {
        '0'
    } else if d == 1 {
        '1'
    } else if d == 2 {
        '2'
    } else if d == 3 {
        '3'
    } else if d == 4 {
        '4'
    } else if d == 5 {
        '5'
    } else if d == 6 {
        '6'
    } else if d == 7 {
        '7'
    } else if d == 8 {
        '8'
    } else {
        '9'
    }
}

/// Appends the decimal digits of `n`.
pub fn push_decimal_digits(out: &mut String, n: u64)
    ensures
        final(out)@ == old(out)@ + decimal_digits(n as nat),
    decreases n,
{
    if n >= 10 {
        push_decimal_digits(out, n / 10);
    }
    out.push(digit(n % 10));
    proof {
        if n >= 10 {
            assert(out@ =~= old(out)@ + decimal_digits(n as nat));
        } else {
            assert(out@ =~= old(out)@ + seq![digit_char(n as nat)]);
        }
    }
}

/// Appends a whole number in decimal.
pub fn push_decimal(out: &mut String, n: i64)
    ensures
        final(out)@ == old(out)@ + decimal(n as int),
{
    if n < 0 {
        out.push('-');
        let magnitude: u64 = if n == i64::MIN {
            9223372036854775808u64
        } else {
            (-n) as u64
        };
        push_decimal_digits(out, magnitude);
        proof {
            assert(out@ =~= old(out)@ + decimal(n as int));
        }
    } else {
        push_decimal_digits(out, n as u64);
    }
}

/// The position of the last `c` in `s`, or -1 where there is none.
pub open spec fn last_index_of(s: Seq<char>, c: char) -> int
    decreases s.len(),
{
    if s.len() == 0 {
        -1
    } else if s.last() == c {
        s.len() - 1
    } else {
        last_index_of(s.drop_last(), c)
    }
}

/// The last occurrence lies inside the text, or is -1.
pub proof fn lemma_last_index_of_range(s: Seq<char>, c: char)
    ensures
        -1 <= last_index_of(s, c) < s.len(),
    decreases s.len(),
{
    if s.len() > 0 && s.last() != c {
        lemma_last_index_of_range(s.drop_last(), c);
    }
}

/// Finds the last `c` in `s`, counting characters.
pub fn find_last(s: &str, c: char) -> (r: Option<usize>)
    ensures
        match r {
            Some(i) => i == last_index_of(s@, c),
            None => last_index_of(s@, c) == -1,
        },
{
    let mut found: Option<usize> = None;
    let len: usize = s.unicode_len();
    let mut i: usize = 0;
    for x in it: s.chars()
        invariant
            it.seq() == s@,
            s@.len() == len,
            i == it.index(),
            match found {
                Some(at) => at == last_index_of(s@.take(i as int), c),
                None => last_index_of(s@.take(i as int), c) == -1,
            },
    {
        proof {
            let grown = s@.take(i as int + 1);
            assert(grown.drop_last() == s@.take(i as int));
            assert(grown.last() == x);
        }
        if x == c {
            found = Some(i);
        }
        i += 1;
    }
    proof {
        assert(s@.take(s@.len() as int) == s@);
    }
    found
}

} // verus!
