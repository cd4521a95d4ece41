//! Text operations with exact contracts over sequences of characters.
use vstd::prelude::*;
use vstd::string::*;

verus! {

/// `s` without the characters equal to `c` that it starts with.
pub open spec fn strip_leading(s: Seq<char>, c: char) -> Seq<char>
    decreases s.len(),
{
    if s.len() > 0 && s.first() == c {
        strip_leading(s.drop_first(), c)
    } else {
        s
    }
}

/// `s` without the characters equal to `c` that it ends with.
pub open spec fn strip_trailing(s: Seq<char>, c: char) -> Seq<char>
    decreases s.len(),
{
    if s.len() > 0 && s.last() == c {
        strip_trailing(s.drop_last(), c)
    } else {
        s
    }
}

/// The characters with the Unicode property `White_Space`.
pub open spec fn whitespace(c: char) -> bool {
    ||| 0x9 <= c as u32 <= 0xd
    ||| c as u32 == 0x20
    ||| c as u32 == 0x85
    ||| c as u32 == 0xa0
    ||| c as u32 == 0x1680
    ||| 0x2000 <= c as u32 <= 0x200a
    ||| c as u32 == 0x2028
    ||| c as u32 == 0x2029
    ||| c as u32 == 0x202f
    ||| c as u32 == 0x205f
    ||| c as u32 == 0x3000
}

/// `s` without leading white space.
pub open spec fn trimmed_start(s: Seq<char>) -> Seq<char>
    decreases s.len(),
{
    if s.len() > 0 && whitespace(s.first()) {
        trimmed_start(s.drop_first())
    } else {
        s
    }
}

/// `s` without trailing white space.
pub open spec fn trimmed_end(s: Seq<char>) -> Seq<char>
    decreases s.len(),
{
    if s.len() > 0 && whitespace(s.last()) {
        trimmed_end(s.drop_last())
    } else {
        s
    }
}

/// `s` without leading and trailing white space.
pub open spec fn trimmed(s: Seq<char>) -> Seq<char> {
    trimmed_start(trimmed_end(s))
}

/// The pieces of `s` between the occurrences of `sep`: one more than there are occurrences.
pub open spec fn split(s: Seq<char>, sep: char) -> Seq<Seq<char>>
    decreases s.len(),
{
    if s.len() == 0 {
        seq![Seq::empty()]
    } else {
        let before = split(s.drop_last(), sep);
        if s.last() == sep {
            before.push(Seq::empty())
        } else {
            before.drop_last().push(before.last().push(s.last()))
        }
    }
}

/// The non-empty sequences among `parts`, in order.
pub open spec fn non_empty(parts: Seq<Seq<char>>) -> Seq<Seq<char>>
    decreases parts.len(),
{
    if parts.len() == 0 {
        parts
    } else {
        let before = non_empty(parts.drop_last());
        if parts.last().len() > 0 {
            before.push(parts.last())
        } else {
            before
        }
    }
}

/// The pieces of `s` between its white-space characters.
pub open spec fn split_white(s: Seq<char>) -> Seq<Seq<char>>
    decreases s.len(),
{
    if s.len() == 0 {
        seq![Seq::empty()]
    } else {
        let before = split_white(s.drop_last());
        if whitespace(s.last()) {
            before.push(Seq::empty())
        } else {
            before.drop_last().push(before.last().push(s.last()))
        }
    }
}

/// The words of `s`: its longest runs of characters that are not white space.
pub open spec fn words(s: Seq<char>) -> Seq<Seq<char>> {
    non_empty(split_white(s))
}

/// The first line of `s` without its line ending, a line feed or a carriage return and a line
/// feed. An empty text has no line.
pub open spec fn first_line(s: Seq<char>) -> Option<Seq<char>> {
    if s.len() == 0 {
        None
    } else if !s.contains('\n') {
        Some(s)
    } else {
        let line = split(s, '\n')[0];
        Some(
            if line.len() > 0 && line.last() == '\r' {
                line.drop_last()
            } else {
                line
            },
        )
    }
}

/// The index of the last `c` in `s`.
pub open spec fn is_last_index(s: Seq<char>, c: char, at: int) -> bool {
    &&& 0 <= at < s.len()
    &&& s[at] == c
    &&& forall|j: int| at < j < s.len() ==> s[j] != c
}

/// The last index at which `c` stands in `s`, or -1 where it stands nowhere.
pub open spec fn last_index(s: Seq<char>, c: char) -> int
    decreases s.len(),
{
    if s.len() == 0 {
        -1
    } else if s.last() == c {
        s.len() - 1
    } else {
        last_index(s.drop_last(), c)
    }
}

/// `parts`, one after the other, with `sep` between each two.
pub open spec fn joined(parts: Seq<Seq<char>>, sep: Seq<char>) -> Seq<char>
    decreases parts.len(),
{
    if parts.len() == 0 {
        Seq::empty()
    } else if parts.len() == 1 {
        parts[0]
    } else {
        joined(parts.drop_last(), sep) + sep + parts.last()
    }
}

/// `needle` stands in `hay`, starting at the index `at`.
pub open spec fn occurs_at(hay: Seq<char>, needle: Seq<char>, at: int) -> bool {
    &&& 0 <= at
    &&& at + needle.len() <= hay.len()
    &&& hay.subrange(at, at + needle.len()) == needle
}

/// `needle` stands somewhere in `hay`.
pub open spec fn occurs(hay: Seq<char>, needle: Seq<char>) -> bool {
    exists|at: int| #[trigger] occurs_at(hay, needle, at)
}

/// `n` in decimal digits, without leading zeros.
pub open spec fn decimal(n: nat) -> Seq<char>
    decreases n,
{
    if n < 10 {
        seq![digit(n)]
    } else {
        decimal(n / 10).push(digit(n % 10))
    }
}

/// The decimal digit of value `n`.
pub open spec fn digit(n: nat) -> char {
    (0x30 + n) as char
}

/// The characters of `s`, in order.
pub fn chars_of(s: &str) -> (r: Vec<char>)
    ensures
        r@ == s@,
{
    let mut out: Vec<char> = Vec::new();
    for c in it: s.chars()
        invariant
            it.seq() == s@,
            out@ == s@.take(it.index() as int),
    {
        out.push(c);
    }
    assert(s@.take(s@.len() as int) == s@);
    out
}

/// Whether two texts hold the same characters.
pub fn same_text(a: &str, b: &str) -> (r: bool)
    ensures
        r == (a@ == b@),
{
    let x = a.as_bytes();
    let y = b.as_bytes();
    proof {
        vstd::utf8::encode_utf8_decode_utf8(a@);
        vstd::utf8::encode_utf8_decode_utf8(b@);
    }
    if x.len() != y.len() {
        return false;
    }
    let mut i: usize = 0;
    while i < x.len()
        invariant
            x@.len() == y@.len(),
            i <= x@.len(),
            x@ == vstd::utf8::encode_utf8(a@),
            y@ == vstd::utf8::encode_utf8(b@),
            forall|j: int| 0 <= j < i ==> x@[j] == y@[j],
        decreases x@.len() - i,
    {
        if x[i] != y[i] {
            return false;
        }
        i += 1;
    }
    assert(x@ =~= y@);
    true
}

/// Leading characters equal to `c` make no difference to what is left.
proof fn lemma_strip_leading(s: Seq<char>, c: char, n: int)
    requires
        0 <= n <= s.len(),
        forall|j: int| 0 <= j < n ==> s[j] == c,
    ensures
        strip_leading(s, c) == strip_leading(s.skip(n), c),
    decreases n,
{
    if n == 0 {
        assert(s.skip(0) == s);
    } else {
        assert(s.first() == c);
        lemma_strip_leading(s.drop_first(), c, n - 1);
        assert(s.drop_first().skip(n - 1) == s.skip(n));
    }
}

/// Trailing characters equal to `c` make no difference to what is left.
proof fn lemma_strip_trailing(s: Seq<char>, c: char, n: int)
    requires
        0 <= n <= s.len(),
        forall|j: int| n <= j < s.len() ==> s[j] == c,
    ensures
        strip_trailing(s, c) == strip_trailing(s.take(n), c),
    decreases s.len() - n,
{
    if n == s.len() {
        assert(s.take(n) == s);
    } else {
        lemma_strip_trailing(s.drop_last(), c, n);
        assert(s.drop_last().take(n) == s.take(n));
    }
}

/// `s` without the characters equal to `c` that it starts with.
pub fn trim_start_matches(s: &str, c: char) -> (r: &str)
    ensures
        r@ == strip_leading(s@, c),
{
    let chars = chars_of(s);
    let mut i: usize = 0;
    while i < chars.len() && chars[i] == c
        invariant
            chars@ == s@,
            i <= chars@.len(),
            forall|j: int| 0 <= j < i ==> chars@[j] == c,
        decreases chars@.len() - i,
    {
        i += 1;
    }
    proof {
        lemma_strip_leading(s@, c, i as int);
        assert(s@.subrange(i as int, s@.len() as int) == s@.skip(i as int));
    }
    s.substring_char(i, chars.len())
}

/// `s` without the characters equal to `c` that it ends with.
pub fn trim_end_matches(s: &str, c: char) -> (r: &str)
    ensures
        r@ == strip_trailing(s@, c),
{
    let chars = chars_of(s);
    let mut n: usize = chars.len();
    while n > 0 && chars[n - 1] == c
        invariant
            chars@ == s@,
            n <= chars@.len(),
            forall|j: int| n <= j < chars@.len() ==> chars@[j] == c,
        decreases n,
    {
        n -= 1;
    }
    proof {
        lemma_strip_trailing(s@, c, n as int);
        assert(s@.subrange(0, n as int) == s@.take(n as int));
    }
    s.substring_char(0, n)
}

/// Whether `c` is white space.
pub fn is_whitespace(c: char) -> (r: bool)
    ensures
        r == whitespace(c),
{
    let u: u32 = c as u32;
    (0x9 <= u && u <= 0xd) || u == 0x20 || u == 0x85 || u == 0xa0 || u == 0x1680 || (0x2000 <= u
        && u <= 0x200a) || u == 0x2028 || u == 0x2029 || u == 0x202f || u == 0x205f || u == 0x3000
}

/// Leading white space makes no difference to what is left.
proof fn lemma_trimmed_start(s: Seq<char>, n: int)
    requires
        0 <= n <= s.len(),
        forall|j: int| 0 <= j < n ==> whitespace(s[j]),
    ensures
        trimmed_start(s) == trimmed_start(s.skip(n)),
    decreases n,
{
    if n == 0 {
        assert(s.skip(0) == s);
    } else {
        assert(whitespace(s.first()));
        lemma_trimmed_start(s.drop_first(), n - 1);
        assert(s.drop_first().skip(n - 1) == s.skip(n));
    }
}

/// Trailing white space makes no difference to what is left.
proof fn lemma_trimmed_end(s: Seq<char>, n: int)
    requires
        0 <= n <= s.len(),
        forall|j: int| n <= j < s.len() ==> whitespace(s[j]),
    ensures
        trimmed_end(s) == trimmed_end(s.take(n)),
    decreases s.len() - n,
{
    if n == s.len() {
        assert(s.take(n) == s);
    } else {
        assert(whitespace(s.last()));
        lemma_trimmed_end(s.drop_last(), n);
        assert(s.drop_last().take(n) == s.take(n));
    }
}

/// `s` without leading white space.
pub fn trim_start(s: &str) -> (r: &str)
    ensures
        r@ == trimmed_start(s@),
{
    let chars = chars_of(s);
    let mut i: usize = 0;
    while i < chars.len() && is_whitespace(chars[i])
        invariant
            chars@ == s@,
            i <= chars@.len(),
            forall|j: int| 0 <= j < i ==> whitespace(chars@[j]),
        decreases chars@.len() - i,
    {
        i += 1;
    }
    proof {
        lemma_trimmed_start(s@, i as int);
        assert(s@.subrange(i as int, s@.len() as int) == s@.skip(i as int));
    }
    s.substring_char(i, chars.len())
}

/// `s` without trailing white space.
pub fn trim_end(s: &str) -> (r: &str)
    ensures
        r@ == trimmed_end(s@),
{
    let chars = chars_of(s);
    let mut n: usize = chars.len();
    while n > 0 && is_whitespace(chars[n - 1])
        invariant
            chars@ == s@,
            n <= chars@.len(),
            forall|j: int| n <= j < chars@.len() ==> whitespace(chars@[j]),
        decreases n,
    {
        n -= 1;
    }
    proof {
        lemma_trimmed_end(s@, n as int);
        assert(s@.subrange(0, n as int) == s@.take(n as int));
    }
    s.substring_char(0, n)
}

/// `s` without leading and trailing white space.
pub fn trim(s: &str) -> (r: &str)
    ensures
        r@ == trimmed(s@),
{
    trim_start(trim_end(s))
}

/// There is at least one piece.
proof fn lemma_split_len(s: Seq<char>, sep: char)
    ensures
        split(s, sep).len() >= 1,
    decreases s.len(),
{
    if s.len() > 0 {
        lemma_split_len(s.drop_last(), sep);
    }
}

/// The pieces of `s` between the occurrences of `sep`.
pub fn split_text(s: &str, sep: char) -> (r: Vec<String>)
    ensures
        r.deep_view() == split(s@, sep),
        r@.len() >= 1,
{
    let chars = chars_of(s);
    let mut parts: Vec<String> = Vec::new();
    let mut start: usize = 0;
    let mut i: usize = 0;
    assert(s@.take(0) == Seq::<char>::empty());
    assert(s@.subrange(0, 0) == Seq::<char>::empty());
    while i < chars.len()
        invariant
            chars@ == s@,
            start <= i <= chars@.len(),
            split(s@.take(i as int), sep) == parts.deep_view().push(
                s@.subrange(start as int, i as int),
            ),
        decreases chars@.len() - i,
    {
        let ghost before = parts.deep_view();
        proof {
            assert(s@.take(i + 1).drop_last() == s@.take(i as int));
            assert(s@.take(i + 1).last() == s@[i as int]);
            assert(before.push(s@.subrange(start as int, i as int)).drop_last() == before);
        }
        if chars[i] == sep {
            parts.push(s.substring_char(start, i).to_owned());
            assert(parts.deep_view() == before.push(s@.subrange(start as int, i as int)));
            start = i + 1;
            assert(s@.subrange(start as int, i + 1) == Seq::<char>::empty());
        } else {
            assert(s@.subrange(start as int, i as int).push(s@[i as int]) == s@.subrange(
                start as int,
                i + 1,
            ));
        }
        i += 1;
    }
    let ghost before = parts.deep_view();
    assert(s@.take(s@.len() as int) == s@);
    parts.push(s.substring_char(start, i).to_owned());
    assert(parts.deep_view() == before.push(s@.subrange(start as int, i as int)));
    proof {
        lemma_split_len(s@, sep);
    }
    parts
}

/// A piece at the end is kept where it is not empty.
proof fn lemma_non_empty_push(parts: Seq<Seq<char>>, part: Seq<char>)
    ensures
        non_empty(parts.push(part)) == if part.len() > 0 {
            non_empty(parts).push(part)
        } else {
            non_empty(parts)
        },
{
    assert(parts.push(part).drop_last() == parts);
}

/// The non-empty ones among `parts`, in order.
pub fn keep_non_empty(parts: Vec<String>) -> (r: Vec<String>)
    ensures
        r.deep_view() == non_empty(parts.deep_view()),
{
    let mut out: Vec<String> = Vec::new();
    let mut i: usize = 0;
    assert(parts.deep_view().take(0) == Seq::<Seq<char>>::empty());
    assert(out.deep_view() == Seq::<Seq<char>>::empty());
    while i < parts.len()
        invariant
            i <= parts@.len(),
            out.deep_view() == non_empty(parts.deep_view().take(i as int)),
        decreases parts@.len() - i,
    {
        let ghost before = out.deep_view();
        proof {
            assert(parts.deep_view().take(i + 1) == parts.deep_view().take(i as int).push(
                parts@[i as int]@,
            ));
            lemma_non_empty_push(parts.deep_view().take(i as int), parts@[i as int]@);
        }
        if !parts[i].as_str().is_empty() {
            out.push(parts[i].clone());
            assert(out.deep_view() == before.push(parts@[i as int]@));
        }
        i += 1;
    }
    assert(parts.deep_view().take(i as int) == parts.deep_view());
    out
}

/// The words of `s`.
pub fn words_of(s: &str) -> (r: Vec<String>)
    ensures
        r.deep_view() == words(s@),
{
    let chars = chars_of(s);
    let mut parts: Vec<String> = Vec::new();
    let mut start: usize = 0;
    let mut i: usize = 0;
    assert(s@.take(0) == Seq::<char>::empty());
    assert(s@.subrange(0, 0) == Seq::<char>::empty());
    while i < chars.len()
        invariant
            chars@ == s@,
            start <= i <= chars@.len(),
            split_white(s@.take(i as int)) == parts.deep_view().push(
                s@.subrange(start as int, i as int),
            ),
        decreases chars@.len() - i,
    {
        let ghost before = parts.deep_view();
        proof {
            assert(s@.take(i + 1).drop_last() == s@.take(i as int));
            assert(s@.take(i + 1).last() == s@[i as int]);
            assert(before.push(s@.subrange(start as int, i as int)).drop_last() == before);
        }
        if is_whitespace(chars[i]) {
            parts.push(s.substring_char(start, i).to_owned());
            assert(parts.deep_view() == before.push(s@.subrange(start as int, i as int)));
            start = i + 1;
            assert(s@.subrange(start as int, i + 1) == Seq::<char>::empty());
        } else {
            assert(s@.subrange(start as int, i as int).push(s@[i as int]) == s@.subrange(
                start as int,
                i + 1,
            ));
        }
        i += 1;
    }
    let ghost before = parts.deep_view();
    assert(s@.take(s@.len() as int) == s@);
    parts.push(s.substring_char(start, i).to_owned());
    assert(parts.deep_view() == before.push(s@.subrange(start as int, i as int)));
    keep_non_empty(parts)
}

/// The first piece ends at the first `sep`.
proof fn lemma_split_first(s: Seq<char>, sep: char, n: int)
    requires
        0 <= n <= s.len(),
        forall|j: int| 0 <= j < n ==> s[j] != sep,
        n < s.len() ==> s[n] == sep,
    ensures
        split(s, sep).len() >= 1,
        split(s, sep)[0] == s.take(n),
        n == s.len() ==> split(s, sep).len() == 1,
        n < s.len() ==> split(s, sep).len() >= 2,
    decreases s.len(),
{
    if s.len() == 0 {
        assert(s.take(n) == Seq::<char>::empty());
    } else if n == s.len() {
        lemma_split_first(s.drop_last(), sep, n - 1);
        assert(s.drop_last().take(n - 1).push(s.last()) == s.take(n));
    } else if n == s.len() - 1 {
        lemma_split_first(s.drop_last(), sep, n);
        assert(s.drop_last().take(n) == s.take(n));
    } else {
        lemma_split_first(s.drop_last(), sep, n);
        assert(s.drop_last().take(n) == s.take(n));
    }
}

/// The first line of `s`.
pub fn first_line_of(s: &str) -> (r: Option<&str>)
    ensures
        match r {
            Some(line) => first_line(s@) == Some(line@),
            None => first_line(s@) is None,
        },
{
    if s.is_empty() {
        return None;
    }
    let chars = chars_of(s);
    let mut n: usize = 0;
    while n < chars.len() && chars[n] != '\n'
        invariant
            chars@ == s@,
            n <= chars@.len(),
            forall|j: int| 0 <= j < n ==> chars@[j] != '\n',
        decreases chars@.len() - n,
    {
        n += 1;
    }
    if n == chars.len() {
        assert(s@.subrange(0, n as int) == s@);
        return Some(s);
    }
    proof {
        assert(s@[n as int] == '\n');
        lemma_split_first(s@, '\n', n as int);
        assert(s@.subrange(0, n as int) == s@.take(n as int));
    }
    if n > 0 && chars[n - 1] == '\r' {
        assert(s@.subrange(0, n - 1) == s@.take(n as int).drop_last());
        Some(s.substring_char(0, n - 1))
    } else {
        Some(s.substring_char(0, n))
    }
}

/// The index of the last `c` in `s`, counted in characters.
pub fn rfind(s: &str, c: char) -> (r: Option<usize>)
    ensures
        match r {
            Some(at) => is_last_index(s@, c, at as int),
            None => !s@.contains(c),
        },
{
    let chars = chars_of(s);
    let mut n: usize = chars.len();
    while n > 0
        invariant
            chars@ == s@,
            n <= chars@.len(),
            forall|j: int| n <= j < chars@.len() ==> chars@[j] != c,
        decreases n,
    {
        n -= 1;
        if chars[n] == c {
            return Some(n);
        }
    }
    None
}

/// Whether `s` starts with `prefix`.
pub fn starts_with(s: &str, prefix: &str) -> (r: bool)
    ensures
        r == prefix@.is_prefix_of(s@),
{
    let chars = chars_of(s);
    let start = chars_of(prefix);
    if start.len() > chars.len() {
        return false;
    }
    let mut i: usize = 0;
    while i < start.len()
        invariant
            chars@ == s@,
            start@ == prefix@,
            i <= start@.len() <= chars@.len(),
            forall|j: int| 0 <= j < i ==> chars@[j] == start@[j],
        decreases start@.len() - i,
    {
        if chars[i] != start[i] {
            return false;
        }
        i += 1;
    }
    assert(prefix@ == s@.subrange(0, prefix@.len() as int));
    true
}

/// Whether `needle` stands somewhere in `hay`.
pub fn contains(hay: &str, needle: &str) -> (r: bool)
    ensures
        r == occurs(hay@, needle@),
{
    let h = chars_of(hay);
    let n = chars_of(needle);
    if n.len() > h.len() {
        return false;
    }
    let total: usize = h.len();
    let last: usize = total - n.len();
    let mut at: usize = 0;
    while at <= last
        invariant
            h@ == hay@,
            n@ == needle@,
            n@.len() <= h@.len(),
            h@.len() == total,
            last == total - n@.len(),
            at <= last + 1,
            forall|k: int| 0 <= k < at ==> !occurs_at(hay@, needle@, k),
        decreases last + 1 - at,
    {
        let mut i: usize = 0;
        while i < n.len() && h[at + i] == n[i]
            invariant
                h@ == hay@,
                n@ == needle@,
                h@.len() == total,
                at + n@.len() <= total,
                i <= n@.len(),
                forall|j: int| 0 <= j < i ==> h@[at + j] == n@[j],
            decreases n@.len() - i,
        {
            i += 1;
        }
        if i == n.len() {
            assert(hay@.subrange(at as int, at + needle@.len()) == needle@);
            assert(occurs_at(hay@, needle@, at as int));
            return true;
        }
        proof {
            if occurs_at(hay@, needle@, at as int) {
                assert(hay@.subrange(at as int, at + needle@.len())[i as int] == needle@[i as int]);
                assert(false);
            }
        }
        if at == last {
            return false;
        }
        at += 1;
    }
    false
}

/// `parts`, one after the other, with `sep` between each two.
pub fn join(parts: &[String], sep: &str) -> (r: String)
    ensures
        r@ == joined(parts@.map_values(|p: String| p@), sep@),
{
    let mut out = String::new();
    let mut i: usize = 0;
    let ghost texts = parts@.map_values(|p: String| p@);
    assert(texts.take(0) == Seq::<Seq<char>>::empty());
    while i < parts.len()
        invariant
            i <= parts@.len(),
            texts == parts@.map_values(|p: String| p@),
            out@ == joined(texts.take(i as int), sep@),
        decreases parts@.len() - i,
    {
        proof {
            assert(texts.take(i + 1).drop_last() == texts.take(i as int));
            assert(texts.take(i + 1).last() == parts@[i as int]@);
        }
        if i > 0 {
            out.append(sep);
            out.append(parts[i].as_str());
        } else {
            out.append(parts[i].as_str());
            assert(texts.take(1)[0] == parts@[0]@);
            assert(out@ == parts@[0]@);
        }
        i += 1;
    }
    assert(texts.take(i as int) == texts);
    out
}

/// The decimal digit of value `n`.
fn digit_text(n: u64) -> (r: &'static str)
    requires
        n < 10,
    ensures
        r@ == seq![digit(n as nat)],
{
    proof {
        reveal_strlit("0");
        reveal_strlit("1");
        reveal_strlit("2");
        reveal_strlit("3");
        reveal_strlit("4");
        reveal_strlit("5");
        reveal_strlit("6");
        reveal_strlit("7");
        reveal_strlit("8");
        reveal_strlit("9");
    }
    if n == 0 {
        "0"
    } else if n == 1 {
        "1"
    } else if n == 2 {
        "2"
    } else if n == 3 {
        "3"
    } else if n == 4 {
        "4"
    } else if n == 5 {
        "5"
    } else if n == 6 {
        "6"
    } else if n == 7 {
        "7"
    } else if n == 8 {
        "8"
    } else {
        "9"
    }
}

/// `n` in decimal.
pub fn decimal_text(n: u64) -> (r: String)
    ensures
        r@ == decimal(n as nat),
    decreases n,
{
    if n < 10 {
        digit_text(n).to_owned()
    } else {
        let mut out = decimal_text(n / 10);
        out.append(digit_text(n % 10));
        out
    }
}

/// The bytes of a character other than the line feed are none of them a line feed.
proof fn lemma_scalar_line_feed(scalar: u32)
    requires
        vstd::utf8::is_scalar(scalar),
        scalar != 0x0a,
    ensures
        !vstd::utf8::encode_scalar(scalar).contains(0x0au8),
{
    assert(vstd::utf8::has_width_1_encoding(scalar) ==> (scalar & 0x7f) as u8 != 0x0au8) by {
        assert(scalar <= 0x7f && scalar != 0x0a ==> (scalar & 0x7f) as u8 != 0x0au8)
            by (bit_vector);
    }
    assert(0xC0u8 | ((scalar >> 6) & 0x1F) as u8 != 0x0au8) by (bit_vector);
    assert(0xE0u8 | ((scalar >> 12) & 0x0F) as u8 != 0x0au8) by (bit_vector);
    assert(0xF0u8 | ((scalar >> 18) & 0x7) as u8 != 0x0au8) by (bit_vector);
    assert(0x80u8 | (scalar & 0x3F) as u8 != 0x0au8) by (bit_vector);
    assert(0x80u8 | ((scalar >> 6) & 0x3F) as u8 != 0x0au8) by (bit_vector);
    assert(0x80u8 | ((scalar >> 12) & 0x3F) as u8 != 0x0au8) by (bit_vector);
}

/// A text without a line feed has no line feed among its bytes.
pub proof fn lemma_no_line_feed(s: Seq<char>)
    requires
        !s.contains('\n'),
    ensures
        !vstd::utf8::encode_utf8(s).contains(0x0au8),
    decreases s.len(),
{
    if s.len() > 0 {
        let rest = s.drop_first();
        assert forall|i: int| 0 <= i < rest.len() implies rest[i] != '\n' by {
            assert(rest[i] == s[i + 1]);
        }
        lemma_no_line_feed(rest);
        let first: char = s[0];
        assert(first != '\n');
        vstd::utf8::char_is_scalar(first);
        vstd::utf8::char_u32_cast(first, first as u32);
        lemma_scalar_line_feed(first as u32);
        let head = vstd::utf8::encode_scalar(s[0] as u32);
        let tail = vstd::utf8::encode_utf8(rest);
        assert forall|i: int| 0 <= i < (head + tail).len() implies (head + tail)[i] != 0x0au8 by {
            if i < head.len() {
                assert(head.contains(head[i]));
            } else {
                assert(tail.contains(tail[i - head.len()]));
            }
        }
    }
}

/// The two ways to speak of the last index agree.
pub proof fn lemma_last_index(s: Seq<char>, c: char)
    ensures
        s.contains(c) ==> is_last_index(s, c, last_index(s, c)),
        !s.contains(c) ==> last_index(s, c) == -1,
        forall|at: int| #[trigger] is_last_index(s, c, at) ==> at == last_index(s, c),
    decreases s.len(),
{
    if s.len() > 0 {
        let before = s.drop_last();
        lemma_last_index(before, c);
        if s.last() == c {
            assert(s[s.len() - 1] == c);
        } else {
            if s.contains(c) {
                let i = choose|i: int| 0 <= i < s.len() && s[i] == c;
                assert(before[i] == c);
                let at = last_index(before, c);
                assert(is_last_index(before, c, at));
                assert forall|j: int| at < j < s.len() implies s[j] != c by {
                    if j < before.len() {
                        assert(before[j] != c);
                    }
                }
            }
            if before.contains(c) {
                let i = choose|i: int| 0 <= i < before.len() && before[i] == c;
                assert(s[i] == c);
            }
            assert forall|at: int| #[trigger] is_last_index(s, c, at) implies at == last_index(
                s,
                c,
            ) by {
                assert(before[at] == c);
                assert(is_last_index(before, c, at));
            }
        }
    }
}

/// A text without `sep` is one piece.
pub proof fn lemma_split_single(s: Seq<char>, sep: char)
    requires
        !s.contains(sep),
    ensures
        split(s, sep) == seq![s],
    decreases s.len(),
{
    if s.len() == 0 {
        assert(s =~= Seq::empty());
    } else {
        let before = s.drop_last();
        assert forall|i: int| 0 <= i < before.len() implies before[i] != sep by {
            assert(before[i] == s[i]);
        }
        lemma_split_single(before, sep);
        assert(s[s.len() - 1] == s.last());
        assert(before.push(s.last()) =~= s);
        assert(split(s, sep) =~= seq![s]);
    }
}

/// What follows the last `sep` is the last piece; the pieces before it are those of what stands
/// before it.
pub proof fn lemma_split_last(s: Seq<char>, sep: char, last: Seq<char>)
    requires
        !last.contains(sep),
    ensures
        split(s.push(sep) + last, sep) == split(s, sep).push(last),
    decreases last.len(),
{
    let whole = s.push(sep) + last;
    if last.len() == 0 {
        assert(last =~= Seq::empty());
        assert(whole =~= s.push(sep));
        assert(whole.drop_last() =~= s);
    } else {
        let before = last.drop_last();
        assert forall|i: int| 0 <= i < before.len() implies before[i] != sep by {
            assert(before[i] == last[i]);
        }
        lemma_split_last(s, sep, before);
        assert(last[last.len() - 1] == last.last());
        assert(whole.drop_last() =~= s.push(sep) + before);
        assert(before.push(last.last()) =~= last);
        assert(split(whole, sep) =~= split(s, sep).push(last));
    }
}

/// The text that stands for bytes of which some are not UTF-8.
pub uninterp spec fn utf8_lossy(bytes: Seq<u8>) -> Seq<char>;

/// Whether Unicode calls a character a letter or a number.
pub uninterp spec fn alphanumeric(c: char) -> bool;

/// Reads bytes as UTF-8 (`String::from_utf8`); `None` where they are not.
#[verifier::external_body]
pub(crate) fn utf8_text(bytes: Vec<u8>) -> (r: Option<String>)
    ensures
        match r {
            Some(s) => vstd::utf8::valid_utf8(bytes@) && s@ == vstd::utf8::decode_utf8(bytes@),
            None => !vstd::utf8::valid_utf8(bytes@),
        },
{
    String::from_utf8(bytes).ok()
}

/// Reads bytes as UTF-8, with U+FFFD in place of what is not (`String::from_utf8_lossy`). Bytes
/// that are UTF-8 are read as they are.
#[verifier::external_body]
pub(crate) fn lossy_text(bytes: &[u8]) -> (r: String)
    ensures
        r@ == utf8_lossy(bytes@),
        vstd::utf8::valid_utf8(bytes@) ==> r@ == vstd::utf8::decode_utf8(bytes@),
{
    String::from_utf8_lossy(bytes).into_owned()
}

/// Whether Unicode calls a character a letter or a number (`char::is_alphanumeric`). The ASCII
/// letters and digits are, the other ASCII characters are not.
#[verifier::external_body]
pub(crate) fn is_alphanumeric(c: char) -> (r: bool)
    ensures
        r == alphanumeric(c),
        ('0' <= c <= '9' || 'A' <= c <= 'Z' || 'a' <= c <= 'z') ==> r,
        r && c as u32 <= 0x7f ==> ('0' <= c <= '9' || 'A' <= c <= 'Z' || 'a' <= c <= 'z'),
{
    c.is_alphanumeric()
}

/// `c`, `n` times.
pub open spec fn repeated(c: char, n: nat) -> Seq<char> {
    Seq::new(n, |i: int| c)
}

/// Stripping takes away every `c` at that end and nothing else: a text that does not itself end
/// with `c` is what is left of it and any number of `c`.
pub proof fn law_strip(s: Seq<char>, c: char, n: nat)
    ensures
        s.len() == 0 || s.last() != c ==> strip_trailing(s + repeated(c, n), c) == s,
        s.len() == 0 || s.first() != c ==> strip_leading(repeated(c, n) + s, c) == s,
    decreases n,
{
    if n == 0 {
        assert(s + repeated(c, 0) =~= s);
        assert(repeated(c, 0) + s =~= s);
    } else {
        let fewer = (n - 1) as nat;
        law_strip(s, c, fewer);
        let after = s + repeated(c, n);
        assert(after.last() == c);
        assert(after.drop_last() =~= s + repeated(c, fewer));
        let before = repeated(c, n) + s;
        assert(before.first() == c);
        assert(before.drop_first() =~= repeated(c, fewer) + s);
    }
}

/// White space is the blank and the controls from the tab to the carriage return, as far as ASCII
/// goes, and no character beyond the ideographic space.
pub proof fn law_white_space(c: char)
    ensures
        c as u32 <= 0x7f ==> (whitespace(c) <==> c == ' ' || ('\t' <= c <= '\r')),
        c as u32 > 0x3000 ==> !whitespace(c),
{
}

/// Trimming takes away the white space at the ends and nothing else.
pub proof fn law_trim(before: Seq<char>, s: Seq<char>, after: Seq<char>)
    requires
        forall|i: int| 0 <= i < before.len() ==> whitespace(#[trigger] before[i]),
        forall|i: int| 0 <= i < after.len() ==> whitespace(#[trigger] after[i]),
        s.len() > 0 ==> !whitespace(s.first()) && !whitespace(s.last()),
    ensures
        trimmed(before + s + after) == s,
        s.len() > 0 || before.len() == 0 ==> trimmed_end(before + s + after) == before + s,
        s.len() > 0 || after.len() == 0 ==> trimmed_start(before + s + after) == s + after,
{
    let whole = before + s + after;
    let n = before.len() + s.len();
    assert forall|j: int| n <= j < whole.len() implies whitespace(whole[j]) by {
        assert(whole[j] == after[j - n]);
    }
    lemma_trimmed_end(whole, n as int);
    assert(whole.take(n as int) =~= before + s);
    if s.len() > 0 {
        assert((before + s).last() == s.last());
        lemma_trimmed_start(before + s, before.len() as int);
        assert((before + s).skip(before.len() as int) =~= s);
        lemma_trimmed_start(whole, before.len() as int);
        assert(whole.skip(before.len() as int) =~= s + after);
        assert((s + after).first() == s.first());
    } else {
        assert forall|j: int| 0 <= j < whole.len() implies whitespace(whole[j]) by {
            if j < before.len() {
                assert(whole[j] == before[j]);
            } else {
                assert(whole[j] == after[j - before.len()]);
            }
        }
        lemma_trimmed_end(whole, 0);
        assert(whole.take(0) =~= Seq::empty());
        assert(trimmed_end(whole) =~= Seq::empty());
        assert(trimmed_start(trimmed_end(whole)) =~= s);
        if before.len() == 0 {
            assert(before + s =~= Seq::empty());
        }
        if after.len() == 0 {
            lemma_trimmed_start(whole, whole.len() as int);
            assert(whole.skip(whole.len() as int) =~= Seq::empty());
            assert(s + after =~= Seq::empty());
        }
    }
}

/// Of the pieces exactly those that are empty are left out.
pub proof fn law_non_empty(parts: Seq<Seq<char>>)
    ensures
        non_empty(parts) == parts.filter(|p: Seq<char>| p.len() > 0),
    decreases parts.len(),
{
    reveal(Seq::filter);
    if parts.len() > 0 {
        law_non_empty(parts.drop_last());
    }
}

/// Joining with `sep` and splitting at `sep` are inverse to each other.
pub proof fn law_split_join(s: Seq<char>, parts: Seq<Seq<char>>, sep: char)
    ensures
        joined(split(s, sep), seq![sep]) == s,
        (parts.len() > 0 && forall|i: int| 0 <= i < parts.len() ==> !(#[trigger] parts[i]).contains(
            sep,
        )) ==> split(joined(parts, seq![sep]), sep) == parts,
{
    lemma_join_split(s, sep);
    if parts.len() > 0 && forall|i: int|
        0 <= i < parts.len() ==> !(#[trigger] parts[i]).contains(sep) {
        lemma_split_join(parts, sep);
    }
}

/// The pieces, joined, are the text.
proof fn lemma_join_split(s: Seq<char>, sep: char)
    ensures
        joined(split(s, sep), seq![sep]) == s,
        split(s, sep).len() >= 1,
    decreases s.len(),
{
    if s.len() == 0 {
        assert(split(s, sep) =~= seq![Seq::empty()]);
        assert(joined(split(s, sep), seq![sep]) =~= s);
    } else {
        let before = split(s.drop_last(), sep);
        lemma_join_split(s.drop_last(), sep);
        let whole = joined(before, seq![sep]);
        if s.last() == sep {
            let parts = before.push(Seq::empty());
            assert(parts.drop_last() =~= before);
            assert(joined(parts, seq![sep]) =~= whole + seq![sep]);
            assert(whole + seq![sep] =~= s);
        } else {
            let last = before.last().push(s.last());
            let parts = before.drop_last().push(last);
            assert(parts.drop_last() =~= before.drop_last());
            if before.len() == 1 {
                assert(joined(parts, seq![sep]) =~= last);
                assert(last =~= s);
            } else {
                assert(joined(parts, seq![sep]) == joined(before.drop_last(), seq![sep]) + seq![sep]
                    + last);
                let head = joined(before.drop_last(), seq![sep]) + seq![sep];
                assert(whole == head + before.last());
                assert(head + last =~= whole.push(s.last()));
                assert(whole.push(s.last()) =~= s);
            }
        }
    }
}

/// The pieces of joined pieces.
proof fn lemma_split_join(parts: Seq<Seq<char>>, sep: char)
    requires
        parts.len() > 0,
        forall|i: int| 0 <= i < parts.len() ==> !(#[trigger] parts[i]).contains(sep),
    ensures
        split(joined(parts, seq![sep]), sep) == parts,
    decreases parts.len(),
{
    if parts.len() == 1 {
        lemma_split_single(parts[0], sep);
        assert(seq![parts[0]] =~= parts);
    } else {
        let before = parts.drop_last();
        assert forall|i: int| 0 <= i < before.len() implies !(#[trigger] before[i]).contains(sep) by {
            assert(before[i] == parts[i]);
        }
        lemma_split_join(before, sep);
        let whole = joined(before, seq![sep]);
        assert(!parts[parts.len() - 1].contains(sep));
        lemma_split_last(whole, sep, parts.last());
        assert(whole + seq![sep] + parts.last() =~= whole.push(sep) + parts.last());
        assert(before.push(parts.last()) =~= parts);
    }
}

/// White space divides a text into words, of which none is empty and none holds white space.
pub proof fn law_words(a: Seq<char>, white: char, b: Seq<char>)
    requires
        whitespace(white),
    ensures
        words(a.push(white) + b) == words(a) + words(b),
        (forall|i: int| 0 <= i < b.len() ==> !whitespace(#[trigger] b[i])) ==> words(b) == (
        if b.len() > 0 {
            seq![b]
        } else {
            Seq::<Seq<char>>::empty()
        }),
{
    lemma_split_white(a, white, b);
    lemma_non_empty_concat(split_white(a), split_white(b));
    if forall|i: int| 0 <= i < b.len() ==> !whitespace(#[trigger] b[i]) {
        lemma_split_white_single(b);
        assert(seq![b].drop_last() =~= Seq::empty());
        assert(non_empty(Seq::<Seq<char>>::empty()) =~= Seq::empty());
        assert(seq![b].last() == b);
        assert(words(b) =~= if b.len() > 0 {
            seq![b]
        } else {
            Seq::<Seq<char>>::empty()
        });
    }
}

/// A text without white space is one piece.
proof fn lemma_split_white_single(s: Seq<char>)
    requires
        forall|i: int| 0 <= i < s.len() ==> !whitespace(#[trigger] s[i]),
    ensures
        split_white(s) == seq![s],
    decreases s.len(),
{
    if s.len() == 0 {
        assert(s =~= Seq::empty());
    } else {
        let before = s.drop_last();
        lemma_split_white_single(before);
        assert(!whitespace(s[s.len() - 1]));
        assert(before.push(s.last()) =~= s);
        assert(split_white(s) =~= seq![s]);
    }
}

/// White space between two texts separates their pieces.
proof fn lemma_split_white(a: Seq<char>, white: char, b: Seq<char>)
    requires
        whitespace(white),
    ensures
        split_white(a.push(white) + b) == split_white(a) + split_white(b),
        split_white(b).len() >= 1,
    decreases b.len(),
{
    let whole = a.push(white) + b;
    if b.len() == 0 {
        assert(whole =~= a.push(white));
        assert(whole.drop_last() =~= a);
        assert(split_white(whole) =~= split_white(a) + split_white(b));
    } else {
        let before = b.drop_last();
        lemma_split_white(a, white, before);
        assert(whole.drop_last() =~= a.push(white) + before);
        assert(split_white(whole) =~= split_white(a) + split_white(b));
    }
}

/// The non-empty pieces of two lists of pieces.
proof fn lemma_non_empty_concat(a: Seq<Seq<char>>, b: Seq<Seq<char>>)
    ensures
        non_empty(a + b) == non_empty(a) + non_empty(b),
    decreases b.len(),
{
    if b.len() == 0 {
        assert(a + b =~= a);
        assert(non_empty(a) + non_empty(b) =~= non_empty(a));
    } else {
        lemma_non_empty_concat(a, b.drop_last());
        assert((a + b).drop_last() =~= a + b.drop_last());
        assert(non_empty(a + b) =~= non_empty(a) + non_empty(b));
    }
}

/// The first line ends before the first line feed; a carriage return right before that is no part
/// of it. A text without a line feed is one line, and an empty text has none.
pub proof fn law_first_line(line: Seq<char>, rest: Seq<char>)
    requires
        !line.contains('\n'),
    ensures
        first_line(line.push('\n') + rest) == Some(
            if line.len() > 0 && line.last() == '\r' {
                line.drop_last()
            } else {
                line
            },
        ),
        line.len() > 0 ==> first_line(line) == Some(line),
        first_line(Seq::empty()) is None,
{
    let whole = line.push('\n') + rest;
    let n = line.len() as int;
    assert(whole[n] == '\n');
    assert forall|j: int| 0 <= j < n implies whole[j] != '\n' by {
        assert(whole[j] == line[j]);
    }
    lemma_split_first(whole, '\n', n);
    assert(whole.take(n) =~= line);
}

/// A text stands in another exactly when the other is that text with something before and after
/// it.
pub proof fn law_occurs(before: Seq<char>, needle: Seq<char>, after: Seq<char>, hay: Seq<char>)
    ensures
        occurs(before + needle + after, needle),
        occurs(hay, needle) ==> exists|a: Seq<char>, b: Seq<char>| hay == #[trigger] (a + needle
            + b),
{
    let whole = before + needle + after;
    let at = before.len() as int;
    assert(whole.subrange(at, at + needle.len()) =~= needle);
    assert(occurs_at(whole, needle, at));
    if occurs(hay, needle) {
        let at = choose|at: int| #[trigger] occurs_at(hay, needle, at);
        let a = hay.take(at);
        let b = hay.skip(at + needle.len());
        assert(hay =~= a + needle + b);
    }
}

/// The number that a text of decimal digits stands for.
pub open spec fn number_of(s: Seq<char>) -> int
    decreases s.len(),
{
    if s.len() == 0 {
        0
    } else {
        10 * number_of(s.drop_last()) + (s.last() as u32 - '0' as u32)
    }
}

/// Every character is a decimal digit, and the first of several is not zero.
pub open spec fn is_decimal(s: Seq<char>) -> bool {
    &&& s.len() > 0
    &&& forall|i: int| 0 <= i < s.len() ==> '0' <= #[trigger] s[i] <= '9'
    &&& s.len() > 1 ==> s[0] != '0'
}

/// A number in decimal is made of digits, without leading zeros, and reads as that number.
pub proof fn law_decimal(n: nat)
    ensures
        is_decimal(decimal(n)),
        number_of(decimal(n)) == n,
    decreases n,
{
    let d = digit(n % 10);
    assert('0' <= d <= '9' && d as u32 - '0' as u32 == n % 10);
    if n < 10 {
        assert(decimal(n) =~= seq![d]);
        assert(seq![d].drop_last() =~= Seq::empty());
        assert(number_of(Seq::empty()) == 0);
        assert(seq![d].last() == d);
    } else {
        law_decimal(n / 10);
        let before = decimal(n / 10);
        let whole = before.push(d);
        assert(whole.drop_last() =~= before);
        assert forall|i: int| 0 <= i < whole.len() implies '0' <= #[trigger] whole[i] <= '9' by {
            if i < before.len() {
                assert(whole[i] == before[i]);
            }
        }
        assert(whole[0] == before[0]);
        if before.len() == 1 {
            assert(before.drop_last() =~= Seq::<char>::empty());
            assert(number_of(Seq::<char>::empty()) == 0);
            assert(before.last() == before[0]);
            assert(number_of(before) == before[0] as u32 - '0' as u32);
        }
    }
}

/// A separator between two texts separates their pieces.
pub proof fn law_split_between(a: Seq<char>, sep: char, b: Seq<char>)
    ensures
        split(a.push(sep) + b, sep) == split(a, sep) + split(b, sep),
    decreases b.len(),
{
    let whole = a.push(sep) + b;
    lemma_split_len(b, sep);
    if b.len() == 0 {
        assert(whole =~= a.push(sep));
        assert(whole.drop_last() =~= a);
        assert(split(whole, sep) =~= split(a, sep) + split(b, sep));
    } else {
        let before = b.drop_last();
        law_split_between(a, sep, before);
        lemma_split_len(before, sep);
        assert(whole.drop_last() =~= a.push(sep) + before);
        assert(split(whole, sep) =~= split(a, sep) + split(b, sep));
    }
}

/// The non-empty pieces on both sides of a separator are those of each side.
pub proof fn law_non_empty_between(a: Seq<char>, sep: char, b: Seq<char>)
    ensures
        non_empty(split(a.push(sep) + b, sep)) == non_empty(split(a, sep)) + non_empty(
            split(b, sep),
        ),
{
    law_split_between(a, sep, b);
    lemma_non_empty_concat(split(a, sep), split(b, sep));
}

/// Trimming at the end takes off exactly the white space there.
pub proof fn law_trim_end(s: Seq<char>, after: Seq<char>)
    requires
        forall|i: int| 0 <= i < after.len() ==> whitespace(#[trigger] after[i]),
        s.len() == 0 || !whitespace(s.last()),
    ensures
        trimmed_end(s + after) == s,
    decreases after.len(),
{
    if after.len() == 0 {
        assert(s + after =~= s);
    } else {
        let fewer = after.drop_last();
        assert forall|i: int| 0 <= i < fewer.len() implies whitespace(#[trigger] fewer[i]) by {
            assert(fewer[i] == after[i]);
        }
        law_trim_end(s, fewer);
        assert((s + after).last() == after[after.len() - 1]);
        assert((s + after).drop_last() =~= s + fewer);
    }
}

} // verus!
