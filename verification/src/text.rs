//! Text helpers: UTF-8 widths, trimming, splitting, joining and searching.
//!
//! Contracts speak of the characters of a string (`s@`, a `Seq<char>`). Limits
//! that count bytes are stated with [`byte_len`], the length of the UTF-8 encoding.
use vstd::prelude::*;

verus! {

// ---------------------------------------------------------------------------
// Trusted std functions
// ---------------------------------------------------------------------------

/// `str` equality of std: two strings are equal when their contents are.
pub assume_specification[ <str as PartialEq>::eq ](a: &str, b: &str) -> (r: bool)
    ensures
        r == (a@ == b@),
;

/// `String::push` of std appends one character at the end.
pub assume_specification[ String::push ](s: &mut String, c: char)
    ensures
        final(s)@ == old(s)@.push(c),
;

// ---------------------------------------------------------------------------
// Views of collections
// ---------------------------------------------------------------------------

/// The views of the elements of a sequence.
pub open spec fn views<T: View>(items: Seq<T>) -> Seq<T::V> {
    Seq::new(items.len(), |i: int| items[i]@)
}

/// The view of what an option holds.
pub open spec fn opt_view<T: View>(item: Option<T>) -> Option<T::V> {
    match item {
        Some(x) => Some(x@),
        None => None,
    }
}

/// The view of the text behind an optional string slice.
pub open spec fn opt_text(item: Option<&str>) -> Option<Seq<char>> {
    match item {
        Some(x) => Some(x@),
        None => None,
    }
}

pub broadcast proof fn lemma_views_push<T: View>(items: Seq<T>, x: T)
    ensures
        #[trigger] views(items.push(x)) == views(items).push(x@),
{
    assert(views(items.push(x)) =~= views(items).push(x@));
}

pub broadcast proof fn lemma_views_empty<T: View>(items: Seq<T>)
    requires
        items.len() == 0,
    ensures
        #[trigger] views(items) == Seq::<T::V>::empty(),
{
    assert(views(items) =~= Seq::<T::V>::empty());
}

pub broadcast group group_views {
    lemma_views_push,
    lemma_views_empty,
}

/// Whether `part` stands somewhere in `text`.
pub open spec fn occurs(part: Seq<char>, text: Seq<char>) -> bool {
    exists|before: Seq<char>, after: Seq<char>| text == #[trigger] (before + part + after)
}

pub proof fn lemma_occurs(before: Seq<char>, part: Seq<char>, after: Seq<char>)
    ensures
        occurs(part, before + part + after),
        occurs(part, before + part),
        occurs(part, part + after),
        occurs(part, part),
{
    let none = Seq::<char>::empty();
    assert(before + part =~= before + part + none);
    assert(part + after =~= none + part + after);
    assert(part =~= none + part + none);
}

/// What stands in a text stands in whatever the text stands in.
pub proof fn lemma_occurs_within(part: Seq<char>, middle: Seq<char>, text: Seq<char>)
    requires
        occurs(part, middle),
        occurs(middle, text),
    ensures
        occurs(part, text),
{
    let (a, b) = choose|a: Seq<char>, b: Seq<char>| middle == #[trigger] (a + part + b);
    let (c, d) = choose|c: Seq<char>, d: Seq<char>| text == #[trigger] (c + middle + d);
    assert(text =~= (c + a) + part + (b + d));
}

// ---------------------------------------------------------------------------
// Characters and widths
// ---------------------------------------------------------------------------

/// Whether `c` has Unicode's `White_Space` property.
pub open spec fn is_white(c: char) -> bool {
    ||| '\u{9}' <= c <= '\u{d}'
    ||| c == ' '
    ||| c == '\u{85}'
    ||| c == '\u{a0}'
    ||| c == '\u{1680}'
    ||| '\u{2000}' <= c <= '\u{200a}'
    ||| c == '\u{2028}'
    ||| c == '\u{2029}'
    ||| c == '\u{202f}'
    ||| c == '\u{205f}'
    ||| c == '\u{3000}'
}

/// Number of bytes in the UTF-8 encoding of `c`.
pub open spec fn width(c: char) -> nat {
    let v = c as u32;
    if v < 0x80 {
        1
    } else if v < 0x800 {
        2
    } else if v < 0x10000 {
        3
    } else {
        4
    }
}

/// Number of bytes in the UTF-8 encoding of `s`.
pub open spec fn byte_len(s: Seq<char>) -> nat
    decreases s.len(),
{
    if s.len() == 0 {
        0
    } else {
        byte_len(s.drop_last()) + width(s.last())
    }
}

/// Number of characters in the longest prefix of `s` that takes at most `max` bytes.
pub open spec fn fit(s: Seq<char>, max: nat) -> nat
    decreases s.len(),
{
    if byte_len(s) <= max {
        s.len()
    } else {
        fit(s.drop_last(), max)
    }
}

/// `s` itself when it takes at most `max` bytes, else its longest prefix that
/// does, followed by an ellipsis.
pub open spec fn clip(s: Seq<char>, max: nat) -> Seq<char> {
    if byte_len(s) <= max {
        s
    } else {
        s.take(fit(s, max) as int) + "..."@
    }
}

pub fn white(c: char) -> (r: bool)
    ensures
        r == is_white(c),
{
    ('\u{9}' <= c && c <= '\u{d}') || c == ' ' || c == '\u{85}' || c == '\u{a0}' || c == '\u{1680}'
        || ('\u{2000}' <= c && c <= '\u{200a}') || c == '\u{2028}' || c == '\u{2029}'
        || c == '\u{202f}' || c == '\u{205f}' || c == '\u{3000}'
}

pub fn char_width(c: char) -> (r: usize)
    ensures
        r == width(c),
        1 <= r <= 4,
{
    let v: u32 = c as u32;
    if v < 0x80 {
        1
    } else if v < 0x800 {
        2
    } else if v < 0x10000 {
        3
    } else {
        4
    }
}

/// A longer string takes more bytes.
pub proof fn lemma_byte_len_take(s: Seq<char>, n: int, m: int)
    requires
        0 <= n <= m <= s.len(),
    ensures
        byte_len(s.take(n)) + (m - n) <= byte_len(s.take(m)),
    decreases m - n,
{
    if n < m {
        lemma_byte_len_take(s, n, m - 1);
        assert(s.take(m).drop_last() =~= s.take(m - 1));
        assert(s.take(m).last() == s[m - 1]);
    }
}

/// `fit` is the one prefix length that fits and cannot be extended.
pub proof fn lemma_fit(s: Seq<char>, max: nat)
    ensures
        fit(s, max) <= s.len(),
        byte_len(s.take(fit(s, max) as int)) <= max,
        forall|n: int| fit(s, max) < n <= s.len() ==> byte_len(#[trigger] s.take(n)) > max,
    decreases s.len(),
{
    if byte_len(s) <= max {
        assert(s.take(s.len() as int) =~= s);
    } else {
        lemma_fit(s.drop_last(), max);
        let k = fit(s.drop_last(), max);
        assert(s.drop_last().take(k as int) =~= s.take(k as int));
        assert forall|n: int| k < n <= s.len() implies byte_len(#[trigger] s.take(n)) > max by {
            if n == s.len() {
                assert(s.take(n) =~= s);
            } else {
                assert(s.drop_last().take(n) =~= s.take(n));
            }
        }
    }
}

// ---------------------------------------------------------------------------
// Conversions
// ---------------------------------------------------------------------------

pub fn chars_of(s: &str) -> (r: Vec<char>)
    ensures
        r@ == s@,
{
    let mut r: Vec<char> = Vec::new();
    for c in it: s.chars()
        invariant
            r@ == s@.take(it.index() as int),
            it.seq() == s@,
    {
        r.push(c);
        assert(s@.take(it.index() as int + 1) == s@.take(it.index() as int).push(c));
    }
    assert(s@.take(s@.len() as int) == s@);
    r
}

/// The characters `from..to` as a string.
pub fn slice(chars: &Vec<char>, from: usize, to: usize) -> (r: String)
    requires
        from <= to <= chars.len(),
    ensures
        r@ == chars@.subrange(from as int, to as int),
{
    let mut r = String::new();
    let mut i: usize = from;
    while i < to
        invariant
            from <= i <= to <= chars.len(),
            r@ == chars@.subrange(from as int, i as int),
        decreases to - i,
    {
        r.push(chars[i]);
        assert(chars@.subrange(from as int, i + 1) =~= chars@.subrange(from as int, i as int).push(
            chars@[i as int],
        ));
        i += 1;
    }
    r
}

pub fn same(a: &str, b: &str) -> (r: bool)
    ensures
        r == (a@ == b@),
{
    a.eq(b)
}

pub fn clone_texts(items: &Vec<String>) -> (r: Vec<String>)
    ensures
        r@ == items@,
{
    let mut r: Vec<String> = Vec::new();
    let mut i: usize = 0;
    while i < items.len()
        invariant
            i <= items.len(),
            r@ == items@.take(i as int),
        decreases items.len() - i,
    {
        r.push(items[i].clone());
        assert(items@.take(i + 1) =~= items@.take(i as int).push(items@[i as int]));
        i += 1;
    }
    assert(items@.take(items.len() as int) =~= items@);
    r
}

pub fn clone_opt_text(item: &Option<String>) -> (r: Option<String>)
    ensures
        r == *item,
{
    match item {
        Some(s) => Some(s.clone()),
        None => None,
    }
}

/// Whether one of `items` reads `key`.
pub fn contains_text(items: &Vec<String>, key: &str) -> (r: bool)
    ensures
        r == views(items@).contains(key@),
{
    let mut i: usize = 0;
    while i < items.len()
        invariant
            i <= items.len(),
            forall|j: int| 0 <= j < i ==> views(items@)[j] != key@,
        decreases items.len() - i,
    {
        if same(items[i].as_str(), key) {
            assert(views(items@)[i as int] == key@);
            return true;
        }
        i += 1;
    }
    false
}

// ---------------------------------------------------------------------------
// Truncation
// ---------------------------------------------------------------------------

/// Length in characters of the longest prefix that takes at most `max` bytes.
pub fn fit_prefix(chars: &Vec<char>, max: usize) -> (r: usize)
    ensures
        r == fit(chars@, max as nat),
        r <= chars.len(),
        r == chars.len() <==> byte_len(chars@) <= max,
{
    let mut used: usize = 0;
    let mut i: usize = 0;
    proof {
        lemma_fit(chars@, max as nat);
    }
    while i < chars.len()
        invariant
            i <= chars.len(),
            used == byte_len(chars@.take(i as int)),
            used <= max,
            fit(chars@, max as nat) <= chars.len(),
            byte_len(chars@.take(fit(chars@, max as nat) as int)) <= max,
            forall|n: int|
                fit(chars@, max as nat) < n <= chars@.len() ==> byte_len(#[trigger] chars@.take(n)) > max,
        decreases chars.len() - i,
    {
        let w = char_width(chars[i]);
        assert(chars@.take(i + 1).drop_last() =~= chars@.take(i as int));
        assert(byte_len(chars@.take(i + 1)) == used + w);
        if w > max - used {
            proof {
                if fit(chars@, max as nat) > i {
                    lemma_byte_len_take(chars@, i + 1, fit(chars@, max as nat) as int);
                }
                if fit(chars@, max as nat) < i {
                    assert(byte_len(chars@.take(i as int)) > max);
                }
                lemma_byte_len_take(chars@, i + 1, chars@.len() as int);
                assert(chars@.take(chars@.len() as int) =~= chars@);
            }
            return i;
        }
        used += w;
        i += 1;
    }
    assert(chars@.take(chars@.len() as int) =~= chars@);
    i
}

/// Shorten `s` to at most `max` bytes at a character boundary, marking the cut
/// with an ellipsis.
pub fn truncate(s: &str, max: usize) -> (r: String)
    ensures
        r@ == clip(s@, max as nat),
{
    let chars = chars_of(s);
    let end = fit_prefix(&chars, max);
    if end == chars.len() {
        s.to_string()
    } else {
        let r = slice(&chars, 0, end).concat("...");
        assert(chars@.subrange(0, end as int) =~= chars@.take(end as int));
        r
    }
}

/// Number of bytes in the UTF-8 encoding of `s`, or `limit` if it takes more.
#[verifier::loop_isolation(false)]
pub fn bytes_up_to(s: &str, limit: usize) -> (r: usize)
    ensures
        r == if byte_len(s@) <= limit { byte_len(s@) } else { limit as nat },
{
    let chars = chars_of(s);
    let mut used: usize = 0;
    let mut i: usize = 0;
    while i < chars.len()
        invariant
            i <= chars.len(),
            used == byte_len(chars@.take(i as int)),
            used <= limit,
        decreases chars.len() - i,
    {
        let w = char_width(chars[i]);
        assert(chars@.take(i + 1).drop_last() =~= chars@.take(i as int));
        if w > limit - used {
            proof {
                lemma_byte_len_take(chars@, i + 1, chars@.len() as int);
                assert(chars@.take(chars@.len() as int) =~= chars@);
            }
            return limit;
        }
        used += w;
        i += 1;
    }
    assert(chars@.take(chars@.len() as int) =~= chars@);
    used
}

// ---------------------------------------------------------------------------
// Trimming
// ---------------------------------------------------------------------------

/// `s` without its leading white space.
pub open spec fn skip_white(s: Seq<char>) -> Seq<char>
    decreases s.len(),
{
    if s.len() > 0 && is_white(s[0]) {
        skip_white(s.drop_first())
    } else {
        s
    }
}

/// `s` without its trailing white space.
pub open spec fn drop_white(s: Seq<char>) -> Seq<char>
    decreases s.len(),
{
    if s.len() > 0 && is_white(s.last()) {
        drop_white(s.drop_last())
    } else {
        s
    }
}

/// `s` without white space at either end.
pub open spec fn trimmed(s: Seq<char>) -> Seq<char> {
    drop_white(skip_white(s))
}

pub fn trim(s: &str) -> (r: String)
    ensures
        r@ == trimmed(s@),
{
    let chars = chars_of(s);
    let n = chars.len();
    let mut a: usize = 0;
    assert(chars@.subrange(0, n as int) =~= chars@);
    while a < n && white(chars[a])
        invariant
            a <= n == chars.len(),
            skip_white(chars@) == skip_white(chars@.subrange(a as int, n as int)),
        decreases n - a,
    {
        assert(chars@.subrange(a as int, n as int).drop_first() =~= chars@.subrange(a + 1, n as int));
        a += 1;
    }
    let ghost mid = chars@.subrange(a as int, n as int);
    assert(skip_white(chars@) == mid);
    let mut b: usize = n;
    while b > a && white(chars[b - 1])
        invariant
            a <= b <= n == chars.len(),
            mid == chars@.subrange(a as int, n as int),
            drop_white(mid) == drop_white(chars@.subrange(a as int, b as int)),
        decreases b - a,
    {
        assert(chars@.subrange(a as int, b as int).drop_last() =~= chars@.subrange(
            a as int,
            b - 1,
        ));
        b -= 1;
    }
    slice(&chars, a, b)
}

/// Trimming twice is the same as trimming once.
pub proof fn law_trim_idempotent(s: Seq<char>)
    ensures
        trimmed(trimmed(s)) == trimmed(s),
{
    lemma_skip_white_front(s);
    let m = skip_white(s);
    lemma_drop_white(m);
    let t = drop_white(m);
    if t.len() > 0 {
        assert(t[0] == m[0]);
    }
    assert(skip_white(t) == t);
    assert(drop_white(t) == t);
}

proof fn lemma_skip_white_front(s: Seq<char>)
    ensures
        skip_white(s).len() > 0 ==> !is_white(skip_white(s)[0]),
    decreases s.len(),
{
    if s.len() > 0 && is_white(s[0]) {
        lemma_skip_white_front(s.drop_first());
    }
}

proof fn lemma_drop_white(s: Seq<char>)
    ensures
        drop_white(s).len() <= s.len(),
        drop_white(s) == s.take(drop_white(s).len() as int),
        drop_white(s).len() > 0 ==> !is_white(drop_white(s).last()),
    decreases s.len(),
{
    if s.len() > 0 && is_white(s.last()) {
        lemma_drop_white(s.drop_last());
        let k = drop_white(s).len() as int;
        assert(s.drop_last().take(k) =~= s.take(k));
    } else {
        assert(s.take(s.len() as int) =~= s);
    }
}

// ---------------------------------------------------------------------------
// Words and joining
// ---------------------------------------------------------------------------

/// Number of characters before the first white space.
pub open spec fn word_len(s: Seq<char>) -> nat
    decreases s.len(),
{
    if s.len() == 0 || is_white(s[0]) {
        0
    } else {
        1 + word_len(s.drop_first())
    }
}

pub proof fn lemma_word_len(s: Seq<char>)
    ensures
        word_len(s) <= s.len(),
    decreases s.len(),
{
    if s.len() > 0 && !is_white(s[0]) {
        lemma_word_len(s.drop_first());
    }
}

/// The runs of characters between white space, in order.
pub open spec fn words(s: Seq<char>) -> Seq<Seq<char>>
    decreases s.len(),
{
    if s.len() == 0 {
        Seq::empty()
    } else if is_white(s[0]) {
        words(s.drop_first())
    } else {
        proof {
            lemma_word_len(s);
        }
        seq![s.take(word_len(s) as int)] + words(s.skip(word_len(s) as int))
    }
}

/// `parts` with `sep` between neighbours.
pub open spec fn joined(parts: Seq<Seq<char>>, sep: Seq<char>) -> Seq<char>
    decreases parts.len(),
{
    if parts.len() == 0 {
        Seq::empty()
    } else if parts.len() == 1 {
        parts[0]
    } else {
        joined(parts.drop_last(), sep) + sep + parts.last()
    }
}

pub fn split_words(s: &str) -> (r: Vec<String>)
    ensures
        views(r@) == words(s@),
{
    let chars = chars_of(s);
    let n = chars.len();
    let mut r: Vec<String> = Vec::new();
    let mut i: usize = 0;
    assert(chars@.skip(0) =~= chars@);
    proof {
        lemma_views_empty(r@);
        assert(views(r@) + words(chars@) =~= words(chars@));
    }
    while i < n
        invariant
            i <= n == chars.len(),
            words(chars@) == views(r@) + words(chars@.skip(i as int)),
        decreases n - i,
    {
        let ghost rest = chars@.skip(i as int);
        if white(chars[i]) {
            assert(rest.drop_first() =~= chars@.skip(i + 1));
            i += 1;
        } else {
            let mut j: usize = i;
            assert(rest.skip(0) =~= rest);
            while j < n && !white(chars[j])
                invariant
                    i <= j <= n == chars.len(),
                    rest == chars@.skip(i as int),
                    word_len(rest) == (j - i) + word_len(chars@.skip(j as int)),
                decreases n - j,
            {
                assert(chars@.skip(j as int).drop_first() =~= chars@.skip(j + 1));
                j += 1;
            }
            assert(word_len(rest) == j - i);
            let w = slice(&chars, i, j);
            assert(rest.take(j - i) =~= chars@.subrange(i as int, j as int));
            assert(rest.skip(j - i) =~= chars@.skip(j as int));
            let ghost before = r@;
            r.push(w);
            proof {
                lemma_views_push(before, w);
                assert(views(before) + (seq![w@] + words(chars@.skip(j as int))) =~= views(before).push(
                    w@,
                ) + words(chars@.skip(j as int)));
            }
            i = j;
        }
    }
    assert(views(r@) + words(chars@.skip(i as int)) =~= views(r@));
    r
}

pub fn join(parts: &Vec<String>, sep: &str) -> (r: String)
    ensures
        r@ == joined(views(parts@), sep@),
{
    let mut r = String::new();
    let mut i: usize = 0;
    let ghost all = views(parts@);
    while i < parts.len()
        invariant
            i <= parts.len(),
            all == views(parts@),
            r@ == joined(all.take(i as int), sep@),
        decreases parts.len() - i,
    {
        if i > 0 {
            r.append(sep);
        }
        r.append(parts[i].as_str());
        proof {
            let t = all.take(i + 1);
            assert(t.drop_last() =~= all.take(i as int));
            assert(t.last() == parts@[i as int]@);
            if i == 0 {
                assert(r@ =~= t[0]);
            }
        }
        i += 1;
    }
    assert(all.take(i as int) =~= all);
    r
}

// ---------------------------------------------------------------------------
// Lines
// ---------------------------------------------------------------------------

/// The first position of a line feed.
pub open spec fn line_end(s: Seq<char>) -> Option<int>
    decreases s.len(),
{
    if s.len() == 0 {
        None
    } else if s[0] == '\n' {
        Some(0)
    } else {
        match line_end(s.drop_first()) {
            Some(i) => Some(i + 1),
            None => None,
        }
    }
}

/// A line without the carriage return before its line feed.
pub open spec fn without_return(line: Seq<char>) -> Seq<char> {
    if line.len() > 0 && line.last() == '\r' {
        line.drop_last()
    } else {
        line
    }
}

/// The lines of a text. A line ends with a line feed, or a carriage return and a line
/// feed; what follows the last of them is a line where it is not empty.
pub open spec fn lines_in(s: Seq<char>) -> Seq<Seq<char>>
    decreases s.len(),
    via lines_in_decreases
{
    if s.len() == 0 {
        Seq::empty()
    } else {
        match line_end(s) {
            Some(i) => seq![without_return(s.take(i))] + lines_in(s.skip(i + 1)),
            None => seq![s],
        }
    }
}

#[via_fn]
proof fn lines_in_decreases(s: Seq<char>) {
    lemma_line_end(s);
}

proof fn lemma_line_end(s: Seq<char>)
    ensures
        match line_end(s) {
            Some(i) => 0 <= i < s.len() && s[i] == '\n' && forall|j: int|
                0 <= j < i ==> s[j] != '\n',
            None => forall|j: int| 0 <= j < s.len() ==> s[j] != '\n',
        },
    decreases s.len(),
{
    if s.len() > 0 && s[0] != '\n' {
        let rest = s.drop_first();
        lemma_line_end(rest);
        assert forall|j: int| 0 < j < s.len() implies s[j] == rest[j - 1] by {}
    }
}

/// The position of the first line feed at or after `from`.
#[verifier::loop_isolation(false)]
fn find_line_end(s: &Vec<char>, from: usize) -> (r: Option<usize>)
    requires
        from <= s.len(),
    ensures
        match r {
            Some(i) => from <= i < s.len() && line_end(s@.skip(from as int)) == Some(i - from),
            None => line_end(s@.skip(from as int)) is None,
        },
{
    let ghost rest = s@.skip(from as int);
    let mut i: usize = from;
    proof {
        lemma_line_end(rest);
    }
    while i < s.len()
        invariant
            from <= i <= s.len(),
            forall|j: int| 0 <= j < i - from ==> rest[j] != '\n',
        decreases s.len() - i,
    {
        assert(rest[i - from] == s@[i as int]);
        if s[i] == '\n' {
            return Some(i);
        }
        i += 1;
    }
    None
}

/// Split a text into its lines.
#[verifier::loop_isolation(false)]
pub fn split_lines(text: &str) -> (r: Vec<String>)
    ensures
        views(r@) == lines_in(text@),
{
    broadcast use group_views;

    let chars = chars_of(text);
    let ghost all = text@;
    let mut r: Vec<String> = Vec::new();
    let mut start: usize = 0;
    assert(all.skip(0) =~= all);
    assert(views(r@) + lines_in(all) =~= lines_in(all));
    while start < chars.len()
        invariant
            start <= chars.len(),
            views(r@) + lines_in(all.skip(start as int)) == lines_in(all),
        decreases chars.len() - start,
    {
        let ghost rest = all.skip(start as int);
        let ghost before = views(r@);
        match find_line_end(&chars, start) {
            Some(i) => {
                let end: usize = if i > start && chars[i - 1] == '\r' {
                    i - 1
                } else {
                    i
                };
                r.push(slice(&chars, start, end));
                proof {
                    let line = rest.take(i - start);
                    assert(all.subrange(start as int, end as int) =~= without_return(line)) by {
                        if i > start {
                            assert(line.last() == all[i - 1]);
                        }
                    }
                    assert(rest.skip(i - start + 1) =~= all.skip(i + 1));
                    assert(views(r@) + lines_in(all.skip(i + 1)) =~= before + lines_in(rest));
                }
                start = i + 1;
            },
            None => {
                r.push(slice(&chars, start, chars.len()));
                proof {
                    assert(all.subrange(start as int, chars.len() as int) =~= rest);
                    assert(views(r@) =~= before + lines_in(rest));
                }
                return r;
            },
        }
    }
    assert(lines_in(all.skip(start as int)) =~= Seq::<Seq<char>>::empty());
    assert(views(r@) =~= lines_in(all));
    r
}

// ---------------------------------------------------------------------------
// Searching
// ---------------------------------------------------------------------------

/// Whether `pat` stands in `s` at position `i`.
pub open spec fn occurs_at(s: Seq<char>, pat: Seq<char>, i: int) -> bool {
    0 <= i && i + pat.len() <= s.len() && s.subrange(i, i + pat.len()) == pat
}

/// The first position at or after `from` where `pat` stands in `s`.
pub open spec fn first_from(s: Seq<char>, pat: Seq<char>, from: int) -> Option<int>
    decreases s.len() - from + 1,
{
    if from < 0 || from + pat.len() > s.len() {
        None
    } else if occurs_at(s, pat, from) {
        Some(from)
    } else {
        first_from(s, pat, from + 1)
    }
}

/// A pattern is found at or after the place where the search begins, and stands
/// there.
pub proof fn lemma_first_from(s: Seq<char>, pat: Seq<char>, from: int)
    ensures
        first_from(s, pat, from) matches Some(i) ==> from <= i && occurs_at(s, pat, i),
    decreases s.len() - from + 1,
{
    if from + pat.len() <= s.len() && !occurs_at(s, pat, from) {
        lemma_first_from(s, pat, from + 1);
    }
}

/// What is found is the first place where the pattern stands, and it is found if it stands
/// anywhere.
pub proof fn law_first_is_found(s: Seq<char>, pat: Seq<char>, from: int, i: int)
    requires
        0 <= from <= i,
        i + pat.len() <= s.len(),
        s.subrange(i, i + pat.len()) == pat,
        forall|j: int| from <= j < i ==> !#[trigger] occurs_at(s, pat, j),
    ensures
        first_from(s, pat, from) == Some(i),
    decreases i - from,
{
    if from < i {
        assert(!occurs_at(s, pat, from));
        law_first_is_found(s, pat, from + 1, i);
    }
}

fn matches_at(s: &Vec<char>, pat: &Vec<char>, i: usize) -> (r: bool)
    requires
        i + pat.len() <= s.len(),
    ensures
        r == occurs_at(s@, pat@, i as int),
{
    let mut k: usize = 0;
    while k < pat.len()
        invariant
            k <= pat.len(),
            i + pat.len() <= s.len(),
            forall|j: int| 0 <= j < k ==> s@[i + j] == pat@[j],
        decreases pat.len() - k,
    {
        if s[i + k] != pat[k] {
            assert(s@.subrange(i as int, i + pat.len())[k as int] != pat@[k as int]);
            return false;
        }
        k += 1;
    }
    assert(s@.subrange(i as int, i + pat.len()) =~= pat@);
    true
}

pub fn find_from(s: &Vec<char>, pat: &Vec<char>, from: usize) -> (r: Option<usize>)
    requires
        from <= s.len(),
    ensures
        match r {
            Some(i) => first_from(s@, pat@, from as int) == Some(i as int) && from <= i && i
                + pat.len() <= s.len(),
            None => first_from(s@, pat@, from as int) is None,
        },
{
    let mut i: usize = from;
    while pat.len() <= s.len() - i
        invariant
            from <= i <= s.len(),
            first_from(s@, pat@, from as int) == first_from(s@, pat@, i as int),
        decreases s.len() - i,
    {
        if matches_at(s, pat, i) {
            return Some(i);
        }
        if i == s.len() {
            proof {
                reveal_with_fuel(first_from, 2);
            }
            return None;
        }
        i += 1;
    }
    None
}

/// The last position of `c` in `s`.
pub open spec fn last_index(s: Seq<char>, c: char) -> Option<int>
    decreases s.len(),
{
    if s.len() == 0 {
        None
    } else if s.last() == c {
        Some(s.len() - 1)
    } else {
        last_index(s.drop_last(), c)
    }
}

/// The last position of `c` among the first `end` characters.
pub fn rfind(s: &Vec<char>, c: char, end: usize) -> (r: Option<usize>)
    requires
        end <= s.len(),
    ensures
        match r {
            Some(i) => last_index(s@.take(end as int), c) == Some(i as int) && i < end,
            None => last_index(s@.take(end as int), c) is None,
        },
{
    let mut i: usize = end;
    while i > 0
        invariant
            i <= end <= s.len(),
            last_index(s@.take(end as int), c) == last_index(s@.take(i as int), c),
        decreases i,
    {
        if s[i - 1] == c {
            return Some(i - 1);
        }
        assert(s@.take(i as int).drop_last() =~= s@.take(i - 1));
        i -= 1;
    }
    None
}

/// Whether `s` begins with `prefix`.
pub fn starts_with(s: &str, prefix: &str) -> (r: bool)
    ensures
        r == prefix@.is_prefix_of(s@),
{
    let a = chars_of(s);
    let b = chars_of(prefix);
    if b.len() > a.len() {
        return false;
    }
    let r = matches_at(&a, &b, 0);
    r
}

// ---------------------------------------------------------------------------
// ASCII case
// ---------------------------------------------------------------------------

/// `c` with an ASCII capital made small.
pub open spec fn lower(c: char) -> char {
    if 'A' <= c <= 'Z' {
        ((c as u32) + 32) as u32 as char
    } else {
        c
    }
}

/// Whether `a` and `b` differ in the case of ASCII letters at most.
pub open spec fn same_ignoring_case(a: Seq<char>, b: Seq<char>) -> bool {
    a.len() == b.len() && forall|i: int| 0 <= i < a.len() ==> lower(a[i]) == lower(#[trigger] b[i])
}

fn to_lower(c: char) -> (r: char)
    ensures
        r == lower(c),
{
    if 'A' <= c && c <= 'Z' {
        let v: u8 = c as u8;
        (v + 32) as char
    } else {
        c
    }
}

#[verifier::loop_isolation(false)]
pub fn eq_ignore_case(a: &str, b: &str) -> (r: bool)
    ensures
        r == same_ignoring_case(a@, b@),
{
    let x = chars_of(a);
    let y = chars_of(b);
    if x.len() != y.len() {
        return false;
    }
    let mut i: usize = 0;
    while i < x.len()
        invariant
            i <= x.len() == y.len(),
            forall|j: int| 0 <= j < i ==> lower(x@[j]) == lower(#[trigger] y@[j]),
        decreases x.len() - i,
    {
        if to_lower(x[i]) != to_lower(y[i]) {
            assert(lower(x@[i as int]) != lower(y@[i as int]));
            return false;
        }
        i += 1;
    }
    true
}

// ---------------------------------------------------------------------------
// Numbers
// ---------------------------------------------------------------------------

pub open spec fn digit(d: nat) -> char {
    (48 + d) as u32 as char
}

/// The decimal digits of `n`.
pub open spec fn decimal(n: nat) -> Seq<char>
    decreases n,
{
    if n < 10 {
        seq![digit(n)]
    } else {
        decimal(n / 10).push(digit(n % 10))
    }
}

pub fn number_text(n: u128) -> (r: String)
    ensures
        r@ == decimal(n as nat),
    decreases n,
{
    let d: u8 = (n % 10) as u8;
    let c: char = (48 + d) as char;
    if n < 10 {
        let mut s = String::new();
        s.push(c);
        assert(s@ =~= seq![digit(n as nat)]);
        s
    } else {
        let mut s = number_text(n / 10);
        s.push(c);
        s
    }
}

// ---------------------------------------------------------------------------
// File names
// ---------------------------------------------------------------------------

/// Where the extension of a file name begins: at its last dot, unless that is its
/// first character.
pub open spec fn dot(name: Seq<char>) -> Option<int> {
    match last_index(name, '.') {
        Some(k) => if k > 0 {
            Some(k)
        } else {
            None
        },
        None => None,
    }
}

pub open spec fn extension(name: Seq<char>) -> Option<Seq<char>> {
    match dot(name) {
        Some(k) => Some(name.skip(k + 1)),
        None => None,
    }
}

pub open spec fn stem(name: Seq<char>) -> Seq<char> {
    match dot(name) {
        Some(k) => name.take(k),
        None => name,
    }
}

fn find_dot(chars: &Vec<char>) -> (r: Option<usize>)
    ensures
        match r {
            Some(k) => dot(chars@) == Some(k as int) && k < chars.len(),
            None => dot(chars@) is None,
        },
{
    assert(chars@.take(chars@.len() as int) =~= chars@);
    match rfind(chars, '.', chars.len()) {
        Some(k) => {
            if k > 0 {
                Some(k)
            } else {
                None
            }
        },
        None => None,
    }
}

pub fn file_extension(name: &str) -> (r: Option<String>)
    ensures
        opt_view(r) == extension(name@),
{
    let chars = chars_of(name);
    match find_dot(&chars) {
        Some(k) => {
            assert(chars@.subrange(k + 1, chars@.len() as int) =~= chars@.skip(k + 1));
            Some(slice(&chars, k + 1, chars.len()))
        },
        None => None,
    }
}

pub fn file_stem(name: &str) -> (r: String)
    ensures
        r@ == stem(name@),
{
    let chars = chars_of(name);
    match find_dot(&chars) {
        Some(k) => {
            assert(chars@.subrange(0, k as int) =~= chars@.take(k as int));
            slice(&chars, 0, k)
        },
        None => name.to_string(),
    }
}

} // verus!
