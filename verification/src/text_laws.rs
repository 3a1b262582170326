//! What holds of the text helpers, over the characters of a text.
use crate::json::digits_value;
use crate::text::{
    byte_len, clip, decimal, digit, dot, drop_white, extension, fit, is_white, joined, last_index,
    lemma_fit, lemma_word_len, line_end, lines_in, lower, same_ignoring_case, skip_white, stem,
    trimmed, width, word_len, words,
};
use vstd::prelude::*;

verus! {

/// Whether a text is all white space.
pub open spec fn blank(s: Seq<char>) -> bool {
    forall|i: int| 0 <= i < s.len() ==> is_white(#[trigger] s[i])
}

proof fn lemma_skip_white(s: Seq<char>) -> (n: int)
    ensures
        0 <= n <= s.len(),
        blank(s.take(n)),
        skip_white(s) == s.skip(n),
        n < s.len() ==> !is_white(s[n]),
    decreases s.len(),
{
    if s.len() > 0 && is_white(s[0]) {
        let m = lemma_skip_white(s.drop_first());
        assert(s.skip(m + 1) =~= s.drop_first().skip(m));
        assert forall|i: int| 0 <= i < m + 1 implies is_white(#[trigger] s.take(m + 1)[i]) by {
            if i > 0 {
                assert(s.drop_first().take(m)[i - 1] == s[i]);
            }
        }
        m + 1
    } else {
        assert(s.skip(0) =~= s);
        0
    }
}

proof fn lemma_drop_white(s: Seq<char>) -> (n: int)
    ensures
        0 <= n <= s.len(),
        blank(s.skip(n)),
        drop_white(s) == s.take(n),
        n > 0 ==> !is_white(s[n - 1]),
    decreases s.len(),
{
    if s.len() > 0 && is_white(s.last()) {
        let m = lemma_drop_white(s.drop_last());
        assert(s.take(m) =~= s.drop_last().take(m));
        assert forall|i: int| 0 <= i < s.len() - m implies is_white(#[trigger] s.skip(m)[i]) by {
            if i < s.len() - m - 1 {
                assert(s.drop_last().skip(m)[i] == s[m + i]);
            }
        }
        m
    } else {
        assert(s.take(s.len() as int) =~= s);
        s.len() as int
    }
}

/// Trimming takes white space from both ends and nothing else: what is left stands in the
/// text with only white space around it, and neither begins nor ends with any.
pub proof fn law_trim_takes_white_space(s: Seq<char>)
    ensures
        exists|a: Seq<char>, b: Seq<char>|
            #![trigger blank(a), blank(b)]
            blank(a) && blank(b) && s == a + trimmed(s) + b,
        trimmed(s).len() > 0 ==> !is_white(trimmed(s)[0]) && !is_white(trimmed(s).last()),
{
    let n = lemma_skip_white(s);
    let mid = s.skip(n);
    let m = lemma_drop_white(mid);
    assert(s =~= s.take(n) + mid.take(m) + mid.skip(m));
    assert(blank(s.take(n)) && blank(mid.skip(m)));
}

/// A text is trimmed to nothing exactly where it is all white space.
pub proof fn law_blank_texts_are_trimmed_away(s: Seq<char>)
    ensures
        trimmed(s).len() == 0 <==> blank(s),
{
    let n = lemma_skip_white(s);
    let mid = s.skip(n);
    let m = lemma_drop_white(mid);
    if trimmed(s).len() == 0 {
        assert forall|i: int| 0 <= i < s.len() implies is_white(#[trigger] s[i]) by {
            if i < n {
                assert(s.take(n)[i] == s[i]);
            } else {
                assert(mid.skip(m)[i - n] == s[i]);
            }
        }
    }
    if blank(s) {
        if m > 0 {
            assert(is_white(s[n + m - 1]));
            assert(mid[m - 1] == s[n + m - 1]);
        }
    }
}

/// White space around a text that neither begins nor ends with any is what trimming takes.
pub proof fn law_trimmed_text(before: Seq<char>, text: Seq<char>, after: Seq<char>)
    requires
        blank(before),
        blank(after),
        text.len() > 0 ==> !is_white(text[0]) && !is_white(text.last()),
    ensures
        trimmed(before + text + after) == text,
{
    let s = before + text + after;
    law_blank_texts_are_trimmed_away(s);
    if text.len() == 0 {
        assert forall|i: int| 0 <= i < s.len() implies is_white(#[trigger] s[i]) by {
            if i < before.len() {
                assert(s[i] == before[i]);
            } else {
                assert(s[i] == after[i - before.len()]);
            }
        }
        assert(trimmed(s) =~= text);
    } else {
        let n = lemma_skip_white(s);
        assert(s[before.len() as int] == text[0]);
        if n < before.len() {
            assert(s[n] == before[n]);
        } else if n > before.len() {
            assert(s.take(n)[before.len() as int] == text[0]);
        }
        let mid = s.skip(n);
        assert(mid =~= text + after);
        let m = lemma_drop_white(mid);
        assert(mid[text.len() - 1] == text.last());
        if m > text.len() {
            assert(mid[m - 1] == after[m - 1 - text.len()]);
        } else if m < text.len() {
            assert(mid.skip(m)[text.len() - 1 - m] == text.last());
        }
        assert(mid.take(m) =~= text);
    }
}

/// Joined parts read one after the other with the separator between neighbours.
pub proof fn law_joined_parts(a: Seq<Seq<char>>, b: Seq<Seq<char>>, part: Seq<char>, sep: Seq<char>)
    ensures
        joined(Seq::empty(), sep).len() == 0,
        joined(seq![part], sep) == part,
        a.len() > 0 && b.len() > 0 ==> joined(a + b, sep) == joined(a, sep) + sep + joined(b, sep),
    decreases b.len(),
{
    if a.len() > 0 && b.len() > 0 {
        assert((a + b).drop_last() =~= a + b.drop_last());
        assert((a + b).last() == b.last());
        if b.len() == 1 {
            assert(a + b.drop_last() =~= a);
        } else {
            law_joined_parts(a, b.drop_last(), part, sep);
            assert(joined(a + b, sep) =~= joined(a, sep) + sep + joined(b, sep));
        }
    }
}

/// The decimal digits of a number stand for that number, and none is in front that does
/// not count.
pub proof fn law_decimal_digits(n: nat)
    ensures
        digits_value(decimal(n)) == n,
        decimal(n).len() > 0,
        forall|i: int| 0 <= i < decimal(n).len() ==> '0' <= #[trigger] decimal(n)[i] <= '9',
        n > 0 ==> decimal(n)[0] != '0',
    decreases n,
{
    assert forall|d: nat| d < 10 implies '0' <= #[trigger] digit(d) <= '9' && digit(d) as nat == 48
        + d by {}
    if n < 10 {
        let s = decimal(n);
        assert(s.drop_last() =~= Seq::empty());
        assert(digits_value(s.drop_last()) == 0);
        assert(s.last() == digit(n));
    } else {
        law_decimal_digits(n / 10);
        let front = decimal(n / 10);
        let s = decimal(n);
        assert(s.drop_last() =~= front);
        assert(s.last() == digit(n % 10));
        assert(s[0] == front[0]);
        assert forall|i: int| 0 <= i < s.len() implies '0' <= #[trigger] s[i] <= '9' by {
            if i < front.len() {
                assert(s[i] == front[i]);
            }
        }
    }
}

/// A text that is too long is cut to as much of it as fits, and no less; the rest is shown
/// by an ellipsis. One that fits stays as it is.
pub proof fn law_clip_keeps_what_fits(s: Seq<char>, max: nat)
    ensures
        byte_len(s) <= max ==> clip(s, max) == s,
        byte_len(s) > max ==> exists|n: int|
            {
                &&& 0 <= n < s.len()
                &&& clip(s, max) == #[trigger] s.take(n) + "..."@
                &&& byte_len(s.take(n)) <= max
                &&& byte_len(s.take(n + 1)) > max
            },
{
    if byte_len(s) > max {
        lemma_fit(s, max);
        let n = fit(s, max) as int;
        assert(byte_len(s.take(n)) <= max);
        if n == s.len() {
            assert(s.take(n) =~= s);
        }
        assert(clip(s, max) == s.take(n) + "..."@);
    }
}

proof fn lemma_word(s: Seq<char>)
    ensures
        forall|i: int| 0 <= i < word_len(s) ==> !is_white(#[trigger] s[i]),
        word_len(s) < s.len() ==> is_white(s[word_len(s) as int]),
        word_len(s) <= s.len(),
    decreases s.len(),
{
    if s.len() > 0 && !is_white(s[0]) {
        lemma_word(s.drop_first());
        assert forall|i: int| 0 <= i < word_len(s) implies !is_white(#[trigger] s[i]) by {
            if i > 0 {
                assert(s.drop_first()[i - 1] == s[i]);
            }
        }
    }
}

/// A text without its white space.
pub open spec fn ink(s: Seq<char>) -> Seq<char>
    decreases s.len(),
{
    if s.len() == 0 {
        Seq::empty()
    } else if is_white(s[0]) {
        ink(s.drop_first())
    } else {
        seq![s[0]] + ink(s.drop_first())
    }
}

proof fn lemma_ink(s: Seq<char>, n: int)
    requires
        0 <= n <= s.len(),
        forall|i: int| 0 <= i < n ==> !is_white(#[trigger] s[i]),
    ensures
        ink(s) == s.take(n) + ink(s.skip(n)),
    decreases n,
{
    if n == 0 {
        assert(s.skip(0) =~= s);
        assert(s.take(0) + ink(s) =~= ink(s));
    } else {
        let t = s.drop_first();
        assert(!is_white(s[0]));
        assert forall|i: int| 0 <= i < n - 1 implies !is_white(#[trigger] t[i]) by {
            assert(t[i] == s[i + 1]);
        }
        lemma_ink(t, n - 1);
        assert(t.skip(n - 1) =~= s.skip(n));
        assert(seq![s[0]] + (t.take(n - 1) + ink(s.skip(n))) =~= s.take(n) + ink(s.skip(n)));
    }
}

/// The words of a text hold all of it but its white space, in order, and no word is empty
/// or has white space in it.
pub proof fn law_words_hold_the_text(s: Seq<char>)
    ensures
        joined(words(s), Seq::empty()) == ink(s),
        forall|i: int|
            0 <= i < words(s).len() ==> (#[trigger] words(s)[i]).len() > 0 && forall|j: int|
                0 <= j < words(s)[i].len() ==> !is_white(#[trigger] words(s)[i][j]),
    decreases s.len(),
{
    if s.len() == 0 {
    } else if is_white(s[0]) {
        law_words_hold_the_text(s.drop_first());
    } else {
        lemma_word(s);
        lemma_word_len(s);
        let n = word_len(s) as int;
        let rest = s.skip(n);
        law_words_hold_the_text(rest);
        lemma_ink(s, n);
        let first = seq![s.take(n)];
        law_joined_parts(first, words(rest), s.take(n), Seq::empty());
        if words(rest).len() == 0 {
            assert(first + words(rest) =~= first);
            assert(s.take(n) + ink(rest) =~= s.take(n));
        } else {
            assert(s.take(n) + Seq::<char>::empty() + ink(rest) =~= s.take(n) + ink(rest));
        }
        let all = words(s);
        assert forall|i: int| 0 <= i < all.len() implies (#[trigger] all[i]).len() > 0 && forall|
            j: int,
        |
            0 <= j < all[i].len() ==> !is_white(#[trigger] all[i][j]) by {
            if i > 0 {
                assert(all[i] == words(rest)[i - 1]);
            }
        }
    }
}

proof fn lemma_word_is_whole(w: Seq<char>, rest: Seq<char>)
    requires
        forall|i: int| 0 <= i < w.len() ==> !is_white(#[trigger] w[i]),
        rest.len() > 0 ==> is_white(rest[0]),
    ensures
        word_len(w + rest) == w.len(),
    decreases w.len(),
{
    if w.len() == 0 {
        assert(w + rest =~= rest);
    } else {
        let v = w.drop_first();
        assert forall|i: int| 0 <= i < v.len() implies !is_white(#[trigger] v[i]) by {
            assert(v[i] == w[i + 1]);
        }
        lemma_word_is_whole(v, rest);
        assert((w + rest)[0] == w[0]);
        assert((w + rest).drop_first() =~= v + rest);
    }
}

/// A text is split into words at its white space and nowhere else: white space in front
/// changes nothing, and a run of other characters up to white space is one word.
pub proof fn law_words_are_split_at_white_space(w: Seq<char>, space: char, rest: Seq<char>)
    requires
        w.len() > 0,
        forall|i: int| 0 <= i < w.len() ==> !is_white(#[trigger] w[i]),
        is_white(space),
    ensures
        words(w + seq![space] + rest) == seq![w] + words(rest),
        words(seq![space] + rest) == words(rest),
        words(w) == seq![w],
        words(Seq::empty()).len() == 0,
{
    let tail = seq![space] + rest;
    assert(tail.drop_first() =~= rest);
    let s = w + seq![space] + rest;
    assert(s =~= w + tail);
    lemma_word_is_whole(w, tail);
    assert(s.take(w.len() as int) =~= w);
    assert(s.skip(w.len() as int) =~= tail);
    assert(!is_white(w[0]));
    assert(s[0] == w[0]);
    assert(words(tail) == words(rest));
    assert(words(s) == seq![s.take(w.len() as int)] + words(tail));
    lemma_word_is_whole(w, Seq::empty());
    assert(w + Seq::<char>::empty() =~= w);
    assert(w.take(w.len() as int) =~= w);
    assert(w.skip(w.len() as int) =~= Seq::<char>::empty());
    assert(words(Seq::<char>::empty()) =~= Seq::<Seq<char>>::empty());
    assert(words(w) =~= seq![w]);
}

/// These characters are white space and no others: the control characters that move on,
/// the spaces of all widths, and the separators of lines and paragraphs.
pub proof fn law_white_space(c: char)
    ensures
        is_white(c) <==> {
            let v = c as u32;
            ||| v == 0x09 || v == 0x0a || v == 0x0b || v == 0x0c || v == 0x0d
            ||| v == 0x20 || v == 0x85 || v == 0xa0
            ||| v == 0x1680
            ||| 0x2000 <= v <= 0x200a
            ||| v == 0x2028 || v == 0x2029 || v == 0x202f || v == 0x205f
            ||| v == 0x3000
        },
{
}

proof fn lemma_first_bytes(s: Seq<char>)
    requires
        s.len() > 0,
    ensures
        byte_len(s) == byte_len(s.drop_first()) + width(s[0]),
    decreases s.len(),
{
    let rest = s.drop_first();
    if s.len() == 1 {
        assert(s.drop_last() =~= Seq::<char>::empty());
        assert(rest =~= Seq::<char>::empty());
    } else {
        lemma_first_bytes(s.drop_last());
        assert(s.drop_last().drop_first() =~= rest.drop_last());
        assert(s.drop_last()[0] == s[0]);
        assert(rest.last() == s.last());
    }
}

/// The bytes of a text are those of its UTF-8 encoding.
pub proof fn law_bytes_are_those_of_utf8(s: Seq<char>)
    ensures
        byte_len(s) == vstd::utf8::encode_utf8(s).len(),
    decreases s.len(),
{
    if s.len() > 0 {
        lemma_first_bytes(s);
        law_bytes_are_those_of_utf8(s.drop_first());
        vstd::utf8::char_is_scalar(s[0]);
    }
}

/// Capital letters of ASCII are taken for small ones and nothing else is changed, so texts
/// that differ in the case of such letters are the same.
pub proof fn law_case_is_ignored(a: Seq<char>, b: Seq<char>)
    ensures
        same_ignoring_case(a, b) <==> a.len() == b.len() && forall|i: int|
            #![trigger a[i]]
            #![trigger b[i]]
            0 <= i < a.len() ==> {
                ||| a[i] == b[i]
                ||| 'A' <= a[i] <= 'Z' && b[i] as u32 == a[i] as u32 + 32
                ||| 'A' <= b[i] <= 'Z' && a[i] as u32 == b[i] as u32 + 32
            },
{
    if a.len() == b.len() {
        assert forall|i: int| 0 <= i < a.len() implies (lower(a[i]) == lower(#[trigger] b[i]) <==> {
            ||| a[i] == b[i]
            ||| 'A' <= a[i] <= 'Z' && b[i] as u32 == a[i] as u32 + 32
            ||| 'A' <= b[i] <= 'Z' && a[i] as u32 == b[i] as u32 + 32
        }) by {
            lemma_lower(a[i]);
            lemma_lower(b[i]);
        }
    }
}

proof fn lemma_lower(c: char)
    ensures
        'A' <= c <= 'Z' ==> lower(c) as u32 == c as u32 + 32,
        !('A' <= c <= 'Z') ==> lower(c) == c,
{
}

/// The name of a file is its stem, a dot and its extension.
pub proof fn law_name_is_stem_and_extension(name: Seq<char>)
    ensures
        extension(name) matches Some(e) ==> name == stem(name) + "."@ + e && stem(name).len() > 0
            && !e.contains('.'),
        extension(name) is None ==> stem(name) == name,
{
    lemma_last_index(name, '.');
    reveal_strlit(".");
    if let Some(k) = dot(name) {
        assert(name =~= name.take(k) + "."@ + name.skip(k + 1));
    }
}

/// What stands behind the last dot of a name is its extension, unless nothing stands before
/// that dot.
pub proof fn law_extension_is_found(front: Seq<char>, ext: Seq<char>)
    requires
        front.len() > 0,
        !ext.contains('.'),
    ensures
        extension(front + "."@ + ext) == Some(ext),
{
    let name = front + "."@ + ext;
    let n = front.len() as int;
    reveal_strlit(".");
    assert(name[n] == '.');
    lemma_last_index(name, '.');
    assert(name.contains('.'));
    let k = last_index(name, '.')->0;
    if k > n {
        assert(name[k] == ext[k - n - 1]);
        assert(ext.contains('.'));
    }
    assert(k == n);
    assert(dot(name) == Some(n));
    assert(name.skip(n + 1) =~= ext);
}

/// A line and what follows its line feed are split where the line feed is; the carriage
/// return before it goes too. A text without line feeds is one line, unless it is empty.
pub proof fn law_lines_are_split_at_line_feeds(line: Seq<char>, rest: Seq<char>)
    requires
        !line.contains('\n'),
        line.len() > 0 ==> line.last() != '\r',
    ensures
        lines_in(line + seq!['\n'] + rest) == seq![line] + lines_in(rest),
        lines_in(line + seq!['\r', '\n'] + rest) == seq![line] + lines_in(rest),
        lines_in(line) == if line.len() == 0 {
            Seq::<Seq<char>>::empty()
        } else {
            seq![line]
        },
{
    let a = line + seq!['\n'] + rest;
    let b = line + seq!['\r', '\n'] + rest;
    let n = line.len() as int;
    lemma_line_end_at(a, n);
    lemma_line_end_at(b, n + 1);
    assert(a.take(n) =~= line);
    assert(a.skip(n + 1) =~= rest);
    assert(b.take(n + 1) =~= line.push('\r'));
    assert(line.push('\r').drop_last() =~= line);
    assert(b.skip(n + 2) =~= rest);
    if line.len() > 0 {
        lemma_no_line_end(line);
    }
}

proof fn lemma_line_end_at(s: Seq<char>, i: int)
    requires
        0 <= i < s.len(),
        s[i] == '\n',
        forall|j: int| 0 <= j < i ==> #[trigger] s[j] != '\n',
    ensures
        line_end(s) == Some(i),
    decreases i,
{
    if i > 0 {
        assert(s[0] != '\n');
        let t = s.drop_first();
        assert forall|j: int| 0 <= j < i - 1 implies #[trigger] t[j] != '\n' by {
            assert(t[j] == s[j + 1]);
        }
        lemma_line_end_at(t, i - 1);
    }
}

proof fn lemma_no_line_end(s: Seq<char>)
    requires
        !s.contains('\n'),
    ensures
        line_end(s) is None,
    decreases s.len(),
{
    if s.len() > 0 {
        assert(s.contains(s[0]));
        let t = s.drop_first();
        assert forall|j: int| 0 <= j < t.len() implies #[trigger] t[j] != '\n' by {
            assert(s.contains(s[j + 1]));
        }
        lemma_no_line_end(t);
    }
}

pub proof fn lemma_last_index(s: Seq<char>, c: char)
    ensures
        match last_index(s, c) {
            Some(k) => 0 <= k < s.len() && s[k] == c && forall|j: int|
                k < j < s.len() ==> #[trigger] s[j] != c,
            None => !s.contains(c),
        },
    decreases s.len(),
{
    if s.len() > 0 && s.last() != c {
        lemma_last_index(s.drop_last(), c);
        match last_index(s.drop_last(), c) {
            Some(k) => {
                assert(s.drop_last()[k] == s[k]);
                assert forall|j: int| k < j < s.len() implies #[trigger] s[j] != c by {
                    if j < s.len() - 1 {
                        assert(s.drop_last()[j] == s[j]);
                    }
                }
            },
            None => {
                assert forall|j: int| 0 <= j < s.len() implies #[trigger] s[j] != c by {
                    if j < s.len() - 1 {
                        assert(s.drop_last()[j] == s[j]);
                        assert(s.drop_last().contains(s[j]));
                    }
                }
            },
        }
    }
}

} // verus!
