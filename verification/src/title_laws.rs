//! What holds of titles and previews over the messages they are made from.
use crate::model::{BlockView, MessageView, Role};
use crate::sessions::SessionView;
use crate::text::{
    byte_len, clip, fit, joined, last_index, lemma_fit, lemma_occurs, lemma_occurs_within, occurs,
    trimmed, words,
};
use crate::text_laws::{
    blank, law_blank_texts_are_trimmed_away, law_case_is_ignored, law_clip_keeps_what_fits,
    law_joined_parts, law_trimmed_text, lemma_last_index,
};
use crate::title::{
    block_entries, deferred, entries, entry_line, entry_lines, last_of_role,
    law_title_context_is_bounded, preview, selected, settled_title, shortened, tail_start, texts_of,
    title_in, title_message, title_request, total_bytes, trimmed_all, EntryView,
};
use vstd::prelude::*;

verus! {

// ---------------------------------------------------------------------------
// What the generator is shown
// ---------------------------------------------------------------------------

/// The texts of a message are taken one after the other, under its label. A text counts
/// where it is not blank, without the white space around it, and cut where it is long.
pub proof fn law_texts_are_taken_in_order(
    label: Seq<char>,
    a: Seq<BlockView>,
    b: Seq<BlockView>,
    block: BlockView,
)
    ensures
        block_entries(label, a + b) == block_entries(label, a) + block_entries(label, b),
        !(block is Text) ==> block_entries(label, seq![block]).len() == 0,
        block matches BlockView::Text { text } ==> {
            &&& blank(text) ==> block_entries(label, seq![block]).len() == 0
            &&& !blank(text) ==> block_entries(label, seq![block]) == seq![
                EntryView { label, text: clip(trimmed(text), 600) },
            ]
            &&& !blank(text) && byte_len(trimmed(text)) <= 600 ==> block_entries(
                label,
                seq![block],
            )[0].text == trimmed(text)
        },
    decreases b.len(),
{
    let none = Seq::<EntryView>::empty();
    if b.len() == 0 {
        assert(a + b =~= a);
        assert(block_entries(label, a) + none =~= block_entries(label, a));
    } else {
        assert((a + b).drop_last() =~= a + b.drop_last());
        assert((a + b).last() == b.last());
        law_texts_are_taken_in_order(label, a, b.drop_last(), block);
        assert(block_entries(label, a + b) =~= block_entries(label, a) + block_entries(label, b));
    }
    assert(seq![block].drop_last() =~= Seq::<BlockView>::empty());
    assert(block_entries(label, seq![block].drop_last()) =~= none);
    if let BlockView::Text { text } = block {
        law_blank_texts_are_trimmed_away(text);
        law_clip_keeps_what_fits(trimmed(text), 600);
        if !blank(text) {
            assert(block_entries(label, seq![block]) =~= seq![
                EntryView { label, text: clip(trimmed(text), 600) },
            ]);
        }
    }
}

/// The messages of a conversation are taken in their order, each under the name of who
/// wrote it, and those of the system not at all.
pub proof fn law_messages_are_taken_in_order(
    a: Seq<MessageView>,
    b: Seq<MessageView>,
    message: MessageView,
)
    ensures
        entries(a + b) == entries(a) + entries(b),
        message.role == Role::System ==> entries(seq![message]).len() == 0,
        message.role == Role::User ==> entries(seq![message]) == block_entries(
            "user"@,
            message.content,
        ),
        message.role == Role::Assistant ==> entries(seq![message]) == block_entries(
            "assistant"@,
            message.content,
        ),
    decreases b.len(),
{
    let none = Seq::<EntryView>::empty();
    if b.len() == 0 {
        assert(a + b =~= a);
        assert(entries(a) + none =~= entries(a));
    } else {
        assert((a + b).drop_last() =~= a + b.drop_last());
        assert((a + b).last() == b.last());
        law_messages_are_taken_in_order(a, b.drop_last(), message);
        assert(entries(a + b) =~= entries(a) + entries(b));
    }
    assert(seq![message].drop_last() =~= Seq::<MessageView>::empty());
    assert(entries(seq![message].drop_last()) =~= none);
    if message.role == Role::User {
        assert(entries(seq![message]) =~= block_entries("user"@, message.content));
    } else if message.role == Role::Assistant {
        assert(entries(seq![message]) =~= block_entries("assistant"@, message.content));
    }
}

proof fn lemma_tail_is_longest(list: Seq<EntryView>, i: nat, total: nat)
    requires
        1 <= i <= list.len(),
        total <= 4000,
    ensures
        ({
            let t = tail_start(list, i, total);
            &&& 1 <= t <= i
            &&& t > 1 ==> total + total_bytes(list.subrange(t as int, i as int)) + byte_len(
                list[t - 1].text,
            ) > 4000
        }),
    decreases i,
{
    let t = tail_start(list, i, total);
    if i > 1 && total + byte_len(list[i - 1].text) <= 4000 {
        lemma_tail_is_longest(list, (i - 1) as nat, total + byte_len(list[i - 1].text));
        let shorter = list.subrange(t as int, i - 1);
        assert(list.subrange(t as int, i as int) =~= shorter.push(list[i - 1]));
        lemma_total(shorter, list[i - 1]);
    } else {
        assert(list.subrange(t as int, i as int) =~= Seq::<EntryView>::empty());
    }
}

proof fn lemma_total(list: Seq<EntryView>, last: EntryView)
    ensures
        total_bytes(list.push(last)) == total_bytes(list) + byte_len(last.text),
    decreases list.len(),
{
    if list.len() == 0 {
        reveal_with_fuel(total_bytes, 2);
        assert(list.push(last).drop_first() =~= Seq::<EntryView>::empty());
        assert(list.push(last)[0] == last);
    } else {
        assert(list.push(last)[0] == list[0]);
        lemma_total(list.drop_first(), last);
        assert(list.push(last).drop_first() =~= list.drop_first().push(last));
    }
}

/// The generator is shown the first text and behind it the last ones: all that follow some
/// point, in their order, as many as fit in 4000 bytes and no fewer.
pub proof fn law_generator_sees_both_ends(messages: Seq<MessageView>)
    requires
        entries(messages).len() > 0,
    ensures
        ({
            let list = entries(messages);
            let shown = selected(list);
            let t = list.len() - (shown.len() - 1);
            &&& 1 <= t <= list.len()
            &&& shown == seq![list[0]] + list.skip(t)
            &&& total_bytes(shown) <= 4000
            &&& t > 1 ==> total_bytes(shown) + byte_len(list[t - 1].text) > 4000
        }),
{
    let list = entries(messages);
    law_title_context_is_bounded(messages);
    let first = byte_len(list[0].text);
    let t = tail_start(list, list.len(), first) as int;
    lemma_tail_bounds(list, list.len(), first);
    let shown = selected(list);
    assert(shown.len() == 1 + (list.len() - t));
    assert(shown[0] == list[0]);
    assert(shown.drop_first() =~= list.skip(t));
    lemma_tail_is_longest(list, list.len(), first);
    assert(list.subrange(t, list.len() as int) =~= list.skip(t));
}

proof fn lemma_tail_bounds(list: Seq<EntryView>, i: nat, total: nat)
    requires
        1 <= i <= list.len(),
    ensures
        1 <= tail_start(list, i, total) <= i,
    decreases i,
{
    if i > 1 && total + byte_len(list[i - 1].text) <= 4000 {
        lemma_tail_bounds(list, (i - 1) as nat, total + byte_len(list[i - 1].text));
    }
}

proof fn lemma_part_occurs(parts: Seq<Seq<char>>, sep: Seq<char>, i: int)
    requires
        0 <= i < parts.len(),
    ensures
        occurs(parts[i], joined(parts, sep)),
{
    let (a, b) = (parts.take(i), parts.skip(i + 1));
    let part = parts[i];
    assert(parts =~= a + seq![part] + b);
    law_joined_parts(a, seq![part], part, sep);
    law_joined_parts(a + seq![part], b, part, sep);
    let head = if a.len() == 0 {
        Seq::<char>::empty()
    } else {
        joined(a, sep) + sep
    };
    assert(a.len() == 0 ==> a + seq![part] =~= seq![part]);
    assert(joined(a + seq![part], sep) =~= head + part);
    let tail = if b.len() == 0 {
        Seq::<char>::empty()
    } else {
        sep + joined(b, sep)
    };
    assert(b.len() == 0 ==> a + seq![part] + b =~= a + seq![part]);
    assert(joined(parts, sep) =~= head + part + tail);
    lemma_occurs(head, part, tail);
}

/// Each text that is shown stands in the request for a title behind its label.
pub proof fn law_shown_texts_are_asked_about(messages: Seq<MessageView>, i: int)
    requires
        0 <= i < selected(entries(messages)).len(),
        entries(messages).len() > 0,
    ensures
        ({
            let entry = selected(entries(messages))[i];
            &&& title_request(messages) is Some
            &&& occurs(
                "["@ + entry.label + "]: "@ + entry.text,
                title_request(messages)->0,
            )
        }),
{
    let list = selected(entries(messages));
    let lines = entry_lines(list);
    lemma_part_occurs(lines, "\n\n"@, i);
    assert(lines[i] == entry_line(list[i]));
    let head = "Generate a title for this conversation:\n\n"@;
    let all = joined(lines, "\n\n"@);
    lemma_occurs(head, all, Seq::empty());
    lemma_occurs_within(lines[i], all, head + all);
}

/// A conversation without text asks for nothing; otherwise the generator is asked in one
/// message, as the user, which holds the request and nothing else.
pub proof fn law_titles_are_asked_for_in_one_message(messages: Seq<MessageView>, text: Seq<char>)
    ensures
        title_request(messages) is None <==> entries(messages).len() == 0,
        title_message(text).role == Role::User,
        title_message(text).content == seq![BlockView::Text { text }],
        title_message(text).meta is None,
        title_message(text).id == "title_ctx"@,
{
}

// ---------------------------------------------------------------------------
// Titles
// ---------------------------------------------------------------------------

/// The texts of a response are read one after the other, and nothing but its texts.
pub proof fn law_responses_are_read_in_order(
    a: Seq<BlockView>,
    b: Seq<BlockView>,
    block: BlockView,
)
    ensures
        texts_of(a + b) == texts_of(a) + texts_of(b),
        block matches BlockView::Text { text } ==> texts_of(seq![block]) == seq![text],
        !(block is Text) ==> texts_of(seq![block]).len() == 0,
    decreases b.len(),
{
    let none = Seq::<Seq<char>>::empty();
    if b.len() == 0 {
        assert(a + b =~= a);
        assert(texts_of(a) + none =~= texts_of(a));
    } else {
        assert((a + b).drop_last() =~= a + b.drop_last());
        assert((a + b).last() == b.last());
        law_responses_are_read_in_order(a, b.drop_last(), block);
        assert(texts_of(a + b) =~= texts_of(a) + texts_of(b));
    }
    assert(seq![block].drop_last() =~= Seq::<BlockView>::empty());
    assert(texts_of(seq![block].drop_last()) =~= none);
    if let BlockView::Text { text } = block {
        assert(texts_of(seq![block]) =~= seq![text]);
    }
}

/// The title in a response of one text is that text with single spaces between its words;
/// in one of two texts there is a space between the two as well.
pub proof fn law_titles_are_what_was_answered(
    before: Seq<char>,
    text: Seq<char>,
    after: Seq<char>,
    other: Seq<char>,
)
    requires
        blank(before),
        blank(after),
        text.len() > 0,
        !crate::text::is_white(text[0]),
        !crate::text::is_white(text.last()),
    ensures
        title_in(seq![BlockView::Text { text: before + text + after }]) == joined(
            words(text),
            " "@,
        ),
        title_in(
            seq![BlockView::Text { text: before + text + after }, BlockView::Text { text: other }],
        ) == joined(words(text + " "@ + trimmed(other)), " "@),
{
    let whole = before + text + after;
    law_trimmed_text(before, text, after);
    let one = seq![BlockView::Text { text: whole }];
    let two = seq![BlockView::Text { text: whole }, BlockView::Text { text: other }];
    law_responses_are_read_in_order(one, seq![BlockView::Text { text: other }], one[0]);
    law_responses_are_read_in_order(one, seq![BlockView::Text { text: other }], two[1]);
    assert(two =~= one + seq![BlockView::Text { text: other }]);
    assert(texts_of(two) =~= seq![whole, other]);
    assert(trimmed_all(texts_of(one)) =~= seq![text]);
    assert(trimmed_all(texts_of(two)) =~= seq![text] + seq![trimmed(other)]);
    law_joined_parts(seq![text], seq![trimmed(other)], text, " "@);
    law_joined_parts(seq![text], seq![trimmed(other)], trimmed(other), " "@);
}

/// A response sets the title where it gives one and no later generation has begun; one
/// that is empty, or the word for putting it off in capitals or small letters, sets none.
pub proof fn law_answers_set_the_title(
    session: SessionView,
    content: Seq<BlockView>,
    word: Seq<char>,
)
    ensures
        deferred(title_in(content)) || settled_title(session, session.title_gen_seq, content)
            == Some(title_in(content)),
        deferred(word) <==> word.len() == 0 || (word.len() == 5 && (word[0] == 'D' || word[0]
            == 'd') && (word[1] == 'E' || word[1] == 'e') && (word[2] == 'F' || word[2] == 'f') && (
        word[3] == 'E' || word[3] == 'e') && (word[4] == 'R' || word[4] == 'r')),
{
    reveal_strlit("DEFER");
    let defer = "DEFER"@;
    law_case_is_ignored(word, defer);
    assert(defer.len() == 5);
    assert(defer[0] == 'D' && defer[1] == 'E' && defer[2] == 'F' && defer[3] == 'E' && defer[4]
        == 'R');
    if deferred(word) && word.len() == 5 {
        assert(defer[0] == 'D');
        assert(word[0] == 'D' || word[0] as u32 == 100);
        assert(word[1] == 'E' || word[1] as u32 == 101);
        assert(word[2] == 'F' || word[2] as u32 == 102);
        assert(word[3] == 'E' || word[3] as u32 == 101);
        assert(word[4] == 'R' || word[4] as u32 == 114);
    }
}

// ---------------------------------------------------------------------------
// Previews
// ---------------------------------------------------------------------------

/// The preview is one of the last response: what others say later does not change it, and
/// a response does, whatever was said before.
pub proof fn law_previews_show_the_last_response(
    messages: Seq<MessageView>,
    earlier: Seq<MessageView>,
    message: MessageView,
)
    ensures
        message.role != Role::Assistant ==> preview(messages.push(message)) == preview(messages),
        message.role == Role::Assistant ==> preview(messages.push(message)) == preview(
            earlier.push(message),
        ),
        message.role == Role::Assistant ==> last_of_role(messages.push(message), Role::Assistant)
            == Some(message),
{
    assert(messages.push(message).drop_last() =~= messages);
}

/// The preview of a response of one text is that text where it is short, without the white
/// space around it; a blank one has none.
pub proof fn law_short_responses_are_previewed_whole(
    messages: Seq<MessageView>,
    message: MessageView,
    text: Seq<char>,
)
    requires
        message.role == Role::Assistant,
        message.content == seq![BlockView::Text { text }],
    ensures
        blank(text) ==> preview(messages.push(message)) is None,
        !blank(text) && byte_len(trimmed(text)) <= 100 ==> preview(messages.push(message)) == Some(
            trimmed(text),
        ),
{
    law_responses_are_read_in_order(message.content, Seq::empty(), BlockView::Text { text });
    law_joined_parts(seq![text], Seq::empty(), text, " "@);
    law_blank_texts_are_trimmed_away(text);
    assert(messages.push(message).drop_last() =~= messages);
    law_previews_show_the_last_response(messages, messages, message);
}

/// A text that is too long for a preview is cut at the last space among what fits in a
/// hundred bytes, or where no more fits if there is none, and an ellipsis shows that it
/// goes on.
pub proof fn law_long_texts_are_cut_between_words(text: Seq<char>)
    requires
        byte_len(text) > 100,
    ensures
        exists|n: int, m: int|
            #![trigger text.take(n), text.take(m)]
            {
                &&& 0 <= n <= m < text.len()
                &&& shortened(text) == text.take(n) + "..."@
                &&& byte_len(text.take(m)) <= 100
                &&& byte_len(text.take(m + 1)) > 100
                &&& n == m ==> !text.take(m).contains(' ')
                &&& n < m ==> text[n] == ' ' && !text.subrange(n + 1, m).contains(' ')
            },
{
    lemma_fit(text, 100);
    let m = fit(text, 100) as int;
    let cut = text.take(m);
    if m == text.len() {
        assert(cut =~= text);
    }
    lemma_last_index(cut, ' ');
    let n = match last_index(cut, ' ') {
        Some(k) => k,
        None => cut.len() as int,
    };
    if n < m {
        assert(cut[n] == text[n]);
        assert forall|j: int| 0 <= j < m - (n + 1) implies #[trigger] text.subrange(n + 1, m)[j]
            != ' ' by {
            assert(cut[n + 1 + j] != ' ');
        }
    }
    assert(shortened(text) == text.take(n) + "..."@);
    assert(byte_len(text.take(m)) <= 100 && byte_len(text.take(m + 1)) > 100);
}

} // verus!
