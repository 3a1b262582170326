//! What holds of what a run reads from messages, calls and context files.
use crate::agent::{
    call_path, call_paths, calls_in, canonical_paths, discovery_meta, discovery_text, file_keys,
    file_text, first_of_role, first_text, has_text, is_file_tool, shown_files, turn_request, unseen,
    CallView, ContextFileView, Host, SetupView,
};
use crate::json::{text_array, texts_in};
use crate::model::{BlockView, MessageView, Role};
use crate::text::{lemma_occurs, lemma_occurs_within, occurs};
use vstd::prelude::*;

verus! {

// ---------------------------------------------------------------------------
// Messages
// ---------------------------------------------------------------------------

/// The text that counts is the first among the blocks, whatever comes before it that is no
/// text and whatever comes after it.
pub proof fn law_first_text_counts(
    before: Seq<BlockView>,
    text: Seq<char>,
    after: Seq<BlockView>,
)
    requires
        forall|i: int| 0 <= i < before.len() ==> !((#[trigger] before[i]) is Text),
    ensures
        first_text(before + seq![BlockView::Text { text }] + after) == Some(text),
        first_text(before) is None,
        has_text(before + seq![BlockView::Text { text }] + after),
        !has_text(before),
    decreases before.len(),
{
    let all = before + seq![BlockView::Text { text }] + after;
    assert(all[before.len() as int] == (BlockView::Text { text }));
    if before.len() > 0 {
        let rest = before.drop_first();
        assert forall|i: int| 0 <= i < rest.len() implies !((#[trigger] rest[i]) is Text) by {
            assert(rest[i] == before[i + 1]);
        }
        law_first_text_counts(rest, text, after);
        assert(all[0] == before[0]);
        assert(all.drop_first() =~= rest + seq![BlockView::Text { text }] + after);
    }
}

/// The message that counts is the first of its role, whatever others stand around it.
pub proof fn law_first_message_counts(
    before: Seq<MessageView>,
    message: MessageView,
    after: Seq<MessageView>,
    role: Role,
)
    requires
        forall|i: int| 0 <= i < before.len() ==> (#[trigger] before[i]).role != role,
        message.role == role,
    ensures
        first_of_role(before + seq![message] + after, role) == Some(message),
        first_of_role(before, role) is None,
    decreases before.len(),
{
    let all = before + seq![message] + after;
    if before.len() > 0 {
        let rest = before.drop_first();
        assert forall|i: int| 0 <= i < rest.len() implies (#[trigger] rest[i]).role != role by {
            assert(rest[i] == before[i + 1]);
        }
        law_first_message_counts(rest, message, after, role);
        assert(all[0] == before[0]);
        assert(all.drop_first() =~= rest + seq![message] + after);
    } else {
        assert(all[0] == message);
    }
}

/// The request of a turn is made of what the run was set up with, the prompt and the whole
/// conversation. Only a single turn goes without the tools, and only it may use those of
/// the provider.
pub proof fn law_requests_are_made_of_the_setup(
    setup: SetupView,
    prompt: Seq<char>,
    messages: Seq<MessageView>,
)
    ensures
        ({
            let request = turn_request(setup, prompt, messages);
            &&& request.model == setup.model
            &&& request.prompt == prompt
            &&& request.messages == messages
            &&& request.thinking == setup.thinking
            &&& request.max_tokens == setup.max_tokens
            &&& request.native_tools <==> setup.host == Host::Single
            &&& setup.host == Host::Single ==> request.tools.len() == 0
            &&& setup.host != Host::Single ==> request.tools == setup.tools
        }),
{
}

// ---------------------------------------------------------------------------
// Calls
// ---------------------------------------------------------------------------

/// The calls of a response are its tool uses, in their order and each as it stands; other
/// blocks are none.
pub proof fn law_calls_are_read_in_order(
    a: Seq<BlockView>,
    b: Seq<BlockView>,
    block: BlockView,
)
    ensures
        calls_in(a + b) == calls_in(a) + calls_in(b),
        block matches BlockView::ToolUse { id, name, input } ==> calls_in(seq![block]) == seq![
            CallView { id, name, input },
        ],
        !(block is ToolUse) ==> calls_in(seq![block]).len() == 0,
    decreases b.len(),
{
    let none = Seq::<CallView>::empty();
    if b.len() == 0 {
        assert(a + b =~= a);
        assert(calls_in(a) + none =~= calls_in(a));
    } else {
        assert((a + b).drop_last() =~= a + b.drop_last());
        assert((a + b).last() == b.last());
        law_calls_are_read_in_order(a, b.drop_last(), block);
        assert(calls_in(a + b) =~= calls_in(a) + calls_in(b));
    }
    assert(seq![block].drop_last() =~= Seq::<BlockView>::empty());
    assert(calls_in(seq![block].drop_last()) =~= none);
    if let BlockView::ToolUse { id, name, input } = block {
        assert(calls_in(seq![block]) =~= seq![CallView { id, name, input }]);
    }
}

/// The files of some calls are those of each in turn: the path that a call of a tool for
/// files is given, and none of any other call.
pub proof fn law_files_are_read_in_order(a: Seq<CallView>, b: Seq<CallView>, call: CallView)
    ensures
        call_paths(a + b) == call_paths(a) + call_paths(b),
        is_file_tool(call.name) ==> match call.input.text_member("path"@) {
            Some(path) => call_paths(seq![call]) == seq![path],
            None => call_paths(seq![call]).len() == 0,
        },
        !is_file_tool(call.name) ==> call_paths(seq![call]).len() == 0,
        is_file_tool(call.name) <==> (call.name == "read"@ || call.name == "write"@ || call.name
            == "edit"@ || call.name == "Read"@ || call.name == "Write"@ || call.name == "Edit"@),
    decreases b.len(),
{
    let none = Seq::<Seq<char>>::empty();
    if b.len() == 0 {
        assert(a + b =~= a);
        assert(call_paths(a) + none =~= call_paths(a));
    } else {
        assert((a + b).drop_last() =~= a + b.drop_last());
        assert((a + b).last() == b.last());
        law_files_are_read_in_order(a, b.drop_last(), call);
        assert(call_paths(a + b) =~= call_paths(a) + call_paths(b));
    }
    assert(seq![call].drop_last() =~= Seq::<CallView>::empty());
    assert(call_paths(seq![call].drop_last()) =~= none);
    if let Some(path) = call_path(call) {
        assert(call_paths(seq![call]) =~= seq![path]);
    }
}

// ---------------------------------------------------------------------------
// Context files
// ---------------------------------------------------------------------------

/// Files are picked one after the other: each whose key is neither among those seen nor that
/// of one picked before it, and no other.
pub proof fn law_unseen_files_are_picked_in_order(
    a: Seq<ContextFileView>,
    file: ContextFileView,
    seen: Seq<Seq<char>>,
)
    ensures
        unseen(Seq::empty(), seen).len() == 0,
        seen.contains(file.key) ==> unseen(a.push(file), seen) == unseen(a, seen),
        (exists|i: int| 0 <= i < a.len() && (#[trigger] a[i]).key == file.key) ==> unseen(
            a.push(file),
            seen,
        ) == unseen(a, seen),
        !seen.contains(file.key) && !(exists|i: int|
            0 <= i < a.len() && (#[trigger] a[i]).key == file.key) ==> unseen(a.push(file), seen)
            == unseen(a, seen).push(file),
{
    assert(a.push(file).drop_last() =~= a);
    lemma_unseen_keys(a, seen);
    let picked = unseen(a, seen);
    let keys = file_keys(picked);
    if keys.contains(file.key) {
        let k = choose|k: int| 0 <= k < keys.len() && keys[k] == file.key;
        assert(picked.contains(picked[k]));
        let i = choose|i: int| 0 <= i < a.len() && a[i] == picked[k];
        assert(a[i].key == file.key);
    }
    if exists|i: int| 0 <= i < a.len() && (#[trigger] a[i]).key == file.key {
        let i = choose|i: int| 0 <= i < a.len() && (#[trigger] a[i]).key == file.key;
        assert(seen.contains(a[i].key) || keys.contains(a[i].key));
    }
}

proof fn lemma_unseen_keys(files: Seq<ContextFileView>, seen: Seq<Seq<char>>)
    ensures
        forall|f: ContextFileView| #[trigger]
            unseen(files, seen).contains(f) ==> files.contains(f),
        forall|i: int|
            0 <= i < files.len() ==> seen.contains((#[trigger] files[i]).key) || file_keys(
                unseen(files, seen),
            ).contains(files[i].key),
    decreases files.len(),
{
    if files.len() > 0 {
        let fewer = files.drop_last();
        let last = files.last();
        lemma_unseen_keys(fewer, seen);
        let rest = unseen(fewer, seen);
        let all = unseen(files, seen);
        assert(files[files.len() - 1] == last);
        assert forall|f: ContextFileView| #[trigger] all.contains(f) implies files.contains(f) by {
            let k = choose|k: int| 0 <= k < all.len() && all[k] == f;
            if k < rest.len() {
                assert(rest[k] == f);
                assert(rest.contains(f));
                let j = choose|j: int| 0 <= j < fewer.len() && fewer[j] == f;
                assert(files[j] == f);
            } else {
                assert(f == last);
            }
        }
        assert forall|i: int| 0 <= i < files.len() implies seen.contains((#[trigger] files[i]).key)
            || file_keys(all).contains(files[i].key) by {
            if i < fewer.len() {
                assert(fewer[i] == files[i]);
                if !seen.contains(files[i].key) {
                    let keys = file_keys(rest);
                    let k = choose|k: int| 0 <= k < keys.len() && keys[k] == files[i].key;
                    assert(file_keys(all)[k] == keys[k]);
                }
            } else if !seen.contains(last.key) && !file_keys(rest).contains(last.key) {
                assert(file_keys(all)[rest.len() as int] == last.key);
            }
        }
    }
}

/// The model is shown each file under a heading with its path, and its content right below,
/// file after file.
pub proof fn law_files_are_shown_under_their_paths(
    a: Seq<ContextFileView>,
    file: ContextFileView,
    b: Seq<ContextFileView>,
)
    ensures
        discovery_text(a + seq![file]) == discovery_text(a) + ("\n## "@ + file.path + "\n\n"@
            + file.content + "\n"@),
        discovery_text(Seq::empty()) == "# Context Files (discovered)\n"@,
        occurs(
            "\n## "@ + file.path + "\n\n"@ + file.content + "\n"@,
            discovery_text(a + seq![file] + b),
        ),
    decreases b.len(),
{
    let one = a + seq![file];
    let block = "\n## "@ + file.path + "\n\n"@ + file.content + "\n"@;
    let head = "# Context Files (discovered)\n"@;
    assert(one.drop_last() =~= a);
    assert(discovery_text(one) =~= discovery_text(a) + block);
    assert(discovery_text(Seq::empty()) =~= head);
    if b.len() == 0 {
        assert(one + b =~= one);
        lemma_occurs(discovery_text(a), block, Seq::empty());
    } else {
        law_files_are_shown_under_their_paths(a, file, b.drop_last());
        let all = one + b;
        assert(all.drop_last() =~= one + b.drop_last());
        let before = discovery_text(all.drop_last());
        assert(discovery_text(all) =~= before + file_text(all.last()));
        lemma_occurs(Seq::empty(), before, file_text(all.last()));
        lemma_occurs_within(block, before, discovery_text(all));
    }
}

/// A message that shows files is marked with the paths to know them by, in their order;
/// files without such a path leave none.
pub proof fn law_files_are_marked_in_order(
    a: Seq<ContextFileView>,
    b: Seq<ContextFileView>,
    file: ContextFileView,
)
    ensures
        canonical_paths(a + b) == canonical_paths(a) + canonical_paths(b),
        file.canonical matches Some(p) ==> canonical_paths(seq![file]) == seq![p],
        file.canonical is None ==> canonical_paths(seq![file]).len() == 0,
        discovery_meta(a).array_member("agents_context"@) is Some,
        texts_in(discovery_meta(a).array_member("agents_context"@)->0) == canonical_paths(a),
    decreases b.len(),
{
    let none = Seq::<Seq<char>>::empty();
    if b.len() == 0 {
        assert(a + b =~= a);
        assert(canonical_paths(a) + none =~= canonical_paths(a));
    } else {
        assert((a + b).drop_last() =~= a + b.drop_last());
        assert((a + b).last() == b.last());
        law_files_are_marked_in_order(a, b.drop_last(), file);
        assert(canonical_paths(a + b) =~= canonical_paths(a) + canonical_paths(b));
    }
    assert(seq![file].drop_last() =~= Seq::<ContextFileView>::empty());
    assert(canonical_paths(seq![file].drop_last()) =~= none);
    if let Some(p) = file.canonical {
        assert(canonical_paths(seq![file]) =~= seq![p]);
    }
    crate::tool_laws::law_texts_are_read_in_order(
        Seq::empty(),
        Seq::empty(),
        canonical_paths(a),
    );
    assert(discovery_meta(a).array_member("agents_context"@) == text_array(
        canonical_paths(a),
    ).array());
}

/// The files that a conversation has been shown are those that its messages are marked with,
/// one message after the other.
pub proof fn law_marks_are_read_in_order(
    a: Seq<MessageView>,
    b: Seq<MessageView>,
    message: MessageView,
)
    ensures
        shown_files(a + b) == shown_files(a) + shown_files(b),
        message.meta is None ==> shown_files(seq![message]).len() == 0,
        message.meta matches Some(meta) ==> match meta.array_member("agents_context"@) {
            Some(items) => shown_files(seq![message]) == texts_in(items),
            None => shown_files(seq![message]).len() == 0,
        },
    decreases b.len(),
{
    let none = Seq::<Seq<char>>::empty();
    if b.len() == 0 {
        assert(a + b =~= a);
        assert(shown_files(a) + none =~= shown_files(a));
    } else {
        assert((a + b).drop_last() =~= a + b.drop_last());
        assert((a + b).last() == b.last());
        law_marks_are_read_in_order(a, b.drop_last(), message);
        assert(shown_files(a + b) =~= shown_files(a) + shown_files(b));
    }
    assert(seq![message].drop_last() =~= Seq::<MessageView>::empty());
    assert(shown_files(seq![message].drop_last()) =~= none);
    if let Some(meta) = message.meta {
        if let Some(items) = meta.array_member("agents_context"@) {
            assert(shown_files(seq![message]) =~= texts_in(items));
        }
    }
}

} // verus!
