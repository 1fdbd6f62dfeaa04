//! Copying rows of a transcript, and the chords of keys that do it.
use vstd::prelude::*;
use crate::clipboard::{clip_for_clipboard, MAX_CLIPBOARD_BYTES};
use crate::history_cell::{
    entry_args, entry_result, entry_results, item_text, join, GroupView, ItemView, KindView,
    ToolCallGroupCell, ToolCallState, TranscriptItem,
};
use crate::protocol::opt_text;
use crate::text::{
    byte_len, cutting_keeps_a_prefix, decimal, numeral, owned, str_len, within_bytes,
};
use crate::transcript::{marked_entry, Selection};

verus! {

// ---------------------------------------------------------------------------
// Chords
// ---------------------------------------------------------------------------

/// Window within which a second Esc press enters transcript-select mode, in
/// nanoseconds.
pub const DOUBLE_ESC_WINDOW: u64 = 500_000_000;

/// Window within which a second `y` press upgrades a tool-result copy to args,
/// in nanoseconds.
pub const COPY_CHORD_WINDOW: u64 = 500_000_000;

/// Window within which a `g` prefix completes as `gg` (top), in nanoseconds.
pub const GOTO_CHORD_WINDOW: u64 = 500_000_000;

/// Whether no more than `window` went by between two times.
pub open spec fn soon_after(now: u64, before: u64, window: u64) -> bool {
    now <= before + window
}

/// Whether a key that was armed before is completed now.
pub open spec fn completes(armed: Option<u64>, now: u64, window: u64) -> bool {
    match armed {
        Some(before) => soon_after(now, before, window),
        None => false,
    }
}

/// Whether no more than `window` went by since `before`.
pub fn within_window(now: u64, before: u64, window: u64) -> (r: bool)
    ensures
        r == soon_after(now, before, window),
{
    now.saturating_sub(before) <= window
}

/// Whether a key that was armed before is completed now.
pub fn chord_completes(armed: Option<u64>, now: u64, window: u64) -> (r: bool)
    ensures
        r == completes(armed, now, window),
{
    match armed {
        Some(before) => within_window(now, before, window),
        None => false,
    }
}

// ---------------------------------------------------------------------------
// What a row copies
// ---------------------------------------------------------------------------

/// A row and, in a batch, a call whose arguments a second `y` would copy, and
/// when the first one was.
pub type PendingArgs = Option<(usize, Option<usize>, u64)>;

/// What `y` copies: the text and what is said of it, and whether a second `y`
/// copies more.
#[derive(Debug)]
pub struct CopyChoice {
    pub payload: Option<String>,
    pub status: String,
    pub pending: PendingArgs,
}

#[verifier::ext_equal]
pub struct ChoiceView {
    pub payload: Option<Seq<char>>,
    pub status: Seq<char>,
    pub pending: PendingArgs,
}

impl View for CopyChoice {
    type V = ChoiceView;

    open spec fn view(&self) -> ChoiceView {
        ChoiceView {
            payload: opt_text(self.payload),
            status: self.status@,
            pending: self.pending,
        }
    }
}

/// The call of a batch that is copied.
pub open spec fn copied_entry(group: GroupView, entry: Option<usize>) -> Option<usize> {
    if group.is_batch() {
        Some(
            marked_entry(
                group,
                match entry {
                    Some(e) => e,
                    None => 0,
                },
            ),
        )
    } else {
        None
    }
}

/// Whether `y` comes right after another one on the same call.
pub open spec fn repeats(pending: PendingArgs, row: usize, entry: Option<usize>, now: u64) -> bool {
    match pending {
        Some((r, e, at)) => r == row && e == entry && soon_after(now, at, COPY_CHORD_WINDOW),
        None => false,
    }
}

pub open spec fn result_of(group: GroupView, entry: Option<usize>) -> Option<Seq<char>> {
    match entry {
        Some(e) => entry_result(group.entries[e as int]),
        None => group.result(),
    }
}

pub open spec fn args_of(group: GroupView, entry: Option<usize>) -> Seq<char> {
    match entry {
        Some(e) => group.entries[e as int].args,
        None => group.args(),
    }
}

/// What `y` copies of a group of calls: first the result, then the arguments;
/// the arguments at once where there is no result.
pub open spec fn group_choice(
    group: GroupView,
    at: Selection,
    pending: PendingArgs,
    now: u64,
) -> ChoiceView {
    let entry = copied_entry(group, at.entry);
    if repeats(pending, at.item, entry, now) {
        ChoiceView {
            payload: Some(args_of(group, entry)),
            status: "Copied tool arguments"@,
            pending: None,
        }
    } else {
        match result_of(group, entry) {
            Some(result) => ChoiceView {
                payload: Some(result),
                status: "Copied tool result — y again for arguments"@,
                pending: Some((at.item, entry, now)),
            },
            None => ChoiceView {
                payload: Some(args_of(group, entry)),
                status: "No result yet — copied tool arguments"@,
                pending: None,
            },
        }
    }
}

/// What `y` copies of a row.
pub open spec fn choice_of(item: ItemView, at: Selection, pending: PendingArgs, now: u64) -> ChoiceView {
    match item.kind {
        KindView::Group(group) => group_choice(group, at, pending, now),
        _ => match item_text(item.kind) {
            Some(text) => ChoiceView { payload: Some(text), status: "Copied"@, pending: None },
            None => ChoiceView { payload: None, status: "Nothing to copy"@, pending: None },
        },
    }
}

fn choose_of_group(group: &ToolCallGroupCell, at: Selection, pending: PendingArgs, now: u64) -> (r:
    CopyChoice)
    ensures
        r@ == group_choice(group@, at, pending, now),
{
    let entry: Option<usize> = if group.is_batch() {
        let wanted: usize = match at.entry {
            Some(e) => e,
            None => 0,
        };
        let last: usize = group.entry_count() - 1;
        if wanted <= last {
            Some(wanted)
        } else {
            Some(last)
        }
    } else {
        None
    };
    assert(entry == copied_entry(group@, at.entry));
    let chord: bool = match pending {
        Some((row, e, then)) => row == at.item && same_entry(e, entry) && within_window(
            now,
            then,
            COPY_CHORD_WINDOW,
        ),
        None => false,
    };
    if chord {
        return CopyChoice {
            payload: Some(args_text(group, entry)),
            status: owned("Copied tool arguments"),
            pending: None,
        };
    }
    let result: Option<String> = match entry {
        Some(e) => group.copy_entry_result(e),
        None => group.copy_result(),
    };
    match result {
        Some(text) => CopyChoice {
            payload: Some(text),
            status: owned("Copied tool result — y again for arguments"),
            pending: Some((at.item, entry, now)),
        },
        None => CopyChoice {
            payload: Some(args_text(group, entry)),
            status: owned("No result yet — copied tool arguments"),
            pending: None,
        },
    }
}

fn same_entry(a: Option<usize>, b: Option<usize>) -> (r: bool)
    ensures
        r == (a == b),
{
    match (a, b) {
        (Some(x), Some(y)) => x == y,
        (None, None) => true,
        _ => false,
    }
}

fn args_text(group: &ToolCallGroupCell, entry: Option<usize>) -> (r: String)
    requires
        entry matches Some(e) ==> e < group@.entries.len(),
    ensures
        r@ == args_of(group@, entry),
{
    match entry {
        Some(e) => match group.copy_entry_args(e) {
            Some(args) => args,
            None => String::new(),
        },
        None => group.copy_args(),
    }
}

/// What `y` copies of a row.
pub fn choose_copy(item: &TranscriptItem, at: Selection, pending: PendingArgs, now: u64) -> (r:
    CopyChoice)
    ensures
        r@ == choice_of(item@, at, pending, now),
{
    match item.tool_group_cell() {
        Some(group) => {
            return choose_of_group(group, at, pending, now);
        },
        None => {},
    }
    match item.copy_text() {
        Some(text) => CopyChoice { payload: Some(text), status: owned("Copied"), pending: None },
        None => CopyChoice { payload: None, status: owned("Nothing to copy"), pending: None },
    }
}

/// What is said of a copy: its size, and whether it was cut.
pub open spec fn copy_notice(status: Seq<char>, payload: Seq<char>) -> Seq<char> {
    let kept = within_bytes(payload, MAX_CLIPBOARD_BYTES as nat);
    status + " ("@ + numeral(byte_len(kept)) + if byte_len(payload) > MAX_CLIPBOARD_BYTES {
        " bytes, truncated)"@
    } else {
        " bytes)"@
    }
}

/// Cuts a payload for the clipboard, and says so.
pub fn prepare_copy(status: &str, payload: String) -> (r: (String, String))
    ensures
        r.0@ == within_bytes(payload@, MAX_CLIPBOARD_BYTES as nat),
        r.1@ == copy_notice(status@, payload@),
{
    let (kept, truncated): (String, bool) = clip_for_clipboard(payload);
    let mut notice: String = owned(status);
    notice.push_str(" (");
    let size: String = decimal(str_len(kept.as_str()) as u128);
    notice.push_str(size.as_str());
    if truncated {
        notice.push_str(" bytes, truncated)");
    } else {
        notice.push_str(" bytes)");
    }
    (kept, notice)
}

// ---------------------------------------------------------------------------
// Laws
// ---------------------------------------------------------------------------

/// On a call that has a result, one `y` copies the result and a second one,
/// soon enough and on the same call, its arguments.
pub proof fn second_copy_takes_arguments(
    group: GroupView,
    at: Selection,
    pending: PendingArgs,
    now: u64,
    later: u64,
)
    requires
        result_of(group, copied_entry(group, at.entry)) is Some,
        !repeats(pending, at.item, copied_entry(group, at.entry), now),
        soon_after(later, now, COPY_CHORD_WINDOW),
    ensures
        ({
            let entry = copied_entry(group, at.entry);
            let first = group_choice(group, at, pending, now);
            let second = group_choice(group, at, first.pending, later);
            &&& first.payload == result_of(group, entry)
            &&& second.payload == Some(args_of(group, entry))
            &&& second.pending is None
        }),
{
}

/// A chord of two keys is completed within half a second, and never without
/// its first key.
pub proof fn chords_last_half_a_second(armed: u64, now: u64)
    requires
        armed <= now,
    ensures
        completes(Some(armed), now, DOUBLE_ESC_WINDOW) <==> now - armed <= 500_000_000,
        completes(Some(armed), now, COPY_CHORD_WINDOW) <==> now - armed <= 500_000_000,
        completes(Some(armed), now, GOTO_CHORD_WINDOW) <==> now - armed <= 500_000_000,
        !completes(None, now, DOUBLE_ESC_WINDOW),
        !completes(None, now, COPY_CHORD_WINDOW),
        !completes(None, now, GOTO_CHORD_WINDOW),
{
}

/// Of a call that ended, its output is copied, or else its error; of a call
/// that runs, or that ended with neither, its arguments.
pub proof fn calls_copy_their_result(group: GroupView, at: Selection, now: u64, e: int)
    requires
        group.entries.len() > 0,
        group.entries.len() == 1 ==> e == 0,
        group.entries.len() > 1 ==> at.entry is Some && at.entry->0 == e,
        0 <= e < group.entries.len(),
    ensures
        ({
            let call = group.entries[e];
            let choice = group_choice(group, at, None, now);
            let ended = call.state != ToolCallState::Running;
            &&& choice.payload is Some
            &&& ended && call.output is Some ==> choice.payload == call.output
            &&& ended && call.output is None && call.error is Some ==> choice.payload == Some(
                "error: "@ + call.error->0,
            )
            &&& !ended || call.output is None && call.error is None ==> choice.payload == Some(
                call.args,
            )
            &&& ended && (call.output is Some || call.error is Some) <==> choice.pending is Some
            &&& choice.pending is Some ==> choice.status
                == "Copied tool result — y again for arguments"@
            &&& choice.pending is None ==> choice.status
                == "No result yet — copied tool arguments"@
            &&& choice.pending matches Some((row, entry, since)) ==> row == at.item && since == now
        }),
{
    if group.entries.len() == 1 {
        let parts = entry_results(group.entries);
        assert(group.entries.drop_last().len() == 0);
        reveal_with_fuel(entry_results, 2);
        if parts.len() > 0 {
            lemma_join_one(parts, "\n\n"@);
        }
        lemma_join_one(entry_args(group.entries), "\n\n"@);
    }
}

proof fn lemma_join_one(parts: Seq<Seq<char>>, by: Seq<char>)
    requires
        parts.len() == 1,
    ensures
        join(parts, by) == parts[0],
{
    reveal_with_fuel(join, 2);
    assert(join(parts, by) =~= parts[0]);
}

/// The second `y` copies the arguments only on the same row and call, and only
/// soon after the first.
pub proof fn only_repeated_copies_take_arguments(
    group: GroupView,
    at: Selection,
    row: usize,
    entry: Option<usize>,
    since: u64,
    now: u64,
)
    requires
        since <= now,
    ensures
        ({
            let choice = group_choice(group, at, Some((row, entry, since)), now);
            let same = row == at.item && entry == copied_entry(group, at.entry) && now - since
                <= 500_000_000;
            &&& same ==> choice.status == "Copied tool arguments"@ && choice.pending is None
            &&& !same ==> choice == group_choice(group, at, None, now)
        }),
{
}

/// Other rows copy their source, and say so.
pub proof fn rows_copy_their_source(item: ItemView, at: Selection, pending: PendingArgs, now: u64)
    requires
        !(item.kind is Group),
    ensures
        ({
            let choice = choice_of(item, at, pending, now);
            &&& choice.payload is Some
            &&& choice.status == "Copied"@
            &&& choice.pending is None
            &&& item.kind matches KindView::User { message } ==> choice.payload == Some(message)
            &&& item.kind matches KindView::Assistant { raw, .. } ==> (raw.len() > 0
                ==> choice.payload == Some(raw))
            &&& item.kind matches KindView::Reasoning { raw, .. } ==> (raw.len() > 0
                ==> choice.payload == Some(raw))
        }),
{
}

/// What fits the clipboard is copied whole and its size is told; what does not
/// is cut to what fits, and that is told as well.
pub proof fn copies_tell_their_size(status: Seq<char>, payload: Seq<char>)
    ensures
        byte_len(payload) <= 100_000 ==> within_bytes(payload, MAX_CLIPBOARD_BYTES as nat) == payload
            && copy_notice(status, payload) == status + " ("@ + numeral(byte_len(payload))
            + " bytes)"@,
        byte_len(payload) > 100_000 ==> {
            let kept = within_bytes(payload, MAX_CLIPBOARD_BYTES as nat);
            &&& byte_len(kept) <= 100_000
            &&& kept.len() < payload.len()
            &&& kept =~= payload.take(kept.len() as int)
            &&& copy_notice(status, payload) == status + " ("@ + numeral(byte_len(kept))
                + " bytes, truncated)"@
        },
{
    cutting_keeps_a_prefix(payload, 100_000);
    assert(payload.take(payload.len() as int) =~= payload);
}

} // verus!
