//! The hooks that make the tool inside a session report its activity.
//!
//! The tool keeps, for each kind of event, a list of entries, and each entry
//! holds the commands of its hooks. What is decided here is how such a list is
//! changed so that it holds the command of this library once: an entry that
//! holds a command which was installed before is replaced, and only where there
//! is none is an entry added.

use crate::text::{is_part_of, occurs_in, str_eq};
use vstd::prelude::*;
use vstd::string::*;

verus! {

/// The command that reports a notification.
pub const NOTIFY_HOOK_COMMAND: &'static str =
    "test -n \"$CLUTCH_NOTIFY_DIR\" && test -n \"$CLUTCH_SESSION_ID\" && touch \"$CLUTCH_NOTIFY_DIR/notify_$CLUTCH_SESSION_ID\"";

/// The command that reports a stop.
pub const STOP_HOOK_COMMAND: &'static str =
    "test -n \"$CLUTCH_NOTIFY_DIR\" && test -n \"$CLUTCH_SESSION_ID\" && touch \"$CLUTCH_NOTIFY_DIR/stop_$CLUTCH_SESSION_ID\"";

/// The command that was installed before the kinds of event were told apart;
/// settings may still hold it.
pub const LEGACY_HOOK_COMMAND: &'static str =
    "test -n \"$CLUTCH_NOTIFY_DIR\" && test -n \"$CLUTCH_SESSION_ID\" && touch \"$CLUTCH_NOTIFY_DIR/$CLUTCH_SESSION_ID\"";

/// The kind of event that the notification command is run for.
pub const NOTIFICATION_EVENT: &'static str = "Notification";

/// The kind of event that the stop command is run for.
pub const STOP_EVENT: &'static str = "Stop";

/// The name that every command of this library mentions.
pub const HOOK_MARKER: &'static str = "CLUTCH_NOTIFY_DIR";

/// One entry of a list of hooks: the commands of its hooks, in their order. An
/// entry that holds no list of hooks has no command.
#[derive(Debug, Clone, PartialEq, Eq)]
pub struct HookEntry {
    pub commands: Vec<String>,
}

/// How a list of entries is changed.
#[derive(Debug, Clone, Copy, PartialEq, Eq, Structural)]
pub enum HookUpdate {
    /// The list holds the command already and stays as it is.
    Unchanged,
    /// The entry at this place is replaced by an entry with the command.
    Replace(usize),
    /// An entry with the command is added at the end.
    Append,
}

/// Whether an entry holds `command`.
pub open spec fn holds_command(entry: HookEntry, command: Seq<char>) -> bool {
    exists|j: int| 0 <= j < entry.commands@.len() && (#[trigger] entry.commands@[j])@ == command
}

/// Whether a command of an entry mentions `marker`: `marker` occurs in the
/// command.
pub open spec fn mentions(entry: HookEntry, marker: Seq<char>) -> bool {
    exists|j: int|
        0 <= j < entry.commands@.len() && occurs_in(
            marker,
            (#[trigger] entry.commands@[j])@,
        )
}

/// Whether `i` is the place of the first entry that holds `command`.
pub open spec fn first_holding(entries: Seq<HookEntry>, command: Seq<char>, i: int) -> bool {
    &&& 0 <= i < entries.len()
    &&& holds_command(entries[i], command)
    &&& forall|k: int| 0 <= k < i ==> !holds_command(#[trigger] entries[k], command)
}

/// Whether `i` is the place of the first entry that mentions `marker`.
pub open spec fn first_mentioning(entries: Seq<HookEntry>, marker: Seq<char>, i: int) -> bool {
    &&& 0 <= i < entries.len()
    &&& mentions(entries[i], marker)
    &&& forall|k: int| 0 <= k < i ==> !mentions(#[trigger] entries[k], marker)
}

/// Whether some entry holds `command`.
pub open spec fn some_holds(entries: Seq<HookEntry>, command: Seq<char>) -> bool {
    exists|i: int| 0 <= i < entries.len() && holds_command(#[trigger] entries[i], command)
}

/// Whether some entry mentions `marker`.
pub open spec fn some_mentions(entries: Seq<HookEntry>, marker: Seq<char>) -> bool {
    exists|i: int| 0 <= i < entries.len() && mentions(#[trigger] entries[i], marker)
}

/// Whether `update` is the change that makes `entries` hold `command`: none
/// where an entry holds it; else the replacement of the first entry that holds
/// the command installed before; else the replacement of the first entry that
/// mentions this library; else the addition of an entry.
pub open spec fn is_update_for(update: HookUpdate, entries: Seq<HookEntry>, command: Seq<char>) -> bool {
    if some_holds(entries, command) {
        update == HookUpdate::Unchanged
    } else if some_holds(entries, LEGACY_HOOK_COMMAND@) {
        update matches HookUpdate::Replace(i) && first_holding(
            entries,
            LEGACY_HOOK_COMMAND@,
            i as int,
        )
    } else if some_mentions(entries, HOOK_MARKER@) {
        update matches HookUpdate::Replace(i) && first_mentioning(entries, HOOK_MARKER@, i as int)
    } else {
        update == HookUpdate::Append
    }
}

/// The entries after a change, where `entry` is the entry that is put in.
pub open spec fn updated(entries: Seq<HookEntry>, update: HookUpdate, entry: HookEntry) -> Seq<
    HookEntry,
> {
    match update {
        HookUpdate::Unchanged => entries,
        HookUpdate::Replace(i) => entries.update(i as int, entry),
        HookUpdate::Append => entries.push(entry),
    }
}

/// Once the change is made, no further change is due: the entries hold the
/// command, so the very next look at them leaves them as they are.
pub proof fn lemma_update_settles(
    entries: Seq<HookEntry>,
    update: HookUpdate,
    entry: HookEntry,
    command: Seq<char>,
)
    requires
        is_update_for(update, entries, command),
        holds_command(entry, command),
    ensures
        some_holds(updated(entries, update, entry), command),
        is_update_for(HookUpdate::Unchanged, updated(entries, update, entry), command),
{
    let after = updated(entries, update, entry);
    match update {
        HookUpdate::Unchanged => {},
        HookUpdate::Replace(i) => {
            assert(after[i as int] == entry);
        },
        HookUpdate::Append => {
            assert(after[entries.len() as int] == entry);
        },
    }
}

/// Whether an entry holds `command`.
pub fn entry_has_command(entry: &HookEntry, command: &str) -> (found: bool)
    ensures
        found == holds_command(*entry, command@),
{
    let mut j: usize = 0;
    while j < entry.commands.len()
        invariant
            j <= entry.commands@.len(),
            forall|k: int| 0 <= k < j ==> (#[trigger] entry.commands@[k])@ != command@,
        decreases entry.commands@.len() - j,
    {
        if str_eq(entry.commands[j].as_str(), command) {
            return true;
        }
        j += 1;
    }
    false
}

/// Whether a command of an entry mentions `marker`.
pub fn entry_mentions(entry: &HookEntry, marker: &str) -> (found: bool)
    ensures
        found == mentions(*entry, marker@),
{
    let mut j: usize = 0;
    while j < entry.commands.len()
        invariant
            j <= entry.commands@.len(),
            forall|k: int| 0 <= k < j ==> !occurs_in(marker@, (#[trigger] entry.commands@[k])@),
        decreases entry.commands@.len() - j,
    {
        if is_part_of(marker, entry.commands[j].as_str()) {
            return true;
        }
        j += 1;
    }
    false
}

/// The place of the first entry that holds `command`.
fn position_holding(entries: &Vec<HookEntry>, command: &str) -> (place: Option<usize>)
    ensures
        match place {
            Some(i) => first_holding(entries@, command@, i as int),
            None => !some_holds(entries@, command@),
        },
{
    let mut i: usize = 0;
    while i < entries.len()
        invariant
            i <= entries@.len(),
            forall|k: int| 0 <= k < i ==> !holds_command(#[trigger] entries@[k], command@),
        decreases entries@.len() - i,
    {
        if entry_has_command(&entries[i], command) {
            return Some(i);
        }
        i += 1;
    }
    None
}

/// The place of the first entry that mentions `marker`.
fn position_mentioning(entries: &Vec<HookEntry>, marker: &str) -> (place: Option<usize>)
    ensures
        match place {
            Some(i) => first_mentioning(entries@, marker@, i as int),
            None => !some_mentions(entries@, marker@),
        },
{
    let mut i: usize = 0;
    while i < entries.len()
        invariant
            i <= entries@.len(),
            forall|k: int| 0 <= k < i ==> !mentions(#[trigger] entries@[k], marker@),
        decreases entries@.len() - i,
    {
        if entry_mentions(&entries[i], marker) {
            return Some(i);
        }
        i += 1;
    }
    None
}

/// The change that makes the entries of one kind of event hold `command`.
///
/// Entries that hold the command already are left alone. Else the first entry
/// with the command installed before is replaced, else the first entry that
/// mentions this library at all, and where there is neither an entry is added.
pub fn ensure_hook_entry(entries: &Vec<HookEntry>, command: &str) -> (update: HookUpdate)
    ensures
        is_update_for(update, entries@, command@),
{
    if position_holding(entries, command).is_some() {
        return HookUpdate::Unchanged;
    }
    match position_holding(entries, LEGACY_HOOK_COMMAND) {
        Some(i) => {
            return HookUpdate::Replace(i);
        },
        None => {},
    }
    match position_mentioning(entries, HOOK_MARKER) {
        Some(i) => HookUpdate::Replace(i),
        None => HookUpdate::Append,
    }
}

} // verus!
