//! The state of the application, owned by its event loop and changed only
//! through the steps below.

use crate::focus::{after_activity, after_tick, initial, FocusEvent, FocusState};
use crate::history::{keep_last, pushed, ActivityHistory, DEFAULT_CAPACITY};
use crate::journal::{sort_by_timestamp, sorted_by_time, Journal, JournalEntry};
use crate::text::{blank, is_blank};
use crate::time::Timestamp;
use vstd::prelude::*;

verus! {

/// The top-level screens.
#[derive(Clone, Copy, Debug, PartialEq, Eq, Structural)]
pub enum AppScreen {
    /// Editing a journal entry.
    Editor,
    /// The list of entries.
    List,
    /// One entry in full.
    Detail,
}

/// The screen that is shown and the entries that it shows.
pub struct AppState {
    /// The active screen.
    pub screen: AppScreen,
    /// The journal entries.
    pub entries: Vec<JournalEntry>,
}

impl Default for AppState {
    fn default() -> (state: AppState)
        ensures
            state.screen == AppScreen::Editor,
            state.entries@ == Seq::<JournalEntry>::empty(),
    {
        AppState { screen: AppScreen::Editor, entries: Vec::new() }
    }
}

/// The number of the function key that ends the session.
pub const QUIT_FUNCTION_KEY: u8 = 10;

/// A key of the terminal, as far as the event loop looks at it.
#[derive(Clone, Copy, Debug, PartialEq, Eq, Structural)]
pub enum Key {
    /// The function key of the given number.
    Function(u8),
    /// The enter key.
    Enter,
    /// Any other key.
    Other,
}

/// What a key means to the event loop.
#[derive(Clone, Copy, Debug, PartialEq, Eq, Structural)]
pub enum KeyInput {
    /// The key that ends the session.
    Quit,
    /// The key that commits the entry being written.
    Commit,
    /// Any other key: it edits the entry being written.
    Edit,
}

/// The meaning of a key: the tenth function key quits, enter commits, and
/// every other key edits.
pub open spec fn meaning_of(key: Key) -> KeyInput {
    match key {
        Key::Function(number) => if number == QUIT_FUNCTION_KEY {
            KeyInput::Quit
        } else {
            KeyInput::Edit
        },
        Key::Enter => KeyInput::Commit,
        Key::Other => KeyInput::Edit,
    }
}

/// Tells what a key means to the event loop.
pub fn classify_key(key: Key) -> (input: KeyInput)
    ensures
        input == meaning_of(key),
{
    match key {
        Key::Function(number) => if number == QUIT_FUNCTION_KEY {
            KeyInput::Quit
        } else {
            KeyInput::Edit
        },
        Key::Enter => KeyInput::Commit,
        Key::Other => KeyInput::Edit,
    }
}

/// What a key did.
#[derive(Clone, Copy, Debug, PartialEq, Eq, Structural)]
pub enum KeyOutcome {
    /// The session is to end.
    Quit,
    /// The entry was added to the journal and the buffer was emptied.
    Committed,
    /// There was nothing but white space to commit; nothing changed.
    NothingToCommit,
    /// The key is for the editor of the buffer.
    Edited,
}

/// Everything the event loop owns.
pub struct App {
    /// The entry being written.
    pub input: String,
    /// The position of the cursor in `input`.
    pub cursor_position: usize,
    /// The journal entries, in the order they are shown.
    pub logs: Vec<JournalEntry>,
    /// The key presses counted in each of the latest ticks.
    pub activity_stream: ActivityHistory,
    /// The key presses counted since the latest tick boundary.
    pub pending: u32,
    /// The focus score.
    pub focus: FocusState,
    /// Whether the session is to end.
    pub should_quit: bool,
    /// The store that the entries are saved to.
    pub journal: Journal,
}

/// The count after one more key press: it stops at the largest value that
/// a sample can hold.
pub open spec fn counted(pending: u32) -> u32 {
    if pending < u32::MAX {
        (pending + 1) as u32
    } else {
        pending
    }
}

/// The count after `signals` more key presses.
pub open spec fn counted_times(pending: u32, signals: nat) -> u32
    decreases signals,
{
    if signals == 0 {
        pending
    } else {
        counted(counted_times(pending, (signals - 1) as nat))
    }
}

/// The sample of a tick is the number of signals that arrived in it, as
/// far as a sample can count.
pub proof fn lemma_sample_counts_signals(signals: nat)
    ensures
        counted_times(0, signals) == if signals <= u32::MAX {
            signals
        } else {
            u32::MAX as nat
        },
    decreases signals,
{
    if signals > 0 {
        lemma_sample_counts_signals((signals - 1) as nat);
    }
}

/// The count of the current tick after a run of events, as
/// `App::register_activity` and `App::on_tick` change it: a key press adds
/// to it, a tick starts it again at zero.
pub open spec fn pending_after(pending: u32, events: Seq<FocusEvent>) -> u32
    decreases events.len(),
{
    if events.len() == 0 {
        pending
    } else {
        match events.last() {
            FocusEvent::Activity(_) => counted(pending_after(pending, events.drop_last())),
            FocusEvent::Tick(_) => 0,
        }
    }
}

/// The samples that the ticks of a run of events close, in order: each is
/// the count of the key presses since the tick before it.
pub open spec fn samples_closed(pending: u32, events: Seq<FocusEvent>) -> Seq<u32>
    decreases events.len(),
{
    if events.len() == 0 {
        Seq::empty()
    } else {
        match events.last() {
            FocusEvent::Activity(_) => samples_closed(pending, events.drop_last()),
            FocusEvent::Tick(_) => samples_closed(pending, events.drop_last()).push(
                pending_after(pending, events.drop_last()),
            ),
        }
    }
}

/// The number of ticks in a run of events.
pub open spec fn ticks_in(events: Seq<FocusEvent>) -> nat
    decreases events.len(),
{
    if events.len() == 0 {
        0
    } else {
        match events.last() {
            FocusEvent::Activity(_) => ticks_in(events.drop_last()),
            FocusEvent::Tick(_) => ticks_in(events.drop_last()) + 1,
        }
    }
}

/// The activity stream after a run of events, as `App::register_activity`
/// and `App::on_tick` change it: every tick appends the count of its tick
/// to the stream, and key presses leave the stream alone.
pub open spec fn stream_after(
    stream: Seq<u32>,
    capacity: nat,
    pending: u32,
    events: Seq<FocusEvent>,
) -> Seq<u32>
    decreases events.len(),
{
    if events.len() == 0 {
        stream
    } else {
        match events.last() {
            FocusEvent::Activity(_) => stream_after(stream, capacity, pending, events.drop_last()),
            FocusEvent::Tick(_) => pushed(
                stream_after(stream, capacity, pending, events.drop_last()),
                capacity,
                pending_after(pending, events.drop_last()),
            ),
        }
    }
}

/// Every tick closes exactly one sample, however many key presses arrived
/// in it.
pub proof fn lemma_one_sample_per_tick(pending: u32, events: Seq<FocusEvent>)
    ensures
        samples_closed(pending, events).len() == ticks_in(events),
    decreases events.len(),
{
    if events.len() > 0 {
        lemma_one_sample_per_tick(pending, events.drop_last());
    }
}

/// After a run of events the activity stream holds the newest of its old
/// samples and of the samples that the ticks closed, as many as its
/// capacity allows, in order.
pub proof fn lemma_stream_holds_newest_samples(
    stream: Seq<u32>,
    capacity: nat,
    pending: u32,
    events: Seq<FocusEvent>,
)
    requires
        stream.len() <= capacity,
    ensures
        stream_after(stream, capacity, pending, events) == keep_last(
            stream + samples_closed(pending, events),
            capacity,
        ),
    decreases events.len(),
{
    if events.len() > 0 {
        lemma_stream_holds_newest_samples(stream, capacity, pending, events.drop_last());
        let closed = samples_closed(pending, events.drop_last());
        let sample = pending_after(pending, events.drop_last());
        assert((stream + closed).push(sample) =~= stream + closed.push(sample));
    }
}

impl App {
    /// The state at start-up at time `now`, with the entries that were
    /// loaded from the journal put in chronological order.
    pub fn new(now: Timestamp, loaded: Vec<JournalEntry>) -> (app: App)
        ensures
            app.input@ == Seq::<char>::empty(),
            app.cursor_position == 0,
            app.logs@ == sorted_by_time(loaded@),
            app.activity_stream@ == Seq::<u32>::empty(),
            app.activity_stream.spec_capacity() == DEFAULT_CAPACITY,
            app.pending == 0,
            app.focus == initial(now),
            !app.should_quit,
            app.journal.path@ == "journals"@,
    {
        let mut logs = loaded;
        sort_by_timestamp(&mut logs);
        App {
            input: String::new(),
            cursor_position: 0,
            logs,
            activity_stream: ActivityHistory::new(),
            pending: 0,
            focus: FocusState::new(now),
            should_quit: false,
            journal: Journal::new(),
        }
    }

    /// Takes in one activity signal at time `now`: the focus score
    /// registers it at once, and it is counted towards the current tick.
    pub fn register_activity(&mut self, now: Timestamp)
        ensures
            final(self).focus == after_activity(old(self).focus, now),
            final(self).pending == counted(old(self).pending),
            final(self).activity_stream == old(self).activity_stream,
            final(self).logs == old(self).logs,
            final(self).input == old(self).input,
            final(self).cursor_position == old(self).cursor_position,
            final(self).should_quit == old(self).should_quit,
            final(self).journal == old(self).journal,
    {
        self.focus.register_activity(now);
        if self.pending < u32::MAX {
            self.pending = self.pending + 1;
        }
    }

    /// Closes the current tick at time `now`: the count of the tick becomes
    /// the newest sample of the history, counting starts again at zero, and
    /// the focus score takes its tick step, once.
    pub fn on_tick(&mut self, now: Timestamp)
        ensures
            final(self).activity_stream@ == pushed(
                old(self).activity_stream@,
                old(self).activity_stream.spec_capacity(),
                old(self).pending,
            ),
            final(self).activity_stream.spec_capacity() == old(
                self,
            ).activity_stream.spec_capacity(),
            final(self).pending == 0,
            final(self).focus == after_tick(old(self).focus, now),
            final(self).logs == old(self).logs,
            final(self).input == old(self).input,
            final(self).cursor_position == old(self).cursor_position,
            final(self).should_quit == old(self).should_quit,
            final(self).journal == old(self).journal,
    {
        self.activity_stream.push(self.pending);
        self.pending = 0;
        self.focus.tick(now);
    }

    /// Adds an entry written at `now` to the end of the entries in memory.
    /// Saving it is the caller's part; the entry stays here whether or not
    /// that succeeds.
    pub fn add_log(&mut self, now: Timestamp, content: String)
        ensures
            final(self).logs@ == old(self).logs@.push(JournalEntry { timestamp: now, content }),
            final(self).input == old(self).input,
            final(self).cursor_position == old(self).cursor_position,
            final(self).activity_stream == old(self).activity_stream,
            final(self).pending == old(self).pending,
            final(self).focus == old(self).focus,
            final(self).should_quit == old(self).should_quit,
            final(self).journal == old(self).journal,
    {
        self.logs.push(JournalEntry { timestamp: now, content });
    }

    /// Reacts to a key at time `now`. The quit key marks the session as
    /// over. The commit key turns the buffer into an entry and empties it,
    /// unless the buffer holds nothing but white space. Every other key is
    /// left to the editor of the buffer.
    pub fn handle_key(&mut self, key: KeyInput, now: Timestamp) -> (outcome: KeyOutcome)
        ensures
            outcome == match key {
                KeyInput::Quit => KeyOutcome::Quit,
                KeyInput::Commit => if blank(old(self).input@) {
                    KeyOutcome::NothingToCommit
                } else {
                    KeyOutcome::Committed
                },
                KeyInput::Edit => KeyOutcome::Edited,
            },
            final(self).should_quit == (old(self).should_quit || key == KeyInput::Quit),
            outcome == KeyOutcome::Committed ==> {
                &&& final(self).logs@ == old(self).logs@.push(
                    JournalEntry { timestamp: now, content: old(self).input },
                )
                &&& final(self).input@ == Seq::<char>::empty()
                &&& final(self).cursor_position == 0
            },
            outcome != KeyOutcome::Committed ==> {
                &&& final(self).logs == old(self).logs
                &&& final(self).input == old(self).input
                &&& final(self).cursor_position == old(self).cursor_position
            },
            final(self).activity_stream == old(self).activity_stream,
            final(self).pending == old(self).pending,
            final(self).focus == old(self).focus,
            final(self).journal == old(self).journal,
    {
        match key {
            KeyInput::Quit => {
                self.should_quit = true;
                KeyOutcome::Quit
            },
            KeyInput::Commit => {
                if is_blank(self.input.as_str()) {
                    KeyOutcome::NothingToCommit
                } else {
                    let mut content = String::new();
                    core::mem::swap(&mut self.input, &mut content);
                    self.cursor_position = 0;
                    self.add_log(now, content);
                    KeyOutcome::Committed
                }
            },
            KeyInput::Edit => KeyOutcome::Edited,
        }
    }
}

} // verus!
