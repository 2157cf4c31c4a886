//! Application state: the loaded binary and its function list, what the editor
//! shows, the bounded event log and the bounded navigation history.

use std::sync::Arc;

use vstd::prelude::*;

use crate::hex::{hex_of, push_hex};
use crate::text::push_char;

verus! {

/// Most log entries kept; the oldest is dropped beyond this.
pub const LOG_CAPACITY: usize = 500;

/// Most addresses kept in the navigation history; the oldest is dropped beyond this.
pub const NAV_HISTORY_CAPACITY: usize = 50;

/// Severity of a log entry.
#[derive(Clone, Copy, PartialEq, Eq, Structural, Debug)]
pub enum LogLevel {
    Info,
    Warn,
    Error,
}

/// One line of the event log.
#[derive(PartialEq, Debug)]
pub struct LogEntry {
    pub level: LogLevel,
    pub message: String,
}

impl Clone for LogEntry {
    fn clone(&self) -> (r: Self)
        ensures
            r == *self,
    {
        LogEntry { level: self.level, message: self.message.clone() }
    }
}

impl LogEntry {
    /// The informational entry with message `msg`.
    pub open spec fn info_spec(msg: String) -> LogEntry {
        LogEntry { level: LogLevel::Info, message: msg }
    }

    /// An informational entry with the given message.
    pub fn info(msg: String) -> (r: Self)
        ensures
            r.level == LogLevel::Info,
            r.message == msg,
    {
        LogEntry { level: LogLevel::Info, message: msg }
    }

    /// A warning entry with the given message.
    pub fn warn(msg: String) -> (r: Self)
        ensures
            r.level == LogLevel::Warn,
            r.message == msg,
    {
        LogEntry { level: LogLevel::Warn, message: msg }
    }

    /// An error entry with the given message.
    pub fn error(msg: String) -> (r: Self)
        ensures
            r.level == LogLevel::Error,
            r.message == msg,
    {
        LogEntry { level: LogLevel::Error, message: msg }
    }
}

/// A function discovered in the loaded binary.
#[derive(PartialEq, Debug)]
pub struct FunctionEntry {
    pub address: u64,
    pub name: String,
    pub is_import: bool,
    pub is_export: bool,
    pub is_thunk: bool,
}

impl Clone for FunctionEntry {
    fn clone(&self) -> (r: Self)
        ensures
            r == *self,
    {
        FunctionEntry {
            address: self.address,
            name: self.name.clone(),
            is_import: self.is_import,
            is_export: self.is_export,
            is_thunk: self.is_thunk,
        }
    }
}

impl Default for FunctionEntry {
    fn default() -> (r: Self)
        ensures
            r.address == 0,
            r.name@ == Seq::<char>::empty(),
            !r.is_import,
            !r.is_export,
            !r.is_thunk,
    {
        FunctionEntry {
            address: 0,
            name: String::new(),
            is_import: false,
            is_export: false,
            is_thunk: false,
        }
    }
}

/// The view that the editor panel shows.
#[derive(Clone, Copy, PartialEq, Eq, Structural, Debug)]
pub enum EditorTab {
    Pseudocode,
    Nir,
    Hex,
}

impl Default for EditorTab {
    fn default() -> (r: Self)
        ensures
            r == EditorTab::Pseudocode,
    {
        EditorTab::Pseudocode
    }
}

/// The log after `entry` is appended to `logs`: the oldest entry is dropped
/// when the log would otherwise exceed its capacity.
pub open spec fn log_after_push(logs: Seq<LogEntry>, entry: LogEntry) -> Seq<LogEntry> {
    let pushed = logs.push(entry);
    if pushed.len() > LOG_CAPACITY {
        pushed.drop_first()
    } else {
        pushed
    }
}

/// `addr` is the entry under the cursor.
pub open spec fn is_current(history: Seq<u64>, cursor: int, addr: u64) -> bool {
    0 <= cursor < history.len() && history[cursor] == addr
}

/// The history after visiting `addr`: unchanged when `addr` is the current
/// entry; otherwise the entries after the cursor are dropped, `addr` is
/// appended, and the oldest entry goes when the capacity is exceeded.
pub open spec fn history_after_visit(history: Seq<u64>, cursor: int, addr: u64) -> Seq<u64> {
    if is_current(history, cursor, addr) {
        history
    } else {
        let kept = if cursor + 1 < history.len() {
            history.take(cursor + 1)
        } else {
            history
        };
        let pushed = kept.push(addr);
        if pushed.len() > NAV_HISTORY_CAPACITY {
            pushed.drop_first()
        } else {
            pushed
        }
    }
}

/// The cursor after visiting `addr`: unchanged when `addr` is the current
/// entry, otherwise on the last entry.
pub open spec fn cursor_after_visit(history: Seq<u64>, cursor: int, addr: u64) -> int {
    if is_current(history, cursor, addr) {
        cursor
    } else {
        history_after_visit(history, cursor, addr).len() - 1
    }
}

/// The cursor after a step back.
pub open spec fn cursor_after_back(cursor: int) -> int {
    if cursor == 0 {
        0
    } else {
        cursor - 1
    }
}

/// What a step back returns.
pub open spec fn back_result(history: Seq<u64>, cursor: int) -> Option<u64> {
    if cursor == 0 {
        None
    } else {
        Some(history[cursor - 1])
    }
}

/// Whether a step forward is possible.
pub open spec fn forward_possible(history: Seq<u64>, cursor: int) -> bool {
    cursor + 1 < history.len()
}

/// The cursor after a step forward.
pub open spec fn cursor_after_forward(history: Seq<u64>, cursor: int) -> int {
    if forward_possible(history, cursor) {
        cursor + 1
    } else {
        cursor
    }
}

/// What a step forward returns.
pub open spec fn forward_result(history: Seq<u64>, cursor: int) -> Option<u64> {
    if forward_possible(history, cursor) {
        Some(history[cursor + 1])
    } else {
        None
    }
}

/// Whether a step back is possible.
pub open spec fn back_possible(history: Seq<u64>, cursor: int) -> bool {
    cursor > 0 && history.len() > 0
}

/// The shape every state that the navigation operations produce has: the
/// history within its capacity and the cursor on an entry (or at 0 when the
/// history is empty).
pub open spec fn nav_well_formed(history: Seq<u64>, cursor: int) -> bool {
    &&& history.len() <= NAV_HISTORY_CAPACITY
    &&& 0 <= cursor
    &&& (cursor < history.len() || (history.len() == 0 && cursor == 0))
}

/// A visit to an address that is not current keeps every entry up to and
/// including the cursor, in order, appends the address after them, and drops
/// the oldest entry only when the history would otherwise exceed its
/// capacity; the cursor ends on the appended address.
pub proof fn law_visit_keeps_past(history: Seq<u64>, cursor: int, addr: u64)
    requires
        nav_well_formed(history, cursor),
        !is_current(history, cursor, addr),
    ensures
        history.len() == 0 ==> history_after_visit(history, cursor, addr) == seq![addr],
        history.len() > 0 && cursor + 1 < NAV_HISTORY_CAPACITY ==> history_after_visit(
            history,
            cursor,
            addr,
        ) == history.take(cursor + 1).push(addr),
        history.len() > 0 && cursor + 1 == NAV_HISTORY_CAPACITY ==> history_after_visit(
            history,
            cursor,
            addr,
        ) == history.subrange(1, cursor + 1).push(addr),
        cursor_after_visit(history, cursor, addr) == history_after_visit(history, cursor, addr).len()
            - 1,
{
    if history.len() == 0 {
        assert(history.push(addr) =~= seq![addr]);
    } else {
        if cursor + 1 == history.len() {
            assert(history.take(cursor + 1) =~= history);
        }
        if cursor + 1 == NAV_HISTORY_CAPACITY {
            assert(history.take(cursor + 1).push(addr).drop_first() =~= history.subrange(
                1,
                cursor + 1,
            ).push(addr));
        }
    }
}

/// No two neighbouring entries of the history are the same address.
pub open spec fn no_adjacent_repeats(history: Seq<u64>) -> bool {
    forall|i: int| 0 <= i && i + 1 < history.len() ==> #[trigger] history[i] != history[i + 1]
}

/// The log never grows past its capacity; the pushed entry is always the
/// newest one, and an entry is dropped (the oldest) only when the log was full.
pub proof fn law_log_bounded(logs: Seq<LogEntry>, entry: LogEntry)
    requires
        logs.len() <= LOG_CAPACITY,
    ensures
        log_after_push(logs, entry).len() <= LOG_CAPACITY,
        log_after_push(logs, entry).last() == entry,
        logs.len() < LOG_CAPACITY ==> log_after_push(logs, entry) == logs.push(entry),
        logs.len() == LOG_CAPACITY ==> log_after_push(logs, entry) == logs.drop_first().push(
            entry,
        ),
{
    if logs.len() == LOG_CAPACITY {
        assert(logs.push(entry).drop_first() =~= logs.drop_first().push(entry));
    }
}

/// Visiting an address keeps the history within its capacity and the cursor
/// on an entry.
pub proof fn law_visit_well_formed(history: Seq<u64>, cursor: int, addr: u64)
    requires
        nav_well_formed(history, cursor),
    ensures
        nav_well_formed(
            history_after_visit(history, cursor, addr),
            cursor_after_visit(history, cursor, addr),
        ),
{
}

/// After a visit, the visited address is the current entry; unless it
/// already was, nothing lies ahead of it.
pub proof fn law_visit_makes_current(history: Seq<u64>, cursor: int, addr: u64)
    requires
        nav_well_formed(history, cursor),
    ensures
        is_current(
            history_after_visit(history, cursor, addr),
            cursor_after_visit(history, cursor, addr),
            addr,
        ),
        !is_current(history, cursor, addr) ==> !forward_possible(
            history_after_visit(history, cursor, addr),
            cursor_after_visit(history, cursor, addr),
        ),
{
}

/// Visiting the address that was just visited changes nothing.
pub proof fn law_visit_idempotent(history: Seq<u64>, cursor: int, addr: u64)
    requires
        nav_well_formed(history, cursor),
    ensures
        ({
            let h1 = history_after_visit(history, cursor, addr);
            let c1 = cursor_after_visit(history, cursor, addr);
            history_after_visit(h1, c1, addr) == h1 && cursor_after_visit(h1, c1, addr) == c1
        }),
{
    law_visit_makes_current(history, cursor, addr);
}

/// Visiting never puts the same address twice in a row into the history.
pub proof fn law_visit_no_adjacent_repeats(history: Seq<u64>, cursor: int, addr: u64)
    requires
        nav_well_formed(history, cursor),
        no_adjacent_repeats(history),
    ensures
        no_adjacent_repeats(history_after_visit(history, cursor, addr)),
{
    if !is_current(history, cursor, addr) {
        let kept = if cursor + 1 < history.len() {
            history.take(cursor + 1)
        } else {
            history
        };
        let pushed = kept.push(addr);
        assert forall|i: int| 0 <= i && i + 1 < pushed.len() implies #[trigger] pushed[i]
            != pushed[i + 1] by {
            if i + 1 < kept.len() {
                assert(kept[i] == history[i] && kept[i + 1] == history[i + 1]);
            } else {
                assert(kept.len() == cursor + 1);
                assert(pushed[i] == history[cursor]);
            }
        }
        if pushed.len() > NAV_HISTORY_CAPACITY {
            assert forall|i: int|
                0 <= i && i + 1 < pushed.drop_first().len() implies #[trigger] pushed.drop_first()[i]
                != pushed.drop_first()[i + 1] by {
                assert(pushed[i + 1] != pushed[i + 2]);
            }
        }
    }
}

/// Stepping back and forward keep the history within its capacity and the
/// cursor on an entry.
pub proof fn law_steps_well_formed(history: Seq<u64>, cursor: int)
    requires
        nav_well_formed(history, cursor),
    ensures
        nav_well_formed(history, cursor_after_back(cursor)),
        nav_well_formed(history, cursor_after_forward(history, cursor)),
{
}

/// A step forward undoes a step back: it returns the entry that was current
/// before the step back and puts the cursor where it was.
pub proof fn law_back_then_forward(history: Seq<u64>, cursor: int)
    requires
        nav_well_formed(history, cursor),
        back_result(history, cursor) is Some,
    ensures
        forward_result(history, cursor_after_back(cursor)) == Some(history[cursor]),
        cursor_after_forward(history, cursor_after_back(cursor)) == cursor,
{
}

/// A step back undoes a step forward: it returns the entry that was current
/// before the step forward and puts the cursor where it was.
pub proof fn law_forward_then_back(history: Seq<u64>, cursor: int)
    requires
        nav_well_formed(history, cursor),
        forward_result(history, cursor) is Some,
    ensures
        back_result(history, cursor_after_forward(history, cursor)) == Some(history[cursor]),
        cursor_after_back(cursor_after_forward(history, cursor)) == cursor,
{
}

/// `can_nav_back` and `can_nav_forward` answer exactly whether the
/// corresponding step returns an entry.
pub proof fn law_can_nav_matches_step(history: Seq<u64>, cursor: int)
    requires
        0 <= cursor,
        cursor == 0 || cursor - 1 < history.len(),
    ensures
        back_possible(history, cursor) == (back_result(history, cursor) is Some),
        forward_possible(history, cursor) == (forward_result(history, cursor) is Some),
{
}

/// The log message recorded when the function `name` at `addr` is selected
/// for decompilation.
pub open spec fn decompiling_message(name: Seq<char>, addr: u64) -> Seq<char> {
    "Decompiling "@ + name + "  @  0x"@ + hex_of(addr as nat) + seq!['\u{2026}']
}

/// The log message recorded when loading the file `name` starts.
pub open spec fn loading_message(name: Seq<char>) -> Seq<char> {
    "Loading "@ + name + seq!['\u{2026}']
}

/// The log message recorded when loading fails with `error`.
pub open spec fn load_failed_message(error: Seq<char>) -> Seq<char> {
    "Load failed: "@ + error
}

/// The whole state of the front end.
#[derive(Clone)]
pub struct AppState {
    pub binary_name: Option<String>,
    pub binary_data: Option<Arc<Vec<u8>>>,
    pub functions: Vec<FunctionEntry>,
    pub active_tab: EditorTab,
    pub current_fn_addr: Option<u64>,
    pub decompiled_code: Option<String>,
    pub decompiled_nir: Option<String>,
    pub is_loading: bool,
    pub is_decompiling: bool,
    pub sidebar_search: String,
    pub logs: Vec<LogEntry>,
    pub nav_history: Vec<u64>,
    pub nav_cursor: usize,
}

impl Default for AppState {
    /// Nothing loaded, nothing selected, empty log and history.
    fn default() -> (r: Self)
        ensures
            r.binary_name.is_none(),
            r.binary_data.is_none(),
            r.functions@.len() == 0,
            r.active_tab == EditorTab::Pseudocode,
            r.current_fn_addr.is_none(),
            r.decompiled_code.is_none(),
            r.decompiled_nir.is_none(),
            !r.is_loading,
            !r.is_decompiling,
            r.sidebar_search@ == Seq::<char>::empty(),
            r.logs@.len() == 0,
            r.nav_history@.len() == 0,
            r.nav_cursor == 0,
    {
        AppState {
            binary_name: None,
            binary_data: None,
            functions: Vec::new(),
            active_tab: EditorTab::default(),
            current_fn_addr: None,
            decompiled_code: None,
            decompiled_nir: None,
            is_loading: false,
            is_decompiling: false,
            sidebar_search: String::new(),
            logs: Vec::new(),
            nav_history: Vec::new(),
            nav_cursor: 0,
        }
    }
}

impl AppState {
    /// Appends `entry` to the log, dropping the oldest entry when the log
    /// would otherwise hold more than `LOG_CAPACITY` entries.
    pub fn push_log(&mut self, entry: LogEntry)
        ensures
            final(self).logs@ == log_after_push(old(self).logs@, entry),
            *final(self) == (AppState { logs: final(self).logs, ..*old(self) }),
    {
        self.logs.push(entry);
        if self.logs.len() > LOG_CAPACITY {
            self.logs.remove(0);
        }
    }

    /// Records a visit to `addr` in the navigation history. Visiting the
    /// current entry changes nothing; otherwise the forward entries are
    /// discarded, `addr` becomes the newest entry and the cursor moves onto it.
    pub fn navigate_to(&mut self, addr: u64)
        requires
            old(self).nav_history.len() == 0 || old(self).nav_cursor < usize::MAX,
        ensures
            final(self).nav_history@ == history_after_visit(
                old(self).nav_history@,
                old(self).nav_cursor as int,
                addr,
            ),
            final(self).nav_cursor == cursor_after_visit(
                old(self).nav_history@,
                old(self).nav_cursor as int,
                addr,
            ),
            *final(self) == (AppState {
                nav_history: final(self).nav_history,
                nav_cursor: final(self).nav_cursor,
                ..*old(self)
            }),
    {
        if self.nav_cursor < self.nav_history.len() && self.nav_history[self.nav_cursor] == addr {
            return;
        }
        if !self.nav_history.is_empty() {
            self.nav_history.truncate(self.nav_cursor + 1);
        }
        self.nav_history.push(addr);
        if self.nav_history.len() > NAV_HISTORY_CAPACITY {
            self.nav_history.remove(0);
        }
        self.nav_cursor = self.nav_history.len().saturating_sub(1);
    }

    /// Steps back in the history: `None` at the oldest entry, otherwise the
    /// cursor moves one entry back and that entry is returned.
    pub fn nav_back(&mut self) -> (r: Option<u64>)
        requires
            old(self).nav_cursor == 0 || old(self).nav_cursor - 1 < old(self).nav_history.len(),
        ensures
            r == back_result(old(self).nav_history@, old(self).nav_cursor as int),
            final(self).nav_cursor == cursor_after_back(old(self).nav_cursor as int),
            *final(self) == (AppState { nav_cursor: final(self).nav_cursor, ..*old(self) }),
    {
        if self.nav_cursor == 0 {
            return None;
        }
        self.nav_cursor = self.nav_cursor - 1;
        Some(self.nav_history[self.nav_cursor])
    }

    /// Steps forward in the history: `None` at the newest entry, otherwise
    /// the cursor moves one entry forward and that entry is returned.
    pub fn nav_forward(&mut self) -> (r: Option<u64>)
        requires
            old(self).nav_cursor < usize::MAX,
        ensures
            r == forward_result(old(self).nav_history@, old(self).nav_cursor as int),
            final(self).nav_cursor == cursor_after_forward(
                old(self).nav_history@,
                old(self).nav_cursor as int,
            ),
            *final(self) == (AppState { nav_cursor: final(self).nav_cursor, ..*old(self) }),
    {
        if self.nav_cursor + 1 >= self.nav_history.len() {
            return None;
        }
        self.nav_cursor = self.nav_cursor + 1;
        Some(self.nav_history[self.nav_cursor])
    }

    /// Whether there is an entry before the current one.
    pub fn can_nav_back(&self) -> (r: bool)
        ensures
            r == back_possible(self.nav_history@, self.nav_cursor as int),
    {
        self.nav_cursor > 0 && !self.nav_history.is_empty()
    }

    /// Whether there is an entry after the current one.
    pub fn can_nav_forward(&self) -> (r: bool)
        requires
            self.nav_cursor < usize::MAX,
        ensures
            r == forward_possible(self.nav_history@, self.nav_cursor as int),
    {
        self.nav_cursor + 1 < self.nav_history.len()
    }
    /// Selects the function listed as `name` at `addr` in the sidebar: it
    /// becomes the current function and is visited in the navigation history,
    /// the previous decompilation output is cleared, and the start of the
    /// decompilation is logged.
    pub fn select_function(&mut self, addr: u64, name: &str)
        requires
            old(self).nav_history.len() == 0 || old(self).nav_cursor < usize::MAX,
        ensures
            final(self).current_fn_addr == Some(addr),
            final(self).decompiled_code.is_none(),
            final(self).decompiled_nir.is_none(),
            final(self).nav_history@ == history_after_visit(
                old(self).nav_history@,
                old(self).nav_cursor as int,
                addr,
            ),
            final(self).nav_cursor == cursor_after_visit(
                old(self).nav_history@,
                old(self).nav_cursor as int,
                addr,
            ),
            final(self).logs@.len() > 0,
            final(self).logs@ == log_after_push(old(self).logs@, final(self).logs@.last()),
            final(self).logs@.last().level == LogLevel::Info,
            final(self).logs@.last().message@ == decompiling_message(name@, addr),
            *final(self) == (AppState {
                current_fn_addr: final(self).current_fn_addr,
                decompiled_code: final(self).decompiled_code,
                decompiled_nir: final(self).decompiled_nir,
                nav_history: final(self).nav_history,
                nav_cursor: final(self).nav_cursor,
                logs: final(self).logs,
                ..*old(self)
            }),
    {
        self.current_fn_addr = Some(addr);
        self.navigate_to(addr);
        self.decompiled_code = None;
        self.decompiled_nir = None;
        let mut message = String::new();
        message.append("Decompiling ");
        message.append(name);
        message.append("  @  0x");
        push_hex(&mut message, addr);
        push_char(&mut message, '\u{2026}');
        let entry = LogEntry::info(message);
        let ghost e = entry;
        self.push_log(entry);
        proof {
            assert(log_after_push(old(self).logs@, e).last() == e);
        }
    }
    /// Marks the start of loading the file `name` and logs it.
    pub fn begin_load(&mut self, name: &str)
        ensures
            final(self).is_loading,
            final(self).logs@.len() > 0,
            final(self).logs@ == log_after_push(old(self).logs@, final(self).logs@.last()),
            final(self).logs@.last().level == LogLevel::Info,
            final(self).logs@.last().message@ == loading_message(name@),
            *final(self) == (AppState {
                is_loading: final(self).is_loading,
                logs: final(self).logs,
                ..*old(self)
            }),
    {
        self.is_loading = true;
        let mut message = String::new();
        message.append("Loading ");
        message.append(name);
        push_char(&mut message, '\u{2026}');
        let entry = LogEntry::info(message);
        let ghost e = entry;
        self.push_log(entry);
        proof {
            assert(log_after_push(old(self).logs@, e).last() == e);
        }
    }

    /// Takes in a loaded binary: its name, bytes and discovered functions;
    /// loading ends and the backend's summary is logged.
    pub fn finish_load(
        &mut self,
        name: String,
        data: Vec<u8>,
        functions: Vec<FunctionEntry>,
        summary: String,
    )
        ensures
            final(self).binary_name == Some(name),
            final(self).binary_data matches Some(d) && d@ == data@,
            final(self).functions == functions,
            !final(self).is_loading,
            final(self).logs@ == log_after_push(old(self).logs@, LogEntry::info_spec(summary)),
            *final(self) == (AppState {
                binary_name: final(self).binary_name,
                binary_data: final(self).binary_data,
                functions: final(self).functions,
                is_loading: final(self).is_loading,
                logs: final(self).logs,
                ..*old(self)
            }),
    {
        self.binary_name = Some(name);
        self.binary_data = Some(Arc::new(data));
        self.functions = functions;
        self.is_loading = false;
        self.push_log(LogEntry::info(summary));
    }

    /// Records that loading failed with `error`: loading ends and the failure
    /// is logged as an error.
    pub fn fail_load(&mut self, error: &str)
        ensures
            !final(self).is_loading,
            final(self).logs@.len() > 0,
            final(self).logs@ == log_after_push(old(self).logs@, final(self).logs@.last()),
            final(self).logs@.last().level == LogLevel::Error,
            final(self).logs@.last().message@ == load_failed_message(error@),
            *final(self) == (AppState {
                is_loading: final(self).is_loading,
                logs: final(self).logs,
                ..*old(self)
            }),
    {
        self.is_loading = false;
        let mut message = String::new();
        message.append("Load failed: ");
        message.append(error);
        let entry = LogEntry::error(message);
        let ghost e = entry;
        self.push_log(entry);
        proof {
            assert(log_after_push(old(self).logs@, e).last() == e);
        }
    }
}

} // verus!
