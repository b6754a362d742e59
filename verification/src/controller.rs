use vstd::prelude::*;

use crate::chars::str_to_chars;
use crate::date::{today, Date};
use crate::task::{spec_new, Task, TaskView};

verus! {

/// A keystroke, as the controller understands it.
#[derive(Clone, Copy, PartialEq, Eq, Structural, Debug)]
pub enum Key {
    Char(char),
    Enter,
    Esc,
    Up,
    Down,
    Other,
}

/// One item of the input stream: a keystroke or a timer tick.
#[derive(Clone, Copy, PartialEq, Eq, Structural, Debug)]
pub enum Event {
    Input(Key),
    Tick,
}

/// The two modal input states.
#[derive(Clone, Copy, PartialEq, Eq, Structural, Debug)]
pub enum Mode {
    Normal,
    Command,
}

/// The mathematical image of the controller state. Cursor coordinates are
/// `(col, row)`, 1-indexed as the terminal counts them.
#[verifier::ext_equal]
pub ghost struct AppView {
    pub mode: Mode,
    pub buffer: Seq<char>,
    pub cursor: (u16, u16),
    pub backup: (u16, u16),
    pub tasks: Seq<TaskView>,
    pub search: Seq<char>,
}

/// The interaction controller: owns the input mode, the command buffer, the
/// cursor and its backup, and the working task list.
pub struct App {
    pub mode: Mode,
    pub command_buffer: String,
    pub cursor: (u16, u16),
    pub cursor_backup: (u16, u16),
    pub tasks: Vec<Task>,
    pub search: String,
}

impl View for App {
    type V = AppView;

    open spec fn view(&self) -> AppView {
        AppView {
            mode: self.mode,
            buffer: self.command_buffer@,
            cursor: self.cursor,
            backup: self.cursor_backup,
            tasks: self.tasks.deep_view(),
            search: self.search@,
        }
    }
}

/// The command buffer seeded by the `a` shortcut.
pub open spec fn add_prefix() -> Seq<char> {
    seq![':', 'a', 'd', 'd', ' ']
}

/// The controller state a fresh session starts in.
pub open spec fn init_view() -> AppView {
    AppView {
        mode: Mode::Normal,
        buffer: Seq::empty(),
        cursor: (1, 1),
        backup: (1, 1),
        tasks: Seq::empty(),
        search: Seq::empty(),
    }
}

/// One row down, clamped to the rows that hold tasks.
pub open spec fn row_down(row: u16, n: int) -> u16 {
    if row as int + 1 < n && row < 0xffff {
        (row + 1) as u16
    } else {
        row
    }
}

/// One row up, clamped at the top.
pub open spec fn row_up(row: u16) -> u16 {
    if row > 0 {
        (row - 1) as u16
    } else {
        row
    }
}

/// The fixed row the `G` shortcut jumps to, clamped to the rows that hold
/// tasks.
pub open spec fn row_jump(n: int) -> u16 {
    if n == 0 {
        0
    } else if n > 5 {
        5
    } else {
        (n - 1) as u16
    }
}

/// Submitting the command buffer: a leading `/` stores a search query, a
/// leading `:` runs a structured edit command (`add` builds a task via the
/// record engine against `today`; a rejected command changes nothing), and
/// any other leading character is silently ignored.
pub open spec fn spec_dispatch(v: AppView, today: Date) -> AppView {
    let b = v.buffer;
    if b.len() > 0 && b[0] == '/' {
        AppView { search: b.subrange(1, b.len() as int), ..v }
    } else if b.len() >= 5 && b.subrange(0, 5) == add_prefix() {
        match spec_new(b.subrange(5, b.len() as int), today) {
            Ok(t) => AppView { tasks: v.tasks.push(t), ..v },
            Err(_) => v,
        }
    } else {
        v
    }
}

/// A Normal-mode keystroke: `q` quits, `/` and `a` enter Command mode
/// saving the cursor and seeding the buffer, `j`/`k` and the arrows move
/// the cursor row within the task rows, `g` jumps to the top and `G` to the
/// fixed row the shortcut names.
pub open spec fn spec_norm_step(v: AppView, k: Key) -> (AppView, bool) {
    match k {
        Key::Char(c) => if c == 'q' {
            (v, true)
        } else if c == '/' {
            (
                AppView { mode: Mode::Command, buffer: seq!['/'], backup: v.cursor, ..v },
                false,
            )
        } else if c == 'a' {
            (
                AppView { mode: Mode::Command, buffer: add_prefix(), backup: v.cursor, ..v },
                false,
            )
        } else if c == 'j' {
            (
                AppView { cursor: (v.cursor.0, row_down(v.cursor.1, v.tasks.len() as int)), ..v },
                false,
            )
        } else if c == 'k' {
            (AppView { cursor: (v.cursor.0, row_up(v.cursor.1)), ..v }, false)
        } else if c == 'g' {
            (AppView { cursor: (v.cursor.0, 0), ..v }, false)
        } else if c == 'G' {
            (AppView { cursor: (v.cursor.0, row_jump(v.tasks.len() as int)), ..v }, false)
        } else {
            (v, false)
        },
        Key::Down => (
            AppView { cursor: (v.cursor.0, row_down(v.cursor.1, v.tasks.len() as int)), ..v },
            false,
        ),
        Key::Up => (AppView { cursor: (v.cursor.0, row_up(v.cursor.1)), ..v }, false),
        _ => (v, false),
    }
}

/// A Command-mode keystroke: characters accumulate in the buffer and move
/// the cursor column, `Esc` aborts and restores the saved cursor, `Enter`
/// submits the buffer and restores the saved cursor; both returns clear the
/// buffer and go back to Normal mode.
pub open spec fn spec_cmd_step(v: AppView, k: Key, today: Date) -> AppView {
    match k {
        Key::Char(c) => AppView {
            buffer: v.buffer.push(c),
            cursor: (if v.cursor.0 < 0xffff {
                ((v.cursor.0 + 1) as u16, v.cursor.1)
            } else {
                v.cursor
            }),
            ..v
        },
        Key::Esc => AppView { mode: Mode::Normal, buffer: Seq::empty(), cursor: v.backup, ..v },
        Key::Enter => {
            let d = spec_dispatch(v, today);
            AppView { mode: Mode::Normal, buffer: Seq::empty(), cursor: v.backup, ..d }
        },
        _ => v,
    }
}

/// The full transition relation of the controller, and whether the
/// keystroke asks to quit.
pub open spec fn spec_step(v: AppView, k: Key, today: Date) -> (AppView, bool) {
    if v.mode == Mode::Normal {
        spec_norm_step(v, k)
    } else {
        (spec_cmd_step(v, k, today), false)
    }
}

/// `spec_step` folded over a keystroke sequence.
pub open spec fn spec_steps(v: AppView, keys: Seq<Key>, today: Date) -> AppView
    decreases keys.len(),
{
    if keys.len() == 0 {
        v
    } else {
        spec_steps(spec_step(v, keys[0], today).0, keys.drop_first(), today)
    }
}

/// The step relation folded over an event stream, stopping at the first
/// quit keystroke; ticks change nothing.
pub open spec fn spec_run(v: AppView, evs: Seq<Event>, today: Date) -> (AppView, bool)
    decreases evs.len(),
{
    if evs.len() == 0 {
        (v, false)
    } else {
        let r = match evs[0] {
            Event::Input(k) => spec_step(v, k, today),
            Event::Tick => (v, false),
        };
        if r.1 {
            (r.0, true)
        } else {
            spec_run(r.0, evs.drop_first(), today)
        }
    }
}

pub open spec fn all_chars(keys: Seq<Key>) -> bool {
    forall|i: int| 0 <= i < keys.len() ==> (#[trigger] keys[i]) matches Key::Char(_)
}

proof fn lemma_cmd_chars_keep_backup(v: AppView, typed: Seq<Key>, today: Date)
    requires
        v.mode == Mode::Command,
        all_chars(typed),
    ensures
        spec_steps(v, typed, today).mode == Mode::Command,
        spec_steps(v, typed, today).backup == v.backup,
    decreases typed.len(),
{
    if typed.len() > 0 {
        assert(typed[0] matches Key::Char(_));
        let v2 = spec_step(v, typed[0], today).0;
        assert(v2.mode == Mode::Command && v2.backup == v.backup);
        assert(all_chars(typed.drop_first())) by {
            assert forall|i: int| 0 <= i < typed.drop_first().len() implies (#[trigger] typed.drop_first()[i]) matches Key::Char(_) by {
                assert(typed.drop_first()[i] == typed[i + 1]);
            }
        }
        lemma_cmd_chars_keep_backup(v2, typed.drop_first(), today);
    }
}

/// Typing `Esc` in Command mode always restores the exact cursor
/// coordinates captured when Command mode was entered, however many
/// intervening keystrokes changed the command buffer and moved the cursor.
pub proof fn lemma_esc_restores_cursor(v: AppView, seed: Key, typed: Seq<Key>, today: Date)
    requires
        v.mode == Mode::Normal,
        seed == Key::Char('/') || seed == Key::Char('a'),
        all_chars(typed),
    ensures
        spec_step(spec_steps(spec_step(v, seed, today).0, typed, today), Key::Esc, today).0.cursor
            == v.cursor,
{
    let v1 = spec_step(v, seed, today).0;
    assert(v1.mode == Mode::Command && v1.backup == v.cursor);
    lemma_cmd_chars_keep_backup(v1, typed, today);
}

impl App {
    /// A fresh controller: Normal mode, empty buffer, cursor at the origin,
    /// no tasks.
    pub fn new() -> (r: App)
        ensures
            r@ == init_view(),
    {
        let r = App {
            mode: Mode::Normal,
            command_buffer: String::new(),
            cursor: (1, 1),
            cursor_backup: (1, 1),
            tasks: Vec::new(),
            search: String::new(),
        };
        proof {
            assert(r@ =~~= init_view());
        }
        r
    }

    /// Handles the submitted command buffer, then returns to Normal mode.
    fn dispatch(&mut self, today: Date)
        requires
            today.valid(),
        ensures
            final(self)@ == spec_dispatch(old(self)@, today),
    {
        let b = str_to_chars(self.command_buffer.as_str());
        if b.len() > 0 && b[0] == '/' {
            let mut q = String::new();
            let mut i: usize = 1;
            while i < b.len()
                invariant
                    1 <= i <= b@.len(),
                    q@ == b@.subrange(1, i as int),
                decreases b@.len() - i,
            {
                crate::chars::push_char(&mut q, b[i]);
                proof {
                    assert(q@ =~= b@.subrange(1, i + 1 as int));
                }
                i += 1;
            }
            self.search = q;
            proof {
                assert(self@ =~~= spec_dispatch(old(self)@, today));
            }
        } else if b.len() >= 5 && b[0] == ':' && b[1] == 'a' && b[2] == 'd' && b[3] == 'd' && b[4]
            == ' ' {
            proof {
                assert(b@.subrange(0, 5) =~= add_prefix());
            }
            let mut cmd = String::new();
            let mut i: usize = 5;
            while i < b.len()
                invariant
                    5 <= i <= b@.len(),
                    cmd@ == b@.subrange(5, i as int),
                decreases b@.len() - i,
            {
                crate::chars::push_char(&mut cmd, b[i]);
                proof {
                    assert(cmd@ =~= b@.subrange(5, i + 1 as int));
                }
                i += 1;
            }
            match Task::new_on(cmd.as_str(), today) {
                Ok(t) => {
                    let ghost pre = self.tasks.deep_view();
                    self.tasks.push(t);
                    proof {
                        assert(self.tasks.deep_view() =~= pre.push(t@));
                        assert(self@ =~~= spec_dispatch(old(self)@, today));
                    }
                },
                Err(_) => {
                    proof {
                        assert(self@ =~~= spec_dispatch(old(self)@, today));
                    }
                },
            }
        } else {
            proof {
                if b@.len() >= 5 && b@.subrange(0, 5) == add_prefix() {
                    assert(b@[0] == add_prefix()[0]);
                    assert(b@[1] == add_prefix()[1]);
                    assert(b@[2] == add_prefix()[2]);
                    assert(b@[3] == add_prefix()[3]);
                    assert(b@[4] == add_prefix()[4]);
                }
                assert(self@ =~~= spec_dispatch(old(self)@, today));
            }
        }
    }

    /// Handles one keystroke against the reference date `today`; the result
    /// says whether the user asked to quit.
    pub fn on_key(&mut self, k: Key, today: Date) -> (quit: bool)
        requires
            today.valid(),
        ensures
            final(self)@ == spec_step(old(self)@, k, today).0,
            quit == spec_step(old(self)@, k, today).1,
    {
        if matches!(self.mode, Mode::Normal) {
            match k {
                Key::Char(c) => {
                    if c == 'q' {
                        return true;
                    } else if c == '/' {
                        self.cursor_backup = self.cursor;
                        self.mode = Mode::Command;
                        let mut b = String::new();
                        crate::chars::push_char(&mut b, '/');
                        self.command_buffer = b;
                        proof {
                            assert(self@.buffer =~= seq!['/']);
                            assert(self@ =~~= spec_step(old(self)@, k, today).0);
                        }
                    } else if c == 'a' {
                        self.cursor_backup = self.cursor;
                        self.mode = Mode::Command;
                        let mut b = String::new();
                        crate::chars::push_char(&mut b, ':');
                        crate::chars::push_char(&mut b, 'a');
                        crate::chars::push_char(&mut b, 'd');
                        crate::chars::push_char(&mut b, 'd');
                        crate::chars::push_char(&mut b, ' ');
                        self.command_buffer = b;
                        proof {
                            assert(self@.buffer =~= add_prefix());
                            assert(self@ =~~= spec_step(old(self)@, k, today).0);
                        }
                    } else if c == 'j' {
                        self.move_down();
                    } else if c == 'k' {
                        if self.cursor.1 > 0 {
                            self.cursor = (self.cursor.0, self.cursor.1 - 1);
                        }
                    } else if c == 'g' {
                        self.cursor = (self.cursor.0, 0);
                    } else if c == 'G' {
                        let n = self.tasks.len();
                        let row: u16 = if n == 0 {
                            0
                        } else if n > 5 {
                            5
                        } else {
                            (n - 1) as u16
                        };
                        self.cursor = (self.cursor.0, row);
                    }
                },
                Key::Down => {
                    self.move_down();
                },
                Key::Up => {
                    if self.cursor.1 > 0 {
                        self.cursor = (self.cursor.0, self.cursor.1 - 1);
                    }
                },
                _ => {},
            }
            false
        } else {
            match k {
                Key::Char(c) => {
                    crate::chars::push_char(&mut self.command_buffer, c);
                    if self.cursor.0 < 0xffff {
                        self.cursor = (self.cursor.0 + 1, self.cursor.1);
                    }
                },
                Key::Esc => {
                    self.mode = Mode::Normal;
                    self.command_buffer = String::new();
                    self.cursor = self.cursor_backup;
                },
                Key::Enter => {
                    self.dispatch(today);
                    self.mode = Mode::Normal;
                    self.command_buffer = String::new();
                    self.cursor = self.cursor_backup;
                    proof {
                        assert(self@ =~~= spec_step(old(self)@, k, today).0);
                    }
                },
                _ => {},
            }
            false
        }
    }

    /// Moves the displayed cursor one task row down.
    fn move_down(&mut self)
        ensures
            final(self)@ == (AppView {
                cursor: (
                    old(self)@.cursor.0,
                    row_down(old(self)@.cursor.1, old(self)@.tasks.len() as int),
                ),
                ..old(self)@
            }),
    {
        let row = self.cursor.1;
        if (row as usize) + 1 < self.tasks.len() && row < 0xffff {
            self.cursor = (self.cursor.0, row + 1);
        }
    }

    /// A timer tick changes nothing of the controller state.
    pub fn on_tick(&mut self)
        ensures
            final(self)@ == old(self)@,
    {
    }

    /// Consumes a batch of events strictly in arrival order against one
    /// reference date, stopping at the first quit keystroke; the result says
    /// whether that happened.
    pub fn run(&mut self, events: &Vec<Event>, today: Date) -> (quit: bool)
        requires
            today.valid(),
        ensures
            final(self)@ == spec_run(old(self)@, events@, today).0,
            quit == spec_run(old(self)@, events@, today).1,
    {
        let mut idx: usize = 0;
        proof {
            assert(events@.skip(0) =~= events@);
        }
        while idx < events.len()
            invariant
                today.valid(),
                idx <= events@.len(),
                spec_run(old(self)@, events@, today) == spec_run(
                    self@,
                    events@.skip(idx as int),
                    today,
                ),
            decreases events@.len() - idx,
        {
            let ghost pre = self@;
            let ghost rest = events@.skip(idx as int);
            let e = events[idx];
            let q = match e {
                Event::Input(k) => self.on_key(k, today),
                Event::Tick => {
                    self.on_tick();
                    false
                },
            };
            proof {
                assert(rest[0] == events@[idx as int]);
                assert(rest.drop_first() =~= events@.skip(idx + 1));
            }
            if q {
                return true;
            }
            idx += 1;
        }
        proof {
            assert(events@.skip(events@.len() as int) =~= Seq::<Event>::empty());
        }
        false
    }

    /// Handles one event of the input stream against the current date.
    pub fn on_event(&mut self, e: Event) -> (quit: bool)
        ensures
            (match e {
                Event::Input(k) => exists|t: Date|
                    t.valid() && final(self)@ == #[trigger] spec_step(old(self)@, k, t).0 && quit
                        == spec_step(old(self)@, k, t).1,
                Event::Tick => final(self)@ == old(self)@ && !quit,
            }),
    {
        match e {
            Event::Input(k) => {
                let t0 = today();
                self.on_key(k, t0)
            },
            Event::Tick => {
                self.on_tick();
                false
            },
        }
    }
}

} // verus!
