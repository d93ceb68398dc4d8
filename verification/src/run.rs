//! The keystroke state machine: one decoded key event in, one state
//! transition and one action out.
//!
//! The caller owns the blocking event loop.  It decodes each X event into a
//! [`KeyEvent`], hands it here, and then performs whatever the returned
//! [`Action`] asks of it: redraw, hand text to the disposer, fetch the
//! clipboard, or exit.

use vstd::prelude::*;

use crate::config::Config;
use crate::input::InputState;
use crate::item::{pair_to_index, resolve_spec, sum_lens, Items};
use crate::result::Die;

verus! {

/// A key, after the caller has decoded the raw keysym.
#[derive(Clone, Copy, PartialEq, Eq, Structural, Debug)]
pub enum Key {
    Escape,
    Return,
    KpEnter,
    Tab,
    Home,
    End,
    PageUp,
    PageDown,
    Left,
    Right,
    Up,
    Down,
    BackSpace,
    Delete,
    /// Anything else: ordinary typed text, carried in `KeyEvent::text`.
    Other,
}

/// One decoded keystroke: the key, the held modifiers, and -- for ordinary
/// keys -- the printable text it produced.  The caller leaves `text` empty
/// for control characters.
#[derive(Debug)]
pub struct KeyEvent {
    pub key: Key,
    /// The plain letter behind a Control or Alt chord, if any.
    pub chord: Option<char>,
    pub ctrl: bool,
    pub mod1: bool,
    pub shift: bool,
    pub text: String,
}

/// What the caller must do after a keystroke has been applied.
#[derive(Debug)]
pub enum Action {
    /// Nothing changed; do not redraw.
    NoRedraw,
    /// State changed; recompute matches and redraw.
    Redraw,
    /// Hand `output` to the disposer hook; `recommend_exit` is false when
    /// the session should stay open.
    Dispose { output: String, recommend_exit: bool },
    /// Fetch the clipboard and paste it into the input buffer.
    RequestPaste,
    /// Leave the event loop and exit as the error says.
    Quit(Die),
}

/// The whole engine state: configuration, input buffer, candidates and
/// selection.
#[derive(Debug)]
pub struct Menu {
    pub config: Config,
    pub input: InputState,
    pub items: Items,
}

/// The text that Return commits: the selected entry when the selection is
/// taken, otherwise the input text verbatim.
pub open spec fn dispose_output(m: Menu, shift: bool) -> Seq<char> {
    let ps = m.items.cached_partitions@;
    if !shift && ps.len() > 0 && m.items.curr < sum_lens(ps) {
        let rs = resolve_spec(ps, m.items.curr as int);
        ps[rs.1].data@[rs.0].text@
    } else {
        m.input.text()
    }
}

impl Menu {
    /// Everything the state machine relies on.
    pub open spec fn wf(&self) -> bool {
        self.items.wf() && self.input.wf()
    }

    pub fn new(config: Config, items: Items) -> (r: Menu)
        requires
            items.wf(),
        ensures
            r.config == config,
            r.items == items,
            r.input.buf() == Seq::<Seq<char>>::empty(),
            r.input.cur() == 0,
            r.wf(),
    {
        Menu { config, input: InputState::new(), items }
    }

    /// Apply one unmodified keystroke.
    ///
    /// Escape quits with exit code one.  Return commits (the selection, or
    /// with Shift the raw input; Control recommends keeping the session).
    /// Tab autocompletes to the selected entry and is a no-op when nothing
    /// matched.  The arrows, paging and Home/End drive the selection or the
    /// text cursor; BackSpace, Delete and ordinary text edit the buffer and
    /// reset the selection to the first entry.
    pub fn keyprocess(&mut self, ev: KeyEvent) -> (r: Action)
        requires
            old(self).wf(),
        ensures
            final(self).wf(),
            keyprocess_covers(*old(self), *final(self), ev, r),
    {
        match ev.key {
            Key::Escape => Action::Quit(Die::Stderr(String::new())),
            Key::Return | Key::KpEnter => {
                let take_selection = !ev.shift && self.items.match_len() > 0;
                let output = if take_selection {
                    match self.items.selected_text() {
                        Some(t) => t,
                        Option::None => self.input.text_string(),
                    }
                } else {
                    self.input.text_string()
                };
                Action::Dispose { output, recommend_exit: !ev.ctrl }
            },
            Key::Tab => {
                if self.items.match_len() > 0 {
                    match self.items.selected_text() {
                        Some(t) => {
                            self.input.replace_with(t.as_str());
                            self.items.curr = 0;
                            Action::Redraw
                        },
                        Option::None => Action::NoRedraw,
                    }
                } else {
                    Action::NoRedraw
                }
            },
            Key::Home => {
                if self.items.nav_home() {
                    Action::Redraw
                } else {
                    Action::NoRedraw
                }
            },
            Key::End => {
                if self.items.nav_end() {
                    Action::Redraw
                } else {
                    Action::NoRedraw
                }
            },
            Key::Up => {
                if self.items.nav_up() {
                    Action::Redraw
                } else {
                    Action::NoRedraw
                }
            },
            Key::Down => {
                if self.items.nav_down() {
                    Action::Redraw
                } else {
                    Action::NoRedraw
                }
            },
            Key::PageDown => {
                if self.items.nav_page_down() {
                    Action::Redraw
                } else {
                    Action::NoRedraw
                }
            },
            Key::PageUp => {
                if self.items.nav_page_up() {
                    Action::Redraw
                } else {
                    Action::NoRedraw
                }
            },
            Key::Left => {
                if self.config.lines == 0 && self.input.cursor() == self.input.grapheme_count() {
                    if self.items.nav_up() {
                        Action::Redraw
                    } else {
                        Action::NoRedraw
                    }
                } else {
                    if self.input.move_left() {
                        Action::Redraw
                    } else {
                        Action::NoRedraw
                    }
                }
            },
            Key::Right => {
                if self.config.lines == 0 && self.input.cursor() == self.input.grapheme_count() {
                    if self.items.nav_down() {
                        Action::Redraw
                    } else {
                        Action::NoRedraw
                    }
                } else {
                    if self.input.move_right() {
                        Action::Redraw
                    } else {
                        Action::NoRedraw
                    }
                }
            },
            Key::BackSpace => {
                if self.input.delete_left() {
                    self.items.curr = 0;
                    Action::Redraw
                } else {
                    Action::NoRedraw
                }
            },
            Key::Delete => {
                if self.input.delete_right() {
                    self.items.curr = 0;
                    Action::Redraw
                } else {
                    Action::NoRedraw
                }
            },
            Key::Other => {
                if self.text_len_positive(&ev.text) {
                    self.input.insert_text(ev.text.as_str());
                    self.items.curr = 0;
                    Action::Redraw
                } else {
                    Action::NoRedraw
                }
            },
        }
    }

    /// Whether the typed text is non-empty.
    fn text_len_positive(&self, text: &String) -> (r: bool)
        ensures
            r == (text@.len() > 0),
    {
        text.as_str().is_empty() == false
    }

    /// Apply one keystroke with its modifiers: the Control and Alt chords
    /// are first translated to the editing command or plain key they stand
    /// for, and everything else is handed on unmodified.
    pub fn keypress(&mut self, ev: KeyEvent) -> (r: Action)
        requires
            old(self).wf(),
        ensures
            final(self).wf(),
            final(self).config == old(self).config,
            final(self).items.data == old(self).items.data,
            final(self).items.cached_partitions == old(self).items.cached_partitions,
            !ev.ctrl && !ev.mod1 ==> keyprocess_covers(*old(self), *final(self), ev, r),
            chord_command(ev) == ChordCommand::ClearRight ==> final(self).input.buf() == old(
                self,
            ).input.buf().take(old(self).input.cur()) && final(self).input.cur() == old(
                self,
            ).input.cur() && final(self).items.curr == 0 && r == Action::Redraw,
            chord_command(ev) == ChordCommand::ClearLeft ==> final(self).input.buf() == old(
                self,
            ).input.buf().skip(old(self).input.cur()) && final(self).input.cur() == 0 && final(self).items.curr == 0 && r == Action::Redraw,
            chord_command(ev) == ChordCommand::DeleteWordLeft ==> final(self).input.buf() == old(
                self,
            ).input.buf().take(
                crate::input::word_start_left(old(self).input.buf(), old(self).input.cur()),
            ) + old(self).input.buf().skip(old(self).input.cur()) && final(self).input.cur()
                == crate::input::word_start_left(old(self).input.buf(), old(self).input.cur())
                && final(self).items.curr == 0 && r == Action::Redraw,
            chord_command(ev) == ChordCommand::DeleteWordRight ==> final(self).input.buf() == old(
                self,
            ).input.buf().take(old(self).input.cur()) + old(self).input.buf().skip(
                crate::input::word_end_right(old(self).input.buf(), old(self).input.cur()),
            ) && final(self).input.cur() == old(self).input.cur() && final(self).items.curr == 0
                && r == Action::Redraw,
            chord_command(ev) == ChordCommand::WordLeft ==> unchanged_items(
                *old(self),
                *final(self),
            ) && final(self).input.buf() == old(self).input.buf() && final(self).input.cur()
                == crate::input::word_start_left(old(self).input.buf(), old(self).input.cur())
                && r == Action::Redraw,
            chord_command(ev) == ChordCommand::WordRight ==> unchanged_items(
                *old(self),
                *final(self),
            ) && final(self).input.buf() == old(self).input.buf() && final(self).input.cur()
                == crate::input::word_end_right(
                old(self).input.buf(),
                if old(self).input.cur() + 1 <= old(self).input.buf().len() {
                    old(self).input.cur() + 1
                } else {
                    old(self).input.buf().len() as int
                },
            ) && r == Action::Redraw,
            chord_command(ev) == ChordCommand::Paste ==> *final(self) == *old(self) && r
                == Action::RequestPaste,
            (ev.ctrl || ev.mod1) && chord_command(ev) == ChordCommand::Ignore ==> *final(self)
                == *old(self) && r == Action::NoRedraw,
            chord_command(ev) matches ChordCommand::Translated(k) ==> keyprocess_covers(
                *old(self),
                *final(self),
                remapped_event(ev, k),
                r,
            ),
            chord_command(ev) == ChordCommand::TranslatedCommit ==> keyprocess_covers(
                *old(self),
                *final(self),
                commit_event(ev),
                r,
            ),
    {
        if !ev.ctrl && !ev.mod1 {
            return self.keyprocess(ev);
        }
        let cmd = chord_command_exec(&ev);
        match cmd {
            ChordCommand::ClearRight => {
                self.input.clear_right_of_cursor();
                self.items.curr = 0;
                Action::Redraw
            },
            ChordCommand::ClearLeft => {
                self.input.clear_left_of_cursor();
                self.items.curr = 0;
                Action::Redraw
            },
            ChordCommand::DeleteWordLeft => {
                self.input.delete_word_left();
                self.items.curr = 0;
                Action::Redraw
            },
            ChordCommand::DeleteWordRight => {
                self.input.delete_word_right();
                self.items.curr = 0;
                Action::Redraw
            },
            ChordCommand::WordLeft => {
                self.input.jump_word_left();
                Action::Redraw
            },
            ChordCommand::WordRight => {
                self.input.jump_word_right();
                Action::Redraw
            },
            ChordCommand::Paste => Action::RequestPaste,
            ChordCommand::Ignore => Action::NoRedraw,
            ChordCommand::Translated(k) => {
                let ev2 = KeyEvent {
                    key: k,
                    chord: ev.chord,
                    ctrl: ev.ctrl,
                    mod1: ev.mod1,
                    shift: ev.shift,
                    text: ev.text,
                };
                self.keyprocess(ev2)
            },
            ChordCommand::TranslatedCommit => {
                let ev2 = KeyEvent {
                    key: Key::Return,
                    chord: ev.chord,
                    ctrl: false,
                    mod1: ev.mod1,
                    shift: ev.shift,
                    text: ev.text,
                };
                self.keyprocess(ev2)
            },
        }
    }
}

/// The editing commands a Control or Alt chord can stand for.
#[derive(Clone, Copy, PartialEq, Eq, Structural, Debug)]
pub enum ChordCommand {
    /// The chord means this plain key, modifiers kept.
    Translated(Key),
    /// The chord commits like a plain Return, with Control shed so that
    /// exiting is still recommended.
    TranslatedCommit,
    ClearLeft,
    ClearRight,
    DeleteWordLeft,
    DeleteWordRight,
    WordLeft,
    WordRight,
    Paste,
    /// An unbound chord: ignored.
    Ignore,
}

/// The keybinding table for Control and Alt chords, exactly the classic
/// bindings: Ctrl-A Home, Ctrl-E End, Ctrl-B/F one step, Alt-B/F and
/// Ctrl-Left/Right word jumps, Ctrl-N/P and Alt-H/L lines, Alt-J/K pages,
/// Ctrl-K/U clears, Ctrl-W and Ctrl-BackSpace / Ctrl-Delete word deletes,
/// Ctrl-Y paste, Ctrl-Return pass-through, Ctrl-C / Ctrl-G / Ctrl-[
/// escape.
pub open spec fn chord_command(ev: KeyEvent) -> ChordCommand {
    if !ev.ctrl && !ev.mod1 {
        ChordCommand::Ignore
    } else if ev.ctrl && ev.key == Key::BackSpace {
        ChordCommand::DeleteWordLeft
    } else if ev.ctrl && ev.key == Key::Delete {
        ChordCommand::DeleteWordRight
    } else if ev.ctrl && ev.key == Key::Left {
        ChordCommand::WordLeft
    } else if ev.ctrl && ev.key == Key::Right {
        ChordCommand::WordRight
    } else if ev.ctrl && (ev.key == Key::Return || ev.key == Key::KpEnter) {
        ChordCommand::Translated(ev.key)
    } else if ev.chord is Some {
        chord_letter_command(ev.chord->0, ev.ctrl)
    } else {
        ChordCommand::Ignore
    }
}

/// The command a plain letter chord stands for; `ctrl` false means Alt.
pub open spec fn chord_letter_command(c: char, ctrl: bool) -> ChordCommand {
    if ctrl {
        if c == 'a' {
            ChordCommand::Translated(Key::Home)
        } else if c == 'b' {
            ChordCommand::Translated(Key::Left)
        } else if c == 'c' {
            ChordCommand::Translated(Key::Escape)
        } else if c == 'd' {
            ChordCommand::Translated(Key::Delete)
        } else if c == 'e' {
            ChordCommand::Translated(Key::End)
        } else if c == 'f' {
            ChordCommand::Translated(Key::Right)
        } else if c == 'g' || c == '[' {
            ChordCommand::Translated(Key::Escape)
        } else if c == 'h' {
            ChordCommand::Translated(Key::BackSpace)
        } else if c == 'i' {
            ChordCommand::Translated(Key::Tab)
        } else if c == 'n' {
            ChordCommand::Translated(Key::Down)
        } else if c == 'p' {
            ChordCommand::Translated(Key::Up)
        } else if c == 'j' || c == 'J' || c == 'm' || c == 'M' {
            ChordCommand::TranslatedCommit
        } else if c == 'k' {
            ChordCommand::ClearRight
        } else if c == 'u' {
            ChordCommand::ClearLeft
        } else if c == 'w' {
            ChordCommand::DeleteWordLeft
        } else if c == 'y' || c == 'Y' {
            ChordCommand::Paste
        } else {
            ChordCommand::Ignore
        }
    } else {
        if c == 'g' {
            ChordCommand::Translated(Key::Home)
        } else if c == 'G' {
            ChordCommand::Translated(Key::End)
        } else if c == 'j' {
            ChordCommand::Translated(Key::PageDown)
        } else if c == 'k' {
            ChordCommand::Translated(Key::PageUp)
        } else if c == 'l' {
            ChordCommand::Translated(Key::Down)
        } else if c == 'h' {
            ChordCommand::Translated(Key::Up)
        } else if c == 'b' {
            ChordCommand::WordLeft
        } else if c == 'f' {
            ChordCommand::WordRight
        } else {
            ChordCommand::Ignore
        }
    }
}

/// The chord table, executably.
fn chord_command_exec(ev: &KeyEvent) -> (r: ChordCommand)
    ensures
        r == chord_command(*ev),
{
    if !ev.ctrl && !ev.mod1 {
        ChordCommand::Ignore
    } else if ev.ctrl && ev.key == Key::BackSpace {
        ChordCommand::DeleteWordLeft
    } else if ev.ctrl && ev.key == Key::Delete {
        ChordCommand::DeleteWordRight
    } else if ev.ctrl && ev.key == Key::Left {
        ChordCommand::WordLeft
    } else if ev.ctrl && ev.key == Key::Right {
        ChordCommand::WordRight
    } else if ev.ctrl && (ev.key == Key::Return || ev.key == Key::KpEnter) {
        ChordCommand::Translated(ev.key)
    } else {
        match ev.chord {
            Some(c) => chord_letter_command_exec(c, ev.ctrl),
            Option::None => ChordCommand::Ignore,
        }
    }
}

/// The letter table, executably.
fn chord_letter_command_exec(c: char, ctrl: bool) -> (r: ChordCommand)
    ensures
        r == chord_letter_command(c, ctrl),
{
    if ctrl {
        if c == 'a' {
            ChordCommand::Translated(Key::Home)
        } else if c == 'b' {
            ChordCommand::Translated(Key::Left)
        } else if c == 'c' {
            ChordCommand::Translated(Key::Escape)
        } else if c == 'd' {
            ChordCommand::Translated(Key::Delete)
        } else if c == 'e' {
            ChordCommand::Translated(Key::End)
        } else if c == 'f' {
            ChordCommand::Translated(Key::Right)
        } else if c == 'g' || c == '[' {
            ChordCommand::Translated(Key::Escape)
        } else if c == 'h' {
            ChordCommand::Translated(Key::BackSpace)
        } else if c == 'i' {
            ChordCommand::Translated(Key::Tab)
        } else if c == 'n' {
            ChordCommand::Translated(Key::Down)
        } else if c == 'p' {
            ChordCommand::Translated(Key::Up)
        } else if c == 'j' || c == 'J' || c == 'm' || c == 'M' {
            ChordCommand::TranslatedCommit
        } else if c == 'k' {
            ChordCommand::ClearRight
        } else if c == 'u' {
            ChordCommand::ClearLeft
        } else if c == 'w' {
            ChordCommand::DeleteWordLeft
        } else if c == 'y' || c == 'Y' {
            ChordCommand::Paste
        } else {
            ChordCommand::Ignore
        }
    } else {
        if c == 'g' {
            ChordCommand::Translated(Key::Home)
        } else if c == 'G' {
            ChordCommand::Translated(Key::End)
        } else if c == 'j' {
            ChordCommand::Translated(Key::PageDown)
        } else if c == 'k' {
            ChordCommand::Translated(Key::PageUp)
        } else if c == 'l' {
            ChordCommand::Translated(Key::Down)
        } else if c == 'h' {
            ChordCommand::Translated(Key::Up)
        } else if c == 'b' {
            ChordCommand::WordLeft
        } else if c == 'f' {
            ChordCommand::WordRight
        } else {
            ChordCommand::Ignore
        }
    }
}

/// The event as `keyprocess` sees it after a chord translation: only the
/// key is replaced.
pub open spec fn remapped_event(ev: KeyEvent, k: Key) -> KeyEvent {
    KeyEvent { key: k, chord: ev.chord, ctrl: ev.ctrl, mod1: ev.mod1, shift: ev.shift, text: ev.text }
}

/// The plain Return a committing chord stands for: Control is shed, so the
/// commit still recommends exit.
pub open spec fn commit_event(ev: KeyEvent) -> KeyEvent {
    KeyEvent {
        key: Key::Return,
        chord: ev.chord,
        ctrl: false,
        mod1: ev.mod1,
        shift: ev.shift,
        text: ev.text,
    }
}

/// The input buffer did not change.
pub open spec fn unchanged_input(a: Menu, b: Menu) -> bool {
    b.input.buf() == a.input.buf() && b.input.cur() == a.input.cur()
}

/// The candidates, pages and selection did not change.
pub open spec fn unchanged_items(a: Menu, b: Menu) -> bool {
    b.items == a.items
}

/// What Tab does: autocomplete to the selected entry, cursor to the end,
/// selection back to the first entry -- and nothing at all when nothing
/// matched.
pub open spec fn tab_transition(pre: Menu, post: Menu, r: Action) -> bool {
    let ps = pre.items.cached_partitions@;
    if ps.len() > 0 && pre.items.curr < sum_lens(ps) {
        let rs = resolve_spec(ps, pre.items.curr as int);
        let sel = ps[rs.1].data@[rs.0].text@;
        post.input.buf() == crate::input::graphemes_of(sel) && post.input.cur()
            == crate::input::graphemes_of(sel).len() && post.items.curr == 0
            && post.items.cached_partitions == pre.items.cached_partitions && post.items.data
            == pre.items.data && r == Action::Redraw
    } else {
        post == pre && r == Action::NoRedraw
    }
}

/// What Left does: with the horizontal layout and the text cursor at the
/// end it moves the selection back, clamped at the first entry; otherwise
/// it moves the text cursor.
pub open spec fn left_transition(pre: Menu, post: Menu, r: Action) -> bool {
    if pre.config.lines == 0 && pre.input.cur() == pre.input.buf().len() {
        if pre.items.curr > 0 {
            unchanged_input(pre, post) && post.items.curr == pre.items.curr - 1 && r
                == Action::Redraw
        } else {
            post == pre && r == Action::NoRedraw
        }
    } else if pre.input.cur() > 0 {
        unchanged_items(pre, post) && post.input.buf() == pre.input.buf() && post.input.cur()
            == pre.input.cur() - 1 && r == Action::Redraw
    } else {
        post == pre && r == Action::NoRedraw
    }
}

/// What Right does: with the horizontal layout and the text cursor at the
/// end it moves the selection forward; otherwise it moves the text cursor.
pub open spec fn right_transition(pre: Menu, post: Menu, r: Action) -> bool {
    if pre.config.lines == 0 && pre.input.cur() == pre.input.buf().len() {
        if pre.items.curr + 1 < sum_lens(pre.items.cached_partitions@) {
            unchanged_input(pre, post) && post.items.curr == pre.items.curr + 1 && r
                == Action::Redraw
        } else {
            post == pre && r == Action::NoRedraw
        }
    } else if pre.input.cur() < pre.input.buf().len() {
        unchanged_items(pre, post) && post.input.buf() == pre.input.buf() && post.input.cur()
            == pre.input.cur() + 1 && r == Action::Redraw
    } else {
        post == pre && r == Action::NoRedraw
    }
}

/// The promises `keyprocess` makes, bundled so that `keypress` can pass
/// them on for the keys it hands through.
pub open spec fn keyprocess_covers(pre: Menu, post: Menu, ev: KeyEvent, r: Action) -> bool {
    &&& post.config == pre.config
    &&& post.items.data == pre.items.data
    &&& post.items.cached_partitions == pre.items.cached_partitions
    &&& (ev.key == Key::Escape ==> post == pre && (r matches Action::Quit(d) && d matches Die::Stderr(m) && m@ == Seq::<char>::empty()))
    &&& (ev.key == Key::Tab ==> tab_transition(pre, post, r))
    &&& (ev.key == Key::Left ==> left_transition(pre, post, r))
    &&& (ev.key == Key::Right ==> right_transition(pre, post, r))
    &&& (ev.key == Key::Home ==> (if pre.items.cached_partitions@.len() > 0 {
        unchanged_input(pre, post) && post.items.curr == 0 && r == Action::Redraw
    } else {
        post == pre && r == Action::NoRedraw
    }))
    &&& (ev.key == Key::End ==> (if pre.items.cached_partitions@.len() > 0 {
        unchanged_input(pre, post) && post.items.curr == sum_lens(pre.items.cached_partitions@) - 1
            && r == Action::Redraw
    } else {
        post == pre && r == Action::NoRedraw
    }))
    &&& (ev.key == Key::Return || ev.key == Key::KpEnter ==> post == pre && (
    r matches Action::Dispose { output, recommend_exit } && output@ == dispose_output(pre, ev.shift)
        && recommend_exit == !ev.ctrl))
    &&& (ev.key == Key::Up ==> unchanged_input(pre, post) && (if pre.items.curr > 0 {
        post.items.curr == pre.items.curr - 1 && r == Action::Redraw
    } else {
        post == pre && r == Action::NoRedraw
    }))
    &&& (ev.key == Key::Down ==> unchanged_input(pre, post) && (if pre.items.curr + 1 < sum_lens(
        pre.items.cached_partitions@,
    ) {
        post.items.curr == pre.items.curr + 1 && r == Action::Redraw
    } else {
        post == pre && r == Action::NoRedraw
    }))
    &&& (ev.key == Key::PageDown ==> unchanged_input(pre, post) && page_down_transition(
        pre,
        post,
        r,
    ))
    &&& (ev.key == Key::PageUp ==> unchanged_input(pre, post) && page_up_transition(pre, post, r))
    &&& (ev.key == Key::BackSpace ==> (if pre.input.cur() > 0 {
        post.input.buf() == pre.input.buf().remove(pre.input.cur() - 1) && post.input.cur()
            == pre.input.cur() - 1 && post.items.curr == 0 && r == Action::Redraw
    } else {
        post == pre && r == Action::NoRedraw
    }))
    &&& (ev.key == Key::Delete ==> (if pre.input.cur() < pre.input.buf().len() {
        post.input.buf() == pre.input.buf().remove(pre.input.cur()) && post.input.cur()
            == pre.input.cur() && post.items.curr == 0 && r == Action::Redraw
    } else {
        post == pre && r == Action::NoRedraw
    }))
    &&& (ev.key == Key::Other ==> (if ev.text@.len() > 0 {
        post.input.buf() == crate::input::splice(
            pre.input.buf(),
            pre.input.cur(),
            crate::input::graphemes_of(ev.text@),
        ) && post.input.cur() == pre.input.cur() + crate::input::graphemes_of(ev.text@).len()
            && post.items.curr == 0 && r == Action::Redraw
    } else {
        post == pre && r == Action::NoRedraw
    }))
}

/// What paging forward does: land on the first entry of the next page,
/// or nothing from the last page or with nothing selected.
pub open spec fn page_down_transition(pre: Menu, post: Menu, r: Action) -> bool {
    let ps = pre.items.cached_partitions@;
    if pre.items.curr < sum_lens(ps) && resolve_spec(ps, pre.items.curr as int).1 + 1 < ps.len() {
        post.items.curr == pair_to_index(ps, resolve_spec(ps, pre.items.curr as int).1 + 1, 0) && r
            == Action::Redraw
    } else {
        post == pre && r == Action::NoRedraw
    }
}

/// What paging back does: land on the first entry of the previous page,
/// or nothing from the first page or with nothing selected.
pub open spec fn page_up_transition(pre: Menu, post: Menu, r: Action) -> bool {
    let ps = pre.items.cached_partitions@;
    if pre.items.curr < sum_lens(ps) && resolve_spec(ps, pre.items.curr as int).1 > 0 {
        post.items.curr == pair_to_index(ps, resolve_spec(ps, pre.items.curr as int).1 - 1, 0) && r
            == Action::Redraw
    } else {
        post == pre && r == Action::NoRedraw
    }
}

} // verus!
