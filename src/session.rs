//! The interactive session: an input buffer, a mode, and the output derived
//! from them after every edit.
use vstd::prelude::*;

use crate::decoder::{decode, decode_symbols, parse_raw, parse_raw_spec};
use crate::encoder::{encode, encoding};
use crate::symbol::{render, well_separated, MorseCode};
use crate::text::{pop_char, push_char};

verus! {

/// Which way the session translates.
#[derive(Debug, PartialEq, Eq, Structural, Clone, Copy)]
pub enum InputMode {
    /// Text in, Morse out.
    Encode,
    /// Morse in, text out.
    Decode,
}

impl InputMode {
    /// The other mode.
    pub open spec fn flipped(self) -> InputMode {
        match self {
            InputMode::Encode => InputMode::Decode,
            InputMode::Decode => InputMode::Encode,
        }
    }
}

/// A key press, as the session sees it.
#[derive(Debug, PartialEq, Eq, Structural, Clone, Copy)]
pub enum Key {
    /// A character key.
    Char(char),
    /// A character key held with Control.
    CtrlChar(char),
    Tab,
    Backspace,
    Enter,
    /// Any other key, or an event that is not a press.
    Other,
}

/// The output shown for `input` in `mode`.
pub open spec fn derived_output(input: Seq<char>, mode: InputMode) -> Seq<char> {
    match mode {
        InputMode::Encode => render(encoding(input)),
        InputMode::Decode => decode_symbols(parse_raw_spec(input)),
    }
}

/// Whether `key` ends the session.
pub open spec fn is_quit_key(key: Key) -> bool {
    key == Key::Char('q') || key == Key::CtrlChar('q') || key == Key::CtrlChar('c')
}

/// The input after `key` is applied to `input`.
pub open spec fn edited_input(input: Seq<char>, key: Key) -> Seq<char> {
    match key {
        Key::Char(c) => input.push(c),
        Key::CtrlChar(c) => input.push(c),
        Key::Backspace => if input.len() > 0 {
            input.drop_last()
        } else {
            input
        },
        Key::Enter => input.push('\n'),
        _ => input,
    }
}

/// The mode after `key`.
pub open spec fn next_mode(mode: InputMode, key: Key) -> InputMode {
    if key == Key::Tab {
        mode.flipped()
    } else {
        mode
    }
}

pub struct App {
    input: String,
    mode: InputMode,
    output: String,
}

impl App {
    pub closed spec fn input_view(&self) -> Seq<char> {
        self.input@
    }

    pub closed spec fn output_view(&self) -> Seq<char> {
        self.output@
    }

    pub closed spec fn mode_view(&self) -> InputMode {
        self.mode
    }

    /// The output always matches the input and mode.
    pub open spec fn wf(&self) -> bool {
        self.output_view() == derived_output(self.input_view(), self.mode_view())
    }

    /// An empty session in encode mode.
    pub fn new() -> (r: App)
        ensures
            r.wf(),
            r.input_view().len() == 0,
            r.output_view().len() == 0,
            r.mode_view() == InputMode::Encode,
    {
        let mut app = App { input: String::new(), mode: InputMode::Encode, output: String::new() };
        app.update_output();
        app
    }

    /// Recomputes the output from the input and the mode.
    pub fn update_output(&mut self)
        ensures
            final(self).wf(),
            final(self).input_view() == old(self).input_view(),
            final(self).mode_view() == old(self).mode_view(),
            old(self).input_view().len() == 0 ==> final(self).output_view().len() == 0,
    {
        match self.mode {
            InputMode::Encode => {
                let encoded = encode(self.input.clone());
                self.output = encoded.to_display_string();
            },
            InputMode::Decode => {
                let morse = self.parse_morse_input();
                self.output = decode(morse);
            },
        }
        proof {
            if self.input@.len() == 0 {
                if self.mode == InputMode::Decode {
                    assert(parse_raw_spec(self.input@) =~= seq![]) by {
                        assert(self.input@.take(0) =~= self.input@);
                    }
                    assert(self.output@ =~= seq![]) by {
                        reveal_with_fuel(crate::decoder::decoded_before, 1);
                    }
                }
            }
        }
    }

    /// The input read as typed Morse.
    pub fn parse_morse_input(&self) -> (r: MorseCode)
        ensures
            r@ == parse_raw_spec(self.input_view()),
            well_separated(r@),
    {
        parse_raw(self.input.as_str())
    }

    /// Switches between encoding and decoding, and recomputes the output.
    pub fn toggle_mode(&mut self)
        ensures
            final(self).wf(),
            final(self).input_view() == old(self).input_view(),
            final(self).mode_view() == old(self).mode_view().flipped(),
    {
        self.mode = match self.mode {
            InputMode::Encode => InputMode::Decode,
            InputMode::Decode => InputMode::Encode,
        };
        self.update_output();
    }

    /// Applies one key press: `q`, or Control with `q` or `c`, ends the session
    /// (the result is true and nothing changes); Tab switches the mode; a
    /// character key, or Enter as a newline, is appended to the input;
    /// Backspace removes the last input character. The output is recomputed
    /// after each change.
    pub fn handle_key(&mut self, key: Key) -> (quit: bool)
        requires
            old(self).wf(),
        ensures
            quit == is_quit_key(key),
            final(self).wf(),
            quit ==> final(self).input_view() == old(self).input_view(),
            quit ==> final(self).mode_view() == old(self).mode_view(),
            !quit ==> final(self).input_view() == edited_input(old(self).input_view(), key),
            !quit ==> final(self).mode_view() == next_mode(old(self).mode_view(), key),
    {
        match key {
            Key::Char('q') | Key::CtrlChar('q') | Key::CtrlChar('c') => {
                return true;
            },
            Key::Tab => {
                self.toggle_mode();
            },
            Key::Char(c) | Key::CtrlChar(c) => {
                push_char(&mut self.input, c);
                self.update_output();
            },
            Key::Backspace => {
                let _ = pop_char(&mut self.input);
                self.update_output();
            },
            Key::Enter => {
                push_char(&mut self.input, '\n');
                self.update_output();
            },
            Key::Other => {},
        }
        false
    }

    pub fn input(&self) -> (r: &str)
        ensures
            r@ == self.input_view(),
    {
        self.input.as_str()
    }

    pub fn output(&self) -> (r: &str)
        ensures
            r@ == self.output_view(),
    {
        self.output.as_str()
    }

    pub fn mode(&self) -> (r: InputMode)
        ensures
            r == self.mode_view(),
    {
        self.mode
    }
}

} // verus!
