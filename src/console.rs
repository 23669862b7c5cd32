//! The debug console: a line of typed key codes that becomes a command of a
//! name and arguments.

use vstd::prelude::*;
use crate::pec::{parse_number, parse_unsigned, text_chars};

verus! {

/// Key codes a command line holds.
pub const TEXT_LEN: usize = 256;

/// The character of a typed key code: 1 to 26 are `a` to `z`, 27 to 35 are
/// `1` to `9`, then `0`, `.`, `-` and space. Other codes stand for nothing.
pub open spec fn char_of_code(n: u32) -> Option<char> {
    if 1 <= n <= 26 {
        Some(((n + 96) as u8) as char)
    } else if 27 <= n <= 35 {
        Some(((n + 22) as u8) as char)
    } else if n == 36 {
        Some('0')
    } else if n == 37 {
        Some('.')
    } else if n == 38 {
        Some('-')
    } else if n == 39 {
        Some(' ')
    } else {
        None
    }
}

/// The character of a typed key code.
pub fn num_to_char(n: u32) -> (r: Option<char>)
    ensures
        r == char_of_code(n),
{
    if 1 <= n && n <= 26 {
        Some(((n + 96) as u8) as char)
    } else if 27 <= n && n <= 35 {
        Some(((n + 22) as u8) as char)
    } else if n == 36 {
        Some('0')
    } else if n == 37 {
        Some('.')
    } else if n == 38 {
        Some('-')
    } else if n == 39 {
        Some(' ')
    } else {
        None
    }
}

/// Which input the keyboard drives.
#[derive(Clone, Copy, Debug, PartialEq, Eq, Structural)]
pub enum KeyboardInputState {
    /// Typing a console command.
    Commands,
    /// Moving the camera.
    FreeCam,
}

impl Default for KeyboardInputState {
    fn default() -> (r: Self)
        ensures
            r == KeyboardInputState::FreeCam,
    {
        KeyboardInputState::FreeCam
    }
}

/// A key typed into the console line.
#[derive(Clone, Copy, Debug, PartialEq, Eq, Structural)]
pub enum TypedKey {
    /// Erase the last code.
    Back,
    /// Append a key code; 0 for a key that types nothing.
    Code(u32),
}

/// The console keys of one frame.
pub struct KeyFrame {
    /// Shift is held.
    pub shift_held: bool,
    /// `C` went down this frame.
    pub c_just_pressed: bool,
    /// Escape is held.
    pub escape_held: bool,
    /// Return is held.
    pub return_held: bool,
    /// The keys that went down this frame, in order.
    pub typed: Vec<TypedKey>,
}

/// A console command: its name and its arguments.
pub struct Command {
    pub function: String,
    pub arguments: Vec<String>,
}

/// The characters that a line of key codes spells, skipping codes that stand
/// for nothing.
pub open spec fn command_chars(codes: Seq<u32>) -> Seq<char>
    decreases codes.len(),
{
    if codes.len() == 0 {
        Seq::empty()
    } else {
        let prev = command_chars(codes.drop_last());
        match char_of_code(codes.last()) {
            Some(c) => prev.push(c),
            None => prev,
        }
    }
}

/// The pieces of `s[i..]` between single spaces, after the pieces in `acc`;
/// the current piece began at `start`.
pub open spec fn split_scan(s: Seq<char>, i: int, start: int, acc: Seq<Seq<char>>) -> Seq<Seq<char>>
    decreases s.len() - i,
{
    if i >= s.len() {
        acc.push(s.subrange(start, s.len() as int))
    } else if s[i] == ' ' {
        split_scan(s, i + 1, i + 1, acc.push(s.subrange(start, i)))
    } else {
        split_scan(s, i + 1, start, acc)
    }
}

/// The pieces of `s` between single spaces: two spaces in a row give an empty
/// piece, and there is always at least one piece.
pub open spec fn split_spaces(s: Seq<char>) -> Seq<Seq<char>> {
    split_scan(s, 0, 0, Seq::empty())
}

/// The first index at or after `from` that holds a zero code, or the length.
pub open spec fn first_zero(text: Seq<u32>, from: int) -> int
    decreases text.len() - from,
{
    if from < 0 || from >= text.len() {
        text.len() as int
    } else if text[from] == 0 {
        from
    } else {
        first_zero(text, from + 1)
    }
}

/// The line after one typed key: the key lands at the first free place, a
/// backspace clears the place before it. A full line takes no key, and a
/// backspace on an empty line does nothing.
pub open spec fn type_key(text: Seq<u32>, k: TypedKey) -> Seq<u32> {
    let pos = first_zero(text, 0);
    if pos >= text.len() {
        text
    } else {
        match k {
            TypedKey::Back => if pos == 0 {
                text
            } else {
                text.update(pos - 1, 0)
            },
            TypedKey::Code(c) => text.update(pos, c),
        }
    }
}

/// The line after keys typed in order.
pub open spec fn type_keys(text: Seq<u32>, keys: Seq<TypedKey>) -> Seq<u32>
    decreases keys.len(),
{
    if keys.len() == 0 {
        text
    } else {
        type_key(type_keys(text, keys.drop_last()), keys.last())
    }
}

pub open spec fn blank_line() -> Seq<u32> {
    Seq::new(TEXT_LEN as nat, |i: int| 0u32)
}

impl Command {
    /// The name, then the arguments.
    pub open spec fn words(&self) -> Seq<Seq<char>> {
        seq![self.function@] + self.arguments@.map_values(|a: String| a@)
    }

    /// Whether the command is named `check`.
    pub fn is(&self, check: &str) -> (r: bool)
        ensures
            r == (self.function@ == check@),
    {
        let name: String = check.to_owned();
        name == self.function
    }

    /// The first argument as a number.
    pub fn parse(&self) -> (r: Option<u32>)
        ensures
            r == self.arg_number(0),
    {
        self.parse_arg_at(0)
    }

    /// Argument `index` read as an unsigned decimal number that fits in 32
    /// bits: `None` when there is no such argument or it is no such number.
    pub open spec fn arg_number(&self, index: int) -> Option<u32> {
        if 0 <= index < self.arguments@.len() {
            match parse_unsigned(self.arguments@[index]@, u32::MAX as nat) {
                Some(v) => Some(v as u32),
                None => None,
            }
        } else {
            None
        }
    }

    /// Argument `index` as a number.
    pub fn parse_arg_at(&self, index: usize) -> (r: Option<u32>)
        ensures
            r == self.arg_number(index as int),
    {
        if index >= self.arguments.len() {
            return None;
        }
        let chars = text_chars(self.arguments[index].as_str());
        assert(chars@.subrange(0, chars@.len() as int) =~= chars@);
        parse_number(&chars, 0, chars.len(), u32::MAX)
    }

    /// Argument `index`.
    pub fn get_arg(&self, index: usize) -> (r: &String)
        requires
            index < self.arguments@.len(),
        ensures
            r == self.arguments@[index as int],
    {
        &self.arguments[index]
    }
}

/// Relies on `String::push`: it appends one character.
#[verifier::external_body]
fn push_char(s: &mut String, c: char)
    ensures
        final(s)@ == old(s)@.push(c),
{
    s.push(c)
}

proof fn lemma_split_nonempty(s: Seq<char>, i: int, start: int, acc: Seq<Seq<char>>)
    ensures
        split_scan(s, i, start, acc).len() > acc.len(),
    decreases s.len() - i,
{
    if i < s.len() {
        if s[i] == ' ' {
            lemma_split_nonempty(s, i + 1, i + 1, acc.push(s.subrange(start, i)));
        } else {
            lemma_split_nonempty(s, i + 1, start, acc);
        }
    }
}

/// Turns a line of key codes into a command: the characters it spells are
/// split at each space, the first piece names the command and the others are
/// its arguments.
pub fn parse_command(text: &[u32; TEXT_LEN]) -> (r: Command)
    ensures
        r.words() == split_spaces(command_chars(text@)),
{
    let mut chars: Vec<char> = Vec::new();
    let mut k: usize = 0;
    while k < TEXT_LEN
        invariant
            k <= TEXT_LEN,
            chars@ == command_chars(text@.take(k as int)),
        decreases TEXT_LEN - k,
    {
        assert(text@.take(k + 1).drop_last() =~= text@.take(k as int));
        match num_to_char(text[k]) {
            Some(c) => chars.push(c),
            None => {},
        }
        k = k + 1;
    }
    assert(text@.take(TEXT_LEN as int) =~= text@);
    let mut pieces: Vec<String> = Vec::new();
    let mut cur = String::new();
    let mut start: usize = 0;
    let mut i: usize = 0;
    assert(pieces@.map_values(|p: String| p@) =~= Seq::<Seq<char>>::empty());
    assert(cur@ =~= chars@.subrange(0, 0));
    while i < chars.len()
        invariant
            start <= i <= chars.len(),
            chars@ == command_chars(text@),
            cur@ == chars@.subrange(start as int, i as int),
            split_spaces(chars@) == split_scan(
                chars@,
                i as int,
                start as int,
                pieces@.map_values(|p: String| p@),
            ),
        decreases chars.len() - i,
    {
        if chars[i] == ' ' {
            let ghost before = pieces@.map_values(|p: String| p@);
            pieces.push(cur);
            assert(pieces@.map_values(|p: String| p@) =~= before.push(chars@.subrange(start as int, i as int)));
            cur = String::new();
            start = i + 1;
            assert(cur@ =~= chars@.subrange(start as int, i + 1));
        } else {
            push_char(&mut cur, chars[i]);
            assert(cur@ =~= chars@.subrange(start as int, i + 1));
        }
        i = i + 1;
    }
    let ghost before = pieces@.map_values(|p: String| p@);
    pieces.push(cur);
    assert(pieces@.map_values(|p: String| p@) =~= before.push(chars@.subrange(start as int, i as int)));
    proof {
        lemma_split_nonempty(chars@, 0, 0, Seq::empty());
    }
    let ghost all = pieces@.map_values(|p: String| p@);
    let function = pieces.remove(0);
    let r = Command { function, arguments: pieces };
    assert(r.words() =~= all);
    r
}

/// Zeroes every code of a command line.
pub fn clear_text(text: &mut [u32; TEXT_LEN])
    ensures
        final(text)@ == blank_line(),
{
    let mut i: usize = 0;
    while i < TEXT_LEN
        invariant
            i <= TEXT_LEN,
            forall|k: int| 0 <= k < i ==> text@[k] == 0,
        decreases TEXT_LEN - i,
    {
        text[i] = 0;
        i = i + 1;
    }
    assert(text@ =~= blank_line());
}

fn find_zero(text: &[u32; TEXT_LEN]) -> (r: usize)
    ensures
        r == first_zero(text@, 0),
{
    let mut i: usize = 0;
    while i < TEXT_LEN
        invariant
            i <= TEXT_LEN,
            first_zero(text@, 0) == first_zero(text@, i as int),
        decreases TEXT_LEN - i,
    {
        if text[i] == 0 {
            return i;
        }
        i = i + 1;
    }
    i
}

/// The console step of one frame. Shift with `C` opens the console. While it
/// is open, escape closes it and clears the line; return closes it, clears the
/// line and hands out the command it held; otherwise the typed keys edit the
/// line. While it is closed, nothing else happens.
pub fn command_input(
    input_state: &mut KeyboardInputState,
    text_to_show: &mut [u32; TEXT_LEN],
    keys: &KeyFrame,
) -> (r: Option<Command>)
    ensures
        if keys.shift_held && keys.c_just_pressed {
            *final(input_state) == KeyboardInputState::Commands && final(text_to_show)@ == old(
                text_to_show,
            )@ && r is None
        } else if *old(input_state) != KeyboardInputState::Commands {
            *final(input_state) == *old(input_state) && final(text_to_show)@ == old(text_to_show)@
                && r is None
        } else if keys.escape_held {
            *final(input_state) == KeyboardInputState::FreeCam && final(text_to_show)@ == blank_line()
                && r is None
        } else if keys.return_held {
            &&& *final(input_state) == KeyboardInputState::FreeCam
            &&& final(text_to_show)@ == blank_line()
            &&& r matches Some(cmd) && cmd.words() == split_spaces(command_chars(old(text_to_show)@))
        } else {
            *final(input_state) == *old(input_state) && final(text_to_show)@ == type_keys(
                old(text_to_show)@,
                keys.typed@,
            ) && r is None
        },
{
    if keys.shift_held && keys.c_just_pressed {
        *input_state = KeyboardInputState::Commands;
        return None;
    }
    if *input_state != KeyboardInputState::Commands {
        return None;
    }
    if keys.escape_held {
        *input_state = KeyboardInputState::default();
        clear_text(text_to_show);
        return None;
    } else if keys.return_held {
        *input_state = KeyboardInputState::default();
        let cmd = parse_command(text_to_show);
        clear_text(text_to_show);
        return Some(cmd);
    }
    let mut i: usize = 0;
    assert(keys.typed@.take(0) =~= Seq::<TypedKey>::empty());
    while i < keys.typed.len()
        invariant
            i <= keys.typed.len(),
            text_to_show@ == type_keys(old(text_to_show)@, keys.typed@.take(i as int)),
        decreases keys.typed.len() - i,
    {
        assert(keys.typed@.take(i + 1).drop_last() =~= keys.typed@.take(i as int));
        let pos = find_zero(text_to_show);
        if pos < TEXT_LEN {
            match keys.typed[i] {
                TypedKey::Back => {
                    if pos > 0 {
                        text_to_show[pos - 1] = 0;
                    }
                },
                TypedKey::Code(c) => {
                    text_to_show[pos] = c;
                },
            }
        }
        i = i + 1;
    }
    assert(keys.typed@.take(keys.typed.len() as int) =~= keys.typed@);
    None
}

/// The model that a command named `verb` asks to load: its first argument.
pub open spec fn requested_model(cmd: &Command, verb: Seq<char>) -> Option<String> {
    if cmd.function@ == verb && cmd.arguments@.len() > 0 {
        Some(cmd.arguments@[0])
    } else {
        None
    }
}

fn model_argument<'a>(cmd: &'a Command, verb: &str) -> (r: Option<&'a String>)
    ensures
        match requested_model(cmd, verb@) {
            Some(a) => r matches Some(x) && *x == a,
            None => r is None,
        },
{
    if cmd.is(verb) && cmd.arguments.len() > 0 {
        Some(cmd.get_arg(0))
    } else {
        None
    }
}

/// The model name of a `load` command, which clears the world and adds the
/// model as a new static drawable. Any other command, or a `load` without an
/// argument, gives `None`.
pub fn load_vox(cmd: &Command) -> (r: Option<&String>)
    ensures
        match requested_model(cmd, "load"@) {
            Some(a) => r matches Some(x) && *x == a,
            None => r is None,
        },
{
    model_argument(cmd, "load")
}

/// The index of the first command named `verb` at or after `from`, or the
/// number of commands.
pub open spec fn first_named(cmds: Seq<Command>, verb: Seq<char>, from: int) -> int
    decreases cmds.len() - from,
{
    if from < 0 || from >= cmds.len() {
        cmds.len() as int
    } else if cmds[from].function@ == verb {
        from
    } else {
        first_named(cmds, verb, from + 1)
    }
}

/// The model name of the first `load-vox` command of a frame, which clears
/// the world and sends the model's chunks unmoved; later commands are not
/// looked at. No such command, or one without an argument, gives `None`.
pub fn load_vox_command(commands: &Vec<Command>) -> (r: Option<&String>)
    ensures
        ({
            let i = first_named(commands@, "load-vox"@, 0);
            if i < commands@.len() {
                match requested_model(&commands@[i], "load-vox"@) {
                    Some(a) => r matches Some(x) && *x == a,
                    None => r is None,
                }
            } else {
                r is None
            }
        }),
{
    let mut i: usize = 0;
    while i < commands.len()
        invariant
            i <= commands.len(),
            first_named(commands@, "load-vox"@, 0) == first_named(commands@, "load-vox"@, i as int),
        decreases commands.len() - i,
    {
        if commands[i].is("load-vox") {
            return model_argument(&commands[i], "load-vox");
        }
        i = i + 1;
    }
    None
}

} // verus!
