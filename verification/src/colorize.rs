use vstd::prelude::*;

verus! {

/// The escape sequence that sets the foreground to the 256-colour palette entry
/// whose decimal digits are `code`: `ESC [ 38;5;<code> m`.
pub open spec fn set_fg(code: Seq<char>) -> Seq<char> {
    seq!['\u{1b}', '[', '3', '8', ';', '5', ';'] + code + seq!['m']
}

/// The escape sequence that resets the foreground colour: `ESC [ 39 m`.
pub open spec fn reset_fg() -> Seq<char> {
    seq!['\u{1b}', '[', '3', '9', 'm']
}

/// The escape sequence that crossterm writes in place of either of the above
/// when colours are turned off (`NO_COLOR`): `ESC [ m`.
pub open spec fn plain_sgr() -> Seq<char> {
    seq!['\u{1b}', '[', 'm']
}

/// `s` is character `c` painted in palette entry `code` as crossterm writes it:
/// the colour is set before `c` and reset after it, and each of the two
/// sequences is the empty one when colours are turned off. On Windows, when
/// the output supports no escape codes, crossterm formats a styled value as
/// nothing at all, so `s` may also be empty.
pub open spec fn painted(c: char, code: Seq<char>, s: Seq<char>) -> bool {
    ||| s == set_fg(code) + seq![c] + reset_fg()
    ||| s == set_fg(code) + seq![c] + plain_sgr()
    ||| s == plain_sgr() + seq![c] + reset_fg()
    ||| s == plain_sgr() + seq![c] + plain_sgr()
    ||| s == Seq::<char>::empty()
}

/// Palette entry 11, bright yellow.
pub open spec fn yellow_code() -> Seq<char> {
    seq!['1', '1']
}

/// Palette entry 10, bright green.
pub open spec fn green_code() -> Seq<char> {
    seq!['1', '0']
}

/// Palette entry 12, bright blue.
pub open spec fn blue_code() -> Seq<char> {
    seq!['1', '2']
}

/// Palette entry 9, bright red.
pub open spec fn red_code() -> Seq<char> {
    seq!['9']
}

/// Palette entry 7, grey.
pub open spec fn grey_code() -> Seq<char> {
    seq!['7']
}

/// Calls crossterm's `Stylize::yellow` on `c` and formats the result with
/// `to_string`. The contract states what crossterm's `Display` for
/// `StyledContent` writes: `ESC[38;5;11m`, `c`, `ESC[39m`, where each colour
/// sequence shrinks to `ESC[m` while colours are turned off, and the whole is
/// empty on a Windows output without escape-code support.
#[verifier::external_body]
fn crossterm_yellow(c: char) -> (s: String)
    ensures
        painted(c, yellow_code(), s@),
{
    crossterm::style::Stylize::yellow(c).to_string()
}

/// Calls crossterm's `Stylize::green` on `c` and formats the result with
/// `to_string`: `ESC[38;5;10m`, `c`, `ESC[39m`, each colour sequence `ESC[m`
/// while colours are turned off, or nothing on a Windows output without
/// escape-code support.
#[verifier::external_body]
fn crossterm_green(c: char) -> (s: String)
    ensures
        painted(c, green_code(), s@),
{
    crossterm::style::Stylize::green(c).to_string()
}

/// Calls crossterm's `Stylize::blue` on `c` and formats the result with
/// `to_string`: `ESC[38;5;12m`, `c`, `ESC[39m`, each colour sequence `ESC[m`
/// while colours are turned off, or nothing on a Windows output without
/// escape-code support.
#[verifier::external_body]
fn crossterm_blue(c: char) -> (s: String)
    ensures
        painted(c, blue_code(), s@),
{
    crossterm::style::Stylize::blue(c).to_string()
}

/// Calls crossterm's `Stylize::red` on `c` and formats the result with
/// `to_string`: `ESC[38;5;9m`, `c`, `ESC[39m`, each colour sequence `ESC[m`
/// while colours are turned off, or nothing on a Windows output without
/// escape-code support.
#[verifier::external_body]
fn crossterm_red(c: char) -> (s: String)
    ensures
        painted(c, red_code(), s@),
{
    crossterm::style::Stylize::red(c).to_string()
}

/// Calls crossterm's `Stylize::grey` on `c` and formats the result with
/// `to_string`: `ESC[38;5;7m`, `c`, `ESC[39m`, each colour sequence `ESC[m`
/// while colours are turned off, or nothing on a Windows output without
/// escape-code support.
#[verifier::external_body]
fn crossterm_grey(c: char) -> (s: String)
    ensures
        painted(c, grey_code(), s@),
{
    crossterm::style::Stylize::grey(c).to_string()
}

/// Colours for the symbols of the board, as terminal text.
pub trait Stylize: Sized {
    /// The symbol in yellow.
    fn yellow(self) -> String;

    /// The symbol in green.
    fn green(self) -> String;

    /// The symbol in blue.
    fn blue(self) -> String;

    /// The symbol in red.
    fn red(self) -> String;

    /// The symbol in grey.
    fn grey(self) -> String;
}

impl Stylize for char {
    fn yellow(self) -> (s: String)
        ensures
            painted(self, yellow_code(), s@),
    {
        crossterm_yellow(self)
    }

    fn green(self) -> (s: String)
        ensures
            painted(self, green_code(), s@),
    {
        crossterm_green(self)
    }

    fn blue(self) -> (s: String)
        ensures
            painted(self, blue_code(), s@),
    {
        crossterm_blue(self)
    }

    fn red(self) -> (s: String)
        ensures
            painted(self, red_code(), s@),
    {
        crossterm_red(self)
    }

    fn grey(self) -> (s: String)
        ensures
            painted(self, grey_code(), s@),
    {
        crossterm_grey(self)
    }
}

/// `String::push`: appends `c` to `s`. Its documentation says exactly that:
/// the string gains the one character at its end.
#[verifier::external_body]
fn push_char(s: &mut String, c: char)
    ensures
        final(s)@ == old(s)@.push(c),
{
    s.push(c)
}

/// `s` is character `c` in the colour whose SGR parameter has the digits
/// `code`, as the handheld's console takes it: `ESC [ <code> m`, `c`, `ESC [ 0 m`.
pub open spec fn console_painted(c: char, code: Seq<char>, s: Seq<char>) -> bool {
    s == seq!['\u{1b}', '['] + code + seq!['m', c, '\u{1b}', '[', '0', 'm']
}

/// `c` between `ESC [ <code> m` and `ESC [ 0 m`.
fn console_paint(c: char, code: &str) -> (s: String)
    ensures
        console_painted(c, code@, s@),
{
    let mut s = String::new();
    push_char(&mut s, '\u{1b}');
    push_char(&mut s, '[');
    s.append(code);
    push_char(&mut s, 'm');
    push_char(&mut s, c);
    push_char(&mut s, '\u{1b}');
    push_char(&mut s, '[');
    push_char(&mut s, '0');
    push_char(&mut s, 'm');
    assert(s@ =~= seq!['\u{1b}', '['] + code@ + seq!['m', c, '\u{1b}', '[', '0', 'm']);
    s
}

/// A symbol for the handheld's text console, which takes the 16-colour SGR
/// codes: bright yellow 93, bright green 92, cyan 36, bright red 91, dark grey 90.
#[derive(Clone, Copy, Debug)]
pub struct ConsoleGlyph(pub char);

impl Stylize for ConsoleGlyph {
    fn yellow(self) -> (s: String)
        ensures
            console_painted(self.0, seq!['9', '3'], s@),
    {
        proof {
            reveal_strlit("93");
        }
        assert("93"@ =~= seq!['9', '3']);
        console_paint(self.0, "93")
    }

    fn green(self) -> (s: String)
        ensures
            console_painted(self.0, seq!['9', '2'], s@),
    {
        proof {
            reveal_strlit("92");
        }
        assert("92"@ =~= seq!['9', '2']);
        console_paint(self.0, "92")
    }

    fn blue(self) -> (s: String)
        ensures
            console_painted(self.0, seq!['3', '6'], s@),
    {
        proof {
            reveal_strlit("36");
        }
        assert("36"@ =~= seq!['3', '6']);
        console_paint(self.0, "36")
    }

    fn red(self) -> (s: String)
        ensures
            console_painted(self.0, seq!['9', '1'], s@),
    {
        proof {
            reveal_strlit("91");
        }
        assert("91"@ =~= seq!['9', '1']);
        console_paint(self.0, "91")
    }

    fn grey(self) -> (s: String)
        ensures
            console_painted(self.0, seq!['9', '0'], s@),
    {
        proof {
            reveal_strlit("90");
        }
        assert("90"@ =~= seq!['9', '0']);
        console_paint(self.0, "90")
    }
}

} // verus!
