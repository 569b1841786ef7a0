//! A progress bar as text: what to write to the terminal, and when.

use vstd::prelude::*;
use vstd::utf8::encode_utf8;
use crate::text::{push_repeated, repeated};

verus! {

/// The columns that a bar assumes where the terminal tells none.
pub const DEFAULT_COLUMNS: u16 = 20;

/// A progress bar: a label, then a bar of fixed width that fills up as the
/// work goes on.
pub struct Loadingbar {
    label: String,
    progress: usize,
    size: usize,
    width: usize,
}

/// A progress bar as a plain value.
pub struct BarModel {
    /// The label in front of the bar.
    pub label: Seq<char>,
    /// The steps done.
    pub progress: nat,
    /// The steps to do in all.
    pub size: nat,
    /// The width of the label column and of the bar, each.
    pub width: nat,
}

/// The characters that take the cursor to the start of the line and clear
/// the line.
pub open spec fn clear_line() -> Seq<char> {
    "\r\r\x1b[K"@
}

/// The line that announces `text` above the bar.
pub open spec fn message_line(text: Seq<char>) -> Seq<char> {
    clear_line() + text + "\n"@
}

impl BarModel {
    /// A bar at its start. It is half as wide as the terminal has columns,
    /// and ten wide where the terminal tells none.
    pub open spec fn fresh(label: Seq<char>, size: nat, columns: Option<u16>) -> BarModel {
        BarModel {
            label,
            progress: 0,
            size,
            width: (match columns {
                Some(w) => w as nat,
                None => DEFAULT_COLUMNS as nat,
            }) / 2,
        }
    }

    /// The bar one step further.
    pub open spec fn advanced(self) -> BarModel {
        BarModel { progress: self.progress + 1, ..self }
    }

    /// The number of bytes that the label takes in UTF-8.
    pub open spec fn label_len(self) -> nat {
        encode_utf8(self.label).len()
    }

    /// The number of `=` in the bar: the share of the steps done, of the
    /// width less the three characters of the frame, rounded down.
    pub open spec fn filled(self) -> nat {
        (self.progress * (self.width - 3) / (self.size as int)) as nat
    }

    /// Whether the bar can be drawn: there is something to do, the frame and
    /// the label fit into the width, the bar is no fuller than full, and the
    /// numbers stay within the machine's range.
    pub open spec fn drawable(self) -> bool {
        &&& self.size > 0
        &&& self.width >= 3
        &&& self.label_len() <= self.width
        &&& self.progress * (self.width - 3) <= usize::MAX
        &&& self.filled() + 3 <= self.width
    }

    /// The label, padded to the width, and the bar in its frame.
    pub open spec fn bar(self) -> Seq<char> {
        self.label + repeated(' ', (self.width - self.label_len()) as nat) + seq!['['] + repeated(
            '=',
            self.filled(),
        ) + seq!['>'] + repeated(' ', (self.width - self.filled() - 3) as nat) + seq![']']
    }

    /// What to write to the terminal to show the bar.
    pub open spec fn line(self) -> Seq<char> {
        clear_line() + self.bar()
    }

    /// What `bar_line` returns: the line of a bar that can be drawn.
    pub open spec fn drawn(self, line: Option<String>) -> bool {
        match line {
            Some(text) => self.drawable() && text@ == self.line(),
            None => !self.drawable(),
        }
    }
}

/// `terminal_size::terminal_size`: the number of columns of the terminal
/// that the process writes to, or `None` where it has none. It depends on the
/// terminal, so nothing is said of it.
#[verifier::external_body]
fn terminal_columns() -> Option<u16> {
    terminal_size::terminal_size().map(|(terminal_size::Width(w), _)| w)
}

impl View for Loadingbar {
    type V = BarModel;

    closed spec fn view(&self) -> BarModel {
        BarModel {
            label: self.label@,
            progress: self.progress as nat,
            size: self.size as nat,
            width: self.width as nat,
        }
    }
}

impl Loadingbar {
    /// A bar for `size` steps, as wide as the terminal allows.
    pub fn new(label: &str, size: usize) -> (res: Loadingbar)
        ensures
            exists|columns: Option<u16>| res@ == BarModel::fresh(label@, size as nat, columns),
    {
        let columns = terminal_columns();
        Loadingbar::with_columns(label, size, columns)
    }

    /// A bar for `size` steps in a terminal of `columns` columns; `None`
    /// where the terminal tells none.
    pub fn with_columns(label: &str, size: usize, columns: Option<u16>) -> (res: Loadingbar)
        ensures
            res@ == BarModel::fresh(label@, size as nat, columns),
    {
        let columns: u16 = match columns {
            Some(w) => w,
            None => DEFAULT_COLUMNS,
        };
        Loadingbar { label: label.to_owned(), progress: 0, size, width: (columns / 2) as usize }
    }

    /// The steps done.
    pub fn progress(&self) -> (n: usize)
        ensures
            n == self@.progress,
    {
        self.progress
    }

    /// The width of the label column and of the bar, each.
    pub fn width(&self) -> (n: usize)
        ensures
            n == self@.width,
    {
        self.width
    }

    /// What to write to the terminal to show the bar; `None` where the bar
    /// cannot be drawn.
    pub fn bar_line(&self) -> (res: Option<String>)
        ensures
            self@.drawn(res),
    {
        if self.size == 0 || self.width < 3 {
            return None;
        }
        let label_len = self.label.as_str().as_bytes().len();
        if label_len > self.width {
            return None;
        }
        let room = self.width - 3;
        let product = match self.progress.checked_mul(room) {
            Some(product) => product,
            None => {
                return None;
            },
        };
        let filled = product / self.size;
        if filled > room {
            return None;
        }
        assert(filled == self@.filled());
        assert(label_len == self@.label_len());
        let mut out = String::new();
        out.append("\r\r\x1b[K");
        out.append(self.label.as_str());
        push_repeated(&mut out, ' ', self.width - label_len);
        let ghost padded = clear_line() + self@.label + repeated(
            ' ',
            (self@.width - self@.label_len()) as nat,
        );
        assert(out@ == padded);
        out.push('[');
        push_repeated(&mut out, '=', filled);
        assert(out@ == padded + seq!['['] + repeated('=', self@.filled()));
        out.push('>');
        push_repeated(&mut out, ' ', room - filled);
        out.push(']');
        assert(out@ == padded + seq!['['] + repeated('=', self@.filled()) + seq!['>'] + repeated(
            ' ',
            (self@.width - self@.filled() - 3) as nat,
        ) + seq![']']);
        assert(out@ == self@.line());
        Some(out)
    }

    /// Takes one step and says what to write to the terminal to show it;
    /// `None` where the bar cannot be drawn.
    pub fn next(&mut self) -> (res: Option<String>)
        requires
            old(self)@.progress < usize::MAX,
        ensures
            final(self)@ == old(self)@.advanced(),
            final(self)@.drawn(res),
    {
        self.progress = self.progress + 1;
        self.bar_line()
    }

    /// Says what to write to the terminal to announce `text` above the bar:
    /// first the line of the message, then the bar again; `None` for the bar
    /// where it cannot be drawn.
    pub fn print(&self, text: &str) -> (res: (String, Option<String>))
        ensures
            res.0@ == message_line(text@),
            self@.drawn(res.1),
    {
        let mut message = String::new();
        message.append("\r\r\x1b[K");
        message.append(text);
        message.append("\n");
        (message, self.bar_line())
    }
}

/// The numbers of a bar are numbers of the machine: a bar that has not done
/// all its steps can always take one more.
pub proof fn lemma_bar_in_range(bar: &Loadingbar)
    ensures
        bar@.progress <= usize::MAX,
        bar@.size <= usize::MAX,
        bar@.width <= usize::MAX,
        bar@.progress < bar@.size ==> bar@.progress < usize::MAX,
{
}

/// A bar that is drawn is exactly as long as the clearing characters, the
/// label column and the bar column together, whatever the progress; and the
/// bar of finished work is full.
pub proof fn lemma_bar_length(bar: BarModel)
    requires
        bar.drawable(),
    ensures
        bar.bar().len() == bar.label.len() + (bar.width - bar.label_len()) + bar.width,
        bar.progress == bar.size ==> bar.filled() + 3 == bar.width,
        bar.progress == 0 ==> bar.filled() == 0,
{
    if bar.progress == bar.size {
        assert(bar.size * (bar.width - 3) / (bar.size as int) == bar.width - 3) by (nonlinear_arith)
            requires
                bar.size > 0,
                bar.width >= 3,
        ;
    }
}

/// A bar within its size can be drawn wherever its frame and label fit: the
/// share of the steps done never overfills it.
pub proof fn lemma_bar_within_size(bar: BarModel)
    requires
        bar.size > 0,
        bar.width >= 3,
        bar.progress <= bar.size,
    ensures
        bar.filled() + 3 <= bar.width,
{
    assert(bar.progress * (bar.width - 3) / (bar.size as int) <= bar.width - 3) by (nonlinear_arith)
        requires
            bar.size > 0,
            bar.width >= 3,
            bar.progress <= bar.size,
    ;
}

} // verus!
