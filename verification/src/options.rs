//! How a grid is laid out: the direction cells run in, the filling between
//! columns, and the width to fit into.

use vstd::prelude::*;
use vstd::string::*;
use crate::measure::{display_width, display_width_of};

verus! {

/// Direction cells should be written in: either across or downwards.
#[derive(PartialEq, Eq, Debug, Copy, Clone)]
pub enum Direction {
    /// Starts at the top left and moves rightwards, going back to the first
    /// column for a new row, like a typewriter.
    LeftToRight,
    /// Starts at the top left and moves downwards, going back to the first
    /// row for a new column, like how `ls` lists files by default.
    TopToBottom,
}

/// The text to put in between each pair of columns.
///
/// This does not include any spaces used when aligning cells.
#[derive(PartialEq, Eq, Debug)]
pub enum Filling {
    /// A number of spaces.
    Spaces(usize),
    /// An arbitrary string; `"|"` is a common choice.
    Text(String),
    /// A number of spaces, written with each full run of `tab_size` of them
    /// replaced by one tab character. A `tab_size` of zero replaces nothing.
    Tabs { spaces: usize, tab_size: usize },
}

/// The options for a grid: how to arrange the cells and what to fit them into.
#[derive(Debug)]
pub struct GridOptions {
    /// The direction that the cells should be written in.
    pub direction: Direction,
    /// The string to put in between each column of cells.
    pub filling: Filling,
    /// The width to fill with the grid.
    pub width: usize,
}

/// `count` copies of the character `c`.
pub open spec fn repeated(c: char, count: nat) -> Seq<char> {
    Seq::new(count, |i: int| c)
}

impl Filling {
    /// The number of columns the filling is counted as when a layout is solved.
    pub open spec fn spec_width(&self) -> nat {
        match self {
            Filling::Spaces(n) => *n as nat,
            Filling::Text(t) => display_width_of(t@) as nat,
            Filling::Tabs { spaces, .. } => *spaces as nat,
        }
    }

    /// The characters written between two neighbouring columns.
    pub open spec fn separator(&self) -> Seq<char> {
        match self {
            Filling::Spaces(n) => repeated(' ', *n as nat),
            Filling::Text(t) => t@,
            Filling::Tabs { spaces, tab_size } => if *tab_size == 0 {
                repeated(' ', *spaces as nat)
            } else {
                repeated('\t', (*spaces / *tab_size) as nat) + repeated(
                    ' ',
                    (*spaces % *tab_size) as nat,
                )
            },
        }
    }

    /// The width of the filling in columns.
    pub fn width(&self) -> (w: usize)
        ensures
            w == self.spec_width(),
    {
        match self {
            Filling::Spaces(n) => *n,
            Filling::Text(t) => display_width(t.as_str()),
            Filling::Tabs { spaces, .. } => *spaces,
        }
    }

    /// Builds the separator text once, so that rendering can reuse it for
    /// every pair of columns.
    pub fn separator_text(&self) -> (text: String)
        ensures
            text@ == self.separator(),
    {
        match self {
            Filling::Spaces(n) => {
                let mut text = String::new();
                push_repeated(&mut text, ' ', *n);
                text
            },
            Filling::Text(t) => t.clone(),
            Filling::Tabs { spaces, tab_size } => {
                let mut text = String::new();
                if *tab_size == 0 {
                    push_repeated(&mut text, ' ', *spaces);
                } else {
                    push_repeated(&mut text, '\t', *spaces / *tab_size);
                    push_repeated(&mut text, ' ', *spaces % *tab_size);
                }
                text
            },
        }
    }
}

/// Appends `count` copies of `c`, which is a space or a tab, to `text`.
pub(crate) fn push_repeated(text: &mut String, c: char, count: usize)
    requires
        c == ' ' || c == '\t',
    ensures
        final(text)@ == old(text)@ + repeated(c, count as nat),
{
    let piece: &str = if c == ' ' {
        " "
    } else {
        "\t"
    };
    proof {
        reveal_strlit(" ");
        reveal_strlit("\t");
        assert(piece@ =~= seq![c]);
    }
    let mut done: usize = 0;
    while done < count
        invariant
            done <= count,
            piece@ == seq![c],
            text@ == old(text)@ + repeated(c, done as nat),
        decreases count - done,
    {
        text.append(piece);
        done = done + 1;
        assert(text@ =~= old(text)@ + repeated(c, done as nat));
    }
}

} // verus!
