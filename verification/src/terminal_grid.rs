use vstd::prelude::*;

verus! {

/// The size of a terminal grid: its columns and the lines on screen.
#[derive(Debug, Clone, Copy, PartialEq, Eq, Structural)]
pub struct AlacrittyTermSize {
    columns: usize,
    screen_lines: usize,
}

impl AlacrittyTermSize {
    pub closed spec fn spec_columns(self) -> usize {
        self.columns
    }

    pub closed spec fn spec_screen_lines(self) -> usize {
        self.screen_lines
    }

    pub fn new(columns: usize, screen_lines: usize) -> (size: Self)
        ensures
            size.spec_columns() == columns,
            size.spec_screen_lines() == screen_lines,
    {
        AlacrittyTermSize { columns, screen_lines }
    }

    pub fn columns(self) -> (columns: usize)
        ensures
            columns == self.spec_columns(),
    {
        self.columns
    }

    pub fn screen_lines(self) -> (screen_lines: usize)
        ensures
            screen_lines == self.spec_screen_lines(),
    {
        self.screen_lines
    }

    /// All lines of the grid: with no scrollback kept, those on screen.
    pub fn total_lines(self) -> (total_lines: usize)
        ensures
            total_lines == self.spec_screen_lines(),
    {
        self.screen_lines
    }
}

impl Default for AlacrittyTermSize {
    /// The classic 80 by 24 terminal.
    fn default() -> (size: Self)
        ensures
            size.spec_columns() == 80,
            size.spec_screen_lines() == 24,
    {
        AlacrittyTermSize { columns: 80, screen_lines: 24 }
    }
}

} // verus!
