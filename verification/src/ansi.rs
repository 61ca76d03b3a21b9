//! ANSI escape codes, present only when color output is enabled.

use vstd::prelude::*;

verus! {

/// `code` when `color` is on, otherwise the empty string.
pub fn color_code(color: bool, code: &'static str) -> (r: &'static str)
    ensures
        r@ == (if color { code@ } else { ""@ }),
{
    if color {
        code
    } else {
        ""
    }
}

/// The reset code when `color` is on, otherwise the empty string.
pub fn color_reset(color: bool) -> (r: &'static str)
    ensures
        r@ == (if color { "\x1b[0m"@ } else { ""@ }),
{
    if color {
        "\x1b[0m"
    } else {
        ""
    }
}

/// Hands out the escape code for each style the renderers use, or empty
/// strings when color is off.
#[derive(Debug, Clone, Copy, PartialEq, Eq)]
pub struct Styler {
    pub color: bool,
}

/// `code` under the color switch `color`.
pub open spec fn styled(color: bool, code: Seq<char>) -> Seq<char> {
    if color {
        code
    } else {
        ""@
    }
}

impl Styler {
    pub fn new(color: bool) -> (r: Self)
        ensures
            r.color == color,
    {
        Styler { color }
    }

    pub fn reset(&self) -> (r: &'static str)
        ensures
            r@ == styled(self.color, "\x1b[0m"@),
    {
        if self.color { "\x1b[0m" } else { "" }
    }

    pub fn dim(&self) -> (r: &'static str)
        ensures
            r@ == styled(self.color, "\x1b[2m"@),
    {
        if self.color { "\x1b[2m" } else { "" }
    }

    /// Dimmer than [`Self::dim`]: used for the shared `~/.config/zenops` prefix.
    pub fn extra_dim(&self) -> (r: &'static str)
        ensures
            r@ == styled(self.color, "\x1b[2;38;5;248m"@),
    {
        if self.color { "\x1b[2;38;5;248m" } else { "" }
    }

    pub fn bold(&self) -> (r: &'static str)
        ensures
            r@ == styled(self.color, "\x1b[1m"@),
    {
        if self.color { "\x1b[1m" } else { "" }
    }

    pub fn red(&self) -> (r: &'static str)
        ensures
            r@ == styled(self.color, "\x1b[31m"@),
    {
        if self.color { "\x1b[31m" } else { "" }
    }

    pub fn green(&self) -> (r: &'static str)
        ensures
            r@ == styled(self.color, "\x1b[32m"@),
    {
        if self.color { "\x1b[32m" } else { "" }
    }

    pub fn yellow(&self) -> (r: &'static str)
        ensures
            r@ == styled(self.color, "\x1b[33m"@),
    {
        if self.color { "\x1b[33m" } else { "" }
    }

    pub fn magenta(&self) -> (r: &'static str)
        ensures
            r@ == styled(self.color, "\x1b[35m"@),
    {
        if self.color { "\x1b[35m" } else { "" }
    }

    pub fn cyan(&self) -> (r: &'static str)
        ensures
            r@ == styled(self.color, "\x1b[36m"@),
    {
        if self.color { "\x1b[36m" } else { "" }
    }

    pub fn bold_yellow(&self) -> (r: &'static str)
        ensures
            r@ == styled(self.color, "\x1b[1;33m"@),
    {
        if self.color { "\x1b[1;33m" } else { "" }
    }
}

} // verus!
