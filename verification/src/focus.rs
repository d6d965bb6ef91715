//! Which section of the login page holds the focus, and how the focus
//! cycles through the sections.

use vstd::prelude::*;

verus! {

/// The focusable sections of the login page, in tab order.
#[derive(Debug, Clone, Copy, PartialEq, Eq, Structural)]
pub enum Focus {
    LoginField,
    PasswordField,
    LoginButton,
    RegisterButton,
}

/// How many focusable sections the login page has.
pub const FOCUS_COUNT: usize = 4;

impl Focus {
    /// The section's place in the tab order.
    pub open spec fn index(self) -> int {
        match self {
            Focus::LoginField => 0,
            Focus::PasswordField => 1,
            Focus::LoginButton => 2,
            Focus::RegisterButton => 3,
        }
    }

    /// The section's place in the tab order.
    pub fn to_usize(&self) -> (r: usize)
        ensures
            r == self.index(),
    {
        match self {
            Focus::LoginField => 0,
            Focus::PasswordField => 1,
            Focus::LoginButton => 2,
            Focus::RegisterButton => 3,
        }
    }

    /// The section at the given place in the tab order, if there is one.
    pub fn try_from(value: usize) -> (r: Result<Focus, ()>)
        ensures
            value < 4 ==> (r matches Ok(f) && f.index() == value),
            value >= 4 ==> r is Err,
    {
        match value {
            0 => Ok(Focus::LoginField),
            1 => Ok(Focus::PasswordField),
            2 => Ok(Focus::LoginButton),
            3 => Ok(Focus::RegisterButton),
            _ => Err(()),
        }
    }

    /// The next section in the tab order, wrapping at the end.
    pub fn hover_next(self) -> (r: Focus)
        ensures
            r.index() == (self.index() + 1) % 4,
    {
        match self {
            Focus::LoginField => Focus::PasswordField,
            Focus::PasswordField => Focus::LoginButton,
            Focus::LoginButton => Focus::RegisterButton,
            Focus::RegisterButton => Focus::LoginField,
        }
    }

    /// The previous section in the tab order, wrapping at the start.
    pub fn hover_previous(self) -> (r: Focus)
        ensures
            r.index() == if self.index() == 0 {
                3int
            } else {
                self.index() - 1
            },
    {
        match self {
            Focus::LoginField => Focus::RegisterButton,
            Focus::PasswordField => Focus::LoginField,
            Focus::LoginButton => Focus::PasswordField,
            Focus::RegisterButton => Focus::LoginButton,
        }
    }
}

/// Whether a section shows its cursor: only when it is hovered and no
/// section is active.
pub fn calculate_show_cursor(
    active_section: Option<Focus>,
    last_hovered_section: Focus,
    focus: Focus,
) -> (r: bool)
    ensures
        r == (active_section != Some(focus) && last_hovered_section == focus),
{
    match active_section {
        Some(active) => {
            if active == focus {
                false
            } else {
                last_hovered_section == focus
            }
        },
        None => last_hovered_section == focus,
    }
}

} // verus!
