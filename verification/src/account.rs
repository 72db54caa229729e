//! The account popup of a room: logging in with email and password, or out.

use vstd::prelude::*;
use vstd::string::StringExecFns;

use crate::keys::KeyMatches;

verus! {

/// Which text box of the login form has the focus.
#[derive(Debug, Clone, Copy, PartialEq, Eq, Structural)]
pub enum Focus {
    Email,
    Password,
}

/// The login form; its text boxes belong to the caller.
#[derive(Debug, Clone, Copy, PartialEq, Eq, Structural)]
pub struct LoggedOut {
    pub focus: Focus,
}

impl LoggedOut {
    /// A form with the focus on the email address.
    pub fn new() -> (r: Self)
        ensures
            r.focus == Focus::Email,
    {
        LoggedOut { focus: Focus::Email }
    }
}

/// Logged in with an account.
#[derive(Debug)]
pub struct LoggedIn {
    pub email: String,
}

/// The account popup.
#[derive(Debug)]
pub enum AccountUiState {
    LoggedOut(LoggedOut),
    LoggedIn(LoggedIn),
}

/// What the caller is to do after a key in the account popup.
#[derive(Debug, Clone, PartialEq, Eq)]
pub enum AccountAction {
    NotHandled,
    Handled,
    Close,
    /// Log in with this email address and password.
    Login { email: String, password: String },
    Logout,
    /// The key is for the focused text box.
    ToEditor(Focus),
}

/// How the account popup reacts to a key: aborting closes it; logged out,
/// the focus key and confirming move between the email and the password
/// (confirming the password logs in) and other keys go to the focused text
/// box; logged in, confirming logs out. `email` and `password` are what the
/// form's text boxes hold.
pub open spec fn account_reaction(
    old: AccountUiState,
    new: AccountUiState,
    keys: KeyMatches,
    email: Seq<char>,
    password: Seq<char>,
    r: AccountAction,
) -> bool {
    &&& keys.abort ==> r is Close && new == old
    &&& !keys.abort ==> match old {
        AccountUiState::LoggedOut(l) => if keys.focus {
            r is Handled && new == AccountUiState::LoggedOut(LoggedOut {
                focus: match l.focus {
                    Focus::Email => Focus::Password,
                    Focus::Password => Focus::Email,
                },
            })
        } else if keys.confirm {
            match l.focus {
                Focus::Email => r is Handled && new == AccountUiState::LoggedOut(
                    LoggedOut { focus: Focus::Password },
                ),
                Focus::Password => (r matches AccountAction::Login { email: e, password: p } && e@ == email
                    && p@ == password) && new == old,
            }
        } else {
            r == AccountAction::ToEditor(l.focus) && new == old
        },
        AccountUiState::LoggedIn(_) => new == old && if keys.confirm {
            r is Logout
        } else {
            r is NotHandled
        }
    }
}

impl AccountUiState {
    pub fn new() -> (r: Self)
        ensures
            r matches AccountUiState::LoggedOut(l) && l.focus == Focus::Email,
    {
        AccountUiState::LoggedOut(LoggedOut::new())
    }

    /// Follows the room: `joined` is `None` while the room is not joined,
    /// else the account's email address if logged in. Returns whether the
    /// popup is still to be shown.
    pub fn stabilize(&mut self, joined: Option<Option<String>>) -> (r: bool)
        ensures
            r == (joined is Some),
            match joined {
                Some(Some(email)) => match *old(self) {
                    AccountUiState::LoggedOut(_) => (*final(self) matches AccountUiState::LoggedIn(l) && l.email == email),
                    _ => *final(self) == *old(self),
                },
                Some(None) => match *old(self) {
                    AccountUiState::LoggedIn(_) => (*final(self) matches AccountUiState::LoggedOut(l) && l.focus == Focus::Email),
                    _ => *final(self) == *old(self),
                },
                None => *final(self) == *old(self),
            },
    {
        match joined {
            Some(account) => {
                match (&*self, account) {
                    (AccountUiState::LoggedOut(_), Some(email)) => {
                        *self = AccountUiState::LoggedIn(LoggedIn { email });
                    },
                    (AccountUiState::LoggedIn(_), None) => {
                        *self = AccountUiState::LoggedOut(LoggedOut::new());
                    },
                    _ => {},
                }
                true
            },
            None => false,
        }
    }

    /// Reacts to a key: aborting closes the popup. Logged out, the focus key
    /// switches between the text boxes, confirming in the email box moves
    /// on to the password and confirming in the password box logs in.
    /// Logged in, confirming logs out. `email` and `password` are what the
    /// form's text boxes hold; logging in sends them.
    pub fn handle_input_event(&mut self, keys: &KeyMatches, email: &str, password: &str) -> (r: AccountAction)
        ensures
            account_reaction(*old(self), *final(self), *keys, email@, password@, r),
    {
        if keys.abort {
            return AccountAction::Close;
        }
        match self {
            AccountUiState::LoggedOut(logged_out) => {
                if keys.focus {
                    logged_out.focus = match logged_out.focus {
                        Focus::Email => Focus::Password,
                        Focus::Password => Focus::Email,
                    };
                    return AccountAction::Handled;
                }
                match logged_out.focus {
                    Focus::Email => {
                        if keys.confirm {
                            logged_out.focus = Focus::Password;
                            return AccountAction::Handled;
                        }
                        AccountAction::ToEditor(Focus::Email)
                    },
                    Focus::Password => {
                        if keys.confirm {
                            return AccountAction::Login {
                                email: String::from_str(email),
                                password: String::from_str(password),
                            };
                        }
                        AccountAction::ToEditor(Focus::Password)
                    },
                }
            },
            AccountUiState::LoggedIn(_) => {
                if keys.confirm {
                    return AccountAction::Logout;
                }
                AccountAction::NotHandled
            },
        }
    }
}

} // verus!
