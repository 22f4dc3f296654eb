//! The status line of the language server interface: at most one message, with
//! its severity.
use vstd::prelude::*;

verus! {

/// How serious a status message is.
#[derive(Debug, Clone, Copy, PartialEq, Eq, Structural)]
pub enum Severity {
    Hint,
    Info,
    Warning,
    Error,
}

/// The current status message, if any.
#[derive(Debug)]
pub struct StatusMessage {
    pub msg: Option<(String, Severity)>,
}

impl StatusMessage {
    /// No status message.
    pub fn default() -> (r: StatusMessage)
        ensures
            r.msg is None,
    {
        StatusMessage { msg: None }
    }

    /// Removes the status message.
    pub fn clear_status(&mut self)
        ensures
            final(self).msg is None,
    {
        self.msg = None;
    }

    /// Shows `status` as information.
    pub fn set_status(&mut self, status: String)
        ensures
            final(self).msg == Some((status, Severity::Info)),
    {
        self.msg = Some((status, Severity::Info));
    }

    /// Shows `error` as an error.
    pub fn set_error(&mut self, error: String)
        ensures
            final(self).msg == Some((error, Severity::Error)),
    {
        self.msg = Some((error, Severity::Error));
    }

    /// The status message and its severity, if there is one.
    pub fn get_status(&self) -> (r: Option<(&String, &Severity)>)
        ensures
            match self.msg {
                Some((m, s)) => r matches Some((rm, rs)) && *rm == m && *rs == s,
                None => r is None,
            },
    {
        match &self.msg {
            Some((status, severity)) => Some((status, severity)),
            None => None,
        }
    }
}

} // verus!
