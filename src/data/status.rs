//! Status of an order as the customer's side reports it.

use vstd::prelude::*;
use crate::text::{chars_of, is_literal, string_of};

verus! {

/// `text` did not name any status; it is kept as it was.
#[derive(Clone, PartialEq, Eq, PartialOrd, Ord, Debug, Hash)]
pub enum StatusError {
    InvalidStatus(String),
}

impl View for StatusError {
    type V = Seq<char>;

    open spec fn view(&self) -> Seq<char> {
        match self {
            StatusError::InvalidStatus(s) => s@,
        }
    }
}

/// Status of an order on the customer's side.
#[derive(Clone, Copy, PartialEq, Eq, Structural, PartialOrd, Ord, Debug, Hash)]
pub enum Status {
    Assigned,
    InWork,
    Completed,
    Declined,
    Deleted,
    Rejected,
    Empty,
    AcceptedForWork,
}

impl View for Status {
    type V = Status;

    open spec fn view(&self) -> Status {
        *self
    }
}

/// The status that a label names; the empty label is a status of its own.
pub open spec fn status_of(s: Seq<char>) -> Option<Status> {
    if s == "Назначена в график"@ {
        Some(Status::Assigned)
    } else if s == "В работе"@ {
        Some(Status::InWork)
    } else if s == "Выполнена"@ {
        Some(Status::Completed)
    } else if s == "Отклонена"@ {
        Some(Status::Declined)
    } else if s == "Удалена"@ {
        Some(Status::Deleted)
    } else if s == "Отказ"@ {
        Some(Status::Rejected)
    } else if s.len() == 0 {
        Some(Status::Empty)
    } else if s == "Принята в работу"@ {
        Some(Status::AcceptedForWork)
    } else {
        None
    }
}

/// The outcome of reading `s`: the value, or the text that named none.
pub open spec fn status_result(s: Seq<char>) -> Result<Status, Seq<char>> {
    match status_of(s) {
        Some(t) => Ok(t),
        None => Err(s),
    }
}

impl Status {
    /// Reads a status label.
    pub fn parse(s: &str) -> (r: Result<Status, StatusError>)
        ensures
            match r {
                Ok(t) => status_of(s@) == Some(t),
                Err(e) => status_of(s@) is None && e@ == s@,
            },
    {
        let c = chars_of(s);
        match Status::parse_chars(c.as_slice()) {
            Some(t) => Ok(t),
            None => Err(StatusError::InvalidStatus(string_of(c.as_slice()))),
        }
    }

    /// The status that the label `c` names, if any.
    pub fn parse_chars(c: &[char]) -> (r: Option<Status>)
        ensures
            r == status_of(c@),
    {
        if is_literal(c, "Назначена в график") {
            Some(Status::Assigned)
        } else if is_literal(c, "В работе") {
            Some(Status::InWork)
        } else if is_literal(c, "Выполнена") {
            Some(Status::Completed)
        } else if is_literal(c, "Отклонена") {
            Some(Status::Declined)
        } else if is_literal(c, "Удалена") {
            Some(Status::Deleted)
        } else if is_literal(c, "Отказ") {
            Some(Status::Rejected)
        } else if c.len() == 0 {
            Some(Status::Empty)
        } else if is_literal(c, "Принята в работу") {
            Some(Status::AcceptedForWork)
        } else {
            None
        }
    }
}

impl std::str::FromStr for Status {
    type Err = StatusError;

    fn from_str(s: &str) -> Result<Status, StatusError> {
        Status::parse(s)
    }
}

} // verus!
