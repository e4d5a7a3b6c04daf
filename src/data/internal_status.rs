//! Status of an order inside the portal.

use vstd::prelude::*;
use crate::text::{chars_of, is_literal, string_of};

verus! {

/// `text` did not name any internal status; it is kept as it was.
#[derive(Clone, PartialEq, Eq, PartialOrd, Ord, Debug, Hash)]
pub enum InternalStatusError {
    InvalidStrStatus(String),
}

impl View for InternalStatusError {
    type V = Seq<char>;

    open spec fn view(&self) -> Seq<char> {
        match self {
            InternalStatusError::InvalidStrStatus(s) => s@,
        }
    }
}

/// Status of an order inside the portal.
#[derive(Clone, Copy, PartialEq, Eq, Structural, PartialOrd, Ord, Debug, Hash)]
pub enum InternalStatus {
    Assigned,
    Returned,
    Completed,
    Rejected,
    NotActivated,
    New,
    Agreed,
    NotCompleted,
    Delayed,
}

impl View for InternalStatus {
    type V = InternalStatus;

    open spec fn view(&self) -> InternalStatus {
        *self
    }
}

/// The internal status that a label names.
pub open spec fn internal_status_of(s: Seq<char>) -> Option<InternalStatus> {
    if s == "Назначено"@ {
        Some(InternalStatus::Assigned)
    } else if s == "Возврат (от монтажника)"@ {
        Some(InternalStatus::Returned)
    } else if s == "Выполнено"@ {
        Some(InternalStatus::Completed)
    } else if s == "Отказ"@ {
        Some(InternalStatus::Rejected)
    } else if s == "Не активировано"@ {
        Some(InternalStatus::NotActivated)
    } else if s == "Новая"@ {
        Some(InternalStatus::New)
    } else if s == "Договорено"@ {
        Some(InternalStatus::Agreed)
    } else if s == "Не выполнено"@ {
        Some(InternalStatus::NotCompleted)
    } else if s == "Отложено"@ {
        Some(InternalStatus::Delayed)
    } else {
        None
    }
}

/// The outcome of reading `s`: the value, or the text that named none.
pub open spec fn internal_status_result(s: Seq<char>) -> Result<InternalStatus, Seq<char>> {
    match internal_status_of(s) {
        Some(t) => Ok(t),
        None => Err(s),
    }
}

impl InternalStatus {
    /// Reads an internal status label.
    pub fn parse(s: &str) -> (r: Result<InternalStatus, InternalStatusError>)
        ensures
            match r {
                Ok(t) => internal_status_of(s@) == Some(t),
                Err(e) => internal_status_of(s@) is None && e@ == s@,
            },
    {
        let c = chars_of(s);
        match InternalStatus::parse_chars(c.as_slice()) {
            Some(t) => Ok(t),
            None => Err(InternalStatusError::InvalidStrStatus(string_of(c.as_slice()))),
        }
    }

    /// The internal status that the label `c` names, if any.
    pub fn parse_chars(c: &[char]) -> (r: Option<InternalStatus>)
        ensures
            r == internal_status_of(c@),
    {
        if is_literal(c, "Назначено") {
            Some(InternalStatus::Assigned)
        } else if is_literal(c, "Возврат (от монтажника)") {
            Some(InternalStatus::Returned)
        } else if is_literal(c, "Выполнено") {
            Some(InternalStatus::Completed)
        } else if is_literal(c, "Отказ") {
            Some(InternalStatus::Rejected)
        } else if is_literal(c, "Не активировано") {
            Some(InternalStatus::NotActivated)
        } else if is_literal(c, "Новая") {
            Some(InternalStatus::New)
        } else if is_literal(c, "Договорено") {
            Some(InternalStatus::Agreed)
        } else if is_literal(c, "Не выполнено") {
            Some(InternalStatus::NotCompleted)
        } else if is_literal(c, "Отложено") {
            Some(InternalStatus::Delayed)
        } else {
            None
        }
    }
}

impl std::str::FromStr for InternalStatus {
    type Err = InternalStatusError;

    fn from_str(s: &str) -> Result<InternalStatus, InternalStatusError> {
        InternalStatus::parse(s)
    }
}

} // verus!
