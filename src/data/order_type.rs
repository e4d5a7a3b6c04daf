//! Type of work on an order.

use vstd::prelude::*;
use crate::text::{chars_of, contains_literal, contains_seq, is_literal, string_of};

verus! {

/// `text` did not name any order type; it is kept as it was.
#[derive(Clone, PartialEq, Eq, PartialOrd, Ord, Debug, Hash)]
pub enum OrderTypeError {
    InvalidOrderType(String),
}

impl View for OrderTypeError {
    type V = Seq<char>;

    open spec fn view(&self) -> Seq<char> {
        match self {
            OrderTypeError::InvalidOrderType(s) => s@,
        }
    }
}

/// Type of work that an order asks for.
#[derive(Clone, Copy, PartialEq, Eq, Structural, PartialOrd, Ord, Debug, Hash)]
pub enum OrderType {
    TunerRemoval,
    TunerInstallation,
    TunerReplacement,
    NetGigabit,
    NetRecoveryActive,
    NetRecoveryPassive,
    NetNewActive,
    NetNewPassive,
    NetBroken,
    OthersMaster,
    NetRelocationActive,
    NetRelocationPassive,
    SomeBitchComplained,
    NetRecoveryUnknown,
    NetNewUnknown,
    NetRelocationUnknown,
}

impl View for OrderType {
    type V = OrderType;

    open spec fn view(&self) -> OrderType {
        *self
    }
}

/// The order type that a label names. The portal writes labels in two
/// dialects, with the category as a prefix (`Сервис-`, `Актив-`, `Пассив-`)
/// and without it; both are listed, and every label that mentions the
/// master service is the generic master type.
pub open spec fn order_type_of(s: Seq<char>) -> Option<OrderType> {
    if s == "Сервис-Тюнер ДЕМОНТАЖ"@ || s == "Тюнер ДЕМОНТАЖ"@ {
        Some(OrderType::TunerRemoval)
    } else if s == "Сервис-Тюнер ЗАМЕНА"@ || s == "Тюнер ЗАМЕНА"@ {
        Some(OrderType::TunerReplacement)
    } else if s == "Сервис-Тюнер УСТАНОВКА"@ || s == "Тюнер УСТАНОВКА"@ {
        Some(OrderType::TunerInstallation)
    } else if s == "Сервис-Гігабіт"@ || s == "Гігабіт"@ {
        Some(OrderType::NetGigabit)
    } else if s == "Актив-Восстановление"@ {
        Some(OrderType::NetRecoveryActive)
    } else if s == "Пассив-Восстановление"@ {
        Some(OrderType::NetRecoveryPassive)
    } else if s == "Восстановление"@ {
        Some(OrderType::NetRecoveryUnknown)
    } else if s == "Актив-Новое подключение"@ {
        Some(OrderType::NetNewActive)
    } else if s == "Пассив-Новое подключение"@ {
        Some(OrderType::NetNewPassive)
    } else if s == "Новое подключение"@ {
        Some(OrderType::NetNewUnknown)
    } else if s == "Сервис-Жалобы на обслуживание"@ || s == "Жалобы на обслуживание"@ {
        Some(OrderType::NetBroken)
    } else if s == "Мастер"@ {
        Some(OrderType::OthersMaster)
    } else if s == "Актив-Переезд"@ {
        Some(OrderType::NetRelocationActive)
    } else if s == "Пассив-Переезд"@ {
        Some(OrderType::NetRelocationPassive)
    } else if s == "Переезд"@ {
        Some(OrderType::NetRelocationUnknown)
    } else if s == "Сервис-Жалобы по включениям"@ || s == "Жалобы по включениям"@ {
        Some(OrderType::SomeBitchComplained)
    } else if contains_seq(s, "Сервис-Мастер"@) {
        Some(OrderType::OthersMaster)
    } else {
        None
    }
}

/// The outcome of reading `s` as an order type.
pub open spec fn order_type_result(s: Seq<char>) -> Result<OrderType, Seq<char>> {
    match order_type_of(s) {
        Some(t) => Ok(t),
        None => Err(s),
    }
}

/// Both dialects name the same order type: each label that the portal also
/// writes with the `Сервис-` prefix names, with or without it, one and the
/// same order type.
#[verifier::rlimit(100)]
pub proof fn lemma_dialects_agree(x: Seq<char>)
    requires
        x == "Тюнер ДЕМОНТАЖ"@ || x == "Тюнер ЗАМЕНА"@ || x == "Тюнер УСТАНОВКА"@
            || x == "Гігабіт"@ || x == "Жалобы на обслуживание"@ || x == "Жалобы по включениям"@,
    ensures
        order_type_of("Сервис-"@ + x) == order_type_of(x),
        order_type_of(x) is Some,
{
    reveal_strlit("Сервис-Тюнер ДЕМОНТАЖ");
    reveal_strlit("Тюнер ДЕМОНТАЖ");
    reveal_strlit("Сервис-Тюнер ЗАМЕНА");
    reveal_strlit("Тюнер ЗАМЕНА");
    reveal_strlit("Сервис-Тюнер УСТАНОВКА");
    reveal_strlit("Тюнер УСТАНОВКА");
    reveal_strlit("Сервис-Гігабіт");
    reveal_strlit("Гігабіт");
    reveal_strlit("Актив-Восстановление");
    reveal_strlit("Пассив-Восстановление");
    reveal_strlit("Восстановление");
    reveal_strlit("Актив-Новое подключение");
    reveal_strlit("Пассив-Новое подключение");
    reveal_strlit("Новое подключение");
    reveal_strlit("Сервис-Жалобы на обслуживание");
    reveal_strlit("Жалобы на обслуживание");
    reveal_strlit("Мастер");
    reveal_strlit("Актив-Переезд");
    reveal_strlit("Пассив-Переезд");
    reveal_strlit("Переезд");
    reveal_strlit("Сервис-Жалобы по включениям");
    reveal_strlit("Жалобы по включениям");
    reveal_strlit("Сервис-Мастер");
    reveal_strlit("Сервис-");
    assert("Гігабіт"@[0] != "Переезд"@[0]);
    assert("Жалобы на обслуживание"@[0] != "Сервис-Тюнер УСТАНОВКА"@[0]);
    assert("Жалобы по включениям"@[0] != "Актив-Восстановление"@[0]);
    assert("Сервис-Гігабіт"@[0] != "Восстановление"@[0]);
    assert("Сервис-Гігабіт"@[0] != "Пассив-Переезд"@[0]);
    assert("Сервис-Гігабіт"@[0] != "Тюнер ДЕМОНТАЖ"@[0]);
    assert("Сервис-Тюнер ДЕМОНТАЖ"@[0] != "Пассив-Восстановление"@[0]);
    assert("Сервис-Тюнер УСТАНОВКА"@[0] != "Жалобы на обслуживание"@[0]);
    assert("Тюнер ДЕМОНТАЖ"@[0] != "Восстановление"@[0]);
    assert("Тюнер ДЕМОНТАЖ"@[0] != "Пассив-Переезд"@[0]);
    assert("Тюнер ДЕМОНТАЖ"@[0] != "Сервис-Гігабіт"@[0]);
    if x == "Тюнер ДЕМОНТАЖ"@ {
        assert("Сервис-"@ + x =~= "Сервис-Тюнер ДЕМОНТАЖ"@);
        assert(order_type_of(x) == Some(OrderType::TunerRemoval));
        assert(order_type_of("Сервис-Тюнер ДЕМОНТАЖ"@) == Some(OrderType::TunerRemoval));
    }
    if x == "Тюнер ЗАМЕНА"@ {
        assert("Сервис-"@ + x =~= "Сервис-Тюнер ЗАМЕНА"@);
        assert(order_type_of(x) == Some(OrderType::TunerReplacement));
        assert(order_type_of("Сервис-Тюнер ЗАМЕНА"@) == Some(OrderType::TunerReplacement));
    }
    if x == "Тюнер УСТАНОВКА"@ {
        assert("Сервис-"@ + x =~= "Сервис-Тюнер УСТАНОВКА"@);
        assert(order_type_of(x) == Some(OrderType::TunerInstallation));
        assert(order_type_of("Сервис-Тюнер УСТАНОВКА"@) == Some(OrderType::TunerInstallation));
    }
    if x == "Гігабіт"@ {
        assert("Сервис-"@ + x =~= "Сервис-Гігабіт"@);
        assert(order_type_of(x) == Some(OrderType::NetGigabit));
        assert(order_type_of("Сервис-Гігабіт"@) == Some(OrderType::NetGigabit));
    }
    if x == "Жалобы на обслуживание"@ {
        assert("Сервис-"@ + x =~= "Сервис-Жалобы на обслуживание"@);
        assert(order_type_of(x) == Some(OrderType::NetBroken));
        assert(order_type_of("Сервис-Жалобы на обслуживание"@) == Some(OrderType::NetBroken));
    }
    if x == "Жалобы по включениям"@ {
        assert("Сервис-"@ + x =~= "Сервис-Жалобы по включениям"@);
        assert(order_type_of(x) == Some(OrderType::SomeBitchComplained));
        assert(order_type_of("Сервис-Жалобы по включениям"@) == Some(OrderType::SomeBitchComplained));
    }
}

impl OrderType {
    /// Reads an order type label in either dialect.
    pub fn parse(s: &str) -> (r: Result<OrderType, OrderTypeError>)
        ensures
            match r {
                Ok(t) => order_type_of(s@) == Some(t),
                Err(e) => order_type_of(s@) is None && e@ == s@,
            },
    {
        let c = chars_of(s);
        match OrderType::parse_chars(c.as_slice()) {
            Some(t) => Ok(t),
            None => Err(OrderTypeError::InvalidOrderType(string_of(c.as_slice()))),
        }
    }

    /// The order type that the label `c` names, if any.
    pub fn parse_chars(c: &[char]) -> (r: Option<OrderType>)
        ensures
            r == order_type_of(c@),
    {
        if is_literal(c, "Сервис-Тюнер ДЕМОНТАЖ") || is_literal(c, "Тюнер ДЕМОНТАЖ") {
            Some(OrderType::TunerRemoval)
        } else if is_literal(c, "Сервис-Тюнер ЗАМЕНА") || is_literal(c, "Тюнер ЗАМЕНА") {
            Some(OrderType::TunerReplacement)
        } else if is_literal(c, "Сервис-Тюнер УСТАНОВКА") || is_literal(c, "Тюнер УСТАНОВКА") {
            Some(OrderType::TunerInstallation)
        } else if is_literal(c, "Сервис-Гігабіт") || is_literal(c, "Гігабіт") {
            Some(OrderType::NetGigabit)
        } else if is_literal(c, "Актив-Восстановление") {
            Some(OrderType::NetRecoveryActive)
        } else if is_literal(c, "Пассив-Восстановление") {
            Some(OrderType::NetRecoveryPassive)
        } else if is_literal(c, "Восстановление") {
            Some(OrderType::NetRecoveryUnknown)
        } else if is_literal(c, "Актив-Новое подключение") {
            Some(OrderType::NetNewActive)
        } else if is_literal(c, "Пассив-Новое подключение") {
            Some(OrderType::NetNewPassive)
        } else if is_literal(c, "Новое подключение") {
            Some(OrderType::NetNewUnknown)
        } else if is_literal(c, "Сервис-Жалобы на обслуживание") || is_literal(
            c,
            "Жалобы на обслуживание",
        ) {
            Some(OrderType::NetBroken)
        } else if is_literal(c, "Мастер") {
            Some(OrderType::OthersMaster)
        } else if is_literal(c, "Актив-Переезд") {
            Some(OrderType::NetRelocationActive)
        } else if is_literal(c, "Пассив-Переезд") {
            Some(OrderType::NetRelocationPassive)
        } else if is_literal(c, "Переезд") {
            Some(OrderType::NetRelocationUnknown)
        } else if is_literal(c, "Сервис-Жалобы по включениям") || is_literal(
            c,
            "Жалобы по включениям",
        ) {
            Some(OrderType::SomeBitchComplained)
        } else if contains_literal(c, "Сервис-Мастер") {
            Some(OrderType::OthersMaster)
        } else {
            None
        }
    }
}

impl std::str::FromStr for OrderType {
    type Err = OrderTypeError;

    fn from_str(s: &str) -> Result<OrderType, OrderTypeError> {
        OrderType::parse(s)
    }
}

} // verus!
