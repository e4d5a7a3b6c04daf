use std::str::FromStr;

use nsg::data::address::{Address, AddressError};
use nsg::data::comment::{Comment, CommentError};
use nsg::data::datetime::{Date, DateTime, LocalDateTime, Time};
use nsg::data::full_comment::{FullComment, FullCommentError};
use nsg::data::internal_status::{InternalStatus, InternalStatusError};
use nsg::data::mdu::{MDUError, MDU};
use nsg::data::order_type::{OrderType, OrderTypeError};
use nsg::data::status::{Status, StatusError};
use nsg::data::time_constrains::{TimeConstrains, TimeConstrainsError};
use nsg::dom::Document;
use nsg::serializable_parse_error_kind::SerializableParseErrorKind;

fn kyiv(year: i32, month: u32, day: u32, hour: u32, minute: u32, second: u32) -> DateTime {
    DateTime {
        local: LocalDateTime { date: Date { year, month, day }, time: Time { hour, minute, second } },
        offset_seconds: 3 * 3600,
    }
}

#[test]
fn address_should_match() {
    assert_eq!(
        Address::from_work_schedule("Запоріжжя, вулиця Зернова (Ленінський) д.██, кв.██"),
        Ok(Address {
            city:      "Запоріжжя".to_string(),
            street:    "Зернова".to_string(),
            building:  "██".to_string(),
            apartment: "██".to_string(),
        })
    );

    assert_eq!(
        Address::from_work_schedule("Запоріжжя,  Ладозька д.██, кв.{'uk': '█'"),
        Ok(Address {
            city:      "Запоріжжя".to_string(),
            street:    "Ладозька".to_string(),
            building:  "██".to_string(),
            apartment: "█".to_string(),
        })
    );

    assert_eq!(
        Address::from_work_schedule("Запоріжжя, вулиця Ладозька д.██, кв.█"),
        Ok(Address {
            city:      "Запоріжжя".to_string(),
            street:    "Ладозька".to_string(),
            building:  "██".to_string(),
            apartment: "█".to_string(),
        })
    );
}

#[test]
fn address_should_not_match() {
    assert_eq!(Address::from_work_schedule("???"), Err(AddressError::NoMatch));
}

#[test]
fn should_create_address() {
    assert_eq!(
        Address::from_parts(
            "City".to_string(),
            "Street".to_string(),
            "Building".to_string(),
            "Apartment".to_string()
        ),
        Address {
            city:      "City".to_string(),
            street:    "Street".to_string(),
            building:  "Building".to_string(),
            apartment: "Apartment".to_string(),
        }
    );
}



#[test]
fn comment_should_match() {
    assert_eq!(
        Comment::from("Полностью заменил кабель поменял порт (████ █████ █████████,2024-05-16 14:17:49)"),
        Ok(Comment {
            text:     "Полностью заменил кабель поменял порт ".to_string(),
            user:     Some("████ █████ █████████".to_string()),
            datetime: Some(Ok(kyiv(2024, 5, 16, 14, 17, 49))),
        })
    );

    assert_eq!(
        Comment::from("Полностью заменил кабель поменял порт (████ █████ █████████,2024-16 14:17:49)"),
        Ok(Comment {
            text:     "Полностью заменил кабель поменял порт (████ █████ █████████,2024-16 14:17:49)".to_string(),
            user:     None,
            datetime: None,
        })
    );

    assert_eq!(
        Comment::from("Полностью заменил кабель поменял порт"),
        Ok(Comment {
            text:     "Полностью заменил кабель поменял порт".to_string(),
            user:     None,
            datetime: None,
        })
    );
}

#[test]
fn comment_should_not_match() {
    assert_eq!(
        Comment::from("Полностью заменил кабель поменял порт (████ █████ █████████,2024-05-16 14:99:49)"),
        Err(CommentError::DateTimeFailed(
            "2024-05-16 14:99:49".to_string(),
            SerializableParseErrorKind::OutOfRange
        ))
    );
}

#[test]
fn full_comment_should_match() {
    let raw = Document::parse(
        "<table><tr class=\"tdeven\" onclick=\"toggleDisplay(5914732)\">
            <td>2024-05-16 14:17:49</td>
            <td></td>
            <td>████ █████ █████████</td>
            <td>10.1.162.25</td>
            <td>Выполнено</td>
            <td>Полностью заменил кабель   поменял порт</td>     
        </tr></table>",
    );

    let rows = raw.select_in("tr", 0, raw.nodes.len());
    assert_eq!(
        FullComment::from(&raw, rows[0]),
        Ok(FullComment {
            text:            Some("Полностью заменил кабель   поменял порт".to_string()),
            user:            "████ █████ █████████".to_string(),
            datetime:        kyiv(2024, 5, 16, 14, 17, 49),
            internal_status: InternalStatus::Completed,
        })
    )
}

#[test]
fn no_datetime() {
    let raw = Document::parse(
        "<table><tr class=\"tdeven\" onclick=\"toggleDisplay(5914732)\">
            <td></td>
            <td></td>
            <td>████ █████ █████████</td>
            <td>10.1.162.25</td>
            <td>Выполнено</td>
            <td>Полностью заменил кабель   поменял порт</td>     
        </tr></table>",
    );

    let rows = raw.select_in("tr", 0, raw.nodes.len());
    assert_eq!(
        FullComment::from(&raw, rows[0]),
        Err(FullCommentError::DateTimeShouldBePresent)
    )
}

#[test]
fn no_user() {
    let raw = Document::parse(
        "<table><tr class=\"tdeven\" onclick=\"toggleDisplay(5914732)\">
            <td>2024-05-16 14:17:49</td>
            <td></td>
            <td></td>
            <td>10.1.162.25</td>
            <td>Выполнено</td>
            <td>Полностью заменил кабель   поменял порт</td>     
        </tr></table>",
    );

    let rows = raw.select_in("tr", 0, raw.nodes.len());
    assert_eq!(
        FullComment::from(&raw, rows[0]),
        Err(FullCommentError::UserShouldBePresent)
    )
}

#[test]
fn no_internal_status() {
    let raw = Document::parse(
        "<table><tr class=\"tdeven\" onclick=\"toggleDisplay(5914732)\">
            <td>2024-05-16 14:17:49</td>
            <td></td>
            <td>████ █████ █████████</td>
            <td>10.1.162.25</td>
            <td></td>
            <td>Полностью заменил кабель   поменял порт</td>     
        </tr></table>",
    );

    let rows = raw.select_in("tr", 0, raw.nodes.len());
    assert_eq!(
        FullComment::from(&raw, rows[0]),
        Err(FullCommentError::InternalStatusShouldBePresent)
    )
}

#[test]
fn invalid_datetime() {
    let raw = Document::parse(
        "<table><tr class=\"tdeven\" onclick=\"toggleDisplay(5914732)\">
            <td>???</td>
            <td></td>
            <td>████ █████ █████████</td>
            <td>10.1.162.25</td>
            <td>Выполнено</td>
            <td>Полностью заменил кабель   поменял порт</td>     
        </tr></table>",
    );

    let rows = raw.select_in("tr", 0, raw.nodes.len());
    assert_eq!(
        FullComment::from(&raw, rows[0]),
        Err(FullCommentError::DateTimeFailed(
            "???".to_string(),
            SerializableParseErrorKind::Invalid
        ))
    )
}

#[test]
fn full_comment_invalid_internal_status() {
    let raw = Document::parse(
        "<table><tr class=\"tdeven\" onclick=\"toggleDisplay(5914732)\">
            <td>2024-05-16 14:17:49</td>
            <td></td>
            <td>████ █████ █████████</td>
            <td>10.1.162.25</td>
            <td>???</td>
            <td>Полностью заменил кабель   поменял порт</td>     
        </tr></table>",
    );

    let rows = raw.select_in("tr", 0, raw.nodes.len());
    assert_eq!(
        FullComment::from(&raw, rows[0]),
        Err(FullCommentError::InvalidInternalStatus(
            InternalStatusError::InvalidStrStatus("???".to_string())
        ))
    )
}



#[test]
fn internal_status_from_str() {
    assert_eq!(InternalStatus::from_str("Назначено"), Ok(InternalStatus::Assigned));
    assert_eq!(
        InternalStatus::from_str("Возврат (от монтажника)"),
        Ok(InternalStatus::Returned)
    );
    assert_eq!(InternalStatus::from_str("Выполнено"), Ok(InternalStatus::Completed));
    assert_eq!(InternalStatus::from_str("Отказ"), Ok(InternalStatus::Rejected));
    assert_eq!(
        InternalStatus::from_str("Не активировано"),
        Ok(InternalStatus::NotActivated)
    );
    assert_eq!(InternalStatus::from_str("Новая"), Ok(InternalStatus::New));
    assert_eq!(InternalStatus::from_str("Договорено"), Ok(InternalStatus::Agreed));
    assert_eq!(
        InternalStatus::from_str("Не выполнено"),
        Ok(InternalStatus::NotCompleted)
    );
    assert_eq!(InternalStatus::from_str("Отложено"), Ok(InternalStatus::Delayed));
    assert_eq!(
        InternalStatus::from_str("???"),
        Err(InternalStatusError::InvalidStrStatus("???".to_string()))
    );
}


#[test]
fn mdu_should_match() {
    assert_eq!(
        MDU::from_work_schedule("MDU_ZAP00029"),
        Ok(MDU {
            city_code: "ZAP".to_string(),
            number:    29,
        })
    );

    assert_eq!(
        MDU::from_work_schedule("MDU_ZAP29"),
        Ok(MDU {
            city_code: "ZAP".to_string(),
            number:    29,
        })
    );
}

#[test]
fn invalid() {
    assert_eq!(MDU::from_work_schedule("MDU_00029"), Err(MDUError::NoMatch));

    assert_eq!(
        // PosOverflow
        MDU::from_work_schedule("MDU_ZAP4294967296"),
        Err(MDUError::FailedToParseNumber)
    );
}



#[test]
fn order_type_from_str() {
    assert_eq!(
        OrderType::from_str("Сервис-Жалобы на обслуживание"),
        Ok(OrderType::NetBroken)
    );

    assert_eq!(OrderType::from_str("Жалобы на обслуживание"), Ok(OrderType::NetBroken));

    assert_eq!(
        OrderType::from_str("Сервис-Тюнер ДЕМОНТАЖ"),
        Ok(OrderType::TunerRemoval)
    );

    assert_eq!(OrderType::from_str("Тюнер ДЕМОНТАЖ"), Ok(OrderType::TunerRemoval));

    assert_eq!(
        OrderType::from_str("Сервис-Тюнер ЗАМЕНА"),
        Ok(OrderType::TunerReplacement)
    );

    assert_eq!(OrderType::from_str("Тюнер ЗАМЕНА"), Ok(OrderType::TunerReplacement));

    assert_eq!(
        OrderType::from_str("Сервис-Тюнер УСТАНОВКА"),
        Ok(OrderType::TunerInstallation)
    );

    assert_eq!(OrderType::from_str("Тюнер УСТАНОВКА"), Ok(OrderType::TunerInstallation));

    assert_eq!(OrderType::from_str("Сервис-Гігабіт"), Ok(OrderType::NetGigabit));

    assert_eq!(OrderType::from_str("Гігабіт"), Ok(OrderType::NetGigabit));

    assert_eq!(
        OrderType::from_str("Актив-Восстановление"),
        Ok(OrderType::NetRecoveryActive)
    );

    assert_eq!(
        OrderType::from_str("Пассив-Восстановление"),
        Ok(OrderType::NetRecoveryPassive)
    );

    assert_eq!(OrderType::from_str("Восстановление"), Ok(OrderType::NetRecoveryUnknown));

    assert_eq!(
        OrderType::from_str("Актив-Новое подключение"),
        Ok(OrderType::NetNewActive)
    );

    assert_eq!(
        OrderType::from_str("Пассив-Новое подключение"),
        Ok(OrderType::NetNewPassive)
    );

    assert_eq!(OrderType::from_str("Новое подключение"), Ok(OrderType::NetNewUnknown));

    assert_eq!(
        OrderType::from_str("Сервис-Жалобы на обслуживание"),
        Ok(OrderType::NetBroken)
    );

    assert_eq!(OrderType::from_str("Жалобы на обслуживание"), Ok(OrderType::NetBroken));

    assert_eq!(
        OrderType::from_str("Сервис-Мастер\nКорпоративный"),
        Ok(OrderType::OthersMaster)
    );

    assert_eq!(OrderType::from_str("Мастер"), Ok(OrderType::OthersMaster));

    assert_eq!(OrderType::from_str("Актив-Переезд"), Ok(OrderType::NetRelocationActive));

    assert_eq!(
        OrderType::from_str("Пассив-Переезд"),
        Ok(OrderType::NetRelocationPassive)
    );

    assert_eq!(OrderType::from_str("Переезд"), Ok(OrderType::NetRelocationUnknown));

    assert_eq!(
        OrderType::from_str("Сервис-Жалобы по включениям"),
        Ok(OrderType::SomeBitchComplained)
    );

    assert_eq!(
        OrderType::from_str("Жалобы по включениям"),
        Ok(OrderType::SomeBitchComplained)
    );

    assert_eq!(
        OrderType::from_str("???"),
        Err(OrderTypeError::InvalidOrderType("???".to_string()))
    );
}



#[test]
fn status_from_str() {
    assert_eq!(Status::from_str("Назначена в график"), Ok(Status::Assigned));
    assert_eq!(Status::from_str("В работе"), Ok(Status::InWork));
    assert_eq!(Status::from_str("Выполнена"), Ok(Status::Completed));
    assert_eq!(Status::from_str("Отклонена"), Ok(Status::Declined));
    assert_eq!(Status::from_str("Удалена"), Ok(Status::Deleted));
    assert_eq!(Status::from_str("Отказ"), Ok(Status::Rejected));
    assert_eq!(Status::from_str(""), Ok(Status::Empty));
    assert_eq!(Status::from_str("Принята в работу"), Ok(Status::AcceptedForWork));
    assert_eq!(
        Status::from_str("???"),
        Err(StatusError::InvalidStatus("???".to_string()))
    );
}



#[test]
fn time_constrains_should_match() {
    assert_eq!(
        TimeConstrains::from("с 17:00 до 17:29"),
        Ok(TimeConstrains {
            from: Time { hour: 17, minute: 0, second: 0 },
            to:   Time { hour: 17, minute: 29, second: 0 },
        })
    );

    assert_eq!(
        TimeConstrains::from_work_schedule("17:00", "17:29"),
        Ok(TimeConstrains {
            from: Time { hour: 17, minute: 0, second: 0 },
            to:   Time { hour: 17, minute: 29, second: 0 },
        })
    );
}

#[test]
fn no_match() {
    assert_eq!(
        TimeConstrains::from("с 17:00до 17:29"),
        Err(TimeConstrainsError::NoMatch)
    );
}

#[test]
fn invalid_u32() {
    assert_eq!(
        TimeConstrains::from_work_schedule("4294967296:00", "17:29"),
        Err(TimeConstrainsError::FailedToParse)
    );

    assert_eq!(
        TimeConstrains::from_work_schedule("17:4294967296", "17:29"),
        Err(TimeConstrainsError::FailedToParse)
    );

    assert_eq!(
        TimeConstrains::from_work_schedule("17:00", "4294967296:29"),
        Err(TimeConstrainsError::FailedToParse)
    );

    assert_eq!(
        TimeConstrains::from_work_schedule("17:00", "17:4294967296"),
        Err(TimeConstrainsError::FailedToParse)
    );
}

#[test]
fn invalid_naive_time() {
    assert_eq!(
        TimeConstrains::from_work_schedule("99:99", "17:29"),
        Err(TimeConstrainsError::InvalidNaiveTime)
    );

    assert_eq!(
        TimeConstrains::from_work_schedule("17:00", "99:99"),
        Err(TimeConstrainsError::InvalidNaiveTime)
    );

    assert_eq!(
        TimeConstrains::from("с 99:99 до 17:29"),
        Err(TimeConstrainsError::InvalidNaiveTime)
    );
}
