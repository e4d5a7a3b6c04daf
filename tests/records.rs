use nsg::basic_search::BasicSearch;
use nsg::brief_request::BriefRequest;
use nsg::data::address::{Address, AddressError};
use nsg::data::comment::{comment_suffix, Comment, CommentError};
use nsg::data::datetime::{Date, DateTime, LocalDateTime, Time};
use nsg::data::full_comment::{FullComment, FullCommentError};
use nsg::data::internal_status::{InternalStatus, InternalStatusError};
use nsg::data::mdu::{MDUError, MDU};
use nsg::data::order_type::OrderType;
use nsg::data::status::Status;
use nsg::data::time_constrains::{TimeConstrains, TimeConstrainsError};
use nsg::dom::Document;
use nsg::serializable_int_error_kind::SerializableIntErrorKind;
use nsg::serializable_parse_error_kind::SerializableParseErrorKind;
use nsg::view_request::ViewRequest;
use nsg::work_schedule::WorkSchedule;

fn kyiv(year: i32, month: u32, day: u32, hour: u32, minute: u32, second: u32) -> DateTime {
    DateTime {
        local: LocalDateTime { date: Date { year, month, day }, time: Time { hour, minute, second } },
        offset_seconds: 3 * 3600,
    }
}

fn row(label: &str, value: &str) -> String {
    format!("<tr><th>{label}</th><td>{value}</td></tr>")
}

fn brief_html(order_type: &str) -> String {
    let rows = [
        row("Заявка:", "123"),
        row("Наряд:", "456"),
        row("Подтип:", order_type),
        row("Дата создания:", "2024-05-17 12:30:46"),
        row("Статус:", "Назначено"),
        row("Город:", "Запоріжжя"),
        row("Адрес:", "вулиця Зернова (Ленінський),19А"),
        row("Квартира:", "{'uk': '5'"),
        row("Клиент:", "  Іван Петренко "),
        row("Пакет:", ""),
        row("Телефон:", " +380670000000 "),
        row("Телефон 2:", "+380950000000"),
        row("Лицевой счет:", "777"),
        row("Время подключения:", "с 10:00 до 10:29"),
        row("Монтажник:", "Петро"),
        row("Монтажник 2:", "Олег"),
        row("Статус заказчика:", "В работе"),
        row("Начальный комментарий:", "Первый (Система,2024-05-17 12:30:46)"),
        row("Последний комментарий:", "Второй"),
    ];
    format!("<table>{}</table>", rows.concat())
}

#[test]
fn brief_request_reads_every_label() {
    let brief = BriefRequest::from(&brief_html("Сервис-Гігабіт"));
    assert_eq!(brief.internal_order_id, Some(Ok(123)));
    assert_eq!(brief.order_id, Some(Ok(456)));
    assert_eq!(brief.order_type, Some(Ok(OrderType::NetGigabit)));
    assert_eq!(brief.creation_date, Some(Ok(kyiv(2024, 5, 17, 12, 30, 46))));
    assert_eq!(brief.internal_status, Some(Ok(InternalStatus::Assigned)));
    assert_eq!(
        brief.address,
        Some(Address {
            city: "Запоріжжя".to_string(),
            street: "Зернова".to_string(),
            building: "19А".to_string(),
            apartment: "5".to_string(),
        })
    );
    assert_eq!(brief.client, Some("Іван Петренко".to_string()));
    assert_eq!(brief.service, None);
    assert_eq!(brief.pa, Some("777".to_string()));
    assert_eq!(
        brief.time_constrains,
        Some(Ok(TimeConstrains {
            from: Time { hour: 10, minute: 0, second: 0 },
            to: Time { hour: 10, minute: 29, second: 0 },
        }))
    );
    assert_eq!(brief.installers, vec!["Петро".to_string(), "Олег".to_string()]);
    assert_eq!(brief.status, Some(Ok(Status::InWork)));
    assert_eq!(brief.phones, vec!["+380670000000".to_string(), "+380950000000".to_string()]);
    assert_eq!(
        brief.first_comment,
        Some(Ok(Comment {
            text: "Первый ".to_string(),
            user: Some("Система".to_string()),
            datetime: Some(Ok(kyiv(2024, 5, 17, 12, 30, 46))),
        }))
    );
    assert_eq!(
        brief.last_comment,
        Some(Ok(Comment { text: "Второй".to_string(), user: None, datetime: None }))
    );
    assert!(brief.into_guaranteed().is_some());
}

#[test]
fn brief_request_two_phones_and_both_dialects() {
    let prefixed = BriefRequest::from(&brief_html("Сервис-Гігабіт"));
    let bare = BriefRequest::from(&brief_html("Гігабіт"));
    assert_eq!(prefixed.phones.len(), 2);
    assert!(prefixed.installers.len() <= 2);
    assert_eq!(prefixed.order_type, bare.order_type);
}

#[test]
fn parsing_twice_gives_equal_records() {
    let html = brief_html("Тюнер ЗАМЕНА");
    assert_eq!(BriefRequest::from(&html), BriefRequest::from(&html));
    assert_eq!(ViewRequest::from(&html), ViewRequest::from(&html));
    assert_eq!(WorkSchedule::from(&html), WorkSchedule::from(&html));
    assert_eq!(BasicSearch::from(&html), BasicSearch::from(&html));
}

#[test]
fn brief_request_of_empty_document() {
    let brief = BriefRequest::from("");
    assert_eq!(brief, BriefRequest::default());
    assert!(brief.into_guaranteed().is_none());
}

#[test]
fn brief_request_address_line_without_comma_gives_no_address() {
    let html = format!(
        "<table>{}{}{}</table>",
        row("Город:", "Запоріжжя"),
        row("Адрес:", "Зернова 19"),
        row("Квартира:", "5")
    );
    assert_eq!(BriefRequest::from(&html).address, None);
}

#[test]
fn label_needs_header_cell() {
    let html = "<table><tr><td>Наряд:</td><td>456</td></tr></table>";
    assert_eq!(BriefRequest::from(html).order_id, None);
}

#[test]
fn view_request_reads_heading_and_history() {
    let html = format!(
        "<h3>Заявка №42</h3><table>{}{}{}{}</table>\
         <div id=\"tblHistory\"><table><tbody>\
         <tr class=\"tdeven\"><td>2024-05-16 14:17:49</td><td></td><td>Автор</td><td>10.1.1.1</td><td>Выполнено</td><td>Готово</td></tr>\
         <tr class=\"tdodd\"><td>2024-05-16 14:17:49</td><td></td><td>Автор</td><td>10.1.1.1</td><td>???</td><td></td></tr>\
         <tr class=\"tdeven\" classcontext=\"tradereport\"><td>x</td></tr>\
         </tbody></table></div>",
        row("Телефон:", " +380670000000 "),
        row("Телефон продавца:", "Продавец"),
        row("Дата подключения:", "17.05.2024"),
        row("Статус у заказчика:", "")
    );
    let view = ViewRequest::from(&html);
    assert_eq!(view.internal_order_id, Some(Ok(42)));
    assert_eq!(view.phones, vec![" +380670000000 ".to_string()]);
    assert_eq!(view.seller, Some("Продавец".to_string()));
    assert_eq!(view.assigned_for, Some(Ok(Date { year: 2024, month: 5, day: 17 })));
    assert_eq!(view.status, None);
    assert_eq!(
        view.comments,
        vec![
            Ok(FullComment {
                text: Some("Готово".to_string()),
                user: "Автор".to_string(),
                datetime: kyiv(2024, 5, 16, 14, 17, 49),
                internal_status: InternalStatus::Completed,
            }),
            Err(FullCommentError::InvalidInternalStatus(InternalStatusError::InvalidStrStatus(
                "???".to_string()
            ))),
        ]
    );
    assert!(view.into_guaranteed().is_none());
}

#[test]
fn history_row_with_five_cells_is_an_error() {
    let raw = Document::parse(
        "<table><tr><td>2024-05-16 14:17:49</td><td>Автор</td><td>10.1.1.1</td><td>Выполнено</td><td>Готово</td></tr></table>",
    );
    let rows = raw.select_in("tr", 0, raw.nodes.len());
    assert_eq!(FullComment::from(&raw, rows[0]), Err(FullCommentError::NotEnoughCells));
    let raw = Document::parse(
        "<table><tr><td>2024-05-16 14:17:49</td><td></td><td></td><td></td><td>Выполнено</td><td></td></tr></table>",
    );
    let rows = raw.select_in("tr", 0, raw.nodes.len());
    assert_eq!(FullComment::from(&raw, rows[0]), Err(FullCommentError::UserShouldBePresent));
}

fn schedule_html() -> String {
    "<table><tr><td><table>\
     <tr class=\"requestrow\" rowid=\"555\">\
     <th>1.</th><th>10:00</th><th>10:29</th>\
     <td class=\"td_nocontext\">№ наряда: 777</td>\
     <td class=\"td_nocontext\"><b>PA1</b></td>\
     <td> Іван Петренко </td><td>Сервис-Гігабіт</td>\
     <td class=\"addr\"><a class=\"viewAddrLink\">Запоріжжя, вулиця Зернова (Ленінський) д.19А, кв.{'uk': '0'</a></td>\
     <td class=\"mdu\"><span class=\"small\">MDU_ZAP00029</span></td>\
     <td class=\"net\"><span class=\"networkstatus\">В работе</span></td>\
     <td class=\"state\">Назначено</td>\
     </tr>\
     <tr class=\"requestrow2\" rowid=\"555\"><td rowspan=\"2\">+380670000000,+380950000000</td></tr>\
     </table></td></tr></table>"
        .to_string()
}

#[test]
fn work_schedule_reads_request_rows() {
    let schedule = WorkSchedule::from(&schedule_html());
    assert_eq!(schedule.0.len(), 1);
    let order = schedule.0[0].clone();
    assert_eq!(order.order_index, Some(Ok(1)));
    assert_eq!(order.order_id, Some(Ok(777)));
    assert_eq!(order.internal_order_id, Some(Ok(555)));
    assert_eq!(
        order.time_constrains,
        Some(Ok(TimeConstrains {
            from: Time { hour: 10, minute: 0, second: 0 },
            to: Time { hour: 10, minute: 29, second: 0 },
        }))
    );
    assert_eq!(
        order.phones,
        Some(vec!["+380670000000".to_string(), "+380950000000".to_string()])
    );
    assert_eq!(order.pa, Some("PA1".to_string()));
    assert_eq!(
        order.address,
        Some(Ok(Address {
            city: "Запоріжжя".to_string(),
            street: "Зернова".to_string(),
            building: "19А".to_string(),
            apartment: "0".to_string(),
        }))
    );
    assert_eq!(order.mdu, Some(Ok(MDU { city_code: "ZAP".to_string(), number: 29 })));
    assert_eq!(order.status, Some(Ok(Status::InWork)));
    assert_eq!(order.client, Some("Іван Петренко".to_string()));
    assert_eq!(order.order_type, Some(Ok(OrderType::NetGigabit)));
    assert_eq!(order.internal_status, Some(Ok(InternalStatus::Assigned)));
    assert!(order.into_guaranteed().is_some());
}

#[test]
fn basic_search_reads_columns_by_position() {
    let html = "<tr><td>13354143</td><td>950599</td><td>Запоріжжя</td><td>Професора Толока</td>\
                <td>19А</td><td>{'uk': '7'</td><td> Клієнт </td><td>+380670000000</td>\
                <td>2024-05-16</td><td>a</td><td>b</td><td>Монтажник</td><td>Выполнено</td>\
                <td>MDU_ZAP29</td></tr>\
                <tr><td>x</td><td></td></tr>";
    let search = BasicSearch::from(html);
    assert_eq!(search.0.len(), 2);
    let entry = search.0[0].clone();
    assert_eq!(entry.internal_order_id, Some(Ok(13354143)));
    assert_eq!(entry.order_id, Some(Ok(950599)));
    assert_eq!(
        entry.address,
        Some(Address {
            city: "Запоріжжя".to_string(),
            street: "Професора Толока".to_string(),
            building: "19А".to_string(),
            apartment: "7".to_string(),
        })
    );
    assert_eq!(entry.client, Some("Клієнт".to_string()));
    assert_eq!(entry.phone_number, Some("+380670000000".to_string()));
    assert_eq!(entry.last_updated, Some(Ok(Date { year: 2024, month: 5, day: 16 })));
    assert_eq!(entry.installer, Some("Монтажник".to_string()));
    assert_eq!(entry.internal_status, Some(Ok(InternalStatus::Completed)));
    assert_eq!(entry.mdu, Some(Ok(MDU { city_code: "ZAP".to_string(), number: 29 })));
    assert!(entry.into_guaranteed().is_some());
    let second = search.0[1].clone();
    assert_eq!(second.internal_order_id, Some(Err(SerializableIntErrorKind::InvalidDigit)));
    assert_eq!(second.order_id, None);
    assert!(second.into_guaranteed().is_none());
}

#[test]
fn address_line_with_serialised_apartment() {
    assert_eq!(
        Address::from_work_schedule("Запоріжжя, вулиця Зернова (Ленінський) д.19А, кв.{'uk': '0'"),
        Ok(Address {
            city: "Запоріжжя".to_string(),
            street: "Зернова".to_string(),
            building: "19А".to_string(),
            apartment: "0".to_string(),
        })
    );
}

#[test]
fn dwelling_unit_leading_zeros_do_not_count() {
    let expected = Ok(MDU { city_code: "ZAP".to_string(), number: 29 });
    assert_eq!(MDU::from_work_schedule("MDU_ZAP00029"), expected);
    assert_eq!(MDU::from_work_schedule("MDU_ZAP29"), expected);
    assert_eq!(MDU::from_work_schedule("MDU_ZAP4294967295"), Ok(MDU { city_code: "ZAP".to_string(), number: 4294967295 }));
    assert_eq!(MDU::from_work_schedule("MDU_ZAP4294967296"), Err(MDUError::FailedToParseNumber));
    assert_eq!(MDU::from_work_schedule("x MDU_ MDU_KIE7z"), Ok(MDU { city_code: "KIE".to_string(), number: 7 }));
}

#[test]
fn time_window_text_equals_parts() {
    assert_eq!(
        TimeConstrains::from("с 10:00 до 10:29"),
        TimeConstrains::from_work_schedule("10:00", "10:29")
    );
    assert_eq!(TimeConstrains::from_work_schedule("10", "10:29"), Err(TimeConstrainsError::NoMinuteElement));
    assert_eq!(TimeConstrains::from_work_schedule("1a:00", "10:29"), Err(TimeConstrainsError::FailedToParse));
    assert_eq!(
        TimeConstrains::from("заявка с 23:59 до 00:00, позвонить"),
        Ok(TimeConstrains {
            from: Time { hour: 23, minute: 59, second: 0 },
            to: Time { hour: 0, minute: 0, second: 0 },
        })
    );
}

#[test]
fn comment_suffix_is_taken_out() {
    assert_eq!(
        Comment::from("text (████ █████ █████████,2024-05-17 12:30:46)"),
        Ok(Comment {
            text: "text ".to_string(),
            user: Some("████ █████ █████████".to_string()),
            datetime: Some(Ok(kyiv(2024, 5, 17, 12, 30, 46))),
        })
    );
    assert_eq!(
        Comment::from("text"),
        Ok(Comment { text: "text".to_string(), user: None, datetime: None })
    );
}

#[test]
fn comment_entities_and_line_breaks_are_decoded() {
    assert_eq!(
        Comment::from("a &amp; b<br/>c"),
        Ok(Comment { text: "a & b\nc".to_string(), user: None, datetime: None })
    );
}

#[test]
fn comment_in_winter_has_winter_offset() {
    let c = Comment::from("x (Система,2024-01-10 08:00:00)").unwrap();
    assert_eq!(
        c.datetime,
        Some(Ok(DateTime {
            local: LocalDateTime {
                date: Date { year: 2024, month: 1, day: 10 },
                time: Time { hour: 8, minute: 0, second: 0 },
            },
            offset_seconds: 2 * 3600,
        }))
    );
}

#[test]
fn comment_with_bad_date_keeps_the_error() {
    assert_eq!(
        Comment::from("x (Система,2024-13-10 08:00:00)"),
        Err(CommentError::DateTimeFailed("2024-13-10 08:00:00".to_string(), SerializableParseErrorKind::OutOfRange))
    );
}

#[test]
fn comment_suffix_is_found_in_decoded_text() {
    let t: Vec<char> = "ab (Система,2024-05-17 12:30:46) c".chars().collect();
    let (start, end, user, stamp) = comment_suffix(&t).unwrap();
    assert_eq!((start, end), (3, 32));
    assert_eq!(user.iter().collect::<String>(), "Система");
    assert_eq!(stamp.iter().collect::<String>(), "2024-05-17 12:30:46");
    let none: Vec<char> = "ab (Система,2024-05-17 12:30)".chars().collect();
    assert_eq!(comment_suffix(&none), None);
}

fn address(city: &str, street: &str, building: &str, apartment: &str) -> Address {
    Address {
        city: city.to_string(),
        street: street.to_string(),
        building: building.to_string(),
        apartment: apartment.to_string(),
    }
}

#[test]
fn address_line_takes_the_leftmost_match() {
    assert_eq!(Address::from_work_schedule("A, B д.1, кв.2 x, кв. "), Ok(address("A", "B", "1", "2")));
    assert_eq!(
        Address::from_work_schedule("junk\nЗапоріжжя, вулиця Зернова д.1, кв.2"),
        Ok(address("Запоріжжя", "Зернова", "1", "2"))
    );
    assert_eq!(
        Address::from_work_schedule("Київ, Б, В д.1, кв.2"),
        Ok(address("Київ, Б", "В", "1", "2"))
    );
    assert_eq!(Address::from_work_schedule("A,B д.1, кв.2"), Err(AddressError::NoMatch));
    assert_eq!(Address::from_work_schedule("A, B\nд.1, кв.2"), Err(AddressError::NoMatch));
}

#[test]
fn address_apartment_never_keeps_artifacts() {
    assert_eq!(Address::from_work_schedule("A, B д.1, кв.5'"), Ok(address("A", "B", "1", "5")));
    assert_eq!(Address::from_work_schedule("A, B д.1, кв.{'uk':"), Ok(address("A", "B", "1", "")));
    assert_eq!(Address::from_work_schedule("A, B д.1, кв.{'uk': '7А'"), Ok(address("A", "B", "1", "7А")));
}
