use nsg::data::address::{Address, AddressError};
use nsg::data::datetime::{Date, DateTime, LocalDateTime, Time};
use nsg::data::full_comment::{FullComment, FullCommentError};
use nsg::data::internal_status::{InternalStatus, InternalStatusError};
use nsg::data::mdu::{MDUError, MDU};
use nsg::data::order_type::{OrderType, OrderTypeError};
use nsg::data::status::{Status, StatusError};
use nsg::data::time_constrains::{TimeConstrains, TimeConstrainsError};
use nsg::serializable_int_error_kind::SerializableIntErrorKind;
use nsg::serializable_parse_error_kind::SerializableParseErrorKind;
use nsg::view_request::ViewRequest;
use nsg::work_schedule::order::Order;

fn today() -> Date {
    Date { year: 2024, month: 5, day: 17 }
}

fn now() -> DateTime {
    DateTime {
        local: LocalDateTime { date: today(), time: Time { hour: 12, minute: 30, second: 46 } },
        offset_seconds: 3 * 3600,
    }
}




#[test]
fn guarantee_invalid_order_id() {
    let view_request = ViewRequest {
        phones: vec!["+38067███████".to_string()],
        order_id: None,
        ..ViewRequest::default()
    };
    assert!(view_request.into_guaranteed().is_none());

    let view_request = ViewRequest {
        phones: vec!["+38067███████".to_string()],
        order_id: Some(Err(SerializableIntErrorKind::Zero)),
        ..ViewRequest::default()
    };
    assert!(view_request.into_guaranteed().is_none());
}

#[test]
fn guarantee_invalid_internal_order_id() {
    let view_request = ViewRequest {
        phones: vec!["+38067███████".to_string()],
        order_id: Some(Ok(1)),
        internal_order_id: None,
        ..ViewRequest::default()
    };
    assert!(view_request.into_guaranteed().is_none());

    let view_request = ViewRequest {
        phones: vec!["+38067███████".to_string()],
        order_id: Some(Ok(1)),
        internal_order_id: Some(Err(SerializableIntErrorKind::Zero)),
        ..ViewRequest::default()
    };
    assert!(view_request.into_guaranteed().is_none());
}

#[test]
fn guarantee_invalid_order_type() {
    let view_request = ViewRequest {
        phones: vec!["+38067███████".to_string()],
        order_id: Some(Ok(1)),
        internal_order_id: Some(Ok(1)),
        order_type: None,
        ..ViewRequest::default()
    };
    assert!(view_request.into_guaranteed().is_none());

    let view_request = ViewRequest {
        phones: vec!["+38067███████".to_string()],
        order_id: Some(Ok(1)),
        internal_order_id: Some(Ok(1)),
        order_type: Some(Err(OrderTypeError::InvalidOrderType("".to_string()))),
        ..ViewRequest::default()
    };
    assert!(view_request.into_guaranteed().is_none());
}

#[test]
fn invalid_creation_date() {
    let view_request = ViewRequest {
        phones: vec!["+38067███████".to_string()],
        order_id: Some(Ok(1)),
        internal_order_id: Some(Ok(1)),
        order_type: Some(Ok(OrderType::NetBroken)),
        creation_date: None,
        ..ViewRequest::default()
    };
    assert!(view_request.into_guaranteed().is_none());

    let view_request = ViewRequest {
        phones: vec!["+38067███████".to_string()],
        order_id: Some(Ok(1)),
        internal_order_id: Some(Ok(1)),
        order_type: Some(Ok(OrderType::NetBroken)),
        creation_date: Some(Err(SerializableParseErrorKind::Invalid)),
        ..ViewRequest::default()
    };
    assert!(view_request.into_guaranteed().is_none());
}

#[test]
fn guarantee_invalid_internal_status() {
    let view_request = ViewRequest {
        phones: vec!["+38067███████".to_string()],
        order_id: Some(Ok(1)),
        internal_order_id: Some(Ok(1)),
        order_type: Some(Ok(OrderType::NetBroken)),
        creation_date: Some(Ok(now())),
        internal_status: None,
        ..ViewRequest::default()
    };
    assert!(view_request.into_guaranteed().is_none());

    let view_request = ViewRequest {
        phones: vec!["+38067███████".to_string()],
        order_id: Some(Ok(1)),
        internal_order_id: Some(Ok(1)),
        order_type: Some(Ok(OrderType::NetBroken)),
        creation_date: Some(Ok(now())),
        internal_status: Some(Err(InternalStatusError::InvalidStrStatus("".to_string()))),
        ..ViewRequest::default()
    };
    assert!(view_request.into_guaranteed().is_none());
}

#[test]
fn guarantee_invalid_address() {
    let view_request = ViewRequest {
        phones: vec!["+38067███████".to_string()],
        order_id: Some(Ok(1)),
        internal_order_id: Some(Ok(1)),
        order_type: Some(Ok(OrderType::NetBroken)),
        creation_date: Some(Ok(now())),
        internal_status: Some(Ok(InternalStatus::Assigned)),
        address: None,
        ..ViewRequest::default()
    };
    assert!(view_request.into_guaranteed().is_none());
}

#[test]
fn guarantee_invalid_client() {
    let view_request = ViewRequest {
        phones: vec!["+38067███████".to_string()],
        order_id: Some(Ok(1)),
        internal_order_id: Some(Ok(1)),
        order_type: Some(Ok(OrderType::NetBroken)),
        creation_date: Some(Ok(now())),
        internal_status: Some(Ok(InternalStatus::Assigned)),
        address: Some(Address {
            city:      "Запоріжжя".to_string(),
            street:    "Зернова".to_string(),
            building:  "██".to_string(),
            apartment: "██".to_string(),
        }),
        client: None,
        ..ViewRequest::default()
    };

    assert!(view_request.into_guaranteed().is_none());
}

#[test]
fn guarantee_invalid_pa() {
    let view_request = ViewRequest {
        phones: vec!["+38067███████".to_string()],
        order_id: Some(Ok(1)),
        internal_order_id: Some(Ok(1)),
        order_type: Some(Ok(OrderType::NetBroken)),
        creation_date: Some(Ok(now())),
        internal_status: Some(Ok(InternalStatus::Assigned)),
        address: Some(Address {
            city:      "Запоріжжя".to_string(),
            street:    "Зернова".to_string(),
            building:  "██".to_string(),
            apartment: "██".to_string(),
        }),
        client: Some("██".to_string()),
        pa: None,
        ..ViewRequest::default()
    };

    assert!(view_request.into_guaranteed().is_none());
}

#[test]
fn guarantee_invalid_time_constrains() {
    let view_request = ViewRequest {
        phones: vec!["+38067███████".to_string()],
        order_id: Some(Ok(1)),
        internal_order_id: Some(Ok(1)),
        order_type: Some(Ok(OrderType::NetBroken)),
        creation_date: Some(Ok(now())),
        internal_status: Some(Ok(InternalStatus::Assigned)),
        address: Some(Address {
            city:      "Запоріжжя".to_string(),
            street:    "Зернова".to_string(),
            building:  "██".to_string(),
            apartment: "██".to_string(),
        }),
        client: Some("██".to_string()),
        pa: Some("██".to_string()),
        time_constrains: None,
        ..ViewRequest::default()
    };

    assert!(view_request.into_guaranteed().is_none());

    let view_request = ViewRequest {
        phones: vec!["+38067███████".to_string()],
        order_id: Some(Ok(1)),
        internal_order_id: Some(Ok(1)),
        order_type: Some(Ok(OrderType::NetBroken)),
        creation_date: Some(Ok(now())),
        internal_status: Some(Ok(InternalStatus::Assigned)),
        address: Some(Address {
            city:      "Запоріжжя".to_string(),
            street:    "Зернова".to_string(),
            building:  "██".to_string(),
            apartment: "██".to_string(),
        }),
        client: Some("██".to_string()),
        pa: Some("██".to_string()),
        time_constrains: Some(Err(TimeConstrainsError::FailedToParse)),
        ..ViewRequest::default()
    };

    assert!(view_request.into_guaranteed().is_none());
}

#[test]
fn guarantee_invalid_status() {
    let view_request = ViewRequest {
        phones: vec!["+38067███████".to_string()],
        order_id: Some(Ok(1)),
        internal_order_id: Some(Ok(1)),
        order_type: Some(Ok(OrderType::NetBroken)),
        creation_date: Some(Ok(now())),
        internal_status: Some(Ok(InternalStatus::Assigned)),
        address: Some(Address {
            city:      "Запоріжжя".to_string(),
            street:    "Зернова".to_string(),
            building:  "██".to_string(),
            apartment: "██".to_string(),
        }),
        client: Some("██".to_string()),
        pa: Some("██".to_string()),
        time_constrains: Some(Ok(TimeConstrains {
            from: Time { hour: 0, minute: 0, second: 0 },
            to:   Time { hour: 0, minute: 0, second: 0 },
        })),
        status: None,
        ..ViewRequest::default()
    };

    assert!(view_request.into_guaranteed().is_none());

    let view_request = ViewRequest {
        phones: vec!["+38067███████".to_string()],
        order_id: Some(Ok(1)),
        internal_order_id: Some(Ok(1)),
        order_type: Some(Ok(OrderType::NetBroken)),
        creation_date: Some(Ok(now())),
        internal_status: Some(Ok(InternalStatus::Assigned)),
        address: Some(Address {
            city:      "Запоріжжя".to_string(),
            street:    "Зернова".to_string(),
            building:  "██".to_string(),
            apartment: "██".to_string(),
        }),
        client: Some("██".to_string()),
        pa: Some("██".to_string()),
        time_constrains: Some(Ok(TimeConstrains {
            from: Time { hour: 0, minute: 0, second: 0 },
            to:   Time { hour: 0, minute: 0, second: 0 },
        })),
        status: Some(Err(StatusError::InvalidStatus("".to_string()))),
        ..ViewRequest::default()
    };

    assert!(view_request.into_guaranteed().is_none());
}

#[test]
fn guarantee_invalid_phones() {
    let view_request = ViewRequest {
        order_id: Some(Ok(1)),
        internal_order_id: Some(Ok(1)),
        order_type: Some(Ok(OrderType::NetBroken)),
        creation_date: Some(Ok(now())),
        internal_status: Some(Ok(InternalStatus::Assigned)),
        address: Some(Address {
            city:      "Запоріжжя".to_string(),
            street:    "Зернова".to_string(),
            building:  "██".to_string(),
            apartment: "██".to_string(),
        }),
        client: Some("██".to_string()),
        pa: Some("██".to_string()),
        time_constrains: Some(Ok(TimeConstrains {
            from: Time { hour: 0, minute: 0, second: 0 },
            to:   Time { hour: 0, minute: 0, second: 0 },
        })),
        status: Some(Ok(Status::Empty)),
        phones: vec![],
        ..ViewRequest::default()
    };

    assert!(view_request.into_guaranteed().is_none());
}

#[test]
fn invalid_assigned_for() {
    let view_request = ViewRequest {
        order_id: Some(Ok(1)),
        internal_order_id: Some(Ok(1)),
        order_type: Some(Ok(OrderType::NetBroken)),
        creation_date: Some(Ok(now())),
        internal_status: Some(Ok(InternalStatus::Assigned)),
        address: Some(Address {
            city:      "Запоріжжя".to_string(),
            street:    "Зернова".to_string(),
            building:  "██".to_string(),
            apartment: "██".to_string(),
        }),
        client: Some("██".to_string()),
        pa: Some("██".to_string()),
        time_constrains: Some(Ok(TimeConstrains {
            from: Time { hour: 0, minute: 0, second: 0 },
            to:   Time { hour: 0, minute: 0, second: 0 },
        })),
        status: Some(Ok(Status::Empty)),
        phones: vec!["+38067███████".to_string()],
        assigned_for: None,
        ..ViewRequest::default()
    };

    assert!(view_request.into_guaranteed().is_none());

    let view_request = ViewRequest {
        order_id: Some(Ok(1)),
        internal_order_id: Some(Ok(1)),
        order_type: Some(Ok(OrderType::NetBroken)),
        creation_date: Some(Ok(now())),
        internal_status: Some(Ok(InternalStatus::Assigned)),
        address: Some(Address {
            city:      "Запоріжжя".to_string(),
            street:    "Зернова".to_string(),
            building:  "██".to_string(),
            apartment: "██".to_string(),
        }),
        client: Some("██".to_string()),
        pa: Some("██".to_string()),
        time_constrains: Some(Ok(TimeConstrains {
            from: Time { hour: 0, minute: 0, second: 0 },
            to:   Time { hour: 0, minute: 0, second: 0 },
        })),
        status: Some(Ok(Status::Empty)),
        phones: vec!["+38067███████".to_string()],
        assigned_for: Some(Err(SerializableParseErrorKind::Invalid)),
        ..ViewRequest::default()
    };

    assert!(view_request.into_guaranteed().is_none());
}

#[test]
fn invalid_comments() {
    let view_request = ViewRequest {
        order_id: Some(Ok(1)),
        internal_order_id: Some(Ok(1)),
        order_type: Some(Ok(OrderType::NetBroken)),
        creation_date: Some(Ok(now())),
        internal_status: Some(Ok(InternalStatus::Assigned)),
        address: Some(Address {
            city:      "Запоріжжя".to_string(),
            street:    "Зернова".to_string(),
            building:  "██".to_string(),
            apartment: "██".to_string(),
        }),
        client: Some("██".to_string()),
        pa: Some("██".to_string()),
        time_constrains: Some(Ok(TimeConstrains {
            from: Time { hour: 0, minute: 0, second: 0 },
            to:   Time { hour: 0, minute: 0, second: 0 },
        })),
        status: Some(Ok(Status::Empty)),
        phones: vec!["+38067███████".to_string()],
        assigned_for: Some(Ok(today())),
        comments: vec![Err(FullCommentError::DateTimeShouldBePresent)],
        ..ViewRequest::default()
    };

    assert!(view_request.into_guaranteed().is_none());

    let view_request = ViewRequest {
        order_id: Some(Ok(1)),
        internal_order_id: Some(Ok(1)),
        order_type: Some(Ok(OrderType::NetBroken)),
        creation_date: Some(Ok(now())),
        internal_status: Some(Ok(InternalStatus::Assigned)),
        address: Some(Address {
            city:      "Запоріжжя".to_string(),
            street:    "Зернова".to_string(),
            building:  "██".to_string(),
            apartment: "██".to_string(),
        }),
        client: Some("██".to_string()),
        pa: Some("██".to_string()),
        time_constrains: Some(Ok(TimeConstrains {
            from: Time { hour: 0, minute: 0, second: 0 },
            to:   Time { hour: 0, minute: 0, second: 0 },
        })),
        status: Some(Ok(Status::Empty)),
        phones: vec!["+38067███████".to_string()],
        assigned_for: Some(Ok(today())),
        comments: vec![
            Ok(FullComment {
                text:            None,
                user:            "██".to_string(),
                datetime:        now(),
                internal_status: InternalStatus::Assigned,
            }),
            Err(FullCommentError::DateTimeShouldBePresent),
        ],
        ..ViewRequest::default()
    };

    assert!(view_request.into_guaranteed().is_none());
}




#[test]
fn schedule_invalid_order_id() {
    let order = Order {
        order_id: None,
        ..Order::default()
    };
    assert!(order.into_guaranteed().is_none());

    let order = Order {
        order_id: Some(Err(SerializableIntErrorKind::Zero)),
        ..Order::default()
    };
    assert!(order.into_guaranteed().is_none());
}

#[test]
fn schedule_invalid_internal_order_id() {
    let order = Order {
        order_id: Some(Ok(0)),
        internal_order_id: None,
        ..Order::default()
    };
    assert!(order.into_guaranteed().is_none());

    let order = Order {
        order_id: Some(Ok(0)),
        internal_order_id: Some(Err(SerializableIntErrorKind::Zero)),
        ..Order::default()
    };
    assert!(order.into_guaranteed().is_none());
}

#[test]
fn schedule_invalid_order_index() {
    let order = Order {
        order_id: Some(Ok(0)),
        internal_order_id: Some(Ok(0)),
        order_index: None,
        ..Order::default()
    };
    assert!(order.into_guaranteed().is_none());

    let order = Order {
        order_id: Some(Ok(0)),
        internal_order_id: Some(Ok(0)),
        order_index: Some(Err(SerializableIntErrorKind::Zero)),
        ..Order::default()
    };
    assert!(order.into_guaranteed().is_none());
}

#[test]
fn schedule_invalid_time_constrains() {
    let order = Order {
        order_id: Some(Ok(0)),
        internal_order_id: Some(Ok(0)),
        order_index: Some(Ok(0)),
        time_constrains: None,
        ..Order::default()
    };
    assert!(order.into_guaranteed().is_none());

    let order = Order {
        order_id: Some(Ok(0)),
        internal_order_id: Some(Ok(0)),
        order_index: Some(Ok(0)),
        time_constrains: Some(Err(TimeConstrainsError::NoMatch)),
        ..Order::default()
    };
    assert!(order.into_guaranteed().is_none());
}

#[test]
fn schedule_invalid_phones() {
    let order = Order {
        order_id: Some(Ok(0)),
        internal_order_id: Some(Ok(0)),
        order_index: Some(Ok(0)),
        time_constrains: Some(Ok(TimeConstrains {
            from: Time { hour: 0, minute: 0, second: 0 },
            to:   Time { hour: 0, minute: 0, second: 0 },
        })),
        phones: None,
        ..Order::default()
    };
    assert!(order.into_guaranteed().is_none());
}

#[test]
fn schedule_invalid_pa() {
    let order = Order {
        order_id: Some(Ok(0)),
        internal_order_id: Some(Ok(0)),
        order_index: Some(Ok(0)),
        time_constrains: Some(Ok(TimeConstrains {
            from: Time { hour: 0, minute: 0, second: 0 },
            to:   Time { hour: 0, minute: 0, second: 0 },
        })),
        phones: Some(vec!["+38067███████".to_string()]),
        pa: None,
        ..Order::default()
    };
    assert!(order.into_guaranteed().is_none());
}

#[test]
fn schedule_invalid_address() {
    let order = Order {
        order_id: Some(Ok(0)),
        internal_order_id: Some(Ok(0)),
        order_index: Some(Ok(0)),
        time_constrains: Some(Ok(TimeConstrains {
            from: Time { hour: 0, minute: 0, second: 0 },
            to:   Time { hour: 0, minute: 0, second: 0 },
        })),
        phones: Some(vec!["+38067███████".to_string()]),
        pa: Some("00██████62".to_string()),
        address: None,
        ..Order::default()
    };
    assert!(order.into_guaranteed().is_none());

    let order = Order {
        order_id: Some(Ok(0)),
        internal_order_id: Some(Ok(0)),
        order_index: Some(Ok(0)),
        time_constrains: Some(Ok(TimeConstrains {
            from: Time { hour: 0, minute: 0, second: 0 },
            to:   Time { hour: 0, minute: 0, second: 0 },
        })),
        phones: Some(vec!["+38067███████".to_string()]),
        pa: Some("00██████62".to_string()),
        address: Some(Err(AddressError::NoMatch)),
        ..Order::default()
    };
    assert!(order.into_guaranteed().is_none());
}

#[test]
fn schedule_invalid_mdu() {
    let order = Order {
        order_id: Some(Ok(0)),
        internal_order_id: Some(Ok(0)),
        order_index: Some(Ok(0)),
        time_constrains: Some(Ok(TimeConstrains {
            from: Time { hour: 0, minute: 0, second: 0 },
            to:   Time { hour: 0, minute: 0, second: 0 },
        })),
        phones: Some(vec!["+38067███████".to_string()]),
        pa: Some("00██████62".to_string()),
        address: Some(Ok(Address {
            city:      "Запоріжжя".to_string(),
            street:    "Зернова".to_string(),
            building:  "██".to_string(),
            apartment: "██".to_string(),
        })),
        mdu: None,
        ..Order::default()
    };
    assert!(order.into_guaranteed().is_none());

    let order = Order {
        order_id: Some(Ok(0)),
        internal_order_id: Some(Ok(0)),
        order_index: Some(Ok(0)),
        time_constrains: Some(Ok(TimeConstrains {
            from: Time { hour: 0, minute: 0, second: 0 },
            to:   Time { hour: 0, minute: 0, second: 0 },
        })),
        phones: Some(vec!["+38067███████".to_string()]),
        pa: Some("00██████62".to_string()),
        address: Some(Ok(Address {
            city:      "Запоріжжя".to_string(),
            street:    "Зернова".to_string(),
            building:  "██".to_string(),
            apartment: "██".to_string(),
        })),
        mdu: Some(Err(MDUError::NoMatch)),
        ..Order::default()
    };
    assert!(order.into_guaranteed().is_none());
}

#[test]
fn schedule_invalid_status() {
    let order = Order {
        order_id: Some(Ok(0)),
        internal_order_id: Some(Ok(0)),
        order_index: Some(Ok(0)),
        time_constrains: Some(Ok(TimeConstrains {
            from: Time { hour: 0, minute: 0, second: 0 },
            to:   Time { hour: 0, minute: 0, second: 0 },
        })),
        phones: Some(vec!["+38067███████".to_string()]),
        pa: Some("00██████62".to_string()),
        address: Some(Ok(Address {
            city:      "Запоріжжя".to_string(),
            street:    "Зернова".to_string(),
            building:  "██".to_string(),
            apartment: "██".to_string(),
        })),
        mdu: Some(Ok(MDU {
            city_code: "ZAP".to_string(),
            number:    29,
        })),
        status: None,
        ..Order::default()
    };
    assert!(order.into_guaranteed().is_none());

    let order = Order {
        order_id: Some(Ok(0)),
        internal_order_id: Some(Ok(0)),
        order_index: Some(Ok(0)),
        time_constrains: Some(Ok(TimeConstrains {
            from: Time { hour: 0, minute: 0, second: 0 },
            to:   Time { hour: 0, minute: 0, second: 0 },
        })),
        phones: Some(vec!["+38067███████".to_string()]),
        pa: Some("00██████62".to_string()),
        address: Some(Ok(Address {
            city:      "Запоріжжя".to_string(),
            street:    "Зернова".to_string(),
            building:  "██".to_string(),
            apartment: "██".to_string(),
        })),
        mdu: Some(Ok(MDU {
            city_code: "ZAP".to_string(),
            number:    29,
        })),
        status: Some(Err(StatusError::InvalidStatus("".to_string()))),
        ..Order::default()
    };
    assert!(order.into_guaranteed().is_none());
}

#[test]
fn schedule_invalid_order_type() {
    let order = Order {
        order_id: Some(Ok(0)),
        internal_order_id: Some(Ok(0)),
        order_index: Some(Ok(0)),
        time_constrains: Some(Ok(TimeConstrains {
            from: Time { hour: 0, minute: 0, second: 0 },
            to:   Time { hour: 0, minute: 0, second: 0 },
        })),
        phones: Some(vec!["+38067███████".to_string()]),
        pa: Some("00██████62".to_string()),
        address: Some(Ok(Address {
            city:      "Запоріжжя".to_string(),
            street:    "Зернова".to_string(),
            building:  "██".to_string(),
            apartment: "██".to_string(),
        })),
        mdu: Some(Ok(MDU {
            city_code: "ZAP".to_string(),
            number:    29,
        })),
        status: Some(Ok(Status::Assigned)),
        order_type: None,
        ..Order::default()
    };
    assert!(order.into_guaranteed().is_none());

    let order = Order {
        order_id: Some(Ok(0)),
        internal_order_id: Some(Ok(0)),
        order_index: Some(Ok(0)),
        time_constrains: Some(Ok(TimeConstrains {
            from: Time { hour: 0, minute: 0, second: 0 },
            to:   Time { hour: 0, minute: 0, second: 0 },
        })),
        phones: Some(vec!["+38067███████".to_string()]),
        pa: Some("00██████62".to_string()),
        address: Some(Ok(Address {
            city:      "Запоріжжя".to_string(),
            street:    "Зернова".to_string(),
            building:  "██".to_string(),
            apartment: "██".to_string(),
        })),
        mdu: Some(Ok(MDU {
            city_code: "ZAP".to_string(),
            number:    29,
        })),
        status: Some(Ok(Status::Assigned)),
        order_type: Some(Err(OrderTypeError::InvalidOrderType("".to_string()))),
        ..Order::default()
    };
    assert!(order.into_guaranteed().is_none());
}

#[test]
fn schedule_invalid_client() {
    let order = Order {
        order_id: Some(Ok(0)),
        internal_order_id: Some(Ok(0)),
        order_index: Some(Ok(0)),
        time_constrains: Some(Ok(TimeConstrains {
            from: Time { hour: 0, minute: 0, second: 0 },
            to:   Time { hour: 0, minute: 0, second: 0 },
        })),
        phones: Some(vec!["+38067███████".to_string()]),
        pa: Some("00██████62".to_string()),
        address: Some(Ok(Address {
            city:      "Запоріжжя".to_string(),
            street:    "Зернова".to_string(),
            building:  "██".to_string(),
            apartment: "██".to_string(),
        })),
        mdu: Some(Ok(MDU {
            city_code: "ZAP".to_string(),
            number:    29,
        })),
        status: Some(Ok(Status::Assigned)),
        order_type: Some(Ok(OrderType::NetBroken)),
        client: None,
        ..Order::default()
    };
    assert!(order.into_guaranteed().is_none());
}

#[test]
fn schedule_invalid_internal_status() {
    let order = Order {
        order_id: Some(Ok(0)),
        internal_order_id: Some(Ok(0)),
        order_index: Some(Ok(0)),
        time_constrains: Some(Ok(TimeConstrains {
            from: Time { hour: 0, minute: 0, second: 0 },
            to:   Time { hour: 0, minute: 0, second: 0 },
        })),
        phones: Some(vec!["+38067███████".to_string()]),
        pa: Some("00██████62".to_string()),
        address: Some(Ok(Address {
            city:      "Запоріжжя".to_string(),
            street:    "Зернова".to_string(),
            building:  "██".to_string(),
            apartment: "██".to_string(),
        })),
        mdu: Some(Ok(MDU {
            city_code: "ZAP".to_string(),
            number:    29,
        })),
        status: Some(Ok(Status::Assigned)),
        order_type: Some(Ok(OrderType::NetBroken)),
        client: Some("".to_string()),
        internal_status: None
    };
    assert!(order.into_guaranteed().is_none());

    let order = Order {
        order_id: Some(Ok(0)),
        internal_order_id: Some(Ok(0)),
        order_index: Some(Ok(0)),
        time_constrains: Some(Ok(TimeConstrains {
            from: Time { hour: 0, minute: 0, second: 0 },
            to:   Time { hour: 0, minute: 0, second: 0 },
        })),
        phones: Some(vec!["+38067███████".to_string()]),
        pa: Some("00██████62".to_string()),
        address: Some(Ok(Address {
            city:      "Запоріжжя".to_string(),
            street:    "Зернова".to_string(),
            building:  "██".to_string(),
            apartment: "██".to_string(),
        })),
        mdu: Some(Ok(MDU {
            city_code: "ZAP".to_string(),
            number:    29,
        })),
        status: Some(Ok(Status::Assigned)),
        order_type: Some(Ok(OrderType::NetBroken)),
        client: Some("".to_string()),
        internal_status: Some(Err(InternalStatusError::InvalidStrStatus("".to_string())))
    };
    assert!(order.into_guaranteed().is_none());
}