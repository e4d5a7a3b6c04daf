//! The form payloads that the portal expects.

use vstd::prelude::*;

verus! {

/// The form that logs in.
pub struct LoginPayload<'a> {
    pub action: &'a str,
    pub login: &'a str,
    pub password: &'a str,
    pub remember: u8,
    pub olduri: &'a str,
    pub token: &'a str,
}

/// The form that asks for a data page.
pub struct Payload<'a> {
    pub action: &'a str,
    pub city: &'a str,
    pub data: &'a str,
}

impl<'a> LoginPayload<'a> {
    /// The login form for a login and the hash of its password.
    pub fn new(login: &'a str, password_hash: &'a str) -> (r: LoginPayload<'a>)
        ensures
            r.login@ == login@,
            r.password@ == password_hash@,
            r.action@ == "user/login"@,
            r.remember == 0,
            r.olduri@.len() == 0,
            r.token@.len() == 0,
    {
        proof {
            reveal_strlit("");
        }
        LoginPayload { action: "user/login", login, password: password_hash, remember: 0, olduri: "", token: "" }
    }
}

impl<'a> Payload<'a> {
    /// The form that asks for the work schedule of a day, written
    /// `YYYY-MM-DD`.
    pub fn work_schedule(date: &'a str) -> (r: Payload<'a>)
        ensures
            r.action@ == "workschedule1"@,
            r.city@.len() == 0,
            r.data@ == date@,
    {
        proof {
            reveal_strlit("");
        }
        Payload { action: "workschedule1", city: "", data: date }
    }
}

} // verus!
