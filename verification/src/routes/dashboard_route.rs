//! `POST api/student/dashboard/...`: the dashboard of homework, grades and
//! reminders, and the reminder mutations.

use crate::routes::{FetchError, FetchResult, PackedFetchResult, Route};
use crate::utils::http_util::{is_success, only_200};
use vstd::prelude::*;

verus! {

/// `POST api/student/dashboard/dashboard`: the days before or after today.
pub struct DashboardRoute {
    pub view_future: bool,
}

impl Route for DashboardRoute {
    fn get_route() -> (r: &'static str)
        ensures
            r@ == "api/student/dashboard/dashboard"@,
    {
        "api/student/dashboard/dashboard"
    }
}

/// `POST api/student/dashboard/save_reminder`: create a user-authored
/// reminder. The response is the freshly created dashboard item.
pub struct SaveReminderRoute {
    /// Day number counted from 1 January of year 1 (that day being `1`).
    pub date: i32,
    pub text: String,
}

impl Route for SaveReminderRoute {
    fn get_route() -> (r: &'static str)
        ensures
            r@ == "api/student/dashboard/save_reminder"@,
    {
        "api/student/dashboard/save_reminder"
    }
}

/// `POST api/student/dashboard/delete_reminder`: delete a user-authored
/// reminder by id.
pub struct DeleteReminderRoute {
    pub id: i64,
}

impl Route for DeleteReminderRoute {
    fn get_route() -> (r: &'static str)
        ensures
            r@ == "api/student/dashboard/delete_reminder"@,
    {
        "api/student/dashboard/delete_reminder"
    }
}

/// `POST api/student/dashboard/toggle_reminder`: set the done-state of a
/// checkable dashboard item.
pub struct ToggleReminderRoute {
    pub id: i64,
    /// The item's `type` string.
    pub kind: String,
    pub value: bool,
}

impl Route for ToggleReminderRoute {
    fn get_route() -> (r: &'static str)
        ensures
            r@ == "api/student/dashboard/toggle_reminder"@,
    {
        "api/student/dashboard/toggle_reminder"
    }
}

/// `{ "success": bool }`, returned by the reminder mutations; anything other
/// than `success: true` is a failed operation.
#[derive(Debug)]
pub struct SuccessResponse {
    pub success: bool,
}

/// The days of the dashboard, one per date in the requested range.
#[derive(Debug)]
pub struct DashboardResponse(pub Vec<DashboardDate>);

#[derive(Debug)]
pub struct DashboardDate {
    pub date: String,
    pub items: Vec<DashboardItem>,
}

/// A dashboard entry. School-authored items carry the full field set;
/// user-created reminders only `id`, `type`, `title`, `subtitle`, `warning`,
/// `checkable`, `checked` and `deletable`, so every school-only field is
/// optional or defaulted.
#[derive(Debug)]
pub struct DashboardItem {
    pub id: i64,
    pub category: Option<i64>,
    pub kind: String,
    pub title: String,
    pub subtitle: String,
    /// Usually the subject name; absent on some items.
    pub label: Option<String>,
    pub warning: bool,
    pub checkable: bool,
    pub checked: bool,
    pub online: i32,
    pub submission: Option<serde_json::Value>,
    /// Only user-created reminders are deletable (sent as `deleteable`,
    /// absent on school-authored items).
    pub deletable: bool,
    pub deadline: Option<String>,
    pub deadline_formatted: Option<String>,
    pub deadline_start: Option<serde_json::Value>,
    pub deadline_start_formatted: Option<String>,
    pub submission_allowed: i32,
    pub submission_resigned: bool,
    pub submission_is_now_in_overtime: bool,
    /// Small category code, not a flag. `0` is the client's "warning" signal.
    pub homework: i64,
    pub done: Option<serde_json::Value>,
    pub grade_group_submissions: Option<serde_json::Value>,
}

/// The outcome of a reminder mutation: success when the response passed
/// [`only_200`] and reports `success: true`.
pub open spec fn mutation_succeeded<H>(result: PackedFetchResult<H, SuccessResponse>) -> bool {
    result matches Ok((status, _, body)) && is_success(status) && body.success
}

/// The error of a reminder mutation that did not succeed.
pub open spec fn mutation_error<H>(result: PackedFetchResult<H, SuccessResponse>, e: FetchError) -> bool {
    match result {
        Err(f) => e == f,
        Ok((status, _, _)) => if is_success(status) {
            e == FetchError::Unsuccessful
        } else {
            e == FetchError::StatusError(status)
        },
    }
}

impl DashboardItem {
    pub fn is_deletable(&self) -> (r: bool)
        ensures
            r == self.deletable,
    {
        self.deletable
    }

    /// The request that sets this item's done-state on the server.
    pub fn toggle_route(&self, is_done: bool) -> (r: ToggleReminderRoute)
        ensures
            r.id == self.id,
            r.kind@ == self.kind@,
            r.value == is_done,
    {
        ToggleReminderRoute { id: self.id, kind: self.kind.clone(), value: is_done }
    }

    /// The outcome of setting the done-state; the local `checked` field is
    /// left untouched.
    pub fn set_is_done_outcome<H>(result: PackedFetchResult<H, SuccessResponse>) -> (r: FetchResult<()>)
        ensures
            r is Ok <==> mutation_succeeded(result),
            r matches Err(e) ==> mutation_error(result, e),
    {
        let (_, response) = only_200(result)?;
        if response.success {
            Ok(())
        } else {
            Err(FetchError::Unsuccessful)
        }
    }

    /// The request that deletes this user-created reminder. Only deletable
    /// items can be deleted.
    pub fn delete_route(&self) -> (r: DeleteReminderRoute)
        requires
            self.deletable,
        ensures
            r.id == self.id,
    {
        DeleteReminderRoute { id: self.id }
    }

    /// The outcome of deleting this reminder: on failure the item is handed
    /// back next to the error, so the caller can restore it.
    pub fn remove_outcome<H>(self, result: PackedFetchResult<H, SuccessResponse>) -> (r: Result<(), (Self, FetchError)>)
        ensures
            r is Ok <==> mutation_succeeded(result),
            r matches Err((item, e)) ==> item == self && mutation_error(result, e),
    {
        match only_200(result) {
            Ok((_, response)) => {
                if response.success {
                    Ok(())
                } else {
                    Err((self, FetchError::Unsuccessful))
                }
            },
            Err(err) => Err((self, err)),
        }
    }
}

} // verus!
