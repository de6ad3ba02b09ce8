//! `POST api/notification/...`: the user's unread notifications.

use crate::routes::Route;
use crate::utils::text::same_text;
use vstd::prelude::*;

verus! {

/// `POST api/notification/unread`, with an empty body.
pub struct UnreadNotificationsRoute {}

impl Route for UnreadNotificationsRoute {
    fn get_route() -> (r: &'static str)
        ensures
            r@ == "api/notification/unread"@,
    {
        "api/notification/unread"
    }
}

/// `POST api/notification/markAsRead`: mark one notification read (`id` set)
/// or all of them (`id` left out of the body). The response is not used.
pub struct MarkNotificationsReadRoute {
    pub id: Option<i64>,
}

impl Route for MarkNotificationsReadRoute {
    fn get_route() -> (r: &'static str)
        ensures
            r@ == "api/notification/markAsRead"@,
    {
        "api/notification/markAsRead"
    }
}

/// The user's unread notifications.
#[derive(Debug)]
pub struct UnreadNotificationsResponse(pub Vec<Notification>);

#[derive(Debug)]
pub struct Notification {
    pub id: i64,
    pub title: String,
    /// Sent as `subTitle`.
    pub sub_title: String,
    /// The notification's `type`; only `"message"` is treated specially.
    pub kind: String,
    /// Id of the object this notification points at; its meaning depends on
    /// `kind`.
    pub object_id: Option<i64>,
    pub time_sent: chrono::NaiveDateTime,
}

impl Notification {
    /// When this notification is about a message, that message's id.
    pub fn message_id(&self) -> (r: Option<i64>)
        ensures
            r == (if self.kind@ == "message"@ {
                self.object_id
            } else {
                None
            }),
    {
        if same_text(self.kind.as_str(), "message") {
            self.object_id
        } else {
            None
        }
    }

    /// The request that marks just this notification read.
    pub fn mark_read_route(&self) -> (r: MarkNotificationsReadRoute)
        ensures
            r.id == Some(self.id),
    {
        MarkNotificationsReadRoute { id: Some(self.id) }
    }
}

/// The request that marks every notification read.
pub fn mark_all_read_route() -> (r: MarkNotificationsReadRoute)
    ensures
        r.id is None,
{
    MarkNotificationsReadRoute { id: None }
}

} // verus!
