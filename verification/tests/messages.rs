use chrono::NaiveDateTime;
use digreg_api::routes::message_route::{Message, MessageSubmission};
use digreg_api::routes::notification_route::{mark_all_read_route, Notification};

fn submission(kind: &str, downloadable: bool, file: Option<&str>) -> MessageSubmission {
    MessageSubmission {
        kind: kind.to_owned(),
        is_downloadable: downloadable,
        id: Some(12),
        message_id: Some(88),
        original_name: Some("einladung.pdf".to_owned()),
        file: file.map(str::to_owned),
    }
}

#[test]
fn a_submission_is_only_a_downloadable_file_when_every_field_is_present() {
    let mut submission = MessageSubmission {
        kind: "file".to_owned(),
        is_downloadable: true,
        id: Some(1),
        message_id: Some(2),
        original_name: Some("a.pdf".to_owned()),
        file: Some("stored.pdf".to_owned()),
    };
    assert!(submission.is_downloadable_file());

    submission.is_downloadable = false;
    assert!(!submission.is_downloadable_file());

    submission.is_downloadable = true;
    submission.kind = "text".to_owned();
    assert!(!submission.is_downloadable_file());

    submission.kind = "file".to_owned();
    submission.file = None;
    assert!(!submission.is_downloadable_file());
}

fn time(text: &str) -> NaiveDateTime {
    text.parse().unwrap()
}

#[test]
fn deserializes_a_message_with_attachment() {
    let message = Message {
        id: 88,
        subject: "Elternsprechtag".to_owned(),
        text: "Der Elternsprechtag findet am ... statt.".to_owned(),
        time_sent: time("2022-10-05T09:00:00"),
        time_read: None,
        recipient_string: "Alle Schüler der 8K".to_owned(),
        from_name: "Sekretariat".to_owned(),
        submissions: vec![
            submission("file", true, Some("abcd1234.pdf")),
            submission("text", false, None),
            submission("file", true, Some("second.pdf")),
        ],
    };
    assert!(message.is_unread());
    let files = message.downloadable_files();
    assert_eq!(files.len(), 2);
    assert_eq!(files[0].file.as_deref(), Some("abcd1234.pdf"));
    assert_eq!(files[1].file.as_deref(), Some("second.pdf"));
    assert_eq!(message.mark_read_route().message_id, 88);

    let read = Message { time_read: Some(time("2022-10-06T10:00:00")), ..message };
    assert!(!read.is_unread());
}

fn notification(id: i64, kind: &str, object_id: Option<i64>) -> Notification {
    Notification {
        id,
        title: "Neue Hausaufgabe".to_owned(),
        sub_title: "Italienisch".to_owned(),
        kind: kind.to_owned(),
        object_id,
        time_sent: time("2022-10-19T08:00:00"),
    }
}

#[test]
fn deserializes_notifications_and_resolves_message_id() {
    let notifications = vec![notification(501, "message", Some(1234)), notification(502, "grade", Some(9))];
    assert_eq!(notifications.len(), 2);
    assert_eq!(notifications[0].sub_title, "Italienisch");
    assert_eq!(notifications[0].message_id(), Some(1234));
    assert_eq!(notifications[1].message_id(), None);
    assert_eq!(notification(503, "message", None).message_id(), None);
    assert_eq!(notifications[0].mark_read_route().id, Some(501));
    assert_eq!(mark_all_read_route().id, None);
}
