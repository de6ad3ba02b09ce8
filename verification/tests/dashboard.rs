use digreg_api::routes::dashboard_route::{DashboardItem, SuccessResponse};
use digreg_api::routes::FetchError;

fn reminder(deletable: bool) -> DashboardItem {
    DashboardItem {
        id: 184,
        category: None,
        kind: "homework".to_owned(),
        title: "Erinnerung".to_owned(),
        subtitle: "test".to_owned(),
        label: None,
        warning: false,
        checkable: true,
        checked: false,
        online: 0,
        submission: None,
        deletable,
        deadline: None,
        deadline_formatted: None,
        deadline_start: None,
        deadline_start_formatted: None,
        submission_allowed: 0,
        submission_resigned: false,
        submission_is_now_in_overtime: false,
        homework: 0,
        done: None,
        grade_group_submissions: None,
    }
}

#[test]
fn the_toggle_request_names_the_item_and_its_type() {
    let route = reminder(true).toggle_route(true);
    assert_eq!(route.id, 184);
    assert_eq!(route.kind, "homework");
    assert!(route.value);
    assert_eq!(reminder(true).delete_route().id, 184);
}

#[test]
fn setting_done_succeeds_only_on_a_reported_success() {
    let ok = DashboardItem::set_is_done_outcome(Ok((200, (), SuccessResponse { success: true })));
    assert!(ok.is_ok());
    let refused = DashboardItem::set_is_done_outcome(Ok((200, (), SuccessResponse { success: false })));
    assert!(matches!(refused, Err(FetchError::Unsuccessful)));
    let status = DashboardItem::set_is_done_outcome(Ok((500, (), SuccessResponse { success: true })));
    assert!(matches!(status, Err(FetchError::StatusError(500))));
}

#[test]
fn a_failed_removal_hands_the_item_back() {
    assert!(reminder(true).remove_outcome(Ok((200, (), SuccessResponse { success: true }))).is_ok());
    let (item, error) = reminder(true)
        .remove_outcome(Ok((200, (), SuccessResponse { success: false })))
        .unwrap_err();
    assert_eq!(item.id, 184);
    assert!(matches!(error, FetchError::Unsuccessful));
    let (item, error) = reminder(true).remove_outcome::<()>(Err(FetchError::Logout)).unwrap_err();
    assert!(item.is_deletable());
    assert!(matches!(error, FetchError::Logout));
    assert!(!reminder(false).is_deletable());
}
