use dili::ActionKind;
use dili::ids::uid_to_cid;
use dili::ids::ChatId;
use dili::ids::UserId;
use dili::Status;
use dili::utils::dumb_intersection;

#[test]
fn intersection_keeps_shared_elements_in_order() {
    let aa = [ActionKind::Publish, ActionKind::Cancel, ActionKind::ConfirmDelivery, ActionKind::Delete];
    let bb = [ActionKind::AssignToMe, ActionKind::Cancel];
    assert_eq!(vec![ActionKind::Cancel], dumb_intersection(&aa, &bb));
    assert_eq!(Vec::<ActionKind>::new(), dumb_intersection(&aa, &[]));
    assert_eq!(
        vec![ActionKind::Publish, ActionKind::Delete],
        dumb_intersection(&aa, &[ActionKind::Delete, ActionKind::Publish])
    );
}

#[test]
fn uid_to_cid_keeps_the_number() {
    assert_eq!(ChatId(42), uid_to_cid(UserId(42)));
}

#[test]
fn status_names() {
    assert_eq!("Not published", Status::Unpublished.human_name());
    assert_eq!("Published", Status::Published.human_name());
    assert_eq!("Assigned", Status::Assigned.human_name());
    assert_eq!("Marked as delivered", Status::MarkedAsDelivered.human_name());
    assert_eq!("Delivered", Status::DeliveryConfirmed.human_name());
}
