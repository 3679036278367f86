use dili::Action;
use dili::ActionKind;
use dili::ids::OrderId;
use dili::OrderAction;

const ALL_KINDS: [ActionKind; 7] = [
    ActionKind::Publish,
    ActionKind::Cancel,
    ActionKind::AssignToMe,
    ActionKind::Unassign,
    ActionKind::MarkAsDelivered,
    ActionKind::ConfirmDelivery,
    ActionKind::Delete,
];

#[test]
fn token_encoding() {
    let a = Action { order_id: OrderId(42), kind: ActionKind::Publish };
    assert_eq!("oa publish 42", a.kbd_button_data());
    let b = Action { order_id: OrderId(0), kind: ActionKind::MarkAsDelivered };
    assert_eq!("oa mark_as_delivered 0", b.kbd_button_data());
}

#[test]
fn token_roundtrips() {
    for kind in ALL_KINDS {
        for oid in [0u64, 1, 42, 1000000007, u64::MAX] {
            let a = Action { order_id: OrderId(oid), kind };
            let parsed = Action::try_parse(&a.kbd_button_data()).expect("round trip");
            assert_eq!(a.order_id, parsed.order_id);
            assert_eq!(a.kind, parsed.kind);
        }
    }
}

#[test]
fn token_rejections() {
    // wrong prefix
    assert!(Action::try_parse("xx publish 42").is_none());
    // unknown action id
    assert!(Action::try_parse("oa frobnicate 42").is_none());
    // malformed or overflowing numeric id
    assert!(Action::try_parse("oa publish 4a2").is_none());
    assert!(Action::try_parse("oa publish ").is_none());
    assert!(Action::try_parse("oa publish 18446744073709551616").is_none());
    // too few or too many fields
    assert!(Action::try_parse("oa").is_none());
    assert!(Action::try_parse("oa publish").is_none());
    assert!(Action::try_parse("oa publish 42 extra").is_none());
    assert!(Action::try_parse("oa publish 42 ").is_none());
    assert!(Action::try_parse(" oa publish 42").is_none());
    assert!(Action::try_parse("").is_none());
    // boundary: the largest representable order id still parses
    assert!(Action::try_parse("oa publish 18446744073709551615").is_some());
}

#[test]
fn action_kind_ids_roundtrip() {
    for kind in ALL_KINDS {
        assert_eq!(Some(kind), ActionKind::maybe_from_id(kind.id()));
    }
    assert_eq!(None, ActionKind::maybe_from_id("publish "));
    assert_eq!(None, ActionKind::maybe_from_id("nonsense"));
}

#[test]
fn action_human_names() {
    assert_eq!("Take this order", ActionKind::AssignToMe.human_name());
    let a = Action { order_id: OrderId(3), kind: ActionKind::Delete };
    assert_eq!("Delete this order", a.human_name());
}

#[test]
fn order_action_ids_roundtrip() {
    let all = [
        OrderAction::Publish,
        OrderAction::Cancel,
        OrderAction::AssignToMe,
        OrderAction::Unassign,
        OrderAction::MarkAsDelivered,
        OrderAction::ConfirmDelivery,
        OrderAction::Delete,
    ];
    for a in all {
        assert_eq!(Some(a.clone()), OrderAction::maybe_from_id(a.id()));
    }
    assert_eq!("Confirm that I've received the items", OrderAction::ConfirmDelivery.human_name());
    assert_eq!(None, OrderAction::maybe_from_id("delet"));
}
