use dili::Action;
use dili::ActionError;
use dili::ActionKind;
use dili::ids::OrderId;
use dili::ids::UserId;
use dili::Order;
use dili::Status;
use dili::User;

fn mk_user(id: u64, name: &str) -> User {
    User {
        id: UserId(id),
        username: Some(name.to_lowercase()),
        first_name: name.to_string(),
        last_name: Some("test".to_string()),
    }
}

fn mk_order(oid: u64, customer: User) -> Order {
    Order {
        id: Some(OrderId(oid)),
        name: "ordername".to_string(),
        price_in_drams: 0,
        markup_in_drams: 0,
        description_text: "order description".to_string(),
        created_at: chrono::Utc::now().timestamp(),
        canceled_at: None,
        delivered: None,
        published_at: None,
        customer,
        assigned: None,
        delivery_confirmed_at: None,
    }
}

#[test]
fn test_order_status_changes() {
    let publisher = User {
        id: UserId(1),
        username: Some("publisher".to_string()),
        first_name: "Publisher".to_string(),
        last_name: Some("test".to_string()),
    };
    let assignee = User {
        id: UserId(2),
        username: Some("assignee".to_string()),
        first_name: "Assignee".to_string(),
        last_name: Some("test".to_string()),
    };

    let oid = OrderId(1);

    let customer = publisher.clone();
    let order = mk_order(oid.0, customer);

    let act = |order: &mut Order, action: ActionKind, actor: User, expected_status: Status| {
        order.perform_action(actor, &Action { kind: action, order_id: oid }).unwrap();
        assert_eq!(expected_status, order.status());
    };

    // happy path
    {
        let mut order = order.clone();

        act(&mut order, ActionKind::Publish, publisher.clone(), Status::Published);
        act(&mut order, ActionKind::AssignToMe, assignee.clone(), Status::Assigned);
        act(&mut order, ActionKind::MarkAsDelivered, assignee.clone(), Status::MarkedAsDelivered);
        act(&mut order, ActionKind::ConfirmDelivery, publisher.clone(), Status::DeliveryConfirmed);
    }

    // happy path, but confirmed without marking as delivered
    {
        let mut order = order;

        act(&mut order, ActionKind::Publish, publisher.clone(), Status::Published);
        act(&mut order, ActionKind::AssignToMe, assignee, Status::Assigned);
        act(&mut order, ActionKind::ConfirmDelivery, publisher, Status::DeliveryConfirmed);
    }
}

#[test]
fn cancel_and_republish() {
    let owner = mk_user(1, "Owner");
    let mut order = mk_order(1, owner.clone());
    let act = |k: ActionKind| Action { kind: k, order_id: OrderId(1) };

    order.perform_action(owner.clone(), &act(ActionKind::Publish)).unwrap();
    assert_eq!(Status::Published, order.status());
    let prev = order.perform_action(owner.clone(), &act(ActionKind::Cancel)).unwrap();
    assert_eq!(Status::Published, prev);
    assert_eq!(Status::Unpublished, order.status());
    // publishing again clears the cancellation
    order.perform_action(owner.clone(), &act(ActionKind::Publish)).unwrap();
    assert_eq!(Status::Published, order.status());
    assert!(order.canceled_at.is_none());
}

#[test]
fn action_tables() {
    let owner = mk_user(1, "Owner");
    let worker = mk_user(2, "Worker");
    let bystander = mk_user(3, "Bystander");
    let mut order = mk_order(1, owner.clone());

    // Unpublished: owner may publish or delete, nobody else may do anything
    assert_eq!(vec![ActionKind::Publish, ActionKind::Delete], order.user_actions(owner.id));
    assert_eq!(Vec::<ActionKind>::new(), order.user_actions(bystander.id));

    order.perform_action(owner.clone(), &Action { kind: ActionKind::Publish, order_id: OrderId(1) }).unwrap();
    // Published: owner may cancel; a bystander may claim
    assert_eq!(vec![ActionKind::Cancel], order.user_actions(owner.id));
    assert_eq!(vec![ActionKind::AssignToMe], order.user_actions(bystander.id));
    assert_eq!(vec![ActionKind::AssignToMe], order.public_actions());

    order.perform_action(worker.clone(), &Action { kind: ActionKind::AssignToMe, order_id: OrderId(1) }).unwrap();
    // Assigned: the assignee may unassign or mark delivered; owner may confirm
    assert_eq!(vec![ActionKind::Unassign, ActionKind::MarkAsDelivered], order.user_actions(worker.id));
    assert_eq!(vec![ActionKind::ConfirmDelivery], order.user_actions(owner.id));
    assert_eq!(Vec::<ActionKind>::new(), order.user_actions(bystander.id));

    order.perform_action(worker.clone(), &Action { kind: ActionKind::MarkAsDelivered, order_id: OrderId(1) }).unwrap();
    assert_eq!(vec![ActionKind::ConfirmDelivery], order.user_actions(owner.id));
    assert_eq!(Vec::<ActionKind>::new(), order.user_actions(worker.id));

    order.perform_action(owner.clone(), &Action { kind: ActionKind::ConfirmDelivery, order_id: OrderId(1) }).unwrap();
    assert_eq!(vec![ActionKind::Delete], order.user_actions(owner.id));
    assert_eq!(Vec::<ActionKind>::new(), order.user_actions(worker.id));
}

#[test]
fn unassign_returns_to_published() {
    let owner = mk_user(1, "Owner");
    let worker = mk_user(2, "Worker");
    let mut order = mk_order(1, owner.clone());
    order.perform_action(owner.clone(), &Action { kind: ActionKind::Publish, order_id: OrderId(1) }).unwrap();
    order.perform_action(worker.clone(), &Action { kind: ActionKind::AssignToMe, order_id: OrderId(1) }).unwrap();
    assert!(order.is_active_assignment());
    order.perform_action(worker.clone(), &Action { kind: ActionKind::Unassign, order_id: OrderId(1) }).unwrap();
    assert_eq!(Status::Published, order.status());
    assert!(!order.is_active_assignment());
}

#[test]
fn not_permitted_leaves_order_unchanged() {
    let owner = mk_user(1, "Owner");
    let bystander = mk_user(3, "Bystander");
    let mut order = mk_order(1, owner.clone());
    let before = format!("{:?}", order);
    // an unrelated user may not publish someone else's unpublished order
    let r = order.perform_action(bystander, &Action { kind: ActionKind::Publish, order_id: OrderId(1) });
    assert!(matches!(r, Err(ActionError::NotPermitted)));
    assert_eq!(before, format!("{:?}", order));
}

#[test]
fn second_claim_is_rejected() {
    let owner = mk_user(1, "Owner");
    let first = mk_user(2, "First");
    let second = mk_user(3, "Second");
    let mut order = mk_order(1, owner.clone());
    order.perform_action(owner.clone(), &Action { kind: ActionKind::Publish, order_id: OrderId(1) }).unwrap();
    let claim = Action { kind: ActionKind::AssignToMe, order_id: OrderId(1) };
    assert!(order.perform_action(first.clone(), &claim).is_ok());
    let r = order.perform_action(second, &claim);
    assert!(matches!(r, Err(ActionError::NotPermitted)));
    // the first claim is still in force
    assert_eq!(Status::Assigned, order.status());
    match &order.assigned {
        Some((_, assignee, _)) => assert_eq!(UserId(2), *assignee),
        None => panic!("assignment lost"),
    }
}

#[test]
fn error_messages() {
    assert_eq!(
        "You are not permitted to perform this action",
        ActionError::NotPermitted.message()
    );
    assert_eq!("Some error occured", ActionError::Other.message());
    assert!(ActionError::OrderNotFound(OrderId(9)).message().starts_with("Could not find this order."));
}
