use dili::Action;
use dili::ActionError;
use dili::ActionKind;
use dili::db::ChatKind;
use dili::db::DbError;
use dili::Db;
use dili::ids::ChatId;
use dili::ids::MessageId;
use dili::ids::OrderId;
use dili::ids::UserId;
use dili::Order;
use dili::PubChatFromMsgError;
use dili::Status;
use dili::User;

fn mk_user(id: u64, name: &str) -> User {
    User {
        id: UserId(id),
        username: Some(name.to_lowercase()),
        first_name: name.to_string(),
        last_name: None,
    }
}

fn mk_draft(name: &str, customer: User) -> Order {
    Order {
        id: None,
        name: name.to_string(),
        description_text: "desc".to_string(),
        price_in_drams: 1000,
        markup_in_drams: 100,
        created_at: chrono::Utc::now().timestamp(),
        published_at: None,
        customer,
        assigned: None,
        delivered: None,
        delivery_confirmed_at: None,
        canceled_at: None,
    }
}

fn venue(db: &mut Db, id: i64, title: &str, members: &[u64]) -> ChatId {
    let cid = ChatId(id);
    db.update_chat(cid, ChatKind::Public, title.to_string()).unwrap();
    db.add_members(cid, members.iter().map(|m| UserId(*m)).collect());
    cid
}

#[test]
fn happy_path_scenario() {
    let mut db = Db::new();
    let customer = mk_user(1, "Customer");
    let worker = mk_user(2, "Worker");
    let v = venue(&mut db, -100, "V", &[1, 2]);
    db.update_user(customer.clone());
    db.update_user(worker.clone());

    let mut draft = mk_draft("widget", customer.clone());
    let oid = db.add_order(v, &mut draft).unwrap();
    assert_eq!(Some(oid), draft.id);
    let observe = |db: &Db| -> Status {
        let all = db.orders_submitted_by_user(v, customer.id).unwrap();
        assert_eq!(1, all.len());
        all[0].status()
    };
    assert_eq!(Status::Unpublished, observe(&db));

    let steps = [
        (ActionKind::Publish, customer.clone(), Status::Published),
        (ActionKind::AssignToMe, worker.clone(), Status::Assigned),
        (ActionKind::MarkAsDelivered, worker.clone(), Status::MarkedAsDelivered),
        (ActionKind::ConfirmDelivery, customer.clone(), Status::DeliveryConfirmed),
    ];
    for (kind, actor, expected) in steps {
        let action = Action { order_id: oid, kind };
        let (_prev, updated) = db.perform_action(actor, v, &action).unwrap();
        assert_eq!(expected, updated.unwrap().status());
        assert_eq!(expected, observe(&db));
    }
}

#[test]
fn shortcut_confirmation_scenario() {
    let mut db = Db::new();
    let customer = mk_user(1, "Customer");
    let worker = mk_user(2, "Worker");
    let v = venue(&mut db, -100, "V", &[1, 2]);

    let mut draft = mk_draft("widget", customer.clone());
    let oid = db.add_order(v, &mut draft).unwrap();
    db.perform_action(customer.clone(), v, &Action { order_id: oid, kind: ActionKind::Publish }).unwrap();
    db.perform_action(worker.clone(), v, &Action { order_id: oid, kind: ActionKind::AssignToMe }).unwrap();
    // the owner confirms straight from Assigned, skipping MarkAsDelivered
    let (prev, updated) = db
        .perform_action(customer.clone(), v, &Action { order_id: oid, kind: ActionKind::ConfirmDelivery })
        .unwrap();
    assert_eq!(Status::Assigned, prev);
    assert_eq!(Status::DeliveryConfirmed, updated.unwrap().status());
}

#[test]
fn venue_ambiguity_scenario() {
    let mut db = Db::new();
    let p = mk_user(5, "P");
    let v1 = venue(&mut db, -1, "V1", &[5]);
    let v2 = venue(&mut db, -2, "V2", &[5]);

    assert_eq!(Err(PubChatFromMsgError::MultipleChats), db.resolve_pub_chat(None, p.id));
    db.remove_chat_membership(v2, p.id);
    assert_eq!(Ok(v1), db.resolve_pub_chat(None, p.id));
    // a direct venue context always wins
    assert_eq!(Ok(v2), db.resolve_pub_chat(Some(v2), p.id));
    db.remove_chat_membership(v1, p.id);
    assert_eq!(Err(PubChatFromMsgError::NotInPubChats), db.resolve_pub_chat(None, p.id));
}

#[test]
fn deletion_scenario() {
    let mut db = Db::new();
    let customer = mk_user(1, "Customer");
    let stranger = mk_user(3, "Stranger");
    let v = venue(&mut db, -100, "V", &[1, 3]);

    let mut draft = mk_draft("widget", customer.clone());
    let oid = db.add_order(v, &mut draft).unwrap();
    db.add_msg_id(oid, v, MessageId(900));
    db.add_msg_id(oid, ChatId(1), MessageId(901));
    assert_eq!(2, db.order_msg_ids(oid).len());

    let delete = Action { order_id: oid, kind: ActionKind::Delete };
    let r = db.perform_action(stranger.clone(), v, &delete);
    assert!(matches!(r, Err(ActionError::NotPermitted)));
    assert_eq!(1, db.orders_submitted_by_user(v, customer.id).unwrap().len());
    assert_eq!(2, db.order_msg_ids(oid).len());

    let (prev, gone) = db.perform_action(customer.clone(), v, &delete).unwrap();
    assert_eq!(Status::Unpublished, prev);
    assert!(gone.is_none());
    assert_eq!(0, db.orders_submitted_by_user(v, customer.id).unwrap().len());
    assert_eq!(0, db.orders_by_status(v, Status::Unpublished).unwrap().len());
    assert_eq!(0, db.order_msg_ids(oid).len());
}

#[test]
fn concurrent_claims_one_wins() {
    // two claims of the same published order, serialized by the store's
    // lock: exactly one succeeds, and no update is lost
    let mut db = Db::new();
    let customer = mk_user(1, "Customer");
    let first = mk_user(2, "First");
    let second = mk_user(3, "Second");
    let v = venue(&mut db, -100, "V", &[1, 2, 3]);
    let mut draft = mk_draft("widget", customer.clone());
    let oid = db.add_order(v, &mut draft).unwrap();
    db.perform_action(customer.clone(), v, &Action { order_id: oid, kind: ActionKind::Publish }).unwrap();

    let claim = Action { order_id: oid, kind: ActionKind::AssignToMe };
    let r1 = db.perform_action(first.clone(), v, &claim);
    let r2 = db.perform_action(second.clone(), v, &claim);
    assert!(r1.is_ok());
    assert!(matches!(r2, Err(ActionError::NotPermitted)));
    let assigned = db.active_assignments_to(v, first.id).unwrap();
    assert_eq!(1, assigned.len());
    assert_eq!(0, db.active_assignments_to(v, second.id).unwrap().len());
}

#[test]
fn listings_filter_and_copy() {
    let mut db = Db::new();
    let a = mk_user(1, "A");
    let b = mk_user(2, "B");
    let v = venue(&mut db, -100, "V", &[1, 2]);

    let mut o1 = mk_draft("one", a.clone());
    let id1 = db.add_order(v, &mut o1).unwrap();
    let mut o2 = mk_draft("two", b.clone());
    let _id2 = db.add_order(v, &mut o2).unwrap();
    let mut o3 = mk_draft("three", a.clone());
    let id3 = db.add_order(v, &mut o3).unwrap();
    assert_ne!(id1, id3);

    db.perform_action(a.clone(), v, &Action { order_id: id1, kind: ActionKind::Publish }).unwrap();

    let published = db.orders_by_status(v, Status::Published).unwrap();
    assert_eq!(1, published.len());
    assert_eq!("one", published[0].name);
    let unpublished = db.orders_by_status(v, Status::Unpublished).unwrap();
    assert_eq!(2, unpublished.len());

    let by_a = db.orders_submitted_by_user(v, a.id).unwrap();
    assert_eq!(2, by_a.len());

    db.perform_action(b.clone(), v, &Action { order_id: id1, kind: ActionKind::AssignToMe }).unwrap();
    let active = db.active_assignments_to(v, b.id).unwrap();
    assert_eq!(1, active.len());
    assert_eq!("one", active[0].name);
}

#[test]
fn store_errors() {
    let mut db = Db::new();
    let user = mk_user(1, "U");
    let v = venue(&mut db, -100, "V", &[1]);

    assert!(matches!(
        db.orders_by_status(ChatId(-999), Status::Published),
        Err(DbError::ChatNotFound(_))
    ));
    assert!(matches!(
        db.update_chat(ChatId(77), ChatKind::Private, "private".to_string()),
        Err(DbError::PrivateChat(_))
    ));
    let mut draft = mk_draft("w", user.clone());
    assert!(matches!(db.add_order(ChatId(-999), &mut draft), Err(DbError::ChatNotFound(_))));

    let ghost_action = Action { order_id: OrderId(424242), kind: ActionKind::Publish };
    let r = db.perform_action(user.clone(), v, &ghost_action);
    assert!(matches!(r, Err(ActionError::OrderNotFound(OrderId(424242)))));
    assert_eq!(
        "You are not in any public chat with this bot.\nTry writting '/hello' into the public chat you're in to make sure the bot knows you're there",
        PubChatFromMsgError::NotInPubChats.message()
    );
}

#[test]
fn user_upserts_last_write_wins() {
    let mut db = Db::new();
    assert!(db.get_user(UserId(1)).is_none());
    db.update_user(mk_user(1, "Before"));
    db.update_user(mk_user(2, "Other"));
    db.update_user(mk_user(1, "After"));
    let u = db.get_user(UserId(1)).unwrap();
    assert_eq!("After", u.first_name);
    assert_eq!("Other", db.get_user(UserId(2)).unwrap().first_name);
}

#[test]
fn membership_is_idempotent() {
    let mut db = Db::new();
    let v = venue(&mut db, -100, "V", &[1, 1, 2]);
    db.add_members(v, vec![UserId(2), UserId(3)]);
    let chats = db.user_public_chats(UserId(2));
    assert_eq!(vec![(v, "V".to_string())], chats);
    // removing an absent member is a no-op
    db.remove_chat_membership(v, UserId(9));
    assert_eq!(1, db.user_public_chats(UserId(1)).len());
    db.remove_chat_membership(v, UserId(1));
    assert_eq!(0, db.user_public_chats(UserId(1)).len());
}

#[test]
fn msg_index_dedups() {
    let mut db = Db::new();
    db.add_msg_id(OrderId(7), ChatId(5), MessageId(100));
    db.add_msg_id(OrderId(7), ChatId(5), MessageId(100));
    db.add_msg_id(OrderId(7), ChatId(5), MessageId(101));
    assert_eq!(vec![(ChatId(5), MessageId(100)), (ChatId(5), MessageId(101))], db.order_msg_ids(OrderId(7)));
    assert_eq!(0, db.order_msg_ids(OrderId(8)).len());
}

#[test]
fn venue_title_updates() {
    let mut db = Db::new();
    let v = venue(&mut db, -100, "Old", &[1]);
    db.update_chat(v, ChatKind::Public, "New".to_string()).unwrap();
    let chats = db.user_public_chats(UserId(1));
    assert_eq!(vec![(v, "New".to_string())], chats);
}
