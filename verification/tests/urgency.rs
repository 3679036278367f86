use dili::urgency::Urgency;
use dili::urgency_token;

#[test]
fn test_from_id() {
    assert_eq!(Some(Urgency::ThisWeek), urgency_token::from_id("urg this_week"));
    assert_eq!(None, urgency_token::from_id("urg this_week "));
    assert_eq!(None, urgency_token::from_id(" urg this_week"));
    assert_eq!(None, urgency_token::from_id("xxx this_week"));
}

#[test]
fn test_id_roundtrips() {
    for u in Urgency::all().iter().cloned() {
        assert_eq!(u, Urgency::from_id(u.id()).unwrap());
    }
}

#[test]
fn test_some_cases() {
    assert_eq!(Some(Urgency::ThisWeek), Urgency::from_id("this_week"));
    assert_eq!(None, Urgency::from_id("this_week "));
    assert_eq!(None, Urgency::from_id(" this_week "));
    assert_eq!(None, Urgency::from_id(" this_week "));
    assert_eq!(None, Urgency::from_id("eueue"));
}

#[test]
fn urgency_names() {
    assert_eq!("Today", Urgency::Today.name());
    assert_eq!("Some time this week", Urgency::ThisWeek.name());
    assert_eq!("Some time this month", Urgency::ThisMonth.name());
    assert_eq!("Some day", Urgency::Whenever.name());
}

#[test]
fn urgency_token_roundtrips() {
    for u in Urgency::all().iter() {
        let token = urgency_token::id(u);
        assert_eq!(Some(*u), urgency_token::from_id(&token));
    }
    assert_eq!("urg today", urgency_token::id(&Urgency::Today));
}
