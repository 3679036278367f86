use dili::ids::UserId;
use dili::markup;
use dili::new_order::parse_price;
use dili::new_order::PriceParseError;
use dili::User;

#[test]
fn test_humanize_positive_duration() {
    assert_eq!("4 weeks".to_string(), markup::human_positive_duration(4 * 7 * 24 * 3600));
    assert_eq!("5 days".to_string(), markup::human_positive_duration(5 * 24 * 3600));
    assert_eq!("1 minute".to_string(), markup::human_positive_duration(60 + 5));
}

#[test]
fn humanize_small_durations() {
    assert_eq!("about a minute", markup::human_positive_duration(45));
    assert_eq!("few seconds", markup::human_positive_duration(10));
    assert_eq!("just now", markup::human_positive_duration(0));
    assert_eq!("2 hours", markup::human_positive_duration(2 * 3600 + 59));
}

#[test]
fn time_ago_phrases() {
    assert_eq!("right now", markup::time_ago_at(1000, 1000));
    assert_eq!("5 days ago", markup::time_ago_at(1000, 1000 + 5 * 24 * 3600));
    assert_eq!("2 hours from now", markup::time_ago_at(1000 + 2 * 3600, 1000));
}

#[test]
fn format_amd_cases() {
    assert_eq!("No payments required", markup::format_amd(0));
    assert_eq!("500 AMD", markup::format_amd(500));
}

#[test]
fn username_forms() {
    let full = User {
        id: UserId(7),
        username: Some("handle".to_string()),
        first_name: "First".to_string(),
        last_name: Some("Last".to_string()),
    };
    assert_eq!("@handle First Last", markup::format_username(&full));
    let bare = User {
        id: UserId(7),
        username: None,
        first_name: "First".to_string(),
        last_name: None,
    };
    assert_eq!("First", markup::format_username(&bare));
}

#[test]
fn links_escape_their_name() {
    assert_eq!("<a href=\"u\">name</a>", markup::link("u", "name"));
    assert_eq!("<a href=\"u\">&#60;b&#62; &#38; &#39;q&#39;</a>", markup::link("u", "<b> & 'q'"));
    assert_eq!("a&#34;b", markup::escape_html("a\"b"));
}

#[test]
fn user_links() {
    assert_eq!("tg://user?id=42", markup::user_url(UserId(42)));
    let u = User {
        id: UserId(42),
        username: None,
        first_name: "Ann".to_string(),
        last_name: None,
    };
    assert_eq!("<a href=\"tg://user?id=42\">Ann</a>", markup::user_link(&u));
}

#[test]
fn pluralize_cases() {
    assert_eq!("week", markup::pluralize(1, "week"));
    assert_eq!("weeks", markup::pluralize(2, "week"));
    assert_eq!("days", markup::pluralize(0, "day"));
}

#[test]
fn price_parsing() {
    assert_eq!(Ok(1500), parse_price("1500"));
    assert_eq!(Ok(0), parse_price("0"));
    assert_eq!(Err(PriceParseError::Empty), parse_price(""));
    assert_eq!(Err(PriceParseError::InvalidSymbol), parse_price("12a"));
    assert_eq!(Err(PriceParseError::InvalidSymbol), parse_price("-5"));
    assert_eq!(Err(PriceParseError::Overflow), parse_price("99999999999999999999999"));
    assert_eq!("you haven't written anything", PriceParseError::Empty.message());
}
