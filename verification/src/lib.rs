//! Core of a chat-mediated delivery marketplace: the order lifecycle state
//! machine with its role-based authorization model, the callback-token wire
//! format, and the store that owns venues, participants and orders.

pub mod action;
pub mod action_error;
pub mod action_kind;
pub mod clock;
pub mod db;
pub mod ids;
pub mod markup;
pub mod new_order;
pub mod order;
pub mod order_action;
pub mod public_chat;
pub mod role;
pub mod status;
pub mod strutil;
pub mod urgency;
pub mod urgency_token;
pub mod user;
pub mod utils;

pub use action::Action;
pub use action_error::ActionError;
pub use action_kind::ActionKind;
pub use db::Db;
pub use db::PubChatFromMsgError;
pub use ids::ChatId;
pub use ids::MessageId;
pub use ids::OrderId;
pub use ids::Timestamp;
pub use ids::UserId;
pub use order::Order;
pub use order_action::OrderAction;
pub use public_chat::PublicChat;
pub use role::Role;
pub use status::Status;
pub use urgency::Urgency;
pub use user::User;
