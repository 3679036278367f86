//! The derived lifecycle stage of an order. It is never stored: it is always
//! recomputed from the order's timestamp evidence, so it cannot go stale.

use vstd::prelude::*;

verus! {

#[derive(Clone, Copy, Debug, PartialEq, Eq, Structural)]
pub enum Status {
    Unpublished,
    Published,
    Assigned,
    MarkedAsDelivered,
    DeliveryConfirmed,
}

pub open spec fn spec_status_human_name(s: Status) -> Seq<char> {
    match s {
        Status::Unpublished => "Not published"@,
        Status::Published => "Published"@,
        Status::Assigned => "Assigned"@,
        Status::MarkedAsDelivered => "Marked as delivered"@,
        Status::DeliveryConfirmed => "Delivered"@,
    }
}

impl Status {
    pub fn human_name(self) -> (r: &'static str)
        ensures
            r@ == spec_status_human_name(self),
    {
        match self {
            Status::Unpublished => "Not published",
            Status::Published => "Published",
            Status::Assigned => "Assigned",
            Status::MarkedAsDelivered => "Marked as delivered",
            Status::DeliveryConfirmed => "Delivered",
        }
    }
}

} // verus!
