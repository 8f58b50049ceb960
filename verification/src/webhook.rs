//! Notification hook settings: a request with optional parts and the
//! complete form with defaults applied.

use vstd::prelude::*;

use crate::search::Order;

verus! {

/// Twenty minutes, in milliseconds: the default notification interval.
pub const DEFAULT_INTERVAL_MILLIS: i64 = 1_200_000;

/// The default result cap of a notification query.
pub const DEFAULT_LIMIT: usize = 100;

/// A request to register a notification hook for a namespace; `interval`
/// is in milliseconds.
#[derive(Debug)]
pub struct WebHookReq {
    pub namespace: String,
    pub url: String,
    pub interval: Option<i64>,
    pub limit: Option<usize>,
    pub order: Option<Order>,
}

/// A registered notification hook, with every optional part of the
/// request filled in from the defaults.
#[derive(Debug)]
pub struct WebHook {
    pub namespace: String,
    pub url: String,
    pub interval: i64,
    pub limit: usize,
    pub order: Order,
}

impl From<WebHookReq> for WebHook {
    /// Fills the omitted parts of a request: a twenty-minute interval, a
    /// cap of 100 events, ascending order.
    fn from(req: WebHookReq) -> (r: WebHook) {
        WebHook {
            namespace: req.namespace,
            url: req.url,
            interval: match req.interval {
                Some(i) => i,
                None => DEFAULT_INTERVAL_MILLIS,
            },
            limit: match req.limit {
                Some(l) => l,
                None => DEFAULT_LIMIT,
            },
            order: match req.order {
                Some(o) => o,
                None => Order::Asc,
            },
        }
    }
}

impl vstd::std_specs::convert::FromSpecImpl<WebHookReq> for WebHook {
    open spec fn obeys_from_spec() -> bool {
        true
    }

    open spec fn from_spec(req: WebHookReq) -> WebHook {
        WebHook {
            namespace: req.namespace,
            url: req.url,
            interval: match req.interval {
                Some(i) => i,
                None => DEFAULT_INTERVAL_MILLIS,
            },
            limit: match req.limit {
                Some(l) => l,
                None => DEFAULT_LIMIT,
            },
            order: match req.order {
                Some(o) => o,
                None => Order::Asc,
            },
        }
    }
}

} // verus!
