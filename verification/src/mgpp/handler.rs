//! The table of handlers that receive decoded MGPP packets.
use vstd::prelude::*;

verus! {

/// The handlers of a client: one per packet kind. `H` handles
/// `InvalidateCache`.
#[derive(Debug)]
pub struct MGPPHandlers<H> {
    pub invalidate_cache: H,
}

impl<H> MGPPHandlers<H> {
    pub fn new(invalidate_cache: H) -> (r: Self)
        ensures
            r.invalidate_cache == invalidate_cache,
    {
        MGPPHandlers { invalidate_cache }
    }
}

/// Routes each decoded packet to the handler of its kind.
#[derive(Debug)]
pub struct MGPPHandlersMapper<H> {
    handlers: MGPPHandlers<H>,
}

impl<H> MGPPHandlersMapper<H> {
    /// The handlers that the mapper routes to.
    pub closed spec fn table(&self) -> MGPPHandlers<H> {
        self.handlers
    }

    pub fn new(handlers: MGPPHandlers<H>) -> (r: Self)
        ensures
            r.table() == handlers,
    {
        MGPPHandlersMapper { handlers }
    }

    /// The handler that an `InvalidateCache` packet goes to.
    pub fn invalidate_cache_handler(&self) -> (r: &H)
        ensures
            *r == self.table().invalidate_cache,
    {
        &self.handlers.invalidate_cache
    }
}

} // verus!
