use vstd::prelude::*;
use crate::entry::{sanitize, sanitized, Entry, EntryView, StoreError};
use crate::naming::Collection;
use crate::policy::{record_recent, recorded, toggle_favorite, toggled, upsert, upserted, views};

verus! {

/// A change that a caller asks of one of the lists.
#[derive(Debug)]
pub enum Request {
    /// Add an entry to the catalog, or update the one with its symbol.
    UpsertCatalogEntry(Entry),
    /// Record an entry as the most recently used.
    RecordRecent(Entry),
    /// Add an entry to the favorites, or remove the one with its symbol.
    ToggleFavorite(Entry),
}

/// The list that a request changes.
pub open spec fn request_collection(r: Request) -> Collection {
    match r {
        Request::UpsertCatalogEntry(_) => Collection::Catalog,
        Request::RecordRecent(_) => Collection::Recents,
        Request::ToggleFavorite(_) => Collection::Favorites,
    }
}

impl Request {
    /// The list that this request changes.
    pub fn collection(&self) -> (r: Collection)
        ensures
            r == request_collection(*self),
    {
        match self {
            Request::UpsertCatalogEntry(_) => Collection::Catalog,
            Request::RecordRecent(_) => Collection::Recents,
            Request::ToggleFavorite(_) => Collection::Favorites,
        }
    }
}

/// Checks a request before any file is touched: a catalog entry is
/// sanitized, and refused where its trimmed symbol is empty; the other
/// requests pass as they are.
pub fn validate(req: Request) -> (r: Result<Request, StoreError>)
    ensures
        req is UpsertCatalogEntry ==> (r is Err <==> sanitized(req->UpsertCatalogEntry_0@) is None),
        r is Err ==> r->Err_0 is EmptySymbol,
        req is UpsertCatalogEntry && r is Ok ==> r->Ok_0 is UpsertCatalogEntry && sanitized(
            req->UpsertCatalogEntry_0@,
        ) == Some(r->Ok_0->UpsertCatalogEntry_0@),
        !(req is UpsertCatalogEntry) ==> r == Ok::<Request, StoreError>(req),
{
    match req {
        Request::UpsertCatalogEntry(e) => match sanitize(&e) {
            Ok(clean) => Ok(Request::UpsertCatalogEntry(clean)),
            Err(err) => Err(err),
        },
        other => Ok(other),
    }
}

/// The list that a request leaves, from the list `s`, and for a favorite
/// toggle whether the entry is a favorite afterwards.
pub open spec fn applied(req: Request, s: Seq<EntryView>) -> (Seq<EntryView>, Option<bool>) {
    match req {
        Request::UpsertCatalogEntry(e) => (upserted(s, e@), None),
        Request::RecordRecent(e) => (recorded(s, e@), None),
        Request::ToggleFavorite(e) => (toggled(s, e@).0, Some(toggled(s, e@).1)),
    }
}

/// Applies a request to the entries of its list, as loaded: an upsert for
/// the catalog, a bounded insert at the front for the recents, a toggle for
/// the favorites, which also tells whether the entry is now a favorite.
pub fn apply(req: Request, list: Vec<Entry>) -> (r: (Vec<Entry>, Option<bool>))
    ensures
        (views(r.0@), r.1) == applied(req, views(list@)),
{
    let mut list = list;
    match req {
        Request::UpsertCatalogEntry(e) => {
            upsert(&mut list, e);
            (list, None)
        },
        Request::RecordRecent(e) => {
            record_recent(&mut list, e);
            (list, None)
        },
        Request::ToggleFavorite(e) => {
            let member = toggle_favorite(&mut list, e);
            (list, Some(member))
        },
    }
}

} // verus!
