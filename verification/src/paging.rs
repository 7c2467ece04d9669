//! The paging information that comes with a list of results.

use vstd::prelude::*;
use crate::decode::{field, read_field, FromJson};
use crate::json::{Json, JsonValue};

verus! {

/// Which page of a list a response holds.
#[derive(Clone, Copy, Debug, PartialEq, Eq)]
pub struct Pagination {
    /// How many results a page holds.
    pub count: u32,
    /// How many results there are in all.
    pub total: u32,
    /// The number of this page.
    pub page: u32,
    /// How many pages there are.
    pub pages: u32,
}

impl FromJson for Pagination {
    type Model = Pagination;

    open spec fn model(&self) -> Pagination {
        *self
    }

    /// An object with the numbers `count`, `total`, `page` and `pages`.
    open spec fn decoded(value: JsonValue) -> Option<Pagination> {
        if field::<u32>(value, "count"@) is Some && field::<u32>(value, "total"@) is Some
            && field::<u32>(value, "page"@) is Some && field::<u32>(value, "pages"@) is Some {
            Some(
                Pagination {
                    count: field::<u32>(value, "count"@)->0,
                    total: field::<u32>(value, "total"@)->0,
                    page: field::<u32>(value, "page"@)->0,
                    pages: field::<u32>(value, "pages"@)->0,
                },
            )
        } else {
            None
        }
    }

    fn from_json(json: &Json) -> (r: Option<Pagination>) {
        let count = read_field::<u32>(json, "count")?;
        let total = read_field::<u32>(json, "total")?;
        let page = read_field::<u32>(json, "page")?;
        let pages = read_field::<u32>(json, "pages")?;
        Some(Pagination { count, total, page, pages })
    }
}

} // verus!
