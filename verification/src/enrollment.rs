//! Which Identity API to talk to, and its paged listings.

use vstd::prelude::*;

verus! {

/// Which Identity API to talk to, and how.
#[derive(Clone, Debug)]
pub struct Identity {
    /// Its base URL.
    pub url: String,
    /// Reach it over HTTP/3.
    pub http3: bool,
}

impl Identity {
    /// The Identity API at `url`.
    pub fn new(url: &str, http3: bool) -> (identity: Self)
        ensures
            identity.url@ == url@,
            identity.http3 == http3,
    {
        Identity { url: url.to_owned(), http3 }
    }
}

/// How many pages of a listing are read.
pub const MAX_PAGES: usize = 100;

/// A listing that is read page by page.
pub struct Listing<T> {
    /// What has been read.
    pub all: Vec<T>,
    /// Where the next page begins; the first page where absent.
    pub cursor: Option<String>,
    /// How many pages have been read.
    pub pages: usize,
}

impl<T> Listing<T> {
    /// Nothing read yet.
    pub fn new() -> (l: Self)
        ensures
            l.all@ == Seq::<T>::empty(),
            l.cursor is None,
            l.pages == 0,
    {
        Listing { all: Vec::new(), cursor: None, pages: 0 }
    }

    /// Take note of a page; returns whether there is another to read. A
    /// listing that never ends is read up to [`MAX_PAGES`].
    pub fn page(&mut self, rows: Vec<T>, next: Option<String>) -> (more: bool)
        requires
            old(self).pages < MAX_PAGES,
        ensures
            final(self).all@ == old(self).all@ + rows@,
            final(self).pages == old(self).pages + 1,
            final(self).cursor == (if next is Some {
                next
            } else {
                old(self).cursor
            }),
            more == (next is Some && final(self).pages < MAX_PAGES),
            more == (next is Some && final(self).pages < 100),
    {
        let mut rows = rows;
        self.all.append(&mut rows);
        self.pages = self.pages + 1;
        match next {
            Some(next) => {
                self.cursor = Some(next);
                self.pages < MAX_PAGES
            },
            None => false,
        }
    }
}

} // verus!
