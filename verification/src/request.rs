//! Requests: the unit of crawl work, and the input entries they are built from.

use vstd::prelude::*;

verus! {

/// One entry of the crawl input: a URL, and optionally an explicit unique key.
/// When no key is given, the URL itself is the key.
pub struct RequestOptions {
    pub url: String,
    pub unique_key: Option<String>,
}

/// One unit of crawl work. Identity is `unique_key`; `url` and `unique_key`
/// never change after construction, and `retry_count` grows by exactly one
/// each time the request is reclaimed for another attempt.
pub struct Request {
    pub url: String,
    pub unique_key: String,
    pub retry_count: usize,
}

/// The key a source entry resolves to: the explicit key when present,
/// otherwise the URL.
pub open spec fn key_of_options(options: RequestOptions) -> Seq<char> {
    match options.unique_key {
        Some(k) => k@,
        None => options.url@,
    }
}

/// The request a source entry stands for.
pub open spec fn spec_request_of(options: RequestOptions) -> Request {
    Request {
        url: options.url,
        unique_key: match options.unique_key {
            Some(k) => k,
            None => options.url,
        },
        retry_count: 0,
    }
}

impl Clone for RequestOptions {
    fn clone(&self) -> (r: Self)
        ensures
            r == *self,
    {
        RequestOptions {
            url: self.url.clone(),
            unique_key: match &self.unique_key {
                Some(k) => Some(k.clone()),
                None => None,
            },
        }
    }
}

impl Request {
    /// Builds the request a source entry stands for, with a zero retry count.
    pub fn new(req: RequestOptions) -> (r: Request)
        ensures
            r == spec_request_of(req),
            r.unique_key@ == key_of_options(req),
    {
        let unique_key = match req.unique_key {
            Some(key) => key,
            None => req.url.clone(),
        };
        Request { url: req.url, unique_key, retry_count: 0 }
    }
}

impl Clone for Request {
    fn clone(&self) -> (r: Self)
        ensures
            r == *self,
    {
        Request {
            url: self.url.clone(),
            unique_key: self.unique_key.clone(),
            retry_count: self.retry_count,
        }
    }
}

} // verus!
