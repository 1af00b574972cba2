//! Options for a crawler whose per-request handler the embedding program
//! supplies.

use vstd::prelude::*;

use crate::input::{is_default_extract, Extract, ProxySettings};

verus! {

/// The knobs of one crawl run, with the crawl's defaults.
pub struct BasicCrawlerOptions {
    pub extract: Vec<Extract>,
    pub proxy_settings: Option<ProxySettings>,
    pub force_cloud: bool,
    pub debug_log: bool,
    pub push_data_size: usize,
    pub max_concurrency: usize,
    pub max_request_retries: usize,
}

impl Default for BasicCrawlerOptions {
    fn default() -> (r: Self)
        ensures
            r.debug_log == false,
            r.force_cloud == false,
            r.push_data_size == 500usize,
            r.max_concurrency == 200usize,
            r.max_request_retries == 3usize,
            r.proxy_settings matches Some(p) && p.useApifyProxy && p.apifyProxyGroups is None,
            r.extract@.len() == 1 && is_default_extract(r.extract@[0]),
    {
        BasicCrawlerOptions {
            debug_log: false,
            force_cloud: false,
            push_data_size: 500,
            max_concurrency: 200,
            max_request_retries: 3,
            proxy_settings: Some(Default::default()),
            extract: vec![Default::default()],
        }
    }
}

impl BasicCrawlerOptions {
    pub fn set_extract(&mut self, extract: Vec<Extract>)
        ensures
            *final(self) == (BasicCrawlerOptions { extract, ..*old(self) }),
    {
        self.extract = extract;
    }

    pub fn set_push_data_size(&mut self, push_data_size: usize)
        ensures
            *final(self) == (BasicCrawlerOptions { push_data_size, ..*old(self) }),
    {
        self.push_data_size = push_data_size;
    }

    pub fn set_max_concurrency(&mut self, max_concurrency: usize)
        ensures
            *final(self) == (BasicCrawlerOptions { max_concurrency, ..*old(self) }),
    {
        self.max_concurrency = max_concurrency;
    }

    pub fn set_max_request_retries(&mut self, max_request_retries: usize)
        ensures
            *final(self) == (BasicCrawlerOptions { max_request_retries, ..*old(self) }),
    {
        self.max_request_retries = max_request_retries;
    }

    pub fn set_proxy_settings(&mut self, proxy_settings: ProxySettings)
        ensures
            *final(self) == (BasicCrawlerOptions {
                proxy_settings: Some(proxy_settings),
                ..*old(self)
            }),
    {
        self.proxy_settings = Some(proxy_settings);
    }

    pub fn set_debug_log(&mut self, debug_log: bool)
        ensures
            *final(self) == (BasicCrawlerOptions { debug_log, ..*old(self) }),
    {
        self.debug_log = debug_log;
    }
}

} // verus!
