//! The configuration surface: what one crawl run is asked to do.

use vstd::prelude::*;

use crate::basic_crawler::BasicCrawlerOptions;
use crate::request::RequestOptions;

verus! {

/// The full input of a run: the URL entries and every optional knob.
pub struct Input {
    pub urls: Vec<RequestOptions>,
    pub extract: Option<Vec<Extract>>,
    pub proxy_settings: Option<ProxySettings>,
    pub force_cloud: Option<bool>,
    pub debug_log: Option<bool>,
    pub push_data_size: Option<usize>,
    pub max_concurrency: Option<usize>,
    pub max_request_retries: Option<usize>,
    pub use_http3: Option<bool>,
}

/// One field to extract from a fetched page: where to look and what to take.
pub struct Extract {
    pub field_name: String,
    pub selector: String,
    pub extract_type: ExtractType,
}

/// What to take from the first element a selector matches: its
/// concatenated text, or one attribute.
pub enum ExtractType {
    Text,
    Attribute(String),
}

/// Which proxy the fetches should go through.
#[allow(non_snake_case)]
pub struct ProxySettings {
    pub useApifyProxy: bool,
    pub apifyProxyGroups: Option<Vec<String>>,
}

/// The extract specification used when the input names none.
pub open spec fn is_default_extract(e: Extract) -> bool {
    &&& e.field_name@ == "description"@
    &&& e.selector@ == "meta[name=\"description\"]"@
    &&& e.extract_type matches ExtractType::Attribute(a) && a@ == "content"@
}

impl Default for Extract {
    fn default() -> (r: Self)
        ensures
            is_default_extract(r),
    {
        Extract {
            field_name: "description".to_owned(),
            selector: "meta[name=\"description\"]".to_owned(),
            extract_type: ExtractType::Attribute("content".to_owned()),
        }
    }
}

impl Default for ProxySettings {
    fn default() -> (r: Self)
        ensures
            r.useApifyProxy == true,
            r.apifyProxyGroups is None,
    {
        ProxySettings { useApifyProxy: true, apifyProxyGroups: None }
    }
}

impl Input {
    /// Turns the input into crawler options: every knob the input sets is
    /// taken over, every knob it leaves out keeps its default.
    pub fn to_options(self) -> (options: BasicCrawlerOptions)
        ensures
            match self.extract {
                Some(e) => options.extract == e,
                None => options.extract@.len() == 1 && is_default_extract(options.extract@[0]),
            },
            match self.proxy_settings {
                Some(p) => options.proxy_settings == Some(p),
                None => options.proxy_settings matches Some(q) && q.useApifyProxy
                    && q.apifyProxyGroups is None,
            },
            options.push_data_size == match self.push_data_size {
                Some(v) => v,
                None => 500usize,
            },
            options.max_concurrency == match self.max_concurrency {
                Some(v) => v,
                None => 200usize,
            },
            options.max_request_retries == match self.max_request_retries {
                Some(v) => v,
                None => 3usize,
            },
            options.debug_log == match self.debug_log {
                Some(v) => v,
                None => false,
            },
            options.force_cloud == false,
    {
        let mut options: BasicCrawlerOptions = Default::default();
        if let Some(extract) = self.extract {
            options.set_extract(extract);
        }
        if let Some(proxy_settings) = self.proxy_settings {
            options.set_proxy_settings(proxy_settings);
        }
        if let Some(push_data_size) = self.push_data_size {
            options.set_push_data_size(push_data_size);
        }
        if let Some(max_concurrency) = self.max_concurrency {
            options.set_max_concurrency(max_concurrency);
        }
        if let Some(max_request_retries) = self.max_request_retries {
            options.set_max_request_retries(max_request_retries);
        }
        if let Some(debug_log) = self.debug_log {
            options.set_debug_log(debug_log);
        }
        options
    }
}

} // verus!
