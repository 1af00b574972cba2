use crawler::basic_crawler::BasicCrawlerOptions;
use crawler::errors::CrawlerError;
use crawler::extract_fn::build_record;
use crawler::input::{Extract, ExtractType, Input, ProxySettings};
use crawler::proxy::get_apify_proxy;
use crawler::request::RequestOptions;

const PAGE: &str = "<html><head><meta name=\"description\" content=\"a test page\"></head>\
<body><div class=\"headline\">Breaking <b>news</b></div></body></html>";

fn extract(name: &str, selector: &str, extract_type: ExtractType) -> Extract {
    Extract { field_name: name.to_string(), selector: selector.to_string(), extract_type }
}

#[test]
fn build_record_reads_attribute_and_text() {
    let rules = vec![
        extract("description", "meta[name=\"description\"]", ExtractType::Attribute("content".to_string())),
        extract("headline", "div.headline", ExtractType::Text),
    ];
    let record = build_record(PAGE, &rules);
    assert_eq!(record.fields.len(), 2);
    assert_eq!(record.fields[0].name, "description");
    assert_eq!(record.fields[0].value.as_deref(), Some("a test page"));
    assert_eq!(record.fields[1].name, "headline");
    assert_eq!(record.fields[1].value.as_deref(), Some("Breaking news"));
}

#[test]
fn build_record_yields_none_for_missing_parts() {
    let rules = vec![
        extract("absent", "section#nowhere", ExtractType::Text),
        extract("no_attr", "div.headline", ExtractType::Attribute("href".to_string())),
        extract("bad_selector", "div..", ExtractType::Text),
    ];
    let record = build_record(PAGE, &rules);
    assert_eq!(record.fields.len(), 3);
    assert!(record.fields.iter().all(|f| f.value.is_none()));
}

#[test]
fn proxy_off_means_no_proxy() {
    assert!(get_apify_proxy(&None, None, None).is_none());
    let settings = ProxySettings { useApifyProxy: false, apifyProxyGroups: None };
    assert!(get_apify_proxy(&Some(settings), Some("pw".to_string()), None).is_none());
}

#[test]
fn proxy_auto_user_and_default_endpoint() {
    let settings = ProxySettings { useApifyProxy: true, apifyProxyGroups: None };
    let proxy = get_apify_proxy(&Some(settings), Some("pw".to_string()), None).unwrap();
    assert_eq!(proxy.username, "auto");
    assert_eq!(proxy.password, "pw");
    assert_eq!(proxy.base_url, "http://@proxy.apify.com:8000");
}

#[test]
fn proxy_groups_join_and_env_endpoint() {
    let settings = ProxySettings {
        useApifyProxy: true,
        apifyProxyGroups: Some(vec!["alpha".to_string(), "beta".to_string()]),
    };
    let host_port = Some(("proxy.test".to_string(), "8099".to_string()));
    let proxy = get_apify_proxy(&Some(settings), Some("s".to_string()), host_port).unwrap();
    assert_eq!(proxy.username, "groups-alpha+beta");
    assert_eq!(proxy.base_url, "http://@proxy.test:8099");
}

#[test]
fn input_to_options_applies_given_knobs() {
    let input = Input {
        urls: vec![RequestOptions { url: "http://x.example".to_string(), unique_key: None }],
        extract: None,
        proxy_settings: None,
        force_cloud: None,
        debug_log: Some(true),
        push_data_size: Some(7),
        max_concurrency: Some(11),
        max_request_retries: Some(2),
        use_http3: None,
    };
    let options = input.to_options();
    assert_eq!(options.push_data_size, 7);
    assert_eq!(options.max_concurrency, 11);
    assert_eq!(options.max_request_retries, 2);
    assert!(options.debug_log);
    assert!(!options.force_cloud);
    // untouched knobs keep their defaults
    assert_eq!(options.extract.len(), 1);
    assert_eq!(options.extract[0].field_name, "description");
    assert!(options.proxy_settings.unwrap().useApifyProxy);
}

#[test]
fn options_defaults_match_the_documented_values() {
    let options = BasicCrawlerOptions::default();
    assert_eq!(options.push_data_size, 500);
    assert_eq!(options.max_concurrency, 200);
    assert_eq!(options.max_request_retries, 3);
    assert!(!options.debug_log);
    assert!(!options.force_cloud);
    let extract = &options.extract[0];
    assert_eq!(extract.selector, "meta[name=\"description\"]");
    assert!(matches!(&extract.extract_type, ExtractType::Attribute(a) if a == "content"));
}

#[test]
fn crawler_error_keeps_its_message() {
    let e = CrawlerError::new("fetch failed".to_string());
    assert_eq!(e.message().as_str(), "fetch failed");
}
