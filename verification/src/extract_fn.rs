//! Record extraction: from a fetched document and an extraction
//! specification to one record.
//!
//! The CSS work itself — parsing the document, matching the selector,
//! reading text or an attribute — is done by the `scraper` crate behind one
//! trusted wrapper; this module assembles its results into a record, one
//! field per extract rule, in rule order.

use vstd::prelude::*;

use crate::input::{Extract, ExtractType};

verus! {

/// One extracted field: the configured field name, and the value the
/// document yielded for it, when it yielded one.
#[derive(Debug, PartialEq)]
pub struct RecordField {
    pub name: String,
    pub value: Option<String>,
}

/// One record produced for one fetched page. The scheduler and the sink
/// treat records as opaque values.
#[derive(Debug, PartialEq)]
pub struct Record {
    pub fields: Vec<RecordField>,
}

/// What one extract rule takes from a document: the text (concatenated and
/// trimmed) or the named attribute of the first element the selector
/// matches, if the selector is valid and matches at all. A function of the
/// three arguments alone.
pub uninterp spec fn extracted_of(
    document: Seq<char>,
    selector: Seq<char>,
    attr: Option<Seq<char>>,
) -> Option<Seq<char>>;

/// The attribute an extract rule asks for: none when it asks for text.
pub open spec fn attr_of(t: ExtractType) -> Option<Seq<char>> {
    match t {
        ExtractType::Text => None,
        ExtractType::Attribute(a) => Some(a@),
    }
}

/// The view of an optional string.
pub open spec fn opt_view(o: Option<String>) -> Option<Seq<char>> {
    match o {
        Some(s) => Some(s@),
        None => None,
    }
}

/// Relies on scraper's `Html::parse_document`, `Selector::parse`,
/// `Html::select`, `ElementRef::text` and `ElementRef::attr`: what they
/// yield depends only on the document text, the selector text and the
/// attribute name, so the result is `extracted_of` of the three.
#[verifier::external_body]
fn select_extract(document: &str, selector: &str, attr: &Option<String>) -> (r: Option<String>)
    ensures
        opt_view(r) == extracted_of(document@, selector@, opt_view(*attr)),
{
    let doc = scraper::Html::parse_document(document);
    let sel = match scraper::Selector::parse(selector) {
        Ok(s) => s,
        Err(_) => return None,
    };
    let element = match doc.select(&sel).next() {
        Some(e) => e,
        None => return None,
    };
    match attr {
        Some(name) => element.attr(name).map(|v| v.to_owned()),
        None => Some(element.text().collect::<String>().trim().to_owned()),
    }
}

/// Builds the record for one fetched document: one field per extract rule,
/// in rule order, each carrying the rule's field name and what the rule
/// extracted.
pub fn build_record(document: &str, extract: &Vec<Extract>) -> (r: Record)
    ensures
        r.fields@.len() == extract@.len(),
        forall|i: int|
            0 <= i < extract@.len() ==> {
                &&& (#[trigger] r.fields@[i]).name == extract@[i].field_name
                &&& opt_view(r.fields@[i].value) == extracted_of(
                    document@,
                    extract@[i].selector@,
                    attr_of(extract@[i].extract_type),
                )
            },
{
    let mut fields: Vec<RecordField> = Vec::new();
    let mut i: usize = 0;
    while i < extract.len()
        invariant
            i <= extract@.len(),
            fields@.len() == i,
            forall|k: int|
                0 <= k < i ==> {
                    &&& (#[trigger] fields@[k]).name == extract@[k].field_name
                    &&& opt_view(fields@[k].value) == extracted_of(
                        document@,
                        extract@[k].selector@,
                        attr_of(extract@[k].extract_type),
                    )
                },
        decreases extract@.len() - i,
    {
        let e = &extract[i];
        let attr = match &e.extract_type {
            ExtractType::Text => None,
            ExtractType::Attribute(a) => Some(a.clone()),
        };
        let value = select_extract(document, e.selector.as_str(), &attr);
        fields.push(RecordField { name: e.field_name.clone(), value });
        i += 1;
    }
    Record { fields }
}

} // verus!
