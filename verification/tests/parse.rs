use parse_mediawiki_dump::Page;
use parse_mediawiki_dump::ParseError;
use parse_mediawiki_dump::parse;

const NS: &str = "http://www.mediawiki.org/xml/export-0.10/";

fn collect(input: &str) -> Vec<Result<Page, ParseError>> {
    let mut parser = parse(input.as_bytes());
    let mut results = Vec::new();
    while let Some(result) = parser.next() {
        results.push(result);
    }
    results
}

fn document(body: &str) -> String {
    format!("<mediawiki xmlns=\"{}\">{}</mediawiki>", NS, body)
}

const FULL_PAGE: &str = "<page><title>Test</title><ns>0</ns><revision><format>text/x-wiki</format><model>wikitext</model><text>Hello</text></revision></page>";

#[test]
fn one_full_page_then_exhaustion() {
    let input = format!(
        "<mediawiki xmlns=\"{}\"><page><title>Test</title><ns>0</ns><revision><text>Hello</text></revision></page></mediawiki>",
        NS
    );
    let mut parser = parse(input.as_bytes());
    let page = parser.next().unwrap().unwrap();
    assert_eq!(page.title, "Test");
    assert_eq!(page.namespace, 0);
    assert_eq!(page.format, None);
    assert_eq!(page.model, None);
    assert_eq!(page.text, "Hello");
    assert!(parser.next().is_none());
    assert!(parser.next().is_none());
}

#[test]
fn many_pages_in_document_order() {
    let mut body = String::new();
    for i in 0..5 {
        body.push_str(&format!(
            "<page><title>Page {i}</title><ns>{i}</ns><revision><text>body {i}</text></revision></page>"
        ));
    }
    let results = collect(&document(&body));
    assert_eq!(results.len(), 5);
    for (i, result) in results.iter().enumerate() {
        let page = result.as_ref().unwrap();
        assert_eq!(page.title, format!("Page {i}"));
        assert_eq!(page.namespace, i as u32);
        assert_eq!(page.text, format!("body {i}"));
    }
}

#[test]
fn format_and_model_are_kept() {
    let results = collect(&document(FULL_PAGE));
    assert_eq!(results.len(), 1);
    let page = results[0].as_ref().unwrap();
    assert_eq!(page.format.as_deref(), Some("text/x-wiki"));
    assert_eq!(page.model.as_deref(), Some("wikitext"));
}

#[test]
fn page_missing_ns_is_format_error() {
    let results = collect(&document(
        "<page><title>T</title><revision><text>x</text></revision></page>",
    ));
    assert_eq!(results.len(), 1);
    assert!(matches!(results[0], Err(ParseError::Format(_))));
}

#[test]
fn page_missing_title_is_format_error() {
    let results = collect(&document(
        "<page><ns>0</ns><revision><text>x</text></revision></page>",
    ));
    assert_eq!(results.len(), 1);
    assert!(matches!(results[0], Err(ParseError::Format(_))));
}

#[test]
fn page_without_revision_is_format_error() {
    let results = collect(&document("<page><title>T</title><ns>0</ns></page>"));
    assert_eq!(results.len(), 1);
    assert!(matches!(results[0], Err(ParseError::Format(_))));
}

#[test]
fn revision_without_text_is_format_error() {
    let results = collect(&document(
        "<page><title>T</title><ns>0</ns><revision><model>wikitext</model></revision></page>",
    ));
    assert_eq!(results.len(), 1);
    assert!(matches!(results[0], Err(ParseError::Format(_))));
}

#[test]
fn second_revision_is_not_supported() {
    let results = collect(&document(
        "<page><title>T</title><ns>0</ns><revision><text>a</text></revision><revision><text>b</text></revision></page>",
    ));
    assert_eq!(results.len(), 1);
    assert!(matches!(results[0], Err(ParseError::NotSupported(_))));
}

#[test]
fn empty_title_is_empty_string() {
    let results = collect(&document(
        "<page><title></title><ns>0</ns><revision><text>x</text></revision></page>",
    ));
    let page = results[0].as_ref().unwrap();
    assert_eq!(page.title, "");
}

#[test]
fn empty_text_is_empty_string_not_absence() {
    let results = collect(&document(
        "<page><title>T</title><ns>0</ns><revision><text></text></revision></page>",
    ));
    let page = results[0].as_ref().unwrap();
    assert_eq!(page.text, "");
}

#[test]
fn self_closing_text_is_empty_string() {
    let results = collect(&document(
        "<page><title>T</title><ns>0</ns><revision><text/></revision></page>",
    ));
    let page = results[0].as_ref().unwrap();
    assert_eq!(page.text, "");
}

#[test]
fn unrecognized_elements_are_skipped() {
    let results = collect(&document(
        "<siteinfo><sitename>Wiki</sitename><namespaces><namespace key=\"0\"/></namespaces></siteinfo>\
         <page><id>7</id><title>T</title><ns>0</ns>\
         <revision><id>8</id><contributor><username>X</username><id>9</id></contributor>\
         <timestamp>2001-01-15T13:15:00Z</timestamp><text>body</text></revision></page>",
    ));
    assert_eq!(results.len(), 1);
    let page = results[0].as_ref().unwrap();
    assert_eq!(page.title, "T");
    assert_eq!(page.text, "body");
}

#[test]
fn deeply_nested_unknown_subtree_is_skipped() {
    let mut unknown = String::from("<junk>");
    for _ in 0..200 {
        unknown.push_str("<a><b>");
    }
    unknown.push_str("deep");
    for _ in 0..200 {
        unknown.push_str("</b></a>");
    }
    unknown.push_str("</junk>");
    let body = format!(
        "<page>{unknown}<title>T</title><ns>3</ns><revision><text>x</text></revision></page>"
    );
    let results = collect(&document(&body));
    assert_eq!(results.len(), 1);
    let page = results[0].as_ref().unwrap();
    assert_eq!(page.title, "T");
    assert_eq!(page.namespace, 3);
}

#[test]
fn page_element_in_wrong_namespace_is_skipped() {
    let body = format!(
        "<other:page xmlns:other=\"http://example.com/\"><other:title>No</other:title></other:page>{}",
        FULL_PAGE
    );
    let results = collect(&document(&body));
    assert_eq!(results.len(), 1);
    assert_eq!(results[0].as_ref().unwrap().title, "Test");
}

#[test]
fn wrong_root_element_is_format_error() {
    let results = collect(&format!("<notawiki xmlns=\"{}\"></notawiki>", NS));
    assert_eq!(results.len(), 1);
    assert!(matches!(results[0], Err(ParseError::Format(_))));
}

#[test]
fn root_without_namespace_is_format_error() {
    let results = collect("<mediawiki><page/></mediawiki>");
    assert_eq!(results.len(), 1);
    assert!(matches!(results[0], Err(ParseError::Format(_))));
}

#[test]
fn root_in_wrong_namespace_is_format_error() {
    let results = collect("<mediawiki xmlns=\"http://example.com/\"></mediawiki>");
    assert_eq!(results.len(), 1);
    assert!(matches!(results[0], Err(ParseError::Format(_))));
}

#[test]
fn duplicate_ns_is_format_error() {
    let results = collect(&document(
        "<page><title>T</title><ns>0</ns><ns>1</ns><revision><text>x</text></revision></page>",
    ));
    assert_eq!(results.len(), 1);
    assert!(matches!(results[0], Err(ParseError::Format(_))));
}

#[test]
fn duplicate_title_is_format_error() {
    let results = collect(&document(
        "<page><title>T</title><title>U</title><ns>0</ns><revision><text>x</text></revision></page>",
    ));
    assert_eq!(results.len(), 1);
    assert!(matches!(results[0], Err(ParseError::Format(_))));
}

#[test]
fn duplicate_text_in_one_revision_is_format_error() {
    let results = collect(&document(
        "<page><title>T</title><ns>0</ns><revision><text>a</text><text>b</text></revision></page>",
    ));
    assert_eq!(results.len(), 1);
    assert!(matches!(results[0], Err(ParseError::Format(_))));
}

#[test]
fn non_numeric_ns_is_format_error() {
    let results = collect(&document(
        "<page><title>T</title><ns>zero</ns><revision><text>x</text></revision></page>",
    ));
    assert_eq!(results.len(), 1);
    assert!(matches!(results[0], Err(ParseError::Format(_))));
}

#[test]
fn ns_with_leading_plus_parses() {
    let results = collect(&document(
        "<page><title>T</title><ns>+14</ns><revision><text>x</text></revision></page>",
    ));
    assert_eq!(results[0].as_ref().unwrap().namespace, 14);
}

#[test]
fn ns_at_u32_max_parses() {
    let results = collect(&document(
        "<page><title>T</title><ns>4294967295</ns><revision><text>x</text></revision></page>",
    ));
    assert_eq!(results[0].as_ref().unwrap().namespace, u32::MAX);
}

#[test]
fn ns_above_u32_max_is_format_error() {
    let results = collect(&document(
        "<page><title>T</title><ns>4294967296</ns><revision><text>x</text></revision></page>",
    ));
    assert_eq!(results.len(), 1);
    assert!(matches!(results[0], Err(ParseError::Format(_))));
}

#[test]
fn nested_element_inside_title_is_format_error() {
    let results = collect(&document(
        "<page><title><b>T</b></title><ns>0</ns><revision><text>x</text></revision></page>",
    ));
    assert_eq!(results.len(), 1);
    assert!(matches!(results[0], Err(ParseError::Format(_))));
}

#[test]
fn malformed_xml_is_reader_error() {
    let results = collect("<mediawiki xmlns=\"http://www.mediawiki.org/xml/export-0.10/\"><page>");
    assert_eq!(results.len(), 1);
    assert!(matches!(results[0], Err(ParseError::XmlReader(_))));
}

#[test]
fn parser_is_terminal_after_error() {
    let input = document("<page></page>");
    let mut parser = parse(input.as_bytes());
    assert!(matches!(parser.next(), Some(Err(ParseError::Format(_)))));
    assert!(parser.next().is_none());
    assert!(parser.next().is_none());
}

#[test]
fn describe_names_the_error() {
    let input = document("<page></page>");
    let mut parser = parse(input.as_bytes());
    let error = parser.next().unwrap().unwrap_err();
    let text = error.describe();
    assert!(text.starts_with("Invalid format at position "));
}

#[test]
fn describe_not_supported_error() {
    let results = collect(&document(
        "<page><title>T</title><ns>0</ns><revision><text>a</text></revision><revision/></page>",
    ));
    let text = results[0].as_ref().unwrap_err().describe();
    assert!(text.contains("is not supported"));
}
