use pdf_tag_remover::rewrite::{remove_tags_from_pdf, process_content_stream, RewriteError};
use pdf_tag_remover::text::blank_spans;
use pdf_tag_remover::counts::total_matches;

/// Builds a minimal one-page PDF whose single content stream holds
/// `content` with no compression filter.
fn build_pdf(content: &[u8]) -> Vec<u8> {
    let mut doc = build_document(content);
    let mut out: Vec<u8> = Vec::new();
    doc.save_to(&mut out).unwrap();
    out
}

/// Builds the in-memory document for `build_pdf`.
fn build_document(content: &[u8]) -> lopdf::Document {
    let mut doc = lopdf::Document::with_version("1.4");
    let pages_id = doc.new_object_id();

    let stream = lopdf::Stream::new(lopdf::Dictionary::new(), content.to_vec());
    let content_id = doc.add_object(lopdf::Object::Stream(stream));

    let mut page_dict = lopdf::Dictionary::new();
    page_dict.set("Type", lopdf::Object::Name(b"Page".to_vec()));
    page_dict.set("Parent", lopdf::Object::Reference(pages_id));
    page_dict.set("Contents", lopdf::Object::Reference(content_id));
    let page_id = doc.add_object(lopdf::Object::Dictionary(page_dict));

    let mut pages_dict = lopdf::Dictionary::new();
    pages_dict.set("Type", lopdf::Object::Name(b"Pages".to_vec()));
    pages_dict.set(
        "Kids",
        lopdf::Object::Array(vec![lopdf::Object::Reference(page_id)]),
    );
    pages_dict.set("Count", lopdf::Object::Integer(1));
    doc.objects
        .insert(pages_id, lopdf::Object::Dictionary(pages_dict));

    let mut catalog = lopdf::Dictionary::new();
    catalog.set("Type", lopdf::Object::Name(b"Catalog".to_vec()));
    catalog.set("Pages", lopdf::Object::Reference(pages_id));
    let catalog_id = doc.add_object(lopdf::Object::Dictionary(catalog));
    doc.trailer.set("Root", lopdf::Object::Reference(catalog_id));
    doc
}

/// Whether a stream is the writer's own cross-reference stream rather than
/// page content.
fn is_xref_stream(s: &lopdf::Stream) -> bool {
    match s.dict.get(b"Type") {
        Ok(lopdf::Object::Name(n)) => n == b"XRef",
        _ => false,
    }
}

/// Returns the payloads of every content stream object in a PDF byte
/// buffer, together with whether its dictionary still has a Filter entry.
fn stream_payloads(pdf: &[u8]) -> Vec<(Vec<u8>, bool, Option<i64>)> {
    let doc = lopdf::Document::load_mem(pdf).unwrap();
    let mut found = Vec::new();
    for (_, object) in doc.objects.iter() {
        if let lopdf::Object::Stream(s) = object {
            if is_xref_stream(s) {
                continue;
            }
            let has_filter = s.dict.has(b"Filter");
            let length = s.dict.get(b"Length").ok().and_then(|o| o.as_i64().ok());
            found.push((s.content.clone(), has_filter, length));
        }
    }
    found
}

#[test]
fn blank_spans_replaces_exact_span() {
    let text: Vec<u8> = b"abc {{x}} def".to_vec();
    let spans: Vec<(usize, usize)> = vec![(4, 9)];
    let out = blank_spans(&text, &spans);
    assert_eq!(out, b"abc       def".to_vec());
    assert_eq!(out.len(), text.len());
}

#[test]
fn blank_spans_without_spans_is_identity() {
    let text: Vec<u8> = b"no tags here".to_vec();
    let spans: Vec<(usize, usize)> = vec![];
    assert_eq!(blank_spans(&text, &spans), text);
}

#[test]
fn blank_spans_multiple_spans() {
    let text: Vec<u8> = b"{{a}}_{{bb}}".to_vec();
    let spans: Vec<(usize, usize)> = vec![(0, 5), (6, 12)];
    assert_eq!(blank_spans(&text, &spans), b"     _      ".to_vec());
}

#[test]
fn total_matches_sums_counts() {
    assert_eq!(total_matches(&vec![1, 2, 3]), 6);
    assert_eq!(total_matches(&vec![]), 0);
    assert_eq!(total_matches(&vec![0, 0]), 0);
}

#[test]
fn total_matches_saturates() {
    assert_eq!(total_matches(&vec![usize::MAX, 1]), usize::MAX);
}

#[test]
fn one_stream_default_pattern() {
    let pdf = build_pdf(b"BT ({{name}}) Tj ET");
    let (out, count) = remove_tags_from_pdf(&pdf, None).unwrap();
    assert_eq!(count, 1);
    let payloads = stream_payloads(&out);
    assert_eq!(payloads.len(), 1);
    let (content, has_filter, length) = &payloads[0];
    assert_eq!(content, &b"BT (        ) Tj ET".to_vec());
    assert!(!has_filter);
    assert_eq!(*length, Some(content.len() as i64));
}

#[test]
fn no_tags_leaves_streams_unchanged() {
    let body: &[u8] = b"BT (plain text, no tags) Tj ET";
    let pdf = build_pdf(body);
    let (out, count) = remove_tags_from_pdf(&pdf, None).unwrap();
    assert_eq!(count, 0);
    let payloads = stream_payloads(&out);
    assert_eq!(payloads.len(), 1);
    assert_eq!(payloads[0].0, body.to_vec());
}

#[test]
fn custom_pattern_only_matches_its_own_tags() {
    let pdf = build_pdf(b"BT ([[x]] and {{y}}) Tj ET");
    let (out, count) = remove_tags_from_pdf(&pdf, Some("\\[\\[.+?\\]\\]")).unwrap();
    assert_eq!(count, 1);
    let payloads = stream_payloads(&out);
    assert_eq!(payloads[0].0, b"BT (      and {{y}}) Tj ET".to_vec());
}

#[test]
fn malformed_input_is_a_parse_failure() {
    let r = remove_tags_from_pdf(b"%PDF-1.5 truncated garbage", None);
    assert!(matches!(r, Err(RewriteError::Parse(_))));
}

#[test]
fn bad_pattern_is_a_pattern_failure() {
    let pdf = build_pdf(b"BT (text) Tj ET");
    let r = remove_tags_from_pdf(&pdf, Some("("));
    assert!(matches!(r, Err(RewriteError::Pattern(_))));
}

#[test]
fn unknown_filter_degrades_to_raw_bytes() {
    let mut doc = build_document(b"BT ({{x}}) Tj ET");
    let mut stream_id = None;
    for (id, object) in doc.objects.iter_mut() {
        if let lopdf::Object::Stream(s) = object {
            s.dict
                .set("Filter", lopdf::Object::Name(b"NoSuchFilter".to_vec()));
            stream_id = Some(*id);
        }
    }
    assert!(stream_id.is_some());
    let mut bytes: Vec<u8> = Vec::new();
    doc.save_to(&mut bytes).unwrap();

    let (out, count) = remove_tags_from_pdf(&bytes, None).unwrap();
    assert_eq!(count, 1);
    let payloads = stream_payloads(&out);
    assert_eq!(payloads[0].0, b"BT (     ) Tj ET".to_vec());
    assert!(!payloads[0].1);
}

#[test]
fn compressed_stream_is_decoded_before_matching() {
    let filler = "BT (some repeated page text) Tj ET ".repeat(40);
    let content = format!("BT ({{{{name}}}}) Tj ET {}", filler);
    let mut doc = build_document(content.as_bytes());
    let mut compressed = false;
    for (_, object) in doc.objects.iter_mut() {
        if let lopdf::Object::Stream(s) = object {
            s.compress().unwrap();
            compressed = s.dict.has(b"Filter");
        }
    }
    assert!(compressed);
    let mut bytes: Vec<u8> = Vec::new();
    doc.save_to(&mut bytes).unwrap();

    let (out, count) = remove_tags_from_pdf(&bytes, None).unwrap();
    assert_eq!(count, 1);
    let payloads = stream_payloads(&out);
    assert_eq!(payloads.len(), 1);
    let expected = content.replace("{{name}}", "        ");
    assert_eq!(payloads[0].0, expected.into_bytes());
    assert!(!payloads[0].1);
    assert_eq!(payloads[0].2, Some(payloads[0].0.len() as i64));
}

#[test]
fn second_pass_finds_nothing_and_changes_nothing() {
    let pdf = build_pdf(b"BT ({{first}} {{second}}) Tj ET");
    let (once, count1) = remove_tags_from_pdf(&pdf, None).unwrap();
    assert_eq!(count1, 2);
    let (twice, count2) = remove_tags_from_pdf(&once, None).unwrap();
    assert_eq!(count2, 0);
    assert_eq!(stream_payloads(&twice), stream_payloads(&once));
}

#[test]
fn invalid_utf8_goes_through_the_lossy_view() {
    let mut body = b"BT ({{x}}) Tj ET ".to_vec();
    body.push(0xFF);
    let pdf = build_pdf(&body);
    let (out, count) = remove_tags_from_pdf(&pdf, None).unwrap();
    assert_eq!(count, 1);
    let payloads = stream_payloads(&out);
    let mut expected = b"BT (     ) Tj ET ".to_vec();
    expected.extend_from_slice(&[0xEF, 0xBF, 0xBD]);
    assert_eq!(payloads[0].0, expected);
}

#[test]
fn process_content_stream_counts_and_rewrites() {
    let mut doc = build_document(b"BT ({{a}} {{b}} {{c}}) Tj ET");
    let mut stream_id = None;
    for (id, object) in doc.objects.iter() {
        if let lopdf::Object::Stream(_) = object {
            stream_id = Some(*id);
        }
    }
    let id = stream_id.unwrap();
    let re = regex::Regex::new("\\{\\{[^}]+\\}\\}").unwrap();
    let count = process_content_stream(&mut doc, id, &re);
    assert_eq!(count, 3);
    if let Ok(lopdf::Object::Stream(s)) = doc.get_object(id) {
        assert_eq!(s.content, b"BT (                 ) Tj ET".to_vec());
        assert!(!s.dict.has(b"Filter"));
    } else {
        panic!("stream object is gone");
    }
}

#[test]
fn process_content_stream_skips_non_streams() {
    let mut doc = build_document(b"BT (text) Tj ET");
    let re = regex::Regex::new("\\{\\{[^}]+\\}\\}").unwrap();
    let count = process_content_stream(&mut doc, (9999, 0), &re);
    assert_eq!(count, 0);
}

#[test]
fn error_message_carries_the_diagnostic() {
    let e = RewriteError::Pattern(String::from("bad pattern"));
    assert_eq!(e.message(), String::from("bad pattern"));
}

#[test]
fn count_is_summed_across_streams() {
    let mut doc = lopdf::Document::with_version("1.4");
    let pages_id = doc.new_object_id();
    let mut kids: Vec<lopdf::Object> = Vec::new();
    for body in [
        b"BT ({{one}}) Tj ET".to_vec(),
        b"BT (none here) Tj ET".to_vec(),
        b"BT ({{two}} {{three}}) Tj ET".to_vec(),
    ] {
        let stream = lopdf::Stream::new(lopdf::Dictionary::new(), body);
        let content_id = doc.add_object(lopdf::Object::Stream(stream));
        let mut page_dict = lopdf::Dictionary::new();
        page_dict.set("Type", lopdf::Object::Name(b"Page".to_vec()));
        page_dict.set("Parent", lopdf::Object::Reference(pages_id));
        page_dict.set("Contents", lopdf::Object::Reference(content_id));
        let page_id = doc.add_object(lopdf::Object::Dictionary(page_dict));
        kids.push(lopdf::Object::Reference(page_id));
    }
    let count = kids.len() as i64;
    let mut pages_dict = lopdf::Dictionary::new();
    pages_dict.set("Type", lopdf::Object::Name(b"Pages".to_vec()));
    pages_dict.set("Kids", lopdf::Object::Array(kids));
    pages_dict.set("Count", lopdf::Object::Integer(count));
    doc.objects
        .insert(pages_id, lopdf::Object::Dictionary(pages_dict));
    let mut catalog = lopdf::Dictionary::new();
    catalog.set("Type", lopdf::Object::Name(b"Catalog".to_vec()));
    catalog.set("Pages", lopdf::Object::Reference(pages_id));
    let catalog_id = doc.add_object(lopdf::Object::Dictionary(catalog));
    doc.trailer.set("Root", lopdf::Object::Reference(catalog_id));
    let mut pdf: Vec<u8> = Vec::new();
    doc.save_to(&mut pdf).unwrap();

    let (_, total) = remove_tags_from_pdf(&pdf, None).unwrap();
    assert_eq!(total, 3);
}

#[test]
fn per_object_counts_cover_every_object() {
    let mut doc = build_document(b"BT ({{a}} {{b}}) Tj ET");
    let n_objects = doc.objects.len();
    let re = regex::Regex::new("\\{\\{[^}]+\\}\\}").unwrap();
    let counts = pdf_tag_remover::rewrite::rewrite_all_streams(&mut doc, &re);
    assert_eq!(counts.len(), n_objects);
    assert_eq!(counts.iter().sum::<usize>(), 2);
    assert_eq!(counts.iter().filter(|&&c| c > 0).count(), 1);
}

#[test]
fn equal_inputs_give_equal_results() {
    let pdf = build_pdf(b"BT ({{name}} and {{other}}) Tj ET");
    let (out1, count1) = remove_tags_from_pdf(&pdf, None).unwrap();
    let (out2, count2) = remove_tags_from_pdf(&pdf, None).unwrap();
    assert_eq!(count1, count2);
    assert_eq!(out1, out2);
    let (out3, count3) = remove_tags_from_pdf(&pdf, Some("\\{\\{[^}]+\\}\\}")).unwrap();
    assert_eq!(count1, count3);
    assert_eq!(out1, out3);
}
