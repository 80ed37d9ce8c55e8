use jobsearch::description::{
    format_text_view_model, TextAttribute, TextAttributeDetail, TextViewModel,
};
use jobsearch::description::{description_sections_to_markdown, DescriptionSection, TextLink};

#[test]
fn handles_inline_styles_and_links() {
    let tv = TextViewModel {
        text: "Visit our website for details.".to_string(),
        attributes: vec![
            TextAttribute {
                start: 0,
                length: 5,
                detail_data: TextAttributeDetail {
                    style: Some("BOLD".to_string()),
                    ..Default::default()
                },
            },
            TextAttribute {
                start: 10,
                length: 7,
                detail_data: TextAttributeDetail {
                    style: Some("URL".to_string()),
                    hyperlink: Some("https://example.com".to_string()),
                    ..Default::default()
                },
            },
        ],
    };
    let md = format_text_view_model(&tv);
    assert!(md.contains("**Visit**"));
    assert!(md.contains("[website](https://example.com)"));
}

#[test]
fn list_items_converted_from_bullets() {
    let tv = TextViewModel {
        text: "Item one\n• Item two".to_string(),
        attributes: vec![TextAttribute {
            start: 10,
            length: 9,
            detail_data: TextAttributeDetail {
                style: Some("LIST_ITEM".to_string()),
                ..Default::default()
            },
        }],
    };
    let md = format_text_view_model(&tv);
    assert!(md.contains("- Item two"));
}

#[test]
fn empty_text_returns_empty() {
    let tv = TextViewModel {
        text: String::new(),
        attributes: vec![],
    };
    assert!(format_text_view_model(&tv).is_empty());
}

fn plain(text: &str) -> TextViewModel {
    TextViewModel { text: text.to_string(), attributes: vec![] }
}

#[test]
fn plain_text_is_trimmed() {
    assert_eq!(format_text_view_model(&plain("  hello  ")), "hello");
    assert_eq!(format_text_view_model(&plain("   ")), "");
}

#[test]
fn bold_italic_and_text_links() {
    let tv = TextViewModel {
        text: "Apply here now".to_string(),
        attributes: vec![
            TextAttribute {
                start: 0,
                length: 5,
                detail_data: TextAttributeDetail { style: Some("ITALIC".into()), ..Default::default() },
            },
            TextAttribute {
                start: 6,
                length: 4,
                detail_data: TextAttributeDetail {
                    style: Some("HYPERLINK".into()),
                    text_link: Some(TextLink { url: None, redirect_url: Some("https://r.example".into()) }),
                    ..Default::default()
                },
            },
            TextAttribute {
                start: 6,
                length: 4,
                detail_data: TextAttributeDetail { style: Some("BOLD".into()), ..Default::default() },
            },
        ],
    };
    assert_eq!(format_text_view_model(&tv), "*Apply* [**here**](https://r.example) now");
}

#[test]
fn paragraphs_and_lists() {
    let text = "Intro\n• one\n• two\nOutro";
    let attr = |start: usize, length: usize, style: &str| TextAttribute {
        start,
        length,
        detail_data: TextAttributeDetail { style: Some(style.into()), ..Default::default() },
    };
    let tv = TextViewModel {
        text: text.to_string(),
        attributes: vec![attr(0, 5, "PARAGRAPH"), attr(6, 5, "LIST_ITEM"), attr(12, 5, "LIST_ITEM"), attr(18, 5, "PARAGRAPH")],
    };
    assert_eq!(format_text_view_model(&tv), "Intro\n\n- one\n- two\n\nOutro");
}

#[test]
fn sections_joined_with_rules() {
    let s1 = DescriptionSection { header: Some(plain(" About the job ")), body: plain("Body one") };
    let s2 = DescriptionSection { header: None, body: plain("   ") };
    let s3 = DescriptionSection { header: None, body: plain("Body three") };
    let md = description_sections_to_markdown(&[s1, s2, s3]);
    assert!(md.starts_with("**About the job**"));
    assert_eq!(md, "**About the job**\n\nBody one\n\n---\n\nBody three");
}

#[test]
fn out_of_range_attributes_are_ignored() {
    let tv = TextViewModel {
        text: "abc".to_string(),
        attributes: vec![TextAttribute {
            start: 1,
            length: 10,
            detail_data: TextAttributeDetail { style: Some("BOLD".into()), ..Default::default() },
        }],
    };
    assert_eq!(format_text_view_model(&tv), "abc");
}
