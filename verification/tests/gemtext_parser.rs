//! The gemtext parser's behaviour on whole bodies.

use gemini_protocol::gemtext::{parse_gemtext, GemTextErrorKind, Line};
use gemini_protocol::gemtext::Line::{Heading, Link, Text};

#[test]
fn test_link_line_description() {
    let url = "gemini://gemini.circumlunar.space/docs/faq.gmi";
    let input = "=> gemini://gemini.circumlunar.space/docs/faq.gmi The Gemini FAQ".to_string();
    let parsed = parse_gemtext(url, &input);
    assert!(parsed.is_ok());
    let parsed = parsed.unwrap();
    assert_eq!(parsed.0.len(), 1);
    assert_eq!(
        parsed.0.get(0).unwrap(),
        &Line::Link {
            url: "gemini://gemini.circumlunar.space/docs/faq.gmi".to_string(),
            description: Some("The Gemini FAQ".to_string())
        }
    )
}

#[test]
fn test_link_line() {
    let url = "gemini://gemini.circumlunar.space/docs/faq.gmi";
    let input = "=>   \t\r gemini://gemini.circumlunar.space/docs/faq.gmi ".to_string();
    let parsed = parse_gemtext(url, &input);
    assert!(parsed.is_ok());
    let parsed = parsed.unwrap();
    assert_eq!(parsed.0.len(), 1);
    assert_eq!(
        parsed.0.get(0).unwrap(),
        &Line::Link {
            url: "gemini://gemini.circumlunar.space/docs/faq.gmi".to_string(),
            description: None
        }
    )
}

#[test]
fn test_link_line_missing_url() {
    let url = "gemini://gemini.circumlunar.space/docs/faq.gmi";
    let input = "=> ".to_string();

    let parsed = parse_gemtext(url, &input);
    assert!(parsed.is_err());
    let parsed = parsed.unwrap_err();
    assert_eq!(parsed.line, 1);
    assert_eq!(parsed.kind, GemTextErrorKind::LinkLineMissingUrl);
}

#[test]
fn test_homepage() {
    let url = "gemini://geminiprotocol.net/";
    const INPUT: &'static str = r#"# Project Gemini

## Gemini in 100 words

Gemini is a new internet technology supporting an electronic library of interconnected text documents.  That's not a new idea, but it's not old fashioned either.  It's timeless, and deserves tools which treat it as a first class concept, not a vestigial corner case.  Gemini isn't about innovation or disruption, it's about providing some respite for those who feel the internet has been disrupted enough already.  We're not out to change the world or destroy other technologies.  We are out to build a lightweight online space where documents are just documents, in the interests of every reader's privacy, attention and bandwidth.

=> docs/faq.gmi If you'd like to know more, read our FAQ
=> https://www.youtube.com/watch?v=DoEI6VzybDk  Or, if you'd prefer, here's a video overview

## Official resources

=> news/        Project Gemini news
=> docs/        Project Gemini documentation
=> history/     Project Gemini history
=> software/    Known Gemini software

All content at geminiprotocol.net is CC BY-NC-ND 4.0 licensed unless stated otherwise:
=> https://creativecommons.org/licenses/by-nc-nd/4.0/   CC Attribution-NonCommercial-NoDerivs 4.0 International
"#;

    let parsed = parse_gemtext(url, INPUT);
    assert!(parsed.is_ok());
    let parsed = parsed.unwrap();
    assert_eq!(parsed.0.len(), 18);

    assert_eq!(parsed.0, vec![
        Heading {
            text: "Project Gemini".to_string(),
            depth: 1
        },
        Text("".to_string()),
        Heading {
            text: "Gemini in 100 words".to_string(),
            depth: 2
        },
        Text("".to_string()),
        Text("Gemini is a new internet technology supporting an electronic library of interconnected text documents.  That's not a new idea, but it's not old fashioned either.  It's timeless, and deserves tools which treat it as a first class concept, not a vestigial corner case.  Gemini isn't about innovation or disruption, it's about providing some respite for those who feel the internet has been disrupted enough already.  We're not out to change the world or destroy other technologies.  We are out to build a lightweight online space where documents are just documents, in the interests of every reader's privacy, attention and bandwidth.".to_string()),
        Text("".to_string()),
        Link {
            url: "gemini://geminiprotocol.net/docs/faq.gmi".to_string(),
            description: Some("If you'd like to know more, read our FAQ".to_string())
        },
        Link {
            url: "https://www.youtube.com/watch?v=DoEI6VzybDk".to_string(),
            description: Some(" Or, if you'd prefer, here's a video overview".to_string())
        },
        Text("".to_string()),
        Heading {
            text: "Official resources".to_string(),
            depth: 2
        },
        Text("".to_string()),
        Link {
            url: "gemini://geminiprotocol.net/news/".to_string(),
            description: Some("       Project Gemini news".to_string())
        },
        Link {
            url: "gemini://geminiprotocol.net/docs/".to_string(),
            description: Some("       Project Gemini documentation".to_string())
        },
        Link {
            url: "gemini://geminiprotocol.net/history/".to_string(),
            description: Some("    Project Gemini history".to_string())
        },
        Link {
            url: "gemini://geminiprotocol.net/software/".to_string(),
            description: Some("   Known Gemini software".to_string())
        },
        Text("".to_string()),
        Text("All content at geminiprotocol.net is CC BY-NC-ND 4.0 licensed unless stated otherwise:".to_string()),
        Link {
            url: "https://creativecommons.org/licenses/by-nc-nd/4.0/".to_string(),
            description: Some("  CC Attribution-NonCommercial-NoDerivs 4.0 International".to_string())
        }
    ])
}

#[test]
fn test_relative_link_resolution() {
    let parsed = parse_gemtext("gemini://example.org/docs/", "=> faq.gmi Read the FAQ").unwrap();
    assert_eq!(
        parsed.0,
        vec![Line::Link {
            url: "gemini://example.org/docs/faq.gmi".to_string(),
            description: Some("Read the FAQ".to_string()),
        }]
    );
}

#[test]
fn test_unresolvable_link_url() {
    let parsed = parse_gemtext("gemini://example.org/", "text\n=> http://[");
    let e = parsed.unwrap_err();
    assert_eq!(e.line, 2);
    assert_eq!(e.kind, GemTextErrorKind::InvalidUrl("http://[".to_string()));
}

#[test]
fn test_parse_is_idempotent() {
    let base = "gemini://example.org/docs/";
    let body = "# Title\n=> faq.gmi FAQ\n* item\n> quote\n```\nraw\n```\nplain";
    let first = parse_gemtext(base, body).unwrap();
    let second = parse_gemtext(base, body).unwrap();
    assert_eq!(first, second);
}

#[test]
fn test_heading_depths() {
    let body = "# one\n## two\n### three\n#### four\n##### five\n###### six";
    let parsed = parse_gemtext("gemini://example.org/", body).unwrap();
    let expected: Vec<Line> = vec![
        Heading { text: "one".to_string(), depth: 1 },
        Heading { text: "two".to_string(), depth: 2 },
        Heading { text: "three".to_string(), depth: 3 },
        Heading { text: "four".to_string(), depth: 4 },
        Heading { text: "five".to_string(), depth: 5 },
        Heading { text: "six".to_string(), depth: 6 },
    ];
    assert_eq!(parsed.0, expected);
}

#[test]
fn test_heading_text_trimmed() {
    let parsed = parse_gemtext("gemini://example.org/", "##   padded title  ").unwrap();
    assert_eq!(parsed.0, vec![Heading { text: "padded title".to_string(), depth: 2 }]);
}

#[test]
fn test_list_and_quote_keep_content() {
    let parsed = parse_gemtext("gemini://example.org/", "* item one\n*bare\n> quoted\n>tight")
        .unwrap();
    assert_eq!(
        parsed.0,
        vec![
            Line::ListItem("item one".to_string()),
            Line::ListItem("bare".to_string()),
            Line::Quote("quoted".to_string()),
            Line::Quote("tight".to_string()),
        ]
    );
}

#[test]
fn test_preformat_takes_lines_literally() {
    let body = "```\n=> not a link\n# not a heading\n```\n# real heading";
    let parsed = parse_gemtext("gemini://example.org/", body).unwrap();
    assert_eq!(
        parsed.0,
        vec![
            Line::PreformatToggleOn,
            Line::Text("=> not a link".to_string()),
            Line::Text("# not a heading".to_string()),
            Line::PreformatToggleOff,
            Heading { text: "real heading".to_string(), depth: 1 },
        ]
    );
}

#[test]
fn test_empty_body_has_no_lines() {
    let parsed = parse_gemtext("gemini://example.org/", "").unwrap();
    assert!(parsed.0.is_empty());
}
