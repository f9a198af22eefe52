//! The response parser's behaviour on whole raw replies.

use gemini_protocol::error::{ErrorKind, ParserError};
use gemini_protocol::gemtext::{GemTextError, GemTextErrorKind, Line};
use gemini_protocol::parser::parse_response;
use gemini_protocol::response::{OkResponse, Response};

const BASE: &str = "gemini://localhost/";

#[test]
fn test_ten() {
    let resp = "10 geminmi://localhost/foo\r\n";

    let r = parse_response(BASE, resp).unwrap();

    assert_eq!(r, Response::MustPromptForInput("geminmi://localhost/foo".to_string()));
}

#[test]
fn test_twenty() {
    let resp = "20 text/gemini\r\nHello, World!\nSomeData\n";

    let r = parse_response(BASE, resp).unwrap();

    if let Response::Success(OkResponse { mime, body }) = r {
        assert_eq!(mime.typ, "text");
        assert_eq!(mime.sub, "gemini");
        assert_eq!(mime.parameters.is_none(), true);
        assert_eq!(body.0.len(), 2);
    } else {
        panic!("expected success response");
    }
}

#[test]
fn test_mimetype() {
    let resp = "20 text/gemini; lang=zh-CN; charset=utf-8\r\n";

    let r = parse_response(BASE, resp).unwrap();

    if let Response::Success(OkResponse { mime, .. }) = r {
        assert_eq!(mime.typ, "text");
        assert_eq!(mime.sub, "gemini");
        assert_eq!(mime.parameters.is_some(), true);

        let params = mime.parameters.unwrap();
        assert_eq!(params.len(), 2);
        assert!(params.contains(&("lang".to_string(), "zh-CN".to_string())));
        assert!(params.contains(&("charset".to_string(), "utf-8".to_string())));
    } else {
        panic!("expected success response");
    }
}

#[test]
fn test_mimetype_unknown_params_dropped() {
    let r = parse_response(BASE, "20 text/gemini; foo=bar\r\n").unwrap();

    if let Response::Success(OkResponse { mime, .. }) = r {
        assert_eq!(mime.typ, "text");
        assert_eq!(mime.sub, "gemini");
        let params = mime.parameters.unwrap();
        assert!(params.is_empty());
    } else {
        panic!("expected success response");
    }
}

#[test]
fn test_mimetype_value_split_once() {
    let r = parse_response(BASE, "20 text/gemini; charset=x=y\r\n").unwrap();
    if let Response::Success(OkResponse { mime, .. }) = r {
        assert_eq!(
            mime.parameters.unwrap(),
            vec![("charset".to_string(), "x=y".to_string())]
        );
    } else {
        panic!("expected success response");
    }
}

#[test]
fn test_mimetype_repeated_key_overrides() {
    let r = parse_response(BASE, "20 text/gemini; charset=a; charset=b\r\n").unwrap();
    if let Response::Success(OkResponse { mime, .. }) = r {
        assert_eq!(
            mime.parameters.unwrap(),
            vec![("charset".to_string(), "b".to_string())]
        );
    } else {
        panic!("expected success response");
    }
}

#[test]
fn test_err_syntax_expected_data() {
    let cases = vec!["", "2"];

    for case in cases {
        let r = parse_response(BASE, case);
        assert_eq!(r.is_err(), true);
        assert_eq!(
            r.err() == Some(ParserError { line: 1, kind: ErrorKind::SyntaxExpectedData }),
            true
        );
    }
}

#[test]
fn test_syntax_missing_newline() {
    let cases = vec!["20 text/gemini Hello, World!"];

    for case in cases {
        let r = parse_response(BASE, case);
        assert_eq!(r.is_err(), true);
        assert_eq!(
            r.err() == Some(ParserError { line: 1, kind: ErrorKind::SyntaxMissingNewline }),
            true
        );
    }
}

#[test]
fn test_syntax_missing_space() {
    let cases = vec!["20text/gemini\r\n"];

    for case in cases {
        let r = parse_response(BASE, case);
        assert_eq!(r.is_err(), true);
        assert_eq!(
            r.err() == Some(ParserError { line: 1, kind: ErrorKind::SyntaxMissingSpace }),
            true
        );
    }
}

#[test]
fn test_invalid_digit() {
    let cases = vec!["2a0 text/gemini\r\n"];

    for case in cases {
        let r = parse_response(BASE, case);
        assert_eq!(r.is_err(), true);
        assert_eq!(
            r.err() == Some(ParserError { line: 1, kind: ErrorKind::InvalidDigit }),
            true
        );
    }
}

#[test]
fn test_all_valid_status_codes() {
    let prompts = [(10, "10 \r\n"), (11, "11 \r\n")];
    for (code, reply) in prompts {
        let r = parse_response(BASE, reply).unwrap();
        match (code, r) {
            (10, Response::MustPromptForInput(p)) => assert_eq!(p, ""),
            (11, Response::MustPromptSensitiveInput(p)) => assert_eq!(p, ""),
            other => panic!("wrong variant for {:?}", other.0),
        }
    }

    let r = parse_response(BASE, "20 /\r\n").unwrap();
    assert!(matches!(r, Response::Success(_)));

    assert_eq!(
        parse_response(BASE, "30 \r\n").unwrap(),
        Response::TemporaryRedirect(String::new())
    );
    assert_eq!(
        parse_response(BASE, "31 \r\n").unwrap(),
        Response::PermanentRedirect(String::new())
    );

    assert_eq!(parse_response(BASE, "40\r\n").unwrap(), Response::UnexpectedErrorTryAgain(None));
    assert_eq!(parse_response(BASE, "41\r\n").unwrap(), Response::ServerUnavailable(None));
    assert_eq!(parse_response(BASE, "42\r\n").unwrap(), Response::CGIError(None));
    assert_eq!(parse_response(BASE, "43\r\n").unwrap(), Response::ProxyError(None));
    assert_eq!(parse_response(BASE, "44\r\n").unwrap(), Response::SlowDown(None));
    assert_eq!(parse_response(BASE, "50\r\n").unwrap(), Response::PermanentFailure(None));
    assert_eq!(parse_response(BASE, "51\r\n").unwrap(), Response::ResourceNotFound(None));
    assert_eq!(parse_response(BASE, "52\r\n").unwrap(), Response::ResourceGone(None));
    assert_eq!(parse_response(BASE, "53\r\n").unwrap(), Response::ProxyRequestRefused(None));
    assert_eq!(parse_response(BASE, "59\r\n").unwrap(), Response::BadRequest(None));
    assert_eq!(parse_response(BASE, "60\r\n").unwrap(), Response::CertificateRequired(None));
    assert_eq!(
        parse_response(BASE, "61\r\n").unwrap(),
        Response::CertificateNotAuthorized(None)
    );
    assert_eq!(parse_response(BASE, "62\r\n").unwrap(), Response::CertificateNotValid(None));
}

#[test]
fn test_invalid_status_codes() {
    // An unrecognized units digit within a recognized family names the full
    // two-digit code.
    let r = parse_response(BASE, "12 \r\n");
    assert!(matches!(r, Err(ParserError { kind: ErrorKind::InvalidStatus(12), .. })));

    let r = parse_response(BASE, "21 text/gemini\r\n");
    assert_eq!(r, Err(ParserError { line: 1, kind: ErrorKind::InvalidStatus(21) }));

    let r = parse_response(BASE, "47\r\n");
    assert_eq!(r, Err(ParserError { line: 1, kind: ErrorKind::InvalidStatus(47) }));

    let r = parse_response(BASE, "55\r\n");
    assert_eq!(r, Err(ParserError { line: 1, kind: ErrorKind::InvalidStatus(55) }));

    let r = parse_response(BASE, "63\r\n");
    assert_eq!(r, Err(ParserError { line: 1, kind: ErrorKind::InvalidStatus(63) }));

    // A leading digit outside the six families reads the units digit too and
    // names the full two-digit code.
    let r = parse_response(BASE, "70\r\n");
    assert_eq!(r, Err(ParserError { line: 1, kind: ErrorKind::InvalidStatus(70) }));

    let r = parse_response(BASE, "08\r\n");
    assert_eq!(r, Err(ParserError { line: 1, kind: ErrorKind::InvalidStatus(8) }));

    // A lone unassigned leading digit runs out of input at the units digit.
    let r = parse_response(BASE, "7");
    assert_eq!(r, Err(ParserError { line: 1, kind: ErrorKind::SyntaxExpectedData }));

    // A leading character that is no digit at all yields code 0.
    let r = parse_response(BASE, "x0\r\n");
    assert_eq!(r, Err(ParserError { line: 1, kind: ErrorKind::InvalidStatus(0) }));
}

#[test]
fn test_lone_cr_is_kept_in_content() {
    let r = parse_response(BASE, "10 a\rb\r\n").unwrap();
    assert_eq!(r, Response::MustPromptForInput("a\rb".to_string()));
}

#[test]
fn test_failure_messages() {
    let r = parse_response(BASE, "51 not found\r\n").unwrap();
    assert_eq!(r, Response::ResourceNotFound(Some("not found".to_string())));

    let r = parse_response(BASE, "51\r\n").unwrap();
    assert_eq!(r, Response::ResourceNotFound(None));
}

#[test]
fn test_invalid_body_wraps_gemtext_error() {
    let r = parse_response(BASE, "20 text/gemini\r\n=> ");
    assert_eq!(
        r,
        Err(ParserError {
            line: 1,
            kind: ErrorKind::InvalidBody(GemTextError {
                line: 1,
                kind: GemTextErrorKind::LinkLineMissingUrl,
            }),
        })
    );
}

#[test]
fn test_success_body_links_resolved() {
    let r = parse_response("gemini://example.org/docs/", "20 text/gemini\r\n=> faq.gmi Read the FAQ\n")
        .unwrap();
    if let Response::Success(OkResponse { body, .. }) = r {
        assert_eq!(
            body.0,
            vec![Line::Link {
                url: "gemini://example.org/docs/faq.gmi".to_string(),
                description: Some("Read the FAQ".to_string()),
            }]
        );
    } else {
        panic!("expected success response");
    }
}

#[test]
fn test_parser_cursor_primitives() {
    let mut p = gemini_protocol::parser::Parser::new("gemini://x/", "ab\ncd\r\nrest");
    assert_eq!(p.eat_char().unwrap(), 'a');
    assert_eq!(p.peek(), 'b');
    assert_eq!(p.eat_until(Some('\n')), "b");
    assert_eq!(p.line, 2);
    assert_eq!(p.eat_until_crlf(), "cd");
    assert_eq!(p.line, 3);
    assert_eq!(p.eat_until(None), "rest");
}

#[test]
fn test_parser_digit_and_message() {
    let mut p = gemini_protocol::parser::Parser::new("gemini://x/", "4 msg\r\n");
    assert_eq!(p.eat_digit().unwrap(), 4);
    assert_eq!(p.read_error_msg().unwrap(), Some("msg".to_string()));

    let mut q = gemini_protocol::parser::Parser::new("gemini://x/", "x");
    assert!(q.eat_digit().is_err());

    let mut s = gemini_protocol::parser::Parser::new("gemini://x/", "51\r\n");
    assert_eq!(s.eat_digit().unwrap(), 5);
    assert_eq!(s.eat_digit().unwrap(), 1);
    assert_eq!(s.read_error_msg().unwrap(), None);
}
