//! Crate-level laws: properties of the parsers that hold over all inputs,
//! stated over the same spec functions the parsers' own contracts use.

use vstd::prelude::*;
use crate::error::{ErrorKindModel, ParserErrorModel};
use crate::gemtext::{
    link_marker, pre_marker, spec_count_hashes, spec_gemtext_line, spec_parse_gemtext,
    GemTextErrorModel, LineModel, ParserMode,
};
use crate::mime::MimeTypeModel;
use crate::parser::{
    spec_mime_params, spec_mime_params_from, spec_mimetype, spec_parse_response,
    spec_upsert_param, Cursor,
};
use crate::response::{OkResponseModel, ResponseModel};
use crate::text::{spec_starts_with, spec_trim};

verus! {

/// Parsing a gemtext body is a function of the base URL and the body text
/// alone: two parses of equal inputs yield equal documents, so parsing is
/// idempotent.
pub proof fn lemma_parse_gemtext_deterministic(
    base1: Seq<char>,
    body1: Seq<char>,
    base2: Seq<char>,
    body2: Seq<char>,
)
    requires
        base1 == base2,
        body1 == body2,
    ensures
        spec_parse_gemtext(base1, body1) == spec_parse_gemtext(base2, body2),
{
}

/// A heading line never has a negative depth.
pub proof fn lemma_count_hashes_nonneg(s: Seq<char>)
    ensures
        spec_count_hashes(s) >= 0,
    decreases s.len(),
{
    if s.len() > 0 && s[0] == '#' {
        lemma_count_hashes_nonneg(s.skip(1));
    }
}

/// A line that starts with `#` is a heading whose depth is exactly the count
/// of its leading `#` characters — at every depth, not clamped — and whose
/// text is the remainder after those characters, trimmed of surrounding
/// whitespace.
pub proof fn lemma_heading_line(base: Seq<char>, line: Seq<char>, n: int)
    requires
        line.len() >= 1,
        line[0] == '#',
    ensures
        spec_gemtext_line(base, line, n, ParserMode::Normal) == (
            Ok::<LineModel, GemTextErrorModel>(
                LineModel::Heading {
                    text: spec_trim(line.skip(spec_count_hashes(line))),
                    depth: spec_count_hashes(line),
                },
            ),
            ParserMode::Normal,
        ),
        spec_count_hashes(line) >= 1,
{
    if spec_starts_with(line, link_marker()) {
        assert(line.take(2)[0] == line[0]);
        assert(false);
    }
    if spec_starts_with(line, pre_marker()) {
        assert(line.take(3)[0] == line[0]);
        assert(false);
    }
    assert(spec_starts_with(line, seq!['#'])) by {
        assert(line.take(1) =~= seq![line[0]]);
    }
    lemma_count_hashes_nonneg(line.skip(1));
}

/// The character of one decimal digit.
pub open spec fn digit_char(d: int) -> char {
    if d == 0 {
        '0'
    } else if d == 1 {
        '1'
    } else if d == 2 {
        '2'
    } else if d == 3 {
        '3'
    } else if d == 4 {
        '4'
    } else if d == 5 {
        '5'
    } else if d == 6 {
        '6'
    } else if d == 7 {
        '7'
    } else if d == 8 {
        '8'
    } else {
        '9'
    }
}

/// The two-digit status codes the grammar names a variant for.
pub open spec fn is_valid_status_code(code: int) -> bool {
    code == 10 || code == 11 || code == 20 || code == 30 || code == 31 || (40 <= code <= 44) || (50
        <= code <= 53) || code == 59 || (60 <= code <= 62)
}

/// A minimal well-formed reply for a two-digit status code: the two digits,
/// then for the input and redirect families a space and an empty CRLF-ended
/// line, for the success family a space, an empty MIME type and its newline,
/// and for the failure families a bare CRLF with no message.
pub open spec fn minimal_reply(d1: int, d2: int) -> Seq<char> {
    if d1 == 2 {
        seq![digit_char(d1), digit_char(d2), ' ', '/', '\r', '\n']
    } else if d1 == 1 || d1 == 3 {
        seq![digit_char(d1), digit_char(d2), ' ', '\r', '\n']
    } else {
        seq![digit_char(d1), digit_char(d2), '\r', '\n']
    }
}

/// The response a minimal well-formed reply parses to: the code's variant
/// with an empty prompt or target, an empty MIME type and body, or no
/// diagnostic message.
pub open spec fn minimal_response(code: int) -> ResponseModel {
    if code == 10 {
        ResponseModel::MustPromptForInput(Seq::empty())
    } else if code == 11 {
        ResponseModel::MustPromptSensitiveInput(Seq::empty())
    } else if code == 20 {
        ResponseModel::Success(
            OkResponseModel {
                mime: MimeTypeModel { typ: Seq::empty(), sub: Seq::empty(), parameters: None },
                body: Seq::empty(),
            },
        )
    } else if code == 30 {
        ResponseModel::TemporaryRedirect(Seq::empty())
    } else if code == 31 {
        ResponseModel::PermanentRedirect(Seq::empty())
    } else if code == 40 {
        ResponseModel::UnexpectedErrorTryAgain(None)
    } else if code == 41 {
        ResponseModel::ServerUnavailable(None)
    } else if code == 42 {
        ResponseModel::CGIError(None)
    } else if code == 43 {
        ResponseModel::ProxyError(None)
    } else if code == 44 {
        ResponseModel::SlowDown(None)
    } else if code == 50 {
        ResponseModel::PermanentFailure(None)
    } else if code == 51 {
        ResponseModel::ResourceNotFound(None)
    } else if code == 52 {
        ResponseModel::ResourceGone(None)
    } else if code == 53 {
        ResponseModel::ProxyRequestRefused(None)
    } else if code == 59 {
        ResponseModel::BadRequest(None)
    } else if code == 60 {
        ResponseModel::CertificateRequired(None)
    } else if code == 61 {
        ResponseModel::CertificateNotAuthorized(None)
    } else {
        ResponseModel::CertificateNotValid(None)
    }
}

/// The status-code dispatch law, over every two-digit combination: a
/// minimal well-formed reply for a code the grammar accepts parses to that
/// code's variant, and for every other two-digit combination it fails with
/// `InvalidStatus` naming the exact two-digit code. For the input and
/// redirect families the units digit is judged after the line was read, so
/// their error stands on line 2; every other family rejects on line 1.
pub proof fn lemma_status_codes(base: Seq<char>, d1: int, d2: int)
    requires
        0 <= d1 <= 9,
        0 <= d2 <= 9,
    ensures
        ({
            let r = spec_parse_response(base, minimal_reply(d1, d2));
            let code = 10 * d1 + d2;
            &&& is_valid_status_code(code) ==> r == Ok::<ResponseModel, ParserErrorModel>(
                minimal_response(code),
            )
            &&& !is_valid_status_code(code) ==> r == Err::<ResponseModel, ParserErrorModel>(
                ParserErrorModel {
                    line: if d1 == 1 || d1 == 3 {
                        2int
                    } else {
                        1int
                    },
                    kind: ErrorKindModel::InvalidStatus(code),
                },
            )
        }),
{
    let s = minimal_reply(d1, d2);
    if d1 == 2 && d2 == 0 {
        assert(spec_parse_gemtext(base, Seq::<char>::empty()) == Ok::<
            Seq<LineModel>,
            GemTextErrorModel,
        >(Seq::<LineModel>::empty()));
    }
}

/// Whether every parameter key is `charset` or `lang`.
pub open spec fn spec_param_keys_ok(ps: Seq<(Seq<char>, Seq<char>)>) -> bool {
    forall|i: int| 0 <= i < ps.len() ==> ps[i].0 == "charset"@ || ps[i].0 == "lang"@
}

/// Whether no two parameters share a key.
pub open spec fn spec_param_keys_unique(ps: Seq<(Seq<char>, Seq<char>)>) -> bool {
    forall|i: int, j: int| 0 <= i < j < ps.len() ==> ps[i].0 != ps[j].0
}

/// Taking one parameter in preserves key uniqueness, and keeps every key in
/// the allowed set when the new key is in it.
pub proof fn lemma_upsert_param_keys(ps: Seq<(Seq<char>, Seq<char>)>, k: Seq<char>, v: Seq<char>)
    requires
        spec_param_keys_unique(ps),
    ensures
        spec_param_keys_unique(spec_upsert_param(ps, k, v)),
        spec_param_keys_ok(ps) && (k == "charset"@ || k == "lang"@) ==> spec_param_keys_ok(
            spec_upsert_param(ps, k, v),
        ),
{
    crate::parser::lemma_find_key_found(ps, k);
    match crate::parser::spec_find_key(ps, k) {
        None => {
            let r = ps.push((k, v));
            assert(forall|j: int| 0 <= j < ps.len() ==> r[j] == ps[j]);
            assert(r[ps.len() as int] == (k, v));
        },
        Some(i) => {
            let r = ps.update(i, (k, v));
            assert(forall|j: int| 0 <= j < ps.len() ==> r[j].0 == ps[j].0);
        },
    }
}

/// Processing the parameter pieces preserves both key properties of the
/// accumulator.
pub proof fn lemma_mime_params_from_keys(pieces: Seq<Seq<char>>, acc: Seq<(Seq<char>, Seq<char>)>)
    requires
        spec_param_keys_ok(acc),
        spec_param_keys_unique(acc),
    ensures
        spec_param_keys_ok(spec_mime_params_from(pieces, acc)),
        spec_param_keys_unique(spec_mime_params_from(pieces, acc)),
    decreases pieces.len(),
{
    if pieces.len() > 0 {
        let acc2 = match crate::parser::spec_eq_pair(pieces[0]) {
            None => acc,
            Some((k, v)) => {
                let kt = spec_trim(k);
                let vt = spec_trim(v);
                if kt == "charset"@ || kt == "lang"@ {
                    spec_upsert_param(acc, kt, vt)
                } else {
                    acc
                }
            },
        };
        match crate::parser::spec_eq_pair(pieces[0]) {
            None => {},
            Some((k, v)) => {
                let kt = spec_trim(k);
                if kt == "charset"@ || kt == "lang"@ {
                    lemma_upsert_param_keys(acc, kt, spec_trim(v));
                }
            },
        }
        lemma_mime_params_from_keys(pieces.skip(1), acc2);
    }
}

/// Every parameter that survives MIME filtering has `charset` or `lang` as
/// its key: unknown keys are dropped, never preserved.
pub proof fn lemma_mime_params_filtered(pieces: Seq<Seq<char>>, i: int)
    requires
        0 <= i < spec_mime_params(pieces).len(),
    ensures
        spec_mime_params(pieces)[i].0 == "charset"@ || spec_mime_params(pieces)[i].0 == "lang"@,
{
    lemma_mime_params_from_keys(pieces, Seq::empty());
}

/// No two surviving MIME parameters share a key: a repeated key overrides
/// the earlier value, so the parameters form an ordered set keyed by name.
pub proof fn lemma_mime_params_unique(pieces: Seq<Seq<char>>, i: int, j: int)
    requires
        0 <= i < j < spec_mime_params(pieces).len(),
    ensures
        spec_mime_params(pieces)[i].0 != spec_mime_params(pieces)[j].0,
{
    lemma_mime_params_from_keys(pieces, Seq::empty());
}

/// Every parameter of a parsed MIME type has `charset` or `lang` as its key,
/// and no key repeats.
pub proof fn lemma_mimetype_params_filtered(s: Seq<char>, cur: Cursor, i: int)
    requires
        spec_mimetype(s, cur).0.parameters is Some,
        0 <= i < spec_mimetype(s, cur).0.parameters->0.len(),
    ensures
        spec_mimetype(s, cur).0.parameters->0[i].0 == "charset"@ || spec_mimetype(
            s,
            cur,
        ).0.parameters->0[i].0 == "lang"@,
        forall|j: int|
            0 <= j < spec_mimetype(s, cur).0.parameters->0.len() && j != i
                ==> spec_mimetype(s, cur).0.parameters->0[j].0 != spec_mimetype(
                s,
                cur,
            ).0.parameters->0[i].0,
{
    let sub = crate::parser::spec_eat_until(
        Some('\r'),
        s,
        crate::parser::spec_eat_until(Some('/'), s, cur).1,
    );
    match crate::text::spec_find_char(sub.0, ';') {
        None => {},
        Some(_j) => {
            let pieces = crate::parser::spec_split_char(sub.0, ';');
            lemma_mime_params_filtered(pieces, i);
            assert forall|j: int|
                0 <= j < spec_mime_params(pieces).len() && j != i implies spec_mime_params(
                pieces,
            )[j].0 != spec_mime_params(pieces)[i].0 by {
                if j < i {
                    lemma_mime_params_unique(pieces, j, i);
                } else {
                    lemma_mime_params_unique(pieces, i, j);
                }
            }
        },
    }
}

} // verus!
