//! The response parser: a single forward pass over the raw reply text that
//! dispatches on the two status digits and produces a typed
//! [`Response`](crate::response::Response) or a line-accurate
//! [`ParserError`](crate::error::ParserError).

use vstd::prelude::*;
use vstd::pervasive::VecAdditionalExecFns;
use crate::error::{ErrorKind, ErrorKindModel, ParserError, ParserErrorModel, spec_wrap_gemtext_error};
use crate::gemtext::{parse_gemtext, spec_parse_gemtext};
use crate::mime::{MimeType, MimeTypeModel};
use crate::response::{OkResponse, Response, ResponseModel};
use crate::text::{
    chars_to_string, digit_value, find_char_from, is_digit, is_digit_char, lemma_find_char_found,
    spec_find_char, spec_trim, str_eq, str_to_chars, subvec, trim_range, vec_chars_eq,
    view_opt_string,
};

verus! {

/// A reading position in the input: the index of the next character and the
/// 1-based line it stands on.
pub struct Cursor {
    pub pos: int,
    pub line: int,
}

/// Reading one character: every consumed `\n` increments the line; reading
/// past the end of input is `SyntaxExpectedData`.
pub open spec fn spec_eat_char(s: Seq<char>, cur: Cursor) -> Result<(char, Cursor), ParserErrorModel> {
    if 0 <= cur.pos < s.len() {
        let c = s[cur.pos];
        Ok(
            (
                c,
                Cursor {
                    pos: cur.pos + 1,
                    line: cur.line + if c == '\n' {
                        1int
                    } else {
                        0int
                    },
                },
            ),
        )
    } else {
        Err(ParserErrorModel { line: cur.line, kind: ErrorKindModel::SyntaxExpectedData })
    }
}

/// Reading one status digit: a consumed character that is no ASCII digit is
/// `InvalidDigit`.
pub open spec fn spec_eat_digit(s: Seq<char>, cur: Cursor) -> Result<(int, Cursor), ParserErrorModel> {
    match spec_eat_char(s, cur) {
        Ok((c, cur2)) => if is_digit_char(c) {
            Ok((digit_value(c), cur2))
        } else {
            Err(ParserErrorModel { line: cur2.line, kind: ErrorKindModel::InvalidDigit })
        },
        Err(e) => Err(e),
    }
}

/// Reading the mandatory space after the status code: anything else is
/// `SyntaxMissingSpace`.
pub open spec fn spec_eat_sp(s: Seq<char>, cur: Cursor) -> Result<Cursor, ParserErrorModel> {
    match spec_eat_char(s, cur) {
        Ok((c, cur2)) => if c == ' ' {
            Ok(cur2)
        } else {
            Err(ParserErrorModel { line: cur2.line, kind: ErrorKindModel::SyntaxMissingSpace })
        },
        Err(e) => Err(e),
    }
}

/// The next character without consuming it; the NUL character stands in at
/// the end of input.
pub open spec fn spec_peek(s: Seq<char>, cur: Cursor) -> char {
    if 0 <= cur.pos < s.len() {
        s[cur.pos]
    } else {
        '\u{0}'
    }
}

/// Reading up to and including a CRLF sequence: the content is everything
/// before the first `\r\n` pair, which is consumed and excluded; a `\r` not
/// directly followed by `\n` is ordinary content, and input may end before
/// any CRLF, in which case everything is consumed and returned.
pub open spec fn spec_take_until_crlf(s: Seq<char>, cur: Cursor) -> (Seq<char>, Cursor)
    decreases s.len() - cur.pos,
{
    if !(0 <= cur.pos < s.len()) {
        (Seq::empty(), cur)
    } else {
        let c = s[cur.pos];
        if c == '\r' && cur.pos + 1 < s.len() && s[cur.pos + 1] == '\n' {
            (Seq::empty(), Cursor { pos: cur.pos + 2, line: cur.line + 1 })
        } else {
            let r = spec_take_until_crlf(
                s,
                Cursor {
                    pos: cur.pos + 1,
                    line: cur.line + if c == '\n' {
                        1int
                    } else {
                        0int
                    },
                },
            );
            (seq![c] + r.0, r.1)
        }
    }
}

/// Reading up to and including a stop character (or to the end of input when
/// there is none): the stop character is consumed but excluded.
pub open spec fn spec_eat_until(stop: Option<char>, s: Seq<char>, cur: Cursor) -> (Seq<char>, Cursor)
    decreases s.len() - cur.pos,
{
    if !(0 <= cur.pos < s.len()) {
        (Seq::empty(), cur)
    } else {
        let c = s[cur.pos];
        let cur2 = Cursor {
            pos: cur.pos + 1,
            line: cur.line + if c == '\n' {
                1int
            } else {
                0int
            },
        };
        if stop == Some(c) {
            (Seq::empty(), cur2)
        } else {
            let r = spec_eat_until(stop, s, cur2);
            (seq![c] + r.0, r.1)
        }
    }
}

/// Reading the optional ` message` of a failure reply: a message is present
/// exactly when the next character is a space; its absence is no error.
pub open spec fn spec_read_error_msg(s: Seq<char>, cur: Cursor) -> (Option<Seq<char>>, Cursor) {
    if spec_peek(s, cur) == ' ' {
        let cur2 = Cursor { pos: cur.pos + 1, line: cur.line };
        let r = spec_take_until_crlf(s, cur2);
        (Some(r.0), r.1)
    } else {
        (None, cur)
    }
}

/// The pieces of `s` split at every occurrence of `t`.
pub open spec fn spec_split_char(s: Seq<char>, t: char) -> Seq<Seq<char>>
    decreases s.len(),
    via spec_split_char_decreases
{
    match spec_find_char(s, t) {
        None => seq![s],
        Some(i) => seq![s.take(i)] + spec_split_char(s.skip(i + 1), t),
    }
}

#[via_fn]
proof fn spec_split_char_decreases(s: Seq<char>, t: char) {
    lemma_find_char_found(s, t);
}

/// The key/value pair a parameter piece yields, split once on `=`: the text
/// before the first `=` and everything after it; a piece without `=` yields
/// none.
pub open spec fn spec_eq_pair(piece: Seq<char>) -> Option<(Seq<char>, Seq<char>)> {
    match spec_find_char(piece, '=') {
        None => None,
        Some(i) => Some((piece.take(i), piece.skip(i + 1))),
    }
}

/// The first entry holding key `k`, if any.
pub open spec fn spec_find_key(ps: Seq<(Seq<char>, Seq<char>)>, k: Seq<char>) -> Option<int>
    decreases ps.len(),
{
    if ps.len() == 0 {
        None
    } else if ps[0].0 == k {
        Some(0)
    } else {
        match spec_find_key(ps.skip(1), k) {
            Some(i) => Some(i + 1),
            None => None,
        }
    }
}

/// What `spec_find_key` returns is the first entry with that key.
pub proof fn lemma_find_key_found(ps: Seq<(Seq<char>, Seq<char>)>, k: Seq<char>)
    ensures
        match spec_find_key(ps, k) {
            Some(i) => 0 <= i < ps.len() && ps[i].0 == k && forall|j: int|
                0 <= j < i ==> ps[j].0 != k,
            None => forall|j: int| 0 <= j < ps.len() ==> ps[j].0 != k,
        },
    decreases ps.len(),
{
    if ps.len() > 0 && ps[0].0 != k {
        lemma_find_key_found(ps.skip(1), k);
        assert(forall|j: int| 1 <= j < ps.len() ==> ps[j] == ps.skip(1)[j - 1]);
    }
}

/// A first occurrence of key `k` pins down `spec_find_key`.
pub proof fn lemma_find_key_some(ps: Seq<(Seq<char>, Seq<char>)>, k: Seq<char>, i: int)
    requires
        0 <= i < ps.len(),
        ps[i].0 == k,
        forall|j: int| 0 <= j < i ==> ps[j].0 != k,
    ensures
        spec_find_key(ps, k) == Some(i),
    decreases i,
{
    if i > 0 {
        lemma_find_key_some(ps.skip(1), k, i - 1);
    }
}

/// With key `k` absent, `spec_find_key` finds nothing.
pub proof fn lemma_find_key_none(ps: Seq<(Seq<char>, Seq<char>)>, k: Seq<char>)
    requires
        forall|j: int| 0 <= j < ps.len() ==> ps[j].0 != k,
    ensures
        spec_find_key(ps, k) is None,
    decreases ps.len(),
{
    if ps.len() > 0 {
        lemma_find_key_none(ps.skip(1), k);
    }
}

/// Taking one parameter in: a pair whose key is already present replaces
/// that entry's value in place, a new key is appended, so the collection is
/// an ordered set keyed by the parameter name with the last value winning.
pub open spec fn spec_upsert_param(
    ps: Seq<(Seq<char>, Seq<char>)>,
    k: Seq<char>,
    v: Seq<char>,
) -> Seq<(Seq<char>, Seq<char>)> {
    match spec_find_key(ps, k) {
        None => ps.push((k, v)),
        Some(i) => ps.update(i, (k, v)),
    }
}

/// The parameters kept from the split pieces, processed left to right over
/// `acc`: both sides trimmed, only pairs whose key is exactly `charset` or
/// `lang` survive, and a repeated key overrides the earlier value.
pub open spec fn spec_mime_params_from(
    pieces: Seq<Seq<char>>,
    acc: Seq<(Seq<char>, Seq<char>)>,
) -> Seq<(Seq<char>, Seq<char>)>
    decreases pieces.len(),
{
    if pieces.len() == 0 {
        acc
    } else {
        let acc2 = match spec_eq_pair(pieces[0]) {
            None => acc,
            Some((k, v)) => {
                let kt = spec_trim(k);
                let vt = spec_trim(v);
                if kt == "charset"@ || kt == "lang"@ {
                    spec_upsert_param(acc, kt, vt)
                } else {
                    acc
                }
            },
        };
        spec_mime_params_from(pieces.skip(1), acc2)
    }
}

/// The parameters a status line's pieces yield, starting from none.
pub open spec fn spec_mime_params(pieces: Seq<Seq<char>>) -> Seq<(Seq<char>, Seq<char>)> {
    spec_mime_params_from(pieces, Seq::empty())
}

/// The MIME type sub-parser: the type is everything before the first `/`,
/// the raw subtype everything before the first `\r`; with no `;` there are
/// no parameters, otherwise the subtype is truncated at the first `;` and
/// the parameters are filtered as [`spec_mime_params`] says.
pub open spec fn spec_mimetype(s: Seq<char>, cur: Cursor) -> (MimeTypeModel, Cursor) {
    let t = spec_eat_until(Some('/'), s, cur);
    let sub = spec_eat_until(Some('\r'), s, t.1);
    match spec_find_char(sub.0, ';') {
        None => (MimeTypeModel { typ: t.0, sub: sub.0, parameters: None }, sub.1),
        Some(i) => (
            MimeTypeModel {
                typ: t.0,
                sub: sub.0.take(i),
                parameters: Some(spec_mime_params(spec_split_char(sub.0, ';'))),
            },
            sub.1,
        ),
    }
}

/// The input family (codes 10 and 11): a digit, the mandatory space, then
/// the prompt up to CRLF; an unrecognized units digit is `InvalidStatus` of
/// the full code.
pub open spec fn spec_input(s: Seq<char>, cur: Cursor) -> Result<(ResponseModel, Cursor), ParserErrorModel> {
    match spec_eat_digit(s, cur) {
        Err(e) => Err(e),
        Ok((d, c1)) => match spec_eat_sp(s, c1) {
            Err(e) => Err(e),
            Ok(c2) => {
                let r = spec_take_until_crlf(s, c2);
                if d == 0 {
                    Ok((ResponseModel::MustPromptForInput(r.0), r.1))
                } else if d == 1 {
                    Ok((ResponseModel::MustPromptSensitiveInput(r.0), r.1))
                } else {
                    Err(ParserErrorModel {
                        line: r.1.line,
                        kind: ErrorKindModel::InvalidStatus(10 + d),
                    })
                }
            },
        },
    }
}

/// The success family (code 20): a digit — any units digit other than `0`
/// is `InvalidStatus` of the full code — then the rest of the status line
/// and the body, as [`spec_success_tail`] says.
pub open spec fn spec_success(base: Seq<char>, s: Seq<char>, cur: Cursor) -> Result<
    (ResponseModel, Cursor),
    ParserErrorModel,
> {
    match spec_eat_digit(s, cur) {
        Err(e) => Err(e),
        Ok((d, c1)) => if d != 0 {
            Err(ParserErrorModel { line: c1.line, kind: ErrorKindModel::InvalidStatus(20 + d) })
        } else {
            spec_success_tail(base, s, c1)
        },
    }
}

/// The success family after its `0` units digit: the mandatory space, the
/// MIME type, a mandatory `\n`, then the whole remaining input as the
/// gemtext body, parsed against the base URL; a body error is wrapped as
/// `InvalidBody`.
pub open spec fn spec_success_tail(base: Seq<char>, s: Seq<char>, c1: Cursor) -> Result<
    (ResponseModel, Cursor),
    ParserErrorModel,
> {
    match spec_eat_sp(s, c1) {
        Err(e) => Err(e),
        Ok(c2) => {
            let m = spec_mimetype(s, c2);
            if spec_peek(s, m.1) != '\n' {
                Err(ParserErrorModel {
                    line: m.1.line,
                    kind: ErrorKindModel::SyntaxMissingNewline,
                })
            } else {
                match spec_eat_char(s, m.1) {
                    Err(e) => Err(e),
                    Ok((_c, c3)) => {
                        let b = spec_eat_until(None, s, c3);
                        match spec_parse_gemtext(base, b.0) {
                            Err(g) => Err(spec_wrap_gemtext_error(g)),
                            Ok(ls) => Ok(
                                (
                                    ResponseModel::Success(
                                        crate::response::OkResponseModel {
                                            mime: m.0,
                                            body: ls,
                                        },
                                    ),
                                    b.1,
                                ),
                            ),
                        }
                    },
                }
            }
        },
    }
}

/// The redirect family (codes 30 and 31): a digit, the mandatory space, then
/// the raw target up to CRLF, not yet resolved to a URL.
pub open spec fn spec_redirect(s: Seq<char>, cur: Cursor) -> Result<(ResponseModel, Cursor), ParserErrorModel> {
    match spec_eat_digit(s, cur) {
        Err(e) => Err(e),
        Ok((d, c1)) => match spec_eat_sp(s, c1) {
            Err(e) => Err(e),
            Ok(c2) => {
                let r = spec_take_until_crlf(s, c2);
                if d == 0 {
                    Ok((ResponseModel::TemporaryRedirect(r.0), r.1))
                } else if d == 1 {
                    Ok((ResponseModel::PermanentRedirect(r.0), r.1))
                } else {
                    Err(ParserErrorModel {
                        line: r.1.line,
                        kind: ErrorKindModel::InvalidStatus(30 + d),
                    })
                }
            },
        },
    }
}

/// The temporary-failure family (codes 40 to 44): a digit, then the optional
/// diagnostic message.
pub open spec fn spec_tempfail(s: Seq<char>, cur: Cursor) -> Result<(ResponseModel, Cursor), ParserErrorModel> {
    match spec_eat_digit(s, cur) {
        Err(e) => Err(e),
        Ok((d, c1)) => {
            let r = spec_read_error_msg(s, c1);
            if d == 0 {
                Ok((ResponseModel::UnexpectedErrorTryAgain(r.0), r.1))
            } else if d == 1 {
                Ok((ResponseModel::ServerUnavailable(r.0), r.1))
            } else if d == 2 {
                Ok((ResponseModel::CGIError(r.0), r.1))
            } else if d == 3 {
                Ok((ResponseModel::ProxyError(r.0), r.1))
            } else if d == 4 {
                Ok((ResponseModel::SlowDown(r.0), r.1))
            } else {
                Err(ParserErrorModel {
                    line: r.1.line,
                    kind: ErrorKindModel::InvalidStatus(40 + d),
                })
            }
        },
    }
}

/// The permanent-failure family (codes 50 to 53 and 59): a digit, then the
/// optional diagnostic message.
pub open spec fn spec_permfail(s: Seq<char>, cur: Cursor) -> Result<(ResponseModel, Cursor), ParserErrorModel> {
    match spec_eat_digit(s, cur) {
        Err(e) => Err(e),
        Ok((d, c1)) => {
            let r = spec_read_error_msg(s, c1);
            if d == 0 {
                Ok((ResponseModel::PermanentFailure(r.0), r.1))
            } else if d == 1 {
                Ok((ResponseModel::ResourceNotFound(r.0), r.1))
            } else if d == 2 {
                Ok((ResponseModel::ResourceGone(r.0), r.1))
            } else if d == 3 {
                Ok((ResponseModel::ProxyRequestRefused(r.0), r.1))
            } else if d == 9 {
                Ok((ResponseModel::BadRequest(r.0), r.1))
            } else {
                Err(ParserErrorModel {
                    line: r.1.line,
                    kind: ErrorKindModel::InvalidStatus(50 + d),
                })
            }
        },
    }
}

/// The certificate family (codes 60 to 62): a digit, then the optional
/// diagnostic message.
pub open spec fn spec_auth(s: Seq<char>, cur: Cursor) -> Result<(ResponseModel, Cursor), ParserErrorModel> {
    match spec_eat_digit(s, cur) {
        Err(e) => Err(e),
        Ok((d, c1)) => {
            let r = spec_read_error_msg(s, c1);
            if d == 0 {
                Ok((ResponseModel::CertificateRequired(r.0), r.1))
            } else if d == 1 {
                Ok((ResponseModel::CertificateNotAuthorized(r.0), r.1))
            } else if d == 2 {
                Ok((ResponseModel::CertificateNotValid(r.0), r.1))
            } else {
                Err(ParserErrorModel {
                    line: r.1.line,
                    kind: ErrorKindModel::InvalidStatus(60 + d),
                })
            }
        },
    }
}

/// The whole grammar: one status digit dispatches to its family; a leading
/// digit outside `1`–`6` reads the second digit too and is `InvalidStatus`
/// of the full two-digit code; a leading character that is no digit at all
/// is `InvalidStatus(0)`.
pub open spec fn spec_reply(base: Seq<char>, s: Seq<char>, cur: Cursor) -> Result<
    (ResponseModel, Cursor),
    ParserErrorModel,
> {
    match spec_eat_char(s, cur) {
        Err(e) => Err(e),
        Ok((c, c1)) => if c == '1' {
            spec_input(s, c1)
        } else if c == '2' {
            spec_success(base, s, c1)
        } else if c == '3' {
            spec_redirect(s, c1)
        } else if c == '4' {
            spec_tempfail(s, c1)
        } else if c == '5' {
            spec_permfail(s, c1)
        } else if c == '6' {
            spec_auth(s, c1)
        } else if is_digit_char(c) {
            match spec_eat_digit(s, c1) {
                Err(e) => Err(e),
                Ok((d2, c2)) => Err(
                    ParserErrorModel {
                        line: c2.line,
                        kind: ErrorKindModel::InvalidStatus(10 * digit_value(c) + d2),
                    },
                ),
            }
        } else {
            Err(ParserErrorModel { line: c1.line, kind: ErrorKindModel::InvalidStatus(0) })
        },
    }
}

/// The complete parse of a raw reply against a base URL, starting at
/// position 0 on line 1.
pub open spec fn spec_parse_response(base: Seq<char>, s: Seq<char>) -> Result<
    ResponseModel,
    ParserErrorModel,
> {
    match spec_reply(base, s, Cursor { pos: 0, line: 1 }) {
        Ok((m, _cur)) => Ok(m),
        Err(e) => Err(e),
    }
}

/// The mathematical value of a whole-reply parse result.
pub open spec fn view_response_result(r: Result<Response, ParserError>) -> Result<
    ResponseModel,
    ParserErrorModel,
> {
    match r {
        Ok(resp) => Ok(resp@),
        Err(e) => Err(e@),
    }
}

/// The single-pass reader over the raw reply: the base URL for the success
/// body's links, the input characters, the position of the next character,
/// and the 1-based line it stands on.
pub struct Parser {
    pub base_url: String,
    pub input: Vec<char>,
    pub pos: usize,
    pub line: usize,
}

impl Parser {
    /// The reader is inside its input and its line counter cannot overflow.
    pub open spec fn wf(self) -> bool {
        self.pos <= self.input@.len() && self.input@.len() < usize::MAX && 1 <= self.line
            && self.line <= 1 + self.pos
    }

    /// The current reading position.
    pub open spec fn cur(self) -> Cursor {
        Cursor { pos: self.pos as int, line: self.line as int }
    }

    /// A fresh reader at position 0 on line 1.
    pub fn new(base_url: &str, response: &str) -> (r: Parser)
        requires
            response@.len() < usize::MAX,
        ensures
            r.wf(),
            r.base_url@ == base_url@,
            r.input@ == response@,
            r.cur() == (Cursor { pos: 0int, line: 1int }),
    {
        Parser { base_url: base_url.to_owned(), input: str_to_chars(response), pos: 0, line: 1 }
    }

    /// An error at the current line.
    pub fn make_err(&self, kind: ErrorKind) -> (r: ParserError)
        ensures
            r@ == (ParserErrorModel { line: self.line as int, kind: kind@ }),
    {
        ParserError { line: self.line, kind }
    }

    /// Consumes one character, as [`spec_eat_char`] says.
    pub fn eat_char(&mut self) -> (r: Result<char, ParserError>)
        requires
            old(self).wf(),
        ensures
            final(self).wf(),
            final(self).base_url == old(self).base_url,
            final(self).input == old(self).input,
            (match spec_eat_char(old(self).input@, old(self).cur()) {
                Ok((c, cur2)) => r == Ok::<char, ParserError>(c) && final(self).cur() == cur2,
                Err(e) => (r matches Err(pe) && pe@ == e) && final(self).cur() == old(self).cur(),
            }),
    {
        if self.pos < self.input.len() {
            let c = self.input[self.pos];
            self.pos = self.pos + 1;
            if c == '\n' {
                self.line = self.line + 1;
            }
            Ok(c)
        } else {
            Err(self.make_err(ErrorKind::SyntaxExpectedData))
        }
    }

    /// Consumes one status digit, as [`spec_eat_digit`] says.
    pub fn eat_digit(&mut self) -> (r: Result<u32, ParserError>)
        requires
            old(self).wf(),
        ensures
            final(self).wf(),
            final(self).base_url == old(self).base_url,
            final(self).input == old(self).input,
            (match spec_eat_digit(old(self).input@, old(self).cur()) {
                Ok((d, cur2)) => (r matches Ok(x) && x as int == d) && final(self).cur() == cur2,
                Err(e) => (r matches Err(pe) && pe@ == e) && final(self).cur() == (
                match spec_eat_char(old(self).input@, old(self).cur()) {
                    Ok((_c, cur2)) => cur2,
                    Err(_) => old(self).cur(),
                }),
            }),
    {
        let c = match self.eat_char() {
            Ok(c) => c,
            Err(e) => {
                return Err(e);
            },
        };
        if is_digit(c) {
            let u: u32 = c as u32;
            Ok(u - 0x30)
        } else {
            Err(self.make_err(ErrorKind::InvalidDigit))
        }
    }

    /// Consumes the mandatory space, as [`spec_eat_sp`] says.
    pub fn eat_sp(&mut self) -> (r: Result<(), ParserError>)
        requires
            old(self).wf(),
        ensures
            final(self).wf(),
            final(self).base_url == old(self).base_url,
            final(self).input == old(self).input,
            (match spec_eat_sp(old(self).input@, old(self).cur()) {
                Ok(cur2) => (r matches Ok(u) && u == ()) && final(self).cur() == cur2,
                Err(e) => (r matches Err(pe) && pe@ == e) && final(self).cur() == (
                match spec_eat_char(old(self).input@, old(self).cur()) {
                    Ok((_c, cur2)) => cur2,
                    Err(_) => old(self).cur(),
                }),
            }),
    {
        let c = match self.eat_char() {
            Ok(c) => c,
            Err(e) => {
                return Err(e);
            },
        };
        if c != ' ' {
            return Err(self.make_err(ErrorKind::SyntaxMissingSpace));
        }
        Ok(())
    }

    /// The next character without consuming it, as [`spec_peek`] says.
    pub fn peek(&self) -> (r: char)
        ensures
            r == spec_peek(self.input@, self.cur()),
    {
        if self.pos < self.input.len() {
            self.input[self.pos]
        } else {
            '\u{0}'
        }
    }

    /// Consumes characters up to and including a CRLF sequence (or to the
    /// end of input) and returns the content before it, as
    /// [`spec_take_until_crlf`] says.
    pub fn eat_until_crlf(&mut self) -> (r: String)
        requires
            old(self).wf(),
        ensures
            final(self).wf(),
            final(self).base_url == old(self).base_url,
            final(self).input == old(self).input,
            ({
                let m = spec_take_until_crlf(old(self).input@, old(self).cur());
                r@ == m.0 && final(self).cur() == m.1
            }),
    {
        let ghost s = self.input@;
        let ghost whole = spec_take_until_crlf(s, self.cur());
        let mut acc: Vec<char> = Vec::new();
        let mut stopped = false;
        proof {
            assert(acc@ + whole.0 =~= whole.0);
        }
        while !stopped && self.pos < self.input.len()
            invariant
                self.wf(),
                self.input@ == s,
                self.input == old(self).input,
                self.base_url == old(self).base_url,
                !stopped ==> {
                    let m = spec_take_until_crlf(s, self.cur());
                    whole.0 == acc@ + m.0 && whole.1 == m.1
                },
                stopped ==> whole.0 == acc@ && whole.1 == self.cur(),
            decreases s.len() - self.pos,
        {
            let ghost cur0 = self.cur();
            let ghost m0 = spec_take_until_crlf(s, cur0);
            let c = self.input[self.pos];
            if c == '\r' && self.pos + 1 < self.input.len() && self.input[self.pos + 1] == '\n' {
                self.pos = self.pos + 2;
                self.line = self.line + 1;
                stopped = true;
                proof {
                    assert(acc@ + Seq::<char>::empty() =~= acc@);
                }
            } else {
                self.pos = self.pos + 1;
                if c == '\n' {
                    self.line = self.line + 1;
                }
                acc.push(c);
                proof {
                    let m1 = spec_take_until_crlf(s, self.cur());
                    assert(m0.0 == seq![c] + m1.0);
                    assert(acc@ + m1.0 =~= acc@.drop_last() + (seq![c] + m1.0));
                }
            }
        }
        proof {
            if !stopped {
                assert(spec_take_until_crlf(s, self.cur()).0 =~= Seq::<char>::empty());
                assert(acc@ + Seq::<char>::empty() =~= acc@);
            }
        }
        chars_to_string(&acc)
    }

    /// Consumes characters up to and including the stop character (or the
    /// whole remaining input when `stop` is `None`) and returns
    /// the content before it, as [`spec_eat_until`] says.
    pub fn eat_until(&mut self, stop: Option<char>) -> (r: String)
        requires
            old(self).wf(),
        ensures
            final(self).wf(),
            final(self).base_url == old(self).base_url,
            final(self).input == old(self).input,
            ({
                let m = spec_eat_until(stop, old(self).input@, old(self).cur());
                r@ == m.0 && final(self).cur() == m.1
            }),
    {
        let v = self.eat_until_chars(stop);
        chars_to_string(&v)
    }

    /// [`eat_until`](Parser::eat_until), keeping the characters as a vector.
    fn eat_until_chars(&mut self, stop: Option<char>) -> (r: Vec<char>)
        requires
            old(self).wf(),
        ensures
            final(self).wf(),
            final(self).base_url == old(self).base_url,
            final(self).input == old(self).input,
            ({
                let m = spec_eat_until(stop, old(self).input@, old(self).cur());
                r@ == m.0 && final(self).cur() == m.1
            }),
            r@.len() <= old(self).input@.len() - old(self).pos,
    {
        let ghost s = self.input@;
        let ghost whole = spec_eat_until(stop, s, self.cur());
        let ghost pos0 = self.pos as int;
        let mut acc: Vec<char> = Vec::new();
        let mut stopped = false;
        proof {
            assert(acc@ + whole.0 =~= whole.0);
        }
        while !stopped && self.pos < self.input.len()
            invariant
                self.wf(),
                self.input@ == s,
                self.input == old(self).input,
                self.base_url == old(self).base_url,
                pos0 <= self.pos,
                acc@.len() <= self.pos - pos0,
                !stopped ==> {
                    let m = spec_eat_until(stop, s, self.cur());
                    whole.0 == acc@ + m.0 && whole.1 == m.1
                },
                stopped ==> whole.0 == acc@ && whole.1 == self.cur(),
            decreases s.len() - self.pos,
        {
            let ghost m0 = spec_eat_until(stop, s, self.cur());
            let c = self.input[self.pos];
            self.pos = self.pos + 1;
            if c == '\n' {
                self.line = self.line + 1;
            }
            let is_stop = match stop {
                Some(t) => c == t,
                None => false,
            };
            if is_stop {
                stopped = true;
                proof {
                    assert(acc@ + Seq::<char>::empty() =~= acc@);
                }
            } else {
                acc.push(c);
                proof {
                    let m1 = spec_eat_until(stop, s, self.cur());
                    assert(m0.0 == seq![c] + m1.0);
                    assert(acc@ + m1.0 =~= acc@.drop_last() + (seq![c] + m1.0));
                }
            }
        }
        proof {
            if !stopped {
                assert(spec_eat_until(stop, s, self.cur()).0 =~= Seq::<char>::empty());
                assert(acc@ + Seq::<char>::empty() =~= acc@);
            }
        }
        acc
    }

    /// Reads the optional ` message` of a failure reply, as
    /// [`spec_read_error_msg`] says.
    pub fn read_error_msg(&mut self) -> (r: Result<Option<String>, ParserError>)
        requires
            old(self).wf(),
        ensures
            final(self).wf(),
            final(self).base_url == old(self).base_url,
            final(self).input == old(self).input,
            ({
                let m = spec_read_error_msg(old(self).input@, old(self).cur());
                (r matches Ok(msg) && view_opt_string(msg) == m.0) && final(self).cur() == m.1
            }),
    {
        if self.peek() == ' ' {
            match self.eat_sp() {
                Ok(_u) => {},
                Err(e) => {
                    return Err(e);
                },
            };
            Ok(Some(self.eat_until_crlf()))
        } else {
            Ok(None)
        }
    }

    /// Parses the MIME type of a success status line, as [`spec_mimetype`]
    /// says; this sub-parser itself never fails.
    pub fn mimetype(&mut self) -> (r: Result<MimeType, ParserError>)
        requires
            old(self).wf(),
        ensures
            final(self).wf(),
            final(self).base_url == old(self).base_url,
            final(self).input == old(self).input,
            ({
                let m = spec_mimetype(old(self).input@, old(self).cur());
                (r matches Ok(mt) && mt@ == m.0) && final(self).cur() == m.1
            }),
    {
        let t = self.eat_until_chars(Some('/'));
        let sub = self.eat_until_chars(Some('\r'));
        proof {
            assert(sub@.skip(0) =~= sub@);
        }
        match find_char_from(&sub, 0, ';') {
            None => Ok(
                MimeType {
                    typ: chars_to_string(&t),
                    sub: chars_to_string(&sub),
                    parameters: None,
                },
            ),
            Some(i) => {
                let pieces = split_vec(&sub, ';');
                let params = mime_params(&pieces);
                let subt = subvec(&sub, 0, i);
                proof {
                    assert(subt@ =~= sub@.take(i as int));
                }
                Ok(
                    MimeType {
                        typ: chars_to_string(&t),
                        sub: chars_to_string(&subt),
                        parameters: Some(params),
                    },
                )
            },
        }
    }

    /// The input family: handles replies whose status starts with `1`, as
    /// [`spec_input`] says.
    pub fn input(&mut self) -> (r: Result<Response, ParserError>)
        requires
            old(self).wf(),
        ensures
            final(self).wf(),
            final(self).base_url == old(self).base_url,
            final(self).input == old(self).input,
            (match spec_input(old(self).input@, old(self).cur()) {
                Ok((m, cur2)) => (r matches Ok(resp) && resp@ == m) && final(self).cur() == cur2,
                Err(e) => r matches Err(pe) && pe@ == e,
            }),
            (r matches Ok(resp) ==> crate::response::response_links_absolute(resp@)),
    {
        let c = match self.eat_digit() {
            Ok(c) => c,
            Err(e) => {
                return Err(e);
            },
        };
        match self.eat_sp() {
            Ok(_u) => {},
            Err(e) => {
                return Err(e);
            },
        };
        let prompt = self.eat_until_crlf();
        if c == 0 {
            Ok(Response::MustPromptForInput(prompt))
        } else if c == 1 {
            Ok(Response::MustPromptSensitiveInput(prompt))
        } else {
            Err(self.make_err(ErrorKind::InvalidStatus((10 + c) as usize)))
        }
    }

    /// The success family: handles replies whose status starts with `2`, as
    /// [`spec_success`] says; the body is handed to the gemtext parser
    /// together with the base URL.
    pub fn success(&mut self) -> (r: Result<Response, ParserError>)
        requires
            old(self).wf(),
        ensures
            final(self).wf(),
            final(self).base_url == old(self).base_url,
            final(self).input == old(self).input,
            (match spec_success(old(self).base_url@, old(self).input@, old(self).cur()) {
                Ok((m, cur2)) => (r matches Ok(resp) && resp@ == m) && final(self).cur() == cur2,
                Err(e) => r matches Err(pe) && pe@ == e,
            }),
            (r matches Ok(resp) ==> crate::response::response_links_absolute(resp@)),
    {
        let d = match self.eat_digit() {
            Ok(d) => d,
            Err(e) => {
                return Err(e);
            },
        };
        if d != 0 {
            return Err(self.make_err(ErrorKind::InvalidStatus((20 + d) as usize)));
        }
        match self.eat_sp() {
            Ok(_u) => {},
            Err(e) => {
                return Err(e);
            },
        };
        let mime = match self.mimetype() {
            Ok(m) => m,
            Err(e) => {
                return Err(e);
            },
        };
        if self.peek() != '\n' {
            return Err(self.make_err(ErrorKind::SyntaxMissingNewline));
        }
        match self.eat_char() {
            Ok(_c) => {},
            Err(e) => {
                return Err(e);
            },
        };
        let body = self.eat_until_chars(None);
        let body_text = chars_to_string(&body);
        match parse_gemtext(self.base_url.as_str(), body_text.as_str()) {
            Ok(b) => Ok(Response::Success(OkResponse { mime, body: b })),
            Err(e) => Err(ParserError::from(e)),
        }
    }

    /// The redirect family: handles replies whose status starts with `3`, as
    /// [`spec_redirect`] says.
    pub fn redirect(&mut self) -> (r: Result<Response, ParserError>)
        requires
            old(self).wf(),
        ensures
            final(self).wf(),
            final(self).base_url == old(self).base_url,
            final(self).input == old(self).input,
            (match spec_redirect(old(self).input@, old(self).cur()) {
                Ok((m, cur2)) => (r matches Ok(resp) && resp@ == m) && final(self).cur() == cur2,
                Err(e) => r matches Err(pe) && pe@ == e,
            }),
            (r matches Ok(resp) ==> crate::response::response_links_absolute(resp@)),
    {
        let c = match self.eat_digit() {
            Ok(c) => c,
            Err(e) => {
                return Err(e);
            },
        };
        match self.eat_sp() {
            Ok(_u) => {},
            Err(e) => {
                return Err(e);
            },
        };
        let url = self.eat_until_crlf();
        if c == 0 {
            Ok(Response::TemporaryRedirect(url))
        } else if c == 1 {
            Ok(Response::PermanentRedirect(url))
        } else {
            Err(self.make_err(ErrorKind::InvalidStatus((30 + c) as usize)))
        }
    }

    /// The temporary-failure family: handles replies whose status starts
    /// with `4`, as [`spec_tempfail`] says.
    pub fn tempfail(&mut self) -> (r: Result<Response, ParserError>)
        requires
            old(self).wf(),
        ensures
            final(self).wf(),
            final(self).base_url == old(self).base_url,
            final(self).input == old(self).input,
            (match spec_tempfail(old(self).input@, old(self).cur()) {
                Ok((m, cur2)) => (r matches Ok(resp) && resp@ == m) && final(self).cur() == cur2,
                Err(e) => r matches Err(pe) && pe@ == e,
            }),
            (r matches Ok(resp) ==> crate::response::response_links_absolute(resp@)),
    {
        let c = match self.eat_digit() {
            Ok(c) => c,
            Err(e) => {
                return Err(e);
            },
        };
        let msg = match self.read_error_msg() {
            Ok(m) => m,
            Err(e) => {
                return Err(e);
            },
        };
        if c == 0 {
            Ok(Response::UnexpectedErrorTryAgain(msg))
        } else if c == 1 {
            Ok(Response::ServerUnavailable(msg))
        } else if c == 2 {
            Ok(Response::CGIError(msg))
        } else if c == 3 {
            Ok(Response::ProxyError(msg))
        } else if c == 4 {
            Ok(Response::SlowDown(msg))
        } else {
            Err(self.make_err(ErrorKind::InvalidStatus((40 + c) as usize)))
        }
    }

    /// The permanent-failure family: handles replies whose status starts
    /// with `5`, as [`spec_permfail`] says.
    pub fn permfail(&mut self) -> (r: Result<Response, ParserError>)
        requires
            old(self).wf(),
        ensures
            final(self).wf(),
            final(self).base_url == old(self).base_url,
            final(self).input == old(self).input,
            (match spec_permfail(old(self).input@, old(self).cur()) {
                Ok((m, cur2)) => (r matches Ok(resp) && resp@ == m) && final(self).cur() == cur2,
                Err(e) => r matches Err(pe) && pe@ == e,
            }),
            (r matches Ok(resp) ==> crate::response::response_links_absolute(resp@)),
    {
        let c = match self.eat_digit() {
            Ok(c) => c,
            Err(e) => {
                return Err(e);
            },
        };
        let msg = match self.read_error_msg() {
            Ok(m) => m,
            Err(e) => {
                return Err(e);
            },
        };
        if c == 0 {
            Ok(Response::PermanentFailure(msg))
        } else if c == 1 {
            Ok(Response::ResourceNotFound(msg))
        } else if c == 2 {
            Ok(Response::ResourceGone(msg))
        } else if c == 3 {
            Ok(Response::ProxyRequestRefused(msg))
        } else if c == 9 {
            Ok(Response::BadRequest(msg))
        } else {
            Err(self.make_err(ErrorKind::InvalidStatus((50 + c) as usize)))
        }
    }

    /// The certificate family: handles replies whose status starts with `6`,
    /// as [`spec_auth`] says.
    pub fn auth(&mut self) -> (r: Result<Response, ParserError>)
        requires
            old(self).wf(),
        ensures
            final(self).wf(),
            final(self).base_url == old(self).base_url,
            final(self).input == old(self).input,
            (match spec_auth(old(self).input@, old(self).cur()) {
                Ok((m, cur2)) => (r matches Ok(resp) && resp@ == m) && final(self).cur() == cur2,
                Err(e) => r matches Err(pe) && pe@ == e,
            }),
            (r matches Ok(resp) ==> crate::response::response_links_absolute(resp@)),
    {
        let c = match self.eat_digit() {
            Ok(c) => c,
            Err(e) => {
                return Err(e);
            },
        };
        let msg = match self.read_error_msg() {
            Ok(m) => m,
            Err(e) => {
                return Err(e);
            },
        };
        if c == 0 {
            Ok(Response::CertificateRequired(msg))
        } else if c == 1 {
            Ok(Response::CertificateNotAuthorized(msg))
        } else if c == 2 {
            Ok(Response::CertificateNotValid(msg))
        } else {
            Err(self.make_err(ErrorKind::InvalidStatus((60 + c) as usize)))
        }
    }

    /// One whole reply: reads the first status digit and dispatches to its
    /// family, as [`spec_reply`] says.
    pub fn reply(&mut self) -> (r: Result<Response, ParserError>)
        requires
            old(self).wf(),
        ensures
            final(self).wf(),
            (match spec_reply(old(self).base_url@, old(self).input@, old(self).cur()) {
                Ok((m, cur2)) => (r matches Ok(resp) && resp@ == m) && final(self).cur() == cur2,
                Err(e) => r matches Err(pe) && pe@ == e,
            }),
            (r matches Ok(resp) ==> crate::response::response_links_absolute(resp@)),
    {
        let c = match self.eat_char() {
            Ok(c) => c,
            Err(e) => {
                return Err(e);
            },
        };
        if c == '1' {
            self.input()
        } else if c == '2' {
            self.success()
        } else if c == '3' {
            self.redirect()
        } else if c == '4' {
            self.tempfail()
        } else if c == '5' {
            self.permfail()
        } else if c == '6' {
            self.auth()
        } else if is_digit(c) {
            let d2 = match self.eat_digit() {
                Ok(d) => d,
                Err(e) => {
                    return Err(e);
                },
            };
            let d1: u32 = (c as u32) - 0x30;
            Err(self.make_err(ErrorKind::InvalidStatus((10 * d1 + d2) as usize)))
        } else {
            Err(self.make_err(ErrorKind::InvalidStatus(0)))
        }
    }
}

/// Splits `v` at every occurrence of `t`, as [`spec_split_char`] says.
fn split_vec(v: &Vec<char>, t: char) -> (r: Vec<Vec<char>>)
    ensures
        r@.map_values(|x: Vec<char>| x@) == spec_split_char(v@, t),
{
    let mut r: Vec<Vec<char>> = Vec::new();
    let mut start: usize = 0;
    let mut fin = false;
    proof {
        assert(v@.skip(0) =~= v@);
        assert(r@.map_values(|x: Vec<char>| x@) =~= Seq::<Seq<char>>::empty());
        assert(Seq::<Seq<char>>::empty() + spec_split_char(v@, t) =~= spec_split_char(v@, t));
    }
    while !fin
        invariant
            start <= v@.len(),
            !fin ==> spec_split_char(v@, t) == r@.map_values(|x: Vec<char>| x@)
                + spec_split_char(v@.skip(start as int), t),
            fin ==> spec_split_char(v@, t) == r@.map_values(|x: Vec<char>| x@),
        decreases v@.len() - start, (if fin { 0int } else { 1int }),
    {
        let ghost pre = r@.map_values(|x: Vec<char>| x@);
        let ghost tail = v@.skip(start as int);
        match find_char_from(v, start, t) {
            Some(j) => {
                let nlen = v.len();
                assert(j < nlen);
                let piece = subvec(v, start, j);
                r.push(piece);
                proof {
                    assert(tail[j - start] == t);
                    assert(piece@ =~= tail.take(j - start));
                    assert(tail.skip((j - start) + 1) =~= v@.skip(j + 1));
                    assert(r@.map_values(|x: Vec<char>| x@) =~= pre.push(piece@));
                    assert(pre + (seq![piece@] + spec_split_char(v@.skip(j + 1), t)) =~= pre.push(
                        piece@,
                    ) + spec_split_char(v@.skip(j + 1), t));
                }
                start = j + 1;
            },
            None => {
                let piece = subvec(v, start, v.len());
                r.push(piece);
                fin = true;
                proof {
                    assert(piece@ =~= tail);
                    assert(r@.map_values(|x: Vec<char>| x@) =~= pre.push(piece@));
                    assert(pre + seq![tail] =~= pre.push(piece@));
                }
            },
        }
    }
    r
}

/// Replaces the value of an existing key or appends a new pair, as
/// [`spec_upsert_param`] says.
fn upsert_param(r: &mut Vec<(String, String)>, k: String, v: String)
    ensures
        final(r)@.map_values(|p: (String, String)| (p.0@, p.1@)) == spec_upsert_param(
            old(r)@.map_values(|p: (String, String)| (p.0@, p.1@)),
            k@,
            v@,
        ),
{
    let ghost pm = r@.map_values(|p: (String, String)| (p.0@, p.1@));
    let mut i: usize = 0;
    while i < r.len()
        invariant
            i <= r@.len(),
            r@ == old(r)@,
            pm == r@.map_values(|p: (String, String)| (p.0@, p.1@)),
            forall|j: int| 0 <= j < i ==> pm[j].0 != k@,
        decreases r@.len() - i,
    {
        proof {
            assert(pm[i as int].0 == r@[i as int].0@);
        }
        if str_eq(r[i].0.as_str(), k.as_str()) {
            proof {
                lemma_find_key_some(pm, k@, i as int);
            }
            r.set(i, (k, v));
            proof {
                assert(r@.map_values(|p: (String, String)| (p.0@, p.1@)) =~= pm.update(
                    i as int,
                    (k@, v@),
                ));
            }
            return;
        }
        i = i + 1;
    }
    proof {
        lemma_find_key_none(pm, k@);
    }
    r.push((k, v));
    proof {
        assert(r@.map_values(|p: (String, String)| (p.0@, p.1@)) =~= pm.push((k@, v@)));
    }
}

/// Collects the split parameter pieces into the kept pairs, as
/// [`spec_mime_params`] says.
fn mime_params(pieces: &Vec<Vec<char>>) -> (r: Vec<(String, String)>)
    ensures
        r@.map_values(|p: (String, String)| (p.0@, p.1@)) == spec_mime_params(
            pieces@.map_values(|x: Vec<char>| x@),
        ),
{
    let charset_pat = str_to_chars("charset");
    let lang_pat = str_to_chars("lang");
    let ghost pm = pieces@.map_values(|x: Vec<char>| x@);
    let mut r: Vec<(String, String)> = Vec::new();
    let mut k: usize = 0;
    proof {
        assert(pm.skip(0) =~= pm);
        assert(r@.map_values(|p: (String, String)| (p.0@, p.1@)) =~= Seq::<(
            Seq<char>,
            Seq<char>,
        )>::empty());
    }
    while k < pieces.len()
        invariant
            k <= pieces@.len(),
            pm == pieces@.map_values(|x: Vec<char>| x@),
            pm.len() == pieces@.len(),
            charset_pat@ == "charset"@,
            lang_pat@ == "lang"@,
            spec_mime_params(pm) == spec_mime_params_from(
                pm.skip(k as int),
                r@.map_values(|p: (String, String)| (p.0@, p.1@)),
            ),
        decreases pieces@.len() - k,
    {
        let ghost pre = r@.map_values(|p: (String, String)| (p.0@, p.1@));
        let ghost tailp = pm.skip(k as int);
        proof {
            assert(tailp[0] == pm[k as int]);
            assert(pm[k as int] == pieces@[k as int]@);
            assert(tailp.skip(1) =~= pm.skip(k + 1));
        }
        let piece: &Vec<char> = &pieces[k];
        proof {
            assert(piece@.skip(0) =~= piece@);
        }
        match find_char_from(piece, 0, '=') {
            None => {},
            Some(i) => {
                let plen = piece.len();
                assert(i < plen);
                let kraw = subvec(piece, 0, i);
                let vraw = subvec(piece, i + 1, plen);
                proof {
                    assert(kraw@ =~= piece@.take(i as int));
                    assert(vraw@ =~= piece@.skip(i + 1));
                    assert(kraw@.skip(0) =~= kraw@);
                    assert(vraw@.skip(0) =~= vraw@);
                }
                let kt = trim_range(&kraw, 0);
                let vt = trim_range(&vraw, 0);
                if vec_chars_eq(&kt, &charset_pat) || vec_chars_eq(&kt, &lang_pat) {
                    upsert_param(&mut r, chars_to_string(&kt), chars_to_string(&vt));
                }
            },
        }
        k = k + 1;
    }
    proof {
        assert(pm.skip(k as int) =~= Seq::<Seq<char>>::empty());
    }
    r
}

/// Parses one complete raw reply against the base URL of the request, as
/// [`spec_parse_response`] says: a typed response for a well-formed reply,
/// and for any other input the error and 1-based line the grammar assigns
/// to it.
pub fn parse_response(base_url: &str, response: &str) -> (r: Result<Response, ParserError>)
    requires
        response@.len() < usize::MAX,
    ensures
        view_response_result(r) == spec_parse_response(base_url@, response@),
        (r matches Ok(resp) ==> crate::response::response_links_absolute(resp@)),
{
    let mut p = Parser::new(base_url, response);
    p.reply()
}


} // verus!
