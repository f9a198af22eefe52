//! The typed model of a Gemini reply: six status families, each variant
//! holding the protocol-mandated payload.

use vstd::prelude::*;
use crate::gemtext::{links_absolute, GemTextBody, LineModel};
use crate::mime::{MimeType, MimeTypeModel};
use crate::text::view_opt_string;

verus! {

/// The payload of a success reply: the MIME type from the status line and
/// the parsed gemtext body.
#[derive(Debug, Clone, PartialEq, Eq)]
pub struct OkResponse {
    pub mime: MimeType,
    pub body: GemTextBody,
}

/// The mathematical value of an [`OkResponse`].
pub struct OkResponseModel {
    pub mime: MimeTypeModel,
    pub body: Seq<LineModel>,
}

impl View for OkResponse {
    type V = OkResponseModel;

    open spec fn view(&self) -> OkResponseModel {
        OkResponseModel { mime: self.mime@, body: self.body@ }
    }
}

/// A typed Gemini reply.
///
/// The tens digit of the status code selects the family, the units digit the
/// variant within it; the doc comment of each variant names its code.
#[derive(Debug, Clone, PartialEq, Eq)]
pub enum Response {
    /// 10
    MustPromptForInput(String),
    /// 11
    MustPromptSensitiveInput(String),
    /// 20
    Success(OkResponse),
    /// 30
    TemporaryRedirect(String),
    /// 31
    PermanentRedirect(String),
    /// 40
    UnexpectedErrorTryAgain(Option<String>),
    /// 41
    ServerUnavailable(Option<String>),
    /// 42
    CGIError(Option<String>),
    /// 43
    ProxyError(Option<String>),
    /// 44
    SlowDown(Option<String>),
    /// 50
    PermanentFailure(Option<String>),
    /// 51
    ResourceNotFound(Option<String>),
    /// 52
    ResourceGone(Option<String>),
    /// 53
    ProxyRequestRefused(Option<String>),
    /// 59
    BadRequest(Option<String>),
    /// 60
    CertificateRequired(Option<String>),
    /// 61
    CertificateNotAuthorized(Option<String>),
    /// 62
    CertificateNotValid(Option<String>),
}

/// The mathematical value of a [`Response`].
pub enum ResponseModel {
    MustPromptForInput(Seq<char>),
    MustPromptSensitiveInput(Seq<char>),
    Success(OkResponseModel),
    TemporaryRedirect(Seq<char>),
    PermanentRedirect(Seq<char>),
    UnexpectedErrorTryAgain(Option<Seq<char>>),
    ServerUnavailable(Option<Seq<char>>),
    CGIError(Option<Seq<char>>),
    ProxyError(Option<Seq<char>>),
    SlowDown(Option<Seq<char>>),
    PermanentFailure(Option<Seq<char>>),
    ResourceNotFound(Option<Seq<char>>),
    ResourceGone(Option<Seq<char>>),
    ProxyRequestRefused(Option<Seq<char>>),
    BadRequest(Option<Seq<char>>),
    CertificateRequired(Option<Seq<char>>),
    CertificateNotAuthorized(Option<Seq<char>>),
    CertificateNotValid(Option<Seq<char>>),
}

impl View for Response {
    type V = ResponseModel;

    open spec fn view(&self) -> ResponseModel {
        match self {
            Response::MustPromptForInput(s) => ResponseModel::MustPromptForInput(s@),
            Response::MustPromptSensitiveInput(s) => ResponseModel::MustPromptSensitiveInput(s@),
            Response::Success(ok) => ResponseModel::Success(ok@),
            Response::TemporaryRedirect(s) => ResponseModel::TemporaryRedirect(s@),
            Response::PermanentRedirect(s) => ResponseModel::PermanentRedirect(s@),
            Response::UnexpectedErrorTryAgain(m) => ResponseModel::UnexpectedErrorTryAgain(
                view_opt_string(*m),
            ),
            Response::ServerUnavailable(m) => ResponseModel::ServerUnavailable(
                view_opt_string(*m),
            ),
            Response::CGIError(m) => ResponseModel::CGIError(view_opt_string(*m)),
            Response::ProxyError(m) => ResponseModel::ProxyError(view_opt_string(*m)),
            Response::SlowDown(m) => ResponseModel::SlowDown(view_opt_string(*m)),
            Response::PermanentFailure(m) => ResponseModel::PermanentFailure(view_opt_string(*m)),
            Response::ResourceNotFound(m) => ResponseModel::ResourceNotFound(view_opt_string(*m)),
            Response::ResourceGone(m) => ResponseModel::ResourceGone(view_opt_string(*m)),
            Response::ProxyRequestRefused(m) => ResponseModel::ProxyRequestRefused(
                view_opt_string(*m),
            ),
            Response::BadRequest(m) => ResponseModel::BadRequest(view_opt_string(*m)),
            Response::CertificateRequired(m) => ResponseModel::CertificateRequired(
                view_opt_string(*m),
            ),
            Response::CertificateNotAuthorized(m) => ResponseModel::CertificateNotAuthorized(
                view_opt_string(*m),
            ),
            Response::CertificateNotValid(m) => ResponseModel::CertificateNotValid(
                view_opt_string(*m),
            ),
        }
    }
}

/// Whether every link of a success reply's body carries a fully resolved
/// URL; every other reply holds no links.
pub open spec fn response_links_absolute(m: ResponseModel) -> bool {
    match m {
        ResponseModel::Success(ok) => links_absolute(ok.body),
        _ => true,
    }
}

} // verus!
