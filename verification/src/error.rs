//! The failures of this crate.

use crate::numeral::{decimal_text, push_decimal_text};
use ddp_rs::error::DDPError;
use vstd::prelude::*;
use vstd::std_specs::convert::FromSpecImpl;
use vstd::string::{to_string_from_display_ensures, StringExecFns};
use wled_json_api_library::errors::WledJsonApiError;

verus! {

/// The error type of the JSON API client, `wled_json_api_library::errors::WledJsonApiError`.
/// Nothing is claimed of its contents: values are only carried through.
#[verifier::external_type_specification]
#[verifier::external_body]
pub struct ExWledJsonApiError(wled_json_api_library::errors::WledJsonApiError);

/// The error type of the HTTP client, `reqwest::Error`.
/// Nothing is claimed of its contents: values are only carried through.
#[verifier::external_type_specification]
#[verifier::external_body]
pub struct ExReqwestError(reqwest::Error);

/// The error type of the pixel-streaming client, `ddp_rs::error::DDPError`.
/// Nothing is claimed of its contents: values are only carried through.
#[verifier::external_type_specification]
#[verifier::external_body]
pub struct ExDdpError(ddp_rs::error::DDPError);

/// The operating system's I/O error, `std::io::Error`.
/// Nothing is claimed of its contents: values are only carried through.
#[verifier::external_type_specification]
#[verifier::external_body]
pub struct ExIoError(std::io::Error);

/// Everything that can go wrong while a controller is brought up.
///
/// Every failure is fatal to the attempt that met it.  The variants that wrap a
/// foreign error hold it exactly as the collaborator returned it.
#[derive(Debug)]
pub enum WledControllerError {
    /// The JSON API client failed.
    JsonApiError(WledJsonApiError),
    /// The HTTP client failed.
    ReqwestError(reqwest::Error),
    /// A pair of characters in a hardware address is not a hexadecimal
    /// numeral.  Holds the whole text that was being read.
    ParseIntError(String),
    /// The pixel-streaming client failed.
    DdpError(DDPError),
    /// No endpoint could be built from the network address supplied.
    UrlParseError,
    /// A socket could not be set up.
    StdIoError(std::io::Error),
    /// The controller did not report a field that is required.  Holds the
    /// name of that field.
    MissingKey(&'static str),
    /// The text is not an IPv4 address in dotted-decimal form.  Holds the text.
    BadIp(String),
    /// The text has not the length of a hardware address.  Holds the text.
    BadMac(String),
    /// The two low bits of a capability code are both clear: a light without
    /// colour and without white.  Holds those two bits.
    InvalidCapability(u8),
}

impl From<WledJsonApiError> for WledControllerError {
    fn from(e: WledJsonApiError) -> (r: WledControllerError) {
        WledControllerError::JsonApiError(e)
    }
}

impl FromSpecImpl<WledJsonApiError> for WledControllerError {
    open spec fn obeys_from_spec() -> bool {
        true
    }

    open spec fn from_spec(e: WledJsonApiError) -> WledControllerError {
        WledControllerError::JsonApiError(e)
    }
}

impl From<reqwest::Error> for WledControllerError {
    fn from(e: reqwest::Error) -> (r: WledControllerError) {
        WledControllerError::ReqwestError(e)
    }
}

impl FromSpecImpl<reqwest::Error> for WledControllerError {
    open spec fn obeys_from_spec() -> bool {
        true
    }

    open spec fn from_spec(e: reqwest::Error) -> WledControllerError {
        WledControllerError::ReqwestError(e)
    }
}

impl From<DDPError> for WledControllerError {
    fn from(e: DDPError) -> (r: WledControllerError) {
        WledControllerError::DdpError(e)
    }
}

impl FromSpecImpl<DDPError> for WledControllerError {
    open spec fn obeys_from_spec() -> bool {
        true
    }

    open spec fn from_spec(e: DDPError) -> WledControllerError {
        WledControllerError::DdpError(e)
    }
}

impl From<std::io::Error> for WledControllerError {
    fn from(e: std::io::Error) -> (r: WledControllerError) {
        WledControllerError::StdIoError(e)
    }
}

impl FromSpecImpl<std::io::Error> for WledControllerError {
    open spec fn obeys_from_spec() -> bool {
        true
    }

    open spec fn from_spec(e: std::io::Error) -> WledControllerError {
        WledControllerError::StdIoError(e)
    }
}

impl WledControllerError {
    /// The message of an error.  Where the error wraps a foreign one, `detail`
    /// stands for the foreign error's own words; elsewhere it is not used.
    pub open spec fn message_text(self, detail: Seq<char>) -> Seq<char> {
        match self {
            WledControllerError::JsonApiError(_) => "Json Api Error: "@ + detail,
            WledControllerError::ReqwestError(_) => "reqwest error: "@ + detail,
            WledControllerError::ParseIntError(_) =>
                "error parsing integer from a string: invalid digit found in string"@,
            WledControllerError::DdpError(_) => "Error in DDP library: "@ + detail,
            WledControllerError::UrlParseError => "Error parsing url"@,
            WledControllerError::StdIoError(_) => "std IO Error: "@ + detail,
            WledControllerError::MissingKey(field) => "The controller did not report the field "@
                + field@,
            WledControllerError::BadIp(text) => "Not an IPv4 address in dotted-decimal form: "@
                + text@,
            WledControllerError::BadMac(text) =>
                "Not a hardware address of twelve hexadecimal digits: "@ + text@,
            WledControllerError::InvalidCapability(code) =>
                "The controller reported a light with neither colour nor white, capability "@
                + decimal_text(code as int),
        }
    }

    /// The error wraps one of a collaborator.
    pub open spec fn is_foreign(self) -> bool {
        ||| self is JsonApiError
        ||| self is ReqwestError
        ||| self is DdpError
        ||| self is StdIoError
    }

    /// `words` are the foreign error's own: what its implementation of
    /// `Display` writes.
    pub open spec fn in_the_words(self, words: String) -> bool
        recommends
            self.is_foreign(),
    {
        match self {
            WledControllerError::JsonApiError(e) => to_string_from_display_ensures::<
                WledJsonApiError,
            >(&e, words),
            WledControllerError::ReqwestError(e) => to_string_from_display_ensures::<
                reqwest::Error,
            >(&e, words),
            WledControllerError::DdpError(e) => to_string_from_display_ensures::<DDPError>(
                &e,
                words,
            ),
            WledControllerError::StdIoError(e) => to_string_from_display_ensures::<
                std::io::Error,
            >(&e, words),
            _ => false,
        }
    }

    /// Describes the error in words.
    ///
    /// The words are fixed for every error of this crate's own.  An error that
    /// wraps a foreign one is described by a fixed beginning and the foreign
    /// error's own words after it.
    pub fn message(&self) -> (r: String)
        ensures
            self.is_foreign() ==> exists|words: String| #[trigger]
                self.in_the_words(words) && r@ == self.message_text(words@),
            !self.is_foreign() ==> r@ == self.message_text(Seq::<char>::empty()),
    {
        match self {
            WledControllerError::JsonApiError(e) => {
                let detail = e.to_string();
                let mut r = String::from_str("Json Api Error: ");
                r.append(detail.as_str());
                assert(self.in_the_words(detail) && r@ == self.message_text(detail@));
                r
            },
            WledControllerError::ReqwestError(e) => {
                let detail = e.to_string();
                let mut r = String::from_str("reqwest error: ");
                r.append(detail.as_str());
                assert(self.in_the_words(detail) && r@ == self.message_text(detail@));
                r
            },
            WledControllerError::ParseIntError(_) => {
                let r = String::from_str(
                    "error parsing integer from a string: invalid digit found in string",
                );
                assert(r@ == self.message_text(Seq::<char>::empty()));
                r
            },
            WledControllerError::DdpError(e) => {
                let detail = e.to_string();
                let mut r = String::from_str("Error in DDP library: ");
                r.append(detail.as_str());
                assert(self.in_the_words(detail) && r@ == self.message_text(detail@));
                r
            },
            WledControllerError::UrlParseError => {
                let r = String::from_str("Error parsing url");
                assert(r@ == self.message_text(Seq::<char>::empty()));
                r
            },
            WledControllerError::StdIoError(e) => {
                let detail = e.to_string();
                let mut r = String::from_str("std IO Error: ");
                r.append(detail.as_str());
                assert(self.in_the_words(detail) && r@ == self.message_text(detail@));
                r
            },
            WledControllerError::MissingKey(field) => {
                let mut r = String::from_str("The controller did not report the field ");
                r.append(field);
                assert(r@ == self.message_text(Seq::<char>::empty()));
                r
            },
            WledControllerError::BadIp(text) => {
                let mut r = String::from_str("Not an IPv4 address in dotted-decimal form: ");
                r.append(text.as_str());
                assert(r@ == self.message_text(Seq::<char>::empty()));
                r
            },
            WledControllerError::BadMac(text) => {
                let mut r = String::from_str(
                    "Not a hardware address of twelve hexadecimal digits: ",
                );
                r.append(text.as_str());
                assert(r@ == self.message_text(Seq::<char>::empty()));
                r
            },
            WledControllerError::InvalidCapability(code) => {
                let mut r = String::from_str(
                    "The controller reported a light with neither colour nor white, capability ",
                );
                push_decimal_text(&mut r, *code as i16);
                assert(r@ == self.message_text(Seq::<char>::empty()));
                r
            },
        }
    }
}

} // verus!
