//! The failures of registry requests and of the cleanup of a package.

use vstd::prelude::*;
use vstd::string::*;
use crate::text::{decimal, u64_to_decimal};

verus! {

/// Why a request to the registry failed.
#[derive(Debug, Clone, PartialEq, Eq)]
pub enum ClientError {
    /// The request could not be sent or no response arrived; holds the
    /// transport's description of the failure.
    Transport(String),
    /// The registry answered 404 to a list request: the package does not
    /// exist under that owner.
    NotFound { owner: String, package: String },
    /// The registry answered with a status outside 2xx, other than 404.
    Status(u16),
    /// The body of a successful response was not a list of versions; holds
    /// the decoder's description of the failure.
    Decode(String),
}

/// What a `ClientError` holds, as mathematical values.
pub enum ClientErrorView {
    Transport(Seq<char>),
    NotFound { owner: Seq<char>, package: Seq<char> },
    Status(u16),
    Decode(Seq<char>),
}

impl View for ClientError {
    type V = ClientErrorView;

    open spec fn view(&self) -> ClientErrorView {
        match self {
            ClientError::Transport(detail) => ClientErrorView::Transport(detail@),
            ClientError::NotFound { owner, package } => ClientErrorView::NotFound {
                owner: owner@,
                package: package@,
            },
            ClientError::Status(status) => ClientErrorView::Status(*status),
            ClientError::Decode(detail) => ClientErrorView::Decode(detail@),
        }
    }
}

impl DeepView for ClientError {
    type V = ClientErrorView;

    open spec fn deep_view(&self) -> ClientErrorView {
        self@
    }
}

impl ClientErrorView {
    /// The text that describes the failure.
    pub open spec fn message(self) -> Seq<char> {
        match self {
            ClientErrorView::Transport(detail) => "Failed to send request: "@ + detail,
            ClientErrorView::NotFound { owner, package } => "Package "@ + owner + "/"@ + package
                + " does not exist"@,
            ClientErrorView::Status(status) => "Server returned status "@ + decimal(status as nat),
            ClientErrorView::Decode(detail) => "Failed to parse reply as json: "@ + detail,
        }
    }
}

impl ClientError {
    /// The text that describes the failure.
    pub fn message(&self) -> (text: String)
        ensures
            text@ == self@.message(),
    {
        match self {
            ClientError::Transport(detail) => {
                let mut text = String::from_str("Failed to send request: ");
                text.append(detail.as_str());
                text
            },
            ClientError::NotFound { owner, package } => {
                let mut text = String::from_str("Package ");
                text.append(owner.as_str());
                text.append("/");
                text.append(package.as_str());
                text.append(" does not exist");
                text
            },
            ClientError::Status(status) => {
                let mut text = String::from_str("Server returned status ");
                let number = u64_to_decimal(*status as u64);
                text.append(number.as_str());
                text
            },
            ClientError::Decode(detail) => {
                let mut text = String::from_str("Failed to parse reply as json: ");
                text.append(detail.as_str());
                text
            },
        }
    }
}

/// Why the cleanup of a package stopped before its pages were exhausted.
#[derive(Debug, Clone, PartialEq, Eq)]
pub enum CleanupError {
    /// Listing page `page` failed; no further page was asked for.
    ListFailed { page: u32, cause: ClientError },
    /// The last page that a page number can name was not empty.
    PageLimit,
}

/// What a `CleanupError` holds, as mathematical values.
pub enum CleanupErrorView {
    ListFailed { page: u32, cause: ClientErrorView },
    PageLimit,
}

impl View for CleanupError {
    type V = CleanupErrorView;

    open spec fn view(&self) -> CleanupErrorView {
        match self {
            CleanupError::ListFailed { page, cause } => CleanupErrorView::ListFailed {
                page: *page,
                cause: cause@,
            },
            CleanupError::PageLimit => CleanupErrorView::PageLimit,
        }
    }
}

impl CleanupErrorView {
    /// The text that describes the failure, the cause included.
    pub open spec fn message(self) -> Seq<char> {
        match self {
            CleanupErrorView::ListFailed { page, cause } =>
                "Failed to get package versions from github: "@ + cause.message(),
            CleanupErrorView::PageLimit =>
                "Failed to get package versions from github: no page number is left"@,
        }
    }
}

impl CleanupError {
    /// The text that describes the failure, the cause included.
    pub fn message(&self) -> (text: String)
        ensures
            text@ == self@.message(),
    {
        match self {
            CleanupError::ListFailed { page, cause } => {
                let mut text = String::from_str("Failed to get package versions from github: ");
                let detail = cause.message();
                text.append(detail.as_str());
                text
            },
            CleanupError::PageLimit => String::from_str(
                "Failed to get package versions from github: no page number is left",
            ),
        }
    }
}

} // verus!
