//! The registry client: who owns a package, the two operations a client
//! offers, the requests that carry them out and the reading of a response's
//! status.

use vstd::prelude::*;
use vstd::string::*;
use crate::api::PackageVersion;
use crate::error::{ClientError, ClientErrorView};
use crate::text::{decimal, u64_to_decimal};

verus! {

/// The account under which a package is published.
#[derive(Debug, Clone, PartialEq)]
pub enum PackageOwner {
    User(String),
    Organizaion(String),
}

/// What a `PackageOwner` holds, as mathematical values.
pub enum PackageOwnerView {
    User(Seq<char>),
    Organizaion(Seq<char>),
}

impl View for PackageOwner {
    type V = PackageOwnerView;

    open spec fn view(&self) -> PackageOwnerView {
        match self {
            PackageOwner::User(name) => PackageOwnerView::User(name@),
            PackageOwner::Organizaion(name) => PackageOwnerView::Organizaion(name@),
        }
    }
}

impl PackageOwnerView {
    /// The account's name, which is also the owner's display text.
    pub open spec fn name(self) -> Seq<char> {
        match self {
            PackageOwnerView::User(name) => name,
            PackageOwnerView::Organizaion(name) => name,
        }
    }

    /// The path segment that scopes every request to this owner.
    pub open spec fn base_url(self) -> Seq<char> {
        match self {
            PackageOwnerView::User(name) => "users/"@ + name,
            PackageOwnerView::Organizaion(name) => "orgs/"@ + name,
        }
    }
}

/// The owner that a user name and an organization name stand for: the user
/// where one is given, else the organization.
pub open spec fn owner_of(user: Option<String>, org: Option<String>) -> PackageOwnerView
    recommends
        user is Some || org is Some,
{
    match user {
        Some(name) => PackageOwnerView::User(name@),
        None => PackageOwnerView::Organizaion(org->0@),
    }
}

impl PackageOwner {
    /// The owner named by `user` or, where that is absent, by `org`.
    ///
    /// One of the two must be given.
    pub fn parse(user: Option<String>, org: Option<String>) -> (owner: Self)
        requires
            user is Some || org is Some,
        ensures
            owner@ == owner_of(user, org),
    {
        match user {
            Some(name) => PackageOwner::User(name),
            None => PackageOwner::Organizaion(org.unwrap()),
        }
    }

    /// As `parse`, for names of unknown origin: `None` exactly when neither
    /// name is given.
    pub fn try_parse(user: Option<String>, org: Option<String>) -> (owner: Option<Self>)
        ensures
            owner is Some <==> (user is Some || org is Some),
            owner matches Some(o) ==> o@ == owner_of(user, org),
    {
        if user.is_some() || org.is_some() {
            Some(PackageOwner::parse(user, org))
        } else {
            None
        }
    }

    /// The path segment that scopes every request to this owner:
    /// `users/<name>` or `orgs/<name>`.
    pub fn base_url(&self) -> (segment: String)
        ensures
            segment@ == self@.base_url(),
    {
        match self {
            PackageOwner::User(name) => {
                let mut segment = String::from_str("users/");
                segment.append(name.as_str());
                segment
            },
            PackageOwner::Organizaion(name) => {
                let mut segment = String::from_str("orgs/");
                segment.append(name.as_str());
                segment
            },
        }
    }

    /// The owner's display text: the bare account name.
    pub fn to_string(&self) -> (text: String)
        ensures
            text@ == self@.name(),
    {
        match self {
            PackageOwner::User(name) => name.clone(),
            PackageOwner::Organizaion(name) => name.clone(),
        }
    }
}

/// The two operations of the registry that the cleanup needs.
///
/// Nothing is promised of what an implementation returns: the registry
/// decides.
pub trait GithubClient {
    /// Lists one page of the versions of a package; no `page` means the
    /// first. An empty list says that the pages are exhausted.
    fn get_package_version(
        &self,
        owner: &PackageOwner,
        package_name: &str,
        page: Option<u32>,
    ) -> Result<Vec<PackageVersion>, ClientError>;

    /// Deletes one version of a package. Success does not tell that the
    /// version existed.
    fn delete_package_version(
        &self,
        owner: &PackageOwner,
        package_name: &str,
        version_id: &str,
    ) -> Result<(), ClientError>;
}

/// The page that a list request asks for.
pub open spec fn requested_page(page: Option<u32>) -> u32 {
    match page {
        Some(n) => n,
        None => 1,
    }
}

/// The address of the versions of a package.
pub open spec fn versions_url(owner: PackageOwnerView, package: Seq<char>) -> Seq<char> {
    "https://api.github.com/"@ + owner.base_url() + "/packages/container/"@ + package
        + "/versions"@
}

/// The address that lists one page of the versions of a package.
pub open spec fn list_url(owner: PackageOwnerView, package: Seq<char>, page: Option<u32>) -> Seq<
    char,
> {
    versions_url(owner, package) + "?page="@ + decimal(requested_page(page) as nat)
}

/// The address of one version of a package, to which a delete request goes.
pub open spec fn delete_url(
    owner: PackageOwnerView,
    package: Seq<char>,
    version_id: Seq<char>,
) -> Seq<char> {
    versions_url(owner, package) + "/"@ + version_id
}

fn build_versions_url(owner: &PackageOwner, package_name: &str) -> (url: String)
    ensures
        url@ == versions_url(owner@, package_name@),
{
    let mut url = String::from_str("https://api.github.com/");
    let base = owner.base_url();
    url.append(base.as_str());
    url.append("/packages/container/");
    url.append(package_name);
    url.append("/versions");
    url
}

/// The address for a GET that lists page `page` (the first, if none is
/// given) of the versions of `package_name`.
pub fn list_versions_url(owner: &PackageOwner, package_name: &str, page: Option<u32>) -> (url:
    String)
    ensures
        url@ == list_url(owner@, package_name@, page),
{
    let number: u32 = match page {
        Some(n) => n,
        None => 1,
    };
    let mut url = build_versions_url(owner, package_name);
    url.append("?page=");
    let digits = u64_to_decimal(number as u64);
    url.append(digits.as_str());
    url
}

/// The address for a DELETE of version `version_id` of `package_name`.
pub fn delete_version_url(owner: &PackageOwner, package_name: &str, version_id: &str) -> (url:
    String)
    ensures
        url@ == delete_url(owner@, package_name@, version_id@),
{
    let mut url = build_versions_url(owner, package_name);
    url.append("/");
    url.append(version_id);
    url
}

/// Whether `c` may stand in the value of a header: a tab, or any character
/// from the space on but the delete character.
pub open spec fn is_header_char(c: char) -> bool {
    c == '\t' || (c >= ' ' && c != '\x7f')
}

/// Whether `text` can be the value of a header.
pub open spec fn is_header_text(text: Seq<char>) -> bool {
    forall|i: int| 0 <= i < text.len() ==> is_header_char(#[trigger] text[i])
}

/// Asks `reqwest::header::HeaderValue::from_str` whether it takes `text` as
/// the value of a header.
///
/// Trusted: the conversion succeeds exactly when every byte of the text is a
/// tab or at least 32 and not 127. The bytes of a character beyond ASCII are
/// all above 127, so this is `is_header_text`.
#[verifier::external_body]
fn accepts_header_value(text: &str) -> (accepted: bool)
    ensures
        accepted == is_header_text(text@),
{
    reqwest::header::HeaderValue::from_str(text).is_ok()
}

/// A header whose value the transport would refuse.
#[derive(Debug, Clone, Copy, PartialEq, Eq)]
pub enum InvalidHeader {
    Authorization,
    UserAgent,
}

/// The value of the accept header: the version of the API that is spoken.
pub open spec fn accept_value() -> Seq<char> {
    "application/vnd.github.v3+json"@
}

/// The value of the authorization header for `token`.
pub open spec fn authorization_value(token: Seq<char>) -> Seq<char> {
    "Bearer "@ + token
}

/// The value of the user agent header of `tool` in version `version`.
pub open spec fn user_agent_value(tool: Seq<char>, version: Seq<char>) -> Seq<char> {
    tool + "/"@ + version
}

/// The headers that every request carries.
#[derive(Debug, Clone, PartialEq, Eq)]
pub struct RequestHeaders {
    pub accept: String,
    pub authorization: String,
    pub user_agent: String,
}

impl RequestHeaders {
    /// The headers of a client that authenticates with `token` and names
    /// itself `tool` in version `version`.
    ///
    /// Fails with the first header, in the order authorization, user agent,
    /// whose value the transport would refuse.
    pub fn new(token: &str, tool: &str, version: &str) -> (headers: Result<Self, InvalidHeader>)
        ensures
            match headers {
                Ok(h) => {
                    &&& is_header_text(authorization_value(token@))
                    &&& is_header_text(user_agent_value(tool@, version@))
                    &&& h.accept@ == accept_value()
                    &&& h.authorization@ == authorization_value(token@)
                    &&& h.user_agent@ == user_agent_value(tool@, version@)
                },
                Err(InvalidHeader::Authorization) => !is_header_text(authorization_value(token@)),
                Err(InvalidHeader::UserAgent) => {
                    &&& is_header_text(authorization_value(token@))
                    &&& !is_header_text(user_agent_value(tool@, version@))
                },
            },
    {
        let accept = String::from_str("application/vnd.github.v3+json");
        let mut authorization = String::from_str("Bearer ");
        authorization.append(token);
        if !accepts_header_value(authorization.as_str()) {
            return Err(InvalidHeader::Authorization);
        }
        let mut user_agent = String::from_str(tool);
        user_agent.append("/");
        user_agent.append(version);
        if !accepts_header_value(user_agent.as_str()) {
            return Err(InvalidHeader::UserAgent);
        }
        Ok(RequestHeaders { accept, authorization, user_agent })
    }
}

/// The headers `headers` as they go on the wire: name and value, in the
/// order in which a client sets them.
pub open spec fn header_entries(headers: RequestHeaders) -> Seq<(Seq<char>, Seq<char>)> {
    seq![
        ("Accept"@, headers.accept@),
        ("Authorization"@, headers.authorization@),
        ("User-Agent"@, headers.user_agent@),
    ]
}

impl RequestHeaders {
    /// The headers with their names, in the order in which a client sets
    /// them.
    pub fn entries(&self) -> (entries: Vec<(String, String)>)
        ensures
            entries.deep_view() == header_entries(*self),
    {
        let mut entries: Vec<(String, String)> = Vec::new();
        entries.push((String::from_str("Accept"), self.accept.clone()));
        entries.push((String::from_str("Authorization"), self.authorization.clone()));
        entries.push((String::from_str("User-Agent"), self.user_agent.clone()));
        proof {
            assert(entries.deep_view() =~= header_entries(*self));
        }
        entries
    }
}

/// Whether `status` is one of the success codes, 200 to 299.
pub open spec fn is_success(status: u16) -> bool {
    200 <= status < 300
}

/// What the status of the response to a list request means: 404 that the
/// package does not exist, any other code outside 2xx a failure that names
/// the code, a code in 2xx that the body holds the versions.
pub open spec fn list_status_meaning(
    status: u16,
    owner: PackageOwnerView,
    package: Seq<char>,
) -> Result<(), ClientErrorView> {
    if status == 404 {
        Err(ClientErrorView::NotFound { owner: owner.name(), package })
    } else if !is_success(status) {
        Err(ClientErrorView::Status(status))
    } else {
        Ok(())
    }
}

/// Reads the status of the response to a list request for `package_name`
/// of `owner`.
pub fn check_list_status(status: u16, owner: &PackageOwner, package_name: &str) -> (r: Result<
    (),
    ClientError,
>)
    ensures
        match r {
            Ok(()) => list_status_meaning(status, owner@, package_name@) == Ok::<
                (),
                ClientErrorView,
            >(()),
            Err(e) => list_status_meaning(status, owner@, package_name@) == Err::<
                (),
                ClientErrorView,
            >(e@),
        },
{
    if status == 404 {
        Err(
            ClientError::NotFound {
                owner: owner.to_string(),
                package: String::from_str(package_name),
            },
        )
    } else if status < 200 || status >= 300 {
        Err(ClientError::Status(status))
    } else {
        Ok(())
    }
}

} // verus!
