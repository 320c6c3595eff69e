//! A client in use, with the record of what passed between the cleanup and
//! the registry.
//!
//! The record is ghost: it costs nothing when the program runs, and lets the
//! contracts of the workflow say which requests were made, in which order,
//! and what was done with each answer.

use vstd::prelude::*;
use crate::api::{PackageVersion, PackageVersionView};
use crate::client::{GithubClient, PackageOwner, PackageOwnerView};
use crate::error::{ClientError, ClientErrorView};

verus! {

/// One request to the registry together with its answer.
#[allow(inconsistent_fields)]
pub enum Exchange {
    /// A request for one page of the versions of a package.
    List {
        owner: PackageOwnerView,
        package: Seq<char>,
        page: Option<u32>,
        answer: Result<Seq<PackageVersionView>, ClientErrorView>,
    },
    /// A request to delete one version of a package.
    Delete {
        owner: PackageOwnerView,
        package: Seq<char>,
        version_id: Seq<char>,
        answer: Result<(), ClientErrorView>,
    },
}

/// The answer to a list request, as mathematical values.
pub open spec fn list_answer(answer: Result<Vec<PackageVersion>, ClientError>) -> Result<
    Seq<PackageVersionView>,
    ClientErrorView,
> {
    match answer {
        Ok(versions) => Ok(versions.deep_view()),
        Err(cause) => Err(cause@),
    }
}

/// The answer to a delete request, as mathematical values.
pub open spec fn delete_answer(answer: Result<(), ClientError>) -> Result<(), ClientErrorView> {
    match answer {
        Ok(()) => Ok(()),
        Err(cause) => Err(cause@),
    }
}

/// A client together with the exchanges made through it, oldest first.
///
/// The client is reached only through `list` and `delete`, each of which
/// appends the exchange it makes.
pub struct Session<C: GithubClient> {
    client: C,
    trace: Ghost<Seq<Exchange>>,
}

impl<C: GithubClient> Session<C> {
    /// The exchanges made through this session so far, oldest first.
    pub closed spec fn trace(&self) -> Seq<Exchange> {
        self.trace@
    }

    /// The client that this session reaches the registry through.
    pub closed spec fn inner(&self) -> C {
        self.client
    }

    /// Starts a session on `client`, with no exchange made yet.
    pub fn new(client: C) -> (session: Self)
        ensures
            session.inner() == client,
            session.trace() == Seq::<Exchange>::empty(),
    {
        Session { client, trace: Ghost(Seq::empty()) }
    }

    /// Asks the client for page `page` of the versions of `package_name`
    /// and hands its answer on.
    pub fn list(&mut self, owner: &PackageOwner, package_name: &str, page: Option<u32>) -> (answer:
        Result<Vec<PackageVersion>, ClientError>)
        ensures
            final(self).inner() == old(self).inner(),
            final(self).trace() == old(self).trace().push(
                Exchange::List {
                    owner: owner@,
                    package: package_name@,
                    page,
                    answer: list_answer(answer),
                },
            ),
    {
        let answer = self.client.get_package_version(owner, package_name, page);
        self.trace = Ghost(
            self.trace@.push(
                Exchange::List {
                    owner: owner@,
                    package: package_name@,
                    page,
                    answer: list_answer(answer),
                },
            ),
        );
        answer
    }

    /// Asks the client to delete version `version_id` of `package_name` and
    /// hands its answer on.
    pub fn delete(&mut self, owner: &PackageOwner, package_name: &str, version_id: &str) -> (answer:
        Result<(), ClientError>)
        ensures
            final(self).inner() == old(self).inner(),
            final(self).trace() == old(self).trace().push(
                Exchange::Delete {
                    owner: owner@,
                    package: package_name@,
                    version_id: version_id@,
                    answer: delete_answer(answer),
                },
            ),
    {
        let answer = self.client.delete_package_version(owner, package_name, version_id);
        self.trace = Ghost(
            self.trace@.push(
                Exchange::Delete {
                    owner: owner@,
                    package: package_name@,
                    version_id: version_id@,
                    answer: delete_answer(answer),
                },
            ),
        );
        answer
    }

    /// The client of this session.
    pub fn client(&self) -> (client: &C)
        ensures
            *client == self.inner(),
    {
        &self.client
    }

    /// Ends the session and gives the client back.
    pub fn into_client(self) -> (client: C)
        ensures
            client == self.inner(),
    {
        self.client
    }
}

} // verus!
