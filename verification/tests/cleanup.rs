use std::cell::RefCell;

use ghcr_cleaner::api::{ContainerVersionMetadata, PackageVersion, PackageVersionMetadata};
use ghcr_cleaner::cleanup::{
    after_list, clean_package, clean_package_versions, clean_packages, next_page, start_message,
    DeletionOutcome, DeletionRecord, PackageReport, PageStep,
};
use ghcr_cleaner::client::{check_list_status, GithubClient, PackageOwner};
use ghcr_cleaner::error::{CleanupError, ClientError};
use ghcr_cleaner::session::Session;

#[derive(Debug, Clone, PartialEq)]
enum Call {
    List { owner: PackageOwner, package: String, page: Option<u32> },
    Delete { owner: PackageOwner, package: String, version_id: String },
}

/// A registry that answers from a script and writes down what it is asked.
struct ScriptedClient {
    /// The answer to the list request for page `n` of package `p` is the
    /// entry `(p, n, answer)`; a page without an entry is empty.
    pages: Vec<(String, u32, Result<Vec<PackageVersion>, ClientError>)>,
    /// The version ids whose deletion fails.
    failing: Vec<String>,
    calls: RefCell<Vec<Call>>,
}

impl ScriptedClient {
    fn new() -> Self {
        ScriptedClient { pages: Vec::new(), failing: Vec::new(), calls: RefCell::new(Vec::new()) }
    }

    fn with_pages(package: &str, pages: Vec<Result<Vec<PackageVersion>, ClientError>>) -> Self {
        let mut client = ScriptedClient::new();
        client.add_pages(package, pages);
        client
    }

    fn add_pages(&mut self, package: &str, pages: Vec<Result<Vec<PackageVersion>, ClientError>>) {
        let mut number = 1;
        for page in pages {
            self.pages.push((package.to_string(), number, page));
            number += 1;
        }
    }

    fn calls(&self) -> Vec<Call> {
        self.calls.borrow().clone()
    }
}

impl GithubClient for ScriptedClient {
    fn get_package_version(
        &self,
        owner: &PackageOwner,
        package_name: &str,
        page: Option<u32>,
    ) -> Result<Vec<PackageVersion>, ClientError> {
        self.calls.borrow_mut().push(Call::List {
            owner: owner.clone(),
            package: package_name.to_string(),
            page,
        });
        let number = page.unwrap_or(1);
        for (package, n, answer) in &self.pages {
            if package == package_name && *n == number {
                return answer.clone();
            }
        }
        Ok(Vec::new())
    }

    fn delete_package_version(
        &self,
        owner: &PackageOwner,
        package_name: &str,
        version_id: &str,
    ) -> Result<(), ClientError> {
        self.calls.borrow_mut().push(Call::Delete {
            owner: owner.clone(),
            package: package_name.to_string(),
            version_id: version_id.to_string(),
        });
        if self.failing.iter().any(|id| id == version_id) {
            Err(ClientError::Transport("connection reset".to_string()))
        } else {
            Ok(())
        }
    }
}

fn version(id: u64, name: &str, tags: &[&str]) -> PackageVersion {
    PackageVersion {
        id,
        name: name.to_string(),
        metadata: PackageVersionMetadata {
            package_type: "container".to_string(),
            container: ContainerVersionMetadata {
                tags: tags.iter().map(|tag| tag.to_string()).collect(),
            },
        },
    }
}

fn delete(owner: &PackageOwner, package: &str, version_id: &str) -> Call {
    Call::Delete {
        owner: owner.clone(),
        package: package.to_string(),
        version_id: version_id.to_string(),
    }
}

fn list(owner: &PackageOwner, package: &str, page: u32) -> Call {
    Call::List { owner: owner.clone(), package: package.to_string(), page: Some(page) }
}

fn record(id: u64, name: &str, outcome: DeletionOutcome) -> DeletionRecord {
    DeletionRecord { version_id: id, version_name: name.to_string(), outcome }
}

/// Cleans one page on a fresh client and returns the records and the calls.
fn clean_page(
    owner: &PackageOwner,
    versions: &[PackageVersion],
    dry_run: bool,
) -> (Vec<DeletionRecord>, Vec<Call>) {
    let mut session = Session::new(ScriptedClient::new());
    let records = clean_package_versions(&mut session, owner, "my-package", versions, dry_run);
    (records, session.into_client().calls())
}

#[test]
fn test_clean_package_versions() {
    let user = PackageOwner::User("user".to_string());
    let org = PackageOwner::Organizaion("org".to_string());

    // No versions
    let (records, calls) = clean_page(&user, &[], true);
    assert!(records.is_empty());
    assert!(calls.is_empty());
    let (records, calls) = clean_page(&user, &[], false);
    assert!(records.is_empty());
    assert!(calls.is_empty());

    // No untagged versions
    let versions = vec![PackageVersion {
        id: 1,
        name: "sha256:foobar1".to_string(),
        metadata: PackageVersionMetadata {
            package_type: "container".to_string(),
            container: ContainerVersionMetadata { tags: vec!["some-tag".to_string()] },
        },
    }];
    let (records, calls) = clean_page(&user, &versions, true);
    assert!(records.is_empty());
    assert!(calls.is_empty());
    let (records, calls) = clean_page(&user, &versions, false);
    assert!(records.is_empty());
    assert!(calls.is_empty());

    // One untagged version
    let versions = vec![
        PackageVersion {
            id: 1,
            name: "sha256:foobar1".to_string(),
            metadata: PackageVersionMetadata {
                package_type: "container".to_string(),
                container: ContainerVersionMetadata { tags: vec!["some-tag".to_string()] },
            },
        },
        PackageVersion {
            id: 2,
            name: "sha256:foobar2".to_string(),
            metadata: PackageVersionMetadata {
                package_type: "container".to_string(),
                container: ContainerVersionMetadata { tags: vec![] },
            },
        },
    ];
    let (records, calls) = clean_page(&user, &versions, false);
    assert_eq!(calls, vec![delete(&user, "my-package", "2")]);
    assert_eq!(records, vec![record(2, "sha256:foobar2", DeletionOutcome::Deleted)]);
    let (records, calls) = clean_page(&user, &versions, true);
    assert!(calls.is_empty());
    assert_eq!(records, vec![record(2, "sha256:foobar2", DeletionOutcome::DryRun)]);

    // Multiple untagged version
    let versions = vec![
        PackageVersion {
            id: 1,
            name: "sha256:foobar1".to_string(),
            metadata: PackageVersionMetadata {
                package_type: "container".to_string(),
                container: ContainerVersionMetadata { tags: vec!["some-tag".to_string()] },
            },
        },
        PackageVersion {
            id: 2,
            name: "sha256:foobar2".to_string(),
            metadata: PackageVersionMetadata {
                package_type: "container".to_string(),
                container: ContainerVersionMetadata { tags: vec![] },
            },
        },
        PackageVersion {
            id: 3,
            name: "sha256:foobar3".to_string(),
            metadata: PackageVersionMetadata {
                package_type: "container".to_string(),
                container: ContainerVersionMetadata { tags: vec![] },
            },
        },
    ];
    let (records, calls) = clean_page(&org, &versions, false);
    assert_eq!(calls, vec![delete(&org, "my-package", "2"), delete(&org, "my-package", "3")]);
    assert_eq!(
        records,
        vec![
            record(2, "sha256:foobar2", DeletionOutcome::Deleted),
            record(3, "sha256:foobar3", DeletionOutcome::Deleted),
        ]
    );
    let (records, calls) = clean_page(&org, &versions, true);
    assert!(calls.is_empty());
    assert_eq!(
        records,
        vec![
            record(2, "sha256:foobar2", DeletionOutcome::DryRun),
            record(3, "sha256:foobar3", DeletionOutcome::DryRun),
        ]
    );
}

#[test]
fn tagged_versions_are_never_deleted() {
    let user = PackageOwner::User("user".to_string());
    let versions = vec![
        version(1, "sha256:a", &["v1"]),
        version(2, "sha256:b", &["v2", "latest"]),
        version(3, "sha256:c", &["edge"]),
    ];
    for dry_run in [false, true] {
        let (records, calls) = clean_page(&user, &versions, dry_run);
        assert!(records.is_empty());
        assert!(calls.is_empty());
    }
}

#[test]
fn each_untagged_version_is_deleted_once() {
    let user = PackageOwner::User("user".to_string());
    let versions = vec![
        version(10, "sha256:a", &[]),
        version(11, "sha256:b", &["keep"]),
        version(12, "sha256:c", &[]),
        version(13, "sha256:d", &[]),
    ];
    let (records, calls) = clean_page(&user, &versions, false);
    assert_eq!(
        calls,
        vec![
            delete(&user, "my-package", "10"),
            delete(&user, "my-package", "12"),
            delete(&user, "my-package", "13"),
        ]
    );
    assert_eq!(records.len(), 3);
    let (records, calls) = clean_page(&user, &versions, true);
    assert!(calls.is_empty());
    assert_eq!(records.len(), 3);
}

#[test]
fn one_untagged_version_among_tagged_is_the_only_one_deleted() {
    let user = PackageOwner::User("user".to_string());
    let versions = vec![version(1, "sha256:one", &["v1"]), version(2, "sha256:two", &[])];
    let (records, calls) = clean_page(&user, &versions, false);
    assert_eq!(calls, vec![delete(&user, "my-package", "2")]);
    assert_eq!(records, vec![record(2, "sha256:two", DeletionOutcome::Deleted)]);
}

#[test]
fn deletes_for_an_organization_are_scoped_to_it() {
    let org = PackageOwner::Organizaion("org".to_string());
    let versions = vec![version(2, "sha256:two", &[]), version(3, "sha256:three", &[])];
    let (_, calls) = clean_page(&org, &versions, false);
    assert_eq!(calls, vec![delete(&org, "my-package", "2"), delete(&org, "my-package", "3")]);
    for call in calls {
        match call {
            Call::Delete { owner, .. } => assert_eq!(owner.base_url(), "orgs/org"),
            Call::List { .. } => panic!("no list request belongs to the cleaning of a page"),
        }
    }
}

#[test]
fn dry_run_records_intent_without_deleting() {
    let user = PackageOwner::User("user".to_string());
    let versions = vec![
        version(1, "sha256:one", &[]),
        version(2, "sha256:two", &["v2"]),
        version(3, "sha256:three", &[]),
    ];
    let (records, calls) = clean_page(&user, &versions, true);
    assert!(calls.is_empty());
    assert_eq!(
        records,
        vec![
            record(1, "sha256:one", DeletionOutcome::DryRun),
            record(3, "sha256:three", DeletionOutcome::DryRun),
        ]
    );
    assert_eq!(
        records[0].intent(&user, "my-package"),
        "Deleting user/my-package:sha256:one (DRY RUN)"
    );
    assert_eq!(
        records[1].intent(&user, "my-package"),
        "Deleting user/my-package:sha256:three (DRY RUN)"
    );
    assert_eq!(records[0].warning(), None);
}

#[test]
fn failed_delete_does_not_stop_the_page() {
    let user = PackageOwner::User("user".to_string());
    let versions = vec![
        version(1, "sha256:one", &[]),
        version(2, "sha256:two", &[]),
        version(3, "sha256:three", &["v3"]),
        version(4, "sha256:four", &[]),
    ];
    let mut client = ScriptedClient::new();
    client.failing.push("2".to_string());
    let mut session = Session::new(client);
    let records = clean_package_versions(&mut session, &user, "my-package", &versions, false);
    let calls = session.into_client().calls();
    assert_eq!(
        calls,
        vec![
            delete(&user, "my-package", "1"),
            delete(&user, "my-package", "2"),
            delete(&user, "my-package", "4"),
        ]
    );
    assert_eq!(
        records,
        vec![
            record(1, "sha256:one", DeletionOutcome::Deleted),
            record(
                2,
                "sha256:two",
                DeletionOutcome::Failed(ClientError::Transport("connection reset".to_string()))
            ),
            record(4, "sha256:four", DeletionOutcome::Deleted),
        ]
    );
    assert_eq!(records[0].warning(), None);
    assert_eq!(
        records[1].warning(),
        Some("Failed to send request: connection reset".to_string())
    );
    assert_eq!(records[1].intent(&user, "my-package"), "Deleting user/my-package:sha256:two");
}

#[test]
fn pagination_stops_at_the_first_empty_page() {
    let user = PackageOwner::User("user".to_string());
    let client = ScriptedClient::with_pages(
        "my-package",
        vec![
            Ok(vec![version(1, "sha256:one", &["v1"]), version(2, "sha256:two", &[])]),
            Ok(vec![version(3, "sha256:three", &[])]),
            Ok(vec![]),
            Ok(vec![version(4, "sha256:four", &[])]),
        ],
    );
    let mut session = Session::new(client);
    let report = clean_package(&mut session, &user, "my-package", false);
    assert_eq!(
        session.into_client().calls(),
        vec![
            list(&user, "my-package", 1),
            delete(&user, "my-package", "2"),
            list(&user, "my-package", 2),
            delete(&user, "my-package", "3"),
            list(&user, "my-package", 3),
        ]
    );
    assert_eq!(
        report,
        PackageReport {
            records: vec![
                record(2, "sha256:two", DeletionOutcome::Deleted),
                record(3, "sha256:three", DeletionOutcome::Deleted),
            ],
            result: Ok(()),
        }
    );
    assert_eq!(report.failure(&user, "my-package"), None);
}

#[test]
fn package_without_versions_needs_one_list_request() {
    let user = PackageOwner::User("user".to_string());
    let mut session = Session::new(ScriptedClient::new());
    let report = clean_package(&mut session, &user, "my-package", false);
    assert_eq!(session.client().calls(), vec![list(&user, "my-package", 1)]);
    assert_eq!(report, PackageReport { records: vec![], result: Ok(()) });
}

#[test]
fn missing_package_stops_the_cleanup_without_deleting() {
    let org = PackageOwner::Organizaion("org".to_string());
    let not_found = check_list_status(404, &org, "my-package").unwrap_err();
    assert_eq!(
        not_found,
        ClientError::NotFound { owner: "org".to_string(), package: "my-package".to_string() }
    );
    let client = ScriptedClient::with_pages("my-package", vec![Err(not_found.clone())]);
    let mut session = Session::new(client);
    let report = clean_package(&mut session, &org, "my-package", false);
    assert_eq!(session.into_client().calls(), vec![list(&org, "my-package", 1)]);
    assert_eq!(
        report,
        PackageReport {
            records: vec![],
            result: Err(CleanupError::ListFailed { page: 1, cause: not_found }),
        }
    );
    assert_eq!(
        report.failure(&org, "my-package"),
        Some(
            "Failed to clean package org/my-package: Failed to get package versions from github: \
             Package org/my-package does not exist"
                .to_string()
        )
    );
}

#[test]
fn failed_listing_keeps_what_was_recorded_before() {
    let user = PackageOwner::User("user".to_string());
    let client = ScriptedClient::with_pages(
        "my-package",
        vec![Ok(vec![version(7, "sha256:seven", &[])]), Err(ClientError::Status(502))],
    );
    let mut session = Session::new(client);
    let report = clean_package(&mut session, &user, "my-package", true);
    assert_eq!(
        session.into_client().calls(),
        vec![list(&user, "my-package", 1), list(&user, "my-package", 2)]
    );
    assert_eq!(
        report,
        PackageReport {
            records: vec![record(7, "sha256:seven", DeletionOutcome::DryRun)],
            result: Err(CleanupError::ListFailed { page: 2, cause: ClientError::Status(502) }),
        }
    );
}

#[test]
fn failure_of_one_package_does_not_stop_the_next() {
    let user = PackageOwner::User("user".to_string());
    let mut client = ScriptedClient::new();
    client.add_pages("broken", vec![Err(ClientError::Status(500))]);
    client.add_pages("fine", vec![Ok(vec![version(5, "sha256:five", &[])])]);
    let mut session = Session::new(client);
    let names = vec!["broken".to_string(), "fine".to_string()];
    let reports = clean_packages(&mut session, &user, &names, false);
    assert_eq!(
        session.into_client().calls(),
        vec![
            list(&user, "broken", 1),
            list(&user, "fine", 1),
            delete(&user, "fine", "5"),
            list(&user, "fine", 2),
        ]
    );
    assert_eq!(
        reports,
        vec![
            PackageReport {
                records: vec![],
                result: Err(CleanupError::ListFailed { page: 1, cause: ClientError::Status(500) }),
            },
            PackageReport {
                records: vec![record(5, "sha256:five", DeletionOutcome::Deleted)],
                result: Ok(()),
            },
        ]
    );
}

#[test]
fn no_packages_means_no_requests() {
    let user = PackageOwner::User("user".to_string());
    let mut session = Session::new(ScriptedClient::new());
    let reports = clean_packages(&mut session, &user, &[], false);
    assert!(reports.is_empty());
    assert!(session.into_client().calls().is_empty());
}

#[test]
fn after_list_decides_by_the_answer() {
    match after_list(3, Ok(vec![])) {
        PageStep::Stop(Ok(())) => {}
        other => panic!("an empty page ends the cleanup well, not {:?}", other),
    }
    match after_list(3, Err(ClientError::Status(500))) {
        PageStep::Stop(Err(CleanupError::ListFailed {
            page: 3,
            cause: ClientError::Status(500),
        })) => {}
        other => panic!("a failure ends the cleanup with it, not {:?}", other),
    }
    match after_list(3, Ok(vec![version(9, "sha256:nine", &["v9"])])) {
        PageStep::Clean(versions) => {
            assert_eq!(versions.len(), 1);
            assert_eq!(versions[0].id, 9);
        }
        other => panic!("a page with versions is to be cleaned, not {:?}", other),
    }
}

#[test]
fn next_page_counts_up_to_the_limit() {
    assert_eq!(next_page(1), Ok(2));
    assert_eq!(next_page(41), Ok(42));
    assert_eq!(next_page(u32::MAX - 1), Ok(u32::MAX));
    assert_eq!(next_page(u32::MAX), Err(CleanupError::PageLimit));
}

#[test]
fn outcome_follows_the_answer() {
    assert_eq!(DeletionOutcome::from_answer(Ok(())), DeletionOutcome::Deleted);
    assert_eq!(
        DeletionOutcome::from_answer(Err(ClientError::Status(403))),
        DeletionOutcome::Failed(ClientError::Status(403))
    );
}

#[test]
fn start_message_names_owner_and_package() {
    let org = PackageOwner::Organizaion("org".to_string());
    assert_eq!(start_message(&org, "my-package"), "Cleaning package org/my-package");
}

#[test]
fn untagged_means_no_tag_at_all() {
    assert!(version(1, "sha256:one", &[]).is_untagged());
    assert!(!version(1, "sha256:one", &["v1"]).is_untagged());
    assert!(!version(1, "sha256:one", &[""]).is_untagged());
}
