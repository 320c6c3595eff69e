//! The cleanup workflow: every page of the versions of a package is listed
//! in turn, and each version that no tag points at is deleted, or only
//! reported in a dry run.

use vstd::prelude::*;
use vstd::string::*;
use crate::api::{PackageVersion, PackageVersionView};
use crate::client::{GithubClient, PackageOwner, PackageOwnerView};
use crate::error::{ClientError, ClientErrorView, CleanupError, CleanupErrorView};
use crate::session::{delete_answer, list_answer, Exchange, Session};
use crate::text::{decimal, u64_to_decimal};

verus! {

/// What became of a version that was picked for deletion.
#[derive(Debug, Clone, PartialEq, Eq)]
pub enum DeletionOutcome {
    /// The run was a dry run: the registry was not asked.
    DryRun,
    /// The registry answered the delete request with success.
    Deleted,
    /// The delete request failed; the cleanup went on with the next version.
    Failed(ClientError),
}

/// What a `DeletionOutcome` holds, as mathematical values.
pub enum DeletionOutcomeView {
    DryRun,
    Deleted,
    Failed(ClientErrorView),
}

impl View for DeletionOutcome {
    type V = DeletionOutcomeView;

    open spec fn view(&self) -> DeletionOutcomeView {
        match self {
            DeletionOutcome::DryRun => DeletionOutcomeView::DryRun,
            DeletionOutcome::Deleted => DeletionOutcomeView::Deleted,
            DeletionOutcome::Failed(cause) => DeletionOutcomeView::Failed(cause@),
        }
    }
}

/// The outcome that the answer to a delete request stands for.
pub open spec fn outcome_of(answer: Result<(), ClientErrorView>) -> DeletionOutcomeView {
    match answer {
        Ok(()) => DeletionOutcomeView::Deleted,
        Err(cause) => DeletionOutcomeView::Failed(cause),
    }
}

impl DeletionOutcome {
    /// The outcome that the answer to a delete request stands for: a
    /// failure is kept, not passed on.
    pub fn from_answer(answer: Result<(), ClientError>) -> (outcome: Self)
        ensures
            outcome@ == outcome_of(delete_answer(answer)),
    {
        match answer {
            Ok(()) => DeletionOutcome::Deleted,
            Err(cause) => DeletionOutcome::Failed(cause),
        }
    }
}

/// The record of one version that was picked for deletion.
#[derive(Debug, Clone, PartialEq, Eq)]
pub struct DeletionRecord {
    pub version_id: u64,
    pub version_name: String,
    pub outcome: DeletionOutcome,
}

/// What a `DeletionRecord` holds, as mathematical values.
pub struct DeletionRecordView {
    pub version_id: u64,
    pub version_name: Seq<char>,
    pub outcome: DeletionOutcomeView,
}

impl View for DeletionRecord {
    type V = DeletionRecordView;

    open spec fn view(&self) -> DeletionRecordView {
        DeletionRecordView {
            version_id: self.version_id,
            version_name: self.version_name@,
            outcome: self.outcome@,
        }
    }
}

impl DeepView for DeletionRecord {
    type V = DeletionRecordView;

    open spec fn deep_view(&self) -> DeletionRecordView {
        self@
    }
}

impl DeletionRecordView {
    /// The notice that the version is to be deleted; it says so when the
    /// run is dry.
    pub open spec fn intent(self, owner: PackageOwnerView, package: Seq<char>) -> Seq<char> {
        let notice = "Deleting "@ + owner.name() + "/"@ + package + ":"@ + self.version_name;
        if self.outcome is DryRun {
            notice + " (DRY RUN)"@
        } else {
            notice
        }
    }
}

impl DeletionRecord {
    /// The notice that the version is to be deleted, which is due for every
    /// record, whatever became of the deletion.
    pub fn intent(&self, owner: &PackageOwner, package_name: &str) -> (text: String)
        ensures
            text@ == self@.intent(owner@, package_name@),
    {
        let mut text = String::from_str("Deleting ");
        let account = owner.to_string();
        text.append(account.as_str());
        text.append("/");
        text.append(package_name);
        text.append(":");
        text.append(self.version_name.as_str());
        match &self.outcome {
            DeletionOutcome::DryRun => {
                text.append(" (DRY RUN)");
            },
            _ => {},
        }
        text
    }

    /// The warning that is due when the delete request failed: the text of
    /// the failure.
    pub fn warning(&self) -> (text: Option<String>)
        ensures
            match self@.outcome {
                DeletionOutcomeView::Failed(cause) => text matches Some(t) && t@ == cause.message(),
                _ => text is None,
            },
    {
        match &self.outcome {
            DeletionOutcome::Failed(cause) => Some(cause.message()),
            _ => None,
        }
    }
}

/// The test that picks a version for deletion.
pub open spec fn is_candidate() -> spec_fn(PackageVersionView) -> bool {
    |version: PackageVersionView| version.is_untagged()
}

/// The versions of a page that are picked for deletion: those without a
/// tag, in the order of the page.
pub open spec fn candidates(versions: Seq<PackageVersionView>) -> Seq<PackageVersionView> {
    versions.filter(is_candidate())
}

/// Whether `records` are the records of the candidates of `versions`, one
/// each and in their order, made in a run with the given `dry_run`.
pub open spec fn records_cover(
    versions: Seq<PackageVersionView>,
    dry_run: bool,
    records: Seq<DeletionRecordView>,
) -> bool {
    &&& records.len() == candidates(versions).len()
    &&& forall|i: int|
        0 <= i < records.len() ==> {
            &&& (#[trigger] records[i]).version_id == candidates(versions)[i].id
            &&& records[i].version_name == candidates(versions)[i].name
            &&& (records[i].outcome is DryRun <==> dry_run)
        }
}

/// The exchange that a record tells of: none in a dry run, else the delete
/// request for the version, by its id in decimal, with the answer that the
/// outcome stands for.
pub open spec fn record_exchanges(
    owner: PackageOwnerView,
    package: Seq<char>,
    record: DeletionRecordView,
) -> Seq<Exchange> {
    match record.outcome {
        DeletionOutcomeView::DryRun => Seq::empty(),
        DeletionOutcomeView::Deleted => seq![
            Exchange::Delete {
                owner,
                package,
                version_id: decimal(record.version_id as nat),
                answer: Ok(()),
            },
        ],
        DeletionOutcomeView::Failed(cause) => seq![
            Exchange::Delete {
                owner,
                package,
                version_id: decimal(record.version_id as nat),
                answer: Err(cause),
            },
        ],
    }
}

/// The exchanges that `records` tell of, in the order of the records.
pub open spec fn records_exchanges(
    owner: PackageOwnerView,
    package: Seq<char>,
    records: Seq<DeletionRecordView>,
) -> Seq<Exchange>
    decreases records.len(),
{
    if records.len() == 0 {
        Seq::empty()
    } else {
        records_exchanges(owner, package, records.drop_last()) + record_exchanges(
            owner,
            package,
            records.last(),
        )
    }
}

/// Deletes the untagged versions among `versions`, in their order, or only
/// records them in a dry run.
///
/// Every untagged version gets a record and, unless the run is dry, exactly
/// one delete request. A failed request is kept in the record and stops
/// nothing. Tagged versions cause no request and no record.
pub fn clean_package_versions<C: GithubClient>(
    session: &mut Session<C>,
    owner: &PackageOwner,
    package_name: &str,
    versions: &[PackageVersion],
    dry_run: bool,
) -> (records: Vec<DeletionRecord>)
    ensures
        final(session).inner() == old(session).inner(),
        records_cover(versions.deep_view(), dry_run, records.deep_view()),
        final(session).trace() == old(session).trace() + records_exchanges(
            owner@,
            package_name@,
            records.deep_view(),
        ),
{
    let mut records: Vec<DeletionRecord> = Vec::new();
    let mut i: usize = 0;
    proof {
        assert(versions.deep_view().take(0) =~= Seq::<PackageVersionView>::empty());
        reveal(Seq::filter);
        assert(records.deep_view() =~= Seq::<DeletionRecordView>::empty());
        assert(session.trace() =~= old(session).trace() + records_exchanges(
            owner@,
            package_name@,
            records.deep_view(),
        ));
    }
    while i < versions.len()
        invariant
            i <= versions.len(),
            session.inner() == old(session).inner(),
            records_cover(versions.deep_view().take(i as int), dry_run, records.deep_view()),
            session.trace() == old(session).trace() + records_exchanges(
                owner@,
                package_name@,
                records.deep_view(),
            ),
        decreases versions.len() - i,
    {
        let version = &versions[i];
        let ghost seen = versions.deep_view().take(i as int);
        let ghost before = records.deep_view();
        proof {
            assert(versions.deep_view().take(i + 1) =~= seen.push(version@));
            seen.lemma_filter_push(version@, is_candidate());
        }
        if version.is_untagged() {
            let outcome = if dry_run {
                DeletionOutcome::DryRun
            } else {
                let id = u64_to_decimal(version.id);
                let answer = session.delete(owner, package_name, id.as_str());
                DeletionOutcome::from_answer(answer)
            };
            let record = DeletionRecord {
                version_id: version.id,
                version_name: version.name.clone(),
                outcome,
            };
            records.push(record);
            proof {
                assert(records.deep_view() =~= before.push(record@));
                assert(records.deep_view().drop_last() =~= before);
            }
        }
        i += 1;
    }
    proof {
        assert(versions.deep_view().take(i as int) =~= versions.deep_view());
    }
    records
}

/// What the answer to a list request asks of the cleanup.
#[derive(Debug)]
pub enum PageStep {
    /// The page holds versions: clean them, then ask for the next page.
    Clean(Vec<PackageVersion>),
    /// The cleanup of the package ends here, well or with a failure.
    Stop(Result<(), CleanupError>),
}

/// The end of a cleanup, as mathematical values.
pub open spec fn end_view(end: Result<(), CleanupError>) -> Result<(), CleanupErrorView> {
    match end {
        Ok(()) => Ok(()),
        Err(cause) => Err(cause@),
    }
}

/// Decides how the cleanup goes on after the list request for `page` was
/// answered with `answer`: a failure ends it with that failure, an empty
/// page ends it well, and any other page is to be cleaned.
pub fn after_list(page: u32, answer: Result<Vec<PackageVersion>, ClientError>) -> (step: PageStep)
    ensures
        match answer {
            Err(cause) => step matches PageStep::Stop(
                Err(CleanupError::ListFailed { page: p, cause: c }),
            ) && p == page && c == cause,
            Ok(versions) => if versions.len() == 0 {
                step matches PageStep::Stop(Ok(()))
            } else {
                step matches PageStep::Clean(v) && v == versions
            },
        },
{
    match answer {
        Err(cause) => PageStep::Stop(Err(CleanupError::ListFailed { page, cause })),
        Ok(versions) => if versions.len() == 0 {
            PageStep::Stop(Ok(()))
        } else {
            PageStep::Clean(versions)
        },
    }
}

/// The page to ask for after page `page` was cleaned: the next one, or
/// `PageLimit` where `page` is the last that a page number can name.
pub fn next_page(page: u32) -> (next: Result<u32, CleanupError>)
    ensures
        page < u32::MAX ==> next == Ok::<u32, CleanupError>((page + 1) as u32),
        page == u32::MAX ==> next == Err::<u32, CleanupError>(CleanupError::PageLimit),
{
    match page.checked_add(1) {
        Some(next) => Ok(next),
        None => Err(CleanupError::PageLimit),
    }
}

/// Whether `trace` is what passes between the cleanup and the registry when
/// a package is cleaned from page `page` on, with `records` kept and `end`
/// as the result.
///
/// The pass opens with the list request for `page`. A failure ends it with
/// that failure, an empty page ends it well. Any other page is followed by
/// the exchanges of its records, which cover its candidates, and then by the
/// pass from the next page on; where no next page number is left, the pass
/// ends with `PageLimit`.
pub open spec fn is_pass(
    owner: PackageOwnerView,
    package: Seq<char>,
    dry_run: bool,
    page: u32,
    trace: Seq<Exchange>,
    records: Seq<DeletionRecordView>,
    end: Result<(), CleanupErrorView>,
) -> bool
    decreases trace.len(),
{
    &&& trace.len() > 0
    &&& trace[0] matches Exchange::List { owner: o, package: p, page: n, answer }
    &&& o == owner
    &&& p == package
    &&& n == Some(page)
    &&& match answer {
        Err(cause) => {
            &&& trace.len() == 1
            &&& records.len() == 0
            &&& end == Err::<(), CleanupErrorView>(CleanupErrorView::ListFailed { page, cause })
        },
        Ok(versions) => if versions.len() == 0 {
            &&& trace.len() == 1
            &&& records.len() == 0
            &&& end == Ok::<(), CleanupErrorView>(())
        } else {
            let count = candidates(versions).len() as int;
            let made = records_exchanges(owner, package, records.take(count));
            &&& count <= records.len()
            &&& records_cover(versions, dry_run, records.take(count))
            &&& 1 + made.len() as int <= trace.len()
            &&& trace.subrange(1, 1 + made.len() as int) == made
            &&& if page == u32::MAX {
                &&& trace.len() == 1 + made.len() as int
                &&& records.len() == count
                &&& end == Err::<(), CleanupErrorView>(CleanupErrorView::PageLimit)
            } else {
                is_pass(
                    owner,
                    package,
                    dry_run,
                    (page + 1) as u32,
                    trace.skip(1 + made.len() as int),
                    records.skip(count),
                    end,
                )
            }
        },
    }
}

/// The list request for `page` with the page `versions` as its answer.
spec fn page_listed(
    owner: PackageOwnerView,
    package: Seq<char>,
    page: u32,
    versions: Seq<PackageVersionView>,
) -> Exchange {
    Exchange::List { owner, package, page: Some(page), answer: Ok(versions) }
}

/// Whether every pass from page `page` on, put behind `trace` and `records`,
/// makes a pass from the first page on.
spec fn leads_to(
    owner: PackageOwnerView,
    package: Seq<char>,
    dry_run: bool,
    page: u32,
    trace: Seq<Exchange>,
    records: Seq<DeletionRecordView>,
) -> bool {
    forall|rest: Seq<Exchange>, more: Seq<DeletionRecordView>, end: Result<(), CleanupErrorView>|
        #[trigger] is_pass(owner, package, dry_run, page, rest, more, end) ==> is_pass(
            owner,
            package,
            dry_run,
            1,
            trace + rest,
            records + more,
            end,
        )
}

/// Before the first request, every pass from the first page on is the whole
/// pass.
proof fn lemma_nothing_leads_to_first_page(
    owner: PackageOwnerView,
    package: Seq<char>,
    dry_run: bool,
)
    ensures
        leads_to(owner, package, dry_run, 1, Seq::empty(), Seq::empty()),
{
    assert forall|
        rest: Seq<Exchange>,
        more: Seq<DeletionRecordView>,
        end: Result<(), CleanupErrorView>,
    |
        #[trigger] is_pass(owner, package, dry_run, 1, rest, more, end) implies is_pass(
        owner,
        package,
        dry_run,
        1,
        Seq::<Exchange>::empty() + rest,
        Seq::<DeletionRecordView>::empty() + more,
        end,
    ) by {
        assert(Seq::<Exchange>::empty() + rest =~= rest);
        assert(Seq::<DeletionRecordView>::empty() + more =~= more);
    }
}

/// A cleaned page in front of a pass from the next page on makes a pass
/// from that page on; so does a cleaned last page alone, with `PageLimit`
/// as the end.
proof fn lemma_page_then_pass(
    owner: PackageOwnerView,
    package: Seq<char>,
    dry_run: bool,
    page: u32,
    versions: Seq<PackageVersionView>,
    page_records: Seq<DeletionRecordView>,
    rest: Seq<Exchange>,
    more: Seq<DeletionRecordView>,
    end: Result<(), CleanupErrorView>,
)
    requires
        versions.len() > 0,
        records_cover(versions, dry_run, page_records),
        page < u32::MAX ==> is_pass(owner, package, dry_run, (page + 1) as u32, rest, more, end),
        page == u32::MAX ==> rest.len() == 0 && more.len() == 0 && end == Err::<
            (),
            CleanupErrorView,
        >(CleanupErrorView::PageLimit),
    ensures
        is_pass(
            owner,
            package,
            dry_run,
            page,
            seq![page_listed(owner, package, page, versions)] + records_exchanges(
                owner,
                package,
                page_records,
            ) + rest,
            page_records + more,
            end,
        ),
{
    let made = records_exchanges(owner, package, page_records);
    let trace = seq![page_listed(owner, package, page, versions)] + made + rest;
    let records = page_records + more;
    let count = candidates(versions).len() as int;
    assert(records.take(count) =~= page_records);
    assert(records.skip(count) =~= more);
    assert(trace.subrange(1, 1 + made.len() as int) =~= made);
    assert(trace.skip(1 + made.len() as int) =~= rest);
}

/// What led to page `page` leads, with that page cleaned, to the page after
/// it.
proof fn lemma_leads_to_next_page(
    owner: PackageOwnerView,
    package: Seq<char>,
    dry_run: bool,
    page: u32,
    trace: Seq<Exchange>,
    records: Seq<DeletionRecordView>,
    versions: Seq<PackageVersionView>,
    page_records: Seq<DeletionRecordView>,
)
    requires
        leads_to(owner, package, dry_run, page, trace, records),
        page < u32::MAX,
        versions.len() > 0,
        records_cover(versions, dry_run, page_records),
    ensures
        leads_to(
            owner,
            package,
            dry_run,
            (page + 1) as u32,
            trace + seq![page_listed(owner, package, page, versions)] + records_exchanges(
                owner,
                package,
                page_records,
            ),
            records + page_records,
        ),
{
    let round = seq![page_listed(owner, package, page, versions)] + records_exchanges(
        owner,
        package,
        page_records,
    );
    let next = (page + 1) as u32;
    assert forall|
        rest: Seq<Exchange>,
        more: Seq<DeletionRecordView>,
        end: Result<(), CleanupErrorView>,
    |
        #[trigger] is_pass(owner, package, dry_run, next, rest, more, end) implies is_pass(
        owner,
        package,
        dry_run,
        1,
        trace + seq![page_listed(owner, package, page, versions)] + records_exchanges(
            owner,
            package,
            page_records,
        ) + rest,
        records + page_records + more,
        end,
    ) by {
        lemma_page_then_pass(
            owner,
            package,
            dry_run,
            page,
            versions,
            page_records,
            rest,
            more,
            end,
        );
        assert(is_pass(owner, package, dry_run, page, round + rest, page_records + more, end));
        assert(trace + (round + rest) =~= trace + seq![
            page_listed(owner, package, page, versions),
        ] + records_exchanges(owner, package, page_records) + rest);
        assert(records + (page_records + more) =~= records + page_records + more);
    }
}

/// The records of the cleanup of one package, and how it ended.
#[derive(Debug, PartialEq, Eq)]
pub struct PackageReport {
    /// One record for each untagged version that was met, page by page.
    pub records: Vec<DeletionRecord>,
    /// `Ok` when the pages were exhausted, else why the cleanup stopped.
    pub result: Result<(), CleanupError>,
}

/// What a `PackageReport` holds, as mathematical values.
pub struct PackageReportView {
    pub records: Seq<DeletionRecordView>,
    pub result: Result<(), CleanupErrorView>,
}

impl View for PackageReport {
    type V = PackageReportView;

    open spec fn view(&self) -> PackageReportView {
        PackageReportView { records: self.records.deep_view(), result: end_view(self.result) }
    }
}

impl DeepView for PackageReport {
    type V = PackageReportView;

    open spec fn deep_view(&self) -> PackageReportView {
        self@
    }
}

/// The notice that the cleanup of a package begins.
pub open spec fn start_notice(owner: PackageOwnerView, package: Seq<char>) -> Seq<char> {
    "Cleaning package "@ + owner.name() + "/"@ + package
}

/// The notice that the cleanup of `package_name` of `owner` begins.
pub fn start_message(owner: &PackageOwner, package_name: &str) -> (text: String)
    ensures
        text@ == start_notice(owner@, package_name@),
{
    let mut text = String::from_str("Cleaning package ");
    let account = owner.to_string();
    text.append(account.as_str());
    text.append("/");
    text.append(package_name);
    text
}

impl PackageReportView {
    /// The text that tells of a cleanup that failed, with the package and
    /// the cause.
    pub open spec fn failure(self, owner: PackageOwnerView, package: Seq<char>) -> Option<
        Seq<char>,
    > {
        match self.result {
            Ok(()) => None,
            Err(cause) => Some(
                "Failed to clean package "@ + owner.name() + "/"@ + package + ": "@
                    + cause.message(),
            ),
        }
    }
}

impl PackageReport {
    /// The text that tells of the failure of the cleanup of `package_name`
    /// of `owner`; `None` when the cleanup ended well.
    pub fn failure(&self, owner: &PackageOwner, package_name: &str) -> (text: Option<String>)
        ensures
            match self@.failure(owner@, package_name@) {
                Some(t) => text matches Some(s) && s@ == t,
                None => text is None,
            },
    {
        match &self.result {
            Ok(()) => None,
            Err(cause) => {
                let mut text = String::from_str("Failed to clean package ");
                let account = owner.to_string();
                text.append(account.as_str());
                text.append("/");
                text.append(package_name);
                text.append(": ");
                let detail = cause.message();
                text.append(detail.as_str());
                Some(text)
            },
        }
    }
}

/// Cleans one package: lists its versions page by page, from the first page
/// on, and cleans each page, until a page comes back empty.
///
/// A list request that fails ends the cleanup of the package with that
/// failure; what was recorded before is kept in the report.
pub fn clean_package<C: GithubClient>(
    session: &mut Session<C>,
    owner: &PackageOwner,
    package_name: &str,
    dry_run: bool,
) -> (report: PackageReport)
    ensures
        final(session).inner() == old(session).inner(),
        old(session).trace().is_prefix_of(final(session).trace()),
        is_pass(
            owner@,
            package_name@,
            dry_run,
            1,
            final(session).trace().skip(old(session).trace().len() as int),
            report@.records,
            report@.result,
        ),
{
    let mut records: Vec<DeletionRecord> = Vec::new();
    let mut page: u32 = 1;
    let ghost start = session.trace();
    proof {
        lemma_nothing_leads_to_first_page(owner@, package_name@, dry_run);
        assert(session.trace().skip(start.len() as int) =~= Seq::<Exchange>::empty());
        assert(records.deep_view() =~= Seq::<DeletionRecordView>::empty());
    }
    loop
        invariant
            session.inner() == old(session).inner(),
            start == old(session).trace(),
            start.is_prefix_of(session.trace()),
            leads_to(
                owner@,
                package_name@,
                dry_run,
                page,
                session.trace().skip(start.len() as int),
                records.deep_view(),
            ),
        decreases u32::MAX - page,
    {
        let ghost done = session.trace().skip(start.len() as int);
        let ghost kept = records.deep_view();
        let answer = session.list(owner, package_name, Some(page));
        let ghost asked = Exchange::List {
            owner: owner@,
            package: package_name@,
            page: Some(page),
            answer: list_answer(answer),
        };
        proof {
            assert(session.trace().skip(start.len() as int) =~= done + seq![asked]);
        }
        match after_list(page, answer) {
            PageStep::Stop(result) => {
                proof {
                    assert(is_pass(
                        owner@,
                        package_name@,
                        dry_run,
                        page,
                        seq![asked],
                        Seq::empty(),
                        end_view(result),
                    ));
                    assert(kept + Seq::<DeletionRecordView>::empty() =~= kept);
                }
                return PackageReport { records, result };
            },
            PageStep::Clean(versions) => {
                let mut page_records = clean_package_versions(
                    session,
                    owner,
                    package_name,
                    versions.as_slice(),
                    dry_run,
                );
                let ghost fresh = page_records.deep_view();
                let ghost made = records_exchanges(owner@, package_name@, fresh);
                records.append(&mut page_records);
                proof {
                    assert(records.deep_view() =~= kept + fresh);
                    assert(session.trace().skip(start.len() as int) =~= done + seq![asked] + made);
                }
                match next_page(page) {
                    Err(limit) => {
                        proof {
                            lemma_page_then_pass(
                                owner@,
                                package_name@,
                                dry_run,
                                page,
                                versions.deep_view(),
                                fresh,
                                Seq::empty(),
                                Seq::empty(),
                                Err(CleanupErrorView::PageLimit),
                            );
                            assert(done + (seq![asked] + made + Seq::<Exchange>::empty()) =~= done
                                + seq![asked] + made);
                            assert(kept + (fresh + Seq::<DeletionRecordView>::empty()) =~= kept
                                + fresh);
                        }
                        return PackageReport { records, result: Err(limit) };
                    },
                    Ok(next) => {
                        proof {
                            lemma_leads_to_next_page(
                                owner@,
                                package_name@,
                                dry_run,
                                page,
                                done,
                                kept,
                                versions.deep_view(),
                                fresh,
                            );
                        }
                        page = next;
                    },
                }
            },
        }
    }
}

/// Whether `trace` is what passes between the cleanup and the registry when
/// `packages` are cleaned one after the other, with `reports` as the
/// reports: one pass from the first page on for each package, in the order
/// of the packages, whatever the passes before it ended with.
pub open spec fn is_cleanup(
    owner: PackageOwnerView,
    packages: Seq<Seq<char>>,
    dry_run: bool,
    trace: Seq<Exchange>,
    reports: Seq<PackageReportView>,
) -> bool
    decreases packages.len(),
{
    &&& reports.len() == packages.len()
    &&& if packages.len() == 0 {
        trace.len() == 0
    } else {
        exists|cut: int|
            {
                &&& 0 <= cut <= trace.len()
                &&& is_cleanup(
                    owner,
                    packages.drop_last(),
                    dry_run,
                    #[trigger] trace.take(cut),
                    reports.drop_last(),
                )
                &&& is_pass(
                    owner,
                    packages.last(),
                    dry_run,
                    1,
                    trace.skip(cut),
                    reports.last().records,
                    reports.last().result,
                )
            }
    }
}

/// Cleans each of the packages `package_names` in turn and reports on each.
///
/// Every package is cleaned, also after the cleanup of one before it has
/// failed.
pub fn clean_packages<C: GithubClient>(
    session: &mut Session<C>,
    owner: &PackageOwner,
    package_names: &[String],
    dry_run: bool,
) -> (reports: Vec<PackageReport>)
    ensures
        final(session).inner() == old(session).inner(),
        old(session).trace().is_prefix_of(final(session).trace()),
        is_cleanup(
            owner@,
            package_names.deep_view(),
            dry_run,
            final(session).trace().skip(old(session).trace().len() as int),
            reports.deep_view(),
        ),
{
    let mut reports: Vec<PackageReport> = Vec::new();
    let mut i: usize = 0;
    let ghost start = session.trace();
    proof {
        assert(session.trace().skip(start.len() as int) =~= Seq::<Exchange>::empty());
        assert(package_names.deep_view().take(0) =~= Seq::<Seq<char>>::empty());
    }
    while i < package_names.len()
        invariant
            i <= package_names.len(),
            session.inner() == old(session).inner(),
            start == old(session).trace(),
            start.is_prefix_of(session.trace()),
            is_cleanup(
                owner@,
                package_names.deep_view().take(i as int),
                dry_run,
                session.trace().skip(start.len() as int),
                reports.deep_view(),
            ),
        decreases package_names.len() - i,
    {
        let ghost done = session.trace().skip(start.len() as int);
        let ghost told = reports.deep_view();
        let ghost names = package_names.deep_view().take(i as int);
        let report = clean_package(session, owner, package_names[i].as_str(), dry_run);
        proof {
            let now = session.trace().skip(start.len() as int);
            let cut = done.len() as int;
            let next = package_names.deep_view().take(i + 1);
            assert(next.drop_last() =~= names);
            assert(next.last() == package_names[i as int]@);
            assert(now.take(cut) =~= done);
            assert(now.skip(cut) =~= session.trace().skip(start.len() + cut));
            assert(told.push(report@).drop_last() =~= told);
        }
        reports.push(report);
        proof {
            assert(reports.deep_view() =~= told.push(report@));
        }
        i += 1;
    }
    proof {
        assert(package_names.deep_view().take(i as int) =~= package_names.deep_view());
    }
    reports
}

} // verus!
