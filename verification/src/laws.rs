//! What holds of every cleanup, stated over the exchanges and records that
//! the contracts of the workflow speak of.

use vstd::prelude::*;
use crate::api::PackageVersionView;
use crate::cleanup::{
    candidates, is_candidate, is_cleanup, is_pass, records_cover, records_exchanges,
    DeletionRecordView, PackageReportView,
};
use crate::client::PackageOwnerView;
use crate::error::CleanupErrorView;
use crate::session::Exchange;
use crate::text::decimal;

verus! {

/// The delete request for version `id`, whatever its answer.
pub open spec fn is_delete_of(
    exchange: Exchange,
    owner: PackageOwnerView,
    package: Seq<char>,
    id: u64,
) -> bool {
    exchange matches Exchange::Delete { owner: o, package: p, version_id: v, .. } && o == owner && p
        == package && v == decimal(id as nat)
}

/// Records of a dry run tell of no exchange.
pub proof fn lemma_dry_records_make_no_request(
    owner: PackageOwnerView,
    package: Seq<char>,
    records: Seq<DeletionRecordView>,
)
    requires
        forall|i: int| 0 <= i < records.len() ==> (#[trigger] records[i]).outcome is DryRun,
    ensures
        records_exchanges(owner, package, records).len() == 0,
    decreases records.len(),
{
    if records.len() > 0 {
        lemma_dry_records_make_no_request(owner, package, records.drop_last());
    }
}

/// Records of a run that is not dry tell of one delete request each, in the
/// order of the records.
pub proof fn lemma_live_records_make_one_request_each(
    owner: PackageOwnerView,
    package: Seq<char>,
    records: Seq<DeletionRecordView>,
)
    requires
        forall|i: int| 0 <= i < records.len() ==> !((#[trigger] records[i]).outcome is DryRun),
    ensures
        records_exchanges(owner, package, records).len() == records.len(),
        forall|i: int|
            0 <= i < records.len() ==> is_delete_of(
                #[trigger] records_exchanges(owner, package, records)[i],
                owner,
                package,
                records[i].version_id,
            ),
    decreases records.len(),
{
    if records.len() > 0 {
        lemma_live_records_make_one_request_each(owner, package, records.drop_last());
    }
}

/// No delete request is made for a page on which every version has a tag,
/// in a dry run or not, and no record is kept.
pub proof fn lemma_tagged_versions_are_left_alone(
    owner: PackageOwnerView,
    package: Seq<char>,
    versions: Seq<PackageVersionView>,
    dry_run: bool,
    records: Seq<DeletionRecordView>,
)
    requires
        forall|i: int| 0 <= i < versions.len() ==> !(#[trigger] versions[i]).is_untagged(),
        records_cover(versions, dry_run, records),
    ensures
        records.len() == 0,
        records_exchanges(owner, package, records).len() == 0,
{
    let picked = candidates(versions);
    if picked.len() > 0 {
        versions.lemma_filter_pred(is_candidate(), 0);
        assert(picked.contains(picked[0]));
        versions.lemma_filter_contains_rev(is_candidate(), picked[0]);
        let j = choose|j: int| 0 <= j < versions.len() && versions[j] == picked[0];
        assert(!versions[j].is_untagged());
    }
}

/// The place among the candidates of a page of the untagged version at
/// index `i` of the page: the number of untagged versions before it.
pub open spec fn rank(versions: Seq<PackageVersionView>, i: int) -> int {
    candidates(versions.take(i)).len() as int
}

/// An untagged version of a page is a candidate, at the place that its rank
/// gives; versions further down the page have a higher rank.
pub proof fn lemma_untagged_version_is_candidate(versions: Seq<PackageVersionView>, i: int)
    requires
        0 <= i < versions.len(),
        versions[i].is_untagged(),
    ensures
        0 <= rank(versions, i) < candidates(versions).len(),
        candidates(versions)[rank(versions, i)] == versions[i],
        forall|j: int| i < j <= versions.len() ==> rank(versions, i) < #[trigger] rank(versions, j),
{
    let head = versions.take(i);
    let upto = versions.take(i + 1);
    assert(upto =~= head.push(versions[i]));
    head.lemma_filter_push(versions[i], is_candidate());
    assert forall|j: int| i < j <= versions.len() implies candidates(upto).len() <= candidates(
        versions.take(j),
    ).len() && candidates(versions.take(j))[rank(versions, i)] == versions[i] by {
        let tail = versions.subrange(i + 1, j);
        assert(versions.take(j) =~= upto + tail);
        Seq::filter_distributes_over_add(upto, tail, is_candidate());
    }
    assert(versions.take(versions.len() as int) =~= versions);
}

/// For every untagged version of a page that was cleaned, a run that is not
/// dry makes exactly one delete request, the one at the version's rank
/// among the requests for that page, with the version's id in decimal; there
/// are as many requests as there are candidates. A dry run makes none.
pub proof fn lemma_one_delete_for_each_untagged_version(
    owner: PackageOwnerView,
    package: Seq<char>,
    versions: Seq<PackageVersionView>,
    dry_run: bool,
    records: Seq<DeletionRecordView>,
    i: int,
)
    requires
        records_cover(versions, dry_run, records),
        0 <= i < versions.len(),
        versions[i].is_untagged(),
    ensures
        dry_run ==> records_exchanges(owner, package, records).len() == 0,
        !dry_run ==> {
            &&& records_exchanges(owner, package, records).len() == candidates(versions).len()
            &&& 0 <= rank(versions, i) < candidates(versions).len()
            &&& is_delete_of(
                records_exchanges(owner, package, records)[rank(versions, i)],
                owner,
                package,
                versions[i].id,
            )
        },
        0 <= rank(versions, i) < records.len(),
        records[rank(versions, i)].version_id == versions[i].id,
        records[rank(versions, i)].version_name == versions[i].name,
{
    lemma_untagged_version_is_candidate(versions, i);
    if dry_run {
        lemma_dry_records_make_no_request(owner, package, records);
    } else {
        lemma_live_records_make_one_request_each(owner, package, records);
    }
}

/// A delete request that failed stops nothing: the delete requests for the
/// candidates after it on the page are made all the same.
pub proof fn lemma_failed_delete_stops_nothing(
    owner: PackageOwnerView,
    package: Seq<char>,
    versions: Seq<PackageVersionView>,
    records: Seq<DeletionRecordView>,
    failed: int,
    later: int,
)
    requires
        records_cover(versions, false, records),
        0 <= failed < later < records.len(),
        records[failed].outcome is Failed,
    ensures
        records_exchanges(owner, package, records).len() == candidates(versions).len(),
        is_delete_of(
            records_exchanges(owner, package, records)[later],
            owner,
            package,
            candidates(versions)[later].id,
        ),
{
    lemma_live_records_make_one_request_each(owner, package, records);
}

/// The exchanges that records tell of are delete requests.
pub proof fn lemma_records_exchanges_are_deletes(
    owner: PackageOwnerView,
    package: Seq<char>,
    records: Seq<DeletionRecordView>,
)
    ensures
        forall|i: int|
            0 <= i < records_exchanges(owner, package, records).len() ==> (
            #[trigger] records_exchanges(owner, package, records)[i]) is Delete,
    decreases records.len(),
{
    if records.len() > 0 {
        lemma_records_exchanges_are_deletes(owner, package, records.drop_last());
    }
}

/// The versions that an exchange lists: those of the answer to a list
/// request; none where the request failed or was a delete request.
pub open spec fn listed(exchange: Exchange) -> Seq<PackageVersionView> {
    match exchange {
        Exchange::List { answer: Ok(versions), .. } => versions,
        _ => Seq::empty(),
    }
}

/// Listing ends with the first empty page: in a pass, a list request that
/// is answered with an empty page is the last exchange, and the pass ends
/// well.
pub proof fn lemma_pass_ends_at_first_empty_page(
    owner: PackageOwnerView,
    package: Seq<char>,
    dry_run: bool,
    page: u32,
    trace: Seq<Exchange>,
    records: Seq<DeletionRecordView>,
    end: Result<(), CleanupErrorView>,
    i: int,
)
    requires
        is_pass(owner, package, dry_run, page, trace, records, end),
        0 <= i < trace.len(),
        trace[i] matches Exchange::List { answer: Ok(versions), .. } && versions.len() == 0,
    ensures
        i == trace.len() - 1,
        end == Ok::<(), CleanupErrorView>(()),
    decreases trace.len(),
{
    let versions = listed(trace[0]);
    if versions.len() > 0 {
        let count = candidates(versions).len() as int;
        let made = records_exchanges(owner, package, records.take(count));
        lemma_records_exchanges_are_deletes(owner, package, records.take(count));
        if 1 <= i < 1 + made.len() {
            assert(trace.subrange(1, 1 + made.len() as int)[i - 1] == trace[i]);
        }
        if page < u32::MAX {
            lemma_pass_ends_at_first_empty_page(
                owner,
                package,
                dry_run,
                (page + 1) as u32,
                trace.skip(1 + made.len() as int),
                records.skip(count),
                end,
                i - 1 - made.len(),
            );
        }
    }
}

/// A list request that fails ends the pass: it is the last exchange, and
/// the pass ends with that failure and the page that was asked for.
pub proof fn lemma_pass_ends_at_first_failed_listing(
    owner: PackageOwnerView,
    package: Seq<char>,
    dry_run: bool,
    page: u32,
    trace: Seq<Exchange>,
    records: Seq<DeletionRecordView>,
    end: Result<(), CleanupErrorView>,
    i: int,
)
    requires
        is_pass(owner, package, dry_run, page, trace, records, end),
        0 <= i < trace.len(),
        trace[i] matches Exchange::List { answer: Err(_), .. },
    ensures
        i == trace.len() - 1,
        trace[i] matches Exchange::List { page: Some(at), answer: Err(cause), .. } && end == Err::<
            (),
            CleanupErrorView,
        >(CleanupErrorView::ListFailed { page: at, cause }),
    decreases trace.len(),
{
    let versions = listed(trace[0]);
    if versions.len() > 0 {
        let count = candidates(versions).len() as int;
        let made = records_exchanges(owner, package, records.take(count));
        lemma_records_exchanges_are_deletes(owner, package, records.take(count));
        if 1 <= i < 1 + made.len() {
            assert(trace.subrange(1, 1 + made.len() as int)[i - 1] == trace[i]);
        }
        if page < u32::MAX {
            lemma_pass_ends_at_first_failed_listing(
                owner,
                package,
                dry_run,
                (page + 1) as u32,
                trace.skip(1 + made.len() as int),
                records.skip(count),
                end,
                i - 1 - made.len(),
            );
        }
    }
}

/// A pass ends well only with a list request that is answered with an empty
/// page, and with a failure of listing only with a list request that failed
/// so.
pub proof fn lemma_pass_ends_with_a_list_request(
    owner: PackageOwnerView,
    package: Seq<char>,
    dry_run: bool,
    page: u32,
    trace: Seq<Exchange>,
    records: Seq<DeletionRecordView>,
    end: Result<(), CleanupErrorView>,
)
    requires
        is_pass(owner, package, dry_run, page, trace, records, end),
    ensures
        end is Ok ==> (trace.last() matches Exchange::List { answer: Ok(versions), .. }
            && versions.len() == 0),
        end matches Err(CleanupErrorView::ListFailed { page: at, cause }) ==> (
        trace.last() matches Exchange::List { page: asked, answer: Err(told), .. } && asked == Some(
            at,
        ) && told == cause),
    decreases trace.len(),
{
    let versions = listed(trace[0]);
    if versions.len() > 0 {
        let count = candidates(versions).len() as int;
        let made = records_exchanges(owner, package, records.take(count));
        let rest = trace.skip(1 + made.len() as int);
        if page < u32::MAX {
            assert(is_pass(
                owner,
                package,
                dry_run,
                (page + 1) as u32,
                rest,
                records.skip(count),
                end,
            ));
            assert(rest.len() > 0);
            assert(rest.last() == trace.last());
            lemma_pass_ends_with_a_list_request(
                owner,
                package,
                dry_run,
                (page + 1) as u32,
                trace.skip(1 + made.len() as int),
                records.skip(count),
                end,
            );
        }
    }
}

/// The pages that the list requests of `trace` ask for, in their order.
pub open spec fn listed_pages(trace: Seq<Exchange>) -> Seq<Option<u32>>
    decreases trace.len(),
{
    if trace.len() == 0 {
        Seq::empty()
    } else {
        match trace.last() {
            Exchange::List { page, .. } => listed_pages(trace.drop_last()).push(page),
            Exchange::Delete { .. } => listed_pages(trace.drop_last()),
        }
    }
}

/// The pages listed by two traces put together.
proof fn lemma_listed_pages_add(front: Seq<Exchange>, back: Seq<Exchange>)
    ensures
        listed_pages(front + back) == listed_pages(front) + listed_pages(back),
    decreases back.len(),
{
    if back.len() == 0 {
        assert(front + back =~= front);
        assert(listed_pages(front) + listed_pages(back) =~= listed_pages(front));
    } else {
        lemma_listed_pages_add(front, back.drop_last());
        assert((front + back).drop_last() =~= front + back.drop_last());
        assert(listed_pages(front + back) =~= listed_pages(front) + listed_pages(back));
    }
}

/// Delete requests list no page.
proof fn lemma_deletes_list_nothing(trace: Seq<Exchange>)
    requires
        forall|i: int| 0 <= i < trace.len() ==> (#[trigger] trace[i]) is Delete,
    ensures
        listed_pages(trace).len() == 0,
    decreases trace.len(),
{
    if trace.len() > 0 {
        lemma_deletes_list_nothing(trace.drop_last());
    }
}

/// A pass lists the pages in turn, without gap or repeat: its list requests
/// ask for `page`, then the page after it, and so on.
pub proof fn lemma_pass_lists_pages_in_turn(
    owner: PackageOwnerView,
    package: Seq<char>,
    dry_run: bool,
    page: u32,
    trace: Seq<Exchange>,
    records: Seq<DeletionRecordView>,
    end: Result<(), CleanupErrorView>,
)
    requires
        is_pass(owner, package, dry_run, page, trace, records, end),
    ensures
        listed_pages(trace).len() >= 1,
        page + listed_pages(trace).len() - 1 <= u32::MAX,
        forall|j: int|
            0 <= j < listed_pages(trace).len() ==> #[trigger] listed_pages(trace)[j] == Some(
                (page + j) as u32,
            ),
    decreases trace.len(),
{
    let head = trace.take(1);
    assert(head.drop_last() =~= Seq::<Exchange>::empty());
    assert(listed_pages(head.drop_last()) =~= Seq::<Option<u32>>::empty());
    assert(listed_pages(head) =~= seq![Some(page)]);
    let versions = listed(trace[0]);
    if versions.len() > 0 {
        let count = candidates(versions).len() as int;
        let made = records_exchanges(owner, package, records.take(count));
        let rest = trace.skip(1 + made.len() as int);
        assert(trace =~= head + made + rest);
        lemma_records_exchanges_are_deletes(owner, package, records.take(count));
        lemma_deletes_list_nothing(made);
        lemma_listed_pages_add(head, made);
        lemma_listed_pages_add(head + made, rest);
        if page < u32::MAX {
            lemma_pass_lists_pages_in_turn(
                owner,
                package,
                dry_run,
                (page + 1) as u32,
                rest,
                records.skip(count),
                end,
            );
            assert(listed_pages(trace) =~= seq![Some(page)] + listed_pages(rest));
        } else {
            assert(rest =~= Seq::<Exchange>::empty());
            assert(listed_pages(trace) =~= seq![Some(page)]);
        }
    } else {
        assert(trace =~= head);
    }
}

/// A dry pass deletes nothing: all its exchanges are list requests.
pub proof fn lemma_dry_pass_deletes_nothing(
    owner: PackageOwnerView,
    package: Seq<char>,
    page: u32,
    trace: Seq<Exchange>,
    records: Seq<DeletionRecordView>,
    end: Result<(), CleanupErrorView>,
)
    requires
        is_pass(owner, package, true, page, trace, records, end),
    ensures
        forall|i: int| 0 <= i < trace.len() ==> (#[trigger] trace[i]) is List,
    decreases trace.len(),
{
    let versions = listed(trace[0]);
    if versions.len() > 0 {
        let count = candidates(versions).len() as int;
        lemma_dry_records_make_no_request(owner, package, records.take(count));
        let rest = trace.skip(1);
        if page < u32::MAX {
            lemma_dry_pass_deletes_nothing(
                owner,
                package,
                (page + 1) as u32,
                rest,
                records.skip(count),
                end,
            );
            assert forall|i: int| 0 <= i < trace.len() implies (#[trigger] trace[i]) is List by {
                if i > 0 {
                    assert(rest[i - 1] == trace[i]);
                }
            }
        }
    }
}

/// Whether every version on every page that `trace` lists has a tag.
pub open spec fn lists_only_tagged(trace: Seq<Exchange>) -> bool {
    forall|i: int, j: int|
        0 <= i < trace.len() && 0 <= j < listed(trace[i]).len() ==> !(#[trigger] listed(
            trace[i],
        )[j]).is_untagged()
}

/// A pass that meets tagged versions only deletes nothing and records
/// nothing, in a dry run or not.
pub proof fn lemma_pass_over_tagged_versions_deletes_nothing(
    owner: PackageOwnerView,
    package: Seq<char>,
    dry_run: bool,
    page: u32,
    trace: Seq<Exchange>,
    records: Seq<DeletionRecordView>,
    end: Result<(), CleanupErrorView>,
)
    requires
        is_pass(owner, package, dry_run, page, trace, records, end),
        lists_only_tagged(trace),
    ensures
        records.len() == 0,
        forall|i: int| 0 <= i < trace.len() ==> (#[trigger] trace[i]) is List,
    decreases trace.len(),
{
    let versions = listed(trace[0]);
    if versions.len() > 0 {
        let count = candidates(versions).len() as int;
        assert forall|j: int| 0 <= j < versions.len() implies !(
        #[trigger] versions[j]).is_untagged() by {
            assert(!listed(trace[0])[j].is_untagged());
        }
        lemma_tagged_versions_are_left_alone(
            owner,
            package,
            versions,
            dry_run,
            records.take(count),
        );
        let rest = trace.skip(1);
        if page < u32::MAX {
            assert forall|i: int, j: int|
                0 <= i < rest.len() && 0 <= j < listed(rest[i]).len() implies !(#[trigger] listed(
                rest[i],
            )[j]).is_untagged() by {
                assert(rest[i] == trace[i + 1]);
                assert(!listed(trace[i + 1])[j].is_untagged());
            }
            assert(records.skip(count) =~= records);
            lemma_pass_over_tagged_versions_deletes_nothing(
                owner,
                package,
                dry_run,
                (page + 1) as u32,
                rest,
                records,
                end,
            );
            assert forall|i: int| 0 <= i < trace.len() implies (#[trigger] trace[i]) is List by {
                if i > 0 {
                    assert(rest[i - 1] == trace[i]);
                }
            }
        }
    }
}

/// The first list request for `package`, whatever its answer.
pub open spec fn is_first_list_of(
    exchange: Exchange,
    owner: PackageOwnerView,
    package: Seq<char>,
) -> bool {
    exchange matches Exchange::List { owner: o, package: p, page: n, .. } && o == owner && p
        == package && n == Some(1u32)
}

/// The failure of one package does not stop the next: in a cleanup of
/// several packages each package is listed from its first page on, whatever
/// the cleanup of the others ended with.
pub proof fn lemma_every_package_is_listed(
    owner: PackageOwnerView,
    packages: Seq<Seq<char>>,
    dry_run: bool,
    trace: Seq<Exchange>,
    reports: Seq<PackageReportView>,
    k: int,
)
    requires
        is_cleanup(owner, packages, dry_run, trace, reports),
        0 <= k < packages.len(),
    ensures
        exists|i: int|
            0 <= i < trace.len() && is_first_list_of(#[trigger] trace[i], owner, packages[k]),
    decreases packages.len(),
{
    let cut = choose|cut: int|
        {
            &&& 0 <= cut <= trace.len()
            &&& is_cleanup(
                owner,
                packages.drop_last(),
                dry_run,
                #[trigger] trace.take(cut),
                reports.drop_last(),
            )
            &&& is_pass(
                owner,
                packages.last(),
                dry_run,
                1,
                trace.skip(cut),
                reports.last().records,
                reports.last().result,
            )
        };
    if k == packages.len() - 1 {
        assert(trace.skip(cut)[0] == trace[cut]);
        assert(is_first_list_of(trace[cut], owner, packages[k]));
    } else {
        let before = trace.take(cut);
        lemma_every_package_is_listed(
            owner,
            packages.drop_last(),
            dry_run,
            before,
            reports.drop_last(),
            k,
        );
        let i = choose|i: int|
            0 <= i < before.len() && is_first_list_of(
                #[trigger] before[i],
                owner,
                packages.drop_last()[k],
            );
        assert(before[i] == trace[i]);
        assert(is_first_list_of(trace[i], owner, packages[k]));
    }
}

} // verus!
