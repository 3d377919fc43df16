//! Download counts of a repository's releases: per release, overall, and the
//! release downloaded most.
use vstd::prelude::*;
use crate::models::{AssetView, ReleaseAsset, ReleaseInfo, ReleaseView, RepoReleasesSummary};

verus! {

/// A release as the repository lists it, before its downloads are counted.
pub struct ReleaseRecord {
    pub url: String,
    pub tag: String,
    pub assets: Vec<ReleaseAsset>,
}

/// A listed release, as plain values.
pub struct RecordView {
    pub url: Seq<char>,
    pub tag: Seq<char>,
    pub assets: Seq<AssetView>,
}

impl View for ReleaseRecord {
    type V = RecordView;

    open spec fn view(&self) -> RecordView {
        RecordView {
            url: self.url@,
            tag: self.tag@,
            assets: self.assets@.map_values(|a: ReleaseAsset| a@),
        }
    }
}

pub open spec fn assets_view(assets: Seq<ReleaseAsset>) -> Seq<AssetView> {
    assets.map_values(|a: ReleaseAsset| a@)
}

pub open spec fn records_view(records: Seq<ReleaseRecord>) -> Seq<RecordView> {
    records.map_values(|r: ReleaseRecord| r@)
}

pub open spec fn fits_i64(x: int) -> bool {
    i64::MIN <= x <= i64::MAX
}

/// The sum of the download counts of `assets`.
pub open spec fn count_sum(assets: Seq<AssetView>) -> int
    decreases assets.len(),
{
    if assets.len() == 0 {
        0
    } else {
        count_sum(assets.drop_last()) + assets.last().download_count
    }
}

/// The sum of the download counts of all assets of all `records`.
pub open spec fn download_sum(records: Seq<RecordView>) -> int
    decreases records.len(),
{
    if records.len() == 0 {
        0
    } else {
        download_sum(records.drop_last()) + count_sum(records.last().assets)
    }
}

/// Every running sum, over the assets of each release and over the releases
/// in order, stays within `i64`.
pub open spec fn sums_fit(records: Seq<RecordView>) -> bool {
    &&& forall|i: int, k: int|
        0 <= i < records.len() && 0 <= k <= records[i].assets.len() ==> fits_i64(
            #[trigger] count_sum(records[i].assets.take(k)),
        )
    &&& forall|j: int| 0 <= j <= records.len() ==> fits_i64(#[trigger] download_sum(records.take(j)))
}

/// A listed release with its downloads counted.
pub open spec fn release_of(rec: RecordView) -> ReleaseView {
    ReleaseView {
        url: rec.url,
        tag: rec.tag,
        assets: rec.assets,
        total_downloads: count_sum(rec.assets) as i64,
    }
}

/// The position of the first release with the most downloads.
pub open spec fn most_downloaded_index(records: Seq<RecordView>) -> int
    decreases records.len(),
{
    if records.len() <= 1 {
        0
    } else {
        let best = most_downloaded_index(records.drop_last());
        if count_sum(records[best].assets) < count_sum(records.last().assets) {
            records.len() - 1
        } else {
            best
        }
    }
}

/// The download count of a release's assets, or `None` when a running sum
/// leaves `i64`.
fn checked_count_sum(assets: &Vec<ReleaseAsset>) -> (r: Option<i64>)
    ensures
        r is Some <==> forall|k: int| 0 <= k <= assets@.len() ==> fits_i64(
            #[trigger] count_sum(assets_view(assets@).take(k)),
        ),
        r matches Some(v) ==> v == count_sum(assets_view(assets@)),
{
    let ghost all = assets_view(assets@);
    let mut sum: i64 = 0;
    let mut k: usize = 0;
    assert(all.take(0) =~= Seq::<AssetView>::empty());
    while k < assets.len()
        invariant
            k <= assets.len(),
            all == assets_view(assets@),
            sum == count_sum(all.take(k as int)),
            forall|m: int| 0 <= m <= k ==> fits_i64(#[trigger] count_sum(all.take(m))),
        decreases assets.len() - k,
    {
        assert(all.take(k + 1).drop_last() =~= all.take(k as int));
        match sum.checked_add(assets[k].download_count) {
            Some(v) => {
                sum = v;
            },
            None => {
                assert(!fits_i64(count_sum(all.take(k + 1))));
                return None;
            },
        }
        k = k + 1;
    }
    assert(all.take(k as int) =~= all);
    Some(sum)
}

/// A copy of a list of assets.
fn copy_assets(assets: &Vec<ReleaseAsset>) -> (r: Vec<ReleaseAsset>)
    ensures
        r@.map_values(|a: ReleaseAsset| a@) == assets@.map_values(|a: ReleaseAsset| a@),
{
    let mut r: Vec<ReleaseAsset> = Vec::new();
    let mut k: usize = 0;
    while k < assets.len()
        invariant
            k <= assets.len(),
            r.len() == k,
            forall|m: int| 0 <= m < k ==> #[trigger] r@[m]@ == assets@[m]@,
        decreases assets.len() - k,
    {
        r.push(assets[k].duplicate());
        k = k + 1;
    }
    assert(r@.map_values(|a: ReleaseAsset| a@) =~= assets@.map_values(|a: ReleaseAsset| a@));
    r
}

/// Counts the downloads of a repository's releases: each release's total is
/// the sum of its assets' counts, the overall total the sum of those, and the
/// most downloaded release the first one whose total no later release beats.
/// `None` when a running sum does not fit in `i64`.
pub fn summarize_releases(records: &Vec<ReleaseRecord>) -> (r: Option<RepoReleasesSummary>)
    ensures
        r is Some <==> sums_fit(records_view(records@)),
        r matches Some(s) ==> s.releases@.map_values(|x: ReleaseInfo| x@) == records_view(
            records@,
        ).map_values(|x: RecordView| release_of(x)),
        r matches Some(s) ==> s.total_downloads == download_sum(records_view(records@)),
        r matches Some(s) ==> (records@.len() == 0 <==> s.most_downloaded_release is None),
        r matches Some(s) ==> (s.most_downloaded_release matches Some(m) ==> m@ == release_of(
            records_view(records@)[most_downloaded_index(records_view(records@))],
        )),
{
    let ghost all = records_view(records@);
    let mut releases: Vec<ReleaseInfo> = Vec::new();
    let mut total: i64 = 0;
    let mut best: usize = 0;
    let mut i: usize = 0;
    assert(all.take(0) =~= Seq::<RecordView>::empty());
    while i < records.len()
        invariant
            i <= records.len(),
            all == records_view(records@),
            releases.len() == i,
            forall|m: int| 0 <= m < i ==> #[trigger] releases@[m]@ == release_of(all[m]),
            total == download_sum(all.take(i as int)),
            i > 0 ==> best < i && best == most_downloaded_index(all.take(i as int)),
            forall|m: int, k: int|
                0 <= m < i && 0 <= k <= all[m].assets.len() ==> fits_i64(
                    #[trigger] count_sum(all[m].assets.take(k)),
                ),
            forall|j: int| 0 <= j <= i ==> fits_i64(#[trigger] download_sum(all.take(j))),
        decreases records.len() - i,
    {
        let rec = &records[i];
        assert(all[i as int] == rec@);
        let ghost prefix = all.take(i + 1);
        assert(prefix.drop_last() =~= all.take(i as int));
        assert(prefix.last() == rec@);
        let sum = match checked_count_sum(&rec.assets) {
            Some(v) => v,
            None => {
                proof {
                    let k = choose|k: int|
                        0 <= k <= rec.assets@.len() && !fits_i64(
                            #[trigger] count_sum(assets_view(rec.assets@).take(k)),
                        );
                    assert(!fits_i64(count_sum(all[i as int].assets.take(k))));
                }
                return None;
            },
        };
        match total.checked_add(sum) {
            Some(v) => {
                total = v;
            },
            None => {
                assert(!fits_i64(download_sum(all.take(i + 1))));
                return None;
            },
        }
        proof {
            assert(rec@.assets == assets_view(rec.assets@));
            if i > 0 {
                let b = best as int;
                assert(all[b].assets.take(all[b].assets.len() as int) =~= all[b].assets);
                assert(fits_i64(count_sum(all[b].assets)));
                assert(releases@[b]@ == release_of(all[b]));
                assert(prefix[b] == all[b]);
            }
        }
        let info = ReleaseInfo {
            url: rec.url.clone(),
            tag: rec.tag.clone(),
            assets: copy_assets(&rec.assets),
            total_downloads: sum,
        };
        assert(info@ == release_of(all[i as int]));
        if i == 0 {
            best = 0;
        } else if releases[best].total_downloads < sum {
            best = i;
        }
        releases.push(info);
        i = i + 1;
        assert(forall|m: int, k: int|
            0 <= m < i && 0 <= k <= all[m].assets.len() ==> fits_i64(
                #[trigger] count_sum(all[m].assets.take(k)),
            ));
    }
    assert(all.take(i as int) =~= all);
    assert(releases@.map_values(|x: ReleaseInfo| x@) =~= all.map_values(
        |x: RecordView| release_of(x),
    ));
    let most_downloaded_release = if i == 0 {
        None
    } else {
        Some(releases[best].duplicate())
    };
    Some(RepoReleasesSummary { releases, total_downloads: total, most_downloaded_release })
}

} // verus!
