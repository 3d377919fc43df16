use rusty_pickle::models::{ReleaseAsset, VideoSize};
use rusty_pickle::releases::{summarize_releases, ReleaseRecord};

fn asset(name: &str, download_count: i64) -> ReleaseAsset {
    ReleaseAsset { name: name.to_string(), download_count }
}

fn record(tag: &str, assets: Vec<ReleaseAsset>) -> ReleaseRecord {
    ReleaseRecord { url: format!("https://github.com/o/r/releases/tag/{tag}"), tag: tag.to_string(), assets }
}

#[test]
fn summary_counts_each_release_and_all() {
    let records = vec![
        record("v1", vec![asset("a.zip", 10), asset("b.zip", 5)]),
        record("v2", vec![asset("c.zip", 40)]),
        record("v3", vec![]),
    ];
    let summary = summarize_releases(&records).unwrap();
    assert_eq!(summary.total_downloads, 55);
    let totals: Vec<i64> = summary.releases.iter().map(|r| r.total_downloads).collect();
    assert_eq!(totals, vec![15, 40, 0]);
    assert_eq!(summary.releases[0].tag, "v1");
    assert_eq!(summary.releases[0].url, "https://github.com/o/r/releases/tag/v1");
    assert_eq!(summary.releases[0].assets, vec![asset("a.zip", 10), asset("b.zip", 5)]);
    let best = summary.most_downloaded_release.unwrap();
    assert_eq!(best.tag, "v2");
    assert_eq!(best.total_downloads, 40);
    assert_eq!(best.assets, vec![asset("c.zip", 40)]);
}

#[test]
fn first_of_equal_releases_is_most_downloaded() {
    let records = vec![
        record("v1", vec![asset("a", 3)]),
        record("v2", vec![asset("b", 7)]),
        record("v3", vec![asset("c", 7)]),
    ];
    let summary = summarize_releases(&records).unwrap();
    assert_eq!(summary.most_downloaded_release.unwrap().tag, "v2");
}

#[test]
fn no_releases_give_empty_summary() {
    let summary = summarize_releases(&Vec::new()).unwrap();
    assert!(summary.releases.is_empty());
    assert_eq!(summary.total_downloads, 0);
    assert!(summary.most_downloaded_release.is_none());
}

#[test]
fn overflowing_counts_give_no_summary() {
    let records = vec![record("v1", vec![asset("a", i64::MAX), asset("b", 1)])];
    assert!(summarize_releases(&records).is_none());
    let records = vec![
        record("v1", vec![asset("a", i64::MAX)]),
        record("v2", vec![asset("b", 1)]),
    ];
    assert!(summarize_releases(&records).is_none());
    let records = vec![record("v1", vec![asset("a", i64::MAX)])];
    assert_eq!(summarize_releases(&records).unwrap().total_downloads, i64::MAX);
}

#[test]
fn image_sizing_default_is_zero() {
    assert_eq!(VideoSize::default(), VideoSize { height: 0, width: 0, highest_quality: false });
}
