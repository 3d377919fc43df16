//! The values the library hands back: the downloadable items of a Reddit post,
//! and the release download counts of a GitHub repository.
use vstd::prelude::*;

verus! {

/// One asset of a release and how often it was downloaded.
#[derive(Clone, Debug, PartialEq, Eq)]
pub struct ReleaseAsset {
    pub name: String,
    pub download_count: i64,
}

/// A release with its assets and the sum of their download counts.
#[derive(Clone, Debug, PartialEq, Eq)]
pub struct ReleaseInfo {
    pub url: String,
    pub tag: String,
    pub assets: Vec<ReleaseAsset>,
    pub total_downloads: i64,
}

/// All releases of a repository, their overall download count, and the first
/// release with the most downloads.
#[derive(Clone, Debug, PartialEq, Eq)]
pub struct RepoReleasesSummary {
    pub releases: Vec<ReleaseInfo>,
    pub total_downloads: i64,
    pub most_downloaded_release: Option<ReleaseInfo>,
}

/// Whether a post resolved to images or to video renditions.
#[derive(Clone, Copy, Debug, PartialEq, Eq, Structural)]
pub enum DlType {
    Image,
    Video,
}

/// The size of a video rendition, and whether it is the best one offered.
/// Images carry the default: zero sizes, not the best.
#[derive(Clone, Copy, Debug, PartialEq, Eq, Structural)]
pub struct VideoSize {
    pub height: u64,
    pub width: u64,
    pub highest_quality: bool,
}

impl Default for VideoSize {
    fn default() -> (r: VideoSize)
        ensures
            r == (VideoSize { height: 0, width: 0, highest_quality: false }),
    {
        VideoSize { height: 0, width: 0, highest_quality: false }
    }
}

/// File name, extension and rendition size of a downloadable item.
#[derive(Clone, Debug, PartialEq, Eq)]
pub struct DownloadMetadata {
    pub file_name: String,
    pub extension: String,
    pub sizing: VideoSize,
}

/// A downloadable item: its metadata and its bytes.
#[derive(Clone, Debug, PartialEq, Eq)]
pub struct DownloadData {
    pub metadata: DownloadMetadata,
    pub content: Vec<u8>,
}

/// What a post resolved to: a kind and the items, in the order they were found.
#[derive(Clone, Debug, PartialEq, Eq)]
pub struct Downloads {
    pub download_type: DlType,
    pub data: Vec<DownloadData>,
}

/// A downloadable item, as plain values.
pub struct ItemView {
    pub file_name: Seq<char>,
    pub extension: Seq<char>,
    pub sizing: VideoSize,
    pub content: Seq<u8>,
}

impl View for DownloadData {
    type V = ItemView;

    open spec fn view(&self) -> ItemView {
        ItemView {
            file_name: self.metadata.file_name@,
            extension: self.metadata.extension@,
            sizing: self.metadata.sizing,
            content: self.content@,
        }
    }
}

/// A resolved post, as plain values.
pub struct DownloadsView {
    pub download_type: DlType,
    pub items: Seq<ItemView>,
}

impl View for Downloads {
    type V = DownloadsView;

    open spec fn view(&self) -> DownloadsView {
        DownloadsView {
            download_type: self.download_type,
            items: self.data@.map_values(|d: DownloadData| d@),
        }
    }
}

/// A release asset, as plain values.
pub struct AssetView {
    pub name: Seq<char>,
    pub download_count: i64,
}

impl View for ReleaseAsset {
    type V = AssetView;

    open spec fn view(&self) -> AssetView {
        AssetView { name: self.name@, download_count: self.download_count }
    }
}

/// A release, as plain values.
pub struct ReleaseView {
    pub url: Seq<char>,
    pub tag: Seq<char>,
    pub assets: Seq<AssetView>,
    pub total_downloads: i64,
}

impl View for ReleaseInfo {
    type V = ReleaseView;

    open spec fn view(&self) -> ReleaseView {
        ReleaseView {
            url: self.url@,
            tag: self.tag@,
            assets: self.assets@.map_values(|a: ReleaseAsset| a@),
            total_downloads: self.total_downloads,
        }
    }
}

impl ReleaseAsset {
    /// A copy of this asset.
    pub(crate) fn duplicate(&self) -> (r: ReleaseAsset)
        ensures
            r@ == self@,
    {
        ReleaseAsset { name: self.name.clone(), download_count: self.download_count }
    }
}

impl ReleaseInfo {
    /// A copy of this release.
    pub(crate) fn duplicate(&self) -> (r: ReleaseInfo)
        ensures
            r@ == self@,
    {
        let mut assets: Vec<ReleaseAsset> = Vec::new();
        let mut i: usize = 0;
        while i < self.assets.len()
            invariant
                i <= self.assets.len(),
                assets.len() == i,
                forall|k: int| 0 <= k < i ==> #[trigger] assets@[k]@ == self.assets@[k]@,
            decreases self.assets.len() - i,
        {
            assets.push(self.assets[i].duplicate());
            i = i + 1;
        }
        assert(assets@.map_values(|a: ReleaseAsset| a@) =~= self.assets@.map_values(
            |a: ReleaseAsset| a@,
        ));
        ReleaseInfo {
            url: self.url.clone(),
            tag: self.tag.clone(),
            assets,
            total_downloads: self.total_downloads,
        }
    }
}

} // verus!
