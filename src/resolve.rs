//! Turning the links attached to a post into downloadable items.
//!
//! Resolution runs in two halves around the downloads. `plan_resolution` reads
//! the links in order and says what to fetch, and whether a gallery stops the
//! resolution once those fetches are done. `Resolution` then collects the
//! fetched bytes into items, and `finish` decides the outcome.
//!
//! A post that mixes images and videos keeps all their items, and its kind is
//! the kind of the last image or video link: that is the policy this library
//! follows for mixed posts.
use vstd::prelude::*;
use crate::links::{classify_link, link_class, LinkClass, LinkKind};
use crate::models::{DlType, DownloadData, DownloadMetadata, Downloads, DownloadsView, ItemView, VideoSize};

verus! {

/// Why a post could not be resolved.
#[derive(Clone, Copy, Debug, PartialEq, Eq, Structural)]
pub enum ResolveError {
    AuthenticationFailed,
    PostFetchFailed,
    NoDownloadableFound,
    GalleryUnsupported,
    ImageDownloadFailed,
    ManifestFetchFailed,
    ManifestParseFailed,
    RenditionDownloadFailed,
}

/// The links of a post, as plain values.
pub open spec fn links_view(urls: Seq<String>) -> Seq<Seq<char>> {
    urls.map_values(|u: String| u@)
}

/// The links that a post carries: every present one, in order.
pub open spec fn present_links(found: Seq<Option<String>>) -> Seq<Seq<char>>
    decreases found.len(),
{
    if found.len() == 0 {
        Seq::empty()
    } else {
        let earlier = present_links(found.drop_last());
        match found.last() {
            Some(u) => earlier.push(u@),
            None => earlier,
        }
    }
}

/// Keeps the links that are present, in order.
pub fn collect_links(found: &Vec<Option<String>>) -> (r: Vec<String>)
    ensures
        links_view(r@) == present_links(found@),
{
    let mut r: Vec<String> = Vec::new();
    let mut k: usize = 0;
    while k < found.len()
        invariant
            k <= found.len(),
            links_view(r@) == present_links(found@.take(k as int)),
        decreases found.len() - k,
    {
        assert(found@.take(k + 1).drop_last() =~= found@.take(k as int));
        match &found[k] {
            Some(u) => {
                r.push(u.clone());
            },
            None => {},
        }
        k = k + 1;
        assert(links_view(r@) =~= present_links(found@.take(k as int)));
    }
    assert(found@.take(k as int) =~= found@);
    r
}

/// A fetch that resolving a post asks for.
pub enum StepView {
    Image { url: Seq<char>, stem: Seq<char>, extension: Seq<char> },
    Video { url: Seq<char> },
}

/// A fetch that resolving a post asks for: the bytes of an image, or the
/// renditions of a video.
pub enum FetchStep {
    Image { url: String, stem: String, extension: String },
    Video { url: String },
}

impl View for FetchStep {
    type V = StepView;

    open spec fn view(&self) -> StepView {
        match self {
            FetchStep::Image { url, stem, extension } => StepView::Image {
                url: url@,
                stem: stem@,
                extension: extension@,
            },
            FetchStep::Video { url } => StepView::Video { url: url@ },
        }
    }
}

/// The fetches that the image and video links among `urls` ask for, in order.
pub open spec fn steps_of(urls: Seq<Seq<char>>) -> Seq<StepView>
    decreases urls.len(),
{
    if urls.len() == 0 {
        Seq::empty()
    } else {
        let earlier = steps_of(urls.drop_last());
        let u = urls.last();
        match link_class(u) {
            LinkClass::Image { stem, extension } => earlier.push(
                StepView::Image { url: u, stem, extension },
            ),
            LinkClass::Video => earlier.push(StepView::Video { url: u }),
            _ => earlier,
        }
    }
}

/// The position of the first gallery link among `urls`, if any.
pub open spec fn first_gallery(urls: Seq<Seq<char>>) -> Option<int>
    decreases urls.len(),
{
    if urls.len() == 0 {
        None
    } else {
        match first_gallery(urls.drop_last()) {
            Some(g) => Some(g),
            None => if link_class(urls.last()) is Gallery {
                Some(urls.len() - 1)
            } else {
                None
            },
        }
    }
}

/// The fetches made before resolution stops: those of the links ahead of the
/// first gallery link, or of all links when there is none.
pub open spec fn planned_steps(urls: Seq<Seq<char>>) -> Seq<StepView> {
    match first_gallery(urls) {
        Some(g) => steps_of(urls.take(g)),
        None => steps_of(urls),
    }
}

/// What to fetch for a post, and the error that ends the resolution once
/// those fetches succeeded, if one does.
pub struct ResolutionPlan {
    pub steps: Vec<FetchStep>,
    pub halt: Option<ResolveError>,
}

proof fn lemma_first_gallery_extends(urls: Seq<Seq<char>>, n: int)
    requires
        0 <= n <= urls.len(),
        first_gallery(urls.take(n)) is Some,
    ensures
        first_gallery(urls) == first_gallery(urls.take(n)),
    decreases urls.len() - n,
{
    if n == urls.len() {
        assert(urls.take(n) =~= urls);
    } else {
        assert(urls.take(n + 1).drop_last() =~= urls.take(n));
        lemma_first_gallery_extends(urls, n + 1);
    }
}

/// Reads the links of a post in order and plans the fetches: one for each
/// image link and each video link, up to the first gallery link, which stops
/// the resolution with `GalleryUnsupported`. Links back to a post and links of
/// no known kind ask for nothing. A post without links has nothing to download.
pub fn plan_resolution(urls: &Vec<String>) -> (r: Result<ResolutionPlan, ResolveError>)
    ensures
        urls.len() == 0 ==> r == Err::<ResolutionPlan, ResolveError>(
            ResolveError::NoDownloadableFound,
        ),
        urls.len() > 0 ==> r is Ok,
        r matches Ok(plan) ==> plan.steps@.map_values(|s: FetchStep| s@) == planned_steps(
            links_view(urls@),
        ),
        r matches Ok(plan) ==> plan.halt == if first_gallery(links_view(urls@)) is Some {
            Some(ResolveError::GalleryUnsupported)
        } else {
            None
        },
{
    if urls.len() == 0 {
        return Err(ResolveError::NoDownloadableFound);
    }
    let ghost all = links_view(urls@);
    let mut steps: Vec<FetchStep> = Vec::new();
    let mut i: usize = 0;
    while i < urls.len()
        invariant
            i <= urls.len(),
            all == links_view(urls@),
            steps@.map_values(|s: FetchStep| s@) == steps_of(all.take(i as int)),
            first_gallery(all.take(i as int)) is None,
        decreases urls.len() - i,
    {
        let ghost prefix = all.take(i + 1);
        assert(prefix.drop_last() =~= all.take(i as int));
        assert(prefix.last() == urls@[i as int]@);
        let url = &urls[i];
        match classify_link(url.as_str()) {
            LinkKind::Image { stem, extension } => {
                steps.push(FetchStep::Image { url: url.clone(), stem, extension });
            },
            LinkKind::Video => {
                steps.push(FetchStep::Video { url: url.clone() });
            },
            LinkKind::Gallery => {
                proof {
                    lemma_first_gallery_extends(all, i + 1);
                }
                return Ok(ResolutionPlan { steps, halt: Some(ResolveError::GalleryUnsupported) });
            },
            _ => {},
        }
        i = i + 1;
        assert(steps@.map_values(|s: FetchStep| s@) =~= steps_of(all.take(i as int)));
    }
    assert(all.take(i as int) =~= all);
    Ok(ResolutionPlan { steps, halt: None })
}

/// The state of a resolution, as plain values.
pub struct ResolutionView {
    pub post_id: Seq<char>,
    pub items: Seq<ItemView>,
    pub kind: DlType,
}

/// The items collected so far for a post, and the kind of the last image or
/// video link whose fetch was added.
pub struct Resolution {
    post_id: String,
    items: Vec<DownloadData>,
    kind: DlType,
}

impl View for Resolution {
    type V = ResolutionView;

    closed spec fn view(&self) -> ResolutionView {
        ResolutionView {
            post_id: self.post_id@,
            items: self.items@.map_values(|d: DownloadData| d@),
            kind: self.kind,
        }
    }
}

/// The item that a video rendition of post `post_id` becomes.
pub open spec fn video_item(post_id: Seq<char>, sizing: VideoSize, content: Seq<u8>) -> ItemView {
    ItemView { file_name: post_id, extension: "mp4"@, sizing, content }
}

impl Resolution {
    /// A resolution of post `post_id` that has collected nothing.
    pub fn new(post_id: &str) -> (r: Resolution)
        ensures
            r@ == (ResolutionView { post_id: post_id@, items: Seq::empty(), kind: DlType::Image }),
    {
        let r = Resolution { post_id: post_id.to_owned(), items: Vec::new(), kind: DlType::Image };
        assert(r@.items =~= Seq::<ItemView>::empty());
        r
    }

    /// Adds the bytes of an image link: one item named by the image's stem,
    /// with its extension and no rendition size. The post is now of images.
    pub fn add_image(&mut self, stem: String, extension: String, content: Vec<u8>)
        ensures
            final(self)@ == (ResolutionView {
                post_id: old(self)@.post_id,
                items: old(self)@.items.push(
                    ItemView {
                        file_name: stem@,
                        extension: extension@,
                        sizing: VideoSize { height: 0, width: 0, highest_quality: false },
                        content: content@,
                    },
                ),
                kind: DlType::Image,
            }),
    {
        let metadata = DownloadMetadata { file_name: stem, extension, sizing: VideoSize::default() };
        self.items.push(DownloadData { metadata, content });
        self.kind = DlType::Image;
        assert(self@.items =~= old(self)@.items.push(
            ItemView {
                file_name: stem@,
                extension: extension@,
                sizing: VideoSize { height: 0, width: 0, highest_quality: false },
                content: content@,
            },
        ));
    }

    /// Adds the renditions fetched for a video link, in order: one `mp4` item
    /// each, named by the post id. The post is now of videos, also when no
    /// rendition was offered.
    pub fn add_video(&mut self, renditions: Vec<(VideoSize, Vec<u8>)>)
        ensures
            final(self)@.post_id == old(self)@.post_id,
            final(self)@.kind == DlType::Video,
            final(self)@.items == old(self)@.items + renditions@.map_values(
                |r: (VideoSize, Vec<u8>)| video_item(old(self)@.post_id, r.0, r.1@),
            ),
    {
        let ghost start = self@;
        let ghost all = renditions@;
        let mut renditions = renditions;
        let total = renditions.len();
        let mut k: usize = 0;
        while renditions.len() > 0
            invariant
                total == all.len(),
                k <= all.len(),
                renditions@ == all.skip(k as int),
                self@.post_id == start.post_id,
                self@.items == start.items + all.take(k as int).map_values(
                    |r: (VideoSize, Vec<u8>)| video_item(start.post_id, r.0, r.1@),
                ),
            decreases renditions.len(),
        {
            let ghost items_before = self@.items;
            let (sizing, content) = renditions.remove(0);
            assert(all[k as int] == (sizing, content));
            let ghost added = video_item(start.post_id, sizing, content@);
            let metadata = DownloadMetadata {
                file_name: self.post_id.clone(),
                extension: "mp4".to_owned(),
                sizing,
            };
            self.items.push(DownloadData { metadata, content });
            assert(self@.items =~= items_before.push(added));
            assert(all.take(k + 1).map_values(
                |r: (VideoSize, Vec<u8>)| video_item(start.post_id, r.0, r.1@),
            ) =~= all.take(k as int).map_values(
                |r: (VideoSize, Vec<u8>)| video_item(start.post_id, r.0, r.1@),
            ).push(added));
            k = k + 1;
            assert(renditions@ =~= all.skip(k as int));
            assert(self@.items =~= start.items + all.take(k as int).map_values(
                |r: (VideoSize, Vec<u8>)| video_item(start.post_id, r.0, r.1@),
            ));
        }
        assert(all.take(k as int) =~= all);
        self.kind = DlType::Video;
    }

    /// The resolved post, once every planned fetch succeeded: the plan's
    /// `halt` error if it has one; else its kind and its items, or
    /// `NoDownloadableFound` when nothing was collected.
    pub fn finish(self, halt: Option<ResolveError>) -> (r: Result<Downloads, ResolveError>)
        ensures
            halt matches Some(e) ==> r == Err::<Downloads, ResolveError>(e),
            halt is None && self@.items.len() == 0 ==> r == Err::<Downloads, ResolveError>(
                ResolveError::NoDownloadableFound,
            ),
            halt is None && self@.items.len() > 0 ==> r is Ok,
            r matches Ok(d) ==> d@ == (DownloadsView { download_type: self@.kind, items: self@.items }),
    {
        if let Some(e) = halt {
            return Err(e);
        }
        if self.items.len() == 0 {
            Err(ResolveError::NoDownloadableFound)
        } else {
            Ok(Downloads { download_type: self.kind, data: self.items })
        }
    }
}

} // verus!
