//! Reading Reddit and GitHub URLs: the post id of a Reddit link, the owner and
//! repository of a GitHub link, and the kind of media a link attached to a post
//! points at.
use vstd::prelude::*;
use crate::text::{
    chars_of, contains_seq, find_first, find_last_char, find_piece, first_occurrence,
    first_piece_equal, last_index_of, matches_at, range_equals, split_bounds, split_char,
};

verus! {

/// The host prefix of Reddit's video CDN.
pub open spec fn video_host() -> Seq<char> {
    "https://v.redd.it"@
}

/// The file extensions that count as an image, compared as they are written.
pub open spec fn is_image_extension(ext: Seq<char>) -> bool {
    ext == "jpg"@ || ext == "jpeg"@ || ext == "png"@ || ext == "gif"@ || ext == "webp"@
}

/// The last `/`-separated segment of a URL.
pub open spec fn final_segment(url: Seq<char>) -> Seq<char> {
    split_char(url, '/').last()
}

/// The stem and extension of an image link: its final segment, cut at its last
/// dot, with an extension that is an image extension.
pub open spec fn image_parts(url: Seq<char>) -> Option<(Seq<char>, Seq<char>)> {
    let seg = final_segment(url);
    match last_index_of(seg, '.') {
        Some(d) => if is_image_extension(seg.skip(d + 1)) {
            Some((seg.take(d), seg.skip(d + 1)))
        } else {
            None
        },
        None => None,
    }
}

pub open spec fn is_video_url(url: Seq<char>) -> bool {
    video_host().is_prefix_of(url)
}

/// The post id of a Reddit post link: the segment that follows the first
/// `comments` segment, in a URL that names a subreddit.
pub open spec fn reddit_post_id(url: Seq<char>) -> Option<Seq<char>> {
    if !contains_seq(url, "reddit.com/r/"@) {
        None
    } else {
        let parts = split_char(url, '/');
        match first_piece_equal(parts, "comments"@) {
            Some(k) => if k + 1 < parts.len() {
                Some(parts[k + 1])
            } else {
                None
            },
            None => None,
        }
    }
}

/// Owner and repository of a GitHub link: the first two segments after the
/// first `github.com/`, both non-empty.
pub open spec fn github_owner_repo(url: Seq<char>) -> Option<(Seq<char>, Seq<char>)> {
    if !contains_seq(url, "github.com/"@) {
        None
    } else {
        let parts = split_char(
            url.skip(first_occurrence(url, "github.com/"@) + "github.com/"@.len()),
            '/',
        );
        if parts.len() >= 2 && parts[0].len() > 0 && parts[1].len() > 0 {
            Some((parts[0], parts[1]))
        } else {
            None
        }
    }
}

/// What a link attached to a post points at.
pub enum LinkClass {
    Image { stem: Seq<char>, extension: Seq<char> },
    Video,
    SelfReference,
    Gallery,
    Unrecognized,
}

/// The classification of a link, by the first rule that applies: an image
/// file, the video host, a link back to a Reddit post, a gallery.
pub open spec fn link_class(url: Seq<char>) -> LinkClass {
    match image_parts(url) {
        Some((stem, extension)) => LinkClass::Image { stem, extension },
        None => if is_video_url(url) {
            LinkClass::Video
        } else if reddit_post_id(url) is Some {
            LinkClass::SelfReference
        } else if contains_seq(url, "/gallery/"@) {
            LinkClass::Gallery
        } else {
            LinkClass::Unrecognized
        },
    }
}

/// The kind of a link attached to a post.
pub enum LinkKind {
    Image { stem: String, extension: String },
    Video,
    SelfReference,
    Gallery,
    Unrecognized,
}

impl View for LinkKind {
    type V = LinkClass;

    open spec fn view(&self) -> LinkClass {
        match self {
            LinkKind::Image { stem, extension } => LinkClass::Image {
                stem: stem@,
                extension: extension@,
            },
            LinkKind::Video => LinkClass::Video,
            LinkKind::SelfReference => LinkClass::SelfReference,
            LinkKind::Gallery => LinkClass::Gallery,
            LinkKind::Unrecognized => LinkClass::Unrecognized,
        }
    }
}

/// The post id in a Reddit post link, if the link is one.
pub fn extract_reddit_id(url: &str) -> (r: Option<&str>)
    ensures
        match r {
            Some(id) => reddit_post_id(url@) == Some(id@),
            None => reddit_post_id(url@) is None,
        },
{
    let s = chars_of(url);
    let marker = chars_of("reddit.com/r/");
    if find_first(&s, &marker).is_none() {
        return None;
    }
    let b = split_bounds(&s, 0, '/');
    assert(s@.subrange(0, s@.len() as int) =~= s@);
    let comments = chars_of("comments");
    match find_piece(&s, &b, &comments) {
        Some(k) => {
            if k + 1 < b.len() {
                let (x, y) = b[k + 1];
                Some(url.substring_char(x, y))
            } else {
                None
            }
        },
        None => None,
    }
}

/// The owner and repository named in a GitHub link, if the link is one.
pub fn extract_github_info(url: &str) -> (r: Option<(String, String)>)
    ensures
        match r {
            Some((user, repo)) => github_owner_repo(url@) == Some((user@, repo@)),
            None => github_owner_repo(url@) is None,
        },
{
    let s = chars_of(url);
    let prefix = chars_of("github.com/");
    match find_first(&s, &prefix) {
        None => None,
        Some(i) => {
            let n = s.len();
            assert(i + prefix@.len() <= n);
            let start = i + prefix.len();
            let b = split_bounds(&s, start, '/');
            assert(s@.subrange(start as int, s@.len() as int) =~= url@.skip(
                first_occurrence(url@, "github.com/"@) + "github.com/"@.len(),
            ));
            if b.len() < 2 {
                return None;
            }
            let (a0, e0) = b[0];
            let (a1, e1) = b[1];
            if a0 == e0 || a1 == e1 {
                None
            } else {
                let user = url.substring_char(a0, e0).to_owned();
                let repo = url.substring_char(a1, e1).to_owned();
                Some((user, repo))
            }
        },
    }
}

/// Whether a link points at Reddit's video CDN.
pub fn is_video_link(url: &str) -> (r: bool)
    ensures
        r == is_video_url(url@),
{
    let s = chars_of(url);
    let host = chars_of("https://v.redd.it");
    matches_at(&s, &host, 0)
}

/// Whether `s[lo..hi]` is an image extension.
fn is_image_extension_at(s: &Vec<char>, lo: usize, hi: usize) -> (r: bool)
    requires
        lo <= hi <= s.len(),
    ensures
        r == is_image_extension(s@.subrange(lo as int, hi as int)),
{
    range_equals(s, lo, hi, &chars_of("jpg")) || range_equals(s, lo, hi, &chars_of("jpeg"))
        || range_equals(s, lo, hi, &chars_of("png")) || range_equals(s, lo, hi, &chars_of("gif"))
        || range_equals(s, lo, hi, &chars_of("webp"))
}

/// The stem and extension of an image link, if the link is one.
pub fn extract_image_info(url: &str) -> (r: Option<(String, String)>)
    ensures
        match r {
            Some((stem, ext)) => image_parts(url@) == Some((stem@, ext@)),
            None => image_parts(url@) is None,
        },
{
    let s = chars_of(url);
    let b = split_bounds(&s, 0, '/');
    assert(s@.subrange(0, s@.len() as int) =~= s@);
    let (a, e) = b[b.len() - 1];
    let ghost seg = s@.subrange(a as int, e as int);
    assert(final_segment(url@) == seg);
    match find_last_char(&s, a, e, '.') {
        Some(d) => {
            assert(seg.skip(d - a + 1) =~= s@.subrange(d + 1, e as int));
            assert(seg.take(d - a) =~= s@.subrange(a as int, d as int));
            if is_image_extension_at(&s, d + 1, e) {
                let stem = url.substring_char(a, d).to_owned();
                let ext = url.substring_char(d + 1, e).to_owned();
                Some((stem, ext))
            } else {
                None
            }
        },
        None => None,
    }
}

/// Classifies a link attached to a post.
pub fn classify_link(url: &str) -> (r: LinkKind)
    ensures
        r@ == link_class(url@),
{
    match extract_image_info(url) {
        Some((stem, extension)) => LinkKind::Image { stem, extension },
        None => {
            if is_video_link(url) {
                LinkKind::Video
            } else if extract_reddit_id(url).is_some() {
                LinkKind::SelfReference
            } else if find_first(&chars_of(url), &chars_of("/gallery/")).is_some() {
                LinkKind::Gallery
            } else {
                LinkKind::Unrecognized
            }
        },
    }
}

/// A link whose final segment is `name.ext`, with no dot in `ext`, is an image
/// with stem `name` and extension `ext` when `ext` is one of the image
/// extensions as written; for any other extension, an upper-case spelling of an
/// image extension included, it is not an image.
pub proof fn lemma_image_link_classification(url: Seq<char>, name: Seq<char>, ext: Seq<char>)
    requires
        final_segment(url) == name + seq!['.'] + ext,
        !ext.contains('.'),
    ensures
        is_image_extension(ext) ==> link_class(url) == (LinkClass::Image { stem: name, extension: ext }),
        !is_image_extension(ext) ==> !(link_class(url) is Image),
{
    reveal(last_index_of);
    let seg = name + seq!['.'] + ext;
    let n = name.len() as int;
    assert(seg[n] == '.');
    assert forall|j: int| n < j < seg.len() implies seg[j] != '.' by {
        assert(seg[j] == ext[j - n - 1]);
    }
    let d = choose|i: int|
        0 <= i < seg.len() && seg[i] == '.' && forall|j: int| i < j < seg.len() ==> seg[j] != '.';
    if d < n {
        assert(seg[n] != '.');
    }
    if d > n {
        assert(seg[d] == ext[d - n - 1]);
        assert(ext.contains('.'));
    }
    assert(last_index_of(seg, '.') == Some(n));
    assert(seg.take(n) =~= name);
    assert(seg.skip(n + 1) =~= ext);
}

/// Every link on the video host is a video, whatever its path, unless its final
/// segment already names an image file.
pub proof fn lemma_video_host_classification(url: Seq<char>)
    requires
        video_host().is_prefix_of(url),
        image_parts(url) is None,
    ensures
        link_class(url) == LinkClass::Video,
{
}

} // verus!
