//! DASH manifests of Reddit videos: the part of the period / adaptation set /
//! representation tree that rendition selection reads, and the selection itself.
use vstd::prelude::*;
use vstd::relations::{sorted_by, total_ordering};
use vstd::seq_lib::{lemma_multiset_commutative, lemma_sorted_unique};
use vstd::string::StringSliceAdditionalSpecFns;
use crate::models::VideoSize;
use crate::resolve::ResolveError;
use crate::text::{chars_of, range_equals};

verus! {

broadcast use vstd::seq_lib::group_to_multiset_ensures;

/// A representation: the height and width it declares, if any.
pub struct Representation {
    pub height: Option<u64>,
    pub width: Option<u64>,
}

/// An adaptation set: its declared content type and its representations.
pub struct AdaptationSet {
    pub content_type: Option<String>,
    pub representations: Vec<Representation>,
}

/// A period of a manifest: its adaptation sets in document order.
pub struct Period {
    pub adaptations: Vec<AdaptationSet>,
}

/// A manifest: its periods in document order.
pub struct Manifest {
    pub periods: Vec<Period>,
}

/// An adaptation set, as plain values.
pub struct AdaptationView {
    pub content_type: Option<Seq<char>>,
    pub sizes: Seq<(Option<u64>, Option<u64>)>,
}

impl View for Representation {
    type V = (Option<u64>, Option<u64>);

    open spec fn view(&self) -> (Option<u64>, Option<u64>) {
        (self.height, self.width)
    }
}

impl View for AdaptationSet {
    type V = AdaptationView;

    open spec fn view(&self) -> AdaptationView {
        AdaptationView {
            content_type: match self.content_type {
                Some(t) => Some(t@),
                None => None,
            },
            sizes: self.representations@.map_values(|r: Representation| r@),
        }
    }
}

impl View for Period {
    type V = Seq<AdaptationView>;

    open spec fn view(&self) -> Seq<AdaptationView> {
        self.adaptations@.map_values(|a: AdaptationSet| a@)
    }
}

impl View for Manifest {
    type V = Seq<Seq<AdaptationView>>;

    open spec fn view(&self) -> Seq<Seq<AdaptationView>> {
        self.periods@.map_values(|p: Period| p@)
    }
}

/// The tree that `dash_mpd_core::parse` reads from a manifest document, cut down
/// to the fields of `Manifest`; `None` where the document does not parse.
pub uninterp spec fn parsed_manifest(xml: Seq<char>) -> Option<Seq<Seq<AdaptationView>>>;

pub open spec fn is_digit_byte(b: u8) -> bool {
    0x30 <= b <= 0x39
}

/// A byte that ends a number in an `xs:duration`: the designators `Y`, `M`,
/// `W`, `D`, `H`, `S`, and the decimal marks `.` and `,` that follow seconds.
pub open spec fn is_duration_designator(b: u8) -> bool {
    b == 0x59 || b == 0x4d || b == 0x57 || b == 0x44 || b == 0x48 || b == 0x53 || b == 0x2e
        || b == 0x2c
}

/// Twelve ASCII digits stand at `bytes[i..i + 12]`, and a duration designator
/// right after them.
pub open spec fn long_duration_part_at(bytes: Seq<u8>, i: int) -> bool {
    &&& 0 <= i
    &&& i + 12 < bytes.len()
    &&& forall|k: int| i <= k < i + 12 ==> is_digit_byte(#[trigger] bytes[k])
    &&& is_duration_designator(bytes[i + 12])
}

/// A numeric character reference (`&#`) starts at `bytes[i]`.
pub open spec fn char_ref_at(bytes: Seq<u8>, i: int) -> bool {
    0 <= i && i + 1 < bytes.len() && bytes[i] == 0x26 && bytes[i + 1] == 0x23
}

/// The document's bytes hold no numeric character reference, and no run of
/// twelve or more ASCII digits that ends at a duration designator.
///
/// The manifest parser reads every `xs:duration` from an attribute, after
/// expanding character references and the five predefined entities (none of
/// which expands to a digit or a designator), and adds up its parts in `u64`
/// without checking for overflow. A part is a run of digits ending at its
/// designator; in a document of this shape each such run has at most eleven
/// ASCII digits (a non-ASCII digit makes the part unreadable, not large), so
/// the sum stays below 2^64.
pub open spec fn within_parser_limits(bytes: Seq<u8>) -> bool {
    forall|i: int| #![trigger bytes[i]] !long_duration_part_at(bytes, i) && !char_ref_at(bytes, i)
}

/// Whether `xml` is within the limits that the manifest parser handles.
pub fn is_within_parser_limits(xml: &str) -> (r: bool)
    ensures
        r == within_parser_limits(xml.spec_bytes()),
{
    let b = xml.as_bytes();
    let ghost bytes = xml.spec_bytes();
    // The number of ASCII digits just before position `j`, counted up to twelve.
    let mut run: usize = 0;
    let mut j: usize = 0;
    while j < b.len()
        invariant
            bytes == xml.spec_bytes(),
            b@ == bytes,
            j <= b.len(),
            run <= j,
            run <= 12,
            forall|k: int| j - run <= k < j ==> is_digit_byte(#[trigger] bytes[k]),
            run < 12 && j - run > 0 ==> !is_digit_byte(bytes[j - run - 1]),
            forall|i: int| 0 <= i < j ==> !char_ref_at(bytes, i),
            forall|i: int| 0 <= i && i + 12 < j ==> !long_duration_part_at(bytes, i),
        decreases b.len() - j,
    {
        let c = b[j];
        if 0x30 <= c && c <= 0x39 {
            if run < 12 {
                run = run + 1;
            }
        } else {
            let designator = c == 0x59 || c == 0x4d || c == 0x57 || c == 0x44 || c == 0x48
                || c == 0x53 || c == 0x2e || c == 0x2c;
            if run == 12 && designator {
                assert(long_duration_part_at(bytes, j - 12));
                assert(is_digit_byte(bytes[j - 12]));
                return false;
            }
            if c == 0x26 && j + 1 < b.len() && b[j + 1] == 0x23 {
                assert(char_ref_at(bytes, j as int));
                return false;
            }
            proof {
                if j >= 12 && run < 12 {
                    assert(!is_digit_byte(bytes[j - run - 1]));
                }
            }
            run = 0;
        }
        proof {
            assert(!char_ref_at(bytes, j as int));
            if j >= 12 {
                assert(!long_duration_part_at(bytes, j - 12));
            }
        }
        j = j + 1;
    }
    assert(j == bytes.len());
    true
}

#[verifier::external_type_specification]
#[verifier::external_body]
pub struct ExDashMpdError(dash_mpd_core::DashMpdError);

/// Relies on `dash_mpd_core::parse`, which deserialises an MPD document; the
/// periods, the adaptation sets' `contentType` and the representations'
/// `height` and `width` are carried over unchanged. Its `xs:duration` reader
/// overflows `u64` arithmetic when a part of a duration has too many digits;
/// the `requires` leaves out every document where a part can have twelve or
/// more, written out or through character references.
#[verifier::external_body]
fn parse_mpd(xml: &str) -> (r: Result<Manifest, dash_mpd_core::DashMpdError>)
    requires
        within_parser_limits(xml.spec_bytes()),
    ensures
        match r {
            Ok(m) => parsed_manifest(xml@) == Some(m@),
            Err(_) => parsed_manifest(xml@) is None,
        },
{
    dash_mpd_core::parse(xml).map(|mpd| Manifest {
        periods: mpd.periods.into_iter().map(|p| Period {
            adaptations: p.adaptations.into_iter().map(|a| AdaptationSet {
                content_type: a.contentType,
                representations: a.representations.into_iter().map(|r| Representation {
                    height: r.height,
                    width: r.width,
                }).collect(),
            }).collect(),
        }).collect(),
    })
}

pub open spec fn is_video_set(a: AdaptationView) -> bool {
    a.content_type == Some("video"@)
}

/// The first video adaptation set among `sets`.
pub open spec fn first_video_in(sets: Seq<AdaptationView>) -> Option<AdaptationView>
    decreases sets.len(),
{
    if sets.len() == 0 {
        None
    } else if is_video_set(sets[0]) {
        Some(sets[0])
    } else {
        first_video_in(sets.drop_first())
    }
}

/// The first video adaptation set of a manifest, in document order.
pub open spec fn first_video_set(periods: Seq<Seq<AdaptationView>>) -> Option<AdaptationView>
    decreases periods.len(),
{
    if periods.len() == 0 {
        None
    } else {
        match first_video_in(periods[0]) {
            Some(a) => Some(a),
            None => first_video_set(periods.drop_first()),
        }
    }
}

/// The representations that declare both a height and a width, in order.
pub open spec fn sized(reps: Seq<(Option<u64>, Option<u64>)>) -> Seq<(u64, u64)>
    decreases reps.len(),
{
    if reps.len() == 0 {
        Seq::empty()
    } else {
        let earlier = sized(reps.drop_last());
        match reps.last() {
            (Some(h), Some(w)) => earlier.push((h, w)),
            _ => earlier,
        }
    }
}

/// The sizes offered by the first video adaptation set; none if there is none.
pub open spec fn candidate_sizes(m: Seq<Seq<AdaptationView>>) -> Seq<(u64, u64)> {
    match first_video_set(m) {
        Some(a) => sized(a.sizes),
        None => Seq::empty(),
    }
}

/// `a` ranks at or above `b`: by height, then by width.
pub open spec fn outranks(a: (u64, u64), b: (u64, u64)) -> bool {
    a.0 > b.0 || (a.0 == b.0 && a.1 >= b.1)
}

pub open spec fn rank_order() -> spec_fn((u64, u64), (u64, u64)) -> bool {
    |a: (u64, u64), b: (u64, u64)| outranks(a, b)
}

/// The number of renditions kept out of `n` candidates.
pub open spec fn kept(n: nat) -> nat {
    if n < 3 {
        n
    } else {
        3
    }
}

/// The renditions chosen from a manifest: the candidate sizes sorted from the
/// highest down, the first three of them, the first one marked as the best.
pub open spec fn chosen_renditions(m: Seq<Seq<AdaptationView>>) -> Seq<VideoSize> {
    let ranked = candidate_sizes(m).sort_by(rank_order());
    Seq::new(
        kept(ranked.len()),
        |i: int| VideoSize { height: ranked[i].0, width: ranked[i].1, highest_quality: i == 0 },
    )
}

proof fn lemma_rank_order_total()
    ensures
        total_ordering(rank_order()),
{
    let r = rank_order();
    assert forall|x: (u64, u64), y: (u64, u64)| #[trigger] r(x, y) && #[trigger] r(y, x) implies x
        == y by {
        assert(x.0 == y.0 && x.1 == y.1);
    }
}

proof fn lemma_insert_multiset(s: Seq<(u64, u64)>, p: int, x: (u64, u64))
    requires
        0 <= p <= s.len(),
    ensures
        s.insert(p, x).to_multiset() == s.to_multiset().insert(x),
{
    let a = s.take(p);
    let b = s.skip(p);
    assert(s =~= a + b);
    assert(s.insert(p, x) =~= a.push(x) + b);
    lemma_multiset_commutative(a.push(x), b);
    lemma_multiset_commutative(a, b);
    assert(s.insert(p, x).to_multiset() =~= s.to_multiset().insert(x));
}

/// `a` ranks at or above `b`.
fn ranks_at_least(a: (u64, u64), b: (u64, u64)) -> (r: bool)
    ensures
        r == outranks(a, b),
{
    a.0 > b.0 || (a.0 == b.0 && a.1 >= b.1)
}

/// `sizes` sorted from the highest down.
fn rank_sizes(sizes: &Vec<(u64, u64)>) -> (r: Vec<(u64, u64)>)
    ensures
        r@ == sizes@.sort_by(rank_order()),
{
    let mut sorted: Vec<(u64, u64)> = Vec::new();
    let mut i: usize = 0;
    while i < sizes.len()
        invariant
            i <= sizes.len(),
            sorted_by(sorted@, rank_order()),
            sorted@.to_multiset() == sizes@.take(i as int).to_multiset(),
        decreases sizes.len() - i,
    {
        let x = sizes[i];
        let mut p: usize = 0;
        while p < sorted.len() && ranks_at_least(sorted[p], x)
            invariant
                p <= sorted.len(),
                forall|q: int| 0 <= q < p ==> outranks(#[trigger] sorted@[q], x),
            decreases sorted.len() - p,
        {
            p = p + 1;
        }
        let ghost before = sorted@;
        sorted.insert(p, x);
        proof {
            lemma_rank_order_total();
            lemma_insert_multiset(before, p as int, x);
            assert(sizes@.take(i + 1) =~= sizes@.take(i as int).push(x));
            assert forall|a: int, b: int| 0 <= a < b < sorted@.len() implies #[trigger] rank_order()(
                sorted@[a],
                sorted@[b],
            ) by {
                if p < before.len() {
                    assert(!outranks(before[p as int], x));
                    assert(outranks(x, before[p as int]));
                }
                if a < p && b == p {
                } else if a == p && b > p {
                    assert(sorted@[b] == before[b - 1]);
                    if b - 1 > p {
                        assert(rank_order()(before[p as int], before[b - 1]));
                    }
                } else if a < p && b > p {
                    assert(sorted@[b] == before[b - 1]);
                    assert(rank_order()(before[a], before[b - 1]));
                } else if b < p {
                    assert(rank_order()(before[a], before[b]));
                } else {
                    assert(sorted@[a] == before[a - 1]);
                    assert(sorted@[b] == before[b - 1]);
                    assert(rank_order()(before[a - 1], before[b - 1]));
                }
            }
        }
        i = i + 1;
    }
    proof {
        lemma_rank_order_total();
        assert(sizes@.take(i as int) =~= sizes@);
        sizes@.lemma_sort_by_ensures(rank_order());
        lemma_sorted_unique(sorted@, sizes@.sort_by(rank_order()), rank_order());
    }
    sorted
}

/// Whether an adaptation set declares the content type `video`.
fn is_video_adaptation(a: &AdaptationSet) -> (r: bool)
    ensures
        r == is_video_set(a@),
{
    match &a.content_type {
        Some(t) => {
            let s = chars_of(t.as_str());
            let video = chars_of("video");
            assert(s@.subrange(0, s@.len() as int) =~= s@);
            range_equals(&s, 0, s.len(), &video)
        },
        None => false,
    }
}

/// The first video adaptation set of a manifest, in document order.
pub fn find_video_adaptation(manifest: &Manifest) -> (r: Option<&AdaptationSet>)
    ensures
        match r {
            Some(a) => first_video_set(manifest@) == Some(a@),
            None => first_video_set(manifest@) is None,
        },
{
    let ghost m = manifest@;
    let mut i: usize = 0;
    assert(m.skip(0) =~= m);
    while i < manifest.periods.len()
        invariant
            i <= manifest.periods.len(),
            m == manifest@,
            first_video_set(m) == first_video_set(m.skip(i as int)),
        decreases manifest.periods.len() - i,
    {
        let sets = &manifest.periods[i].adaptations;
        let ghost here = m[i as int];
        assert(here == sets@.map_values(|a: AdaptationSet| a@));
        assert(m.skip(i as int)[0] == here);
        assert(m.skip(i as int).drop_first() =~= m.skip(i + 1));
        let mut j: usize = 0;
        assert(here.skip(0) =~= here);
        while j < sets.len()
            invariant
                j <= sets.len(),
                i < m.len(),
                m == manifest@,
                m.skip(i as int)[0] == here,
                first_video_set(m) == first_video_set(m.skip(i as int)),
                here == sets@.map_values(|a: AdaptationSet| a@),
                first_video_in(here) == first_video_in(here.skip(j as int)),
            decreases sets.len() - j,
        {
            assert(here.skip(j as int)[0] == sets@[j as int]@);
            assert(here.skip(j as int).drop_first() =~= here.skip(j + 1));
            if is_video_adaptation(&sets[j]) {
                assert(first_video_in(here.skip(j as int)) == Some(sets@[j as int]@));
                assert(m.skip(i as int).len() > 0);
                return Some(&sets[j]);
            }
            j = j + 1;
        }
        assert(here.skip(j as int) =~= Seq::<AdaptationView>::empty());
        i = i + 1;
    }
    assert(m.skip(i as int) =~= Seq::<Seq<AdaptationView>>::empty());
    None
}

/// The sizes of the representations of `a` that declare both a height and a width.
fn sized_representations(a: &AdaptationSet) -> (r: Vec<(u64, u64)>)
    ensures
        r@ == sized(a@.sizes),
{
    let reps = &a.representations;
    let ghost all = a@.sizes;
    let mut r: Vec<(u64, u64)> = Vec::new();
    let mut k: usize = 0;
    while k < reps.len()
        invariant
            k <= reps.len(),
            all == reps@.map_values(|x: Representation| x@),
            r@ == sized(all.take(k as int)),
        decreases reps.len() - k,
    {
        assert(all.take(k + 1).drop_last() =~= all.take(k as int));
        assert(all.take(k + 1).last() == reps@[k as int]@);
        match (reps[k].height, reps[k].width) {
            (Some(h), Some(w)) => {
                r.push((h, w));
            },
            _ => {},
        }
        k = k + 1;
    }
    assert(all.take(k as int) =~= all);
    r
}

/// Chooses the renditions to download from a manifest: the representations of
/// the first video adaptation set that declare a height and a width, highest
/// first, at most three, the first one marked as the best.
pub fn select_renditions(manifest: &Manifest) -> (r: Vec<VideoSize>)
    ensures
        r@ == chosen_renditions(manifest@),
{
    let sizes = match find_video_adaptation(manifest) {
        Some(a) => sized_representations(a),
        None => Vec::new(),
    };
    assert(sizes@ == candidate_sizes(manifest@));
    let ranked = rank_sizes(&sizes);
    let n: usize = if ranked.len() < 3 {
        ranked.len()
    } else {
        3
    };
    let mut r: Vec<VideoSize> = Vec::new();
    let mut i: usize = 0;
    while i < n
        invariant
            i <= n,
            n == kept(ranked@.len() as nat),
            ranked@ == candidate_sizes(manifest@).sort_by(rank_order()),
            r@ == chosen_renditions(manifest@).take(i as int),
        decreases n - i,
    {
        let (height, width) = ranked[i];
        r.push(VideoSize { height, width, highest_quality: i == 0 });
        i = i + 1;
        assert(r@ =~= chosen_renditions(manifest@).take(i as int));
    }
    assert(r@ =~= chosen_renditions(manifest@));
    r
}

/// Parses a manifest document and chooses the renditions to download from it.
///
/// A document outside `within_parser_limits` is answered with
/// `ManifestParseFailed` without being parsed: one with a numeric character
/// reference anywhere, or with twelve or more digits before a duration
/// designator anywhere. The parser would overflow on some of them; others, a
/// character reference in a `BaseURL` for one, are well-formed manifests that
/// this function still refuses.
pub fn video_renditions(xml: &str) -> (r: Result<Vec<VideoSize>, ResolveError>)
    ensures
        !within_parser_limits(xml.spec_bytes()) ==> r == Err::<Vec<VideoSize>, ResolveError>(
            ResolveError::ManifestParseFailed,
        ),
        within_parser_limits(xml.spec_bytes()) ==> match parsed_manifest(xml@) {
            Some(m) => r == Ok::<Vec<VideoSize>, ResolveError>(r->Ok_0) && r->Ok_0@
                == chosen_renditions(m),
            None => r == Err::<Vec<VideoSize>, ResolveError>(ResolveError::ManifestParseFailed),
        },
{
    if !is_within_parser_limits(xml) {
        return Err(ResolveError::ManifestParseFailed);
    }
    match parse_mpd(xml) {
        Ok(m) => Ok(select_renditions(&m)),
        Err(_) => Err(ResolveError::ManifestParseFailed),
    }
}

/// The address of the DASH manifest of a video link.
pub fn manifest_url(video_url: &str) -> (r: String)
    ensures
        r@ == video_url@ + "/DASHPlaylist.mpd"@,
{
    let mut r = video_url.to_owned();
    r.append("/DASHPlaylist.mpd");
    r
}

/// The chosen renditions are as many as the candidate sizes, but at most
/// three; they run from the highest down, only the first is marked as the
/// best, and each is a size that the first video adaptation set offers.
pub proof fn lemma_chosen_renditions_shape(m: Seq<Seq<AdaptationView>>)
    ensures
        chosen_renditions(m).len() == kept(candidate_sizes(m).len()),
        forall|i: int, j: int|
            0 <= i < j < chosen_renditions(m).len() ==> outranks(
                (#[trigger] chosen_renditions(m)[i].height, chosen_renditions(m)[i].width),
                (#[trigger] chosen_renditions(m)[j].height, chosen_renditions(m)[j].width),
            ),
        forall|i: int|
            0 <= i < chosen_renditions(m).len() ==> (#[trigger] chosen_renditions(
                m,
            )[i].highest_quality <==> i == 0),
        forall|i: int|
            0 <= i < chosen_renditions(m).len() ==> candidate_sizes(m).contains(
                (#[trigger] chosen_renditions(m)[i].height, chosen_renditions(m)[i].width),
            ),
{
    let c = candidate_sizes(m);
    let ranked = c.sort_by(rank_order());
    lemma_rank_order_total();
    c.lemma_sort_by_ensures(rank_order());
    assert(ranked.len() == c.len()) by {
        assert(ranked.to_multiset().len() == c.to_multiset().len());
    }
    let chosen = chosen_renditions(m);
    assert forall|i: int| 0 <= i < chosen.len() implies (#[trigger] chosen[i].height, chosen[i].width)
        == ranked[i] by {}
    assert forall|i: int, j: int| 0 <= i < j < chosen.len() implies outranks(
        (#[trigger] chosen[i].height, chosen[i].width),
        (#[trigger] chosen[j].height, chosen[j].width),
    ) by {
        assert(rank_order()(ranked[i], ranked[j]));
    }
    assert forall|i: int| 0 <= i < chosen.len() implies c.contains(
        (#[trigger] chosen[i].height, chosen[i].width),
    ) by {
        assert(ranked.contains(ranked[i]));
    }
}

} // verus!
