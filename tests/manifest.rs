use rusty_pickle::manifest::{
    is_within_parser_limits, manifest_url, select_renditions, video_renditions, AdaptationSet, Manifest, Period,
    Representation,
};
use rusty_pickle::models::VideoSize;
use rusty_pickle::resolve::ResolveError;

fn rep(height: Option<u64>, width: Option<u64>) -> Representation {
    Representation { height, width }
}

fn set(content_type: Option<&str>, representations: Vec<Representation>) -> AdaptationSet {
    AdaptationSet { content_type: content_type.map(|t| t.to_string()), representations }
}

fn size(height: u64, width: u64, highest_quality: bool) -> VideoSize {
    VideoSize { height, width, highest_quality }
}

#[test]
fn selects_top_three_of_four_heights() {
    let manifest = Manifest {
        periods: vec![Period {
            adaptations: vec![
                set(Some("audio"), vec![rep(None, None)]),
                set(
                    Some("video"),
                    vec![
                        rep(Some(480), Some(854)),
                        rep(Some(720), Some(1280)),
                        rep(Some(1080), Some(1920)),
                        rep(Some(2160), Some(3840)),
                    ],
                ),
            ],
        }],
    };
    assert_eq!(
        select_renditions(&manifest),
        vec![size(2160, 3840, true), size(1080, 1920, false), size(720, 1280, false)]
    );
}

#[test]
fn selects_both_of_two_renditions() {
    let manifest = Manifest {
        periods: vec![Period {
            adaptations: vec![set(
                Some("video"),
                vec![rep(Some(360), Some(640)), rep(Some(720), Some(1280))],
            )],
        }],
    };
    assert_eq!(
        select_renditions(&manifest),
        vec![size(720, 1280, true), size(360, 640, false)]
    );
}

#[test]
fn equal_heights_rank_by_width() {
    let manifest = Manifest {
        periods: vec![Period {
            adaptations: vec![set(
                Some("video"),
                vec![rep(Some(720), Some(960)), rep(Some(720), Some(1280)), rep(Some(720), Some(960))],
            )],
        }],
    };
    assert_eq!(
        select_renditions(&manifest),
        vec![size(720, 1280, true), size(720, 960, false), size(720, 960, false)]
    );
}

#[test]
fn only_first_video_set_counts() {
    let manifest = Manifest {
        periods: vec![
            Period { adaptations: vec![set(Some("audio"), vec![rep(Some(1), Some(1))])] },
            Period {
                adaptations: vec![
                    set(Some("video"), vec![rep(Some(240), Some(426)), rep(None, Some(100))]),
                    set(Some("video"), vec![rep(Some(1080), Some(1920))]),
                ],
            },
            Period { adaptations: vec![set(Some("video"), vec![rep(Some(2160), Some(3840))])] },
        ],
    };
    assert_eq!(select_renditions(&manifest), vec![size(240, 426, true)]);
}

#[test]
fn no_video_set_selects_nothing() {
    let manifest = Manifest {
        periods: vec![Period {
            adaptations: vec![
                set(None, vec![rep(Some(720), Some(1280))]),
                set(Some("Video"), vec![rep(Some(720), Some(1280))]),
            ],
        }],
    };
    assert!(select_renditions(&manifest).is_empty());
    assert!(select_renditions(&Manifest { periods: vec![] }).is_empty());
}

#[test]
fn representations_without_both_sizes_are_skipped() {
    let manifest = Manifest {
        periods: vec![Period {
            adaptations: vec![set(
                Some("video"),
                vec![rep(Some(1080), None), rep(None, Some(1920)), rep(Some(480), Some(854))],
            )],
        }],
    };
    assert_eq!(select_renditions(&manifest), vec![size(480, 854, true)]);
}

const MPD: &str = r#"<?xml version="1.0" encoding="UTF-8"?>
<MPD xmlns="urn:mpeg:dash:schema:mpd:2011" type="static" mediaPresentationDuration="PT10S" minBufferTime="PT1.5S" profiles="urn:mpeg:dash:profile:isoff-on-demand:2011">
  <Period duration="PT10S">
    <AdaptationSet contentType="audio" mimeType="audio/mp4">
      <Representation id="audio" bandwidth="128000"><BaseURL>audio.mp4</BaseURL></Representation>
    </AdaptationSet>
    <AdaptationSet contentType="video" mimeType="video/mp4">
      <Representation id="480" bandwidth="1000000" height="480" width="854"><BaseURL>DASH_480.mp4</BaseURL></Representation>
      <Representation id="720" bandwidth="2000000" height="720" width="1280"><BaseURL>DASH_720.mp4</BaseURL></Representation>
      <Representation id="1080" bandwidth="4000000" height="1080" width="1920"><BaseURL>DASH_1080.mp4</BaseURL></Representation>
      <Representation id="2160" bandwidth="8000000" height="2160" width="3840"><BaseURL>DASH_2160.mp4</BaseURL></Representation>
    </AdaptationSet>
  </Period>
</MPD>"#;

#[test]
fn renditions_from_manifest_document() {
    assert_eq!(
        video_renditions(MPD),
        Ok(vec![size(2160, 3840, true), size(1080, 1920, false), size(720, 1280, false)])
    );
}

#[test]
fn malformed_manifest_is_a_parse_failure() {
    assert_eq!(video_renditions("this is not a manifest"), Err(ResolveError::ManifestParseFailed));
}

#[test]
fn manifest_address_of_video_link() {
    assert_eq!(manifest_url("https://v.redd.it/abc"), "https://v.redd.it/abc/DASHPlaylist.mpd");
}

#[test]
fn overlong_duration_is_refused_without_panicking() {
    let xml = MPD.replace("PT10S\" minBufferTime", "PT99999999999999999H\" minBufferTime");
    assert!(xml.contains("PT99999999999999999H"));
    assert_eq!(video_renditions(&xml), Err(ResolveError::ManifestParseFailed));
}

#[test]
fn duration_written_with_character_references_is_refused() {
    let refs = "&#57;".repeat(12);
    let xml = MPD.replace("PT10S\" minBufferTime", &format!("P{refs}Y\" minBufferTime"));
    assert!(xml.contains("P&#57;&#57;"));
    assert_eq!(video_renditions(&xml), Err(ResolveError::ManifestParseFailed));
}

#[test]
fn twelve_digit_number_outside_durations_still_parses() {
    let xml = MPD.replace("bandwidth=\"128000\"", "bandwidth=\"123456789012\"");
    assert_eq!(
        video_renditions(&xml),
        Ok(vec![size(2160, 3840, true), size(1080, 1920, false), size(720, 1280, false)])
    );
}

#[test]
fn parser_limits_on_plain_text() {
    assert!(is_within_parser_limits(""));
    assert!(is_within_parser_limits("PT12345678901S"));
    assert!(!is_within_parser_limits("PT123456789012S"));
    assert!(!is_within_parser_limits("P123456789012Y"));
    assert!(!is_within_parser_limits("PT123456789012.5S"));
    assert!(is_within_parser_limits("id=123456789012345 x"));
    assert!(is_within_parser_limits("a &amp; b &lt; c"));
    assert!(!is_within_parser_limits("a &#38; b"));
    assert!(!is_within_parser_limits("&#x39;"));
    assert!(is_within_parser_limits("ends with &"));
}

#[test]
fn eleven_digit_duration_still_parses() {
    let xml = MPD.replace("PT10S\" minBufferTime", "PT99999999999H\" minBufferTime");
    assert_eq!(
        video_renditions(&xml),
        Ok(vec![size(2160, 3840, true), size(1080, 1920, false), size(720, 1280, false)])
    );
}
