use rusty_pickle::models::{DlType, VideoSize};
use rusty_pickle::resolve::{collect_links, plan_resolution, FetchStep, Resolution, ResolveError};

fn links(urls: &[&str]) -> Vec<String> {
    urls.iter().map(|u| u.to_string()).collect()
}

#[test]
fn post_without_links_has_nothing_to_download() {
    assert!(matches!(plan_resolution(&Vec::new()), Err(ResolveError::NoDownloadableFound)));
}

#[test]
fn gallery_only_post_is_unsupported() {
    let plan = plan_resolution(&links(&["https://www.reddit.com/gallery/1abcde"])).unwrap();
    assert!(plan.steps.is_empty());
    assert_eq!(plan.halt, Some(ResolveError::GalleryUnsupported));
    let resolution = Resolution::new("1abcde");
    assert_eq!(resolution.finish(plan.halt), Err(ResolveError::GalleryUnsupported));
}

#[test]
fn gallery_stops_after_earlier_fetches() {
    let plan = plan_resolution(&links(&[
        "https://i.redd.it/first.png",
        "https://www.reddit.com/gallery/1abcde",
        "https://v.redd.it/later",
    ]))
    .unwrap();
    assert_eq!(plan.steps.len(), 1);
    assert!(matches!(&plan.steps[0], FetchStep::Image { stem, .. } if stem == "first"));
    assert_eq!(plan.halt, Some(ResolveError::GalleryUnsupported));
    let mut resolution = Resolution::new("p");
    resolution.add_image("first".to_string(), "png".to_string(), vec![1]);
    assert_eq!(resolution.finish(plan.halt), Err(ResolveError::GalleryUnsupported));
}

#[test]
fn self_reference_only_post_has_nothing_to_download() {
    let plan = plan_resolution(&links(&[
        "https://www.reddit.com/r/pics/comments/1abcde/a_title/",
    ]))
    .unwrap();
    assert!(plan.steps.is_empty());
    assert_eq!(plan.halt, None);
    let resolution = Resolution::new("1abcde");
    assert_eq!(resolution.finish(plan.halt), Err(ResolveError::NoDownloadableFound));
}

#[test]
fn image_and_unrecognized_link_give_one_image() {
    let plan = plan_resolution(&links(&[
        "https://i.redd.it/cat.jpeg",
        "https://example.com/article",
    ]))
    .unwrap();
    assert_eq!(plan.halt, None);
    assert_eq!(plan.steps.len(), 1);
    let mut resolution = Resolution::new("1abcde");
    for step in plan.steps {
        match step {
            FetchStep::Image { url, stem, extension } => {
                assert_eq!(url, "https://i.redd.it/cat.jpeg");
                resolution.add_image(stem, extension, vec![1, 2, 3]);
            }
            FetchStep::Video { .. } => panic!("no video link in this post"),
        }
    }
    let downloads = resolution.finish(None).unwrap();
    assert_eq!(downloads.download_type, DlType::Image);
    assert_eq!(downloads.data.len(), 1);
    assert_eq!(downloads.data[0].metadata.file_name, "cat");
    assert_eq!(downloads.data[0].metadata.extension, "jpeg");
    assert_eq!(downloads.data[0].metadata.sizing, VideoSize::default());
    assert_eq!(downloads.data[0].content, vec![1, 2, 3]);
}

#[test]
fn video_link_gives_mp4_items_named_by_post() {
    let plan = plan_resolution(&links(&["https://v.redd.it/clip"])).unwrap();
    assert!(matches!(&plan.steps[..], [FetchStep::Video { url }] if url == "https://v.redd.it/clip"));
    let mut resolution = Resolution::new("1abcde");
    resolution.add_video(vec![
        (VideoSize { height: 1080, width: 1920, highest_quality: true }, vec![9]),
        (VideoSize { height: 720, width: 1280, highest_quality: false }, vec![8, 7]),
    ]);
    let downloads = resolution.finish(None).unwrap();
    assert_eq!(downloads.download_type, DlType::Video);
    assert_eq!(downloads.data.len(), 2);
    for item in &downloads.data {
        assert_eq!(item.metadata.file_name, "1abcde");
        assert_eq!(item.metadata.extension, "mp4");
    }
    assert_eq!(downloads.data[0].metadata.sizing.height, 1080);
    assert!(downloads.data[0].metadata.sizing.highest_quality);
    assert_eq!(downloads.data[1].content, vec![8, 7]);
}

#[test]
fn video_without_renditions_leaves_nothing() {
    let mut resolution = Resolution::new("1abcde");
    resolution.add_video(Vec::new());
    assert_eq!(resolution.finish(None), Err(ResolveError::NoDownloadableFound));
}

#[test]
fn mixed_post_takes_kind_of_last_link() {
    let mut resolution = Resolution::new("p");
    resolution.add_image("a".to_string(), "png".to_string(), vec![1]);
    resolution.add_video(vec![(VideoSize { height: 480, width: 854, highest_quality: true }, vec![2])]);
    let downloads = resolution.finish(None).unwrap();
    assert_eq!(downloads.download_type, DlType::Video);
    assert_eq!(downloads.data.len(), 2);
    assert_eq!(downloads.data[0].metadata.extension, "png");

    let mut resolution = Resolution::new("p");
    resolution.add_video(vec![(VideoSize { height: 480, width: 854, highest_quality: true }, vec![2])]);
    resolution.add_image("a".to_string(), "png".to_string(), vec![1]);
    assert_eq!(resolution.finish(None).unwrap().download_type, DlType::Image);
}

#[test]
fn links_keep_order_and_drop_missing() {
    let found = vec![Some("a".to_string()), None, Some("b".to_string()), None];
    assert_eq!(collect_links(&found), vec!["a".to_string(), "b".to_string()]);
    assert!(collect_links(&Vec::new()).is_empty());
}
