//! Tests of the read-fallback and write-fanout policy.

use imgmeta::metadata::read_image_metadata;
use imgmeta::metadata::write_image_metadata;
use imgmeta::metadata::ImageMetadata;
use imgmeta::store::TagStore;
use imgmeta::tags::TagKey;

fn meta(
    title: &str,
    description: &str,
    keywords: &[&str],
    date_taken: Option<&str>,
    author: &str,
    copyright: &str,
) -> ImageMetadata {
    ImageMetadata {
        title: title.to_string(),
        description: description.to_string(),
        keywords: keywords.iter().map(|k| k.to_string()).collect(),
        date_taken: date_taken.map(|d| d.to_string()),
        author: author.to_string(),
        copyright: copyright.to_string(),
    }
}

#[test]
fn read_empty_store_yields_all_absent() {
    let store = TagStore::new();
    let m = read_image_metadata(&store);
    assert_eq!(m.title, "");
    assert_eq!(m.description, "");
    assert!(m.keywords.is_empty());
    assert_eq!(m.date_taken, None);
    assert_eq!(m.author, "");
    assert_eq!(m.copyright, "");
}

#[test]
fn missing_date_taken_is_absent_not_an_error() {
    let mut store = TagStore::new();
    store.set_tag_string(TagKey::XmpTitle, &"Sunset".to_string());
    let m = read_image_metadata(&store);
    assert_eq!(m.date_taken, None);
}

#[test]
fn xmp_title_wins_over_iptc_headline() {
    let mut store = TagStore::new();
    store.set_tag_string(TagKey::XmpTitle, &"Sunset".to_string());
    store.set_tag_string(TagKey::IptcHeadline, &"Old".to_string());
    let m = read_image_metadata(&store);
    assert_eq!(m.title, "Sunset");
}

#[test]
fn title_falls_back_to_iptc_headline() {
    let mut store = TagStore::new();
    store.set_tag_string(TagKey::IptcHeadline, &"Hed".to_string());
    let m = read_image_metadata(&store);
    assert_eq!(m.title, "Hed");
}

#[test]
fn description_falls_back_to_exif_image_description() {
    let mut store = TagStore::new();
    store.set_tag_string(TagKey::ExifImageDescription, &"desc1".to_string());
    let m = read_image_metadata(&store);
    assert_eq!(m.description, "desc1");
}

#[test]
fn description_prefers_xmp_then_iptc() {
    let mut store = TagStore::new();
    store.set_tag_string(TagKey::IptcCaption, &"caption".to_string());
    store.set_tag_string(TagKey::ExifImageDescription, &"exif".to_string());
    let m = read_image_metadata(&store);
    assert_eq!(m.description, "caption");
    store.set_tag_string(TagKey::XmpDescription, &"xmp".to_string());
    let m = read_image_metadata(&store);
    assert_eq!(m.description, "xmp");
}

#[test]
fn keywords_fall_back_to_iptc_entries() {
    let mut store = TagStore::new();
    store.set_tag_string(TagKey::IptcKeywords, &"a".to_string());
    store.set_tag_string(TagKey::IptcKeywords, &"b".to_string());
    let m = read_image_metadata(&store);
    assert_eq!(m.keywords, vec!["a".to_string(), "b".to_string()]);
}

#[test]
fn author_and_copyright_fallback_order() {
    let mut store = TagStore::new();
    store.set_tag_string(TagKey::IptcByline, &"byline".to_string());
    store.set_tag_string(TagKey::IptcCopyright, &"ic".to_string());
    let m = read_image_metadata(&store);
    assert_eq!(m.author, "byline");
    assert_eq!(m.copyright, "ic");
    store.set_tag_string(TagKey::XmpCreator, &"creator".to_string());
    store.set_tag_string(TagKey::XmpRights, &"rights".to_string());
    let m = read_image_metadata(&store);
    assert_eq!(m.author, "creator");
    assert_eq!(m.copyright, "rights");
}

#[test]
fn scalar_fields_round_trip() {
    let mut store = TagStore::new();
    let written = meta(
        "a title",
        "a description",
        &[],
        None,
        "an author",
        "a copyright",
    );
    write_image_metadata(&mut store, &written);
    let read = read_image_metadata(&store);
    assert_eq!(read.title, written.title);
    assert_eq!(read.description, written.description);
    assert_eq!(read.author, written.author);
    assert_eq!(read.copyright, written.copyright);
}

#[test]
fn keywords_round_trip() {
    let mut store = TagStore::new();
    let written = meta("", "", &["first", "second", "third"], None, "", "");
    write_image_metadata(&mut store, &written);
    let read = read_image_metadata(&store);
    assert_eq!(read.keywords, written.keywords);
}

#[test]
fn write_fans_scalar_fields_out_to_every_tag() {
    let mut store = TagStore::new();
    let written = meta("t", "d", &[], None, "a", "c");
    write_image_metadata(&mut store, &written);
    assert_eq!(store.get_tag_string(TagKey::XmpTitle), Some("t".to_string()));
    assert_eq!(
        store.get_tag_string(TagKey::IptcHeadline),
        Some("t".to_string())
    );
    assert_eq!(
        store.get_tag_string(TagKey::XmpDescription),
        Some("d".to_string())
    );
    assert_eq!(
        store.get_tag_string(TagKey::IptcCaption),
        Some("d".to_string())
    );
    assert_eq!(
        store.get_tag_string(TagKey::ExifImageDescription),
        Some("d".to_string())
    );
    assert_eq!(
        store.get_tag_string(TagKey::XmpCreator),
        Some("a".to_string())
    );
    assert_eq!(
        store.get_tag_string(TagKey::IptcByline),
        Some("a".to_string())
    );
    assert_eq!(
        store.get_tag_string(TagKey::XmpRights),
        Some("c".to_string())
    );
    assert_eq!(
        store.get_tag_string(TagKey::IptcCopyright),
        Some("c".to_string())
    );
}

#[test]
fn empty_fields_are_skipped_not_cleared() {
    let mut store = TagStore::new();
    store.set_tag_string(TagKey::XmpTitle, &"keep title".to_string());
    store.set_tag_string(TagKey::XmpDescription, &"keep desc".to_string());
    store.set_tag_string(TagKey::XmpCreator, &"keep author".to_string());
    store.set_tag_string(TagKey::XmpRights, &"keep rights".to_string());
    let empty = ImageMetadata::default();
    write_image_metadata(&mut store, &empty);
    assert_eq!(
        store.get_tag_string(TagKey::XmpTitle),
        Some("keep title".to_string())
    );
    assert_eq!(
        store.get_tag_string(TagKey::XmpDescription),
        Some("keep desc".to_string())
    );
    assert_eq!(
        store.get_tag_string(TagKey::XmpCreator),
        Some("keep author".to_string())
    );
    assert_eq!(
        store.get_tag_string(TagKey::XmpRights),
        Some("keep rights".to_string())
    );
}

#[test]
fn empty_keywords_leave_iptc_entries_untouched() {
    let mut store = TagStore::new();
    store.set_tag_string(TagKey::IptcKeywords, &"pre1".to_string());
    store.set_tag_string(TagKey::IptcKeywords, &"pre2".to_string());
    let written = meta("new title", "", &[], None, "", "");
    write_image_metadata(&mut store, &written);
    assert_eq!(
        store.get_tag_multiple_strings(TagKey::IptcKeywords),
        Some(vec!["pre1".to_string(), "pre2".to_string()])
    );
    assert_eq!(store.get_tag_multiple_strings(TagKey::XmpSubject), None);
}

#[test]
fn nonempty_keywords_replace_prior_entries() {
    let mut store = TagStore::new();
    store.set_tag_string(TagKey::IptcKeywords, &"old1".to_string());
    store.set_tag_string(TagKey::IptcKeywords, &"old2".to_string());
    let mut subject = Vec::new();
    subject.push("oldx".to_string());
    store.set_tag_multiple_strings(TagKey::XmpSubject, &subject);
    let written = meta("", "", &["a", "b"], None, "", "");
    write_image_metadata(&mut store, &written);
    assert_eq!(
        store.get_tag_multiple_strings(TagKey::XmpSubject),
        Some(vec!["a".to_string(), "b".to_string()])
    );
    assert_eq!(
        store.get_tag_multiple_strings(TagKey::IptcKeywords),
        Some(vec!["a".to_string(), "b".to_string()])
    );
}

#[test]
fn date_taken_is_never_written() {
    let mut store = TagStore::new();
    store.set_tag_string(
        TagKey::ExifDateTimeOriginal,
        &"2020:05:17 10:00:00".to_string(),
    );
    let written = meta(
        "t",
        "d",
        &["k"],
        Some("2031:01:01 00:00:00"),
        "a",
        "c",
    );
    write_image_metadata(&mut store, &written);
    assert_eq!(
        store.get_tag_string(TagKey::ExifDateTimeOriginal),
        Some("2020:05:17 10:00:00".to_string())
    );

    let mut fresh = TagStore::new();
    write_image_metadata(&mut fresh, &written);
    assert_eq!(fresh.get_tag_string(TagKey::ExifDateTimeOriginal), None);
}

#[test]
fn default_metadata_is_all_absent() {
    let m = ImageMetadata::default();
    assert_eq!(m.title, "");
    assert_eq!(m.description, "");
    assert!(m.keywords.is_empty());
    assert_eq!(m.date_taken, None);
    assert_eq!(m.author, "");
    assert_eq!(m.copyright, "");
}
