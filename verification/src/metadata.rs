//! The metadata reconciler: a fixed logical schema mapped onto the XMP,
//! IPTC and EXIF tag namespaces.
//!
//! Reading follows a per-field fallback order — the first present tag wins,
//! a field with no present tag gets its zero value, and a missing date is a
//! valid result, not an error. Writing fans a non-empty field out to every
//! tag configured for it; an empty field is skipped, leaving existing tags
//! untouched, except that non-empty keywords fully replace the previous
//! keyword entries. The date taken is read-only and never written.

use crate::store::spec_set_multiple;
use crate::store::spec_set_string;
use crate::store::TagStore;
use crate::tags::TagKey;
use vstd::prelude::*;

verus! {

/// The logical metadata schema exposed to callers. An empty string or an
/// empty keyword list means the field is absent.
#[derive(Clone, Debug)]
pub struct ImageMetadata {
    pub title: String,
    pub description: String,
    pub keywords: Vec<String>,
    pub date_taken: Option<String>,
    pub author: String,
    pub copyright: String,
}

impl Default for ImageMetadata {
    /// The all-absent value: every field empty, no date taken.
    fn default() -> (d: Self)
        ensures
            d.title@ == Seq::<char>::empty(),
            d.description@ == Seq::<char>::empty(),
            d.keywords@ == Seq::<String>::empty(),
            d.date_taken is None,
            d.author@ == Seq::<char>::empty(),
            d.copyright@ == Seq::<char>::empty(),
    {
        ImageMetadata {
            title: String::new(),
            description: String::new(),
            keywords: Vec::new(),
            date_taken: None,
            author: String::new(),
            copyright: String::new(),
        }
    }
}

/// The first value of tag `k` in table `m`, if the tag is present with at
/// least one value.
pub open spec fn tag_first(m: Map<TagKey, Seq<Seq<char>>>, k: TagKey) -> Option<Seq<char>> {
    if m.dom().contains(k) && m[k].len() > 0 {
        Some(m[k][0])
    } else {
        None
    }
}

/// All values of tag `k` in table `m`, if the tag is present.
pub open spec fn tag_all(m: Map<TagKey, Seq<Seq<char>>>, k: TagKey) -> Option<Seq<Seq<char>>> {
    if m.dom().contains(k) {
        Some(m[k])
    } else {
        None
    }
}

/// Read fallback for the title: XMP title, then IPTC headline.
pub open spec fn spec_read_title(m: Map<TagKey, Seq<Seq<char>>>) -> Seq<char> {
    match tag_first(m, TagKey::XmpTitle) {
        Some(v) => v,
        None => match tag_first(m, TagKey::IptcHeadline) {
            Some(v) => v,
            None => Seq::empty(),
        },
    }
}

/// Read fallback for the description: XMP description, then IPTC caption,
/// then EXIF image description.
pub open spec fn spec_read_description(m: Map<TagKey, Seq<Seq<char>>>) -> Seq<char> {
    match tag_first(m, TagKey::XmpDescription) {
        Some(v) => v,
        None => match tag_first(m, TagKey::IptcCaption) {
            Some(v) => v,
            None => match tag_first(m, TagKey::ExifImageDescription) {
                Some(v) => v,
                None => Seq::empty(),
            },
        },
    }
}

/// Read fallback for the keywords: XMP subject, then IPTC keywords.
pub open spec fn spec_read_keywords(m: Map<TagKey, Seq<Seq<char>>>) -> Seq<Seq<char>> {
    match tag_all(m, TagKey::XmpSubject) {
        Some(vs) => vs,
        None => match tag_all(m, TagKey::IptcKeywords) {
            Some(vs) => vs,
            None => Seq::empty(),
        },
    }
}

/// The date taken comes from the EXIF original date alone; an absent tag
/// is a valid final state, not an error.
pub open spec fn spec_read_date_taken(m: Map<TagKey, Seq<Seq<char>>>) -> Option<Seq<char>> {
    tag_first(m, TagKey::ExifDateTimeOriginal)
}

/// Read fallback for the author: XMP creator, then IPTC byline.
pub open spec fn spec_read_author(m: Map<TagKey, Seq<Seq<char>>>) -> Seq<char> {
    match tag_first(m, TagKey::XmpCreator) {
        Some(v) => v,
        None => match tag_first(m, TagKey::IptcByline) {
            Some(v) => v,
            None => Seq::empty(),
        },
    }
}

/// Read fallback for the copyright: XMP rights, then IPTC copyright.
pub open spec fn spec_read_copyright(m: Map<TagKey, Seq<Seq<char>>>) -> Seq<char> {
    match tag_first(m, TagKey::XmpRights) {
        Some(v) => v,
        None => match tag_first(m, TagKey::IptcCopyright) {
            Some(v) => v,
            None => Seq::empty(),
        },
    }
}

/// Write fanout of the keywords: a non-empty list replaces the XMP subject
/// as a whole and the IPTC keyword entries one by one (any prior entries
/// cleared first); an empty list is skipped and clears nothing.
pub open spec fn spec_write_keywords(
    m: Map<TagKey, Seq<Seq<char>>>,
    kws: Seq<Seq<char>>,
) -> Map<TagKey, Seq<Seq<char>>> {
    if kws.len() == 0 {
        m
    } else {
        spec_set_multiple(m, TagKey::XmpSubject, kws).insert(TagKey::IptcKeywords, kws)
    }
}

/// The effect on a tag table of writing the logical value `meta`: each
/// non-empty scalar field is fanned out to every tag configured for it, an
/// empty field is skipped, keywords follow [`spec_write_keywords`], and the
/// date taken is never written.
pub open spec fn spec_write(
    m: Map<TagKey, Seq<Seq<char>>>,
    meta: ImageMetadata,
) -> Map<TagKey, Seq<Seq<char>>> {
    let m1 = if meta.title@.len() > 0 {
        spec_set_string(
            spec_set_string(m, TagKey::XmpTitle, meta.title@),
            TagKey::IptcHeadline,
            meta.title@,
        )
    } else {
        m
    };
    let m2 = if meta.description@.len() > 0 {
        spec_set_string(
            spec_set_string(
                spec_set_string(m1, TagKey::XmpDescription, meta.description@),
                TagKey::IptcCaption,
                meta.description@,
            ),
            TagKey::ExifImageDescription,
            meta.description@,
        )
    } else {
        m1
    };
    let m3 = spec_write_keywords(m2, meta.keywords.deep_view());
    let m4 = if meta.author@.len() > 0 {
        spec_set_string(
            spec_set_string(m3, TagKey::XmpCreator, meta.author@),
            TagKey::IptcByline,
            meta.author@,
        )
    } else {
        m3
    };
    let m5 = if meta.copyright@.len() > 0 {
        spec_set_string(
            spec_set_string(m4, TagKey::XmpRights, meta.copyright@),
            TagKey::IptcCopyright,
            meta.copyright@,
        )
    } else {
        m4
    };
    m5
}

/// The first present value among tags `k1`, `k2`, or the empty string.
fn read_scalar2(store: &TagStore, k1: TagKey, k2: TagKey) -> (r: String)
    requires
        store.inv(),
    ensures
        r@ == (match tag_first(store@, k1) {
            Some(v) => v,
            None => match tag_first(store@, k2) {
                Some(v) => v,
                None => Seq::<char>::empty(),
            },
        }),
{
    match store.get_tag_string(k1) {
        Some(s) => s,
        None => match store.get_tag_string(k2) {
            Some(s) => s,
            None => String::new(),
        },
    }
}

/// The first present value among tags `k1`, `k2`, `k3`, or the empty
/// string.
fn read_scalar3(store: &TagStore, k1: TagKey, k2: TagKey, k3: TagKey) -> (r: String)
    requires
        store.inv(),
    ensures
        r@ == (match tag_first(store@, k1) {
            Some(v) => v,
            None => match tag_first(store@, k2) {
                Some(v) => v,
                None => match tag_first(store@, k3) {
                    Some(v) => v,
                    None => Seq::<char>::empty(),
                },
            },
        }),
{
    match store.get_tag_string(k1) {
        Some(s) => s,
        None => match store.get_tag_string(k2) {
            Some(s) => s,
            None => match store.get_tag_string(k3) {
                Some(s) => s,
                None => String::new(),
            },
        },
    }
}

/// Reads the logical metadata out of a tag store, field by field in the
/// configured fallback order. Missing tags are never an error: each field
/// falls back to its zero value.
pub fn read_image_metadata(store: &TagStore) -> (m: ImageMetadata)
    requires
        store.inv(),
    ensures
        m.title@ == spec_read_title(store@),
        m.description@ == spec_read_description(store@),
        m.keywords.deep_view() == spec_read_keywords(store@),
        m.date_taken.deep_view() == spec_read_date_taken(store@),
        m.author@ == spec_read_author(store@),
        m.copyright@ == spec_read_copyright(store@),
{
    let title = read_scalar2(store, TagKey::XmpTitle, TagKey::IptcHeadline);
    let description = read_scalar3(
        store,
        TagKey::XmpDescription,
        TagKey::IptcCaption,
        TagKey::ExifImageDescription,
    );
    let keywords = match store.get_tag_multiple_strings(TagKey::XmpSubject) {
        Some(vs) => vs,
        None => match store.get_tag_multiple_strings(TagKey::IptcKeywords) {
            Some(vs) => vs,
            None => {
                let empty: Vec<String> = Vec::new();
                proof {
                    assert(empty.deep_view() =~= Seq::<Seq<char>>::empty());
                }
                empty
            },
        },
    };
    proof {
        assert(keywords.deep_view() == spec_read_keywords(store@));
    }
    let date_taken = store.get_tag_string(TagKey::ExifDateTimeOriginal);
    let author = read_scalar2(store, TagKey::XmpCreator, TagKey::IptcByline);
    let copyright = read_scalar2(store, TagKey::XmpRights, TagKey::IptcCopyright);
    ImageMetadata { title, description, keywords, date_taken, author, copyright }
}

/// Writes the logical metadata into a tag store: every non-empty field is
/// fanned out to all of its configured tags, empty fields are skipped
/// (existing tags left untouched), non-empty keywords replace the previous
/// keyword entries, and the date taken is never written.
pub fn write_image_metadata(store: &mut TagStore, meta: &ImageMetadata)
    requires
        old(store).inv(),
    ensures
        final(store).inv(),
        final(store)@ == spec_write(old(store)@, *meta),
{
    if !meta.title.as_str().is_empty() {
        store.set_tag_string(TagKey::XmpTitle, &meta.title);
        store.set_tag_string(TagKey::IptcHeadline, &meta.title);
    }
    if !meta.description.as_str().is_empty() {
        store.set_tag_string(TagKey::XmpDescription, &meta.description);
        store.set_tag_string(TagKey::IptcCaption, &meta.description);
        store.set_tag_string(TagKey::ExifImageDescription, &meta.description);
    }
    let ghost m2 = store@;
    if !meta.keywords.is_empty() {
        store.set_tag_multiple_strings(TagKey::XmpSubject, &meta.keywords);
        if store.has_tag(TagKey::IptcKeywords) {
            store.clear_tag(TagKey::IptcKeywords);
        }
        proof {
            assert(store@ =~= spec_set_multiple(
                m2,
                TagKey::XmpSubject,
                meta.keywords.deep_view(),
            ).remove(TagKey::IptcKeywords));
        }
        let ghost cleared = store@;
        let n = meta.keywords.len();
        let mut i: usize = 0;
        while i < n
            invariant
                store.inv(),
                n == meta.keywords@.len(),
                i <= n,
                !cleared.dom().contains(TagKey::IptcKeywords),
                store@ == (if i == 0 {
                    cleared
                } else {
                    cleared.insert(
                        TagKey::IptcKeywords,
                        meta.keywords.deep_view().subrange(0, i as int),
                    )
                }),
            decreases n - i,
        {
            store.set_tag_string(TagKey::IptcKeywords, &meta.keywords[i]);
            proof {
                let kws = meta.keywords.deep_view();
                if i == 0 {
                    assert(seq![kws[0]] =~= kws.subrange(0, 1));
                } else {
                    assert(kws.subrange(0, i as int).push(kws[i as int]) =~= kws.subrange(
                        0,
                        i + 1 as int,
                    ));
                }
            }
            i = i + 1;
        }
        proof {
            let kws = meta.keywords.deep_view();
            assert(kws.subrange(0, n as int) =~= kws);
            assert(store@ =~= spec_write_keywords(m2, kws));
        }
    } else {
        proof {
            assert(meta.keywords.deep_view().len() == 0);
        }
    }
    if !meta.author.as_str().is_empty() {
        store.set_tag_string(TagKey::XmpCreator, &meta.author);
        store.set_tag_string(TagKey::IptcByline, &meta.author);
    }
    if !meta.copyright.as_str().is_empty() {
        store.set_tag_string(TagKey::XmpRights, &meta.copyright);
        store.set_tag_string(TagKey::IptcCopyright, &meta.copyright);
    }
}

/// Round trip of the scalar fields: any non-empty title, description,
/// author or copyright that is written into a tag table is the value read
/// back from it, whatever the table held before.
pub proof fn lemma_scalar_round_trip(m: Map<TagKey, Seq<Seq<char>>>, meta: ImageMetadata)
    ensures
        meta.title@.len() > 0 ==> spec_read_title(spec_write(m, meta)) == meta.title@,
        meta.description@.len() > 0 ==> spec_read_description(spec_write(m, meta))
            == meta.description@,
        meta.author@.len() > 0 ==> spec_read_author(spec_write(m, meta)) == meta.author@,
        meta.copyright@.len() > 0 ==> spec_read_copyright(spec_write(m, meta))
            == meta.copyright@,
{
}

/// Round trip of the keywords: a non-empty keyword list that is written is
/// the list read back, whatever the table held before.
pub proof fn lemma_keywords_round_trip(m: Map<TagKey, Seq<Seq<char>>>, meta: ImageMetadata)
    requires
        meta.keywords@.len() > 0,
    ensures
        spec_read_keywords(spec_write(m, meta)) == meta.keywords.deep_view(),
{
}

/// Writing an empty keyword list clears nothing: both the IPTC keyword
/// entries and the XMP subject are left exactly as they were.
pub proof fn lemma_empty_keywords_preserved(m: Map<TagKey, Seq<Seq<char>>>, meta: ImageMetadata)
    requires
        meta.keywords@.len() == 0,
    ensures
        spec_write(m, meta).dom().contains(TagKey::IptcKeywords) == m.dom().contains(
            TagKey::IptcKeywords,
        ),
        m.dom().contains(TagKey::IptcKeywords) ==> spec_write(m, meta)[TagKey::IptcKeywords]
            == m[TagKey::IptcKeywords],
        spec_write(m, meta).dom().contains(TagKey::XmpSubject) == m.dom().contains(
            TagKey::XmpSubject,
        ),
        m.dom().contains(TagKey::XmpSubject) ==> spec_write(m, meta)[TagKey::XmpSubject]
            == m[TagKey::XmpSubject],
{
}

/// Writing a non-empty keyword list replaces both keyword tags exactly:
/// the XMP subject and the IPTC keyword entries each become precisely the
/// written list, with any prior entries removed.
pub proof fn lemma_keywords_replaced(m: Map<TagKey, Seq<Seq<char>>>, meta: ImageMetadata)
    requires
        meta.keywords@.len() > 0,
    ensures
        spec_write(m, meta).dom().contains(TagKey::XmpSubject),
        spec_write(m, meta)[TagKey::XmpSubject] == meta.keywords.deep_view(),
        spec_write(m, meta).dom().contains(TagKey::IptcKeywords),
        spec_write(m, meta)[TagKey::IptcKeywords] == meta.keywords.deep_view(),
{
}

/// The date taken is read-only: a write never alters the EXIF original
/// date tag, whether or not the written value carries a date.
pub proof fn lemma_date_taken_never_written(m: Map<TagKey, Seq<Seq<char>>>, meta: ImageMetadata)
    ensures
        spec_write(m, meta).dom().contains(TagKey::ExifDateTimeOriginal) == m.dom().contains(
            TagKey::ExifDateTimeOriginal,
        ),
        m.dom().contains(TagKey::ExifDateTimeOriginal) ==> spec_write(
            m,
            meta,
        )[TagKey::ExifDateTimeOriginal] == m[TagKey::ExifDateTimeOriginal],
{
}

} // verus!
