//! The fixed set of underlying tags that the logical schema is mapped onto.

use vstd::prelude::*;

verus! {

/// One underlying tag identifier, across the three namespaces (XMP, IPTC,
/// EXIF) that the logical schema is reconciled over. Each variant names the
/// exiv2-style key that [`TagKey::exiv2_key`] returns for it.
#[derive(Clone, Copy, Debug, PartialEq, Eq, Structural)]
pub enum TagKey {
    /// `Xmp.dc.title`
    XmpTitle,
    /// `Iptc.Application2.Headline`
    IptcHeadline,
    /// `Xmp.dc.description`
    XmpDescription,
    /// `Iptc.Application2.Caption`
    IptcCaption,
    /// `Exif.Image.ImageDescription`
    ExifImageDescription,
    /// `Xmp.dc.subject`
    XmpSubject,
    /// `Iptc.Application2.Keywords`
    IptcKeywords,
    /// `Exif.Photo.DateTimeOriginal`
    ExifDateTimeOriginal,
    /// `Xmp.dc.creator`
    XmpCreator,
    /// `Iptc.Application2.Byline`
    IptcByline,
    /// `Xmp.dc.rights`
    XmpRights,
    /// `Iptc.Application2.Copyright`
    IptcCopyright,
}

impl TagKey {
    /// A repeatable tag accumulates one entry per single-string write
    /// instead of being replaced. IPTC keywords is the one repeatable tag
    /// in the schema: it is modelled as a repeated single-value tag, not as
    /// a native multi-value tag.
    pub open spec fn spec_is_repeatable(self) -> bool {
        self is IptcKeywords
    }

    #[verifier::when_used_as_spec(spec_is_repeatable)]
    pub fn is_repeatable(self) -> (r: bool)
        ensures
            r == self.spec_is_repeatable(),
    {
        matches!(self, TagKey::IptcKeywords)
    }

    /// The exiv2-style key under which a tag-store backend addresses this
    /// tag.
    pub open spec fn spec_exiv2_key(self) -> Seq<char> {
        match self {
            TagKey::XmpTitle => "Xmp.dc.title"@,
            TagKey::IptcHeadline => "Iptc.Application2.Headline"@,
            TagKey::XmpDescription => "Xmp.dc.description"@,
            TagKey::IptcCaption => "Iptc.Application2.Caption"@,
            TagKey::ExifImageDescription => "Exif.Image.ImageDescription"@,
            TagKey::XmpSubject => "Xmp.dc.subject"@,
            TagKey::IptcKeywords => "Iptc.Application2.Keywords"@,
            TagKey::ExifDateTimeOriginal => "Exif.Photo.DateTimeOriginal"@,
            TagKey::XmpCreator => "Xmp.dc.creator"@,
            TagKey::IptcByline => "Iptc.Application2.Byline"@,
            TagKey::XmpRights => "Xmp.dc.rights"@,
            TagKey::IptcCopyright => "Iptc.Application2.Copyright"@,
        }
    }

    /// The exiv2-style key under which a tag-store backend addresses this
    /// tag.
    pub fn exiv2_key(self) -> (r: &'static str)
        ensures
            r@ == self.spec_exiv2_key(),
    {
        match self {
            TagKey::XmpTitle => "Xmp.dc.title",
            TagKey::IptcHeadline => "Iptc.Application2.Headline",
            TagKey::XmpDescription => "Xmp.dc.description",
            TagKey::IptcCaption => "Iptc.Application2.Caption",
            TagKey::ExifImageDescription => "Exif.Image.ImageDescription",
            TagKey::XmpSubject => "Xmp.dc.subject",
            TagKey::IptcKeywords => "Iptc.Application2.Keywords",
            TagKey::ExifDateTimeOriginal => "Exif.Photo.DateTimeOriginal",
            TagKey::XmpCreator => "Xmp.dc.creator",
            TagKey::IptcByline => "Iptc.Application2.Byline",
            TagKey::XmpRights => "Xmp.dc.rights",
            TagKey::IptcCopyright => "Iptc.Application2.Copyright",
        }
    }
}

} // verus!
