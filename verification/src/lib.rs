//! Reconciliation of descriptive image metadata across the XMP, IPTC and
//! EXIF tag namespaces.
//!
//! A [`store::TagStore`] models the tag table of one image file: a finite
//! map from tag identifiers to non-empty lists of string values. The
//! reconciler maps a fixed logical schema ([`metadata::ImageMetadata`]:
//! title, description, keywords, date taken, author, copyright) onto that
//! table: reads follow a per-field fallback order (first present tag wins),
//! writes fan the value out to every tag configured for the field.

pub mod metadata;
pub mod store;
pub mod tags;
