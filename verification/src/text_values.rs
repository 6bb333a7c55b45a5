//! Resolved display strings for the metadata fields shown on a frame, and
//! their extraction from a photograph's Exif data.

use vstd::prelude::*;

verus! {

/// One display-ready string per metadata field. A field whose value is not
/// available holds the sentinel string "N/A" instead; every field is always
/// present.
pub struct TextValues {
    pub shutter_speed: String,
    pub aperture: String,
    pub focal_length: String,
    pub iso: String,
    pub camera: String,
}

/// The closed set of metadata fields that can be displayed on a frame.
#[derive(Copy, Clone, Debug, PartialEq, Eq)]
pub enum TextValuesKeys {
    Camera,
    Aperture,
    ShutterSpeed,
    FocalLength,
    Iso,
}

impl TextValues {
    /// The field selected by `key`, as a mathematical function of the record.
    pub open spec fn spec_property(&self, key: TextValuesKeys) -> String {
        match key {
            TextValuesKeys::Camera => self.camera,
            TextValuesKeys::ShutterSpeed => self.shutter_speed,
            TextValuesKeys::Aperture => self.aperture,
            TextValuesKeys::FocalLength => self.focal_length,
            TextValuesKeys::Iso => self.iso,
        }
    }

    /// Total lookup of a field's display string by its key.
    pub fn get_property(&self, key: &TextValuesKeys) -> (r: &String)
        ensures
            *r == self.spec_property(*key),
    {
        match key {
            TextValuesKeys::Camera => &self.camera,
            TextValuesKeys::ShutterSpeed => &self.shutter_speed,
            TextValuesKeys::Aperture => &self.aperture,
            TextValuesKeys::FocalLength => &self.focal_length,
            TextValuesKeys::Iso => &self.iso,
        }
    }
}

/// A photograph's parsed Exif data, an opaque container the field texts are
/// read from.
#[verifier::external_type_specification]
#[verifier::external_body]
pub struct ExExif(exif::Exif);

/// The Exif tags the frame's fields are read from.
enum MetadataTag {
    ExposureTime,
    FNumber,
    FocalLength,
    PhotographicSensitivity,
    Make,
    Model,
}

/// Relies on exif::Exif::get_field and on the Display of
/// exif::Field::display_value().with_unit(..): the formatted display text of
/// the tagged field of the primary image, if the photograph carries that
/// field. The text depends on the Exif contents, so nothing is assumed of it.
#[verifier::external_body]
fn read_field_display(exif_data: &exif::Exif, tag: &MetadataTag) -> (r: Option<String>) {
    let tag = match tag {
        MetadataTag::ExposureTime => exif::Tag::ExposureTime,
        MetadataTag::FNumber => exif::Tag::FNumber,
        MetadataTag::FocalLength => exif::Tag::FocalLength,
        MetadataTag::PhotographicSensitivity => exif::Tag::PhotographicSensitivity,
        MetadataTag::Make => exif::Tag::Make,
        MetadataTag::Model => exif::Tag::Model,
    };
    exif_data.get_field(tag, exif::In::PRIMARY).map(
        |field| format!("{}", field.display_value().with_unit(exif_data)),
    )
}

/// `s` without its leading occurrences of `c`.
pub open spec fn trim_leading(s: Seq<char>, c: char) -> Seq<char>
    decreases s.len(),
{
    if s.len() > 0 && s[0] == c {
        trim_leading(s.drop_first(), c)
    } else {
        s
    }
}

/// `s` without its trailing occurrences of `c`.
pub open spec fn trim_trailing(s: Seq<char>, c: char) -> Seq<char>
    decreases s.len(),
{
    if s.len() > 0 && s.last() == c {
        trim_trailing(s.drop_last(), c)
    } else {
        s
    }
}

/// `s` without its leading and trailing occurrences of `c`.
pub open spec fn trim_char(s: Seq<char>, c: char) -> Seq<char> {
    trim_trailing(trim_leading(s, c), c)
}

/// Relies on str::trim_matches with a char pattern: the input without its
/// leading and trailing occurrences of that character.
#[verifier::external_body]
fn trim_matching_char<'a>(s: &'a str, c: char) -> (r: &'a str)
    ensures
        r@ == trim_char(s@, c),
{
    s.trim_matches(c)
}

/// The display text of an optionally present field: the formatted text
/// itself, or the sentinel "N/A" where the field is absent.
pub open spec fn display_text(value: Option<String>) -> Seq<char> {
    match value {
        Option::Some(s) => s@,
        Option::None => "N/A"@,
    }
}

/// Substitutes the sentinel "N/A" for an absent field's display text.
pub fn display_or_default(value: Option<String>) -> (r: String)
    ensures
        r@ == display_text(value),
{
    match value {
        Option::Some(s) => s,
        Option::None => "N/A".to_owned(),
    }
}

/// The camera label: the make and model display texts, each stripped of
/// surrounding double quotes, joined by one space; or the sentinel "N/A"
/// where either is absent.
pub open spec fn camera_text(brand: Option<String>, model: Option<String>) -> Seq<char> {
    match (brand, model) {
        (Option::Some(b), Option::Some(m)) => trim_char(b@, '"') + " "@ + trim_char(m@, '"'),
        _ => "N/A"@,
    }
}

/// Joins the make and model display texts into the camera label.
pub fn camera_label(brand: Option<String>, model: Option<String>) -> (r: String)
    ensures
        r@ == camera_text(brand, model),
{
    match (&brand, &model) {
        (Option::Some(b), Option::Some(m)) => {
            let trimmed_brand = trim_matching_char(b.as_str(), '"');
            let trimmed_model = trim_matching_char(m.as_str(), '"');
            let mut label = trimmed_brand.to_owned();
            label.append(" ");
            label.append(trimmed_model);
            proof {
                assert(label@ =~= camera_text(brand, model));
            }
            label
        },
        _ => "N/A".to_owned(),
    }
}

/// Reads the shutter-speed display text from the photograph's Exif data, or
/// "N/A" where the exposure-time field is absent.
pub fn get_shutter_speed(exif_data: &exif::Exif) -> String {
    display_or_default(read_field_display(exif_data, &MetadataTag::ExposureTime))
}

/// Reads the aperture display text from the photograph's Exif data, or "N/A"
/// where the f-number field is absent.
pub fn get_aperture(exif_data: &exif::Exif) -> String {
    display_or_default(read_field_display(exif_data, &MetadataTag::FNumber))
}

/// Reads the focal-length display text from the photograph's Exif data, or
/// "N/A" where the focal-length field is absent.
pub fn get_focal_length(exif_data: &exif::Exif) -> String {
    display_or_default(read_field_display(exif_data, &MetadataTag::FocalLength))
}

/// Reads the ISO display text from the photograph's Exif data, or "N/A"
/// where the photographic-sensitivity field is absent.
pub fn get_iso(exif_data: &exif::Exif) -> String {
    display_or_default(read_field_display(exif_data, &MetadataTag::PhotographicSensitivity))
}

/// Reads the camera label from the photograph's Exif data: the make and
/// model, each stripped of surrounding double quotes, joined by one space; or
/// "N/A" where either field is absent.
pub fn get_camera(exif_data: &exif::Exif) -> String {
    let brand = read_field_display(exif_data, &MetadataTag::Make);
    let model = read_field_display(exif_data, &MetadataTag::Model);
    camera_label(brand, model)
}

/// Resolves every display text of a photograph's Exif data into one record.
pub fn get_text_values(exif_data: &exif::Exif) -> TextValues {
    TextValues {
        shutter_speed: get_shutter_speed(exif_data),
        aperture: get_aperture(exif_data),
        focal_length: get_focal_length(exif_data),
        camera: get_camera(exif_data),
        iso: get_iso(exif_data),
    }
}

} // verus!
