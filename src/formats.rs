use vstd::prelude::*;

verus! {

#[verifier::external_type_specification]
#[verifier::external_body]
pub struct ExImageFormat(image::ImageFormat);

/// The extensions, in lower case, that name an image container format.
pub open spec fn image_extensions() -> Seq<Seq<char>> {
    seq![
        seq!['a', 'v', 'i', 'f'],
        seq!['j', 'p', 'g'],
        seq!['j', 'p', 'e', 'g'],
        seq!['p', 'n', 'g'],
        seq!['g', 'i', 'f'],
        seq!['w', 'e', 'b', 'p'],
        seq!['t', 'i', 'f'],
        seq!['t', 'i', 'f', 'f'],
        seq!['t', 'g', 'a'],
        seq!['d', 'd', 's'],
        seq!['b', 'm', 'p'],
        seq!['i', 'c', 'o'],
        seq!['h', 'd', 'r'],
        seq!['e', 'x', 'r'],
        seq!['p', 'b', 'm'],
        seq!['p', 'a', 'm'],
        seq!['p', 'p', 'm'],
        seq!['p', 'g', 'm'],
        seq!['f', 'f'],
        seq!['f', 'a', 'r', 'b', 'f', 'e', 'l', 'd'],
        seq!['q', 'o', 'i'],
    ]
}

/// `c` lower-cased as ASCII equals the lower-case letter `l`.
pub open spec fn same_ascii_letter(c: char, l: char) -> bool {
    c == l || (97 <= l as u32 <= 122 && c as u32 + 32 == l as u32)
}

/// `ext` lower-cased as ASCII equals `name`, a word of lower-case letters.
pub open spec fn matches_ignoring_ascii_case(ext: Seq<char>, name: Seq<char>) -> bool {
    ext.len() == name.len() && forall|i: int| 0 <= i < ext.len() ==> #[trigger] same_ascii_letter(ext[i], name[i])
}

/// Whether a file extension names an image container format, compared
/// without regard to ASCII case.
pub open spec fn is_image_extension(ext: Seq<char>) -> bool {
    exists|k: int| 0 <= k < image_extensions().len() && #[trigger] matches_ignoring_ascii_case(ext, image_extensions()[k])
}

/// Relies on image::ImageFormat::from_extension: the extension is lower-cased
/// as ASCII and looked up in a fixed table of container formats.
#[verifier::external_body]
fn format_from_extension(ext: &str) -> (r: Option<image::ImageFormat>)
    ensures
        r is Some <==> is_image_extension(ext@),
{
    image::ImageFormat::from_extension(ext)
}

/// The format to decode a corpus entry with: only regular files whose
/// extension names a known image format are candidates.
pub fn corpus_format(is_file: bool, extension: &str) -> (r: Option<image::ImageFormat>)
    ensures
        r is Some <==> is_file && is_image_extension(extension@),
        extension@.len() == 0 ==> r is None,
{
    if is_file {
        format_from_extension(extension)
    } else {
        None
    }
}

} // verus!
