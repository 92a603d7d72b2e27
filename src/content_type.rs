use vstd::prelude::*;

verus! {

/// Whether `header` and `marker` both parse as media types, and the two are
/// equal as media types.
pub uninterp spec fn same_media_type(header: Seq<char>, marker: Seq<char>) -> bool;

/// Relies on `<mime::Mime as FromStr>::from_str` and `PartialEq for mime::Mime`:
/// both strings are parsed as media types and compared; a string that does
/// not parse matches nothing. The parser rejects the empty string, and
/// `application/octet-stream` parses to the same media type each time.
#[verifier::external_body]
fn media_types_equal(header: &str, marker: &str) -> (r: bool)
    ensures
        r == same_media_type(header@, marker@),
        header@.len() == 0 ==> !r,
        header@ == "application/octet-stream"@ && marker@ == "application/octet-stream"@ ==> r,
{
    match (header.parse::<mime::Mime>(), marker.parse::<mime::Mime>()) {
        (Ok(h), Ok(m)) => h == m,
        _ => false,
    }
}

/// The media type that a request body must declare.
pub open spec fn octet_stream() -> Seq<char> {
    "application/octet-stream"@
}

/// Whether a `Content-Type` header value names the binary-octet marker.
pub open spec fn names_octet_stream(header: Seq<char>) -> bool {
    same_media_type(header, octet_stream())
}

/// The binary-octet precondition on a request: a `Content-Type` header is
/// present, readable as text, and names `application/octet-stream`.
pub open spec fn content_type_accepted(header: Option<Seq<char>>) -> bool {
    match header {
        Some(h) => names_octet_stream(h),
        None => false,
    }
}

/// The view of an optional header value.
pub open spec fn header_view(header: Option<&str>) -> Option<Seq<char>> {
    match header {
        Some(h) => Some(h@),
        None => None,
    }
}

/// Checks the declared content type of a request. `header` is the value of
/// its `Content-Type` header, or `None` where the header is absent or is not
/// visible ASCII.
pub fn content_type_ok(header: Option<&str>) -> (r: bool)
    ensures
        r == content_type_accepted(header_view(header)),
        header_view(header) == Some("application/octet-stream"@) ==> r,
        header_view(header) == Some(Seq::<char>::empty()) ==> !r,
{
    match header {
        Some(h) => media_types_equal(h, "application/octet-stream"),
        None => false,
    }
}

} // verus!
