//! Showing a rendered invoice: the PDF goes into the page as a data URL.
use vstd::prelude::*;
use crate::outside::{base64_encode, base64_standard};
use crate::text::copy_str;

verus! {

/// The data URL of a PDF document: its bytes in standard base64 after the PDF media type.
pub open spec fn pdf_data_url_spec(pdf: Seq<u8>) -> Seq<char> {
    "data:application/pdf;base64,"@ + base64_standard(pdf)
}

/// The data URL the PDF viewer frame shows for a document.
pub fn pdf_data_url(pdf: &[u8]) -> (r: String)
    requires
        pdf@.len() <= 3 * (usize::MAX / 4),
    ensures
        r@ == pdf_data_url_spec(pdf@),
{
    let encoded = base64_encode(pdf);
    let mut url = copy_str("data:application/pdf;base64,");
    url.append(encoded.as_str());
    url
}

} // verus!
