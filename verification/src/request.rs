//! Building the request URL for the remote timing service.

use vstd::prelude::*;
use vstd::string::StringExecFns;

use crate::date::Date;
use crate::date::date_text;
use crate::date::format_date;

verus! {

/// The exact URL template the remote service expects: the base path, the
/// date as `DD-MM-YYYY`, then the latitude, longitude and calculation
/// method as query parameters, in that order. The coordinates are passed
/// through verbatim, never validated here.
pub open spec fn request_url_text(d: Date, latitude: Seq<char>, longitude: Seq<char>) -> Seq<
    char,
> {
    "http://api.aladhan.com/v1/timings/"@ + date_text(d) + "?latitude="@ + latitude
        + "&longitude="@ + longitude + "&method=2"@
}

/// Assembles the request URL for one date and coordinate pair.
pub fn build_request_url(date: &Date, latitude: &str, longitude: &str) -> (r: String)
    ensures
        r@ == request_url_text(*date, latitude@, longitude@),
{
    let mut s = String::from_str("http://api.aladhan.com/v1/timings/");
    let d = format_date(date);
    s.append(d.as_str());
    s.append("?latitude=");
    s.append(latitude);
    s.append("&longitude=");
    s.append(longitude);
    s.append("&method=2");
    proof {
        assert(s@ =~= request_url_text(*date, latitude@, longitude@));
    }
    s
}

} // verus!
