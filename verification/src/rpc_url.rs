//! The address of the RPC node.

use vstd::prelude::*;
use vstd::string::*;
use crate::input::Rejection;
use crate::status::STATUS_RPC_URL_ERROR;
use crate::text::joined;

verus! {

/// What `url::Url::parse` makes of a text: the serialization of the URL, or the text of the error.
pub uninterp spec fn parsed_url(input: Seq<char>) -> Result<Seq<char>, Seq<char>>;

/// `url::Url::parse`, with the URL given by its serialization and the error by its text.
#[verifier::external_body]
pub(crate) fn url_parse(input: &str) -> (r: Result<String, String>)
    ensures
        url_view(r) == parsed_url(input@),
{
    match url::Url::parse(input) {
        Ok(url) => Ok(String::from(url)),
        Err(e) => Err(e.to_string()),
    }
}

/// A parsed address, as the contracts see it.
pub open spec fn url_view(parsed: Result<String, String>) -> Result<Seq<char>, Seq<char>> {
    match parsed {
        Ok(url) => Ok(url@),
        Err(e) => Err(e@),
    }
}

/// What a parsed address comes to for the host: an error as status and log line.
pub fn report_url(parsed: Result<String, String>) -> (r: Result<String, Rejection>)
    ensures
        r is Ok <==> parsed is Ok,
        r matches Ok(url) ==> url@ == parsed->Ok_0@,
        r matches Err(x) ==> x.status == STATUS_RPC_URL_ERROR && x.log@ == "Invalid RPC URL: "@
            + parsed->Err_0@,
{
    match parsed {
        Ok(url) => Ok(url),
        Err(e) => Err(
            Rejection {
                status: STATUS_RPC_URL_ERROR,
                log: joined("Invalid RPC URL: ", e.as_str()),
            },
        ),
    }
}

/// The node's address, normalized, or the reason why it is none.
pub fn parse_rpc_url(input: &str) -> (r: Result<String, Rejection>)
    ensures
        r is Ok <==> parsed_url(input@) is Ok,
        r matches Ok(url) ==> url@ == parsed_url(input@)->Ok_0,
        r matches Err(x) ==> x.status == STATUS_RPC_URL_ERROR && x.log@ == "Invalid RPC URL: "@
            + parsed_url(input@)->Err_0,
{
    report_url(url_parse(input))
}

/// What the contracts see of a parsed address is the text itself, of the address or of the error.
pub proof fn parsed_address_is_seen_as_it_is(url: String, error: String)
    ensures
        url_view(Ok(url)) == Ok::<Seq<char>, Seq<char>>(url@),
        url_view(Err(error)) == Err::<Seq<char>, Seq<char>>(error@),
{
}

} // verus!
