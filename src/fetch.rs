use crate::model::{Channel, ChannelView, RawEntry};
use vstd::prelude::*;

verus! {

/// Why a feed document could not be had.
#[derive(Clone, Copy, Debug, PartialEq, Eq, Structural)]
pub enum FetchError {
    /// The transport failed before a response came.
    Network,
    /// The server answered with a status outside 200..=299.
    BadStatus,
    /// The body is not a feed document.
    ParseFailure,
}

/// What the RSS reader makes of a document: `None` where it rejects the bytes.
pub uninterp spec fn rss_channel(bytes: Seq<u8>) -> Option<ChannelView>;

/// Relies on rss::Channel::read_from, which reads the document from the bytes
/// alone, and on the accessors of rss::Channel and rss::Item, which hand the
/// parsed fields back unchanged.
#[verifier::external_body]
fn read_rss(bytes: &Vec<u8>) -> (r: Option<Channel>)
    ensures
        match r {
            Some(c) => rss_channel(bytes@) == Some(c@),
            None => rss_channel(bytes@) is None,
        },
{
    let c = rss::Channel::read_from(&bytes[..]).ok()?;
    let s = |o: Option<&str>| o.map(String::from);
    let entries = c.items().iter().map(
        |i| RawEntry { link: s(i.link()), title: s(i.title()), description: s(i.description()) },
    ).collect();
    let (link, title) = (c.link().to_string(), c.title().to_string());
    Some(Channel { link, title, description: c.description().to_string(), entries })
}

/// The feed document that `bytes` holds.
pub fn parse_channel(bytes: &Vec<u8>) -> (r: Result<Channel, FetchError>)
    ensures
        match r {
            Ok(c) => rss_channel(bytes@) == Some(c@),
            Err(e) => e == FetchError::ParseFailure && rss_channel(bytes@) is None,
        },
{
    match read_rss(bytes) {
        Some(c) => Ok(c),
        None => Err(FetchError::ParseFailure),
    }
}

pub open spec fn status_ok(status: u16) -> bool {
    200 <= status <= 299
}

/// The outcome of a fetch whose response carried `status` and `body`.
pub fn read_response(status: u16, body: &Vec<u8>) -> (r: Result<Channel, FetchError>)
    ensures
        !status_ok(status) ==> r == Err::<Channel, FetchError>(FetchError::BadStatus),
        status_ok(status) ==> match r {
            Ok(c) => rss_channel(body@) == Some(c@),
            Err(e) => e == FetchError::ParseFailure && rss_channel(body@) is None,
        },
{
    if status < 200 || status > 299 {
        Err(FetchError::BadStatus)
    } else {
        parse_channel(body)
    }
}

} // verus!
