//! Small helpers.
use rand::distr::{Alphanumeric, SampleString};
use uuid::Uuid;
use vstd::prelude::*;

use crate::text::join;

verus! {

/// The service type that streamers announce over multicast DNS.
pub const MDNS_SERVICE_TYPE: &'static str = "_moblink._tcp.local.";

/// Whether a character is an ASCII letter or digit.
pub open spec fn is_ascii_alphanumeric(c: char) -> bool {
    'a' <= c <= 'z' || 'A' <= c <= 'Z' || '0' <= c <= '9'
}

/// How long a random text is.
pub const RANDOM_LENGTH: usize = 64;

/// `SampleString::sample_string` of the rand crate on `Alphanumeric`, with the
/// thread's generator. Which letters and digits come out is left to chance. It
/// panics where no text can be that long.
#[verifier::external_body]
fn random_alphanumeric(length: usize) -> (r: String)
    requires
        length <= isize::MAX,
    ensures
        r@.len() == length,
        forall|i: int| 0 <= i < length ==> is_ascii_alphanumeric(#[trigger] r@[i]),
{
    Alphanumeric.sample_string(&mut rand::rng(), length)
}

/// A text of 64 letters and digits. Which ones is left to chance.
pub fn random_string() -> (r: String)
    ensures
        r@.len() == RANDOM_LENGTH,
        forall|i: int| 0 <= i < RANDOM_LENGTH ==> is_ascii_alphanumeric(#[trigger] r@[i]),
{
    random_alphanumeric(RANDOM_LENGTH)
}

/// Whether a text is a hyphenated UUID in lower case, of version 4 and the
/// usual variant.
pub open spec fn is_uuid_text(text: Seq<char>) -> bool {
    &&& text.len() == 36
    &&& text[14] == '4'
    &&& text[19] == '8' || text[19] == '9' || text[19] == 'a' || text[19] == 'b'
    &&& forall|i: int|
        0 <= i < 36 ==> if i == 8 || i == 13 || i == 18 || i == 23 {
            #[trigger] text[i] == '-'
        } else {
            '0' <= text[i] <= '9' || 'a' <= text[i] <= 'f'
        }
}

/// `Uuid::new_v4` of the uuid crate, in its hyphenated notation. Which UUID
/// comes out is left to chance.
#[verifier::external_body]
pub(crate) fn new_uuid() -> (r: String)
    ensures
        is_uuid_text(r@),
{
    Uuid::new_v4().to_string()
}

/// A command line as it is shown to people.
pub fn format_command(executable: &str, args: &[&str]) -> (r: String)
    ensures
        r@ == executable@ + seq![' '] + crate::text::joined(
            crate::text::slice_texts(args@),
            seq![' '],
        ),
{
    let mut text: String = executable.to_owned();
    text.push(' ');
    proof {
        reveal_strlit(" ");
        assert(" "@ =~= seq![' ']);
        assert(executable@.push(' ') =~= executable@ + seq![' ']);
    }
    text.append(join(args, " ").as_str());
    text
}

/// The host and port to look a host up with. The port does not matter.
pub fn lookup_target(address: &str) -> (r: String)
    ensures
        r@ == address@ + ":9999"@,
{
    let mut text: String = address.to_owned();
    text.append(":9999");
    text
}

/// What a lookup says of a host: its first address, or why there is none.
///
/// `found` holds the addresses in the order of the lookup, or its error.
pub fn resolve_host(address: &str, found: Result<Vec<String>, String>) -> (r: Result<
    String,
    String,
>)
    ensures
        match found {
            Ok(addresses) => if addresses@.len() > 0 {
                r matches Ok(first) && first@ == addresses@[0]@
            } else {
                r matches Err(error) && error@ == "No address found for "@ + address@
            },
            Err(reason) => r matches Err(error) && error@ == "DNS lookup for '"@ + address@
                + "' failed with error "@ + reason@,
        },
{
    match found {
        Ok(addresses) => {
            if addresses.len() > 0 {
                Ok(addresses[0].clone())
            } else {
                let mut error: String = "No address found for ".to_owned();
                error.append(address);
                Err(error)
            }
        },
        Err(reason) => {
            let mut error: String = "DNS lookup for '".to_owned();
            error.append(address);
            error.append("' failed with error ");
            error.append(reason.as_str());
            Err(error)
        },
    }
}

/// A random text has 64 characters.
pub proof fn law_random_length()
    ensures
        RANDOM_LENGTH == 64,
{
}

} // verus!
