//! Base URL derivation for the shared-album API.
//!
//! The service shards albums over forty numbered hosts. The shard (the
//! "partition") is a function of the share token's first character alone: the
//! character's base-62 value, taken modulo 40, plus one.

use vstd::prelude::*;
use vstd::string::StrSliceExecFns;
use vstd::string::StringExecFns;
use crate::strutil::spec_digit_char;
use crate::strutil::digit_char;

verus! {

/// Why a base URL could not be derived from a share token.
#[derive(Debug, Clone, Copy, PartialEq, Eq)]
pub enum BaseUrlError {
    /// The token's first character is outside 0-9, A-Z, a-z.
    InvalidBase62Char(char),
    /// The token is empty.
    EmptyToken,
}

/// The user-readable text of a token error.
pub open spec fn spec_base_url_error_message(e: BaseUrlError) -> Seq<char> {
    match e {
        BaseUrlError::InvalidBase62Char(c) => "Invalid base62 character: "@ + seq![c],
        BaseUrlError::EmptyToken => "Empty token provided"@,
    }
}

impl BaseUrlError {
    /// Renders the error as user-readable text.
    pub fn message(&self) -> (r: String)
        ensures
            r@ == spec_base_url_error_message(*self),
    {
        match self {
            BaseUrlError::InvalidBase62Char(c) => {
                let mut s = String::from_str("Invalid base62 character: ");
                s.push(*c);
                proof {
                    assert(s@ =~= "Invalid base62 character: "@ + seq![*c]);
                }
                s
            },
            BaseUrlError::EmptyToken => String::from_str("Empty token provided"),
        }
    }
}

/// Whether `c` is a base-62 digit: 0-9, A-Z or a-z.
pub open spec fn spec_is_base62(c: char) -> bool {
    (48 <= c as int <= 57) || (65 <= c as int <= 90) || (97 <= c as int <= 122)
}

/// The value of a base-62 digit: 0-9 map to 0-9, A-Z to 10-35, a-z to 36-61.
pub open spec fn spec_base62_value(c: char) -> int {
    if 48 <= c as int <= 57 {
        c as int - 48
    } else if 65 <= c as int <= 90 {
        c as int - 65 + 10
    } else {
        c as int - 97 + 36
    }
}

/// The partition for a first character: one plus its base-62 value modulo 40,
/// so always in 1..=40.
pub open spec fn spec_partition(c: char) -> int {
    1 + spec_base62_value(c) % 40
}

/// What partition computation yields on a whole token: the partition of the
/// first character, or the error the token deserves.
pub open spec fn spec_calculate_partition(token: Seq<char>) -> Result<u32, BaseUrlError> {
    if token.len() == 0 {
        Err(BaseUrlError::EmptyToken)
    } else if !spec_is_base62(token[0]) {
        Err(BaseUrlError::InvalidBase62Char(token[0]))
    } else {
        Ok(spec_partition(token[0]) as u32)
    }
}

/// The two-character zero-padded decimal text of a partition in 1..=40.
pub open spec fn spec_two_digits(n: int) -> Seq<char> {
    seq![spec_digit_char(n / 10), spec_digit_char(n % 10)]
}

/// The base URL for a given partition and token:
/// `https://pNN-sharedstreams.icloud.com/{token}/sharedstreams/`.
pub open spec fn spec_base_url(partition: int, token: Seq<char>) -> Seq<char> {
    "https://p"@ + spec_two_digits(partition) + "-sharedstreams.icloud.com/"@ + token
        + "/sharedstreams/"@
}

/// Converts a token character to its base-62 value.
pub fn char_to_base62(c: char) -> (r: Result<u32, BaseUrlError>)
    ensures
        spec_is_base62(c) ==> r == Ok::<u32, BaseUrlError>(spec_base62_value(c) as u32),
        !spec_is_base62(c) ==> r == Err::<u32, BaseUrlError>(BaseUrlError::InvalidBase62Char(c)),
{
    let u = c as u32;
    if 48 <= u && u <= 57 {
        Ok(u - 48)
    } else if 65 <= u && u <= 90 {
        Ok(u - 65 + 10)
    } else if 97 <= u && u <= 122 {
        Ok(u - 97 + 36)
    } else {
        Err(BaseUrlError::InvalidBase62Char(c))
    }
}

/// Computes the server partition from the token's first character.
pub fn calculate_partition(token: &str) -> (r: Result<u32, BaseUrlError>)
    ensures
        r == spec_calculate_partition(token@),
{
    if token.is_empty() {
        return Err(BaseUrlError::EmptyToken);
    }
    let first_char = token.get_char(0);
    let value = char_to_base62(first_char)?;
    Ok(1 + (value % 40))
}

/// Builds the base URL for the shared-album API from the token.
///
/// The URL has the form
/// `https://pNN-sharedstreams.icloud.com/{token}/sharedstreams/`, where `NN`
/// is the zero-padded partition derived from the token's first character.
/// An empty token or one starting outside the base-62 alphabet is rejected.
pub fn get_base_url(token: &str) -> (r: Result<String, BaseUrlError>)
    ensures
        match spec_calculate_partition(token@) {
            Ok(p) => r is Ok && r->Ok_0@ == spec_base_url(p as int, token@),
            Err(e) => r == Err::<String, BaseUrlError>(e),
        },
{
    let partition = calculate_partition(token)?;
    let mut url = String::from_str("https://p");
    url.push(digit_char((partition / 10) as u8));
    url.push(digit_char((partition % 10) as u8));
    url.append("-sharedstreams.icloud.com/");
    url.append(token);
    url.append("/sharedstreams/");
    proof {
        assert(url@ =~= spec_base_url(partition as int, token@));
    }
    Ok(url)
}

/// The partition of every accepted token lies in 1..=40, and tokens that
/// share a first character share a partition.
pub proof fn lemma_partition_first_char(t1: Seq<char>, t2: Seq<char>)
    requires
        spec_calculate_partition(t1) is Ok,
        t2.len() > 0,
        t1.len() > 0,
        t2[0] == t1[0],
    ensures
        1 <= spec_calculate_partition(t1)->Ok_0 <= 40,
        spec_calculate_partition(t2) == spec_calculate_partition(t1),
{
}

} // verus!
