//! The certificate text that comes percent-encoded in a header.

use crate::digits::{hex_value, read_hex_digit};
use crate::text::{chars_of, remove_all, split, split_at_all, text_of, without};
use vstd::prelude::*;

verus! {

/// `s` with every `%` and its two hexadecimal digits replaced by the character with that
/// code; nothing where a `%` is not followed by two such digits.
pub open spec fn percent_decoded(s: Seq<char>) -> Option<Seq<char>>
    decreases s.len(),
{
    if s.len() == 0 {
        Some(s)
    } else if s[0] != '%' {
        match percent_decoded(s.skip(1)) {
            Some(rest) => Some(seq![s[0]] + rest),
            None => None,
        }
    } else if s.len() >= 3 {
        match (hex_value(s[1]), hex_value(s[2]), percent_decoded(s.skip(3))) {
            (Some(high), Some(low), Some(rest)) => Some(seq![(16 * high + low) as char] + rest),
            _ => None,
        }
    } else {
        None
    }
}

/// Why no signing certificate could be taken from a header.
#[derive(Clone, Copy, Debug, PartialEq, Eq, Structural)]
pub enum CertError {
    /// A `%` is not followed by two hexadecimal digits.
    Encoding,
    /// The text has no third piece between its dashes.
    Missing,
}

/// The signing certificate in a percent-encoded chain of PEM certificates: the encoded line
/// ends are dropped, the rest is decoded, and the body of the first certificate is the third
/// of the pieces between the rows of five dashes.
pub open spec fn signing_cert(chain: Seq<char>) -> Result<Seq<char>, CertError> {
    match percent_decoded(without(chain, "%0A"@)) {
        None => Err(CertError::Encoding),
        Some(pem) => {
            let pieces = split(pem, "-----"@);
            if pieces.len() < 3 {
                Err(CertError::Missing)
            } else {
                Ok(pieces[2])
            }
        },
    }
}

/// Decodes percent-encoded text, as [`percent_decoded`] says.
pub fn percent_decode(orig: &Vec<char>) -> (decoded: Option<Vec<char>>)
    ensures
        match decoded {
            Some(d) => percent_decoded(orig@) == Some(d@),
            None => percent_decoded(orig@) is None,
        },
{
    let mut out: Vec<char> = Vec::new();
    let mut i: usize = 0;
    assert(orig@.skip(0) == orig@);
    assert forall|t: Seq<char>| #[trigger] (out@ + t) == t by {}
    while i < orig.len()
        invariant
            i <= orig@.len(),
            percent_decoded(orig@) == match percent_decoded(orig@.skip(i as int)) {
                Some(rest) => Some(out@ + rest),
                None => None,
            },
        decreases orig@.len() - i,
    {
        let ghost tail = orig@.skip(i as int);
        let ghost done = out@;
        let c: char = orig[i];
        if c != '%' {
            out.push(c);
            proof {
                assert(tail.skip(1) == orig@.skip(i + 1));
                assert forall|t: Seq<char>| #[trigger] (out@ + t) == done + (seq![c] + t) by {
                    assert(out@ + t =~= done + (seq![c] + t));
                }
            }
            i += 1;
        } else {
            if orig.len() - i < 3 {
                return None;
            }
            let high = match read_hex_digit(orig[i + 1]) {
                Some(d) => d,
                None => {
                    return None;
                },
            };
            let low = match read_hex_digit(orig[i + 2]) {
                Some(d) => d,
                None => {
                    return None;
                },
            };
            let decoded: char = (16 * high + low) as char;
            out.push(decoded);
            proof {
                assert(tail.skip(3) == orig@.skip(i + 3));
                assert forall|t: Seq<char>| #[trigger] (out@ + t) == done + (seq![decoded] + t) by {
                    assert(out@ + t =~= done + (seq![decoded] + t));
                }
            }
            i += 3;
        }
    }
    assert(orig@.skip(i as int) == Seq::<char>::empty());
    assert(out@ + Seq::<char>::empty() == out@);
    Some(out)
}

/// Takes the signing certificate from a header, as [`signing_cert`] says.
pub fn find_signing_cert(chain: &str) -> (cert: Result<String, CertError>)
    ensures
        match cert {
            Ok(c) => signing_cert(chain@) == Ok::<Seq<char>, CertError>(c@),
            Err(e) => signing_cert(chain@) == Err::<Seq<char>, CertError>(e),
        },
{
    proof {
        reveal_strlit("%0A");
        reveal_strlit("-----");
    }
    let joined = remove_all(&chars_of(chain), &chars_of("%0A"));
    let pem = match percent_decode(&joined) {
        Some(p) => p,
        None => {
            return Err(CertError::Encoding);
        },
    };
    let pieces = split_at_all(&pem, &chars_of("-----"));
    if pieces.len() < 3 {
        Err(CertError::Missing)
    } else {
        let cert = text_of(&pieces[2]);
        assert(pieces.deep_view()[2] == cert@);
        Ok(cert)
    }
}

} // verus!
