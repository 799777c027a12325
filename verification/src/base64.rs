//! Standard base64 (RFC 4648 alphabet, `=` padding), as the sidecar wire
//! format carries packet bytes.

use vstd::prelude::*;
use crate::text::string_push;

verus! {

/// The base64 digit of value `k` (`k < 64`).
pub open spec fn b64_digit(k: int) -> char {
    if k < 26 {
        (65 + k) as char
    } else if k < 52 {
        (97 + (k - 26)) as char
    } else if k < 62 {
        (48 + (k - 52)) as char
    } else if k == 62 {
        '+'
    } else {
        '/'
    }
}

/// The four characters encoding the (up to three) bytes of `b` from `i` on.
pub open spec fn b64_group(b: Seq<u8>, i: int) -> Seq<char> {
    let n = b.len() - i;
    let b0 = b[i] as int;
    let b1 = if n > 1 {
        b[i + 1] as int
    } else {
        0
    };
    let b2 = if n > 2 {
        b[i + 2] as int
    } else {
        0
    };
    seq![
        b64_digit(b0 / 4),
        b64_digit((b0 % 4) * 16 + b1 / 16),
        if n > 1 {
            b64_digit((b1 % 16) * 4 + b2 / 64)
        } else {
            '='
        },
        if n > 2 {
            b64_digit(b2 % 64)
        } else {
            '='
        },
    ]
}

/// The base64 encoding of the bytes of `b` from `i` on, three at a time.
pub open spec fn b64_from(b: Seq<u8>, i: int) -> Seq<char>
    decreases (if i < b.len() {
        b.len() - i
    } else {
        0
    }),
{
    if i < 0 || i >= b.len() {
        Seq::empty()
    } else {
        b64_group(b, i) + b64_from(b, i + 3)
    }
}

/// The base64 encoding of `b`.
pub open spec fn base64_spec(b: Seq<u8>) -> Seq<char> {
    b64_from(b, 0)
}

/// The base64 digit of value `k`.
fn digit(k: u8) -> (r: char)
    requires
        k < 64,
    ensures
        r == b64_digit(k as int),
{
    if k < 26 {
        (65 + k) as char
    } else if k < 52 {
        (97 + (k - 26)) as char
    } else if k < 62 {
        (48 + (k - 52)) as char
    } else if k == 62 {
        '+'
    } else {
        '/'
    }
}

/// Base64-encode `b` with the standard alphabet and `=` padding.
pub fn base64_encode(b: &[u8]) -> (r: String)
    ensures
        r@ == base64_spec(b@),
{
    let mut out = String::new();
    let mut i: usize = 0;
    proof {
        assert(out@ =~= Seq::<char>::empty());
    }
    while i < b.len()
        invariant
            i <= b@.len() || b@.len() == 0,
            i % 3 == 0,
            out@ + b64_from(b@, i as int) == base64_spec(b@),
        decreases b.len() - i,
    {
        let n = b.len() - i;
        let b0 = b[i];
        let b1: u8 = if n > 1 {
            b[i + 1]
        } else {
            0
        };
        let b2: u8 = if n > 2 {
            b[i + 2]
        } else {
            0
        };
        let ghost before = out@;
        string_push(&mut out, digit(b0 / 4));
        string_push(&mut out, digit((b0 % 4) * 16 + b1 / 16));
        if n > 1 {
            string_push(&mut out, digit((b1 % 16) * 4 + b2 / 64));
        } else {
            string_push(&mut out, '=');
        }
        if n > 2 {
            string_push(&mut out, digit(b2 % 64));
        } else {
            string_push(&mut out, '=');
        }
        proof {
            assert(out@ =~= before + b64_group(b@, i as int));
            assert(b64_from(b@, i as int) == b64_group(b@, i as int) + b64_from(
                b@,
                i + 3,
            ));
            assert(before + b64_from(b@, i as int) =~= out@ + b64_from(b@, i + 3));
        }
        if n <= 3 {
            proof {
                assert(b64_from(b@, i + 3) =~= Seq::<char>::empty());
                assert(out@ =~= base64_spec(b@));
            }
            return out;
        }
        i += 3;
    }
    proof {
        assert(out@ =~= base64_spec(b@));
    }
    out
}

} // verus!
