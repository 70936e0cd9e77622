use vstd::prelude::*;
use vstd::string::StrSliceExecFns;

verus! {

pub open spec fn is_hex_digit(c: char) -> bool {
    ('0' as int <= c as int && c as int <= '9' as int)
    || ('a' as int <= c as int && c as int <= 'f' as int)
    || ('A' as int <= c as int && c as int <= 'F' as int)
}

pub open spec fn hex_digit_val(c: char) -> nat {
    if '0' as int <= c as int && c as int <= '9' as int {
        (c as int - '0' as int) as nat
    } else if 'a' as int <= c as int && c as int <= 'f' as int {
        (c as int - 'a' as int + 10) as nat
    } else if 'A' as int <= c as int && c as int <= 'F' as int {
        (c as int - 'A' as int + 10) as nat
    } else {
        0
    }
}

/// A well-formed hexadecimal rendering of bytes: an even number of digits.
pub open spec fn valid_hex(s: Seq<char>) -> bool {
    s.len() % 2 == 0 && forall|i: int| 0 <= i < s.len() ==> is_hex_digit(#[trigger] s[i])
}

pub open spec fn hex_byte(hi: char, lo: char) -> u8 {
    (hex_digit_val(hi) * 16 + hex_digit_val(lo)) as u8
}

/// The bytes a hexadecimal string denotes, two digits per byte.
pub open spec fn hex_bytes(s: Seq<char>) -> Seq<u8> {
    Seq::new((s.len() / 2) as nat, |i: int| hex_byte(s[2 * i], s[2 * i + 1]))
}

fn hex_digit(c: char) -> (r: Option<u8>)
    ensures
        match r {
            Some(v) => is_hex_digit(c) && v == hex_digit_val(c) && v < 16,
            None => !is_hex_digit(c),
        },
{
    let u = c as u32;
    if 48 <= u && u <= 57 {
        Some((u - 48) as u8)
    } else if 97 <= u && u <= 102 {
        Some((u - 97 + 10) as u8)
    } else if 65 <= u && u <= 70 {
        Some((u - 65 + 10) as u8)
    } else {
        None
    }
}

/// Decode a hexadecimal string to bytes; `None` exactly when the string is
/// not a well-formed even-length string of hex digits.
pub fn hex_decode(s: &str) -> (r: Option<Vec<u8>>)
    ensures
        match r {
            Some(v) => valid_hex(s@) && v@ == hex_bytes(s@),
            None => !valid_hex(s@),
        },
{
    let n = s.unicode_len();
    if n % 2 != 0 {
        return None;
    }
    let mut out: Vec<u8> = Vec::new();
    let mut i: usize = 0;
    while i < n
        invariant
            i <= n,
            i % 2 == 0,
            n % 2 == 0,
            n == s@.len(),
            forall|j: int| 0 <= j < i ==> is_hex_digit(#[trigger] s@[j]),
            out@.len() == i / 2,
            forall|k: int| 0 <= k < i / 2 ==> out@[k] == hex_byte(s@[2 * k], s@[2 * k + 1]),
        decreases n - i,
    {
        let hi = s.get_char(i);
        let lo = s.get_char(i + 1);
        let h = match hex_digit(hi) {
            Some(v) => v,
            None => {
                proof {
                    assert(!is_hex_digit(s@[i as int]));
                }
                return None;
            },
        };
        let l = match hex_digit(lo) {
            Some(v) => v,
            None => {
                proof {
                    assert(!is_hex_digit(s@[i as int + 1]));
                }
                return None;
            },
        };
        out.push(h * 16 + l);
        i += 2;
    }
    proof {
        assert(out@ =~= hex_bytes(s@));
    }
    Some(out)
}

} // verus!
