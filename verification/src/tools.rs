//! Small shared helpers: drawing random numeric strings for one-time codes.

use vstd::prelude::*;
use vstd::string::StringExecFns;
use rand::Rng;

verus! {

/// Relies on `rand::Rng::gen_range` over `0..10`: the drawn value lies below
/// ten.  Nothing more is promised of a random value.
#[verifier::external_body]
fn random_digit() -> (r: u8)
    ensures
        r < 10,
{
    rand::thread_rng().gen_range(0..10u8)
}

/// The one-character text of a single decimal digit.
fn digit_str(d: u8) -> (r: &'static str)
    requires
        d < 10,
    ensures
        r@.len() == 1,
        '0' <= r@[0] && r@[0] <= '9',
{
    match d {
        0 => {
            proof {
                reveal_strlit("0");
            }
            "0"
        },
        1 => {
            proof {
                reveal_strlit("1");
            }
            "1"
        },
        2 => {
            proof {
                reveal_strlit("2");
            }
            "2"
        },
        3 => {
            proof {
                reveal_strlit("3");
            }
            "3"
        },
        4 => {
            proof {
                reveal_strlit("4");
            }
            "4"
        },
        5 => {
            proof {
                reveal_strlit("5");
            }
            "5"
        },
        6 => {
            proof {
                reveal_strlit("6");
            }
            "6"
        },
        7 => {
            proof {
                reveal_strlit("7");
            }
            "7"
        },
        8 => {
            proof {
                reveal_strlit("8");
            }
            "8"
        },
        _ => {
            proof {
                reveal_strlit("9");
            }
            "9"
        },
    }
}

/// Draw a string of `size` random decimal digits: the text of a one-time
/// confirmation code.
pub fn generate_string_number(size: u8) -> (r: String)
    ensures
        r@.len() == size as int,
        forall|i: int| 0 <= i < r@.len() ==> '0' <= #[trigger] r@[i] && r@[i] <= '9',
{
    let mut out = String::new();
    let mut k: u8 = 0;
    while k < size
        invariant
            k <= size,
            out@.len() == k as int,
            forall|i: int| 0 <= i < out@.len() ==> '0' <= #[trigger] out@[i] && out@[i] <= '9',
        decreases size - k,
    {
        let d = random_digit();
        let piece = digit_str(d);
        out.append(piece);
        k += 1;
    }
    out
}

} // verus!
