//! Hexadecimal framing: every byte becomes two characters of a sixteen-letter
//! alphabet, so that any byte string can stand in a quoted attribute value.
use vstd::prelude::*;

verus! {

/// The digits a framed text is written with, lowest value first.
pub open spec fn hex_alphabet() -> Seq<char> {
    seq!['0', '1', '2', '3', '4', '5', '6', '7', '8', '9', 'a', 'b', 'c', 'd', 'e', 'f']
}

/// The value of the hexadecimal digit with character code `n`; upper-case
/// letters are read as well.
pub open spec fn hex_code_value(n: nat) -> Option<u8> {
    if 48 <= n && n <= 57 {
        Some((n - 48) as u8)
    } else if 97 <= n && n <= 102 {
        Some((n - 87) as u8)
    } else if 65 <= n && n <= 70 {
        Some((n - 55) as u8)
    } else {
        None
    }
}

/// The value of one hexadecimal digit.
pub open spec fn hex_value(c: char) -> Option<u8> {
    hex_code_value(c as nat)
}

/// The framed text of `b`: the high then the low half of each byte.
pub open spec fn frame_spec(b: Seq<u8>) -> Seq<char> {
    Seq::new(
        2 * b.len(),
        |i: int|
            if i % 2 == 0 {
                hex_alphabet()[b[i / 2] as int / 16]
            } else {
                hex_alphabet()[b[i / 2] as int % 16]
            },
    )
}

/// Whether `t` is a well-formed framed text: even length, hexadecimal digits only.
pub open spec fn is_framed(t: Seq<char>) -> bool {
    &&& t.len() % 2 == 0
    &&& forall|i: int| 0 <= i < t.len() ==> (#[trigger] hex_value(t[i])) is Some
}

/// The byte at position `k` of the unframed text `t`.
pub open spec fn unframed_byte(t: Seq<char>, k: int) -> u8 {
    (hex_value(t[2 * k])->0 * 16 + hex_value(t[2 * k + 1])->0) as u8
}

/// The bytes that a framed text stands for, or `None` if it is malformed.
pub open spec fn unframe_spec(t: Seq<char>) -> Option<Seq<u8>> {
    if is_framed(t) {
        Some(Seq::new(t.len() / 2, |k: int| unframed_byte(t, k)))
    } else {
        None
    }
}

proof fn lemma_hex_digit_value(d: int)
    requires
        0 <= d < 16,
    ensures
        hex_value(hex_alphabet()[d]) == Some(d as u8),
{
    assert(hex_alphabet()[0] == '0');
    assert(hex_alphabet()[1] == '1');
    assert(hex_alphabet()[2] == '2');
    assert(hex_alphabet()[3] == '3');
    assert(hex_alphabet()[4] == '4');
    assert(hex_alphabet()[5] == '5');
    assert(hex_alphabet()[6] == '6');
    assert(hex_alphabet()[7] == '7');
    assert(hex_alphabet()[8] == '8');
    assert(hex_alphabet()[9] == '9');
    assert(hex_alphabet()[10] == 'a');
    assert(hex_alphabet()[11] == 'b');
    assert(hex_alphabet()[12] == 'c');
    assert(hex_alphabet()[13] == 'd');
    assert(hex_alphabet()[14] == 'e');
    assert(hex_alphabet()[15] == 'f');
}

/// Framing is undone by unframing, and doubles the length.
pub proof fn lemma_frame_round_trip(b: Seq<u8>)
    ensures
        frame_spec(b).len() == 2 * b.len(),
        is_framed(frame_spec(b)),
        unframe_spec(frame_spec(b)) == Some(b),
{
    let t = frame_spec(b);
    assert forall|i: int| 0 <= i < t.len() implies (#[trigger] hex_value(t[i])) is Some by {
        let x = b[i / 2] as int;
        if i % 2 == 0 {
            lemma_hex_digit_value(x / 16);
        } else {
            lemma_hex_digit_value(x % 16);
        }
    }
    assert forall|k: int| 0 <= k < b.len() implies unframed_byte(t, k) == b[k] by {
        let x = b[k] as int;
        assert((2 * k) / 2 == k);
        assert((2 * k + 1) / 2 == k);
        assert((2 * k) % 2 == 0);
        assert((2 * k + 1) % 2 == 1);
        lemma_hex_digit_value(x / 16);
        lemma_hex_digit_value(x % 16);
        assert(t[2 * k] == hex_alphabet()[x / 16]);
        assert(t[2 * k + 1] == hex_alphabet()[x % 16]);
        assert((x / 16) * 16 + x % 16 == x);
    }
    assert(Seq::new(t.len() / 2, |k: int| unframed_byte(t, k)) =~= b);
}

/// Writes `b` as hexadecimal text, two lower-case digits per byte.
pub fn frame(b: &[u8]) -> (r: String)
    ensures
        r@ == frame_spec(b@),
        r@.len() == 2 * b@.len(),
{
    let digits = "0123456789abcdef";
    proof {
        reveal_strlit("0123456789abcdef");
        assert(digits@ =~= hex_alphabet());
    }
    assert(digits.is_ascii());
    let mut r = String::new();
    let mut i: usize = 0;
    while i < b.len()
        invariant
            i <= b@.len(),
            digits@ == hex_alphabet(),
            digits.is_ascii(),
            r@ == frame_spec(b@.subrange(0, i as int)),
        decreases b@.len() - i,
    {
        let hi: usize = (b[i] / 16) as usize;
        let lo: usize = (b[i] % 16) as usize;
        let ghost before = r@;
        r.append(digits.substring_ascii(hi, hi + 1));
        r.append(digits.substring_ascii(lo, lo + 1));
        proof {
            let p = b@.subrange(0, i as int);
            let q = b@.subrange(0, i as int + 1);
            assert forall|k: int| 0 <= k < 2 * q.len() implies #[trigger] frame_spec(q)[k] == r@[k] by {
                if k < 2 * i {
                    assert(k / 2 < i);
                    assert(q[k / 2] == p[k / 2]);
                    assert(frame_spec(p)[k] == before[k]);
                } else if k == 2 * i {
                    assert(k / 2 == i);
                } else {
                    assert(k / 2 == i);
                }
            }
            assert(frame_spec(q) =~= r@);
        }
        i += 1;
    }
    assert(b@.subrange(0, b@.len() as int) =~= b@);
    r
}

proof fn lemma_hex_digit_is_ascii(c: char)
    requires
        hex_value(c) is Some,
    ensures
        '\0' <= c <= '\u{7f}',
{
}

fn digit_value(b: u8) -> (r: Option<u8>)
    ensures
        r == hex_code_value(b as nat),
{
    if 48 <= b && b <= 57 {
        Some(b - 48)
    } else if 97 <= b && b <= 102 {
        Some(b - 87)
    } else if 65 <= b && b <= 70 {
        Some(b - 55)
    } else {
        None
    }
}

/// Reads hexadecimal text back into bytes: `None` exactly when the text has
/// odd length or holds a character that is not a hexadecimal digit.
pub fn unframe(t: &str) -> (r: Option<Vec<u8>>)
    ensures
        r is Some <==> is_framed(t@),
        r matches Some(v) ==> unframe_spec(t@) == Some(v@),
{
    if !t.is_ascii() {
        proof {
            if is_framed(t@) {
                assert forall|i: int| 0 <= i < t@.len() implies '\0' <= #[trigger] t@[i] <= '\u{7f}' by {
                    lemma_hex_digit_is_ascii(t@[i]);
                }
            }
        }
        return None;
    }
    let n = t.unicode_len();
    if n % 2 != 0 {
        return None;
    }
    let mut out: Vec<u8> = Vec::new();
    let mut i: usize = 0;
    while i < n
        invariant
            n == t@.len(),
            n % 2 == 0,
            i % 2 == 0,
            i <= n,
            t.is_ascii(),
            forall|j: int| 0 <= j < i ==> (#[trigger] hex_value(t@[j])) is Some,
            out@ == Seq::new(i as nat / 2, |k: int| unframed_byte(t@, k)),
        decreases n - i,
    {
        let c1 = t.get_ascii(i);
        let c2 = t.get_ascii(i + 1);
        proof {
            assert(t@[i as int] as nat == c1 as nat);
            assert(t@[i + 1] as nat == c2 as nat);
        }
        let d1 = digit_value(c1);
        let d2 = digit_value(c2);
        match (d1, d2) {
            (Some(h), Some(l)) => {
                let ghost before = out@;
                out.push(h * 16 + l);
                proof {
                    assert((i + 2) as nat / 2 == i as nat / 2 + 1);
                    assert(2 * (i as int / 2) == i);
                    assert(out@ =~= Seq::new((i + 2) as nat / 2, |k: int| unframed_byte(t@, k)));
                }
                i += 2;
            },
            _ => {
                proof {
                    assert(d1 == hex_value(t@[i as int]));
                    assert(d2 == hex_value(t@[i + 1]));
                    if d1 is None {
                        assert(hex_value(t@[i as int]) is None);
                    } else {
                        assert(hex_value(t@[i + 1]) is None);
                    }
                }
                return None;
            },
        }
    }
    proof {
        assert(out@ =~= Seq::new(t@.len() / 2, |k: int| unframed_byte(t@, k)));
    }
    Some(out)
}

} // verus!
