//! The store key of an indexed item: the hyphenated, lower-case
//! hexadecimal form of its 128-bit UUID (8-4-4-4-12 digits).

use vstd::prelude::*;
use vstd::string::StringExecFns;

verus! {

/// The lower-case hexadecimal digit character of `d`, for `d < 16`.
pub open spec fn hex_char(d: u8) -> char {
    if d == 0 {
        '0'
    } else if d == 1 {
        '1'
    } else if d == 2 {
        '2'
    } else if d == 3 {
        '3'
    } else if d == 4 {
        '4'
    } else if d == 5 {
        '5'
    } else if d == 6 {
        '6'
    } else if d == 7 {
        '7'
    } else if d == 8 {
        '8'
    } else if d == 9 {
        '9'
    } else if d == 10 {
        'a'
    } else if d == 11 {
        'b'
    } else if d == 12 {
        'c'
    } else if d == 13 {
        'd'
    } else if d == 14 {
        'e'
    } else {
        'f'
    }
}

/// The `k`-th nibble of `id`, counted from the most significant end,
/// for `0 <= k < 32`.
pub open spec fn nibble(id: u128, k: int) -> u8 {
    (((id >> (((31 - k) * 4) as u128)) & 0xf) as u8)
}

/// Which nibble the hyphenated form shows at a non-hyphen position `i`.
pub open spec fn nib_of(i: int) -> int {
    if i < 8 {
        i
    } else if i < 13 {
        i - 1
    } else if i < 18 {
        i - 2
    } else if i < 23 {
        i - 3
    } else {
        i - 4
    }
}

/// The character at position `i` of the hyphenated form of `id`.
pub open spec fn uuid_char(id: u128, i: int) -> char {
    if i == 8 || i == 13 || i == 18 || i == 23 {
        '-'
    } else {
        hex_char(nibble(id, nib_of(i)))
    }
}

/// The hyphenated lower-case hexadecimal form of `id`: 36 characters,
/// hyphens after the 8th, 12th, 16th and 20th digit.
pub open spec fn uuid_chars(id: u128) -> Seq<char> {
    Seq::new(36, |i: int| uuid_char(id, i))
}


proof fn lemma_mask_small(x: u128)
    ensures
        x & 0xf < 16,
{
    assert(x & 0xf < 16) by (bit_vector);
}

proof fn lemma_hex_char_injective(d1: u8, d2: u8)
    requires
        d1 < 16,
        d2 < 16,
        hex_char(d1) == hex_char(d2),
    ensures
        d1 == d2,
{
}

proof fn lemma_nibble_eq(a: u128, b: u128, k: int)
    requires
        0 <= k < 32,
        nibble(a, k) == nibble(b, k),
    ensures
        (a >> (((31 - k) * 4) as u128)) & 0xf == (b >> (((31 - k) * 4) as u128)) & 0xf,
{
    lemma_mask_small(a >> (((31 - k) * 4) as u128));
    lemma_mask_small(b >> (((31 - k) * 4) as u128));
}

proof fn lemma_nibbles_determine(a: u128, b: u128)
    requires
        forall|k: int| 0 <= k < 32 ==> #[trigger] nibble(a, k) == nibble(b, k),
    ensures
        a == b,
{
    lemma_nibble_eq(a, b, 0);
    lemma_nibble_eq(a, b, 1);
    lemma_nibble_eq(a, b, 2);
    lemma_nibble_eq(a, b, 3);
    lemma_nibble_eq(a, b, 4);
    lemma_nibble_eq(a, b, 5);
    lemma_nibble_eq(a, b, 6);
    lemma_nibble_eq(a, b, 7);
    lemma_nibble_eq(a, b, 8);
    lemma_nibble_eq(a, b, 9);
    lemma_nibble_eq(a, b, 10);
    lemma_nibble_eq(a, b, 11);
    lemma_nibble_eq(a, b, 12);
    lemma_nibble_eq(a, b, 13);
    lemma_nibble_eq(a, b, 14);
    lemma_nibble_eq(a, b, 15);
    lemma_nibble_eq(a, b, 16);
    lemma_nibble_eq(a, b, 17);
    lemma_nibble_eq(a, b, 18);
    lemma_nibble_eq(a, b, 19);
    lemma_nibble_eq(a, b, 20);
    lemma_nibble_eq(a, b, 21);
    lemma_nibble_eq(a, b, 22);
    lemma_nibble_eq(a, b, 23);
    lemma_nibble_eq(a, b, 24);
    lemma_nibble_eq(a, b, 25);
    lemma_nibble_eq(a, b, 26);
    lemma_nibble_eq(a, b, 27);
    lemma_nibble_eq(a, b, 28);
    lemma_nibble_eq(a, b, 29);
    lemma_nibble_eq(a, b, 30);
    lemma_nibble_eq(a, b, 31);
    assert((true
        && (a >> 124) & 0xf == (b >> 124) & 0xf
        && (a >> 120) & 0xf == (b >> 120) & 0xf
        && (a >> 116) & 0xf == (b >> 116) & 0xf
        && (a >> 112) & 0xf == (b >> 112) & 0xf
        && (a >> 108) & 0xf == (b >> 108) & 0xf
        && (a >> 104) & 0xf == (b >> 104) & 0xf
        && (a >> 100) & 0xf == (b >> 100) & 0xf
        && (a >> 96) & 0xf == (b >> 96) & 0xf
        && (a >> 92) & 0xf == (b >> 92) & 0xf
        && (a >> 88) & 0xf == (b >> 88) & 0xf
        && (a >> 84) & 0xf == (b >> 84) & 0xf
        && (a >> 80) & 0xf == (b >> 80) & 0xf
        && (a >> 76) & 0xf == (b >> 76) & 0xf
        && (a >> 72) & 0xf == (b >> 72) & 0xf
        && (a >> 68) & 0xf == (b >> 68) & 0xf
        && (a >> 64) & 0xf == (b >> 64) & 0xf
        && (a >> 60) & 0xf == (b >> 60) & 0xf
        && (a >> 56) & 0xf == (b >> 56) & 0xf
        && (a >> 52) & 0xf == (b >> 52) & 0xf
        && (a >> 48) & 0xf == (b >> 48) & 0xf
        && (a >> 44) & 0xf == (b >> 44) & 0xf
        && (a >> 40) & 0xf == (b >> 40) & 0xf
        && (a >> 36) & 0xf == (b >> 36) & 0xf
        && (a >> 32) & 0xf == (b >> 32) & 0xf
        && (a >> 28) & 0xf == (b >> 28) & 0xf
        && (a >> 24) & 0xf == (b >> 24) & 0xf
        && (a >> 20) & 0xf == (b >> 20) & 0xf
        && (a >> 16) & 0xf == (b >> 16) & 0xf
        && (a >> 12) & 0xf == (b >> 12) & 0xf
        && (a >> 8) & 0xf == (b >> 8) & 0xf
        && (a >> 4) & 0xf == (b >> 4) & 0xf
        && (a >> 0) & 0xf == (b >> 0) & 0xf) ==> a == b) by (bit_vector);
}

/// The hyphenated form is injective: distinct identifiers have distinct
/// store keys, so indexing one item never overwrites another item's
/// point.
pub proof fn lemma_uuid_chars_injective(a: u128, b: u128)
    requires
        uuid_chars(a) == uuid_chars(b),
    ensures
        a == b,
{
    assert forall|k: int| 0 <= k < 32 implies #[trigger] nibble(a, k) == nibble(b, k) by {
        let p: int = if k < 8 {
            k
        } else if k < 12 {
            k + 1
        } else if k < 16 {
            k + 2
        } else if k < 20 {
            k + 3
        } else {
            k + 4
        };
        assert(uuid_chars(a)[p] == uuid_chars(b)[p]);
        assert(nib_of(p) == k);
        assert(uuid_chars(a)[p] == hex_char(nibble(a, k)));
        assert(uuid_chars(b)[p] == hex_char(nibble(b, k)));
        lemma_mask_small(a >> (((31 - k) * 4) as u128));
        lemma_mask_small(b >> (((31 - k) * 4) as u128));
        lemma_hex_char_injective(nibble(a, k), nibble(b, k));
    }
    lemma_nibbles_determine(a, b);
}

fn hex_char_str(d: u8) -> (r: &'static str)
    requires
        d < 16,
    ensures
        r@.len() == 1,
        r@[0] == hex_char(d),
{
    match d {
        0 => {
            proof {
                reveal_strlit("0");
            }
            "0"
        },
        1 => {
            proof {
                reveal_strlit("1");
            }
            "1"
        },
        2 => {
            proof {
                reveal_strlit("2");
            }
            "2"
        },
        3 => {
            proof {
                reveal_strlit("3");
            }
            "3"
        },
        4 => {
            proof {
                reveal_strlit("4");
            }
            "4"
        },
        5 => {
            proof {
                reveal_strlit("5");
            }
            "5"
        },
        6 => {
            proof {
                reveal_strlit("6");
            }
            "6"
        },
        7 => {
            proof {
                reveal_strlit("7");
            }
            "7"
        },
        8 => {
            proof {
                reveal_strlit("8");
            }
            "8"
        },
        9 => {
            proof {
                reveal_strlit("9");
            }
            "9"
        },
        10 => {
            proof {
                reveal_strlit("a");
            }
            "a"
        },
        11 => {
            proof {
                reveal_strlit("b");
            }
            "b"
        },
        12 => {
            proof {
                reveal_strlit("c");
            }
            "c"
        },
        13 => {
            proof {
                reveal_strlit("d");
            }
            "d"
        },
        14 => {
            proof {
                reveal_strlit("e");
            }
            "e"
        },
        _ => {
            proof {
                reveal_strlit("f");
            }
            "f"
        },
    }
}

/// Formats `id` as its hyphenated lower-case hexadecimal form, the store
/// key under which an item's point is written.
pub fn uuid_hyphenated(id: u128) -> (r: String)
    ensures
        r@ == uuid_chars(id),
        r@.len() == 36,
{
    let mut s = String::new();
    let mut i: usize = 0;
    while i < 36
        invariant
            0 <= i <= 36,
            s@ == uuid_chars(id).take(i as int),
        decreases 36 - i,
    {
        if i == 8 || i == 13 || i == 18 || i == 23 {
            proof {
                reveal_strlit("-");
            }
            s.append("-");
        } else {
            let k: u128 = if i < 8 {
                i as u128
            } else if i < 13 {
                (i - 1) as u128
            } else if i < 18 {
                (i - 2) as u128
            } else {
                if i < 23 {
                    (i - 3) as u128
                } else {
                    (i - 4) as u128
                }
            };
            let shift: u128 = (31 - k) * 4;
            let d: u8 = ((id >> shift) & 0xf) as u8;
            proof {
                assert((id >> shift) & 0xf < 16) by (bit_vector);
                assert(k as int == nib_of(i as int));
                assert(d == nibble(id, k as int));
            }
            s.append(hex_char_str(d));
        }
        proof {
            assert(uuid_chars(id).take(i + 1) =~= uuid_chars(id).take(i as int).push(
                uuid_char(id, i as int),
            ));
            assert(s@ =~= uuid_chars(id).take(i + 1));
        }
        i += 1;
    }
    proof {
        assert(uuid_chars(id).take(36) =~= uuid_chars(id));
    }
    s
}

} // verus!
