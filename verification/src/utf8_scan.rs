use vstd::prelude::*;
use vstd::utf8::*;

verus! {

/// How many bytes the well-formed scalar encoding starting at `i`
/// spans; `None` when no well-formed encoding starts there.
fn first_scalar_width(bytes: &[u8], i: usize) -> (r: Option<usize>)
    requires
        i < bytes@.len(),
    ensures
        r matches Some(w) ==> valid_first_scalar(bytes@.subrange(i as int, bytes@.len() as int))
            && w == length_of_first_scalar(bytes@.subrange(i as int, bytes@.len() as int)) && i + w
            <= bytes@.len(),
        r is None ==> !valid_first_scalar(bytes@.subrange(i as int, bytes@.len() as int)),
{
    let ghost sfx = bytes@.subrange(i as int, bytes@.len() as int);
    let n = bytes.len();
    let b0 = bytes[i];
    proof {
        assert(sfx[0] == b0);
    }
    if b0 <= 0x7F {
        proof {
            assert((b0 & 0x7F) <= 0x7F) by (bit_vector);
            assert(valid_first_scalar(sfx));
        }
        Some(1)
    } else if b0 < 0xC0 {
        proof {
            assert(!valid_first_scalar(sfx));
        }
        None
    } else if b0 <= 0xDF {
        if n - i < 2 {
            proof {
                assert(!valid_first_scalar(sfx));
            }
            None
        } else {
            let b1 = bytes[i + 1];
            proof {
                assert(sfx[1] == b1);
            }
            if 0x80 <= b1 && b1 <= 0xBF && 0xC2 <= b0 {
                proof {
                    assert(0x80 <= ((((b0 & 0x1F) as u32) << 6) | ((b1 & 0x3F) as u32))
                        <= 0x7FF) by (bit_vector)
                        requires
                            0xC2 <= b0 <= 0xDF && 0x80 <= b1 <= 0xBF,
                    ;
                    assert(valid_first_scalar(sfx));
                }
                Some(2)
            } else {
                proof {
                    if 0x80 <= b1 && b1 <= 0xBF {
                        assert(((((b0 & 0x1F) as u32) << 6) | ((b1 & 0x3F) as u32))
                            < 0x80) by (bit_vector)
                            requires
                                0xC0 <= b0 <= 0xC1 && 0x80 <= b1 <= 0xBF,
                        ;
                    }
                    assert(!valid_first_scalar(sfx));
                }
                None
            }
        }
    } else if b0 <= 0xEF {
        if n - i < 3 {
            proof {
                assert(!valid_first_scalar(sfx));
            }
            None
        } else {
            let b1 = bytes[i + 1];
            let b2 = bytes[i + 2];
            proof {
                assert(sfx[1] == b1 && sfx[2] == b2);
            }
            let conts = 0x80 <= b1 && b1 <= 0xBF && 0x80 <= b2 && b2 <= 0xBF;
            if conts && (b0 != 0xE0 || 0xA0 <= b1) && !(b0 == 0xED && 0xA0 <= b1) {
                proof {
                    assert(0x800 <= ((((b0 & 0x0F) as u32) << 12) | (((b1 & 0x3F) as u32) << 6) | (
                    (b2 & 0x3F) as u32)) && !(0xD800 <= ((((b0 & 0x0F) as u32) << 12) | (((b1
                        & 0x3F) as u32) << 6) | ((b2 & 0x3F) as u32)) <= 0xDFFF)) by (bit_vector)
                        requires
                            0xE0 <= b0 <= 0xEF && 0x80 <= b1 <= 0xBF && 0x80 <= b2 <= 0xBF && (b0
                                != 0xE0 || 0xA0 <= b1) && !(b0 == 0xED && 0xA0 <= b1),
                    ;
                    assert(valid_first_scalar(sfx));
                }
                Some(3)
            } else {
                proof {
                    if conts && b0 == 0xE0 && b1 < 0xA0 {
                        assert(((((b0 & 0x0F) as u32) << 12) | (((b1 & 0x3F) as u32) << 6) | ((b2
                            & 0x3F) as u32)) < 0x800) by (bit_vector)
                            requires
                                b0 == 0xE0 && 0x80 <= b1 < 0xA0 && 0x80 <= b2 <= 0xBF,
                        ;
                    }
                    if conts && b0 == 0xED && 0xA0 <= b1 {
                        assert(0xD800 <= ((((b0 & 0x0F) as u32) << 12) | (((b1 & 0x3F) as u32) << 6)
                            | ((b2 & 0x3F) as u32)) <= 0xDFFF) by (bit_vector)
                            requires
                                b0 == 0xED && 0xA0 <= b1 <= 0xBF && 0x80 <= b2 <= 0xBF,
                        ;
                    }
                    assert(!valid_first_scalar(sfx));
                }
                None
            }
        }
    } else if b0 <= 0xF7 {
        if n - i < 4 {
            proof {
                assert(!valid_first_scalar(sfx));
            }
            None
        } else {
            let b1 = bytes[i + 1];
            let b2 = bytes[i + 2];
            let b3 = bytes[i + 3];
            proof {
                assert(sfx[1] == b1 && sfx[2] == b2 && sfx[3] == b3);
            }
            let conts = 0x80 <= b1 && b1 <= 0xBF && 0x80 <= b2 && b2 <= 0xBF && 0x80 <= b3 && b3
                <= 0xBF;
            if conts && (b0 != 0xF0 || 0x90 <= b1) && (b0 < 0xF4 || (b0 == 0xF4 && b1 < 0x90)) {
                proof {
                    assert(0x10000 <= ((((b0 & 0x07) as u32) << 18) | (((b1 & 0x3F) as u32) << 12)
                        | (((b2 & 0x3F) as u32) << 6) | ((b3 & 0x3F) as u32))
                        <= 0x10FFFF) by (bit_vector)
                        requires
                            0xF0 <= b0 <= 0xF7 && 0x80 <= b1 <= 0xBF && 0x80 <= b2 <= 0xBF && 0x80
                                <= b3 <= 0xBF && (b0 != 0xF0 || 0x90 <= b1) && (b0 < 0xF4 || (b0
                                == 0xF4 && b1 < 0x90)),
                    ;
                    assert(valid_first_scalar(sfx));
                }
                Some(4)
            } else {
                proof {
                    if conts && b0 == 0xF0 && b1 < 0x90 {
                        assert(((((b0 & 0x07) as u32) << 18) | (((b1 & 0x3F) as u32) << 12) | (((b2
                            & 0x3F) as u32) << 6) | ((b3 & 0x3F) as u32)) < 0x10000) by (bit_vector)
                            requires
                                b0 == 0xF0 && 0x80 <= b1 < 0x90 && 0x80 <= b2 <= 0xBF && 0x80 <= b3
                                    <= 0xBF,
                        ;
                    }
                    if conts && (b0 > 0xF4 || (b0 == 0xF4 && 0x90 <= b1)) {
                        assert(((((b0 & 0x07) as u32) << 18) | (((b1 & 0x3F) as u32) << 12) | (((b2
                            & 0x3F) as u32) << 6) | ((b3 & 0x3F) as u32)) > 0x10FFFF) by (bit_vector)
                            requires
                                0xF4 <= b0 <= 0xF7 && 0x80 <= b1 <= 0xBF && 0x80 <= b2 <= 0xBF
                                    && 0x80 <= b3 <= 0xBF && (b0 > 0xF4 || 0x90 <= b1),
                    ;
                    }
                    assert(!valid_first_scalar(sfx));
                }
                None
            }
        }
    } else {
        proof {
            assert(!valid_first_scalar(sfx));
        }
        None
    }
}

/// Decide, byte by byte, whether `bytes` is a valid UTF-8 encoding.
pub(crate) fn utf8_check(bytes: &[u8]) -> (r: bool)
    ensures
        r == valid_utf8(bytes@),
{
    let n = bytes.len();
    let mut i: usize = 0;
    while i < n
        invariant
            n == bytes@.len(),
            i <= n,
            valid_utf8(bytes@.subrange(0, i as int)),
        decreases n - i,
    {
        match first_scalar_width(bytes, i) {
            Some(w) => {
                proof {
                    assert(partial_valid_utf8(bytes@, i as int));
                    partial_valid_utf8_extend(bytes@, i as int);
                }
                i = i + w;
            },
            None => {
                proof {
                    let sfx = bytes@.subrange(i as int, n as int);
                    assert(!valid_utf8(sfx));
                    partial_valid_partial_invalid_utf8(bytes@, i as int);
                }
                return false;
            },
        }
    }
    proof {
        assert(bytes@.subrange(0, n as int) =~= bytes@);
    }
    true
}

} // verus!
