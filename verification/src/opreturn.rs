//! Verified counting of the bytes pushed by an OP_RETURN script.
//!
//! Only the payload bytes of data-push instructions count; opcodes and
//! push-length prefixes do not.  The walk mirrors script instruction
//! decoding: a truncated push ends the walk, and what was pushed before it
//! still counts.

use vstd::prelude::*;

verus! {

/// Total bytes pushed by the script's instructions, walking pushes of the
/// direct form (opcodes 1 to 75) and the three OP_PUSHDATA forms, stopping
/// at a truncated push.
pub open spec fn spec_pushed_bytes(s: Seq<u8>) -> int
    decreases s.len(),
{
    if s.len() == 0 {
        0
    } else {
        let b = s[0];
        if b <= 75 {
            if s.len() - 1 >= b {
                b + spec_pushed_bytes(s.skip(1 + b as int))
            } else {
                0
            }
        } else if b == 0x4c {
            if s.len() >= 2 && s.len() - 2 >= s[1] {
                s[1] + spec_pushed_bytes(s.skip(2 + s[1] as int))
            } else {
                0
            }
        } else if b == 0x4d {
            if s.len() >= 3 && s.len() - 3 >= pushdata2_len(s) {
                pushdata2_len(s) + spec_pushed_bytes(s.skip(3 + pushdata2_len(s)))
            } else {
                0
            }
        } else if b == 0x4e {
            if s.len() >= 5 && s.len() - 5 >= pushdata4_len(s) {
                pushdata4_len(s) + spec_pushed_bytes(s.skip(5 + pushdata4_len(s)))
            } else {
                0
            }
        } else {
            spec_pushed_bytes(s.skip(1))
        }
    }
}

/// The little-endian two-byte length after an OP_PUSHDATA2.
pub open spec fn pushdata2_len(s: Seq<u8>) -> int {
    s[1] + s[2] * 0x100
}

/// The little-endian four-byte length after an OP_PUSHDATA4.
pub open spec fn pushdata4_len(s: Seq<u8>) -> int {
    s[1] + s[2] * 0x100 + s[3] * 0x1_0000 + s[4] * 0x100_0000
}

/// Total data bytes pushed in an OP_RETURN script; 0 for any other script.
pub open spec fn spec_opreturn_data_size(s: Seq<u8>) -> int {
    if s.len() >= 1 && s[0] == 0x6a {
        spec_pushed_bytes(s)
    } else {
        0
    }
}

/// Pushed bytes never exceed the script length.
pub proof fn lemma_pushed_bytes_le(s: Seq<u8>)
    ensures
        0 <= spec_pushed_bytes(s) <= s.len(),
    decreases s.len(),
{
    if s.len() > 0 {
        let b = s[0];
        if b <= 75 {
            if s.len() - 1 >= b {
                lemma_pushed_bytes_le(s.skip(1 + b as int));
            }
        } else if b == 0x4c {
            if s.len() >= 2 && s.len() - 2 >= s[1] {
                lemma_pushed_bytes_le(s.skip(2 + s[1] as int));
            }
        } else if b == 0x4d {
            if s.len() >= 3 && s.len() - 3 >= pushdata2_len(s) {
                lemma_pushed_bytes_le(s.skip(3 + pushdata2_len(s)));
            }
        } else if b == 0x4e {
            if s.len() >= 5 && s.len() - 5 >= pushdata4_len(s) {
                lemma_pushed_bytes_le(s.skip(5 + pushdata4_len(s)));
            }
        } else {
            lemma_pushed_bytes_le(s.skip(1));
        }
    }
}

/// Executable form of [`spec_opreturn_data_size`].
pub fn opreturn_data_size(script: &Vec<u8>) -> (r: u64)
    ensures
        r == spec_opreturn_data_size(script@),
        r <= script@.len(),
{
    let n = script.len();
    if n == 0 || script[0] != 0x6a {
        proof {
            lemma_pushed_bytes_le(script@);
        }
        return 0;
    }
    let ghost total = spec_pushed_bytes(script@);
    let mut acc: u64 = 0;
    let mut pos: usize = 0;
    proof {
        assert(script@.skip(0) =~= script@);
        lemma_pushed_bytes_le(script@);
    }
    while pos < n
        invariant
            n == script@.len(),
            0 <= pos <= n,
            acc <= pos,
            total == spec_pushed_bytes(script@),
            total == spec_opreturn_data_size(script@),
            acc + spec_pushed_bytes(script@.skip(pos as int)) == total,
        decreases n - pos,
    {
        let ghost rest = script@.skip(pos as int);
        proof {
            lemma_pushed_bytes_le(rest);
        }
        let b = script[pos];
        if b <= 75 {
            let len: usize = b as usize;
            if n - pos - 1 >= len {
                proof {
                    assert(rest.skip(1 + len as int) =~= script@.skip(
                        pos + 1 + len as int,
                    ));
                    lemma_pushed_bytes_le(rest.skip(1 + len as int));
                }
                acc = acc + (len as u64);
                pos = pos + 1 + len;
            } else {
                proof {
                    assert(spec_pushed_bytes(rest) == 0);
                }
                return acc;
            }
        } else if b == 0x4c {
            if n - pos >= 2 {
                let len: usize = script[pos + 1] as usize;
                if n - pos - 2 >= len {
                    proof {
                        assert(rest[1] == script@[pos + 1]);
                        assert(rest.skip(2 + len as int) =~= script@.skip(
                            pos + 2 + len as int,
                        ));
                        lemma_pushed_bytes_le(rest.skip(2 + len as int));
                    }
                    acc = acc + (len as u64);
                    pos = pos + 2 + len;
                } else {
                    proof {
                        assert(rest[1] == script@[pos + 1]);
                        assert(spec_pushed_bytes(rest) == 0);
                    }
                    return acc;
                }
            } else {
                return acc;
            }
        } else if b == 0x4d {
            if n - pos >= 3 {
                let len: usize = (script[pos + 1] as usize) + (script[pos + 2] as usize) * 0x100;
                if n - pos - 3 >= len {
                    proof {
                        assert(rest[1] == script@[pos + 1]);
                        assert(rest[2] == script@[pos + 2]);
                        assert(rest.skip(3 + len as int) =~= script@.skip(
                            pos + 3 + len as int,
                        ));
                        lemma_pushed_bytes_le(rest.skip(3 + len as int));
                    }
                    acc = acc + (len as u64);
                    pos = pos + 3 + len;
                } else {
                    proof {
                        assert(rest[1] == script@[pos + 1]);
                        assert(rest[2] == script@[pos + 2]);
                        assert(spec_pushed_bytes(rest) == 0);
                    }
                    return acc;
                }
            } else {
                return acc;
            }
        } else if b == 0x4e {
            if n - pos >= 5 {
                let len64: u64 = (script[pos + 1] as u64) + (script[pos + 2] as u64) * 0x100
                    + (script[pos + 3] as u64) * 0x1_0000 + (script[pos + 4] as u64) * 0x100_0000;
                if ((n - pos - 5) as u64) >= len64 {
                    let len: usize = len64 as usize;
                    proof {
                        assert(rest[1] == script@[pos + 1]);
                        assert(rest[2] == script@[pos + 2]);
                        assert(rest[3] == script@[pos + 3]);
                        assert(rest[4] == script@[pos + 4]);
                        assert(rest.skip(5 + len as int) =~= script@.skip(
                            pos + 5 + len as int,
                        ));
                        lemma_pushed_bytes_le(rest.skip(5 + len as int));
                    }
                    acc = acc + (len as u64);
                    pos = pos + 5 + len;
                } else {
                    proof {
                        assert(rest[1] == script@[pos + 1]);
                        assert(rest[2] == script@[pos + 2]);
                        assert(rest[3] == script@[pos + 3]);
                        assert(rest[4] == script@[pos + 4]);
                        assert(spec_pushed_bytes(rest) == 0);
                    }
                    return acc;
                }
            } else {
                return acc;
            }
        } else {
            proof {
                assert(rest.skip(1) =~= script@.skip(pos + 1));
            }
            pos = pos + 1;
        }
    }
    proof {
        assert(script@.skip(n as int) =~= Seq::<u8>::empty());
    }
    acc
}

} // verus!
