use vstd::prelude::*;

use crate::error::Gdl90Error;

verus! {

/// GDL-90 frame delimiter byte.
pub const FLAG: u8 = 0x7E;

/// Escape introducer byte.
pub const ESCAPE: u8 = 0x7D;

/// What a single byte becomes on the byte-stuffed wire: a flag byte or an
/// escape byte is replaced by a two-byte escape sequence, any other byte is
/// copied unchanged.
pub open spec fn spec_escape_byte(b: u8) -> Seq<u8> {
    if b == FLAG {
        seq![ESCAPE, 0x5Eu8]
    } else if b == ESCAPE {
        seq![ESCAPE, 0x5Du8]
    } else {
        seq![b]
    }
}

/// The byte-stuffed form of `s`.
pub open spec fn spec_escape(s: Seq<u8>) -> Seq<u8>
    decreases s.len(),
{
    if s.len() == 0 {
        Seq::empty()
    } else {
        spec_escape_byte(s[0]) + spec_escape(s.drop_first())
    }
}

/// The unescaped form of `s`, threading the state of the two-state machine:
/// `pending` records that the previous byte was the escape introducer. An
/// invalid escape sequence contributes nothing (the byte is dropped), and a
/// trailing lone escape introducer is dropped as well.
pub open spec fn spec_unescape_state(s: Seq<u8>, pending: bool) -> Seq<u8>
    decreases s.len(),
{
    if s.len() == 0 {
        Seq::empty()
    } else if pending {
        (if s[0] == 0x5E {
            seq![FLAG]
        } else if s[0] == 0x5D {
            seq![ESCAPE]
        } else {
            Seq::<u8>::empty()
        }) + spec_unescape_state(s.drop_first(), false)
    } else if s[0] == ESCAPE {
        spec_unescape_state(s.drop_first(), true)
    } else {
        seq![s[0]] + spec_unescape_state(s.drop_first(), false)
    }
}

/// The unescaped form of `s`, starting outside any escape sequence.
pub open spec fn spec_unescape(s: Seq<u8>) -> Seq<u8> {
    spec_unescape_state(s, false)
}

/// `s` with at most one leading and at most one trailing flag byte removed.
pub open spec fn spec_strip_flags(s: Seq<u8>) -> Seq<u8> {
    let s1 = if s.len() > 0 && s[0] == FLAG {
        s.drop_first()
    } else {
        s
    };
    if s1.len() > 0 && s1.last() == FLAG {
        s1.drop_last()
    } else {
        s1
    }
}

/// Byte-stuffs `buf`: 0x7E becomes [0x7D, 0x5E], 0x7D becomes [0x7D, 0x5D],
/// every other byte is copied.
pub fn escape(buf: &[u8]) -> (r: Vec<u8>)
    ensures
        r@ == spec_escape(buf@),
{
    let mut escaped: Vec<u8> = Vec::new();
    let mut i: usize = 0;
    proof {
        assert(buf@.skip(0) =~= buf@);
        assert(escaped@ + spec_escape(buf@) =~= spec_escape(buf@));
    }
    while i < buf.len()
        invariant
            i <= buf@.len(),
            escaped@ + spec_escape(buf@.skip(i as int)) == spec_escape(buf@),
        decreases buf@.len() - i,
    {
        proof {
            assert(buf@.skip(i as int)[0] == buf@[i as int]);
            assert(buf@.skip(i as int).drop_first() =~= buf@.skip(i + 1));
            assert(spec_escape(buf@.skip(i as int)) == spec_escape_byte(buf@[i as int])
                + spec_escape(buf@.skip(i + 1)));
        }
        let ghost pre = escaped@;
        let b = buf[i];
        if b == FLAG {
            escaped.push(ESCAPE);
            escaped.push(0x5E);
        } else if b == ESCAPE {
            escaped.push(ESCAPE);
            escaped.push(0x5D);
        } else {
            escaped.push(b);
        }
        proof {
            assert(escaped@ =~= pre + spec_escape_byte(buf@[i as int]));
            assert(escaped@ + spec_escape(buf@.skip(i + 1)) =~= pre + (spec_escape_byte(
                buf@[i as int],
            ) + spec_escape(buf@.skip(i + 1))));
        }
        i += 1;
    }
    proof {
        assert(buf@.skip(buf@.len() as int) =~= Seq::<u8>::empty());
        assert(escaped@ + spec_escape(Seq::<u8>::empty()) =~= escaped@);
    }
    escaped
}

/// Reverses byte-stuffing with a two-state machine. In the escaped state,
/// 0x5E yields 0x7E and 0x5D yields 0x7D; any other byte is an invalid
/// escape sequence and is dropped, and decoding continues.
pub fn unescape(buf: &[u8]) -> (r: Vec<u8>)
    ensures
        r@ == spec_unescape(buf@),
{
    let mut unescaped: Vec<u8> = Vec::new();
    let mut pending = false;
    let mut i: usize = 0;
    proof {
        assert(buf@.skip(0) =~= buf@);
        assert(unescaped@ + spec_unescape_state(buf@, false) =~= spec_unescape(buf@));
    }
    while i < buf.len()
        invariant
            i <= buf@.len(),
            unescaped@ + spec_unescape_state(buf@.skip(i as int), pending) == spec_unescape(buf@),
        decreases buf@.len() - i,
    {
        proof {
            assert(buf@.skip(i as int)[0] == buf@[i as int]);
            assert(buf@.skip(i as int).drop_first() =~= buf@.skip(i + 1));
        }
        let ghost pre = unescaped@;
        let ghost was_pending = pending;
        let b = buf[i];
        if pending {
            if b == 0x5E {
                unescaped.push(FLAG);
                proof {
                    assert(unescaped@ =~= pre + seq![FLAG]);
                }
            } else if b == 0x5D {
                unescaped.push(ESCAPE);
                proof {
                    assert(unescaped@ =~= pre + seq![ESCAPE]);
                }
            } else {
                // invalid escape sequence: drop the byte and continue
            }
            pending = false;
        } else if b == ESCAPE {
            pending = true;
        } else {
            unescaped.push(b);
            proof {
                assert(unescaped@ =~= pre + seq![b]);
            }
        }
        proof {
            if was_pending {
                let piece = if b == 0x5E {
                    seq![FLAG]
                } else if b == 0x5D {
                    seq![ESCAPE]
                } else {
                    Seq::<u8>::empty()
                };
                assert(spec_unescape_state(buf@.skip(i as int), true) == piece
                    + spec_unescape_state(buf@.skip(i + 1), false));
                assert(unescaped@ =~= pre + piece);
                assert(unescaped@ + spec_unescape_state(buf@.skip(i + 1), false) =~= pre + (piece
                    + spec_unescape_state(buf@.skip(i + 1), false)));
            } else if b == ESCAPE {
                assert(spec_unescape_state(buf@.skip(i as int), false) == spec_unescape_state(
                    buf@.skip(i + 1),
                    true,
                ));
            } else {
                assert(spec_unescape_state(buf@.skip(i as int), false) == seq![b]
                    + spec_unescape_state(buf@.skip(i + 1), false));
                assert(unescaped@ + spec_unescape_state(buf@.skip(i + 1), false) =~= pre + (seq![b]
                    + spec_unescape_state(buf@.skip(i + 1), false)));
            }
        }
        i += 1;
    }
    proof {
        assert(buf@.skip(buf@.len() as int) =~= Seq::<u8>::empty());
        assert(unescaped@ + spec_unescape_state(Seq::<u8>::empty(), pending) =~= unescaped@);
    }
    unescaped
}

/// Wraps `buf` with a leading and a trailing flag byte.
pub fn frame(buf: &[u8]) -> (r: Vec<u8>)
    ensures
        r@ == seq![FLAG] + buf@ + seq![FLAG],
{
    let mut framed: Vec<u8> = Vec::new();
    framed.push(FLAG);
    let mut i: usize = 0;
    proof {
        assert(framed@ =~= seq![FLAG] + buf@.take(0));
    }
    while i < buf.len()
        invariant
            i <= buf@.len(),
            framed@ == seq![FLAG] + buf@.take(i as int),
        decreases buf@.len() - i,
    {
        framed.push(buf[i]);
        proof {
            assert(framed@ =~= seq![FLAG] + buf@.take(i + 1));
        }
        i += 1;
    }
    framed.push(FLAG);
    proof {
        assert(buf@.take(buf@.len() as int) =~= buf@);
        assert(framed@ =~= seq![FLAG] + buf@ + seq![FLAG]);
    }
    framed
}

/// Tolerantly removes frame delimiters: fails on an empty buffer, and strips
/// a single leading and/or trailing flag byte if present, so a caller may
/// hand over a datagram with or without its flags.
pub fn deframe(buf: &[u8]) -> (r: Result<Vec<u8>, Gdl90Error>)
    ensures
        buf@.len() == 0 ==> r == Err::<Vec<u8>, Gdl90Error>(Gdl90Error::EmptyInput),
        buf@.len() > 0 ==> (r matches Ok(v) && v@ == spec_strip_flags(buf@)),
{
    if buf.len() == 0 {
        return Err(Gdl90Error::EmptyInput);
    }
    let start: usize = if buf[0] == FLAG {
        1
    } else {
        0
    };
    let end: usize = if buf.len() > start && buf[buf.len() - 1] == FLAG {
        buf.len() - 1
    } else {
        buf.len()
    };
    let mut out: Vec<u8> = Vec::new();
    let mut i: usize = start;
    proof {
        assert(out@ =~= buf@.subrange(start as int, start as int));
    }
    while i < end
        invariant
            start <= i <= end <= buf@.len(),
            out@ == buf@.subrange(start as int, i as int),
        decreases end - i,
    {
        out.push(buf[i]);
        proof {
            assert(buf@.subrange(start as int, i + 1) =~= buf@.subrange(start as int, i as int).push(
                buf@[i as int],
            ));
        }
        i += 1;
    }
    proof {
        lemma_strip_flags_subrange(buf@, start as int, end as int);
    }
    Ok(out)
}

/// Characterizes `spec_strip_flags` as a subrange: the helper for `deframe`.
proof fn lemma_strip_flags_subrange(s: Seq<u8>, start: int, end: int)
    requires
        s.len() > 0,
        start == (if s[0] == FLAG {
            1int
        } else {
            0int
        }),
        end == (if s.len() > start && s.last() == FLAG {
            s.len() - 1
        } else {
            s.len() as int
        }),
    ensures
        spec_strip_flags(s) == s.subrange(start, end),
{
    let s1 = if s.len() > 0 && s[0] == FLAG {
        s.drop_first()
    } else {
        s
    };
    assert(s1 =~= s.subrange(start, s.len() as int));
    if s1.len() > 0 && s1.last() == FLAG {
        assert(spec_strip_flags(s) =~= s.subrange(start, end));
    } else {
        assert(spec_strip_flags(s) =~= s.subrange(start, end));
    }
}

/// Unescaping a single escaped byte in front of any tail yields that byte
/// followed by the unescaped tail.
proof fn lemma_unescape_escape_byte(x: u8, t: Seq<u8>)
    ensures
        spec_unescape_state(spec_escape_byte(x) + t, false) == seq![x] + spec_unescape_state(
            t,
            false,
        ),
{
    if x == FLAG {
        let s = spec_escape_byte(x) + t;
        assert(s[0] == ESCAPE);
        assert(s.drop_first() =~= seq![0x5Eu8] + t);
        assert(spec_unescape_state(s, false) == spec_unescape_state(seq![0x5Eu8] + t, true));
        assert((seq![0x5Eu8] + t)[0] == 0x5E);
        assert((seq![0x5Eu8] + t).drop_first() =~= t);
        assert(spec_unescape_state(seq![0x5Eu8] + t, true) == seq![FLAG] + spec_unescape_state(
            t,
            false,
        ));
    } else if x == ESCAPE {
        let s = spec_escape_byte(x) + t;
        assert(s[0] == ESCAPE);
        assert(s.drop_first() =~= seq![0x5Du8] + t);
        assert(spec_unescape_state(s, false) == spec_unescape_state(seq![0x5Du8] + t, true));
        assert((seq![0x5Du8] + t)[0] == 0x5D);
        assert((seq![0x5Du8] + t).drop_first() =~= t);
        assert(spec_unescape_state(seq![0x5Du8] + t, true) == seq![ESCAPE] + spec_unescape_state(
            t,
            false,
        ));
    } else {
        let s = spec_escape_byte(x) + t;
        assert(s[0] == x);
        assert(s.drop_first() =~= t);
        assert(spec_unescape_state(s, false) == seq![x] + spec_unescape_state(t, false));
    }
}

/// Byte-stuffing is lossless: unescaping an escaped buffer returns the
/// buffer, for every byte sequence.
pub proof fn lemma_unescape_escape(b: Seq<u8>)
    ensures
        spec_unescape(spec_escape(b)) == b,
    decreases b.len(),
{
    if b.len() == 0 {
    } else {
        lemma_unescape_escape(b.drop_first());
        lemma_unescape_escape_byte(b[0], spec_escape(b.drop_first()));
        assert(spec_unescape(spec_escape(b)) =~= b);
    }
}

/// Escaping drops nothing: the escaped form is at least as long as the
/// input, so in particular the escaped form of a non-empty buffer is
/// non-empty.
pub proof fn lemma_escape_len(b: Seq<u8>)
    ensures
        spec_escape(b).len() >= b.len(),
    decreases b.len(),
{
    if b.len() == 0 {
    } else {
        lemma_escape_len(b.drop_first());
    }
}

} // verus!
