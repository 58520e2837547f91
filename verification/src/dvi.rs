//! The device byte-stream writer.  The classic engine double-buffers 16384
//! bytes and flushes half-buffers to disk as the write pointer crosses each
//! half boundary; only bytes not yet flushed can still be patched by the
//! movement optimizer.  Here the whole stream is kept as one byte vector and
//! `gone` marks the flushed prefix, advancing exactly where the classic
//! buffer swap advanced it; the caller drains the flushed prefix to storage.

use vstd::prelude::*;

verus! {

/// Internal structural impossibilities: the run cannot continue, because
/// list structure or emission state is corrupt.
#[derive(Clone, Copy, Debug, PartialEq, Eq, Structural)]
pub enum ConfusionTag {
    /// A character node stood directly in a vertical list.
    VListChar,
    /// An extension node of an unknown subtype reached emission.
    Extension,
    /// An edge node reached the list reversal engine.
    ReverseEdge,
    /// The direction stack was not clean when a page finished.
    DirStack,
}

/// Fatal conditions: the classic engine aborts the run on each of these.
#[derive(Clone, Copy, Debug, PartialEq, Eq, Structural)]
pub enum Fatal {
    /// The device stream would exceed the signed 32-bit length limit.
    DviLength,
    /// A cursor move or rule extent fell outside the 32-bit device range.
    DviOperand,
    /// Leader tiling was asked to run at a coordinate beyond the engine's
    /// range.
    Coordinate,
    /// An internal consistency check failed.
    Confusion(ConfusionTag),
}

/// Whether appending a byte that brings the stream to length `n` aborts:
/// the classic engine checks the limit at each buffer swap.
pub open spec fn out_fails(n: int) -> bool {
    n % 8192 == 0 && n >= 16384 && n > 0x7FFF_FFFF
}

/// The flushed-prefix mark after the stream has grown to length `n`: the
/// most recent completed half-buffer, and never receding.
pub open spec fn spec_gone_after(g: int, n: int) -> int {
    let f = 8192 * (n / 8192) - 8192;
    if n >= 16384 && f > g {
        f
    } else {
        g
    }
}

pub struct DviFile {
    bytes: Vec<u8>,
    gone: usize,
    /// How much of the flushed prefix the caller has already drained.
    drained: usize,
}

impl DviFile {
    /// The full byte stream written so far.
    pub closed spec fn stream(self) -> Seq<u8> {
        self.bytes@
    }

    /// Length of the prefix that has left the patch window.
    pub closed spec fn gone_spec(self) -> int {
        self.gone as int
    }

    pub closed spec fn drained_spec(self) -> int {
        self.drained as int
    }

    pub closed spec fn wf(self) -> bool {
        &&& self.gone % 8192 == 0
        &&& self.gone <= self.bytes@.len()
        &&& (self.bytes@.len() < 16384 ==> self.gone == 0)
        &&& (self.bytes@.len() >= 16384 ==> self.gone + 8192 >= 8192 * (self.bytes@.len() as int
            / 8192))
        &&& self.drained <= self.gone
        &&& self.bytes@.len() <= 0x7FFF_FFFF
    }

    /// The well-formed stream never exceeds the signed 32-bit limit.
    pub proof fn lemma_stream_len(self)
        requires
            self.wf(),
        ensures
            self.stream().len() <= 0x7FFF_FFFF,
    {
    }

    pub fn new() -> (r: DviFile)
        ensures
            r.wf(),
            r.stream() == Seq::<u8>::empty(),
            r.gone_spec() == 0,
            r.drained_spec() == 0,
    {
        DviFile { bytes: Vec::new(), gone: 0, drained: 0 }
    }

    /// The stream length so far.
    pub fn len(&self) -> (r: usize)
        ensures
            r == self.stream().len(),
    {
        self.bytes.len()
    }

    /// The flushed-prefix length: positions before it cannot be patched.
    pub fn gone_usize(&self) -> (r: usize)
        ensures
            r == self.gone_spec(),
    {
        self.gone
    }

    /// Append one byte; at each half-buffer boundary the classic buffer swap
    /// happens, which advances the flushed prefix and enforces the stream
    /// length limit.
    pub fn dvi_out(&mut self, b: u8) -> (r: Result<(), Fatal>)
        requires
            old(self).wf(),
        ensures
            final(self).wf(),
            final(self).drained_spec() == old(self).drained_spec(),
            r is Err <==> out_fails(old(self).stream().len() as int + 1),
            r is Err ==> r == Err::<(), Fatal>(Fatal::DviLength) && *final(self) == *old(self),
            r is Ok ==> final(self).stream() == old(self).stream().push(b)
                && final(self).gone_spec() == spec_gone_after(
                old(self).gone_spec(),
                old(self).stream().len() as int + 1,
            ),
    {
        let n0 = self.bytes.len();
        if (n0 + 1) % 8192 == 0 && n0 + 1 >= 16384 && n0 + 1 > 0x7FFF_FFFF {
            return Err(Fatal::DviLength);
        }
        self.bytes.push(b);
        let n = self.bytes.len();
        if n % 8192 == 0 && n >= 16384 {
            if n - 8192 > self.gone {
                self.gone = n - 8192;
            }
        }
        Ok(())
    }

    /// Append a run of bytes.  On success the whole run is appended; the
    /// run fails exactly when it would carry the stream to the signed
    /// 32-bit limit, and then a prefix may have been written.
    pub fn dvi_write_all(&mut self, bytes: &Vec<u8>) -> (r: Result<(), Fatal>)
        requires
            old(self).wf(),
        ensures
            final(self).wf(),
            final(self).drained_spec() == old(self).drained_spec(),
            r is Err <==> old(self).stream().len() + bytes@.len() > 0x7FFF_FFFF,
            r is Err ==> r == Err::<(), Fatal>(Fatal::DviLength),
            final(self).stream().len() >= old(self).stream().len(),
            forall|i: int|
                0 <= i < old(self).stream().len() ==> final(self).stream()[i] == old(
                    self,
                ).stream()[i],
            final(self).gone_spec() >= old(self).gone_spec(),
            r is Ok ==> final(self).stream() == old(self).stream() + bytes@
                && final(self).gone_spec() == spec_gone_after(
                old(self).gone_spec(),
                old(self).stream().len() as int + bytes@.len(),
            ),
    {
        let ghost g0 = self.gone_spec();
        let ghost s0 = self.stream();
        let mut i: usize = 0;
        while i < bytes.len()
            invariant
                i <= bytes@.len(),
                self.wf(),
                s0 == old(self).stream(),
                g0 == old(self).gone_spec(),
                self.drained_spec() == old(self).drained_spec(),
                self.stream() == s0 + bytes@.subrange(0, i as int),
                self.stream().len() == s0.len() + i,
                self.gone_spec() == spec_gone_after(g0, s0.len() + i as int),
            decreases bytes@.len() - i,
        {
            match self.dvi_out(bytes[i]) {
                Ok(()) => {},
                Err(e) => {
                    proof {
                        assert(out_fails(s0.len() + i + 1));
                        assert(s0.len() + i + 1 > 0x7FFF_FFFF);
                        assert(i + 1 <= bytes@.len());
                        assert(s0 == old(self).stream());
                        assert(old(self).stream().len() + bytes@.len() > 0x7FFF_FFFF);
                    }
                    return Err(e);
                },
            }
            proof {
                assert(self.stream() =~= s0 + bytes@.subrange(0, i + 1));
            }
            i = i + 1;
        }
        proof {
            assert(bytes@.subrange(0, bytes@.len() as int) =~= bytes@);
        }
        Ok(())
    }

    /// Append the four-byte big-endian two's-complement form of a value.
    pub fn dvi_four(&mut self, x: i64) -> (r: Result<(), Fatal>)
        requires
            old(self).wf(),
            -0x8000_0000 <= x <= 0x7FFF_FFFF,
        ensures
            final(self).wf(),
            final(self).drained_spec() == old(self).drained_spec(),
            r is Err <==> old(self).stream().len() + 4 > 0x7FFF_FFFF,
            r is Err ==> r == Err::<(), Fatal>(Fatal::DviLength),
            r is Ok ==> final(self).stream() == old(self).stream() + four_bytes(x as int)
                && final(self).gone_spec() == spec_gone_after(
                old(self).gone_spec(),
                old(self).stream().len() as int + 4,
            ),
    {
        let u: u32 = if x >= 0 {
            x as u32
        } else {
            (x + 0x1_0000_0000) as u32
        };
        let mut v: Vec<u8> = Vec::new();
        v.push((u / 0x100_0000) as u8);
        v.push(((u / 0x1_0000) % 0x100) as u8);
        v.push(((u / 0x100) % 0x100) as u8);
        v.push((u % 0x100) as u8);
        proof {
            assert(v@ =~= four_bytes(x as int));
        }
        self.dvi_write_all(&v)
    }

    /// Append the two-byte big-endian form of a value.
    pub fn dvi_two(&mut self, s: u16) -> (r: Result<(), Fatal>)
        requires
            old(self).wf(),
        ensures
            final(self).wf(),
            final(self).drained_spec() == old(self).drained_spec(),
            r is Err <==> old(self).stream().len() + 2 > 0x7FFF_FFFF,
            r is Err ==> r == Err::<(), Fatal>(Fatal::DviLength),
            r is Ok ==> final(self).stream() == old(self).stream() + two_bytes(s as int)
                && final(self).gone_spec() == spec_gone_after(
                old(self).gone_spec(),
                old(self).stream().len() as int + 2,
            ),
    {
        let mut v: Vec<u8> = Vec::new();
        v.push((s / 0x100) as u8);
        v.push((s % 0x100) as u8);
        proof {
            assert(v@ =~= two_bytes(s as int));
        }
        self.dvi_write_all(&v)
    }

    /// Close a push/pop pair: when nothing was written since the matching
    /// push, the push byte itself is removed instead of appending a pop.
    pub fn dvi_pop(&mut self, l: usize) -> (r: Result<(), Fatal>)
        requires
            old(self).wf(),
        ensures
            final(self).wf(),
            final(self).drained_spec() == old(self).drained_spec(),
            ({
                let n = old(self).stream().len();
                if l == n && n % 16384 != 0 && old(self).gone_spec() < n {
                    &&& r is Ok
                    &&& final(self).stream() == old(self).stream().drop_last()
                    &&& final(self).gone_spec() == old(self).gone_spec()
                } else {
                    &&& (r is Err <==> out_fails(n as int + 1))
                    &&& (r is Err ==> r == Err::<(), Fatal>(Fatal::DviLength) && *final(self)
                        == *old(self))
                    &&& (r is Ok ==> final(self).stream() == old(self).stream().push(142u8)
                        && final(self).gone_spec() == spec_gone_after(
                        old(self).gone_spec(),
                        n as int + 1,
                    ))
                }
            }),
    {
        let n = self.bytes.len();
        if l == n && n % 16384 != 0 && self.gone < n {
            self.bytes.pop();
            Ok(())
        } else {
            self.dvi_out(142)
        }
    }

    /// Add a delta to a byte still inside the patch window: how the movement
    /// optimizer rewrites an earlier move command's opcode in place.
    pub fn patch_add(&mut self, pos: usize, delta: u8)
        requires
            old(self).wf(),
            old(self).gone_spec() <= pos < old(self).stream().len(),
            old(self).stream()[pos as int] + delta <= 255,
        ensures
            final(self).wf(),
            final(self).stream() == old(self).stream().update(
                pos as int,
                (old(self).stream()[pos as int] + delta) as u8,
            ),
            final(self).gone_spec() == old(self).gone_spec(),
            final(self).drained_spec() == old(self).drained_spec(),
    {
        let b = self.bytes[pos];
        self.bytes.set(pos, b + delta);
    }

    /// Hand out the bytes that have left the patch window and have not been
    /// drained yet; the caller writes them to storage.
    pub fn drain_flushed(&mut self) -> (r: Vec<u8>)
        requires
            old(self).wf(),
        ensures
            final(self).wf(),
            final(self).stream() == old(self).stream(),
            final(self).gone_spec() == old(self).gone_spec(),
            final(self).drained_spec() == old(self).gone_spec(),
            r@ == old(self).stream().subrange(old(self).drained_spec(), old(self).gone_spec()),
    {
        let mut r: Vec<u8> = Vec::new();
        let mut i: usize = self.drained;
        while i < self.gone
            invariant
                self.drained <= i <= self.gone,
                self.gone <= self.bytes@.len(),
                r@ == self.bytes@.subrange(self.drained as int, i as int),
                self == old(self),
            decreases self.gone - i,
        {
            r.push(self.bytes[i]);
            proof {
                assert(r@ =~= self.bytes@.subrange(self.drained as int, i + 1));
            }
            i = i + 1;
        }
        self.drained = self.gone;
        r
    }

    /// Hand out every byte not yet drained; final flush at end of run.
    pub fn drain_rest(&mut self) -> (r: Vec<u8>)
        requires
            old(self).wf(),
        ensures
            final(self).wf(),
            final(self).stream() == old(self).stream(),
            r@ == old(self).stream().subrange(
                old(self).drained_spec(),
                old(self).stream().len() as int,
            ),
    {
        let mut r: Vec<u8> = Vec::new();
        let n = self.bytes.len();
        let mut i: usize = self.drained;
        while i < n
            invariant
                self.drained <= i <= n,
                n == self.bytes@.len(),
                r@ == self.bytes@.subrange(self.drained as int, i as int),
                self == old(self),
            decreases n - i,
        {
            r.push(self.bytes[i]);
            proof {
                assert(r@ =~= self.bytes@.subrange(self.drained as int, i + 1));
            }
            i = i + 1;
        }
        r
    }
}

/// The four-byte big-endian two's-complement encoding of a 32-bit value.
pub open spec fn four_bytes(x: int) -> Seq<u8> {
    let u = if x >= 0 {
        x
    } else {
        x + 0x1_0000_0000
    };
    seq![
        (u / 0x100_0000) as u8,
        ((u / 0x1_0000) % 0x100) as u8,
        ((u / 0x100) % 0x100) as u8,
        (u % 0x100) as u8,
    ]
}

/// The two-byte big-endian encoding of a 16-bit value.
pub open spec fn two_bytes(s: int) -> Seq<u8> {
    seq![(s / 0x100) as u8, (s % 0x100) as u8]
}

} // verus!
