use vstd::prelude::*;
use vstd::slice::slice_subrange;

use crate::error::DnsPacketError;

verus! {

/// Capacity of a message buffer: the largest classic UDP message.
pub const BUFFER_SIZE: usize = 512;

/// How many compression pointers one name may follow.
pub const MAX_JUMPS: i32 = 5;

/// Where a read of one or more bytes starting at `p` first leaves the buffer.
pub open spec fn fault_pos(p: int) -> int {
    if p >= BUFFER_SIZE {
        p
    } else {
        BUFFER_SIZE as int
    }
}

/// The error for a read that leaves the buffer at `p`.
pub open spec fn out_of_bounds(p: int) -> DnsPacketError {
    DnsPacketError::OutOfBounds(p as usize)
}

/// Big-endian value of two bytes.
pub open spec fn be16(hi: u8, lo: u8) -> u16 {
    ((hi as u16) << 8) | (lo as u16)
}

/// Big-endian value of four bytes.
pub open spec fn be32(b0: u8, b1: u8, b2: u8, b3: u8) -> u32 {
    ((b0 as u32) << 24) | ((b1 as u32) << 16) | ((b2 as u32) << 8) | (b3 as u32)
}

/// Reading a big-endian `u16` at `p`: the outcome and the cursor afterwards.
pub open spec fn u16_at(buf: Seq<u8>, p: int) -> (Result<u16, DnsPacketError>, int) {
    if p + 2 > BUFFER_SIZE {
        (Err(out_of_bounds(fault_pos(p))), fault_pos(p))
    } else {
        (Ok(be16(buf[p], buf[p + 1])), p + 2)
    }
}

/// Reading a big-endian `u32` at `p`: the outcome and the cursor afterwards.
pub open spec fn u32_at(buf: Seq<u8>, p: int) -> (Result<u32, DnsPacketError>, int) {
    if p + 4 > BUFFER_SIZE {
        (Err(out_of_bounds(fault_pos(p))), fault_pos(p))
    } else {
        (Ok(be32(buf[p], buf[p + 1], buf[p + 2], buf[p + 3])), p + 4)
    }
}

/// A length byte whose two top bits are set starts a compression pointer.
pub open spec fn is_pointer(b: u8) -> bool {
    b & 0xC0 == 0xC0
}

/// The absolute offset that a compression pointer `b1 b2` refers to.
pub open spec fn pointer_target(b1: u8, b2: u8) -> int {
    (b1 & 0x3F) as int * 256 + b2 as int
}

/// Walks the encoded name at `pos`, having followed `jumps` pointers so far.
/// `commit` is where the cursor was left by the first pointer, if one was
/// followed. The result holds how the walk ended (on success, the position
/// just past the terminating zero byte), the labels met from `pos` on, in
/// order, and the committed cursor.
pub open spec fn walk_name(buf: Seq<u8>, pos: int, jumps: int, commit: Option<int>) -> (
    Result<int, DnsPacketError>,
    Seq<Seq<u8>>,
    Option<int>,
)
    decreases 6 - jumps, BUFFER_SIZE - pos,
{
    if jumps > MAX_JUMPS {
        (Err(DnsPacketError::MaxJumpsLimit(MAX_JUMPS)), seq![], commit)
    } else if !(0 <= pos < BUFFER_SIZE) {
        (Err(out_of_bounds(pos)), seq![], commit)
    } else {
        let len = buf[pos];
        if is_pointer(len) {
            if commit is None && pos + 2 >= BUFFER_SIZE {
                (Err(out_of_bounds(pos + 2)), seq![], commit)
            } else if pos + 1 >= BUFFER_SIZE {
                (Err(out_of_bounds(pos + 1)), seq![], commit)
            } else {
                let next_commit = if commit is None {
                    Some(pos + 2)
                } else {
                    commit
                };
                walk_name(buf, pointer_target(len, buf[pos + 1]), jumps + 1, next_commit)
            }
        } else if len == 0 {
            (Ok(pos + 1), seq![], commit)
        } else if pos + 1 + len > BUFFER_SIZE {
            (Err(out_of_bounds(fault_pos(pos + 1))), seq![], commit)
        } else {
            let rest = walk_name(buf, pos + 1 + len, jumps, commit);
            (rest.0, seq![buf.subrange(pos + 1, pos + 1 + len)] + rest.1, rest.2)
        }
    }
}

/// Reading the name at `start`: its labels or the error, and the cursor
/// afterwards. The cursor ends just past the first pointer if one was
/// followed, else just past the terminating zero byte.
pub open spec fn name_at(buf: Seq<u8>, start: int) -> (Result<Seq<Seq<u8>>, DnsPacketError>, int) {
    let w = walk_name(buf, start, 0, None);
    match w.0 {
        Err(e) => (Err(e), if let Some(c) = w.2 { c } else { start }),
        Ok(end) => if let Some(c) = w.2 {
            (Ok(w.1), c)
        } else if end >= BUFFER_SIZE {
            (Err(out_of_bounds(end)), start)
        } else {
            (Ok(w.1), end)
        },
    }
}

/// What `String::from_utf8_lossy` makes of some bytes.
pub uninterp spec fn utf8_lossy(b: Seq<u8>) -> Seq<char>;

/// What `str::to_lowercase` makes of some text.
pub uninterp spec fn lower_of(s: Seq<char>) -> Seq<char>;

/// The text of one label: its bytes read as UTF-8 and lower-cased.
pub open spec fn label_text(label: Seq<u8>) -> Seq<char> {
    lower_of(utf8_lossy(label))
}

/// The dotted text of a sequence of labels.
pub open spec fn name_text(labels: Seq<Seq<u8>>) -> Seq<char>
    decreases labels.len(),
{
    if labels.len() == 0 {
        seq![]
    } else if labels.len() == 1 {
        label_text(labels[0])
    } else {
        name_text(labels.drop_last()) + seq!['.'] + label_text(labels.last())
    }
}

/// Relies on `String::from_utf8_lossy`: the text depends on the bytes alone.
#[verifier::external_body]
fn lossy_text(b: &[u8]) -> (r: String)
    ensures
        r@ == utf8_lossy(b@),
{
    String::from_utf8_lossy(b).into_owned()
}

/// Relies on `str::to_lowercase`: the result depends on the characters alone.
#[verifier::external_body]
fn lowercase(s: &str) -> (r: String)
    ensures
        r@ == lower_of(s@),
{
    s.to_lowercase()
}

/// Appends the text of one label to a dotted name: a separating dot first,
/// unless it is the name's first label.
pub fn join_label(name: &mut String, first: bool, label: &str)
    ensures
        final(name)@ == old(name)@ + (if first {
            Seq::<char>::empty()
        } else {
            seq!['.']
        }) + label@,
{
    proof {
        reveal_strlit(".");
    }
    if !first {
        name.append(".");
    }
    name.append(label);
    proof {
        if first {
            assert(old(name)@ + Seq::<char>::empty() =~= old(name)@);
        }
    }
}

/// A fixed-size message buffer with a read cursor.
pub struct DnsPacketBuffer {
    pub buf: [u8; 512],
    pub pos: usize,
}
impl DnsPacketBuffer {
    /// Moves the cursor forward by `steps`; fails, leaving it where it was,
    /// when it would reach the end of the buffer.
    pub fn step(&mut self, steps: usize) -> (r: Result<(), DnsPacketError>)
        requires
            old(self).pos + steps <= usize::MAX,
        ensures
            final(self).buf == old(self).buf,
            old(self).pos + steps >= BUFFER_SIZE ==> r == Err::<(), DnsPacketError>(
                out_of_bounds(old(self).pos + steps),
            ) && final(self).pos == old(self).pos,
            old(self).pos + steps < BUFFER_SIZE ==> r is Ok && final(self).pos == old(self).pos
                + steps,
    {
        let new_pos = self.pos + steps;
        if new_pos >= BUFFER_SIZE {
            Err(DnsPacketError::OutOfBounds(new_pos))
        } else {
            self.pos = new_pos;
            Ok(())
        }
    }

    /// Sets the cursor to `pos`; fails, leaving it where it was, when `pos`
    /// lies at or beyond the end of the buffer.
    pub fn seek(&mut self, pos: usize) -> (r: Result<(), DnsPacketError>)
        ensures
            final(self).buf == old(self).buf,
            pos >= BUFFER_SIZE ==> r == Err::<(), DnsPacketError>(out_of_bounds(pos as int))
                && final(self).pos == old(self).pos,
            pos < BUFFER_SIZE ==> r is Ok && final(self).pos == pos,
    {
        if pos >= BUFFER_SIZE {
            Err(DnsPacketError::OutOfBounds(pos))
        } else {
            self.pos = pos;
            Ok(())
        }
    }

    /// Reads the byte under the cursor and moves the cursor past it.
    pub fn read(&mut self) -> (r: Result<u8, DnsPacketError>)
        ensures
            final(self).buf == old(self).buf,
            old(self).pos >= BUFFER_SIZE ==> r == Err::<u8, DnsPacketError>(
                out_of_bounds(old(self).pos as int),
            ) && final(self).pos == old(self).pos,
            old(self).pos < BUFFER_SIZE ==> r == Ok::<u8, DnsPacketError>(
                old(self).buf@[old(self).pos as int],
            ) && final(self).pos == old(self).pos + 1,
    {
        if self.pos >= BUFFER_SIZE {
            Err(DnsPacketError::OutOfBounds(self.pos))
        } else {
            let res = self.buf[self.pos];
            self.pos = self.pos + 1;
            Ok(res)
        }
    }

    /// Reads the byte at `pos` without moving the cursor. Fails when the
    /// cursor, or else `pos`, lies at or beyond the end of the buffer.
    pub fn get(&mut self, pos: usize) -> (r: Result<u8, DnsPacketError>)
        ensures
            *final(self) == *old(self),
            r == (if old(self).pos >= BUFFER_SIZE {
                Err(out_of_bounds(old(self).pos as int))
            } else if pos >= BUFFER_SIZE {
                Err(out_of_bounds(pos as int))
            } else {
                Ok(old(self).buf@[pos as int])
            }),
    {
        if self.pos >= BUFFER_SIZE {
            Err(DnsPacketError::OutOfBounds(self.pos))
        } else if pos >= BUFFER_SIZE {
            Err(DnsPacketError::OutOfBounds(pos))
        } else {
            Ok(self.buf[pos])
        }
    }

    /// The `len` bytes from `start` on, without moving the cursor. Fails when
    /// the cursor lies at or beyond the end of the buffer, or else when the
    /// range does not fit in the buffer; the error then names the first
    /// position of the range outside it.
    pub fn get_range(&mut self, start: usize, len: usize) -> (r: Result<&[u8], DnsPacketError>)
        ensures
            *final(self) == *old(self),
            old(self).pos >= BUFFER_SIZE ==> r == Err::<&[u8], DnsPacketError>(
                out_of_bounds(old(self).pos as int),
            ),
            old(self).pos < BUFFER_SIZE && start + len > BUFFER_SIZE ==> r == Err::<
                &[u8],
                DnsPacketError,
            >(out_of_bounds(fault_pos(start as int))),
            old(self).pos < BUFFER_SIZE && start + len <= BUFFER_SIZE ==> r is Ok && r->Ok_0@
                == old(self).buf@.subrange(start as int, start + len),
    {
        if self.pos >= BUFFER_SIZE {
            Err(DnsPacketError::OutOfBounds(self.pos))
        } else if start >= BUFFER_SIZE {
            if len == 0 && start == BUFFER_SIZE {
                Ok(slice_subrange(self.buf.as_slice(), start, start))
            } else {
                Err(DnsPacketError::OutOfBounds(start))
            }
        } else if len > BUFFER_SIZE - start {
            Err(DnsPacketError::OutOfBounds(BUFFER_SIZE))
        } else {
            Ok(slice_subrange(self.buf.as_slice(), start, start + len))
        }
    }

    /// Reads two bytes as a big-endian number, moving the cursor past them.
    pub fn read_u16(&mut self) -> (r: Result<u16, DnsPacketError>)
        ensures
            final(self).buf == old(self).buf,
            (r, final(self).pos as int) == u16_at(old(self).buf@, old(self).pos as int),
    {
        let hi = self.read()?;
        let lo = self.read()?;
        Ok(((hi as u16) << 8) | (lo as u16))
    }

    /// Reads four bytes as a big-endian number, moving the cursor past them.
    pub fn read_u32(&mut self) -> (r: Result<u32, DnsPacketError>)
        ensures
            final(self).buf == old(self).buf,
            (r, final(self).pos as int) == u32_at(old(self).buf@, old(self).pos as int),
    {
        let b0 = self.read()?;
        let b1 = self.read()?;
        let b2 = self.read()?;
        let b3 = self.read()?;
        Ok(((b0 as u32) << 24) | ((b1 as u32) << 16) | ((b2 as u32) << 8) | (b3 as u32))
    }

    /// Reads the (possibly compressed) domain name under the cursor and
    /// appends its dotted, lower-cased text to `outstr`: something like
    /// `[3]www[6]google[3]com[0]` gives `www.google.com`. The cursor ends past
    /// the name's bytes in the message, not past those that a pointer led to.
    /// On failure `outstr` is left as it was.
    pub fn read_qname(&mut self, outstr: &mut String) -> (r: Result<(), DnsPacketError>)
        ensures
            final(self).buf == old(self).buf,
            final(self).pos == name_at(old(self).buf@, old(self).pos as int).1,
            match name_at(old(self).buf@, old(self).pos as int).0 {
                Ok(labels) => r is Ok && final(outstr)@ == old(outstr)@ + name_text(labels),
                Err(e) => r == Err::<(), DnsPacketError>(e) && final(outstr)@ == old(outstr)@,
            },
    {
        let ghost buf = self.buf@;
        let ghost start = self.pos as int;
        let ghost mut labels: Seq<Seq<u8>> = seq![];
        let mut name = String::new();
        let mut pos = self.pos;
        let mut jumped = false;
        let max_jumps: i32 = MAX_JUMPS;
        let mut jumps_performed: i32 = 0;
        let mut first = true;
        loop
            invariant_except_break
                ({
                    let w = walk_name(
                        buf,
                        pos as int,
                        jumps_performed as int,
                        if jumped {
                            Some(self.pos as int)
                        } else {
                            None
                        },
                    );
                    (w.0, labels + w.1, w.2)
                }) == walk_name(buf, start, 0, None),
            invariant
                self.buf == old(self).buf,
                buf == old(self).buf@,
                start == old(self).pos as int,
                outstr == old(outstr),
                buf.len() == BUFFER_SIZE,
                max_jumps == MAX_JUMPS,
                0 <= jumps_performed <= 6,
                !jumped ==> jumps_performed == 0 && self.pos == start,
                jumped ==> self.pos < BUFFER_SIZE,
                self.pos >= BUFFER_SIZE ==> pos == self.pos && labels.len() == 0,
                name@ == name_text(labels),
                first == (labels.len() == 0),
            ensures
                walk_name(buf, start, 0, None) == (
                    Ok::<int, DnsPacketError>(pos as int),
                    labels,
                    if jumped {
                        Some(self.pos as int)
                    } else {
                        None
                    },
                ),
            decreases 6 - jumps_performed, BUFFER_SIZE - pos,
        {
            let ghost commit = if jumped {
                Some(self.pos as int)
            } else {
                None
            };
            let ghost w = walk_name(buf, pos as int, jumps_performed as int, commit);
            assert(w.0 == walk_name(buf, start, 0, None).0);
            assert(w.2 == walk_name(buf, start, 0, None).2);
            if jumps_performed > max_jumps {
                assert(w.0 == Err::<int, DnsPacketError>(DnsPacketError::MaxJumpsLimit(MAX_JUMPS)));
                return Err(DnsPacketError::MaxJumpsLimit(max_jumps));
            }
            let len = match self.get(pos) {
                Ok(b) => b,
                Err(e) => {
                    assert(w.0 == Err::<int, DnsPacketError>(e));
                    return Err(e);
                },
            };
            if (len & 0xC0) == 0xC0 {
                if !jumped {
                    self.seek(pos + 2)?;
                }
                let b2 = self.get(pos + 1)?;
                pos = ((len & 0x3F) as usize) * 256 + (b2 as usize);
                jumped = true;
                jumps_performed = jumps_performed + 1;
                continue;
            } else {
                pos = pos + 1;
                if len == 0 {
                    break;
                }
                let label = match self.get_range(pos, len as usize) {
                    Ok(l) => l,
                    Err(e) => {
                        assert(w.0 == Err::<int, DnsPacketError>(e));
                        return Err(e);
                    },
                };
                let text = lossy_text(label);
                let lower = lowercase(text.as_str());
                join_label(&mut name, first, lower.as_str());
                proof {
                    let l = buf.subrange(pos as int, pos + len);
                    let w = walk_name(buf, pos + len, jumps_performed as int, if jumped {
                        Some(self.pos as int)
                    } else {
                        None
                    });
                    assert(labels.push(l).drop_last() =~= labels);
                    assert(labels + (seq![l] + w.1) =~= labels.push(l) + w.1);
                    labels = labels.push(l);
                }
                pos = pos + len as usize;
                first = false;
            }
        }
        if !jumped {
            self.seek(pos)?;
        }
        outstr.append(name.as_str());
        Ok(())
    }
}

impl Default for DnsPacketBuffer {
    /// An all-zero buffer with the cursor at its start.
    fn default() -> (r: Self)
        ensures
            r.pos == 0,
            forall|i: int| 0 <= i < BUFFER_SIZE ==> r.buf@[i] == 0,
    {
        Self { buf: [0u8; 512], pos: 0 }
    }
}

} // verus!
