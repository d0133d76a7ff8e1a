//! The positions of reader handles: where a seek lands, and how a read
//! moves a handle on. Every handle has a position of its own; the source
//! is shared.

use vstd::prelude::*;

verus! {

/// Where a seek is measured from.
#[derive(Debug, Clone, Copy, PartialEq, Eq, Structural)]
pub enum SeekFrom {
    /// So many bytes from the start of the source.
    Start(u64),
    /// The length of the source plus so many bytes.
    End(i64),
    /// The handle's position plus so many bytes.
    Current(i64),
}

/// Why a seek was refused. A refused seek leaves the position where it was.
#[derive(Debug, Clone, Copy, PartialEq, Eq, Structural)]
pub enum SeekError {
    /// The seek would land before the first byte.
    BeforeStart,
    /// The seek would land beyond the greatest offset there is.
    Overflow,
    /// The seek is measured from the end, and the length of the source has
    /// not been ascertained yet.
    LengthUnknown,
}

impl SeekError {
    /// A short description of the failure.
    pub fn message(&self) -> (text: &'static str)
        ensures
            text@ == match *self {
                SeekError::BeforeStart => "Rewind too far"@,
                SeekError::Overflow => "Seek beyond the largest offset"@,
                SeekError::LengthUnknown => "Length of the stream is not known yet"@,
            },
    {
        match self {
            SeekError::BeforeStart => "Rewind too far",
            SeekError::Overflow => "Seek beyond the largest offset",
            SeekError::LengthUnknown => "Length of the stream is not known yet",
        }
    }
}

/// The offset that a seek aims at, for a handle at `pos` on a source of
/// `len` bytes.
pub open spec fn seek_target(pos: u64, len: u64, from: SeekFrom) -> int {
    match from {
        SeekFrom::Start(offset) => offset as int,
        SeekFrom::End(delta) => len + delta,
        SeekFrom::Current(delta) => pos + delta,
    }
}

/// What a seek gives: the target, where it is an offset; else the reason
/// why it is none.
pub open spec fn seek_result(pos: u64, len: u64, from: SeekFrom) -> Result<u64, SeekError> {
    let target = seek_target(pos, len, from);
    if target < 0 {
        Err(SeekError::BeforeStart)
    } else if target > u64::MAX {
        Err(SeekError::Overflow)
    } else {
        Ok(target as u64)
    }
}

/// The position of a handle at `pos` after a read that returned `count`
/// bytes.
pub open spec fn position_after_read(pos: u64, count: nat) -> int {
    pos + count
}

/// Computes where a seek lands.
pub fn resolve_seek(pos: u64, len: u64, from: SeekFrom) -> (landing: Result<u64, SeekError>)
    ensures
        landing == seek_result(pos, len, from),
{
    let target: i128 = match from {
        SeekFrom::Start(offset) => offset as i128,
        SeekFrom::End(delta) => len as i128 + delta as i128,
        SeekFrom::Current(delta) => pos as i128 + delta as i128,
    };
    if target < 0 {
        Err(SeekError::BeforeStart)
    } else if target > u64::MAX as i128 {
        Err(SeekError::Overflow)
    } else {
        Ok(target as u64)
    }
}

/// The position of one worker's handle on a remote resource. Cloning a
/// handle duplicates its position; from then on the two move apart.
#[derive(Debug, Clone, Copy)]
pub struct SeekableHttpReader {
    len: u64,
    pos: u64,
}

impl SeekableHttpReader {
    /// The offset of the next byte this handle reads.
    pub closed spec fn position(&self) -> u64 {
        self.pos
    }

    /// The total length of the resource.
    pub closed spec fn total_len(&self) -> u64 {
        self.len
    }

    /// A handle at the start of a resource of `len` bytes.
    pub fn new(len: u64) -> (reader: Self)
        ensures
            reader.position() == 0,
            reader.total_len() == len,
    {
        Self { len, pos: 0 }
    }

    /// The offset of the next byte this handle reads.
    pub fn stream_position(&self) -> (pos: u64)
        ensures
            pos == self.position(),
    {
        self.pos
    }

    /// The total length of the resource.
    pub fn len(&self) -> (len: u64)
        ensures
            len == self.total_len(),
    {
        self.len
    }

    /// Moves this handle, and no other. A seek that would land before the
    /// start, or beyond the greatest offset, is refused and moves nothing.
    pub fn seek(&mut self, from: SeekFrom) -> (landing: Result<u64, SeekError>)
        ensures
            landing == seek_result(old(self).position(), old(self).total_len(), from),
            final(self).total_len() == old(self).total_len(),
            final(self).position() == match landing {
                Ok(pos) => pos,
                Err(_) => old(self).position(),
            },
    {
        let landing = resolve_seek(self.pos, self.len, from);
        if let Ok(pos) = landing {
            self.pos = pos;
        }
        landing
    }

    /// Moves the handle past `count` bytes that a read returned.
    pub fn advance(&mut self, count: usize)
        requires
            old(self).position() + count <= u64::MAX,
        ensures
            final(self).position() == position_after_read(old(self).position(), count as nat),
            final(self).total_len() == old(self).total_len(),
    {
        self.pos = self.pos + count as u64;
    }
}

/// The position of one handle on a shared local source. The length of the
/// source is asked for when a seek first needs it, and remembered by the
/// handle from then on.
#[derive(Debug, Clone, Copy)]
pub struct CloneableSeekableReader {
    pos: u64,
    file_length: Option<u64>,
}

impl CloneableSeekableReader {
    /// The offset of the next byte this handle reads.
    pub closed spec fn position(&self) -> u64 {
        self.pos
    }

    /// The length of the source, as far as this handle has learnt it.
    pub closed spec fn known_length(&self) -> Option<u64> {
        self.file_length
    }

    /// A handle at the start of a source whose length is not known yet.
    pub fn new() -> (reader: Self)
        ensures
            reader.position() == 0,
            reader.known_length() is None,
    {
        Self { pos: 0, file_length: None }
    }

    /// The offset of the next byte this handle reads.
    pub fn stream_position(&self) -> (pos: u64)
        ensures
            pos == self.position(),
    {
        self.pos
    }

    /// The length of the source, as far as this handle has learnt it.
    pub fn file_length(&self) -> (len: Option<u64>)
        ensures
            len == self.known_length(),
    {
        self.file_length
    }

    /// Whether the source has to be asked for its length before this seek
    /// can be made: the seek is measured from the end, and the handle has
    /// not learnt the length yet.
    pub fn needs_length(&self, from: SeekFrom) -> (needed: bool)
        ensures
            needed == (from is End && self.known_length() is None),
    {
        match from {
            SeekFrom::End(_) => self.file_length.is_none(),
            _ => false,
        }
    }

    /// Settles the length of the source for this handle. The first length
    /// given is remembered; a later one is ignored, for the length of a
    /// source does not change.
    pub fn ascertain_file_length(&mut self, source_len: u64) -> (len: u64)
        ensures
            len == match old(self).known_length() {
                Some(known) => known,
                None => source_len,
            },
            final(self).known_length() == Some(len),
            final(self).position() == old(self).position(),
    {
        match self.file_length {
            Some(file_length) => file_length,
            None => {
                self.file_length = Some(source_len);
                source_len
            },
        }
    }

    /// Moves this handle, and no other; the source is not touched. A seek
    /// measured from the end is refused while the length is unknown. A seek
    /// that would land before the start, or beyond the greatest offset, is
    /// refused too. A refused seek moves nothing.
    pub fn seek(&mut self, from: SeekFrom) -> (landing: Result<u64, SeekError>)
        ensures
            landing == match old(self).known_length() {
                Some(len) => seek_result(old(self).position(), len, from),
                None => if from is End {
                    Err(SeekError::LengthUnknown)
                } else {
                    seek_result(old(self).position(), 0, from)
                },
            },
            final(self).known_length() == old(self).known_length(),
            final(self).position() == match landing {
                Ok(pos) => pos,
                Err(_) => old(self).position(),
            },
    {
        let landing = match self.file_length {
            Some(len) => resolve_seek(self.pos, len, from),
            None => match from {
                SeekFrom::End(_) => Err(SeekError::LengthUnknown),
                _ => resolve_seek(self.pos, 0, from),
            },
        };
        if let Ok(pos) = landing {
            self.pos = pos;
        }
        landing
    }

    /// Moves the handle past `count` bytes that a read of the source
    /// returned.
    pub fn advance(&mut self, count: usize)
        requires
            old(self).position() + count <= u64::MAX,
        ensures
            final(self).position() == position_after_read(old(self).position(), count as nat),
            final(self).known_length() == old(self).known_length(),
    {
        self.pos = self.pos + count as u64;
    }
}

} // verus!
