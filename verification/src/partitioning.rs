//! The choice of the partition that messages are appended to.

use crate::buffer::bytes_mut_view;
use crate::error::IggyError;
use crate::wire::copy_range;
use crate::wire::lemma_same_front;
use crate::wire::put_byte;
use crate::wire::put_u8;
use crate::wire::u32_le;
use bytes::BufMut;
use bytes::BytesMut;
use vstd::prelude::*;

verus! {

/// How the partition that messages are appended to is chosen.
#[derive(Debug, Clone, Copy, PartialEq, Eq, Structural)]
pub enum PartitioningKind {
    /// The broker picks the partitions in turn.
    Balanced,
    /// The producer names the partition.
    PartitionId,
    /// The partition is computed from a key, so that equal keys meet in one partition.
    MessagesKey,
}

impl PartitioningKind {
    /// The byte that stands for this partitioning kind on the wire.
    pub open spec fn spec_code(self) -> u8 {
        match self {
            PartitioningKind::Balanced => 1,
            PartitioningKind::PartitionId => 2,
            PartitioningKind::MessagesKey => 3,
        }
    }

    /// The partitioning kind that a byte stands for, if any.
    pub open spec fn spec_from_code(code: u8) -> Option<PartitioningKind> {
        if code == 1 {
            Some(PartitioningKind::Balanced)
        } else if code == 2 {
            Some(PartitioningKind::PartitionId)
        } else if code == 3 {
            Some(PartitioningKind::MessagesKey)
        } else {
            None
        }
    }

    /// The wire form: one byte.
    pub open spec fn wire(self) -> Seq<u8> {
        seq![self.spec_code()]
    }

    /// Reads a partitioning kind from the front of `s`; an unknown byte is rejected.
    pub open spec fn parse(s: Seq<u8>) -> Option<(PartitioningKind, nat)> {
        if s.len() < 1 {
            None
        } else {
            match Self::spec_from_code(s[0]) {
                Some(value) => Some((value, 1nat)),
                None => None,
            }
        }
    }

    /// Reading back an encoded partitioning kind gives it back, whatever follows it.
    pub proof fn lemma_parse(value: PartitioningKind, rest: Seq<u8>)
        ensures
            Self::parse(value.wire() + rest) == Some((value, value.wire().len())),
            (value.wire() + rest).skip(value.wire().len() as int) == rest,
            value.wire().len() == 1,
    {
        assert((value.wire() + rest)[0] == value.spec_code());
        assert((value.wire() + rest).skip(1) =~= rest);
    }

    /// Reading a partitioning kind looks at nothing beyond its one byte.
    pub proof fn lemma_local(s: Seq<u8>, other: Seq<u8>)
        requires
            Self::parse(s) is Some,
            other.len() >= Self::parse(s).unwrap().1,
            other.take(Self::parse(s).unwrap().1 as int) == s.take(
                Self::parse(s).unwrap().1 as int,
            ),
        ensures
            Self::parse(other) == Self::parse(s),
    {
        lemma_same_front(s, other, 1);
    }

    /// Returns the byte that stands for this partitioning kind on the wire.
    pub fn as_code(&self) -> (code: u8)
        ensures
            code == self.spec_code(),
    {
        match self {
            PartitioningKind::Balanced => 1,
            PartitioningKind::PartitionId => 2,
            PartitioningKind::MessagesKey => 3,
        }
    }

    /// Reads a partitioning kind from its byte; an unknown byte is rejected.
    pub fn from_code(code: u8) -> (r: Result<PartitioningKind, IggyError>)
        ensures
            match r {
                Ok(value) => Self::spec_from_code(code) == Some(value),
                Err(e) => e == IggyError::InvalidCommand && Self::spec_from_code(code) is None,
            },
    {
        match code {
            1 => Ok(PartitioningKind::Balanced),
            2 => Ok(PartitioningKind::PartitionId),
            3 => Ok(PartitioningKind::MessagesKey),
            _ => Err(IggyError::InvalidCommand),
        }
    }

    /// Appends the wire form to `buf`.
    pub fn put(&self, buf: &mut BytesMut)
        requires
            bytes_mut_view(*old(buf)).len() + 1 <= isize::MAX,
        ensures
            bytes_mut_view(*final(buf)) == bytes_mut_view(*old(buf)) + self.wire(),
    {
        put_byte(buf, self.as_code());
    }

    /// Reads the partitioning kind at `pos`.
    pub fn read(s: &[u8], pos: usize) -> (r: Result<(PartitioningKind, usize), IggyError>)
        requires
            pos <= s@.len(),
        ensures
            match r {
                Ok((value, next)) => Self::parse(s@.skip(pos as int)) == Some(
                    (value, (next - pos) as nat),
                ) && pos < next <= s@.len(),
                Err(e) => e == IggyError::InvalidCommand && Self::parse(s@.skip(pos as int))
                    is None,
            },
    {
        if s.len() - pos < 1 {
            return Err(IggyError::InvalidCommand);
        }
        let value = PartitioningKind::from_code(s[pos])?;
        Ok((value, pos + 1))
    }
}

/// How the partition that a batch of messages goes to is chosen: a kind, and
/// for the kinds that need one a value (the partition id as four
/// little-endian bytes, or the key).
#[derive(Debug, Clone, PartialEq)]
pub struct Partitioning {
    /// The kind of partitioning.
    pub kind: PartitioningKind,
    /// The number of bytes of `value`.
    pub length: u8,
    /// Nothing, the partition id, or the key, depending on the kind.
    pub value: Vec<u8>,
}

/// The mathematical value of a [`Partitioning`].
pub struct PartitioningView {
    pub kind: PartitioningKind,
    pub length: u8,
    pub value: Seq<u8>,
}

/// The number of value bytes that fits the kind: none for balanced
/// partitioning, four for a partition id, 1 to 255 for a key.
pub open spec fn length_fits(kind: PartitioningKind, length: int) -> bool {
    match kind {
        PartitioningKind::Balanced => length == 0,
        PartitioningKind::PartitionId => length == 4,
        PartitioningKind::MessagesKey => 1 <= length <= 255,
    }
}

impl PartitioningView {
    /// The stored length is that of the value, and it fits the kind.
    pub open spec fn wf(self) -> bool {
        self.length == self.value.len() && length_fits(self.kind, self.length as int)
    }

    /// The wire form: kind byte, length byte, value.
    pub open spec fn wire(self) -> Seq<u8> {
        seq![self.kind.spec_code(), self.length] + self.value
    }

    /// Balanced partitioning.
    pub open spec fn balanced() -> PartitioningView {
        PartitioningView { kind: PartitioningKind::Balanced, length: 0, value: Seq::empty() }
    }

    /// Partitioning by partition id.
    pub open spec fn partition_id(id: u32) -> PartitioningView {
        PartitioningView { kind: PartitioningKind::PartitionId, length: 4, value: u32_le(id) }
    }

    /// Partitioning by key.
    pub open spec fn messages_key(key: Seq<u8>) -> PartitioningView {
        PartitioningView { kind: PartitioningKind::MessagesKey, length: key.len() as u8, value: key }
    }
}

impl View for Partitioning {
    type V = PartitioningView;

    open spec fn view(&self) -> PartitioningView {
        PartitioningView { kind: self.kind, length: self.length, value: self.value@ }
    }
}

impl Partitioning {
    /// Reads a partitioning from the front of `s`: the value and the number
    /// of bytes it took, or `None` where the header is missing, the kind is
    /// unknown, the length does not fit the kind, or the value runs past the
    /// end of `s`.
    pub open spec fn parse(s: Seq<u8>) -> Option<(PartitioningView, nat)> {
        if s.len() < 2 {
            None
        } else {
            match PartitioningKind::spec_from_code(s[0]) {
                Some(kind) => if length_fits(kind, s[1] as int) && s.len() >= 2 + s[1] {
                    Some(
                        (
                            PartitioningView {
                                kind,
                                length: s[1],
                                value: s.subrange(2, 2 + s[1] as int),
                            },
                            (2 + s[1]) as nat,
                        ),
                    )
                } else {
                    None
                },
                None => None,
            }
        }
    }

    /// The decoder never reads past the end of its input.
    pub proof fn lemma_bound(s: Seq<u8>)
        ensures
            match Self::parse(s) {
                Some((value, n)) => 0 < n <= s.len() && value.wf(),
                None => true,
            },
    {
    }

    /// Reading back an encoded partitioning gives it back, whatever follows.
    pub proof fn lemma_parse(value: PartitioningView, rest: Seq<u8>)
        requires
            value.wf(),
        ensures
            Self::parse(value.wire() + rest) == Some((value, value.wire().len())),
            (value.wire() + rest).skip(value.wire().len() as int) == rest,
            2 <= value.wire().len() <= 257,
    {
        let s = value.wire() + rest;
        assert(s[0] == value.kind.spec_code());
        assert(s[1] == value.length);
        assert(s.subrange(2, 2 + value.length as int) =~= value.value);
        assert(s.skip(value.wire().len() as int) =~= rest);
    }

    /// Reading a partitioning looks at nothing beyond it.
    pub proof fn lemma_local(s: Seq<u8>, other: Seq<u8>)
        requires
            Self::parse(s) is Some,
            other.len() >= Self::parse(s).unwrap().1,
            other.take(Self::parse(s).unwrap().1 as int) == s.take(
                Self::parse(s).unwrap().1 as int,
            ),
        ensures
            Self::parse(other) == Self::parse(s),
    {
        let n = 2 + s[1] as int;
        lemma_same_front(s, other, n);
        assert(other.subrange(2, n) =~= s.subrange(2, n));
    }

    /// Balanced partitioning: the broker picks the partitions in turn.
    pub fn balanced() -> (p: Partitioning)
        ensures
            p@ == PartitioningView::balanced(),
            p@.wf(),
    {
        Partitioning { kind: PartitioningKind::Balanced, length: 0, value: Vec::new() }
    }

    /// Partitioning by the id of the partition.
    pub fn partition_id(partition_id: u32) -> (p: Partitioning)
        ensures
            p@ == PartitioningView::partition_id(partition_id),
            p@.wf(),
    {
        let mut value: Vec<u8> = Vec::new();
        value.push((partition_id % 256) as u8);
        value.push((partition_id / 256 % 256) as u8);
        value.push((partition_id / 65536 % 256) as u8);
        value.push((partition_id / 16777216) as u8);
        proof {
            assert(value@ =~= u32_le(partition_id));
        }
        Partitioning { kind: PartitioningKind::PartitionId, length: 4, value }
    }

    /// Partitioning by a key of 1 to 255 bytes.
    pub fn messages_key(key: &[u8]) -> (r: Result<Partitioning, IggyError>)
        ensures
            match r {
                Ok(p) => 1 <= key@.len() <= 255 && p@ == PartitioningView::messages_key(key@)
                    && p@.wf(),
                Err(e) => e == IggyError::InvalidCommand && !(1 <= key@.len() <= 255),
            },
    {
        let n = key.len();
        if n == 0 || n > 255 {
            return Err(IggyError::InvalidCommand);
        }
        let value = copy_range(key, 0, n);
        proof {
            assert(value@ =~= key@);
        }
        Ok(Partitioning { kind: PartitioningKind::MessagesKey, length: n as u8, value })
    }

    /// Accepts the value where the stored length is that of the value and
    /// fits the kind.
    pub fn validate(&self) -> (r: Result<(), IggyError>)
        ensures
            r is Ok <==> self@.wf(),
            r is Err ==> r == Err::<(), IggyError>(IggyError::InvalidCommand),
    {
        if self.value.len() != self.length as usize {
            return Err(IggyError::InvalidCommand);
        }
        let fits = match self.kind {
            PartitioningKind::Balanced => self.length == 0,
            PartitioningKind::PartitionId => self.length == 4,
            PartitioningKind::MessagesKey => self.length >= 1,
        };
        if fits {
            Ok(())
        } else {
            Err(IggyError::InvalidCommand)
        }
    }

    /// The number of bytes of the wire form.
    pub fn size(&self) -> (n: usize)
        requires
            self@.wf(),
        ensures
            n == self@.wire().len(),
            n <= 257,
    {
        2 + self.length as usize
    }

    /// Appends the wire form to `buf`.
    pub fn put(&self, buf: &mut BytesMut)
        requires
            self@.wf(),
            bytes_mut_view(*old(buf)).len() + self@.wire().len() <= isize::MAX,
        ensures
            bytes_mut_view(*final(buf)) == bytes_mut_view(*old(buf)) + self@.wire(),
    {
        let ghost before = bytes_mut_view(*buf);
        put_u8(buf, self.kind.as_code());
        put_u8(buf, self.length);
        buf.put_slice(self.value.as_slice());
        proof {
            assert(bytes_mut_view(*buf) =~= before + self@.wire());
        }
    }

    /// Decodes the partitioning that starts at `pos` and returns it with the
    /// position just after it.
    pub fn read(s: &[u8], pos: usize) -> (r: Result<(Partitioning, usize), IggyError>)
        requires
            pos <= s@.len(),
        ensures
            match r {
                Ok((value, next)) => Self::parse(s@.skip(pos as int)) == Some(
                    (value@, (next - pos) as nat),
                ) && pos < next <= s@.len() && value@.wf(),
                Err(e) => e == IggyError::InvalidCommand && Self::parse(s@.skip(pos as int))
                    is None,
            },
    {
        let ghost rest = s@.skip(pos as int);
        if s.len() - pos < 2 {
            return Err(IggyError::InvalidCommand);
        }
        let kind = PartitioningKind::from_code(s[pos])?;
        let length = s[pos + 1];
        let n = length as usize;
        let fits = match kind {
            PartitioningKind::Balanced => length == 0,
            PartitioningKind::PartitionId => length == 4,
            PartitioningKind::MessagesKey => length >= 1,
        };
        if !fits || s.len() - pos - 2 < n {
            return Err(IggyError::InvalidCommand);
        }
        let value = copy_range(s, pos + 2, pos + 2 + n);
        proof {
            assert(value@ =~= rest.subrange(2, 2 + n));
        }
        Ok((Partitioning { kind, length, value }, pos + 2 + n))
    }
}

} // verus!
