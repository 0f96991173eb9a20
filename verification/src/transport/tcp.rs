//! Length-prefixed stream framing: each packet travels behind its 2-byte
//! big-endian length, up to a maximum frame size.
use vstd::prelude::*;

use crate::error::TransportError;
use crate::protocol::wire::{be16_at, be16_bytes, get_u16, put_slice, put_u16};
use crate::transport::noise::MAX_NOISE_MSG_LEN;

verus! {

/// A stream with 2-byte big-endian length-prefix framing.
pub struct TcpTransport<S> {
    stream: S,
    max_frame_size: usize,
}

impl<S> TcpTransport<S> {
    /// The largest frame this transport sends or accepts.
    pub closed spec fn max_frame_size_view(&self) -> usize {
        self.max_frame_size
    }

    /// The underlying stream.
    pub closed spec fn stream_view(&self) -> S {
        self.stream
    }

    /// Frames `stream` with the Noise message limit as the maximum frame size.
    pub fn new(stream: S) -> (r: Self)
        ensures
            r.stream_view() == stream,
            r.max_frame_size_view() == MAX_NOISE_MSG_LEN,
    {
        TcpTransport { stream, max_frame_size: MAX_NOISE_MSG_LEN }
    }

    /// Sets the maximum frame size.
    pub fn with_max_frame_size(self, max: usize) -> (r: Self)
        ensures
            r.stream_view() == self.stream_view(),
            r.max_frame_size_view() == max,
    {
        TcpTransport { stream: self.stream, max_frame_size: max }
    }

    pub fn get_ref(&self) -> (r: &S)
        ensures
            *r == self.stream_view(),
    {
        &self.stream
    }

    pub fn get_mut(&mut self) -> (r: &mut S)
        ensures
            *r == old(self).stream_view(),
            final(self).stream_view() == *final(r),
            final(self).max_frame_size_view() == old(self).max_frame_size_view(),
    {
        &mut self.stream
    }

    pub fn into_inner(self) -> (r: S)
        ensures
            r == self.stream_view(),
    {
        self.stream
    }

    /// What sending `frame` writes: its 2-byte big-endian length, then the
    /// frame. A frame longer than the maximum frame size, or than 65535
    /// bytes, is refused as oversized.
    pub fn frame_packet(&self, frame: &[u8]) -> (r: Result<Vec<u8>, TransportError>)
        ensures
            frame@.len() > self.max_frame_size_view() || frame@.len() > 0xffff ==> (r matches Err(
                TransportError::Oversized { actual, max },
            ) && actual == frame@.len() && max == self.max_frame_size_view()),
            frame@.len() <= self.max_frame_size_view() && frame@.len() <= 0xffff ==> (r matches Ok(p) && p@
                == be16_bytes(frame@.len() as u16) + frame@),
    {
        if frame.len() > self.max_frame_size || frame.len() > 0xffff {
            return Err(TransportError::Oversized { actual: frame.len(), max: self.max_frame_size });
        }
        let mut packet: Vec<u8> = Vec::new();
        put_u16(&mut packet, frame.len() as u16);
        put_slice(&mut packet, frame);
        Ok(packet)
    }

    /// What receiving makes of a 2-byte length prefix: the length of the
    /// frame that follows, or oversized when it exceeds the maximum frame size.
    pub fn incoming_length(&self, header: [u8; 2]) -> (r: Result<usize, TransportError>)
        ensures
            be16_at(header@, 0) > self.max_frame_size_view() ==> (r matches Err(TransportError::Oversized { actual, max })
                && actual == be16_at(header@, 0) && max == self.max_frame_size_view()),
            be16_at(header@, 0) <= self.max_frame_size_view() ==> (r matches Ok(n) && n == be16_at(header@, 0)),
    {
        let len = get_u16(header.as_slice(), 0) as usize;
        if len > self.max_frame_size {
            return Err(TransportError::Oversized { actual: len, max: self.max_frame_size });
        }
        Ok(len)
    }
}

} // verus!
