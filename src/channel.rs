//! The object channel: one framed value per call over an owned byte stream.
use vstd::prelude::*;

use crate::error::ChannelError;
use crate::frame::{decode_len, frame, frame_of, parse_frame, MAX_PAYLOAD};
use crate::stream::ByteStream;

verus! {

/// A codec's encoding side: turns a value into payload bytes, or fails when
/// the value has no representation in the codec's format.
///
/// The default body of `encoding` stands for a codec written outside
/// verified code, of which nothing is proved.
pub trait Encode {
    /// The payload the codec makes of this value, or `None` when it has none.
    open spec fn encoding(&self) -> Option<Seq<u8>> {
        None
    }

    fn encode(&self) -> (r: Option<Vec<u8>>)
        ensures
            r is Some <==> self.encoding() is Some,
            r is Some ==> r->0@ == self.encoding()->0,
    ;
}

/// A codec's decoding side: rebuilds a value from payload bytes, or fails
/// when the bytes do not describe a value of this type.
///
/// The default body of `decoding` stands for a codec written outside
/// verified code, of which nothing is proved.
pub trait Decode: Sized {
    /// The value the codec reads from `bytes`, or `None` when they describe
    /// no value of this type.
    open spec fn decoding(bytes: Seq<u8>) -> Option<Self> {
        None
    }

    fn decode(bytes: &[u8]) -> (r: Option<Self>)
        ensures
            r == Self::decoding(bytes@),
    ;
}

/// What receiving a frame with `payload` gives: the decoded value, or
/// `Decode` when the codec rejects the bytes.
pub open spec fn decoded<U: Decode>(payload: Seq<u8>) -> Result<U, ChannelError> {
    match U::decoding(payload) {
        Some(v) => Ok(v),
        None => Err(ChannelError::Decode),
    }
}

/// Sends and receives whole values over the byte stream it owns.
///
/// Each value travels as one frame. The channel keeps no state of its own
/// between calls: everything it knows is in the stream.
pub struct ObjectStream<S> {
    stream: S,
}

impl<S: ByteStream> ObjectStream<S> {
    /// The stream the channel owns.
    pub closed spec fn inner(&self) -> S {
        self.stream
    }

    /// Wraps a connected stream; no byte is read or written.
    pub fn new(stream: S) -> (r: ObjectStream<S>)
        ensures
            r.inner() == stream,
    {
        ObjectStream { stream }
    }

    /// The stream the channel owns.
    pub fn get_ref(&self) -> (r: &S)
        ensures
            *r == self.inner(),
    {
        &self.stream
    }

    /// Gives the stream back.
    pub fn into_inner(self) -> (r: S)
        ensures
            r == self.inner(),
    {
        self.stream
    }

    /// Writes `payload` as one frame and flushes the stream.
    ///
    /// A payload too long for the prefix fails with `Encode` before any byte
    /// is written. A failed write or flush fails with `Io` and may leave part
    /// of the frame on the stream.
    pub fn send_payload(&mut self, payload: &[u8]) -> (r: Result<(), ChannelError>)
        ensures
            payload@.len() > MAX_PAYLOAD <==> r == Err::<(), ChannelError>(ChannelError::Encode),
            r == Err::<(), ChannelError>(ChannelError::Encode) ==> *final(self) == *old(self),
            payload@.len() <= MAX_PAYLOAD && old(self).inner().reliable() ==> r is Ok,
            r is Ok ==> final(self).inner().written() == old(self).inner().written() + frame_of(
                payload@,
            ),
            r is Ok ==> final(self).inner().incoming() == if old(self).inner().echoes() {
                old(self).inner().incoming() + frame_of(payload@)
            } else {
                old(self).inner().incoming()
            },
            r is Ok ==> final(self).inner().reliable() == old(self).inner().reliable(),
            r is Ok ==> final(self).inner().echoes() == old(self).inner().echoes(),
            r != Err::<(), ChannelError>(ChannelError::Decode),
    {
        let bytes = match frame(payload) {
            Ok(bytes) => bytes,
            Err(e) => return Err(e),
        };
        if self.stream.write_all(bytes.as_slice()).is_err() {
            return Err(ChannelError::Io);
        }
        if self.stream.flush().is_err() {
            return Err(ChannelError::Io);
        }
        Ok(())
    }

    /// Reads one frame and returns its payload.
    ///
    /// Takes exactly the four prefix bytes and then exactly the payload they
    /// announce; fails with `Io` when the stream ends before the whole frame
    /// has arrived, and never returns a cut-off payload.
    pub fn recv_payload(&mut self) -> (r: Result<Vec<u8>, ChannelError>)
        ensures
            r is Ok <==> parse_frame(old(self).inner().incoming()) is Some,
            r is Ok ==> parse_frame(old(self).inner().incoming()) == Some(
                (r->Ok_0@, final(self).inner().incoming()),
            ),
            r is Err ==> r == Err::<Vec<u8>, ChannelError>(ChannelError::Io),
            final(self).inner().written() == old(self).inner().written(),
            final(self).inner().reliable() == old(self).inner().reliable(),
            final(self).inner().echoes() == old(self).inner().echoes(),
    {
        let ghost s = self.stream.incoming();
        let prefix = match self.stream.read_exact(4) {
            Ok(prefix) => prefix,
            Err(()) => return Err(ChannelError::Io),
        };
        let len = decode_len(prefix.as_slice());
        let payload = match self.stream.read_exact(len as usize) {
            Ok(payload) => payload,
            Err(()) => {
                assert(s.len() < 4 + len);
                return Err(ChannelError::Io);
            },
        };
        assert(payload@ =~= s.subrange(4, 4 + len as int));
        assert(self.stream.incoming() =~= s.skip(4 + len as int));
        Ok(payload)
    }

    /// Encodes `obj` in memory, then writes it as one frame and flushes.
    ///
    /// Fails with `Encode`, writing nothing, when the codec cannot encode the
    /// value or its payload is too long for the prefix; fails with `Io` when
    /// the stream does.
    pub fn send<U: Encode>(&mut self, obj: U) -> (r: Result<(), ChannelError>)
        ensures
            obj.encoding() is None ==> r == Err::<(), ChannelError>(ChannelError::Encode),
            obj.encoding() is Some ==> (obj.encoding()->0.len() > MAX_PAYLOAD <==> r == Err::<
                (),
                ChannelError,
            >(ChannelError::Encode)),
            r == Err::<(), ChannelError>(ChannelError::Encode) ==> *final(self) == *old(self),
            obj.encoding() is Some && obj.encoding()->0.len() <= MAX_PAYLOAD && old(
                self,
            ).inner().reliable() ==> r is Ok,
            r is Ok ==> final(self).inner().written() == old(self).inner().written() + frame_of(
                obj.encoding()->0,
            ),
            r is Ok ==> final(self).inner().incoming() == if old(self).inner().echoes() {
                old(self).inner().incoming() + frame_of(obj.encoding()->0)
            } else {
                old(self).inner().incoming()
            },
            r is Ok ==> final(self).inner().reliable() == old(self).inner().reliable(),
            r is Ok ==> final(self).inner().echoes() == old(self).inner().echoes(),
            r != Err::<(), ChannelError>(ChannelError::Decode),
    {
        let payload = match obj.encode() {
            Some(payload) => payload,
            None => return Err(ChannelError::Encode),
        };
        self.send_payload(payload.as_slice())
    }

    /// Reads one frame and decodes its payload as a `U`.
    ///
    /// Fails with `Io` when the stream ends before the whole frame has
    /// arrived. Once the frame is in, exactly its bytes have been taken,
    /// whether the codec accepts the payload or fails with `Decode`, so the
    /// next call starts at the next frame.
    pub fn recv<U: Decode>(&mut self) -> (r: Result<U, ChannelError>)
        ensures
            match parse_frame(old(self).inner().incoming()) {
                Some((payload, rest)) => {
                    &&& r == decoded::<U>(payload)
                    &&& final(self).inner().incoming() == rest
                },
                None => r == Err::<U, ChannelError>(ChannelError::Io),
            },
            final(self).inner().written() == old(self).inner().written(),
            final(self).inner().reliable() == old(self).inner().reliable(),
            final(self).inner().echoes() == old(self).inner().echoes(),
    {
        let payload = match self.recv_payload() {
            Ok(payload) => payload,
            Err(e) => return Err(e),
        };
        match U::decode(payload.as_slice()) {
            Some(obj) => Ok(obj),
            None => Err(ChannelError::Decode),
        }
    }
}

} // verus!
