//! Connection state machine for one HTTP exchange over a buffered duplex
//! stream: parse the request head once, read the body while the request
//! phase lasts, then start exactly one response and write it out. Every
//! operation checks the phase and fails fast on a violation, and the bytes
//! put on the wire are stated exactly.

use vstd::prelude::*;
use vstd::math::min;
use vstd::slice::{slice_subrange, slice_to_vec};
use crate::http;
use crate::http::{headers_view, Method, CR, LF, SP, COLON};
use crate::ProtocolError;

verus! {

/// The phase of one exchange. Transitions are one-directional: a phase once
/// left is never entered again.
#[derive(Clone, Copy, Debug, PartialEq, Eq, Structural)]
pub enum Phase {
    AwaitingRequest,
    HeadersReady,
    BodyInProgress,
    ResponseReady,
    Closed,
}

/// Whether a phase permits starting the response.
pub open spec fn can_respond(phase: Phase) -> bool {
    phase is HeadersReady || phase is BodyInProgress
}

/// Whether a phase permits reading the request body.
pub open spec fn can_read_body(phase: Phase) -> bool {
    phase is HeadersReady || phase is BodyInProgress
}

/// The decimal digits of a number, most significant first.
pub open spec fn dec_digits(n: int) -> Seq<u8>
    decreases n,
{
    if n < 0 {
        Seq::empty()
    } else if n < 10 {
        seq![(n + 48) as u8]
    } else {
        dec_digits(n / 10) + seq![(n % 10 + 48) as u8]
    }
}

/// The bytes of the fixed status-line prefix: the protocol version and one
/// space.
pub open spec fn status_prefix() -> Seq<u8> {
    seq![72u8, 84u8, 84u8, 80u8, 47u8, 49u8, 46u8, 49u8, 32u8]
}

/// The reason text of the plain success response.
pub open spec fn ok_reason() -> Seq<u8> {
    seq![79u8, 75u8]
}

/// The bytes of one response header line: name, colon and space, value, and
/// the line end.
pub open spec fn header_line_bytes(h: (Seq<u8>, Seq<u8>)) -> Seq<u8> {
    h.0 + seq![COLON, SP] + h.1 + seq![CR, LF]
}

/// The bytes of a block of response header lines, in order.
pub open spec fn header_block(hs: Seq<(Seq<u8>, Seq<u8>)>) -> Seq<u8>
    decreases hs.len(),
{
    if hs.len() == 0 {
        Seq::empty()
    } else {
        header_line_bytes(hs[0]) + header_block(hs.drop_first())
    }
}

/// The bytes of a whole response head: status line, header block, and the
/// empty line that ends the head.
pub open spec fn response_head(status: u16, reason: Seq<u8>, hs: Seq<(Seq<u8>, Seq<u8>)>) -> Seq<
    u8,
> {
    status_prefix() + dec_digits(status as int) + seq![SP] + reason + seq![CR, LF] + header_block(
        hs,
    ) + seq![CR, LF]
}

/// One HTTP exchange over a buffered duplex stream: the received bytes, the
/// parsed request once the head is consumed, and the bytes written back.
pub struct Connection {
    pub phase: Phase,
    pub input: Vec<u8>,
    pub method: Method,
    pub path: Vec<u8>,
    pub headers: Vec<(Vec<u8>, Vec<u8>)>,
    pub body: Vec<u8>,
    pub body_pos: usize,
    pub wire: Vec<u8>,
}

impl Connection {
    /// The read position never passes the end of the body.
    pub open spec fn wf(&self) -> bool {
        self.body_pos <= self.body@.len()
    }

    /// Wrap the received bytes of one exchange; nothing is consumed yet and
    /// nothing is on the wire.
    pub fn new(input: Vec<u8>) -> (conn: Connection)
        ensures
            conn.phase is AwaitingRequest,
            conn.input@ == input@,
            conn.wire@ == Seq::<u8>::empty(),
            conn.wf(),
    {
        Connection {
            phase: Phase::AwaitingRequest,
            input,
            method: Method::Get,
            path: Vec::new(),
            headers: Vec::new(),
            body: Vec::new(),
            body_pos: 0,
            wire: Vec::new(),
        }
    }

    /// Consume the request line and headers, legal exactly once per exchange
    /// and before anything else. A malformed head fails the exchange; a
    /// repeated call is a phase violation and changes nothing.
    pub fn parse_request(&mut self) -> (r: Result<(), ProtocolError>)
        requires
            old(self).wf(),
        ensures
            final(self).wf(),
            match r {
                Ok(()) => {
                    &&& old(self).phase is AwaitingRequest
                    &&& http::parse_request(old(self).input@) == Some(
                        (http::ReqParts {
                            method: final(self).method,
                            path: final(self).path@,
                            headers: headers_view(final(self).headers@),
                            body: final(self).body@,
                        }),
                    )
                    &&& final(self).phase is HeadersReady
                    &&& final(self).body_pos == 0
                    &&& final(self).wire@ == old(self).wire@
                    &&& final(self).input == old(self).input
                },
                Err(e) => if old(self).phase is AwaitingRequest {
                    &&& e == ProtocolError::Malformed
                    &&& http::parse_request(old(self).input@) is None
                    &&& *final(self) == (Connection { phase: Phase::Closed, ..*old(self) })
                } else {
                    &&& e == ProtocolError::OutOfPhase
                    &&& *final(self) == *old(self)
                },
            },
    {
        if !(self.phase == Phase::AwaitingRequest) {
            return Err(ProtocolError::OutOfPhase);
        }
        match http::parse_request_bytes(self.input.as_slice()) {
            Err(_) => {
                self.phase = Phase::Closed;
                Err(ProtocolError::Malformed)
            },
            Ok((head, body)) => {
                self.method = head.method;
                self.path = head.path;
                self.headers = head.headers;
                self.body = body;
                self.body_pos = 0;
                self.phase = Phase::HeadersReady;
                Ok(())
            },
        }
    }

    /// Read the next chunk of the request body, at most `max` bytes; an
    /// empty chunk signals the body is exhausted. Legal only while the
    /// request is being consumed.
    pub fn read_body(&mut self, max: usize) -> (r: Result<Vec<u8>, ProtocolError>)
        requires
            old(self).wf(),
        ensures
            final(self).wf(),
            match r {
                Ok(chunk) => {
                    &&& can_read_body(old(self).phase)
                    &&& chunk@ == old(self).body@.subrange(
                        old(self).body_pos as int,
                        old(self).body_pos + min(
                            max as int,
                            old(self).body@.len() - old(self).body_pos,
                        ),
                    )
                    &&& *final(self) == (Connection {
                        phase: Phase::BodyInProgress,
                        body_pos: (old(self).body_pos + min(
                            max as int,
                            old(self).body@.len() - old(self).body_pos,
                        )) as usize,
                        ..*old(self)
                    })
                },
                Err(e) => {
                    &&& e == ProtocolError::OutOfPhase
                    &&& !can_read_body(old(self).phase)
                    &&& *final(self) == *old(self)
                },
            },
    {
        if !(self.phase == Phase::HeadersReady || self.phase == Phase::BodyInProgress) {
            return Err(ProtocolError::OutOfPhase);
        }
        self.phase = Phase::BodyInProgress;
        let remaining = self.body.len() - self.body_pos;
        let take = if max < remaining {
            max
        } else {
            remaining
        };
        let chunk = slice_to_vec(
            slice_subrange(self.body.as_slice(), self.body_pos, self.body_pos + take),
        );
        self.body_pos = self.body_pos + take;
        Ok(chunk)
    }

    /// Start the response: put the status line, the given headers and the
    /// empty line on the wire, and move irreversibly to the response phase.
    /// Legal only while the request is being consumed; in particular a
    /// second response on the same exchange is refused.
    pub fn into_response(
        &mut self,
        status: u16,
        reason: &[u8],
        headers: &Vec<(Vec<u8>, Vec<u8>)>,
    ) -> (r: Result<(), ProtocolError>)
        requires
            old(self).wf(),
        ensures
            final(self).wf(),
            match r {
                Ok(()) => {
                    &&& can_respond(old(self).phase)
                    &&& final(self).wire@ == old(self).wire@ + response_head(
                        status,
                        reason@,
                        headers_view(headers@),
                    )
                    &&& *final(self) == (Connection {
                        phase: Phase::ResponseReady,
                        wire: final(self).wire,
                        ..*old(self)
                    })
                },
                Err(e) => {
                    &&& e == ProtocolError::OutOfPhase
                    &&& !can_respond(old(self).phase)
                    &&& *final(self) == *old(self)
                },
            },
    {
        if !(self.phase == Phase::HeadersReady || self.phase == Phase::BodyInProgress) {
            return Err(ProtocolError::OutOfPhase);
        }
        let ghost wire0 = self.wire@;
        push_status_prefix(&mut self.wire);
        push_dec(&mut self.wire, status);
        self.wire.push(SP);
        push_bytes(&mut self.wire, reason);
        self.wire.push(CR);
        self.wire.push(LF);
        push_headers(&mut self.wire, headers);
        self.wire.push(CR);
        self.wire.push(LF);
        proof {
            assert(self.wire@ =~= wire0 + response_head(status, reason@, headers_view(headers@)));
        }
        self.phase = Phase::ResponseReady;
        Ok(())
    }

    /// Start the plain success response: status 200, reason text "OK", no
    /// headers beyond the empty line.
    pub fn into_ok_response(&mut self) -> (r: Result<(), ProtocolError>)
        requires
            old(self).wf(),
        ensures
            final(self).wf(),
            match r {
                Ok(()) => {
                    &&& can_respond(old(self).phase)
                    &&& final(self).wire@ == old(self).wire@ + response_head(
                        200,
                        ok_reason(),
                        Seq::empty(),
                    )
                    &&& *final(self) == (Connection {
                        phase: Phase::ResponseReady,
                        wire: final(self).wire,
                        ..*old(self)
                    })
                },
                Err(e) => {
                    &&& e == ProtocolError::OutOfPhase
                    &&& !can_respond(old(self).phase)
                    &&& *final(self) == *old(self)
                },
            },
    {
        let mut reason: Vec<u8> = Vec::new();
        reason.push(79);
        reason.push(75);
        proof {
            assert(reason@ =~= ok_reason());
        }
        let no_headers: Vec<(Vec<u8>, Vec<u8>)> = Vec::new();
        proof {
            assert(headers_view(no_headers@) =~= Seq::<(Seq<u8>, Seq<u8>)>::empty());
        }
        self.into_response(200, reason.as_slice(), &no_headers)
    }

    /// Write response body bytes to the wire; legal only after the response
    /// has been started and before the exchange is finalized.
    pub fn write(&mut self, data: &[u8]) -> (r: Result<(), ProtocolError>)
        requires
            old(self).wf(),
        ensures
            final(self).wf(),
            match r {
                Ok(()) => {
                    &&& old(self).phase is ResponseReady
                    &&& final(self).wire@ == old(self).wire@ + data@
                    &&& *final(self) == (Connection { wire: final(self).wire, ..*old(self) })
                },
                Err(e) => {
                    &&& e == ProtocolError::OutOfPhase
                    &&& !(old(self).phase is ResponseReady)
                    &&& *final(self) == *old(self)
                },
            },
    {
        if !(self.phase == Phase::ResponseReady) {
            return Err(ProtocolError::OutOfPhase);
        }
        push_bytes(&mut self.wire, data);
        Ok(())
    }

    /// Finalize the exchange: the connection closes and refuses any further
    /// operation, writes included.
    pub fn complete(&mut self) -> (r: Result<(), ProtocolError>)
        requires
            old(self).wf(),
        ensures
            final(self).wf(),
            match r {
                Ok(()) => {
                    &&& old(self).phase is ResponseReady
                    &&& *final(self) == (Connection { phase: Phase::Closed, ..*old(self) })
                },
                Err(e) => {
                    &&& e == ProtocolError::OutOfPhase
                    &&& !(old(self).phase is ResponseReady)
                    &&& *final(self) == *old(self)
                },
            },
    {
        if !(self.phase == Phase::ResponseReady) {
            return Err(ProtocolError::OutOfPhase);
        }
        self.phase = Phase::Closed;
        Ok(())
    }
}

/// Law: one exchange carries one response. Starting a response is permitted
/// only in phases that the started response leaves for good, so on the same
/// exchange a second response start, and any body read after the first, meet
/// a phase that permits neither and fail with a phase error.
pub proof fn lemma_response_writer_once(before: Connection, after: Connection)
    requires
        can_respond(before.phase),
        after.phase is ResponseReady,
    ensures
        !can_respond(after.phase),
        !can_read_body(after.phase),
{
}

/// Append all bytes of a slice.
fn push_bytes(out: &mut Vec<u8>, data: &[u8])
    ensures
        final(out)@ == old(out)@ + data@,
{
    let mut k: usize = 0;
    while k < data.len()
        invariant
            k <= data@.len(),
            out@ == old(out)@ + data@.take(k as int),
        decreases data@.len() - k,
    {
        out.push(data[k]);
        proof {
            assert(old(out)@ + data@.take(k + 1) =~= (old(out)@ + data@.take(k as int)).push(
                data@[k as int],
            ));
        }
        k += 1;
    }
    proof {
        assert(data@.take(data@.len() as int) =~= data@);
    }
}

/// Append the fixed status-line prefix.
fn push_status_prefix(out: &mut Vec<u8>)
    ensures
        final(out)@ == old(out)@ + status_prefix(),
{
    out.push(72);
    out.push(84);
    out.push(84);
    out.push(80);
    out.push(47);
    out.push(49);
    out.push(46);
    out.push(49);
    out.push(32);
    proof {
        assert(out@ =~= old(out)@ + status_prefix());
    }
}

/// Append the decimal digits of a status number.
fn push_dec(out: &mut Vec<u8>, n: u16)
    ensures
        final(out)@ == old(out)@ + dec_digits(n as int),
    decreases n,
{
    if n >= 10 {
        push_dec(out, n / 10);
        out.push((n % 10) as u8 + 48);
        proof {
            assert(n as int / 10 == (n / 10) as int);
            assert(out@ =~= old(out)@ + dec_digits(n as int));
        }
    } else {
        out.push(n as u8 + 48);
        proof {
            assert(out@ =~= old(out)@ + dec_digits(n as int));
        }
    }
}

/// The header block of two header runs in a row is the two blocks in a row.
proof fn lemma_header_block_concat(a: Seq<(Seq<u8>, Seq<u8>)>, b: Seq<(Seq<u8>, Seq<u8>)>)
    ensures
        header_block(a + b) == header_block(a) + header_block(b),
    decreases a.len(),
{
    if a.len() == 0 {
        assert(a + b =~= b);
        assert(header_block(a) + header_block(b) =~= header_block(b));
    } else {
        assert((a + b).drop_first() =~= a.drop_first() + b);
        lemma_header_block_concat(a.drop_first(), b);
        assert(header_block(a + b) =~= header_block(a) + header_block(b));
    }
}

/// Append one header line.
fn push_header_line(out: &mut Vec<u8>, name: &[u8], value: &[u8])
    ensures
        final(out)@ == old(out)@ + header_line_bytes((name@, value@)),
{
    push_bytes(out, name);
    out.push(COLON);
    out.push(SP);
    push_bytes(out, value);
    out.push(CR);
    out.push(LF);
    proof {
        assert(out@ =~= old(out)@ + header_line_bytes((name@, value@)));
    }
}

/// Append a whole block of header lines, in order.
fn push_headers(out: &mut Vec<u8>, headers: &Vec<(Vec<u8>, Vec<u8>)>)
    ensures
        final(out)@ == old(out)@ + header_block(headers_view(headers@)),
{
    let mut k: usize = 0;
    while k < headers.len()
        invariant
            k <= headers@.len(),
            out@ == old(out)@ + header_block(headers_view(headers@.take(k as int))),
        decreases headers@.len() - k,
    {
        let ghost before = headers_view(headers@.take(k as int));
        push_header_line(out, headers[k].0.as_slice(), headers[k].1.as_slice());
        proof {
            let h = (headers@[k as int].0@, headers@[k as int].1@);
            lemma_header_block_concat(before, seq![h]);
            assert(headers_view(headers@.take(k + 1)) =~= before + seq![h]);
            assert(seq![h].drop_first() =~= Seq::<(Seq<u8>, Seq<u8>)>::empty());
            assert(header_block(Seq::<(Seq<u8>, Seq<u8>)>::empty()) =~= Seq::<u8>::empty());
            assert(header_block(seq![h]) =~= header_line_bytes(h));
            assert(out@ =~= old(out)@ + header_block(headers_view(headers@.take(k + 1))));
        }
        k += 1;
    }
    proof {
        assert(headers@.take(headers@.len() as int) =~= headers@);
    }
}

} // verus!
