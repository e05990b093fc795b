//! The HTTP request-head grammar this layer owns: a request line of method,
//! path and version, then header lines of name and value, ended by an empty
//! line, with the body as the remainder. The grammar is stated by
//! specification-level parsing functions over byte sequences, and the
//! executable parser is proved to return exactly what they say.

use vstd::prelude::*;
use vstd::slice::{slice_subrange, slice_to_vec};
use crate::ProtocolError;

verus! {

pub const CR: u8 = 13;

pub const LF: u8 = 10;

pub const SP: u8 = 32;

pub const COLON: u8 = 58;

/// HTTP request method.
#[derive(Clone, Copy, Debug, PartialEq, Eq, Structural)]
pub enum Method {
    Get,
    Post,
    Put,
    Delete,
    Head,
}

/// The byte name of a method, as it stands in a request line.
pub open spec fn method_name(m: Method) -> Seq<u8> {
    match m {
        Method::Get => seq![71u8, 69u8, 84u8],
        Method::Post => seq![80u8, 79u8, 83u8, 84u8],
        Method::Put => seq![80u8, 85u8, 84u8],
        Method::Delete => seq![68u8, 69u8, 76u8, 69u8, 84u8, 69u8],
        Method::Head => seq![72u8, 69u8, 65u8, 68u8],
    }
}

/// The method a byte token names, if any.
pub open spec fn spec_method(name: Seq<u8>) -> Option<Method> {
    if name == method_name(Method::Get) {
        Some(Method::Get)
    } else if name == method_name(Method::Post) {
        Some(Method::Post)
    } else if name == method_name(Method::Put) {
        Some(Method::Put)
    } else if name == method_name(Method::Delete) {
        Some(Method::Delete)
    } else if name == method_name(Method::Head) {
        Some(Method::Head)
    } else {
        None
    }
}

/// The least index where the byte pair `a`, `b` starts in `s`, if any.
pub open spec fn find_pair(s: Seq<u8>, a: u8, b: u8) -> Option<int>
    decreases s.len(),
{
    if s.len() < 2 {
        None
    } else if s[0] == a && s[1] == b {
        Some(0)
    } else {
        match find_pair(s.drop_first(), a, b) {
            Some(i) => Some(i + 1),
            None => None,
        }
    }
}

/// The least index of the byte `x` in `s`, if any.
pub open spec fn find_byte(s: Seq<u8>, x: u8) -> Option<int>
    decreases s.len(),
{
    if s.len() == 0 {
        None
    } else if s[0] == x {
        Some(0)
    } else {
        match find_byte(s.drop_first(), x) {
            Some(i) => Some(i + 1),
            None => None,
        }
    }
}

/// What `find_pair` finds is the pair, and the least occurrence of it.
pub proof fn lemma_find_pair(s: Seq<u8>, a: u8, b: u8)
    ensures
        match find_pair(s, a, b) {
            Some(i) => 0 <= i && i + 2 <= s.len() && s[i] == a && s[i + 1] == b && (forall|j: int|
                0 <= j < i ==> !(#[trigger] s[j] == a && s[j + 1] == b)),
            None => forall|j: int|
                0 <= j && j + 2 <= s.len() ==> !(#[trigger] s[j] == a && s[j + 1] == b),
        },
    decreases s.len(),
{
    if s.len() < 2 {
    } else if s[0] == a && s[1] == b {
    } else {
        lemma_find_pair(s.drop_first(), a, b);
        assert(forall|j: int|
            1 <= j && j + 2 <= s.len() ==> #[trigger] s[j] == s.drop_first()[j - 1] && s[j + 1]
                == s.drop_first()[j]);
    }
}

/// What `find_byte` finds is the byte, and the least occurrence of it.
pub proof fn lemma_find_byte(s: Seq<u8>, x: u8)
    ensures
        match find_byte(s, x) {
            Some(i) => 0 <= i < s.len() && s[i] == x && (forall|j: int| 0 <= j < i ==> s[j] != x),
            None => forall|j: int| 0 <= j < s.len() ==> s[j] != x,
        },
    decreases s.len(),
{
    if s.len() == 0 {
    } else if s[0] == x {
    } else {
        lemma_find_byte(s.drop_first(), x);
        assert(forall|j: int| 1 <= j < s.len() ==> #[trigger] s[j] == s.drop_first()[j - 1]);
    }
}

/// Split off the first line: the bytes before the first CRLF, and the bytes
/// after it. A sequence with no CRLF has no line.
pub open spec fn split_line(s: Seq<u8>) -> Option<(Seq<u8>, Seq<u8>)> {
    match find_pair(s, CR, LF) {
        Some(i) => if 0 <= i && i + 2 <= s.len() {
            Some((s.take(i), s.skip(i + 2)))
        } else {
            None
        },
        None => None,
    }
}

/// Parse one header line: the name before the first colon, which must not be
/// empty, and the value after it, with one optional space after the colon.
pub open spec fn parse_header_line(line: Seq<u8>) -> Option<(Seq<u8>, Seq<u8>)> {
    match find_byte(line, COLON) {
        Some(i) => if 1 <= i && i + 1 <= line.len() {
            let after = line.skip(i + 1);
            let value = if after.len() > 0 && after[0] == SP {
                after.drop_first()
            } else {
                after
            };
            Some((line.take(i), value))
        } else {
            None
        },
        None => None,
    }
}

/// Parse header lines up to and including the empty line; the remainder is
/// the body. A head with no terminating empty line is malformed.
pub open spec fn parse_headers(s: Seq<u8>) -> Option<(Seq<(Seq<u8>, Seq<u8>)>, Seq<u8>)>
    decreases s.len(),
{
    match split_line(s) {
        None => None,
        Some((line, rest)) => if line.len() == 0 {
            Some((Seq::empty(), rest))
        } else {
            match parse_header_line(line) {
                None => None,
                Some(h) => match parse_headers(rest) {
                    None => None,
                    Some((hs, body)) => Some((seq![h] + hs, body)),
                },
            }
        },
    }
}

/// Parse the request line: a method name, one space, a nonempty path, one
/// space, and the version text, which is not interpreted.
pub open spec fn parse_request_line(line: Seq<u8>) -> Option<(Method, Seq<u8>)> {
    match find_byte(line, SP) {
        None => None,
        Some(i) => if 0 <= i && i + 1 <= line.len() {
            match spec_method(line.take(i)) {
                None => None,
                Some(m) => {
                    let rest = line.skip(i + 1);
                    match find_byte(rest, SP) {
                        None => None,
                        Some(j) => if 0 < j && j + 1 <= rest.len() {
                            Some((m, rest.take(j)))
                        } else {
                            None
                        },
                    }
                },
            }
        } else {
            None
        },
    }
}

/// The parts of a parsed request: method, path, headers in order, and body.
pub struct ReqParts {
    pub method: Method,
    pub path: Seq<u8>,
    pub headers: Seq<(Seq<u8>, Seq<u8>)>,
    pub body: Seq<u8>,
}

/// Parse a whole request: the request line, then the headers, then the body.
pub open spec fn parse_request(s: Seq<u8>) -> Option<ReqParts> {
    match split_line(s) {
        None => None,
        Some((line, rest)) => match parse_request_line(line) {
            None => None,
            Some((m, path)) => match parse_headers(rest) {
                None => None,
                Some((hs, body)) => Some(ReqParts { method: m, path, headers: hs, body }),
            },
        },
    }
}

/// The header pairs of an executable head, as byte sequences.
pub open spec fn headers_view(hs: Seq<(Vec<u8>, Vec<u8>)>) -> Seq<(Seq<u8>, Seq<u8>)> {
    hs.map_values(|h: (Vec<u8>, Vec<u8>)| (h.0@, h.1@))
}

/// Find the least CRLF position in a byte slice.
fn find_pair_exec(s: &[u8], a: u8, b: u8) -> (r: Option<usize>)
    ensures
        match r {
            Some(i) => find_pair(s@, a, b) == Some(i as int),
            None => find_pair(s@, a, b) is None,
        },
{
    if s.len() < 2 {
        return None;
    }
    let mut i: usize = 0;
    while i <= s.len() - 2
        invariant
            s@.len() >= 2,
            i <= s@.len(),
            forall|j: int| 0 <= j < i ==> !(#[trigger] s@[j] == a && s@[j + 1] == b),
        decreases s@.len() - i,
    {
        if s[i] == a && s[i + 1] == b {
            proof {
                lemma_find_pair(s@, a, b);
                match find_pair(s@, a, b) {
                    Some(k) => {
                        assert(!(k < i)) by {
                            if k < i {
                                assert(!(s@[k] == a && s@[k + 1] == b));
                            }
                        }
                        assert(!(k > i)) by {
                            if k > i {
                                assert(!(s@[i as int] == a && s@[i as int + 1] == b));
                            }
                        }
                    },
                    None => {
                        assert(!(s@[i as int] == a && s@[i as int + 1] == b));
                    },
                }
            }
            return Some(i);
        }
        i += 1;
    }
    proof {
        lemma_find_pair(s@, a, b);
        if let Some(k) = find_pair(s@, a, b) {
            assert(!(s@[k] == a && s@[k + 1] == b));
        }
    }
    None
}

/// Find the least position of a byte in a byte slice.
fn find_byte_exec(s: &[u8], x: u8) -> (r: Option<usize>)
    ensures
        match r {
            Some(i) => find_byte(s@, x) == Some(i as int),
            None => find_byte(s@, x) is None,
        },
{
    let mut i: usize = 0;
    while i < s.len()
        invariant
            i <= s@.len(),
            forall|j: int| 0 <= j < i ==> s@[j] != x,
        decreases s@.len() - i,
    {
        if s[i] == x {
            proof {
                lemma_find_byte(s@, x);
                match find_byte(s@, x) {
                    Some(k) => {
                        assert(!(k > i)) by {
                            if k > i {
                                assert(s@[i as int] != x);
                            }
                        }
                    },
                    None => {
                        assert(s@[i as int] != x);
                    },
                }
            }
            return Some(i);
        }
        i += 1;
    }
    proof {
        lemma_find_byte(s@, x);
        if let Some(k) = find_byte(s@, x) {
            assert(s@[k] != x);
        }
    }
    None
}

/// Recognize a method token.
fn parse_method_token(token: &[u8]) -> (r: Option<Method>)
    ensures
        r == spec_method(token@),
{
    if token.len() == 3 && token[0] == 71 && token[1] == 69 && token[2] == 84 {
        proof {
            assert(token@ =~= method_name(Method::Get));
        }
        Some(Method::Get)
    } else if token.len() == 4 && token[0] == 80 && token[1] == 79 && token[2] == 83 && token[3]
        == 84 {
        proof {
            assert(token@ =~= method_name(Method::Post));
        }
        Some(Method::Post)
    } else if token.len() == 3 && token[0] == 80 && token[1] == 85 && token[2] == 84 {
        proof {
            assert(token@ =~= method_name(Method::Put));
        }
        Some(Method::Put)
    } else if token.len() == 6 && token[0] == 68 && token[1] == 69 && token[2] == 76 && token[3]
        == 69 && token[4] == 84 && token[5] == 69 {
        proof {
            assert(token@ =~= method_name(Method::Delete));
        }
        Some(Method::Delete)
    } else if token.len() == 4 && token[0] == 72 && token[1] == 69 && token[2] == 65 && token[3]
        == 68 {
        proof {
            assert(token@ =~= method_name(Method::Head));
        }
        Some(Method::Head)
    } else {
        proof {
            assert(token@ != method_name(Method::Get));
            assert(token@ != method_name(Method::Post));
            assert(token@ != method_name(Method::Put));
            assert(token@ != method_name(Method::Delete));
            assert(token@ != method_name(Method::Head));
        }
        None
    }
}

/// Parse one header line into owned name and value bytes.
fn parse_header_line_exec(line: &[u8]) -> (r: Option<(Vec<u8>, Vec<u8>)>)
    ensures
        match r {
            Some(h) => parse_header_line(line@) == Some((h.0@, h.1@)),
            None => parse_header_line(line@) is None,
        },
{
    proof {
        lemma_find_byte(line@, COLON);
    }
    match find_byte_exec(line, COLON) {
        None => None,
        Some(i) => {
            if i == 0 {
                None
            } else {
                let n = line.len();
                let name = slice_to_vec(slice_subrange(line, 0, i));
                let after = slice_subrange(line, i + 1, n);
                proof {
                    assert(line@.take(i as int) =~= line@.subrange(0, i as int));
                    assert(line@.skip(i as int + 1) =~= after@);
                }
                let value = if after.len() > 0 && after[0] == SP {
                    let v = slice_to_vec(slice_subrange(after, 1, after.len()));
                    proof {
                        assert(after@.drop_first() =~= after@.subrange(1, after@.len() as int));
                    }
                    v
                } else {
                    slice_to_vec(after)
                };
                Some((name, value))
            }
        },
    }
}

/// Parse the request line into the method and an owned path.
fn parse_request_line_exec(line: &[u8]) -> (r: Result<(Method, Vec<u8>), ProtocolError>)
    ensures
        match r {
            Ok(p) => parse_request_line(line@) == Some((p.0, p.1@)),
            Err(e) => parse_request_line(line@) is None && e == ProtocolError::Malformed,
        },
{
    proof {
        lemma_find_byte(line@, SP);
    }
    match find_byte_exec(line, SP) {
        None => Err(ProtocolError::Malformed),
        Some(i) => {
            let token = slice_subrange(line, 0, i);
            proof {
                assert(line@.take(i as int) =~= token@);
            }
            match parse_method_token(token) {
                None => Err(ProtocolError::Malformed),
                Some(m) => {
                    let rest = slice_subrange(line, i + 1, line.len());
                    proof {
                        assert(line@.skip(i as int + 1) =~= rest@);
                        lemma_find_byte(rest@, SP);
                    }
                    match find_byte_exec(rest, SP) {
                        None => Err(ProtocolError::Malformed),
                        Some(j) => {
                            if j == 0 {
                                Err(ProtocolError::Malformed)
                            } else {
                                let path = slice_to_vec(slice_subrange(rest, 0, j));
                                proof {
                                    assert(rest@.take(j as int) =~= path@);
                                }
                                Ok((m, path))
                            }
                        },
                    }
                },
            }
        },
    }
}

/// Parse the header section into owned header pairs and the body bytes.
fn parse_headers_exec(s: &[u8]) -> (r: Result<(Vec<(Vec<u8>, Vec<u8>)>, Vec<u8>), ProtocolError>)
    ensures
        match r {
            Ok(p) => parse_headers(s@) == Some((headers_view(p.0@), p.1@)),
            Err(e) => parse_headers(s@) is None && e == ProtocolError::Malformed,
        },
    decreases s@.len(),
{
    proof {
        lemma_find_pair(s@, CR, LF);
    }
    match find_pair_exec(s, CR, LF) {
        None => Err(ProtocolError::Malformed),
        Some(i) => {
            let n = s.len();
            let rest = slice_subrange(s, i + 2, n);
            proof {
                assert(s@.skip(i as int + 2) =~= rest@);
                assert(s@.take(i as int) =~= s@.subrange(0, i as int));
            }
            if i == 0 {
                let empty: Vec<(Vec<u8>, Vec<u8>)> = Vec::new();
                proof {
                    assert(headers_view(empty@) =~= Seq::<(Seq<u8>, Seq<u8>)>::empty());
                }
                Ok((empty, slice_to_vec(rest)))
            } else {
                let line = slice_subrange(s, 0, i);
                match parse_header_line_exec(line) {
                    None => Err(ProtocolError::Malformed),
                    Some((name, value)) => {
                        match parse_headers_exec(rest) {
                            Err(e) => Err(e),
                            Ok((mut hs, body)) => {
                                let ghost old_hs = hs@;
                                hs.insert(0, (name, value));
                                proof {
                                    assert(headers_view(hs@) =~= seq![(name@, value@)]
                                        + headers_view(old_hs));
                                }
                                Ok((hs, body))
                            },
                        }
                    },
                }
            }
        },
    }
}

/// A parsed request head: the method, path and headers of one exchange.
#[derive(Debug)]
pub struct RequestHead {
    pub method: Method,
    pub path: Vec<u8>,
    pub headers: Vec<(Vec<u8>, Vec<u8>)>,
}

/// Parse a whole buffered request. The head and body come back exactly as
/// the grammar says, and a buffer the grammar rejects is malformed.
pub fn parse_request_bytes(input: &[u8]) -> (r: Result<(RequestHead, Vec<u8>), ProtocolError>)
    ensures
        match r {
            Ok(p) => parse_request(input@) == Some(
                ReqParts {
                    method: p.0.method,
                    path: p.0.path@,
                    headers: headers_view(p.0.headers@),
                    body: p.1@,
                },
            ),
            Err(e) => parse_request(input@) is None && e == ProtocolError::Malformed,
        },
{
    proof {
        lemma_find_pair(input@, CR, LF);
    }
    match find_pair_exec(input, CR, LF) {
        None => Err(ProtocolError::Malformed),
        Some(i) => {
            let n = input.len();
            let line = slice_subrange(input, 0, i);
            let rest = slice_subrange(input, i + 2, n);
            proof {
                assert(input@.take(i as int) =~= line@);
                assert(input@.skip(i as int + 2) =~= rest@);
            }
            match parse_request_line_exec(line) {
                Err(e) => Err(e),
                Ok((method, path)) => {
                    match parse_headers_exec(rest) {
                        Err(e) => Err(e),
                        Ok((headers, body)) => Ok((RequestHead { method, path, headers }, body)),
                    }
                },
            }
        },
    }
}

} // verus!
