//! The request parser: from the bytes read off a connection to the three fields
//! of the request line, or to the kind of error response that the bytes earn.

use vstd::prelude::*;
use vstd::slice::slice_to_vec;
use vstd::utf8::valid_utf8;
use crate::bytes::{contains_byte, crlf, find, first_match, line_end, same, text, CR, LF, SLASH, SP};
use crate::encoding::is_utf8;
use crate::status::ResponseKind;

verus! {

/// The only method the server answers.
pub const GET: &'static str = "GET";

/// One parsed request line.
#[derive(Debug, PartialEq, Eq)]
pub struct Request {
    pub method: Vec<u8>,
    pub target: Vec<u8>,
    pub version: Vec<u8>,
}

/// The fields of a request line, as mathematical values.
pub struct RequestView {
    pub method: Seq<u8>,
    pub target: Seq<u8>,
    pub version: Seq<u8>,
}

impl View for Request {
    type V = RequestView;

    open spec fn view(&self) -> RequestView {
        RequestView { method: self.method@, target: self.target@, version: self.version@ }
    }
}

/// The fields of `s` that the separator `sep` delimits. Every separator ends one
/// field and starts the next, so a text with `n` separators has `n + 1` fields,
/// empty ones among them.
pub open spec fn split(s: Seq<u8>, sep: u8) -> Seq<Seq<u8>>
    decreases s.len(),
{
    if s.len() == 0 {
        seq![Seq::empty()]
    } else {
        let front = split(s.drop_last(), sep);
        if s.last() == sep {
            front.push(Seq::empty())
        } else {
            front.drop_last().push(front.last().push(s.last()))
        }
    }
}

/// What a request line amounts to: a request when it has exactly three fields
/// and the first is `GET`; a bad request with any other number of fields; not
/// found with another method.
pub open spec fn parse_line(line: Seq<u8>) -> Result<RequestView, ResponseKind> {
    let fields = split(line, SP);
    if fields.len() != 3 {
        Err(ResponseKind::BadRequest)
    } else if fields[0] != text(GET) {
        Err(ResponseKind::NotFound)
    } else {
        Ok(RequestView { method: fields[0], target: fields[1], version: fields[2] })
    }
}

/// The request line of `head`: what stands before the first line terminator.
pub open spec fn request_line(head: Seq<u8>) -> Option<Seq<u8>> {
    match first_match(head, crlf()) {
        Some(end) => Some(head.subrange(0, end)),
        None => None,
    }
}

/// What the bytes read off a connection amount to. Bytes that are not UTF-8 are
/// a bad request. Without a line terminator the target is taken to have
/// overflowed the read budget. A request line with a stray carriage return or
/// line feed is a bad request. Whatever follows the first line terminator is
/// never looked at.
pub open spec fn parse_head(head: Seq<u8>) -> Result<RequestView, ResponseKind> {
    if !valid_utf8(head) {
        Err(ResponseKind::BadRequest)
    } else {
        match request_line(head) {
            None => Err(ResponseKind::RequestTargetTooLong),
            Some(line) => if line.contains(CR) || line.contains(LF) {
                Err(ResponseKind::BadRequest)
            } else {
                parse_line(line)
            },
        }
    }
}

/// The lookup token of a request target: the target without its leading slash.
pub open spec fn token_of(target: Seq<u8>) -> Seq<u8> {
    if target.len() > 0 && target[0] == SLASH {
        target.drop_first()
    } else {
        target
    }
}

/// One more byte either starts a new field or extends the last one.
pub proof fn lemma_split_push(s: Seq<u8>, b: u8, sep: u8)
    ensures
        split(s, sep).len() >= 1,
        split(s.push(b), sep) == if b == sep {
            split(s, sep).push(Seq::empty())
        } else {
            split(s, sep).drop_last().push(split(s, sep).last().push(b))
        },
    decreases s.len(),
{
    if s.len() > 0 {
        lemma_split_push(s.drop_last(), s.last(), sep);
        assert(s.drop_last().push(s.last()) =~= s);
    }
    assert(s.push(b).drop_last() =~= s);
}

/// Text without a separator is one field.
pub proof fn lemma_split_one(s: Seq<u8>, sep: u8)
    requires
        !s.contains(sep),
    ensures
        split(s, sep) == seq![s],
    decreases s.len(),
{
    if s.len() == 0 {
        assert(s =~= Seq::<u8>::empty());
    } else {
        let front = s.drop_last();
        assert forall|i: int| 0 <= i < front.len() implies front[i] != sep by {
            assert(s[i] == front[i]);
            assert(s.contains(s[i]));
        }
        lemma_split_one(front, sep);
        assert(s.contains(s.last()));
        assert(front.push(s.last()) =~= s);
        assert(split(s, sep) =~= seq![s]);
    }
}

/// Text that follows a separator and holds none itself is the last field.
pub proof fn lemma_split_append(a: Seq<u8>, b: Seq<u8>, sep: u8)
    requires
        !b.contains(sep),
    ensures
        split(a + seq![sep] + b, sep) == split(a, sep).push(b),
    decreases b.len(),
{
    if b.len() == 0 {
        assert(a + seq![sep] + b =~= a.push(sep));
        lemma_split_push(a, sep, sep);
        assert(b =~= Seq::<u8>::empty());
    } else {
        let front = b.drop_last();
        assert forall|i: int| 0 <= i < front.len() implies front[i] != sep by {
            assert(b[i] == front[i]);
            assert(b.contains(b[i]));
        }
        assert(b.contains(b.last()));
        lemma_split_append(a, front, sep);
        lemma_split_push(a + seq![sep] + front, b.last(), sep);
        assert((a + seq![sep] + front).push(b.last()) =~= a + seq![sep] + b);
        assert(front.push(b.last()) =~= b);
        assert(split(a, sep).push(front).drop_last() =~= split(a, sep));
    }
}

/// Three texts without a space, joined by single spaces, split into just those three.
pub proof fn lemma_split_three(method: Seq<u8>, target: Seq<u8>, version: Seq<u8>)
    requires
        !method.contains(SP),
        !target.contains(SP),
        !version.contains(SP),
    ensures
        split(method + seq![SP] + target + seq![SP] + version, SP) == seq![
            method,
            target,
            version,
        ],
{
    lemma_split_one(method, SP);
    lemma_split_append(method, target, SP);
    lemma_split_append(method + seq![SP] + target, version, SP);
    assert(seq![method].push(target).push(version) =~= seq![method, target, version]);
}

/// Parses one request line, already freed of its terminator.
pub fn parse_request_line(line: &[u8]) -> (r: Result<Request, ResponseKind>)
    ensures
        match r {
            Ok(request) => parse_line(line@) == Ok::<RequestView, ResponseKind>(request@),
            Err(kind) => parse_line(line@) == Err::<RequestView, ResponseKind>(kind),
        },
{
    let n: usize = line.len();
    let mut spaces: usize = 0;
    let mut first: usize = 0;
    let mut second: usize = 0;
    let mut i: usize = 0;
    assert(line@.subrange(0, 0) =~= Seq::<u8>::empty());
    while i < n
        invariant
            n == line.len(),
            i <= n,
            spaces <= i,
            split(line@.subrange(0, i as int), SP).len() == spaces + 1,
            spaces == 0 ==> split(line@.subrange(0, i as int), SP)[0] == line@.subrange(
                0,
                i as int,
            ),
            spaces >= 1 ==> first < i && split(line@.subrange(0, i as int), SP)[0]
                == line@.subrange(0, first as int),
            spaces == 1 ==> split(line@.subrange(0, i as int), SP)[1] == line@.subrange(
                first + 1,
                i as int,
            ),
            spaces >= 2 ==> first < second < i && split(line@.subrange(0, i as int), SP)[1]
                == line@.subrange(first + 1, second as int),
            spaces == 2 ==> split(line@.subrange(0, i as int), SP)[2] == line@.subrange(
                second + 1,
                i as int,
            ),
        decreases n - i,
    {
        let ghost before = line@.subrange(0, i as int);
        let ghost fields = split(before, SP);
        proof {
            lemma_split_push(before, line@[i as int], SP);
            assert(before.push(line@[i as int]) =~= line@.subrange(0, i + 1));
        }
        if line[i] == SP {
            if spaces == 0 {
                first = i;
                assert(line@.subrange(first + 1, i + 1) =~= Seq::<u8>::empty());
            } else if spaces == 1 {
                second = i;
                assert(line@.subrange(second + 1, i + 1) =~= Seq::<u8>::empty());
            }
            spaces += 1;
        } else {
            proof {
                if spaces == 0 {
                    assert(line@.subrange(0, i as int).push(line@[i as int]) =~= line@.subrange(
                        0,
                        i + 1,
                    ));
                } else if spaces == 1 {
                    assert(line@.subrange(first + 1, i as int).push(line@[i as int])
                        =~= line@.subrange(first + 1, i + 1));
                } else if spaces == 2 {
                    assert(line@.subrange(second + 1, i as int).push(line@[i as int])
                        =~= line@.subrange(second + 1, i + 1));
                }
            }
        }
        i += 1;
    }
    assert(line@.subrange(0, n as int) =~= line@);
    if spaces != 2 {
        return Err(ResponseKind::BadRequest);
    }
    let method = &line[0..first];
    if !same(method, GET.as_bytes()) {
        return Err(ResponseKind::NotFound);
    }
    Ok(
        Request {
            method: slice_to_vec(method),
            target: slice_to_vec(&line[first + 1..second]),
            version: slice_to_vec(&line[second + 1..n]),
        },
    )
}

/// Parses what was read off a connection: the request line and whatever came
/// after it, which is discarded.
pub fn parse_request(head: &[u8]) -> (r: Result<Request, ResponseKind>)
    ensures
        match r {
            Ok(request) => parse_head(head@) == Ok::<RequestView, ResponseKind>(request@),
            Err(kind) => parse_head(head@) == Err::<RequestView, ResponseKind>(kind),
        },
{
    if !is_utf8(head) {
        return Err(ResponseKind::BadRequest);
    }
    let terminator = line_end();
    match find(head, terminator.as_slice()) {
        None => Err(ResponseKind::RequestTargetTooLong),
        Some(end) => {
            proof {
                crate::bytes::lemma_first_match(head@, crlf());
            }
            let line = &head[0..end];
            if contains_byte(line, CR) || contains_byte(line, LF) {
                Err(ResponseKind::BadRequest)
            } else {
                parse_request_line(line)
            }
        },
    }
}

/// The lookup token of a request target: the target without its leading slash.
pub fn token(target: &[u8]) -> (t: &[u8])
    ensures
        t@ == token_of(target@),
{
    if target.len() > 0 && target[0] == SLASH {
        let t = &target[1..target.len()];
        assert(t@ =~= target@.drop_first());
        t
    } else {
        target
    }
}

} // verus!
