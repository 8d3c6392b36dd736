//! Response framing: the bytes that are written to the connection.

use vstd::prelude::*;
use vstd::utf8::encode_utf8;
use crate::media::ContentType;
use crate::respond::{Response, Status};

verus! {

/// The decimal digits of a number, as ASCII bytes, without leading zeros.
pub open spec fn decimal(n: nat) -> Seq<u8>
    decreases n,
{
    if n < 10 {
        seq![(48 + n) as u8]
    } else {
        decimal(n / 10).push((48 + n % 10) as u8)
    }
}

/// The number that a sequence of ASCII digits writes in decimal.
pub open spec fn number_of(digits: Seq<u8>) -> int
    decreases digits.len(),
{
    if digits.len() == 0 {
        0
    } else {
        10 * number_of(digits.drop_last()) + (digits.last() - 48)
    }
}

/// The decimal digits of a number are ASCII digits that write that number,
/// at least one of them, and the first is no zero unless the number is zero.
pub proof fn lemma_decimal_writes_the_number(n: nat)
    ensures
        decimal(n).len() >= 1,
        forall|i: int| 0 <= i < decimal(n).len() ==> 48 <= #[trigger] decimal(n)[i] <= 57,
        number_of(decimal(n)) == n,
        n > 0 ==> decimal(n)[0] != 48,
    decreases n,
{
    if n >= 10 {
        lemma_decimal_writes_the_number(n / 10);
        let d = decimal(n);
        assert(d.drop_last() == decimal(n / 10));
        assert(d[0] == decimal(n / 10)[0]);
    } else {
        let d = decimal(n);
        assert(d.drop_last() == Seq::<u8>::empty());
        assert(number_of(d.drop_last()) == 0);
    }
}

/// The header line that lets pages of any origin read the response.
pub open spec fn allow_origin() -> Seq<u8> {
    encode_utf8("Access-Control-Allow-Origin: *"@)
}

/// The end of a line.
pub open spec fn line_end() -> Seq<u8> {
    encode_utf8("\r\n"@)
}

/// The head of a response: the status line and the headers for the content
/// type, the length of the body and the allowed origin, each ended by a
/// carriage return and a line feed, and an empty line.
pub open spec fn head(status: Status, content_type: ContentType, len: nat) -> Seq<u8> {
    encode_utf8(status.line()) + line_end()
        + encode_utf8("Content-Type: "@) + encode_utf8(content_type.text()) + line_end()
        + encode_utf8("Content-Length: "@) + decimal(len) + line_end()
        + allow_origin() + line_end()
        + line_end()
}

/// The bytes of a response: its head, then its body.
pub open spec fn framed(status: Status, content_type: ContentType, body: Seq<u8>) -> Seq<u8> {
    head(status, content_type, body.len()) + body
}

/// Whether `part` stands in `whole` at index `at`.
pub open spec fn stands_at(part: Seq<u8>, whole: Seq<u8>, at: int) -> bool {
    0 <= at && at + part.len() <= whole.len() && whole.subrange(at, at + part.len()) == part
}

fn put(out: &mut Vec<u8>, text: &str)
    ensures
        final(out)@ == old(out)@ + encode_utf8(text@),
{
    let mut bytes = text.as_bytes_vec();
    out.append(&mut bytes);
}

fn put_decimal(out: &mut Vec<u8>, n: usize)
    ensures
        final(out)@ == old(out)@ + decimal(n as nat),
    decreases n,
{
    if n < 10 {
        out.push(48u8 + n as u8);
    } else {
        put_decimal(out, n / 10);
        out.push(48u8 + (n % 10) as u8);
    }
}

impl Response {
    /// The bytes of the response as they go over the connection.
    pub open spec fn wire(self) -> Seq<u8> {
        framed(self.status, self.content_type, self.body@)
    }

    /// Frames the response: the head, then the body.
    pub fn to_bytes(&self) -> (out: Vec<u8>)
        ensures
            out@ == self.wire(),
    {
        let mut out: Vec<u8> = Vec::new();
        put(&mut out, self.status.as_str());
        put(&mut out, "\r\n");
        put(&mut out, "Content-Type: ");
        put(&mut out, self.content_type.as_str());
        put(&mut out, "\r\n");
        put(&mut out, "Content-Length: ");
        put_decimal(&mut out, self.body.len());
        put(&mut out, "\r\n");
        put(&mut out, "Access-Control-Allow-Origin: *");
        put(&mut out, "\r\n");
        put(&mut out, "\r\n");
        assert(out@ == head(self.status, self.content_type, self.body@.len()));
        out.extend_from_slice(self.body.as_slice());
        assert(out@ == self.wire());
        out
    }
}

/// Every response, whatever its status, its content type and its body,
/// carries the header that allows any origin: the header stands in the head
/// of the framed response, on a line of its own.
pub proof fn lemma_every_response_allows_any_origin(r: Response)
    ensures
        exists|at: int|
            {
                &&& stands_at(line_end() + allow_origin() + line_end(), r.wire(), at)
                &&& at + (line_end() + allow_origin() + line_end()).len() <= head(
                    r.status,
                    r.content_type,
                    r.body@.len(),
                ).len()
            },
{
    let before = encode_utf8(r.status.line()) + line_end() + encode_utf8("Content-Type: "@)
        + encode_utf8(r.content_type.text()) + line_end() + encode_utf8("Content-Length: "@)
        + decimal(r.body@.len());
    let line = line_end() + allow_origin() + line_end();
    let h = head(r.status, r.content_type, r.body@.len());
    assert(h == before + line + line_end());
    let at = before.len() as int;
    assert(r.wire().subrange(at, at + line.len()) == line);
    assert(stands_at(line, r.wire(), at));
}

} // verus!
