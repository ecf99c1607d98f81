//! The handshake: a fixed 4-byte token from the client, a distinct
//! 4-byte reply from the server, before any request traffic.
//!
//! Either side accepts exactly its peer's token; any other four bytes
//! fail the connection attempt with a message naming the bytes
//! received.  No handshake succeeds partially: a connection is handed
//! on only after both tokens have passed.

use vstd::prelude::*;

use crate::error::ConnectError;

verus! {

/// The client's token: the ASCII bytes of `clnt`.
pub open spec fn client_hello_spec() -> Seq<u8> {
    seq![99u8, 108u8, 110u8, 116u8]
}

/// The server's token: the ASCII bytes of `serv`.
pub open spec fn server_reply_spec() -> Seq<u8> {
    seq![115u8, 101u8, 114u8, 118u8]
}

/// Whether the server lets a connection that opened with `b` proceed.
pub open spec fn server_handshake_accepts(b: Seq<u8>) -> bool {
    b == client_hello_spec()
}

/// Whether the client takes `b` as a valid server reply.
pub open spec fn client_handshake_accepts(b: Seq<u8>) -> bool {
    b == server_reply_spec()
}

/// A conforming pair always completes the handshake; any other token
/// fails it on the receiving side.
pub proof fn lemma_handshake_conforming()
    ensures
        server_handshake_accepts(client_hello_spec()),
        client_handshake_accepts(server_reply_spec()),
        forall|b: Seq<u8>| b != client_hello_spec() ==> !server_handshake_accepts(b),
        forall|b: Seq<u8>| b != server_reply_spec() ==> !client_handshake_accepts(b),
        !server_handshake_accepts(server_reply_spec()),
        !client_handshake_accepts(client_hello_spec()),
{
    assert(client_hello_spec()[0] != server_reply_spec()[0]);
}

/// The client's token, as a buffer to write.
pub fn client_hello() -> (r: Vec<u8>)
    ensures
        r@ == client_hello_spec(),
{
    let mut r: Vec<u8> = Vec::new();
    r.push(99);
    r.push(108);
    r.push(110);
    r.push(116);
    proof {
        assert(r@ =~= client_hello_spec());
    }
    r
}

/// The server's token, as a buffer to write.
pub fn server_reply() -> (r: Vec<u8>)
    ensures
        r@ == server_reply_spec(),
{
    let mut r: Vec<u8> = Vec::new();
    r.push(115);
    r.push(101);
    r.push(114);
    r.push(118);
    proof {
        assert(r@ =~= server_reply_spec());
    }
    r
}

/// The digit character for a value below ten.
pub open spec fn digit_char(d: int) -> char {
    if d == 0 {
        '0'
    } else if d == 1 {
        '1'
    } else if d == 2 {
        '2'
    } else if d == 3 {
        '3'
    } else if d == 4 {
        '4'
    } else if d == 5 {
        '5'
    } else if d == 6 {
        '6'
    } else if d == 7 {
        '7'
    } else if d == 8 {
        '8'
    } else {
        '9'
    }
}

/// The decimal digits of `n`, most significant first.
pub open spec fn dec_nat(n: int) -> Seq<char>
    decreases n,
{
    if n < 10 {
        seq![digit_char(n)]
    } else {
        dec_nat(n / 10).push(digit_char(n % 10))
    }
}

/// The failure message for a wrong token: the four bytes received, in
/// decimal, bracketed.
pub open spec fn received_msg(b: Seq<u8>) -> Seq<char>
    recommends
        b.len() == 4,
{
    "received: ["@ + dec_nat(b[0] as int) + ", "@ + dec_nat(b[1] as int) + ", "@ + dec_nat(
        b[2] as int,
    ) + ", "@ + dec_nat(b[3] as int) + "]"@
}

/// The digit character for a value below ten.
fn digit_of(d: u8) -> (c: char)
    requires
        d < 10,
    ensures
        c == digit_char(d as int),
{
    if d == 0 {
        '0'
    } else if d == 1 {
        '1'
    } else if d == 2 {
        '2'
    } else if d == 3 {
        '3'
    } else if d == 4 {
        '4'
    } else if d == 5 {
        '5'
    } else if d == 6 {
        '6'
    } else if d == 7 {
        '7'
    } else if d == 8 {
        '8'
    } else {
        '9'
    }
}

/// Appends the decimal digits of `n` to `out`.
fn push_dec_u8(out: &mut String, n: u8)
    ensures
        final(out)@ == old(out)@ + dec_nat(n as int),
{
    let ghost m = n as int;
    if n >= 100 {
        crate::text::push_char(out, digit_of(n / 100));
        crate::text::push_char(out, digit_of((n / 10) % 10));
        crate::text::push_char(out, digit_of(n % 10));
        proof {
            assert(dec_nat(m) == dec_nat(m / 10).push(digit_char(m % 10)));
            assert(dec_nat(m / 10) == dec_nat(m / 100).push(digit_char((m / 10) % 10)));
            assert(dec_nat(m / 100) == seq![digit_char(m / 100)]);
            assert(final(out)@ =~= old(out)@ + dec_nat(m));
        }
    } else if n >= 10 {
        crate::text::push_char(out, digit_of(n / 10));
        crate::text::push_char(out, digit_of(n % 10));
        proof {
            assert(dec_nat(m) == dec_nat(m / 10).push(digit_char(m % 10)));
            assert(dec_nat(m / 10) == seq![digit_char(m / 10)]);
            assert(final(out)@ =~= old(out)@ + dec_nat(m));
        }
    } else {
        crate::text::push_char(out, digit_of(n));
        proof {
            assert(dec_nat(m) == seq![digit_char(m)]);
            assert(final(out)@ =~= old(out)@ + dec_nat(m));
        }
    }
}

/// The failure message for a wrong token, naming the bytes received.
pub fn handshake_failure_message(buf: &[u8]) -> (r: String)
    requires
        buf@.len() == 4,
    ensures
        r@ == received_msg(buf@),
{
    let mut out = "received: [".to_owned();
    push_dec_u8(&mut out, *vstd::slice::slice_index_get(buf, 0));
    out.append(", ");
    push_dec_u8(&mut out, *vstd::slice::slice_index_get(buf, 1));
    out.append(", ");
    push_dec_u8(&mut out, *vstd::slice::slice_index_get(buf, 2));
    out.append(", ");
    push_dec_u8(&mut out, *vstd::slice::slice_index_get(buf, 3));
    out.append("]");
    proof {
        assert(out@ =~= received_msg(buf@));
    }
    out
}

/// Whether `buf` is exactly the client's token.
pub fn is_client_hello(buf: &[u8]) -> (r: bool)
    requires
        buf@.len() == 4,
    ensures
        r == server_handshake_accepts(buf@),
{
    let r = *vstd::slice::slice_index_get(buf, 0) == 99 && *vstd::slice::slice_index_get(buf, 1)
        == 108 && *vstd::slice::slice_index_get(buf, 2) == 110 && *vstd::slice::slice_index_get(
        buf,
        3,
    ) == 116;
    proof {
        if r {
            assert(buf@ =~= client_hello_spec());
        } else {
            assert(buf@ != client_hello_spec()) by {
                if buf@ == client_hello_spec() {
                    assert(buf@[0] == 99 && buf@[1] == 108 && buf@[2] == 110 && buf@[3] == 116);
                }
            }
        }
    }
    r
}

/// Whether `buf` is exactly the server's token.
pub fn is_server_reply(buf: &[u8]) -> (r: bool)
    requires
        buf@.len() == 4,
    ensures
        r == client_handshake_accepts(buf@),
{
    let r = *vstd::slice::slice_index_get(buf, 0) == 115 && *vstd::slice::slice_index_get(buf, 1)
        == 101 && *vstd::slice::slice_index_get(buf, 2) == 114 && *vstd::slice::slice_index_get(
        buf,
        3,
    ) == 118;
    proof {
        if r {
            assert(buf@ =~= server_reply_spec());
        } else {
            assert(buf@ != server_reply_spec()) by {
                if buf@ == server_reply_spec() {
                    assert(buf@[0] == 115 && buf@[1] == 101 && buf@[2] == 114 && buf@[3] == 118);
                }
            }
        }
    }
    r
}

/// The server's verdict on the four bytes that opened a connection:
/// the reply token to send, or the failure that ends the attempt.
pub fn server_handshake(received: &[u8]) -> (r: Result<Vec<u8>, ConnectError>)
    requires
        received@.len() == 4,
    ensures
        server_handshake_accepts(received@) ==> (r matches Ok(reply) && reply@
            == server_reply_spec()),
        !server_handshake_accepts(received@) ==> (r matches Err(e) && (e matches
        ConnectError::BadHandshake(m) && m@ == received_msg(received@))),
{
    if is_client_hello(received) {
        Ok(server_reply())
    } else {
        Err(ConnectError::BadHandshake(handshake_failure_message(received)))
    }
}

/// The client's verdict on the four bytes the server replied with.
pub fn client_handshake(received: &[u8]) -> (r: Result<(), ConnectError>)
    requires
        received@.len() == 4,
    ensures
        client_handshake_accepts(received@) ==> r is Ok,
        !client_handshake_accepts(received@) ==> (r matches Err(e) && (e matches
        ConnectError::BadHandshake(m) && m@ == received_msg(received@))),
{
    if is_server_reply(received) {
        Ok(())
    } else {
        Err(ConnectError::BadHandshake(handshake_failure_message(received)))
    }
}

} // verus!
