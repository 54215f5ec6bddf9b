//! MD5 fingerprints of file contents, computed with the `md5` crate.

use vstd::prelude::*;
use crate::text::{hex_lower, to_hex_lower};

verus! {

#[verifier::external_type_specification]
#[verifier::external_body]
pub struct ExMd5Context(md5::Context);

/// The bytes that an `md5::Context` has consumed since it was made.
pub uninterp spec fn md5_fed(ctx: md5::Context) -> Seq<u8>;

/// The 16-byte MD5 digest of `data`.
pub uninterp spec fn md5_digest_of(data: Seq<u8>) -> Seq<u8>;

/// Calls `md5::Context::new`: a context that has consumed nothing.
#[verifier::external_body]
fn md5_context() -> (r: md5::Context)
    ensures
        md5_fed(r) == Seq::<u8>::empty(),
{
    md5::Context::new()
}

/// Calls `md5::Context::consume`: the context has then consumed `data` after
/// what it held.
#[verifier::external_body]
fn md5_consume(ctx: &mut md5::Context, data: &[u8])
    ensures
        md5_fed(*final(ctx)) == md5_fed(*old(ctx)) + data@,
{
    ctx.consume(data)
}

/// Calls `md5::Context::compute`: the digest of everything the context consumed.
#[verifier::external_body]
fn md5_compute(ctx: md5::Context) -> (r: [u8; 16])
    ensures
        r@ == md5_digest_of(md5_fed(ctx)),
{
    ctx.compute().0
}

/// A running MD5 computation over a stream of bytes.
pub struct Md5Stream {
    ctx: md5::Context,
}

impl View for Md5Stream {
    type V = Seq<u8>;

    /// The bytes fed so far.
    closed spec fn view(&self) -> Seq<u8> {
        md5_fed(self.ctx)
    }
}

impl Md5Stream {
    /// A computation that has been fed nothing.
    pub fn new() -> (r: Md5Stream)
        ensures
            r@ == Seq::<u8>::empty(),
    {
        Md5Stream { ctx: md5_context() }
    }

    /// Feeds `data` after what was fed so far.
    pub fn feed(&mut self, data: &[u8])
        ensures
            final(self)@ == old(self)@ + data@,
    {
        md5_consume(&mut self.ctx, data)
    }

    /// The lower-case hexadecimal MD5 of everything fed.
    pub fn finish(self) -> (r: String)
        ensures
            r@ == hex_lower(md5_digest_of(self@)),
    {
        let d = md5_compute(self.ctx);
        to_hex_lower(&d)
    }
}

/// The lower-case hexadecimal MD5 of `data`.
pub fn md5_hex(data: &[u8]) -> (r: String)
    ensures
        r@ == hex_lower(md5_digest_of(data@)),
{
    let mut s = Md5Stream::new();
    s.feed(data);
    assert(Seq::<u8>::empty() + data@ =~= data@);
    s.finish()
}

} // verus!
