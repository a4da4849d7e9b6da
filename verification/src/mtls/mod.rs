//! Client certificates: whether they are good, whose they are, and which of them
//! were revoked.

pub mod authenticator;
pub mod blocklist;
pub mod crl;
pub mod serials;
pub mod validator;

pub use authenticator::MtlsAuthenticator;
pub use blocklist::Blocklist;
pub use crl::{CrlParseError, CrlState, CrlStore};
pub use serials::SerialSet;
pub use validator::{MtlsError, MtlsIdentity, MtlsValidator};

use vstd::prelude::*;

verus! {

/// The view of PEM blocks: of each its tag and its contents.
pub open spec fn blocks_view(v: Seq<(String, Vec<u8>)>) -> Seq<(Seq<char>, Seq<u8>)> {
    Seq::new(v.len(), |i: int| (v[i].0@, v[i].1@))
}

/// The blocks of a PEM text in order, or the message that says what is wrong
/// with it.
pub uninterp spec fn pem_blocks(text: Seq<u8>) -> Result<Seq<(Seq<char>, Seq<u8>)>, Seq<char>>;

/// `pem::parse_many`: the tag and the contents of each block, in order, or the
/// error's message. What comes out depends on the text alone.
#[verifier::external_body]
pub(crate) fn read_pem(text: &[u8]) -> (r: Result<Vec<(String, Vec<u8>)>, String>)
    ensures
        match r {
            Ok(v) => pem_blocks(text@) == Ok::<Seq<(Seq<char>, Seq<u8>)>, Seq<char>>(
                blocks_view(v@),
            ),
            Err(e) => pem_blocks(text@) == Err::<Seq<(Seq<char>, Seq<u8>)>, Seq<char>>(e@),
        },
{
    let blocks = pem::parse_many(text).map_err(|e| e.to_string())?;
    Ok(blocks.iter().map(|p| (p.tag().to_string(), p.contents().to_vec())).collect())
}

/// The contents of the blocks with a tag, in order.
pub open spec fn tagged(blocks: Seq<(Seq<char>, Seq<u8>)>, tag: Seq<char>) -> Seq<Seq<u8>>
    decreases blocks.len(),
{
    if blocks.len() == 0 {
        Seq::empty()
    } else {
        let rest = tagged(blocks.drop_last(), tag);
        if blocks.last().0 == tag {
            rest.push(blocks.last().1)
        } else {
            rest
        }
    }
}

/// The view of byte strings.
pub open spec fn byte_views(v: Seq<Vec<u8>>) -> Seq<Seq<u8>> {
    Seq::new(v.len(), |i: int| v[i]@)
}

/// A copy of bytes.
pub fn copy_bytes(b: &[u8]) -> (r: Vec<u8>)
    ensures
        r@ == b@,
{
    let mut out: Vec<u8> = Vec::new();
    let mut i: usize = 0;
    while i < b.len()
        invariant
            i <= b@.len(),
            out@ == b@.take(i as int),
        decreases b.len() - i,
    {
        out.push(b[i]);
        i = i + 1;
        assert(b@.take(i as int) =~= b@.take(i - 1).push(b@[i - 1]));
    }
    assert(b@.take(b@.len() as int) =~= b@);
    out
}

/// The contents of the blocks with a tag, in order.
pub fn contents_tagged(blocks: &Vec<(String, Vec<u8>)>, tag: &str) -> (r: Vec<Vec<u8>>)
    ensures
        byte_views(r@) == tagged(blocks_view(blocks@), tag@),
{
    let mut out: Vec<Vec<u8>> = Vec::new();
    let mut i: usize = 0;
    let ghost all = blocks_view(blocks@);
    assert(byte_views(out@) =~= tagged(all.take(0), tag@));
    while i < blocks.len()
        invariant
            i <= blocks@.len(),
            all == blocks_view(blocks@),
            byte_views(out@) == tagged(all.take(i as int), tag@),
        decreases blocks.len() - i,
    {
        assert(all.take(i + 1).drop_last() =~= all.take(i as int));
        assert(all.take(i + 1).last() == (blocks@[i as int].0@, blocks@[i as int].1@));
        if crate::text::same(blocks[i].0.as_str(), tag) {
            let ghost before = out@;
            out.push(copy_bytes(blocks[i].1.as_slice()));
            assert(byte_views(out@) =~= byte_views(before).push(blocks@[i as int].1@));
        }
        i = i + 1;
    }
    assert(all.take(all.len() as int) =~= all);
    out
}

/// The contents with a tag are those of the blocks with that tag, in order.
pub proof fn law_blocks_are_found_by_tag(
    blocks: Seq<(Seq<char>, Seq<u8>)>,
    tag: Seq<char>,
    b: (Seq<char>, Seq<u8>),
)
    ensures
        tagged(Seq::empty(), tag).len() == 0,
        b.0 == tag ==> tagged(blocks.push(b), tag) == tagged(blocks, tag) + seq![b.1],
        b.0 != tag ==> tagged(blocks.push(b), tag) == tagged(blocks, tag),
{
    assert(blocks.push(b).drop_last() =~= blocks);
    assert(tagged(blocks, tag) + seq![b.1] =~= tagged(blocks, tag).push(b.1));
}

} // verus!
