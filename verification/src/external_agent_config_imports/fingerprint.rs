//! The fingerprint by which a repeated import is recognized.

use super::memory_import::ExternalAgentMemoryImport;
use super::memory_import::ExternalAgentMemoryImportView;
use crate::memory_store::MemoryArtifactView;
use crate::text::text_views;
use vstd::bytes::spec_u64_to_le_bytes;
use vstd::bytes::u64_to_le_bytes;
use vstd::prelude::*;
use vstd::string::*;
use vstd::utf8::encode_utf8;

verus! {

/// Name for the SHA-256 digest of the given bytes.
pub uninterp spec fn sha256(bytes: Seq<u8>) -> Seq<u8>;

/// `sha2::Sha256::digest`: the 32 bytes of the digest, which depend on the given bytes alone.
#[verifier::external_body]
fn sha256_of(bytes: &[u8]) -> (digest: Vec<u8>)
    ensures
        digest@ == sha256(bytes@),
        digest@.len() == 32,
{
    <sha2::Sha256 as sha2::Digest>::digest(bytes).to_vec()
}

/// The bytes behind their length.
pub open spec fn framed(bytes: Seq<u8>) -> Seq<u8> {
    spec_u64_to_le_bytes(bytes.len() as u64) + bytes
}

/// The project keys, each behind its length.
pub open spec fn framed_keys(keys: Seq<Seq<char>>) -> Seq<u8>
    decreases keys.len(),
{
    if keys.len() == 0 {
        Seq::empty()
    } else {
        framed_keys(keys.drop_last()) + framed(encode_utf8(keys.last()))
    }
}

/// The artifacts: each path behind its length, and the contents behind theirs.
pub open spec fn framed_artifacts(artifacts: Seq<MemoryArtifactView>) -> Seq<u8>
    decreases artifacts.len(),
{
    if artifacts.len() == 0 {
        Seq::empty()
    } else {
        framed_artifacts(artifacts.drop_last()) + framed(encode_utf8(artifacts.last().path)) + framed(artifacts.last().contents)
    }
}

/// What is digested of an import.
pub open spec fn fingerprint_input(import: ExternalAgentMemoryImportView) -> Seq<u8> {
    encode_utf8("codex-external-agent-memory-import-v1\0"@) + framed_keys(import.project_keys) + seq![0xffu8] + framed_artifacts(import.artifacts)
}

fn push_framed(bytes: &mut Vec<u8>, value: &[u8])
    ensures
        final(bytes)@ == old(bytes)@ + framed(value@),
{
    let mut size = u64_to_le_bytes(value.len() as u64);
    bytes.append(&mut size);
    bytes.extend_from_slice(value);
    assert(bytes@ =~= old(bytes)@ + framed(value@));
}

/// What is digested of an import, as bytes.
pub fn fingerprint_bytes(memory_import: &ExternalAgentMemoryImport) -> (bytes: Vec<u8>)
    ensures
        bytes@ == fingerprint_input(memory_import@),
{
    let mut bytes = "codex-external-agent-memory-import-v1\0".as_bytes_vec();
    let ghost start = bytes@;
    let keys = memory_import.project_keys();
    let ghost all_keys = text_views(keys@);
    let mut i: usize = 0;
    assert(bytes@ =~= start + framed_keys(all_keys.take(0)));
    while i < keys.len()
        invariant
            i <= keys@.len(),
            all_keys == text_views(keys@),
            bytes@ == start + framed_keys(all_keys.take(i as int)),
        decreases keys@.len() - i,
    {
        push_framed(&mut bytes, keys[i].as_str().as_bytes());
        proof {
            assert(all_keys.take(i + 1).drop_last() =~= all_keys.take(i as int));
            assert(all_keys.take(i + 1).last() == keys@[i as int]@);
            assert(bytes@ =~= start + framed_keys(all_keys.take(i + 1)));
        }
        i += 1;
    }
    assert(all_keys.take(i as int) =~= all_keys);
    bytes.push(0xff);
    let ghost middle = bytes@;
    let artifacts = memory_import.artifacts().artifacts();
    let ghost all = memory_import@.artifacts;
    let mut k: usize = 0;
    assert(bytes@ =~= middle + framed_artifacts(all.take(0)));
    while k < artifacts.len()
        invariant
            k <= artifacts@.len(),
            all.len() == artifacts@.len(),
            forall|j: int| 0 <= j < all.len() ==> #[trigger] all[j] == artifacts@[j]@,
            bytes@ == middle + framed_artifacts(all.take(k as int)),
        decreases artifacts@.len() - k,
    {
        let artifact = &artifacts[k];
        assert(all[k as int] == artifact@);
        push_framed(&mut bytes, artifact.path().as_bytes());
        push_framed(&mut bytes, artifact.contents());
        proof {
            assert(all.take(k + 1).drop_last() =~= all.take(k as int));
            assert(all.take(k + 1).last() == artifact@);
            assert(bytes@ =~= middle + framed_artifacts(all.take(k + 1)));
        }
        k += 1;
    }
    assert(all.take(k as int) =~= all);
    assert(bytes@ =~= fingerprint_input(memory_import@));
    bytes
}

/// The fingerprint of an import.
pub fn memory_import_fingerprint(memory_import: &ExternalAgentMemoryImport) -> (fingerprint: Vec<u8>)
    ensures
        fingerprint@ == sha256(fingerprint_input(memory_import@)),
{
    let bytes = fingerprint_bytes(memory_import);
    sha256_of(bytes.as_slice())
}

} // verus!
