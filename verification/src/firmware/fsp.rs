//! The firmware that the FSP runs, and the signatures that come with it.
use vstd::prelude::*;
use vstd::utf8::encode_utf8;
use crate::bytes::zeros;
use crate::error::Error;
use crate::firmware::elf::{
    elf_section, is_file_of, law_sections_are_found_again, spec_elf_section,
};

verus! {

/// Size of the SHA-384 hash, in bytes.
pub const FSP_HASH_SIZE: usize = 48;

/// Size of the RSA-3072 public key, in bytes.
pub const FSP_PKEY_SIZE: usize = 384;

/// Size of the RSA-3072 signature, in bytes.
pub const FSP_SIG_SIZE: usize = 384;

/// What the chain of trust needs to know of a firmware image.
#[derive(Clone, Copy, Debug)]
pub struct FmcSignatures {
    pub hash384: [u8; FSP_HASH_SIZE],
    pub public_key: [u8; FSP_PKEY_SIZE],
    pub signature: [u8; FSP_SIG_SIZE],
}

/// A section of a firmware file, by its name.
pub open spec fn section(fw: Seq<u8>, name: Seq<char>) -> Option<Seq<u8>> {
    spec_elf_section(fw, encode_utf8(name))
}

/// The file holds a hash of the right size, and a public key and a signature that are
/// not too long.
pub open spec fn has_signatures(fw: Seq<u8>) -> bool {
    &&& section(fw, "hash"@) matches Some(hash)
    &&& section(fw, "publickey"@) matches Some(pkey)
    &&& section(fw, "signature"@) matches Some(sig)
    &&& hash.len() == FSP_HASH_SIZE
    &&& pkey.len() <= FSP_PKEY_SIZE
    &&& sig.len() <= FSP_SIG_SIZE
}

/// `sigs` holds the hash, the public key and the signature of the file, the latter two
/// filled up with zeros.
pub open spec fn signatures_of(fw: Seq<u8>, sigs: FmcSignatures) -> bool {
    let pkey = section(fw, "publickey"@)->Some_0;
    let sig = section(fw, "signature"@)->Some_0;
    &&& sigs.hash384@ == section(fw, "hash"@)->Some_0
    &&& sigs.public_key@ == pkey + zeros((FSP_PKEY_SIZE - pkey.len()) as nat)
    &&& sigs.signature@ == sig + zeros((FSP_SIG_SIZE - sig.len()) as nat)
}

/// The firmware for the FSP, with its image in memory of the sort `I`.
#[derive(Debug)]
pub struct FspFirmware<I> {
    /// The image that the FSP runs: one section of the file.
    pub fmc_image: I,
    /// The signatures of the image.
    pub fmc_sigs: Box<FmcSignatures>,
}

impl<I> FspFirmware<I> {
    /// Takes a firmware file apart. The image is copied to where the FSP can read it by
    /// `copy_image`.
    ///
    /// Fails with `EINVAL` if the file lacks an image, with the error of the copy if that
    /// fails, and with `EINVAL` if there are no proper signatures.
    pub fn new<F: FnOnce(&[u8]) -> Result<I, Error>>(fw: &[u8], copy_image: F) -> (r: Result<
        Self,
        Error,
    >)
        requires
            section(fw@, "image"@) matches Some(image) ==> forall|data: &[u8]|
                data@ == image ==> #[trigger] call_requires(copy_image, (data,)),
        ensures
            match section(fw@, "image"@) {
                None => r matches Err(e) && e == Error::EINVAL,
                Some(image) => exists|data: &[u8], copied: Result<I, Error>|
                    data@ == image && #[trigger] call_ensures(copy_image, (data,), copied)
                        && match copied {
                        Err(e) => r matches Err(e2) && e2 == e,
                        Ok(region) => if has_signatures(fw@) {
                            &&& r matches Ok(f)
                            &&& f.fmc_image == region
                            &&& signatures_of(fw@, *f.fmc_sigs)
                        } else {
                            r matches Err(e) && e == Error::EINVAL
                        },
                    },
            },
    {
        let image = match elf_section(fw, "image") {
            Some(image) => image,
            None => {
                return Err(Error::EINVAL);
            },
        };
        let fmc_image = match copy_image(image) {
            Ok(fmc_image) => fmc_image,
            Err(e) => {
                return Err(e);
            },
        };
        match Self::extract_fmc_signatures(fw) {
            Ok(fmc_sigs) => Ok(FspFirmware { fmc_image, fmc_sigs }),
            Err(e) => Err(e),
        }
    }

    /// Extracts the signatures from a firmware file.
    pub fn extract_fmc_signatures(fw: &[u8]) -> (r: Result<Box<FmcSignatures>, Error>)
        ensures
            match r {
                Ok(sigs) => has_signatures(fw@) && signatures_of(fw@, *sigs),
                Err(e) => !has_signatures(fw@) && e == Error::EINVAL,
            },
    {
        let hash_section = match elf_section(fw, "hash") {
            Some(s) => s,
            None => {
                return Err(Error::EINVAL);
            },
        };
        let pkey_section = match elf_section(fw, "publickey") {
            Some(s) => s,
            None => {
                return Err(Error::EINVAL);
            },
        };
        let sig_section = match elf_section(fw, "signature") {
            Some(s) => s,
            None => {
                return Err(Error::EINVAL);
            },
        };
        if hash_section.len() != FSP_HASH_SIZE {
            return Err(Error::EINVAL);
        }
        if pkey_section.len() > FSP_PKEY_SIZE {
            return Err(Error::EINVAL);
        }
        if sig_section.len() > FSP_SIG_SIZE {
            return Err(Error::EINVAL);
        }
        let hash384 = to_array::<FSP_HASH_SIZE>(hash_section);
        let public_key = to_array::<FSP_PKEY_SIZE>(pkey_section);
        let signature = to_array::<FSP_SIG_SIZE>(sig_section);
        assert(hash384@ =~= hash_section@);
        Ok(Box::new(FmcSignatures { hash384, public_key, signature }))
    }
}

/// Copies `src` to the start of an array of zeros.
fn to_array<const N: usize>(src: &[u8]) -> (r: [u8; N])
    requires
        src@.len() <= N,
    ensures
        r@ == src@ + zeros((N - src@.len()) as nat),
{
    let mut out: [u8; N] = [0; N];
    let mut i: usize = 0;
    assert(out@ =~= src@.take(0) + zeros(N as nat));
    while i < src.len()
        invariant
            i <= src.len(),
            src@.len() <= N,
            out@ == src@.take(i as int) + zeros((N - i) as nat),
        decreases src.len() - i,
    {
        out[i] = src[i];
        i += 1;
        assert(out@ =~= src@.take(i as int) + zeros((N - i) as nat));
    }
    assert(src@.take(i as int) =~= src@);
    out
}

/// A section of a firmware file is the section of the ELF file of that name.
pub proof fn law_sections_are_those_of_the_file(
    fw: Seq<u8>,
    wide: bool,
    sections: Seq<(Seq<u8>, Seq<u8>)>,
    i: int,
    name: Seq<char>,
)
    requires
        is_file_of(fw, wide, sections),
        0 <= i < sections.len(),
        sections[i].0 == encode_utf8(name),
        forall|j: int| 0 <= j < i ==> (#[trigger] sections[j]).0 != sections[i].0,
    ensures
        section(fw, name) == Some(sections[i].1),
{
    law_sections_are_found_again(fw, wide, sections, i);
}

/// A file has signatures just when it has a hash of 48 bytes, and a public key and a signature
/// of 384 bytes at most.
pub proof fn law_files_with_signatures(fw: Seq<u8>)
    ensures
        has_signatures(fw) <==> {
            &&& section(fw, "hash"@) is Some
            &&& section(fw, "publickey"@) is Some
            &&& section(fw, "signature"@) is Some
            &&& section(fw, "hash"@)->Some_0.len() == 48
            &&& section(fw, "publickey"@)->Some_0.len() <= 384
            &&& section(fw, "signature"@)->Some_0.len() <= 384
        },
{
}

/// The signatures of a file are all bytes of its three sections, each in its own field from
/// the start on, and zeros in what is left of the fields.
pub proof fn law_signatures_are_those_of_the_file(fw: Seq<u8>, sigs: FmcSignatures)
    requires
        has_signatures(fw),
        signatures_of(fw, sigs),
    ensures
        ({
            let pkey = section(fw, "publickey"@)->Some_0;
            let sig = section(fw, "signature"@)->Some_0;
            &&& section(fw, "hash"@) == Some(sigs.hash384@)
            &&& sigs.public_key@.take(pkey.len() as int) == pkey
            &&& forall|j: int| pkey.len() <= j < 384 ==> #[trigger] sigs.public_key@[j] == 0
            &&& sigs.signature@.take(sig.len() as int) == sig
            &&& forall|j: int| sig.len() <= j < 384 ==> #[trigger] sigs.signature@[j] == 0
        }),
{
    let pkey = section(fw, "publickey"@)->Some_0;
    let sig = section(fw, "signature"@)->Some_0;
    assert(sigs.public_key@.take(pkey.len() as int) =~= pkey);
    assert(sigs.signature@.take(sig.len() as int) =~= sig);
}

/// A section that the file does not have is not made up.
pub proof fn law_missing_sections(fw: Seq<u8>, name: Seq<char>)
    ensures
        section(fw, name) is Some <==> spec_elf_section(fw, encode_utf8(name)) is Some,
        section(fw, name) is Some ==> section(fw, name) == spec_elf_section(fw, encode_utf8(name)),
{
}

} // verus!
