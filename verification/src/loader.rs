//! The loader: parses and checks the fixed-layout container header.
//!
//! A container is a 50-byte header — magic, version, payload size, start
//! offset, flags and checksum — followed by one sentinel byte and the
//! program payload. Checksum verification is separate from structural
//! parsing, so a caller may inspect the header before paying the hash
//! cost.

use vstd::bytes::spec_u64_from_le_bytes;
use vstd::prelude::*;
use vstd::slice::slice_subrange;
use vstd::slice::slice_to_vec;

use crate::error::LoaderError;
use crate::error::ValidatorError;
use crate::hashes::sha2_224;
use crate::hashes::sha2_224_of;
use crate::hashes::sha3_224;
use crate::hashes::sha3_224_of;
use crate::instruction::Instruction;
use crate::validator::spec_process_all;
use crate::validator::BulkValidator;

verus! {

/// The number of bytes of the fixed header fields, sentinel excluded.
pub const HEADER_SIZE: usize = 50;

/// The number of checksum bytes in the header.
pub const HEADER_CHECKSUM_SIZE: usize = 28;

/// The sentinel byte that closes the header.
pub const END_HEADER_BYTE: u8 = 0xAA;

/// The flag bit that selects the hash algorithm: clear for SHA-224, set
/// for SHA3-224.
pub const CHECKSUM_MASK: u8 = 1;

/// The parsed fixed-layout header of an executable container.
#[derive(Clone, PartialEq, Eq, Debug)]
pub struct VXLHeader {
    pub version: u8,
    pub file_size: u64,
    pub starting_offset: u64,
    pub flags: u8,
    pub checksum: Vec<u8>,
}

impl VXLHeader {
    pub fn new(
        version: u8,
        file_size: u64,
        starting_offset: u64,
        flags: u8,
        checksum: Vec<u8>,
    ) -> (r: VXLHeader)
        ensures
            r.version == version,
            r.file_size == file_size,
            r.starting_offset == starting_offset,
            r.flags == flags,
            r.checksum@ == checksum@,
    {
        VXLHeader { version, file_size, starting_offset, flags, checksum }
    }

    /// The header's flag byte.
    pub fn flags(&self) -> (r: u8)
        ensures
            r == self.flags,
    {
        self.flags
    }

    /// The header's checksum bytes.
    pub fn checksum(&self) -> (r: &Vec<u8>)
        ensures
            r@ == self.checksum@,
    {
        &self.checksum
    }
}

/// The mathematical content of a parsed container: the header fields and
/// the program payload.
pub ghost struct LoaderV {
    pub version: u8,
    pub file_size: u64,
    pub starting_offset: u64,
    pub flags: u8,
    pub checksum: Seq<u8>,
    pub program: Seq<u8>,
}

/// The outcome of parsing a container: its header fields and payload, or
/// the first structural error. The checksum is not verified here.
pub open spec fn spec_load_bytes(b: Seq<u8>) -> Result<LoaderV, LoaderError> {
    if b.len() < 50 {
        Err(LoaderError::NotEnoughBytesForHeader)
    } else if !(b[0] == 0x65 && b[1] == 0x58 && b[2] == 0x56 && b[3] == 0x4c) {
        Err(LoaderError::InvalidMagic)
    } else if b[4] != 0 {
        Err(LoaderError::UnsupportedVersion)
    } else if b.len() == 50 || b[50] != 0xAA {
        Err(LoaderError::InvalidEndHeaderMarker)
    } else if b.len() - 51 != spec_u64_from_le_bytes(b.subrange(5, 13)) {
        Err(LoaderError::NonMatchingFileSize)
    } else {
        Ok(
            LoaderV {
                version: b[4],
                file_size: spec_u64_from_le_bytes(b.subrange(5, 13)),
                starting_offset: spec_u64_from_le_bytes(b.subrange(13, 21)),
                flags: b[21],
                checksum: b.subrange(22, 50),
                program: b.skip(51),
            },
        )
    }
}

/// The outcome of checksum verification: the digest the flag bit selects,
/// computed over the payload alone, must equal the stored checksum.
pub open spec fn spec_validate(l: LoaderV) -> Result<(), LoaderError> {
    let digest = if l.flags & 1 == 0 {
        sha2_224_of(l.program)
    } else {
        sha3_224_of(l.program)
    };
    if digest == l.checksum {
        Ok(())
    } else {
        Err(LoaderError::InvalidChecksum)
    }
}

/// A parsed container: its header and its program payload.
#[derive(PartialEq, Debug)]
pub struct Loader {
    header: VXLHeader,
    program_bytes: Vec<u8>,
}

impl View for Loader {
    type V = LoaderV;

    closed spec fn view(&self) -> LoaderV {
        LoaderV {
            version: self.header.version,
            file_size: self.header.file_size,
            starting_offset: self.header.starting_offset,
            flags: self.header.flags,
            checksum: self.header.checksum@,
            program: self.program_bytes@,
        }
    }
}

impl Loader {
    /// A container assembled from an already-parsed header and payload.
    pub fn from_parts(header: VXLHeader, program_bytes: Vec<u8>) -> (r: Loader)
        ensures
            r@.version == header.version,
            r@.file_size == header.file_size,
            r@.starting_offset == header.starting_offset,
            r@.flags == header.flags,
            r@.checksum == header.checksum@,
            r@.program == program_bytes@,
    {
        Loader { header, program_bytes }
    }

    /// Parses a container: checks the magic bytes, the version, the
    /// sentinel and the declared payload size, and takes the header fields
    /// and the payload. The checksum is not verified here.
    pub fn load_bytes(bytes: &[u8]) -> (r: Result<Loader, LoaderError>)
        ensures
            match spec_load_bytes(bytes@) {
                Ok(v) => r matches Ok(l) && l@ == v,
                Err(e) => r == Err::<Loader, LoaderError>(e),
            },
    {
        if bytes.len() < HEADER_SIZE {
            return Err(LoaderError::NotEnoughBytesForHeader);
        }
        if !(*vstd::slice::slice_index_get(bytes, 0) == 0x65 && *vstd::slice::slice_index_get(
            bytes,
            1,
        ) == 0x58 && *vstd::slice::slice_index_get(bytes, 2) == 0x56
            && *vstd::slice::slice_index_get(bytes, 3) == 0x4c) {
            return Err(LoaderError::InvalidMagic);
        }
        let version = *vstd::slice::slice_index_get(bytes, 4);
        if version != 0 {
            return Err(LoaderError::UnsupportedVersion);
        }
        if bytes.len() == 50 || *vstd::slice::slice_index_get(bytes, 50) != END_HEADER_BYTE {
            return Err(LoaderError::InvalidEndHeaderMarker);
        }
        let file_size = vstd::bytes::u64_from_le_bytes(slice_subrange(bytes, 5, 13));
        let starting_offset = vstd::bytes::u64_from_le_bytes(slice_subrange(bytes, 13, 21));
        let flags = *vstd::slice::slice_index_get(bytes, 21);
        let checksum = slice_to_vec(slice_subrange(bytes, 22, 50));
        let program_bytes = slice_to_vec(slice_subrange(bytes, 51, bytes.len()));
        if program_bytes.len() as u64 != file_size {
            return Err(LoaderError::NonMatchingFileSize);
        }
        let ldr = Loader {
            header: VXLHeader::new(version, file_size, starting_offset, flags, checksum),
            program_bytes,
        };
        proof {
            assert(bytes@.subrange(5, 13) =~= bytes@.subrange(5, 13));
            assert(ldr@.program =~= bytes@.skip(51));
            assert(ldr@.checksum =~= bytes@.subrange(22, 50));
        }
        Ok(ldr)
    }

    /// Verifies the payload checksum with the digest the header's flag bit
    /// selects: SHA3-224 when the bit is set, SHA-224 otherwise.
    pub fn validate(&self) -> (r: Result<(), LoaderError>)
        ensures
            r == spec_validate(self@),
    {
        let digest = if self.header.flags & CHECKSUM_MASK == 0 {
            sha2_224(&self.program_bytes)
        } else {
            sha3_224(&self.program_bytes)
        };
        if digest.len() != self.header.checksum.len() {
            proof {
                assert(digest@ != self.header.checksum@);
            }
            return Err(LoaderError::InvalidChecksum);
        }
        let mut i: usize = 0;
        #[verifier::loop_isolation(false)]
        while i < digest.len()
            invariant
                i <= digest@.len(),
                digest@.len() == self.header.checksum@.len(),
                forall|j: int| 0 <= j < i ==> digest@[j] == self.header.checksum@[j],
            decreases digest@.len() - i,
        {
            if digest[i] != self.header.checksum[i] {
                return Err(LoaderError::InvalidChecksum);
            }
            i = i + 1;
        }
        proof {
            assert(digest@ =~= self.header.checksum@);
        }
        Ok(())
    }

    /// A copy of the parsed header.
    pub fn get_header(&self) -> (r: VXLHeader)
        ensures
            r.version == self@.version,
            r.file_size == self@.file_size,
            r.starting_offset == self@.starting_offset,
            r.flags == self@.flags,
            r.checksum@ == self@.checksum,
    {
        VXLHeader::new(
            self.header.version,
            self.header.file_size,
            self.header.starting_offset,
            self.header.flags,
            slice_to_vec(self.header.checksum.as_slice()),
        )
    }

    /// Surrenders the program payload.
    pub fn to_program_bytes(self) -> (r: Vec<u8>)
        ensures
            r@ == self@.program,
    {
        self.program_bytes
    }

    /// Decodes the payload into the instruction list, handing back the
    /// header beside it.
    pub fn to_instructions(self, validator: BulkValidator) -> (r: Result<
        (VXLHeader, Vec<Instruction>),
        ValidatorError,
    >)
        requires
            validator.wf(),
        ensures
            match spec_process_all(validator.rem() + self@.program) {
                Ok(list) => r matches Ok(p) && p.0.version == self@.version && p.0.file_size
                    == self@.file_size && p.0.starting_offset == self@.starting_offset
                    && p.0.flags == self@.flags && p.0.checksum@ == self@.checksum && p.1@ == list,
                Err(e) => r == Err::<(VXLHeader, Vec<Instruction>), ValidatorError>(e),
            },
    {
        let header = self.get_header();
        let mut validator = validator;
        validator.append_bytes(self.program_bytes);
        match validator.process_all_instructions() {
            Ok(instructions) => Ok((header, instructions)),
            Err(e) => Err(e),
        }
    }
}

} // verus!
