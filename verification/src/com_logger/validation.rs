//! Checksum files that let a file be validated later.
use vstd::prelude::*;

use crate::fw::bytes;
use crate::fw::crc32;
use crate::fw::crc32::Crc32;
use crate::fw::types::FileStatus;

verus! {

broadcast use crate::fw::bytes::lemma_be32_len;

/// How many bytes of a file are read at a time.
pub const VFILE_HASH_CHUNK_SIZE: usize = 256;

/// What came of making a checksum file.
#[derive(Debug, Clone, Copy, PartialEq, Eq, Structural)]
pub enum ValidateStatus {
    /// The checksum file was written.
    ValidationOk,
    /// The file does not match its checksum.
    ValidationFail,
    /// The file does not exist.
    FileDoesntExist,
    /// The file may not be read.
    FileNoPermission,
    /// The file has a size that is not valid.
    FileBadSize,
    /// The checksum file does not exist.
    ValidationFileDoesntExist,
    /// The checksum file may not be written.
    ValidationFileNoPermission,
    /// The checksum file was not written in full.
    ValidationFileBadSize,
    /// The device is full.
    NoSpace,
    /// Anything else.
    OtherError,
}

impl ValidateStatus {
    /// The number on the wire.
    pub open spec fn code(self) -> u32 {
        match self {
            ValidateStatus::ValidationOk => 0,
            ValidateStatus::ValidationFail => 1,
            ValidateStatus::FileDoesntExist => 2,
            ValidateStatus::FileNoPermission => 3,
            ValidateStatus::FileBadSize => 4,
            ValidateStatus::ValidationFileDoesntExist => 5,
            ValidateStatus::ValidationFileNoPermission => 6,
            ValidateStatus::ValidationFileBadSize => 7,
            ValidateStatus::NoSpace => 8,
            ValidateStatus::OtherError => 9,
        }
    }

    /// The number on the wire.
    pub fn as_repr(self) -> (r: u32)
        ensures
            r == self.code(),
    {
        match self {
            ValidateStatus::ValidationOk => 0,
            ValidateStatus::ValidationFail => 1,
            ValidateStatus::FileDoesntExist => 2,
            ValidateStatus::FileNoPermission => 3,
            ValidateStatus::FileBadSize => 4,
            ValidateStatus::ValidationFileDoesntExist => 5,
            ValidateStatus::ValidationFileNoPermission => 6,
            ValidateStatus::ValidationFileBadSize => 7,
            ValidateStatus::NoSpace => 8,
            ValidateStatus::OtherError => 9,
        }
    }
}

/// Which file an operation was on.
#[derive(Debug, Clone, Copy, PartialEq, Eq, Structural)]
pub enum StatusFileType {
    /// The file.
    File,
    /// The checksum file.
    HashFile,
}

/// What the outcome of an operation on one of the files means.
pub open spec fn translated(status: FileStatus, file_type: StatusFileType) -> ValidateStatus {
    match (status, file_type) {
        (FileStatus::OpOk, _) => ValidateStatus::ValidationOk,
        (FileStatus::NoSpace, _) => ValidateStatus::NoSpace,
        (FileStatus::DoesntExist, StatusFileType::File) => ValidateStatus::FileDoesntExist,
        (FileStatus::DoesntExist, StatusFileType::HashFile) => ValidateStatus::ValidationFileDoesntExist,
        (FileStatus::NoPermission, StatusFileType::File) => ValidateStatus::FileNoPermission,
        (FileStatus::NoPermission, StatusFileType::HashFile) => ValidateStatus::ValidationFileNoPermission,
        (FileStatus::BadSize, StatusFileType::File) => ValidateStatus::FileBadSize,
        (FileStatus::BadSize, StatusFileType::HashFile) => ValidateStatus::ValidationFileBadSize,
        _ => ValidateStatus::OtherError,
    }
}

/// What the outcome of an operation on one of the files means.
pub fn translate_status(status: FileStatus, file_type: StatusFileType) -> (r: ValidateStatus)
    ensures
        r == translated(status, file_type),
{
    match file_type {
        StatusFileType::File => match status {
            FileStatus::OpOk => ValidateStatus::ValidationOk,
            FileStatus::DoesntExist => ValidateStatus::FileDoesntExist,
            FileStatus::NoSpace => ValidateStatus::NoSpace,
            FileStatus::NoPermission => ValidateStatus::FileNoPermission,
            FileStatus::BadSize => ValidateStatus::FileBadSize,
            _ => ValidateStatus::OtherError,
        },
        StatusFileType::HashFile => match status {
            FileStatus::OpOk => ValidateStatus::ValidationOk,
            FileStatus::DoesntExist => ValidateStatus::ValidationFileDoesntExist,
            FileStatus::NoSpace => ValidateStatus::NoSpace,
            FileStatus::NoPermission => ValidateStatus::ValidationFileNoPermission,
            FileStatus::BadSize => ValidateStatus::ValidationFileBadSize,
            _ => ValidateStatus::OtherError,
        },
    }
}

/// What came of making a checksum file, `hashed` being how reading the file went and
/// `written` how writing the checksum went.
pub open spec fn validated(hashed: FileStatus, written: FileStatus) -> ValidateStatus {
    if hashed != FileStatus::OpOk {
        translated(hashed, StatusFileType::File)
    } else {
        translated(written, StatusFileType::HashFile)
    }
}

/// How writing a checksum of `length` bytes went.
pub open spec fn hash_written(status: FileStatus, size: u64, length: u64) -> FileStatus {
    if status == FileStatus::OpOk && size != length {
        FileStatus::BadSize
    } else {
        status
    }
}

/// What came of making a checksum file, `hashed` being how reading the file went and
/// `written` how writing the checksum went.
pub fn create_validation(hashed: FileStatus, written: FileStatus) -> (r: ValidateStatus)
    ensures
        r == (if hashed != FileStatus::OpOk {
            translated(hashed, StatusFileType::File)
        } else {
            translated(written, StatusFileType::HashFile)
        }),
        r == ValidateStatus::ValidationOk <==> hashed == FileStatus::OpOk && written
            == FileStatus::OpOk,
        r == validated(hashed, written),
{
    if hashed != FileStatus::OpOk {
        return translate_status(hashed, StatusFileType::File);
    }
    translate_status(written, StatusFileType::HashFile)
}

/// How writing a checksum of `length` bytes went, `status` being what the write reported
/// and `size` how much it wrote.
pub fn write_hash(status: FileStatus, size: u64, length: u64) -> (r: FileStatus)
    ensures
        r == (if status == FileStatus::OpOk && size != length {
            FileStatus::BadSize
        } else {
            status
        }),
        r == hash_written(status, size, length),
{
    if status == FileStatus::OpOk && size != length {
        FileStatus::BadSize
    } else {
        status
    }
}

/// A checksum of a file in the course of reading it. A file is read until a read finds
/// nothing more, in no more reads than its size allows for.
pub struct FileHash {
    hash: Crc32,
    reads: u64,
    max_reads: u64,
    ended: bool,
    content: Ghost<Seq<u8>>,
}

/// A checksum in the course of reading, as contracts see it.
#[verifier::ext_equal]
pub struct FileHashView {
    /// What has been read.
    pub content: Seq<u8>,
    /// How many reads found something.
    pub reads: nat,
    /// How many reads may find something.
    pub max_reads: nat,
    /// Whether a read found nothing more.
    pub ended: bool,
}

/// How many reads of a file of a given size may find something.
pub open spec fn read_limit(file_size: nat) -> nat {
    file_size / VFILE_HASH_CHUNK_SIZE as nat + 2
}

impl View for FileHash {
    type V = FileHashView;

    closed spec fn view(&self) -> FileHashView {
        FileHashView {
            content: self.content@,
            reads: self.reads as nat,
            max_reads: self.max_reads as nat,
            ended: self.ended,
        }
    }
}

impl FileHash {
    /// The checksum is that of what has been read.
    pub closed spec fn wf(self) -> bool {
        &&& self.hash.holds(self.content@)
        &&& self.reads <= self.max_reads
    }

    /// Nothing has been read of a file of a given size.
    pub fn new(file_size: u64) -> (r: Self)
        ensures
            r.wf(),
            r@ == (FileHashView {
                content: Seq::empty(),
                reads: 0,
                max_reads: read_limit(file_size as nat),
                ended: false,
            }),
    {
        FileHash {
            hash: Crc32::new(),
            reads: 0,
            max_reads: file_size / VFILE_HASH_CHUNK_SIZE as u64 + 2,
            ended: false,
            content: Ghost(Seq::empty()),
        }
    }

    /// Whether to read on.
    pub fn wants_more(&self) -> (r: bool)
        ensures
            r == (!self@.ended && self@.reads < self@.max_reads),
    {
        !self.ended && self.reads < self.max_reads
    }

    /// Takes in what a read found.
    pub fn chunk(&mut self, data: &[u8])
        requires
            old(self).wf(),
            !old(self)@.ended,
            old(self)@.reads < old(self)@.max_reads,
        ensures
            final(self).wf(),
            final(self)@ == (if data@.len() == 0 {
                FileHashView { ended: true, ..old(self)@ }
            } else {
                FileHashView {
                    content: old(self)@.content + data@,
                    reads: old(self)@.reads + 1,
                    ..old(self)@
                }
            }),
    {
        if data.len() == 0 {
            self.ended = true;
        } else {
            self.hash.update(data);
            self.reads = self.reads + 1;
            self.content = Ghost(self.content@ + data@);
        }
    }

    /// The checksum on the wire. A file that went on where it should have ended has none.
    pub fn digest(&self) -> (r: Result<Vec<u8>, FileStatus>)
        requires
            self.wf(),
        ensures
            match r {
                Ok(digest) => self@.ended && digest@ == bytes::be32(crc32::crc32(self@.content)),
                Err(status) => !self@.ended && status == FileStatus::BadSize,
            },
    {
        if self.ended {
            let mut digest: Vec<u8> = Vec::new();
            bytes::push_u32(&mut digest, self.hash.finalize());
            assert(digest@ =~= bytes::be32(crc32::crc32(self.content@)));
            Ok(digest)
        } else {
            Err(FileStatus::BadSize)
        }
    }
}

/// Reading a file in full chunks ends within as many reads as its size allows for.
pub proof fn law_read_limit(file_size: nat)
    ensures
        (file_size + VFILE_HASH_CHUNK_SIZE - 1) / VFILE_HASH_CHUNK_SIZE as int + 1 <= read_limit(
            file_size,
        ),
{
}

/// Each outcome of making a checksum file has a number of its own.
pub proof fn law_outcome_numbers(s: ValidateStatus)
    ensures
        s is ValidationOk <==> s.code() == 0,
        s is ValidationFail <==> s.code() == 1,
        s is FileDoesntExist <==> s.code() == 2,
        s is FileNoPermission <==> s.code() == 3,
        s is FileBadSize <==> s.code() == 4,
        s is ValidationFileDoesntExist <==> s.code() == 5,
        s is ValidationFileNoPermission <==> s.code() == 6,
        s is ValidationFileBadSize <==> s.code() == 7,
        s is NoSpace <==> s.code() == 8,
        s is OtherError <==> s.code() == 9,
{
}

/// A checksum file was made only where the file was read and the checksum was written in full. What
/// went wrong with the file counts before what went wrong with its checksum; a checksum that was
/// not written in full is a checksum file of a bad size.
pub proof fn law_what_came_of_a_checksum_file(
    hashed: FileStatus,
    status: FileStatus,
    size: u64,
    length: u64,
)
    ensures
        ({
            let written = hash_written(status, size, length);
            let r = validated(hashed, written);
            &&& r == ValidateStatus::ValidationOk <==> hashed == FileStatus::OpOk && status
                == FileStatus::OpOk && size == length
            &&& hashed == FileStatus::OpOk && status == FileStatus::OpOk && size != length ==> r
                == ValidateStatus::ValidationFileBadSize
            &&& hashed == FileStatus::DoesntExist ==> r == ValidateStatus::FileDoesntExist
            &&& hashed == FileStatus::NoPermission ==> r == ValidateStatus::FileNoPermission
            &&& hashed == FileStatus::BadSize ==> r == ValidateStatus::FileBadSize
            &&& hashed == FileStatus::OpOk && status == FileStatus::NoPermission ==> r
                == ValidateStatus::ValidationFileNoPermission
            &&& hashed == FileStatus::OpOk && status == FileStatus::DoesntExist ==> r
                == ValidateStatus::ValidationFileDoesntExist
            &&& hashed == FileStatus::NoSpace || hashed == FileStatus::OpOk && status
                == FileStatus::NoSpace ==> r == ValidateStatus::NoSpace
        }),
{
}

} // verus!
