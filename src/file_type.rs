//! The object file type of the ELF header.
use vstd::prelude::*;

verus! {

/// Object file type (`e_type`).
#[derive(Copy, Clone, PartialEq, Eq, Structural, Debug)]
pub enum FileType {
    EtNone,
    EtRel,
    EtExec,
    EtDyn,
    EtCore,
}

/// An `e_type` code outside the supported set.
#[derive(Copy, Clone, PartialEq, Eq, Structural, Debug)]
pub enum Error {
    Unsupported,
}

/// The file type that `value` encodes, if any.
pub open spec fn file_type_spec(value: u16) -> Result<FileType, Error> {
    if value == 0 {
        Ok(FileType::EtNone)
    } else if value == 1 {
        Ok(FileType::EtRel)
    } else if value == 2 {
        Ok(FileType::EtExec)
    } else if value == 3 {
        Ok(FileType::EtDyn)
    } else if value == 4 {
        Ok(FileType::EtCore)
    } else {
        Err(Error::Unsupported)
    }
}

/// The code that encodes `t`.
pub open spec fn file_type_code(t: FileType) -> u16 {
    match t {
        FileType::EtNone => 0,
        FileType::EtRel => 1,
        FileType::EtExec => 2,
        FileType::EtDyn => 3,
        FileType::EtCore => 4,
    }
}

impl TryFrom<u16> for FileType {
    type Error = Error;

    fn try_from(value: u16) -> (r: Result<FileType, Error>)
        ensures
            r == file_type_spec(value),
    {
        match value {
            0 => Ok(FileType::EtNone),
            1 => Ok(FileType::EtRel),
            2 => Ok(FileType::EtExec),
            3 => Ok(FileType::EtDyn),
            4 => Ok(FileType::EtCore),
            _ => Err(Error::Unsupported),
        }
    }
}

impl vstd::std_specs::convert::TryFromSpecImpl<u16> for FileType {
    open spec fn obeys_try_from_spec() -> bool {
        true
    }

    open spec fn try_from_spec(v: u16) -> Result<FileType, Error> {
        file_type_spec(v)
    }
}

} // verus!
