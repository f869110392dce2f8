//! The entry model: one filesystem object's metadata snapshot, and the
//! checks applied to paths before they are scanned.
use vstd::prelude::*;
use crate::error::Error;
use crate::path::{component_count, component_count_of, extension_of, file_name, file_name_of, split_extension};
use crate::text::{lower_of, to_lower};
use vstd::string::*;

pub mod ops;
pub mod scanner;
pub mod watcher;
pub mod metadata;

verus! {

/// The deepest path, in components, that the engine accepts.
pub const MAX_PATH_COMPONENTS: usize = 256;

/// A point in time: whole seconds since the Unix epoch and the nanoseconds
/// past them.
#[derive(Clone, Copy, Debug, PartialEq, Eq, Structural)]
pub struct FileTime {
    pub secs: i64,
    pub nanos: u32,
}

/// What a stat of one path reports, through the file-identity abstraction:
/// platforms without inodes or permission bits report zero for them.
#[derive(Clone, Copy, Debug, PartialEq, Eq, Structural)]
pub struct FileStat {
    pub size: u64,
    pub modified: FileTime,
    pub is_dir: bool,
    pub is_symlink: bool,
    pub permissions: u32,
    pub inode: u64,
}

/// Immutable snapshot of one filesystem object.
#[derive(Clone, Debug)]
pub struct DirEntry {
    pub name: String,
    pub path: String,
    pub size: u64,
    pub modified: FileTime,
    pub is_dir: bool,
    pub is_symlink: bool,
    pub permissions: u32,
    pub inode: u64,
}

/// Whether a name follows the hidden-entry convention.
pub open spec fn is_hidden_name(name: Seq<char>) -> bool {
    name.len() > 0 && name[0] == '.'
}

/// Whether `e` is the snapshot of `path` that `stat` describes.
pub open spec fn entry_from(e: DirEntry, path: Seq<char>, stat: FileStat) -> bool {
    &&& file_name_of(path) == Some(e.name@)
    &&& e.path@ == path
    &&& e.size == stat.size
    &&& e.modified == stat.modified
    &&& e.is_dir == stat.is_dir
    &&& e.is_symlink == stat.is_symlink
    &&& e.permissions == stat.permissions
    &&& e.inode == stat.inode
}

impl DirEntry {
    /// The snapshot of `path` from its stat; a path without a final name
    /// component is invalid.
    pub fn from_stat(path: &str, stat: &FileStat) -> (r: Result<DirEntry, Error>)
        ensures
            r matches Ok(e) ==> entry_from(e, path@, *stat),
            r is Err <==> file_name_of(path@) is None,
            r matches Err(e) ==> (e matches Error::InvalidPath { path: p } && p@ == path@),
    {
        match file_name(path) {
            Some(name) => Ok(
                DirEntry {
                    name,
                    path: path.to_owned(),
                    size: stat.size,
                    modified: stat.modified,
                    is_dir: stat.is_dir,
                    is_symlink: stat.is_symlink,
                    permissions: stat.permissions,
                    inode: stat.inode,
                },
            ),
            None => Err(Error::InvalidPath { path: path.to_owned() }),
        }
    }

    /// A copy equal to this entry in every field.
    pub fn duplicate(&self) -> (r: DirEntry)
        ensures
            r == *self,
    {
        DirEntry {
            name: self.name.clone(),
            path: self.path.clone(),
            size: self.size,
            modified: self.modified,
            is_dir: self.is_dir,
            is_symlink: self.is_symlink,
            permissions: self.permissions,
            inode: self.inode,
        }
    }

    pub fn is_hidden(&self) -> (r: bool)
        ensures
            r == is_hidden_name(self.name@),
    {
        self.name.as_str().unicode_len() > 0 && self.name.as_str().get_char(0) == '.'
    }

    /// The extension of the entry's name, in lower case.
    pub fn extension(&self) -> (r: Option<String>)
        ensures
            r matches Some(s) ==> (file_name_of(self.path@) matches Some(n) && extension_of(n)
                matches Some(x) && s@ == lower_of(x)),
            r is None ==> (file_name_of(self.path@) matches Some(n) ==> extension_of(n) is None),
    {
        match file_name(self.path.as_str()) {
            Some(n) => {
                let (_, ext) = split_extension(n.as_str());
                match ext {
                    Some(x) => Some(to_lower(x.as_str())),
                    None => None,
                }
            },
            None => None,
        }
    }
}

/// The MIME type that mime_guess gives for a file extension.
pub uninterp spec fn mime_of_extension(ext: Seq<char>) -> Seq<char>;

/// Relies on mime_guess::from_ext and MimeGuess::first_or_octet_stream: the
/// first MIME type known for the extension, else `application/octet-stream`,
/// which is also the answer for the empty extension. No disk access.
#[verifier::external_body]
fn mime_for_extension(ext: &str) -> (r: String)
    ensures
        r@ == mime_of_extension(ext@),
        ext@.len() == 0 ==> r@ == "application/octet-stream"@,
{
    mime_guess::from_ext(ext).first_or_octet_stream().to_string()
}

impl DirEntry {
    /// The MIME type guessed from the extension of the entry's name, with
    /// `application/octet-stream` for a name without one.
    pub fn mime_type(&self) -> (r: String)
        ensures
            file_name_of(self.path@) matches Some(n) ==> (extension_of(n) matches Some(x)
                ==> r@ == mime_of_extension(x)),
            !(file_name_of(self.path@) matches Some(n) && extension_of(n) is Some) ==> r@
                == "application/octet-stream"@,
    {
        match file_name(self.path.as_str()) {
            Some(n) => {
                let (_, ext) = split_extension(n.as_str());
                match ext {
                    Some(x) => mime_for_extension(x.as_str()),
                    None => String::from_str("application/octet-stream"),
                }
            },
            None => String::from_str("application/octet-stream"),
        }
    }
}

/// The kind of a filesystem object.
#[derive(Clone, Copy, Debug, PartialEq, Eq, Structural)]
pub enum EntryType {
    File,
    Directory,
    Symlink,
    BlockDevice,
    CharDevice,
    Fifo,
    Socket,
    Unknown,
}

/// The file-type flags that a stat reports.
#[derive(Clone, Copy, Debug, PartialEq, Eq, Structural)]
pub struct FileTypeFlags {
    pub is_file: bool,
    pub is_dir: bool,
    pub is_symlink: bool,
    pub is_block_device: bool,
    pub is_char_device: bool,
    pub is_fifo: bool,
    pub is_socket: bool,
}

impl EntryType {
    /// The kind named by the first flag that is set, in the order of the
    /// variants.
    pub fn from_flags(f: &FileTypeFlags) -> (r: EntryType)
        ensures
            r == (if f.is_file {
                EntryType::File
            } else if f.is_dir {
                EntryType::Directory
            } else if f.is_symlink {
                EntryType::Symlink
            } else if f.is_block_device {
                EntryType::BlockDevice
            } else if f.is_char_device {
                EntryType::CharDevice
            } else if f.is_fifo {
                EntryType::Fifo
            } else if f.is_socket {
                EntryType::Socket
            } else {
                EntryType::Unknown
            }),
    {
        if f.is_file {
            EntryType::File
        } else if f.is_dir {
            EntryType::Directory
        } else if f.is_symlink {
            EntryType::Symlink
        } else if f.is_block_device {
            EntryType::BlockDevice
        } else if f.is_char_device {
            EntryType::CharDevice
        } else if f.is_fifo {
            EntryType::Fifo
        } else if f.is_socket {
            EntryType::Socket
        } else {
            EntryType::Unknown
        }
    }
}

/// Checks a root before a scan: it must exist, and be no deeper than the
/// engine accepts.
pub fn validate_path(path: &str, exists: bool) -> (r: Result<(), Error>)
    ensures
        !exists ==> (r matches Err(Error::NotFound { path: p }) && p@ == path@),
        exists && component_count(path@) > MAX_PATH_COMPONENTS ==> (r matches Err(
            Error::InvalidPath { path: p },
        ) && p@ == path@),
        exists && component_count(path@) <= MAX_PATH_COMPONENTS ==> r is Ok,
{
    if !exists {
        return Err(Error::NotFound { path: path.to_owned() });
    }
    if component_count_of(path) > MAX_PATH_COMPONENTS {
        return Err(Error::InvalidPath { path: path.to_owned() });
    }
    Ok(())
}

/// One hop of resolving a chain of symbolic links that started at `path`,
/// after `hops` links were followed: `Ok(true)` to read the link and go on,
/// `Ok(false)` when `is_symlink` says the chain has ended.
pub fn symlink_step(path: &str, hops: usize, max_hops: usize, is_symlink: bool) -> (r: Result<
    bool,
    Error,
>)
    ensures
        !is_symlink ==> r == Ok::<bool, Error>(false),
        is_symlink && hops < max_hops ==> r == Ok::<bool, Error>(true),
        is_symlink && hops >= max_hops ==> (r matches Err(Error::SymlinkLoop { path: p }) && p@
            == path@),
{
    if !is_symlink {
        Ok(false)
    } else if hops >= max_hops {
        Err(Error::SymlinkLoop { path: path.to_owned() })
    } else {
        Ok(true)
    }
}

/// Refuses a path that is not a directory: a scan root, or the destination
/// of a copy or a move.
pub fn require_directory(path: &str, is_dir: bool) -> (r: Result<(), Error>)
    ensures
        is_dir <==> r is Ok,
        r matches Err(e) ==> (e matches Error::InvalidPath { path: p } && p@ == path@),
{
    if is_dir {
        Ok(())
    } else {
        Err(Error::InvalidPath { path: path.to_owned() })
    }
}

} // verus!
