//! The data a directory listing shows for one entry, and the simple
//! timestamp rendering the listing uses.
//!
//! The filesystem work of gathering an entry stays with the caller,
//! which passes the metadata in as plain values: the two kind flags,
//! the size, and the modification time in whole seconds since the
//! Unix epoch.

use crate::dec::{dec_bytes, dec_chars, lemma_dec_bytes_are_digits, u64_to_dec};
use vstd::prelude::*;
use vstd::string::StringExecFns;

verus! {

/// The kind of a directory entry.
#[derive(Clone, Copy, PartialEq, Eq, Structural, Debug)]
pub enum FileType {
    Directory,
    File,
    Symlink,
    Other,
}

/// How an entry is classified from its metadata flags: a directory
/// first, then a regular file, anything else as other.
pub open spec fn classified(is_dir: bool, is_file: bool) -> FileType {
    if is_dir {
        FileType::Directory
    } else if is_file {
        FileType::File
    } else {
        FileType::Other
    }
}

/// What a listing shows of one directory entry. The modification time
/// is in whole seconds since the Unix epoch.
pub struct FileInfo {
    pub path: Vec<u8>,
    pub name: Vec<u8>,
    pub file_type: FileType,
    pub size: u64,
    pub modified: u64,
    pub is_hidden: bool,
}

impl FileInfo {
    /// Builds the entry for plain metadata values: the kind from the
    /// two flags, and hidden exactly when the name starts with a dot.
    pub fn new(
        path: Vec<u8>,
        name: Vec<u8>,
        is_dir: bool,
        is_file: bool,
        size: u64,
        modified: u64,
    ) -> (r: FileInfo)
        ensures
            r.path@ == path@,
            r.name@ == name@,
            r.file_type == classified(is_dir, is_file),
            r.size == size,
            r.modified == modified,
            r.is_hidden <==> (name@.len() > 0 && name@[0] == '.' as u8),
    {
        let file_type = if is_dir {
            FileType::Directory
        } else if is_file {
            FileType::File
        } else {
            FileType::Other
        };
        let is_hidden = name.len() > 0 && name[0] == '.' as u8;
        FileInfo { path, name, file_type, size, modified, is_hidden }
    }
}

/// The characters reported for a time that lies before the epoch.
pub open spec fn unknown_lit() -> Seq<char> {
    seq!['U', 'n', 'k', 'n', 'o', 'w', 'n']
}

/// Appends the character of one ASCII digit byte.
fn push_digit_char(s: &mut String, b: u8)
    requires
        48 <= b < 58,
    ensures
        final(s)@ == old(s)@ + seq![b as char],
{
    if b == 48 {
        s.append("0");
        proof {
            reveal_strlit("0");
            assert(s@ =~= old(s)@ + seq![b as char]);
        }
    } else if b == 49 {
        s.append("1");
        proof {
            reveal_strlit("1");
            assert(s@ =~= old(s)@ + seq![b as char]);
        }
    } else if b == 50 {
        s.append("2");
        proof {
            reveal_strlit("2");
            assert(s@ =~= old(s)@ + seq![b as char]);
        }
    } else if b == 51 {
        s.append("3");
        proof {
            reveal_strlit("3");
            assert(s@ =~= old(s)@ + seq![b as char]);
        }
    } else if b == 52 {
        s.append("4");
        proof {
            reveal_strlit("4");
            assert(s@ =~= old(s)@ + seq![b as char]);
        }
    } else if b == 53 {
        s.append("5");
        proof {
            reveal_strlit("5");
            assert(s@ =~= old(s)@ + seq![b as char]);
        }
    } else if b == 54 {
        s.append("6");
        proof {
            reveal_strlit("6");
            assert(s@ =~= old(s)@ + seq![b as char]);
        }
    } else if b == 55 {
        s.append("7");
        proof {
            reveal_strlit("7");
            assert(s@ =~= old(s)@ + seq![b as char]);
        }
    } else if b == 56 {
        s.append("8");
        proof {
            reveal_strlit("8");
            assert(s@ =~= old(s)@ + seq![b as char]);
        }
    } else {
        s.append("9");
        proof {
            reveal_strlit("9");
            assert(b == 57);
            assert(s@ =~= old(s)@ + seq![b as char]);
        }
    }
}

/// Renders a modification time, given as whole seconds since the Unix
/// epoch, as its decimal digits. A time before the epoch has no such
/// seconds value; it is reported as `Unknown`.
pub fn format_time_simple(seconds_since_epoch: Option<u64>) -> (r: String)
    ensures
        match seconds_since_epoch {
            Some(n) => r@ == dec_chars(n as nat),
            None => r@ == unknown_lit(),
        },
{
    match seconds_since_epoch {
        None => {
            let s = "Unknown".to_owned();
            proof {
                reveal_strlit("Unknown");
                assert(s@ =~= unknown_lit());
            }
            s
        },
        Some(n) => {
            let digits = u64_to_dec(n);
            proof {
                lemma_dec_bytes_are_digits(n as nat);
            }
            let mut s = String::new();
            let mut k: usize = 0;
            while k < digits.len()
                invariant
                    k <= digits@.len(),
                    digits@ == dec_bytes(n as nat),
                    forall|j: int| 0 <= j < digits@.len() ==> 48 <= #[trigger] digits@[j] < 58,
                    s@.len() == k as int,
                    forall|j: int| 0 <= j < k ==> s@[j] == (digits@[j] as char),
                decreases digits@.len() - k,
            {
                push_digit_char(&mut s, digits[k]);
                k += 1;
            }
            proof {
                assert(s@ =~= dec_chars(n as nat));
            }
            s
        },
    }
}

} // verus!
