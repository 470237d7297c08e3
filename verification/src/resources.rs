//! The resources of the game: the pack files of its directories.

use crate::error::ReadError;
use crate::packfile::PackFile;
use vstd::prelude::*;
use vstd::string::StringExecFns;

verus! {

/// Handles pack files and their content.
pub trait GameResources {
    /// Whether adding the directory `path` may take the resources from the
    /// state `self` to the state `next`. Each implementation says so for
    /// itself; one that says nothing promises nothing.
    open spec fn directory_added(&self, path: Seq<char>, next: &Self) -> bool {
        true
    }

    /// Reads all PAK?.pak files in the given path.
    fn add_game_directory(&mut self, path: &str)
        ensures
            old(self).directory_added(path@, final(self)),
    ;
}

/// The character of one decimal digit.
pub open spec fn digit_text(digit: nat) -> Seq<char>
    recommends
        digit < 10,
{
    if digit == 0 {
        "0"@
    } else if digit == 1 {
        "1"@
    } else if digit == 2 {
        "2"@
    } else if digit == 3 {
        "3"@
    } else if digit == 4 {
        "4"@
    } else if digit == 5 {
        "5"@
    } else if digit == 6 {
        "6"@
    } else if digit == 7 {
        "7"@
    } else if digit == 8 {
        "8"@
    } else {
        "9"@
    }
}

/// A number in decimal digits, without leading zeros.
pub open spec fn decimal_text(n: nat) -> Seq<char>
    decreases n,
{
    if n < 10 {
        digit_text(n)
    } else {
        decimal_text(n / 10) + digit_text(n % 10)
    }
}

/// The path of pack file number `index` of a directory: "pak0.pak",
/// "pak1.pak" and so on, inside `path`.
pub open spec fn pack_path_text(path: Seq<char>, index: nat) -> Seq<char> {
    path + "/pak"@ + decimal_text(index) + ".pak"@
}

/// One decimal digit as text.
fn digit_str(digit: u32) -> (text: &'static str)
    requires
        digit < 10,
    ensures
        text@ == digit_text(digit as nat),
{
    if digit == 0 {
        "0"
    } else if digit == 1 {
        "1"
    } else if digit == 2 {
        "2"
    } else if digit == 3 {
        "3"
    } else if digit == 4 {
        "4"
    } else if digit == 5 {
        "5"
    } else if digit == 6 {
        "6"
    } else if digit == 7 {
        "7"
    } else if digit == 8 {
        "8"
    } else {
        "9"
    }
}

/// Appends a number in decimal digits to a text.
fn append_decimal(text: &mut String, n: u32)
    ensures
        final(text)@ == old(text)@ + decimal_text(n as nat),
    decreases n,
{
    if n >= 10 {
        append_decimal(text, n / 10);
    }
    text.append(digit_str(n % 10));
    assert(final(text)@ =~= old(text)@ + decimal_text(n as nat));
}

/// The walk through the pack files of one directory: which number is tried
/// next. It starts at zero and goes up by one with each pack file that
/// opened.
pub struct PackScan {
    index: u32,
}

impl PackScan {
    /// The number of the pack file that is tried next.
    pub closed spec fn index(&self) -> nat {
        self.index as nat
    }

    /// The start of a walk: "pak0.pak" is tried first.
    pub fn new() -> (scan: PackScan)
        ensures
            scan.index() == 0,
    {
        PackScan { index: 0 }
    }

    /// The number of the pack file that is tried next.
    pub fn number(&self) -> (n: u32)
        ensures
            n == self.index(),
    {
        self.index
    }

    /// The path under which the next pack file of the directory `path` is
    /// looked for.
    pub fn path(&self, path: &str) -> (file: String)
        ensures
            file@ == pack_path_text(path@, self.index()),
    {
        let mut file = String::from_str(path);
        file.append("/pak");
        append_decimal(&mut file, self.index);
        file.append(".pak");
        file
    }
}

/// Handles game resources.
pub struct GameResourcesImpl {
    packfiles: Vec<PackFile>,
}

impl GameResourcesImpl {
    /// The pack files that were added, oldest first.
    pub closed spec fn packs(&self) -> Seq<PackFile> {
        self.packfiles@
    }

    /// Constructor
    pub fn new() -> (resources: GameResourcesImpl)
        ensures
            resources.packs().len() == 0,
    {
        GameResourcesImpl { packfiles: Vec::new() }
    }

    /// The number of pack files that were added.
    pub fn len(&self) -> (n: usize)
        ensures
            n == self.packs().len(),
    {
        self.packfiles.len()
    }

    /// Pack file `index`, in the order in which they were added, or
    /// nothing where fewer were added.
    pub fn pack(&self, index: usize) -> (r: Option<&PackFile>)
        ensures
            match r {
                Some(pack) => index < self.packs().len() && *pack == self.packs()[index as int],
                None => index >= self.packs().len(),
            },
    {
        if index < self.packfiles.len() {
            Some(&self.packfiles[index])
        } else {
            None
        }
    }

    /// Takes in the outcome of opening the pack file that `scan` stands at.
    /// A pack file that opened is added behind the others, and the walk
    /// goes on to the next number (`true`). The first one that did not
    /// open, for whatever reason, ends the directory (`false`): that is no
    /// error. The walk also ends once the last number that 32 bits hold has
    /// been taken.
    pub fn add_pack(&mut self, scan: &mut PackScan, opened: Result<PackFile, ReadError>) -> (more:
        bool)
        ensures
            match opened {
                Ok(pack) => {
                    &&& final(self).packs() == old(self).packs().push(pack)
                    &&& more == (old(scan).index() < u32::MAX)
                    &&& final(scan).index() == if more {
                        old(scan).index() + 1
                    } else {
                        old(scan).index()
                    }
                },
                Err(_) => {
                    &&& !more
                    &&& final(self).packs() == old(self).packs()
                    &&& final(scan).index() == old(scan).index()
                },
            },
    {
        match opened {
            Ok(new_packfile) => {
                self.packfiles.push(new_packfile);
                if scan.index < u32::MAX {
                    scan.index = scan.index + 1;
                    true
                } else {
                    false
                }
            },
            Err(_) => false,
        }
    }
}

} // verus!
