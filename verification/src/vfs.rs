//! Files that are held in memory until they are saved or compared.

use vstd::prelude::*;

verus! {

/// The contents of a file that is yet to be written to disk.
pub struct File {
    contents: Vec<u8>,
}

impl View for File {
    type V = Seq<u8>;

    closed spec fn view(&self) -> Seq<u8> {
        self.contents@
    }
}

impl File {
    /// An empty file.
    pub fn new() -> (f: Self)
        ensures
            f@ == Seq::<u8>::empty(),
    {
        File { contents: Vec::new() }
    }

    /// Appends the bytes to the file, all of them, and says how many they
    /// were.
    pub fn write(&mut self, buf: &[u8]) -> (n: usize)
        ensures
            final(self)@ == old(self)@ + buf@,
            n == buf.len(),
    {
        self.contents.extend_from_slice(buf);
        buf.len()
    }

    /// Does nothing: nothing is held back by `write`.
    pub fn flush(&mut self)
        ensures
            final(self)@ == old(self)@,
    {
    }

    /// The bytes of the file.
    pub fn contents(&self) -> (bytes: &Vec<u8>)
        ensures
            bytes@ == self@,
    {
        &self.contents
    }

    /// Whether the file holds exactly the bytes `found`, as a file on disk
    /// must for it to be up to date.
    pub fn matches(&self, found: &[u8]) -> (same: bool)
        ensures
            same == (self@ == found@),
    {
        if self.contents.len() != found.len() {
            return false;
        }
        let mut i: usize = 0;
        while i < found.len()
            invariant
                i <= found.len(),
                self.contents.len() == found.len(),
                forall|j: int| 0 <= j < i ==> self.contents[j] == found[j],
            decreases found.len() - i,
        {
            if self.contents[i] != found[i] {
                return false;
            }
            i += 1;
        }
        proof {
            assert(self.contents@ =~= found@);
        }
        true
    }
}

impl Default for File {
    fn default() -> (f: Self)
        ensures
            f@ == Seq::<u8>::empty(),
    {
        File::new()
    }
}

} // verus!
