//! Emitting sub-content from a module: the numbered files that carry a
//! payload and its descriptor to the host.

use crate::emission::{DescriptorView, SubcontentDescriptor};
use crate::text::{decimal_digits, push_decimal_digits};
use vstd::prelude::*;
use vstd::slice::slice_to_vec;
use vstd::string::StringExecFns;

verus! {

/// Numbers the sub-content emissions of a module.
#[derive(Debug)]
pub struct SubContent {
    counter: usize,
}

/// The files of one emission, in the order in which the guest has to write
/// and close them: the payload first where there is one, the descriptor
/// last.
#[derive(Debug)]
pub struct EmissionFiles {
    pub data: Option<(String, Vec<u8>)>,
    pub metadata_path: String,
    pub descriptor: SubcontentDescriptor,
}

/// The payload file of the emission with the given number.
pub open spec fn data_file_path(n: usize) -> Seq<char> {
    "/subcontent/data_"@ + decimal_digits(n as nat) + ".bin"@
}

/// The descriptor file of the emission with the given number.
pub open spec fn metadata_file_path(n: usize) -> Seq<char> {
    "/subcontent/metadata_"@ + decimal_digits(n as nat) + ".json"@
}

fn numbered(prefix: &str, n: usize, suffix: &str) -> (path: String)
    ensures
        path@ == prefix@ + decimal_digits(n as nat) + suffix@,
{
    let mut path = String::from_str(prefix);
    push_decimal_digits(&mut path, n as u64);
    path.append(suffix);
    path
}

impl SubContent {
    /// The number of the next emission.
    pub closed spec fn counter(&self) -> usize {
        self.counter
    }

    /// An emitter that starts numbering at zero.
    pub fn new() -> (emitter: Self)
        ensures
            emitter.counter() == 0,
    {
        SubContent { counter: 0 }
    }

    /// Uses up the next emission number. The numbering cannot go beyond the
    /// machine word.
    pub fn next_counter(&mut self) -> (r: Option<usize>)
        ensures
            old(self).counter() < usize::MAX ==> r == Some(old(self).counter())
                && final(self).counter() == old(self).counter() + 1,
            old(self).counter() == usize::MAX ==> r is None
                && final(self).counter() == old(self).counter(),
    {
        if self.counter == usize::MAX {
            return None;
        }
        let n: usize = self.counter;
        self.counter = n + 1;
        Some(n)
    }

    /// Emits bytes as sub-content: a payload file holding `data`, and a
    /// descriptor that names the sub-content.
    pub fn emit_bytes(&mut self, data: &[u8], filename: &str) -> (r: Result<EmissionFiles, String>)
        ensures
            old(self).counter() == usize::MAX ==> r is Err
                && final(self).counter() == old(self).counter(),
            old(self).counter() < usize::MAX ==> {
                &&& final(self).counter() == old(self).counter() + 1
                &&& r matches Ok(files)
                &&& files.data matches Some((path, payload))
                &&& path@ == data_file_path(old(self).counter())
                &&& payload@ == data@
                &&& files.metadata_path@ == metadata_file_path(old(self).counter())
                &&& files.descriptor@ == (DescriptorView {
                    filename: filename@,
                    offset: None,
                    length: None,
                })
            },
    {
        let n = match self.next_counter() {
            Some(n) => n,
            None => {
                return Err(String::from_str("emission numbers are used up"));
            },
        };
        Ok(
            EmissionFiles {
                data: Some((numbered("/subcontent/data_", n, ".bin"), slice_to_vec(data))),
                metadata_path: numbered("/subcontent/metadata_", n, ".json"),
                descriptor: SubcontentDescriptor {
                    filename: filename.to_owned(),
                    offset: None,
                    length: None,
                },
            },
        )
    }

    /// Emits a range of the content being processed as sub-content: only a
    /// descriptor, which names the sub-content and the range.
    pub fn emit_slice(&mut self, offset: usize, length: usize, filename: &str) -> (r: Result<
        EmissionFiles,
        String,
    >)
        ensures
            old(self).counter() == usize::MAX ==> r is Err
                && final(self).counter() == old(self).counter(),
            old(self).counter() < usize::MAX ==> {
                &&& final(self).counter() == old(self).counter() + 1
                &&& r matches Ok(files)
                &&& files.data is None
                &&& files.metadata_path@ == metadata_file_path(old(self).counter())
                &&& files.descriptor@ == (DescriptorView {
                    filename: filename@,
                    offset: Some(offset),
                    length: Some(length),
                })
            },
    {
        let n = match self.next_counter() {
            Some(n) => n,
            None => {
                return Err(String::from_str("emission numbers are used up"));
            },
        };
        Ok(
            EmissionFiles {
                data: None,
                metadata_path: numbered("/subcontent/metadata_", n, ".json"),
                descriptor: SubcontentDescriptor {
                    filename: filename.to_owned(),
                    offset: Some(offset),
                    length: Some(length),
                },
            },
        )
    }
}

} // verus!
