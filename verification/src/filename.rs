//! Random file names for saved documents and screenshots, and the file
//! filters the save dialogs use.

use vstd::prelude::*;
use crate::rng::{is_alphanumeric_char, random_alphanumeric};
use crate::text::{chars_to_string, str_to_chars};

verus! {

/// A dialog filter: a display name and the extensions it admits.
pub struct FileFilter {
    pub name: String,
    pub file_extensions: Vec<&'static str>,
}

impl FileFilter {
    pub fn json() -> (f: Self)
        ensures
            f.name@ == "JSON"@,
            f.file_extensions@.len() == 1,
            f.file_extensions@[0]@ == "json"@,
    {
        let mut file_extensions: Vec<&'static str> = Vec::new();
        file_extensions.push("json");
        FileFilter { name: String::from_str("JSON"), file_extensions }
    }

    pub fn png() -> (f: Self)
        ensures
            f.name@ == "PNG"@,
            f.file_extensions@.len() == 1,
            f.file_extensions@[0]@ == "png"@,
    {
        let mut file_extensions: Vec<&'static str> = Vec::new();
        file_extensions.push("png");
        FileFilter { name: String::from_str("PNG"), file_extensions }
    }
}

/// A random alphanumeric file name of `name_length` characters; when the
/// filter has exactly one extension, a dot and that extension follow.
pub fn generate(name_length: usize, extensions: &Vec<&'static str>) -> (r: String)
    ensures
        extensions@.len() == 1 ==> {
            &&& r@.len() == name_length + 1 + extensions@[0]@.len()
            &&& r@.subrange(name_length as int, name_length + 1) =~= seq!['.']
            &&& r@.skip(name_length + 1) == extensions@[0]@
            &&& forall|i: int|
                0 <= i < name_length ==> is_alphanumeric_char(#[trigger] r@[i])
        },
        extensions@.len() != 1 ==> {
            &&& r@.len() == name_length
            &&& forall|i: int|
                0 <= i < name_length ==> is_alphanumeric_char(#[trigger] r@[i])
        },
{
    let name = random_alphanumeric(name_length);
    if extensions.len() == 1 {
        let mut chars = str_to_chars(name.as_str());
        chars.push('.');
        let mut ext_chars = str_to_chars(extensions[0]);
        chars.append(&mut ext_chars);
        let r = chars_to_string(&chars);
        proof {
            assert(r@.subrange(name_length as int, name_length + 1) =~= seq!['.']);
            assert(r@.skip(name_length + 1) =~= extensions@[0]@);
        }
        r
    } else {
        name
    }
}

} // verus!
