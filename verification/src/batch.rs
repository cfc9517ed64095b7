//! Which files a batch compilation takes, and the names it gives them.

use vstd::prelude::*;

verus! {

/// The name a source file compiles under: its file stem, or `unknown` when
/// the file has no stem that reads as text.
pub open spec fn spec_module_name(stem: Option<Seq<char>>) -> Seq<char> {
    match stem {
        Some(s) => s,
        None => "unknown"@,
    }
}

/// The name a source file compiles under, given its file stem.
pub fn module_name(stem: Option<&str>) -> (name: &str)
    ensures
        name@ == spec_module_name(
            match stem {
                Some(s) => Some(s@),
                None => None,
            },
        ),
{
    match stem {
        Some(s) => s,
        None => "unknown",
    }
}

/// The file a compiled module is written to: its name with `.inkc` appended.
pub fn output_file_name(module: &str) -> (file: String)
    ensures
        file@ == module@ + ".inkc"@,
{
    let mut file = String::from_str(module);
    file.append(".inkc");
    file
}

/// A file is an Inklang source exactly when its extension is `ink`.
pub fn is_ink_source(extension: Option<&str>) -> (ink: bool)
    ensures
        ink == (extension matches Some(e) && e@ == "ink"@),
{
    proof {
        reveal_strlit("ink");
    }
    match extension {
        None => false,
        Some(e) => {
            if e.unicode_len() != 3 {
                return false;
            }
            let same = e.get_char(0) == 'i' && e.get_char(1) == 'n' && e.get_char(2) == 'k';
            assert(same ==> e@ =~= "ink"@);
            same
        },
    }
}

} // verus!
