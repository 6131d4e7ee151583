//! Decodes Portable Executable images: tells whether a buffer is one, and
//! lists the functions that it imports and exports by name.

pub mod model;
pub mod structures;
pub mod text;
pub mod utils;

use crate::model::has_signature;
use crate::structures::PortableExecutable;
use crate::text::{
    answer_view, classification, command_answer, export_text, import_text, listed_exports,
    listed_imports,
};
use vstd::prelude::*;
use vstd::string::*;

verus! {

/// Tells whether `data` is an image: `Ok("PE")` when it decodes, `Err("Not PE")`
/// when it is rejected. A buffer too short for the pointer to the signature, and
/// one without the signature, are rejected.
pub fn is_pe(data: &[u8]) -> (answer: Result<String, String>)
    ensures
        answer_view(answer) == classification(data@),
        data@.len() < PortableExecutable::E_LFANEW_OFFSET + 4 ==> answer is Err,
        !has_signature(data@) ==> answer is Err,
{
    if let Some(_) = PortableExecutable::create(data) {
        Ok(String::from_str("PE"))
    } else {
        Err(String::from_str("Not PE"))
    }
}

/// Lists the functions that the image in `data` imports by name: for each
/// library a line with its name, then an indented line for each name. An image
/// without an import directory, and one that imports from no library at all, is
/// answered with a marker, and a buffer that is rejected with `Err("Not PE")`.
pub fn import_functions(data: &[u8]) -> (answer: Result<String, String>)
    ensures
        answer_view(answer) == listed_imports(data@),
{
    match PortableExecutable::create(data) {
        Some(portable_executable) => {
            match portable_executable.get_import_table() {
                Some(import_table_ref) => {
                    if import_table_ref.entries.len() == 0 {
                        Ok(String::from_str("Don't import any functions"))
                    } else {
                        Ok(import_text(import_table_ref))
                    }
                },
                None => Ok(String::from_str("Don't import any functions")),
            }
        },
        None => Err(String::from_str("Not PE")),
    }
}

/// Lists the functions that the image in `data` exports by name, one a line, in
/// the order of its name-pointer array. An image without an export directory is
/// answered with a marker, and a buffer that is rejected with `Err("Not PE")`.
pub fn export_functions(data: &[u8]) -> (answer: Result<String, String>)
    ensures
        answer_view(answer) == listed_exports(data@),
{
    match PortableExecutable::create(data) {
        Some(portable_executable) => {
            match portable_executable.get_export_table() {
                Some(export_table_ref) => Ok(export_text(export_table_ref)),
                None => Ok(String::from_str("Don't export any functions")),
            }
        },
        None => Err(String::from_str("Not PE")),
    }
}

/// Tells whether `command` is spelled `name`.
fn is_named(command: &str, name: &str) -> (named: bool)
    ensures
        named == (command@ == name@),
{
    command.to_owned() == name.to_owned()
}

/// Runs the command named `command` on `data`: `is-pe`, `import-functions` or
/// `export-functions`. Any other name is answered with an error that names it.
pub fn run(command: &str, data: &[u8]) -> (answer: Result<String, String>)
    ensures
        answer_view(answer) == command_answer(command@, data@),
{
    if is_named(command, "is-pe") {
        is_pe(data)
    } else if is_named(command, "import-functions") {
        import_functions(data)
    } else if is_named(command, "export-functions") {
        export_functions(data)
    } else {
        Err(String::from_str("Cannot find a command ").concat(command).concat("!"))
    }
}

} // verus!
