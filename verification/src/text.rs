//! The listings that the library answers with: what they say for a decoded
//! image, and how the lines are put together.

use crate::model::{
    data_directories, decode, directory_absent, headers_fit, lemma_absent_directories_decoded,
    Image, ImportEntryView,
};
use crate::structures::{ExportTable, ImportTable};
use vstd::prelude::*;
use vstd::string::*;

verus! {

/// The lines of `lines`, with a line feed between each two.
pub open spec fn joined(lines: Seq<Seq<char>>) -> Seq<char>
    decreases lines.len(),
{
    if lines.len() == 0 {
        Seq::empty()
    } else if lines.len() == 1 {
        lines[0]
    } else {
        joined(lines.drop_last()) + seq!['\n'] + lines.last()
    }
}

/// `name` behind four spaces.
pub open spec fn indented(name: Seq<char>) -> Seq<char> {
    seq![' ', ' ', ' ', ' '] + name
}

/// The lines that list one library: its name, then each imported name, indented.
pub open spec fn entry_lines(entry: ImportEntryView) -> Seq<Seq<char>> {
    seq![entry.name] + Seq::new(entry.names.len(), |i: int| indented(entry.names[i]))
}

/// The lines that list `entries`, library after library.
pub open spec fn import_lines(entries: Seq<ImportEntryView>) -> Seq<Seq<char>>
    decreases entries.len(),
{
    if entries.len() == 0 {
        Seq::empty()
    } else {
        import_lines(entries.drop_last()) + entry_lines(entries.last())
    }
}

/// What is answered for a buffer that is rejected.
pub open spec fn not_pe() -> Seq<char> {
    "Not PE"@
}

/// What is answered for a buffer that is an image.
pub open spec fn pe() -> Seq<char> {
    "PE"@
}

/// What is listed for an image that has no export table.
pub open spec fn no_exports() -> Seq<char> {
    "Don't export any functions"@
}

/// What is listed for an image that has no import table, or an empty one.
pub open spec fn no_imports() -> Seq<char> {
    "Don't import any functions"@
}

/// The listing of the exported names of `image`: one name a line, in table
/// order, or the marker for "no exports" when the image has no export table.
pub open spec fn export_listing(image: Image) -> Seq<char> {
    match image.exports {
        Some(names) => joined(names),
        None => no_exports(),
    }
}

/// The listing of the imports of `image`: for each library a line with its
/// name and an indented line for each name imported from it, or the marker for
/// "no imports" when the image has no import table or the table has no library.
pub open spec fn import_listing(image: Image) -> Seq<char> {
    match image.imports {
        Some(entries) => if entries.len() == 0 {
            no_imports()
        } else {
            joined(import_lines(entries))
        },
        None => no_imports(),
    }
}

/// What [`crate::is_pe`] answers for `bytes`.
pub open spec fn classification(bytes: Seq<u8>) -> Result<Seq<char>, Seq<char>> {
    match decode(bytes) {
        Some(_) => Ok(pe()),
        None => Err(not_pe()),
    }
}

/// What [`crate::import_functions`] answers for `bytes`.
pub open spec fn listed_imports(bytes: Seq<u8>) -> Result<Seq<char>, Seq<char>> {
    match decode(bytes) {
        Some(image) => Ok(import_listing(image)),
        None => Err(not_pe()),
    }
}

/// What [`crate::export_functions`] answers for `bytes`.
pub open spec fn listed_exports(bytes: Seq<u8>) -> Result<Seq<char>, Seq<char>> {
    match decode(bytes) {
        Some(image) => Ok(export_listing(image)),
        None => Err(not_pe()),
    }
}

/// An image whose export directory is absent is listed with the marker for
/// "no exports"; it is not rejected.
pub proof fn lemma_absent_exports_listed(bytes: Seq<u8>)
    requires
        decode(bytes) is Some,
        directory_absent(data_directories(bytes)[0]),
    ensures
        listed_exports(bytes) == Ok::<Seq<char>, Seq<char>>(no_exports()),
{
}

/// An image whose import directory is absent is listed with the marker for
/// "no imports"; it is not rejected.
pub proof fn lemma_absent_imports_listed(bytes: Seq<u8>)
    requires
        decode(bytes) is Some,
        directory_absent(data_directories(bytes)[1]),
    ensures
        listed_imports(bytes) == Ok::<Seq<char>, Seq<char>>(no_imports()),
{
}

/// An image with well-formed headers and neither an export nor an import
/// directory is an image, and both listings answer with their marker.
pub proof fn lemma_absent_directories_listed(bytes: Seq<u8>)
    requires
        headers_fit(bytes),
        directory_absent(data_directories(bytes)[0]),
        directory_absent(data_directories(bytes)[1]),
    ensures
        classification(bytes) == Ok::<Seq<char>, Seq<char>>(pe()),
        listed_exports(bytes) == Ok::<Seq<char>, Seq<char>>(no_exports()),
        listed_imports(bytes) == Ok::<Seq<char>, Seq<char>>(no_imports()),
{
    lemma_absent_directories_decoded(bytes);
}

/// What is answered for a command that does not exist.
pub open spec fn unknown_command(command: Seq<char>) -> Seq<char> {
    "Cannot find a command "@ + command + "!"@
}

/// What [`crate::run`] answers when asked to run `command` on `bytes`.
pub open spec fn command_answer(command: Seq<char>, bytes: Seq<u8>) -> Result<
    Seq<char>,
    Seq<char>,
> {
    if command == "is-pe"@ {
        classification(bytes)
    } else if command == "import-functions"@ {
        listed_imports(bytes)
    } else if command == "export-functions"@ {
        listed_exports(bytes)
    } else {
        Err(unknown_command(command))
    }
}

/// An answer as the characters it holds.
pub open spec fn answer_view(answer: Result<String, String>) -> Result<Seq<char>, Seq<char>> {
    match answer {
        Ok(text) => Ok(text@),
        Err(text) => Err(text@),
    }
}

/// The views of the strings of `lines`.
pub open spec fn texts(lines: Seq<String>) -> Seq<Seq<char>> {
    Seq::new(lines.len(), |i: int| lines[i]@)
}

/// Joins `lines` into one string, with a line feed between each two.
pub fn join(lines: &Vec<String>) -> (text: String)
    ensures
        text@ == joined(texts(lines@)),
{
    let mut text = String::new();
    for i in 0..lines.len()
        invariant
            text@ == joined(texts(lines@).take(i as int)),
    {
        proof {
            reveal_strlit("\n");
            assert(texts(lines@).take(i + 1).drop_last() =~= texts(lines@).take(i as int));
        }
        if i > 0 {
            text.append("\n");
        }
        text.append(lines[i].as_str());
    }
    assert(texts(lines@).take(lines@.len() as int) =~= texts(lines@));
    text
}

/// Lists the names of `table`, one a line.
pub fn export_text(table: &ExportTable) -> (text: String)
    ensures
        text@ == joined(table@),
{
    join(&table.names)
}

/// Lists the libraries of `table`: for each a line with its name and an
/// indented line for each name imported from it.
pub fn import_text(table: &ImportTable) -> (text: String)
    ensures
        text@ == joined(import_lines(table@)),
{
    let mut info: Vec<String> = Vec::new();
    for i in 0..table.entries.len()
        invariant
            texts(info@) == import_lines(table@.take(i as int)),
    {
        let entry = &table.entries[i];
        let ghost before = texts(info@);
        info.push(entry.name.clone());
        for j in 0..entry.lookup_table.entries.len()
            invariant
                i < table.entries@.len(),
                *entry == table.entries@[i as int],
                texts(info@) == before + seq![entry.name@] + Seq::new(
                    j as nat,
                    |k: int| indented(entry@.names[k]),
                ),
        {
            proof {
                reveal_strlit("    ");
            }
            let mut line = String::from_str("    ");
            line.append(entry.lookup_table.entries[j].name.as_str());
            let ghost listed = texts(info@);
            info.push(line);
            proof {
                assert(line@ == indented(entry@.names[j as int]));
                assert(listed.push(line@) =~= before + seq![entry.name@] + Seq::new(
                    (j + 1) as nat,
                    |k: int| indented(entry@.names[k]),
                ));
            }
        }
        proof {
            assert(table@.take(i + 1).drop_last() =~= table@.take(i as int));
        }
    }
    assert(table@.take(table.entries@.len() as int) =~= table@);
    join(&info)
}

} // verus!
