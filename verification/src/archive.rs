//! Reading the entries of a zip archive that is held in memory.

use std::io::Cursor;
use std::io::Read;
use vstd::prelude::*;
use zip::result::ZipError;
use zip::ZipArchive;
use crate::extract::{ArchiveEntry, ArchiveEntryView, ExtractionError};

verus! {

/// `zip::ZipArchive`, an archive opened for reading. Nothing is known of
/// one but what the functions below say.
#[verifier::external_type_specification]
#[verifier::external_body]
#[verifier::reject_recursive_types(R)]
pub struct ExZipArchive<R>(ZipArchive<R>);

/// `std::io::Cursor`, which lets bytes in memory be read like a file.
#[verifier::external_type_specification]
#[verifier::external_body]
#[verifier::reject_recursive_types(T)]
pub struct ExCursor<T>(Cursor<T>);

/// `zip::result::ZipError`, the reason why an archive or an entry could
/// not be read. It is not looked into.
#[verifier::external_type_specification]
#[verifier::external_body]
pub struct ExZipError(ZipError);

/// What an archive holds: at each index the entry as `read_entry` reads it
/// there, or `None` where reading it fails.
pub uninterp spec fn archive_entries(archive: ZipArchive<Cursor<Vec<u8>>>) -> Seq<
    Option<ArchiveEntryView>,
>;

/// What the archive that `bytes` encode holds, or `None` where `bytes` are
/// not an archive that can be opened.
pub uninterp spec fn parsed_archive(bytes: Seq<u8>) -> Option<Seq<Option<ArchiveEntryView>>>;

/// `ZipArchive::new` on a cursor over `bytes`. Whether the archive opens,
/// and what it then holds, depends on `bytes` alone.
#[verifier::external_body]
fn open_archive(bytes: Vec<u8>) -> (r: Result<ZipArchive<Cursor<Vec<u8>>>, ZipError>)
    ensures
        match r {
            Ok(archive) => parsed_archive(bytes@) == Some(archive_entries(archive)),
            Err(_) => parsed_archive(bytes@) is None,
        },
{
    ZipArchive::new(Cursor::new(bytes))
}

/// `ZipArchive::len`: the number of entries that the archive holds.
#[verifier::external_body]
fn archive_len(archive: &ZipArchive<Cursor<Vec<u8>>>) -> (n: usize)
    ensures
        n == archive_entries(*archive).len(),
{
    archive.len()
}

/// `ZipArchive::by_index`, with what the entry's `name`, `enclosed_name`,
/// `size` and `comment` return and with its content read to the end; a
/// content that cannot be read gives `data: None`. It fails where `by_index`
/// fails. What comes back depends on the archive and the index alone, and
/// reading an entry leaves what the archive holds as it was.
///
/// Nothing is claimed of the enclosed name: `enclosed_name` takes the path
/// apart by the rules of the platform that the library is built for, and
/// what is unpacked is checked again in `extract`.
#[verifier::external_body]
fn read_entry(archive: &mut ZipArchive<Cursor<Vec<u8>>>, index: usize) -> (r: Result<
    ArchiveEntry,
    ZipError,
>)
    ensures
        archive_entries(*final(archive)) == archive_entries(*old(archive)),
        index < archive_entries(*old(archive)).len() ==> match r {
            Ok(entry) => archive_entries(*old(archive))[index as int] == Some(entry@),
            Err(_) => archive_entries(*old(archive))[index as int] is None,
        },
{
    let mut file = archive.by_index(index)?;
    let mut content = Vec::new();
    let data = file.read_to_end(&mut content).ok().map(|_| content);
    Ok(
        ArchiveEntry {
            name: file.name().to_string(),
            enclosed_name: file.enclosed_name().map(|path| path.to_string_lossy().into_owned()),
            size: file.size(),
            comment: file.comment().to_string(),
            data,
        },
    )
}

/// Reads every entry of the archive that `bytes` encode. An entry that
/// cannot be read is `None`.
pub fn read_entries(bytes: Vec<u8>) -> (r: Result<Vec<Option<ArchiveEntry>>, ExtractionError>)
    ensures
        match r {
            Ok(entries) => parsed_archive(bytes@) == Some(entries.deep_view()),
            Err(e) => e == ExtractionError::UnreadableArchive && parsed_archive(bytes@) is None,
        },
{
    let ghost encoded = bytes@;
    let mut archive = match open_archive(bytes) {
        Ok(archive) => archive,
        Err(_) => {
            return Err(ExtractionError::UnreadableArchive);
        },
    };
    let ghost held = archive_entries(archive);
    let n = archive_len(&archive);
    let mut entries: Vec<Option<ArchiveEntry>> = Vec::new();
    let mut i: usize = 0;
    while i < n
        invariant
            i <= n == held.len(),
            archive_entries(archive) == held,
            entries.deep_view() == held.take(i as int),
        decreases n - i,
    {
        let ghost before = entries.deep_view();
        let entry = match read_entry(&mut archive, i) {
            Ok(entry) => Some(entry),
            Err(_) => None,
        };
        entries.push(entry);
        assert(entries.deep_view() =~= before.push(held[i as int]));
        assert(held.take(i + 1) =~= held.take(i as int).push(held[i as int]));
        i += 1;
    }
    assert(held.take(n as int) =~= held);
    Ok(entries)
}

} // verus!
