//! The backup cycle's computable part: naming the archive after the
//! export's start time and bundling the two rendered ledger dumps into an
//! in-memory archive. Writing files, uploading to object storage and
//! cleaning up are the caller's I/O and stay outside the library.

use vstd::prelude::*;
use crate::digits::{push_decimal, spec_dec_chars};

verus! {

/// The archive object's name for an export started at `ts` seconds of the
/// Unix epoch.
pub open spec fn spec_archive_name(ts: nat) -> Seq<char> {
    spec_dec_chars(ts) + "_backup.zip"@
}

pub fn archive_name(ts: u64) -> (r: String)
    ensures
        r@ == spec_archive_name(ts as nat),
{
    let mut s = String::new();
    push_decimal(&mut s, ts);
    s.append("_backup.zip");
    proof {
        assert(s@ =~= spec_archive_name(ts as nat));
    }
    s
}

/// Relies on zip::ZipWriter over an in-memory cursor (`add_directory`,
/// `start_file`, `Write::write_all`, `finish`): bundles the two flat dump
/// files under a `db/` directory entry into one deflate-compressed
/// archive; a writer error yields `None`. The writer's first act on the
/// empty cursor is to emit the local-file-header signature (`PK\x03\x04`,
/// the constant 0x04034b50 little-endian), so any bytes it returns begin
/// with it. The archive's full bytes are not a function of the dumps
/// alone (each entry header carries the wall-clock time), so no more is
/// stated of them.
#[verifier::external_body]
fn zip_bundle(tickets_dump: &Vec<u8>, account_dump: &Vec<u8>) -> (r: Option<Vec<u8>>)
    ensures
        r matches Some(b) ==> b@.len() >= 4 && b@[0] == 0x50 && b@[1] == 0x4b && b@[2] == 3
            && b@[3] == 4,
{
    let mut zw = zip::ZipWriter::new(std::io::Cursor::new(Vec::new()));
    let opts = zip::write::FileOptions::default().compression_method(
        zip::CompressionMethod::Deflated,
    ).unix_permissions(0o755);
    zw.add_directory("db/", Default::default()).ok()?;
    zw.start_file("db/tickets.txt", opts).ok()?;
    std::io::Write::write_all(&mut zw, tickets_dump).ok()?;
    zw.start_file("db/account.txt", opts).ok()?;
    std::io::Write::write_all(&mut zw, account_dump).ok()?;
    let cur = zw.finish().ok()?;
    Some(cur.into_inner())
}

/// One backup cycle's bundle step: the archive's name, from the export's
/// start time, and the archive bytes holding the two dumps (or `None` on
/// a writer error, which aborts the cycle). Whatever the writer returned,
/// the bytes are a zip archive's: nonempty, opening with the
/// local-file-header signature.
pub fn build_archive(ts: u64, tickets_dump: &Vec<u8>, account_dump: &Vec<u8>) -> (r: (
    String,
    Option<Vec<u8>>,
))
    ensures
        r.0@ == spec_archive_name(ts as nat),
        r.1 matches Some(b) ==> b@.len() >= 4 && b@[0] == 0x50 && b@[1] == 0x4b && b@[2] == 3
            && b@[3] == 4,
{
    let name = archive_name(ts);
    let bytes = zip_bundle(tickets_dump, account_dump);
    (name, bytes)
}

} // verus!
