//! Datapacks packed as zip archives: the archive's bytes are unpacked with
//! the `zip` crate, entry by entry, and each entry that a pack may hold is
//! read by the reader of its kind and filed into the reload's candidate.
use vstd::prelude::*;

use crate::datapack::candidate::{PackCandidate, recipe_filing, resource_filing, tag_merging};
use crate::datapack::files::{ArchiveJson, archive_entry, archive_json_outcome, metadata_from_text, metadata_text_outcome};
use crate::datapack::resources::{
    ArchiveEntry, MAX_STRUCTURE_BYTES, archive_entry_kind, classify_archive_entry, function_commands,
    function_error, function_id_from_resource_path, function_id_of, function_lines, normalize_entry_name,
    parse_function_text, raw_resource_of, resource_id_from_resource_path, structure_size_problem, with_slashes,
};
use crate::datapack::tags::VanillaElements;
use crate::datapack::{DataPackError, LoadedDataPack};
use crate::sorted::sview;
use crate::text::{concat_chars, str_chars, string_from_chars, string_from_str};

verus! {

/// How many entries the archive with these bytes holds, or `None` where the
/// `zip` crate cannot open it; a function of the bytes alone.
pub uninterp spec fn zip_entry_count(archive: Seq<u8>) -> Option<nat>;

/// The name of the entry at `index`, or `None` where the entry or its name
/// cannot be read; a function of the bytes and the index alone.
pub uninterp spec fn zip_entry_name(archive: Seq<u8>, index: int) -> Option<Seq<char>>;

/// The unpacked bytes of the entry at `index`, or `None` where they cannot
/// be read; a function of the bytes and the index alone.
pub uninterp spec fn zip_entry_bytes(archive: Seq<u8>, index: int) -> Option<Seq<u8>>;

/// The unpacked bytes of the entry named `name`, or `None` where there is
/// no such entry or it cannot be read; a function of its arguments alone.
pub uninterp spec fn zip_named_bytes(archive: Seq<u8>, name: Seq<char>) -> Option<Seq<u8>>;

/// The text that bytes hold as UTF-8, or `None` where they are not UTF-8.
pub uninterp spec fn utf8_text(bytes: Seq<u8>) -> Option<Seq<char>>;

/// Where reading an entry failed: opening the archive, finding the entry,
/// or unpacking its bytes; each with the `zip` crate's message.
pub enum ZipReadError {
    Open(String),
    Lookup(String),
    Read(String),
}

/// The number of entries, from `zip::ZipArchive::new` over the bytes and
/// `len`.  The contract claims that the outcome depends on the bytes alone;
/// nothing is claimed of the error text.
#[verifier::external_body]
pub(crate) fn zip_entry_total(archive: &[u8]) -> (r: Result<usize, String>)
    ensures
        r is Ok <==> zip_entry_count(archive@) is Some,
        r matches Ok(n) ==> zip_entry_count(archive@) == Some(n as nat),
{
    match zip::ZipArchive::new(std::io::Cursor::new(archive)) {
        Ok(zip) => Ok(zip.len()),
        Err(error) => Err(error.to_string()),
    }
}

/// The name of the entry at `index`, from `ZipArchive::new`, `by_index` and
/// `ZipFile::name`.  The contract claims that the outcome depends on the
/// bytes and the index alone; nothing is claimed of the error text.
#[verifier::external_body]
pub(crate) fn zip_name_at(archive: &[u8], index: usize) -> (r: Result<String, String>)
    ensures
        r is Ok <==> zip_entry_name(archive@, index as int) is Some,
        r matches Ok(n) ==> zip_entry_name(archive@, index as int) == Some(n@),
{
    let mut zip = zip::ZipArchive::new(std::io::Cursor::new(archive)).map_err(|error| error.to_string())?;
    let entry = zip.by_index(index).map_err(|error| error.to_string())?;
    entry.name().map(|name| name.into_owned()).map_err(|error| error.to_string())
}

/// The unpacked bytes of the entry at `index`, from `ZipArchive::new`,
/// `by_index` and `read_to_end`.  The contract claims that the outcome
/// depends on the bytes and the index alone; which step failed is handed
/// back, and nothing is claimed of the error text.
#[verifier::external_body]
pub(crate) fn zip_bytes_at(archive: &[u8], index: usize) -> (r: Result<Vec<u8>, ZipReadError>)
    ensures
        r is Ok <==> zip_entry_bytes(archive@, index as int) is Some,
        r matches Ok(b) ==> zip_entry_bytes(archive@, index as int) == Some(b@),
{
    let mut zip = zip::ZipArchive::new(std::io::Cursor::new(archive)).map_err(|error| ZipReadError::Open(error.to_string()))?;
    let mut entry = zip.by_index(index).map_err(|error| ZipReadError::Lookup(error.to_string()))?;
    let mut bytes = Vec::new();
    std::io::Read::read_to_end(&mut entry, &mut bytes).map_err(|error| ZipReadError::Read(error.to_string()))?;
    Ok(bytes)
}

/// The unpacked bytes of the entry named `name`, from `ZipArchive::new`,
/// `by_name` and `read_to_end`.  The contract claims that the outcome
/// depends on its arguments alone; which step failed is handed back, and
/// nothing is claimed of the error text.
#[verifier::external_body]
pub(crate) fn zip_bytes_named(archive: &[u8], name: &str) -> (r: Result<Vec<u8>, ZipReadError>)
    ensures
        r is Ok <==> zip_named_bytes(archive@, name@) is Some,
        r matches Ok(b) ==> zip_named_bytes(archive@, name@) == Some(b@),
{
    let mut zip = zip::ZipArchive::new(std::io::Cursor::new(archive)).map_err(|error| ZipReadError::Open(error.to_string()))?;
    let mut entry = zip.by_name(name).map_err(|error| ZipReadError::Lookup(error.to_string()))?;
    let mut bytes = Vec::new();
    std::io::Read::read_to_end(&mut entry, &mut bytes).map_err(|error| ZipReadError::Read(error.to_string()))?;
    Ok(bytes)
}

/// The text of UTF-8 bytes, from `std::str::from_utf8`.  The contract
/// claims that the outcome depends on the bytes alone; nothing is claimed
/// of the error text.
#[verifier::external_body]
pub(crate) fn decode_utf8(bytes: &[u8]) -> (r: Result<String, String>)
    ensures
        r is Ok <==> utf8_text(bytes@) is Some,
        r matches Ok(t) ==> utf8_text(bytes@) == Some(t@),
{
    match std::str::from_utf8(bytes) {
        Ok(text) => Ok(text.to_owned()),
        Err(error) => Err(error.to_string()),
    }
}

/// The path of an archive entry as users see it: the entry's relative name
/// joined to the archive's path with one slash.
pub open spec fn joined(path: Seq<char>, entry: Seq<char>) -> Seq<char> {
    if path.len() == 0 {
        entry
    } else if path.last() == '/' {
        path + entry
    } else {
        path + seq!['/'] + entry
    }
}

fn join_path(path: &str, entry: &str) -> (r: String)
    ensures
        r@ == joined(path@, entry@),
{
    let p = str_chars(path);
    let e = str_chars(entry);
    if p.len() == 0 {
        string_from_chars(&e)
    } else if p[p.len() - 1] == '/' {
        string_from_chars(&concat_chars(&p, &e))
    } else {
        let mut slash: Vec<char> = Vec::new();
        slash.push('/');
        string_from_chars(&concat_chars(&concat_chars(&p, &slash), &e))
    }
}

fn join_text(a: &str, b: &str) -> (r: String)
    ensures
        r@ == a@ + b@,
{
    string_from_chars(&concat_chars(&str_chars(a), &str_chars(b)))
}

/// Filing a function entry: its bytes must be UTF-8, its id is taken from
/// its name, and its commands are read from its text.
pub open spec fn function_entry_step(
    a: PackCandidate,
    b: PackCandidate,
    shown: Seq<char>,
    entry: Seq<char>,
    bytes: Seq<u8>,
    r: Result<(), DataPackError>,
) -> bool {
    match utf8_text(bytes) {
        None => b == a && (r matches Err(DataPackError::InvalidFunction { path: p, message: m }) && p@ == shown
            && crate::text::starts_with(m@, "function is not valid UTF-8: "@)),
        Some(text) => match function_id_of(entry) {
            Err(m) => b == a && (r matches Err(e) && function_error(e, shown, m)),
            Ok(id) => match function_commands(function_lines(text), Seq::empty()) {
                Err(m) => b == a && (r matches Err(e) && function_error(e, shown, m)),
                Ok(commands) => {
                    &&& r is Ok
                    &&& b == (PackCandidate { functions: b.functions, ..a })
                    &&& b.functions.get(id) matches Some(v) && sview(v@) == commands
                    &&& forall|k: Seq<char>| k != id ==> #[trigger] b.functions.get(k) == a.functions.get(k)
                },
            },
        },
    }
}

/// Filing a structure entry: its id is taken from its name and it must hold
/// between 1 and 16 MiB.
pub open spec fn structure_entry_step(
    a: PackCandidate,
    b: PackCandidate,
    shown: Seq<char>,
    entry: Seq<char>,
    bytes: Seq<u8>,
    r: Result<(), DataPackError>,
) -> bool {
    match raw_resource_of(entry) {
        Err((k, m)) => b == a && (r matches Err(e) && e matches DataPackError::InvalidResource {
            kind: ek,
            path: ep,
            message: em,
        } && ek@ == k && ep@ == shown && em@ == m),
        Ok((_, id)) => if 1 <= bytes.len() <= MAX_STRUCTURE_BYTES {
            &&& r is Ok
            &&& b == (PackCandidate { structures: b.structures, ..a })
            &&& b.structures.get(id) matches Some(v) && v@ == bytes
            &&& forall|k: Seq<char>| k != id ==> #[trigger] b.structures.get(k) == a.structures.get(k)
        } else {
            b == a && (r matches Err(DataPackError::InvalidResource { kind: k, path: p, message: _ }) && k@
                == "structures"@ && p@ == shown)
        },
    }
}

/// Filing a JSON entry: what reading it gives is merged as a tag, filed as
/// a recipe or filed as a raw resource.
pub open spec fn json_entry_step(
    a: PackCandidate,
    b: PackCandidate,
    pack_path: Seq<char>,
    entry: Seq<char>,
    shown: Seq<char>,
    kind: ArchiveEntry,
    bytes: Seq<u8>,
    vanilla: VanillaElements,
    r: Result<(), DataPackError>,
) -> bool {
    exists|read: Result<ArchiveJson, DataPackError>|
        #[trigger] archive_json_outcome(pack_path, entry, shown, kind, bytes, vanilla, read) && match read {
            Err(e) => b == a && r == Err::<(), DataPackError>(e),
            Ok(ArchiveJson::Tag { id, definition }) => r is Ok && tag_merging(a, b, id@, definition),
            Ok(ArchiveJson::Recipe { id, outcome }) => recipe_filing(a, b, id@, outcome, r),
            Ok(ArchiveJson::Resource { kind: k, id, value }) => r is Ok && resource_filing(a, b, k@, id@, value),
        }
}

/// What the entry at `index` of the archive at `pack_path` does to the
/// candidate `a`, giving `b`: an entry whose name cannot be read refuses
/// the archive; an entry of no kind a pack may hold is skipped without
/// being read; any other is unpacked (or refuses the archive) and filed by
/// its kind, under its name with backslashes read as slashes.
pub open spec fn zip_entry_step(
    archive: Seq<u8>,
    pack_path: Seq<char>,
    index: int,
    vanilla: VanillaElements,
    a: PackCandidate,
    b: PackCandidate,
    r: Result<(), DataPackError>,
) -> bool {
    match zip_entry_name(archive, index) {
        None => b == a && (r matches Err(DataPackError::InvalidArchive { path: p, message: _ }) && p@ == pack_path),
        Some(raw) => if archive_entry_kind(raw) == ArchiveEntry::Skip {
            b == a && r is Ok
        } else {
            let entry = with_slashes(raw);
            let shown = joined(pack_path, entry);
            match zip_entry_bytes(archive, index) {
                None => b == a && (r matches Err(DataPackError::InvalidArchive { path: p, message: _ }) && p@
                    == pack_path),
                Some(bytes) => match archive_entry_kind(raw) {
                    ArchiveEntry::Function => function_entry_step(a, b, shown, entry, bytes, r),
                    ArchiveEntry::Structure => structure_entry_step(a, b, shown, entry, bytes, r),
                    kind => json_entry_step(a, b, pack_path, entry, shown, kind, bytes, vanilla, r),
                },
            }
        },
    }
}

/// `states` are the candidates before and after each of the first
/// `states.len() - 1` entries, each filed from the one before.
pub open spec fn zip_entries_filed(
    archive: Seq<u8>,
    pack_path: Seq<char>,
    vanilla: VanillaElements,
    states: Seq<PackCandidate>,
) -> bool
    decreases states.len(),
{
    if states.len() <= 1 {
        true
    } else {
        &&& zip_entries_filed(archive, pack_path, vanilla, states.drop_last())
        &&& zip_entry_step(
            archive,
            pack_path,
            states.len() - 2,
            vanilla,
            states[states.len() - 2],
            states.last(),
            Ok(()),
        )
    }
}

/// Files the entry at `index` of the archive at `pack_path`.
pub fn file_zip_entry(
    pack_path: &str,
    archive: &[u8],
    index: usize,
    vanilla: &VanillaElements,
    candidate: &mut PackCandidate,
) -> (r: Result<(), DataPackError>)
    ensures
        zip_entry_step(archive@, pack_path@, index as int, *vanilla, *old(candidate), *final(candidate), r),
        r is Err ==> *final(candidate) == *old(candidate),
{
    let raw = match zip_name_at(archive, index) {
        Err(message) => {
            return Err(DataPackError::InvalidArchive { path: string_from_str(pack_path), message });
        },
        Ok(raw) => raw,
    };
    let kind = classify_archive_entry(raw.as_str());
    if matches!(kind, ArchiveEntry::Skip) {
        return Ok(());
    }
    let entry = normalize_entry_name(raw.as_str());
    let shown = join_path(pack_path, entry.as_str());
    let bytes = match zip_bytes_at(archive, index) {
        Err(ZipReadError::Read(message)) => {
            let head = join_text("cannot read ", entry.as_str());
            let head = join_text(head.as_str(), ": ");
            return Err(
                DataPackError::InvalidArchive { path: string_from_str(pack_path), message: join_text(head.as_str(), message.as_str()) },
            );
        },
        Err(ZipReadError::Open(message)) => {
            return Err(DataPackError::InvalidArchive { path: string_from_str(pack_path), message });
        },
        Err(ZipReadError::Lookup(message)) => {
            return Err(DataPackError::InvalidArchive { path: string_from_str(pack_path), message });
        },
        Ok(bytes) => bytes,
    };
    match kind {
        ArchiveEntry::Function => {
            let text = match decode_utf8(bytes.as_slice()) {
                Err(message) => {
                    let m = join_text("function is not valid UTF-8: ", message.as_str());
                    proof {
                        assert(m@.take("function is not valid UTF-8: "@.len() as int) =~= "function is not valid UTF-8: "@);
                    }
                    return Err(DataPackError::InvalidFunction { path: shown, message: m });
                },
                Ok(text) => text,
            };
            let id = match function_id_from_resource_path(entry.as_str(), shown.as_str()) {
                Err(e) => {
                    return Err(e);
                },
                Ok(id) => id,
            };
            let commands = match parse_function_text(shown.as_str(), text.as_str()) {
                Err(e) => {
                    return Err(e);
                },
                Ok(commands) => commands,
            };
            candidate.functions.file(id, commands);
            Ok(())
        },
        ArchiveEntry::Structure => {
            let id = match resource_id_from_resource_path(entry.as_str(), shown.as_str()) {
                Err(e) => {
                    return Err(e);
                },
                Ok((_, id)) => id,
            };
            match structure_size_problem(shown.as_str(), bytes.len()) {
                Err(e) => {
                    return Err(e);
                },
                Ok(()) => {},
            }
            candidate.structures.file(id, bytes);
            Ok(())
        },
        _ => {
            let read = archive_entry(pack_path, entry.as_str(), shown.as_str(), kind, bytes.as_slice(), vanilla);
            let ghost seen = read;
            let r = match read {
                Err(e) => Err(e),
                Ok(ArchiveJson::Tag { id, definition }) => {
                    candidate.merge_tag(id, definition);
                    Ok(())
                },
                Ok(ArchiveJson::Recipe { id, outcome }) => candidate.file_recipe(id, outcome),
                Ok(ArchiveJson::Resource { kind, id, value }) => {
                    candidate.insert_resource(kind.as_str(), id, value);
                    Ok(())
                },
            };
            proof {
                assert(archive_json_outcome(pack_path@, entry@, shown@, kind, bytes@, *vanilla, seen));
            }
            r
        },
    }
}

/// What reading a pack archive of `n` entries does once its metadata `meta`
/// is read: a refused metadata refuses the archive and files nothing; else
/// the entries are filed from `a`, giving `b`, as `zip_pack_entries` says.
pub open spec fn zip_pack_after_metadata(
    archive: Seq<u8>,
    path: Seq<char>,
    vanilla: VanillaElements,
    n: nat,
    a: PackCandidate,
    b: PackCandidate,
    r: Result<LoadedDataPack, DataPackError>,
    meta: Result<LoadedDataPack, DataPackError>,
) -> bool {
    match meta {
        Err(e) => b == a && r == Err::<LoadedDataPack, DataPackError>(e),
        Ok(pack) => exists|states: Seq<PackCandidate>|
            #[trigger] zip_entries_filed(archive, path, vanilla, states) && zip_pack_entries(
                archive,
                path,
                vanilla,
                n,
                a,
                b,
                r,
                pack,
                states,
            ),
    }
}

/// The entries of a pack archive filed from `a` to `b` through `states`:
/// all `n` of them, giving the pack, or those before the first refusal,
/// which the archive's reading ends with.
pub open spec fn zip_pack_entries(
    archive: Seq<u8>,
    path: Seq<char>,
    vanilla: VanillaElements,
    n: nat,
    a: PackCandidate,
    b: PackCandidate,
    r: Result<LoadedDataPack, DataPackError>,
    pack: LoadedDataPack,
    states: Seq<PackCandidate>,
) -> bool {
    &&& 1 <= states.len() <= n + 1
    &&& states[0] == a
    &&& states.last() == b
    &&& (r is Ok <==> states.len() == n + 1)
    &&& r is Ok ==> r == Ok::<LoadedDataPack, DataPackError>(pack)
    &&& r matches Err(e) ==> zip_entry_step(
        archive,
        path,
        states.len() - 1,
        vanilla,
        states.last(),
        states.last(),
        Err(e),
    )
}

/// What reading the pack archive `name` at `path`, whose bytes are
/// `archive`, gives and does to the candidate `a`, leaving `b`: the archive
/// must open, hold a `pack.mcmeta` of UTF-8 text and valid metadata, and
/// then its entries are filed in index order until the first refusal.
pub open spec fn zip_pack_outcome(
    archive: Seq<u8>,
    name: Seq<char>,
    path: Seq<char>,
    vanilla: VanillaElements,
    a: PackCandidate,
    b: PackCandidate,
    r: Result<LoadedDataPack, DataPackError>,
) -> bool {
    match zip_entry_count(archive) {
        None => b == a && (r matches Err(
            DataPackError::InvalidArchive { path: p, message: _ },
        ) && p@ == path),
        Some(n) => match zip_named_bytes(archive, "pack.mcmeta"@) {
            None => b == a && (r matches Err(
                DataPackError::InvalidArchive { path: p, message: _ },
            ) && p@ == path),
            Some(meta_bytes) => match utf8_text(meta_bytes) {
                None => b == a && (r matches Err(
                    DataPackError::InvalidArchive { path: p, message: m },
                ) && p@ == path && crate::text::starts_with(m@, "cannot read pack.mcmeta: "@)),
                Some(text) => exists|meta: Result<LoadedDataPack, DataPackError>|
                    #[trigger] metadata_text_outcome(name, path, text, meta) && zip_pack_after_metadata(
                        archive,
                        path,
                        vanilla,
                        n,
                        a,
                        b,
                        r,
                        meta,
                    ),
            },
        },
    }
}

/// Reads the pack archive at `path`, whose bytes are `archive`, into the
/// candidate: the archive is opened, its `pack.mcmeta` read as UTF-8 text
/// and as metadata, and then every entry is filed in index order.  The
/// first refusal stops the reading; the entries before it stay filed.
pub fn load_zip_pack(
    name: &str,
    path: &str,
    archive: &[u8],
    vanilla: &VanillaElements,
    candidate: &mut PackCandidate,
) -> (r: Result<LoadedDataPack, DataPackError>)
    ensures
        zip_pack_outcome(archive@, name@, path@, *vanilla, *old(candidate), *final(candidate), r),
{
    let n = match zip_entry_total(archive) {
        Err(message) => {
            return Err(DataPackError::InvalidArchive { path: string_from_str(path), message });
        },
        Ok(n) => n,
    };
    let meta_bytes = match zip_bytes_named(archive, "pack.mcmeta") {
        Err(ZipReadError::Open(message)) => {
            return Err(DataPackError::InvalidArchive { path: string_from_str(path), message });
        },
        Err(ZipReadError::Lookup(message)) => {
            return Err(
                DataPackError::InvalidArchive { path: string_from_str(path), message: join_text("missing pack.mcmeta: ", message.as_str()) },
            );
        },
        Err(ZipReadError::Read(message)) => {
            return Err(
                DataPackError::InvalidArchive { path: string_from_str(path), message: join_text("cannot read pack.mcmeta: ", message.as_str()) },
            );
        },
        Ok(bytes) => bytes,
    };
    let text = match decode_utf8(meta_bytes.as_slice()) {
        Err(message) => {
            let m = join_text("cannot read pack.mcmeta: ", message.as_str());
            proof {
                assert(m@.take("cannot read pack.mcmeta: "@.len() as int) =~= "cannot read pack.mcmeta: "@);
            }
            return Err(DataPackError::InvalidArchive { path: string_from_str(path), message: m });
        },
        Ok(text) => text,
    };
    let meta = metadata_from_text(name, path, text.as_str());
    let ghost seen = meta;
    let pack = match meta {
        Err(e) => {
            proof {
                assert(metadata_text_outcome(name@, path@, text@, seen));
                assert(zip_pack_after_metadata(archive@, path@, *vanilla, n as nat, *candidate, *candidate, Err(e), seen));
                assert(zip_pack_outcome(archive@, name@, path@, *vanilla, *old(candidate), *candidate, Err(e))) by {
                    let t = utf8_text(meta_bytes@).unwrap();
                    let c = zip_entry_count(archive@).unwrap();
                    assert(t == text@);
                    assert(c == n as nat);
                    assert(zip_pack_after_metadata(archive@, path@, *vanilla, c, *old(candidate), *candidate, Err(e), seen));
                    assert(metadata_text_outcome(name@, path@, t, seen));
                }
            }
            return Err(e);
        },
        Ok(pack) => pack,
    };
    let ghost start = *candidate;
    let ghost mut states: Seq<PackCandidate> = seq![start];
    let mut i: usize = 0;
    while i < n
        invariant
            i <= n,
            zip_entry_count(archive@) == Some(n as nat),
            states.len() == i + 1,
            states[0] == start,
            states.last() == *candidate,
            zip_entries_filed(archive@, path@, *vanilla, states),
            start == *old(candidate),
            zip_named_bytes(archive@, "pack.mcmeta"@) == Some(meta_bytes@),
            utf8_text(meta_bytes@) == Some(text@),
            metadata_text_outcome(name@, path@, text@, seen),
            seen == Ok::<LoadedDataPack, DataPackError>(pack),
        decreases n - i,
    {
        let ghost before = *candidate;
        match file_zip_entry(path, archive, i, vanilla, candidate) {
            Err(e) => {
                proof {
                    assert(zip_entry_step(archive@, path@, states.len() - 1, *vanilla, states.last(), states.last(), Err(e)));
                    assert(zip_pack_entries(archive@, path@, *vanilla, n as nat, start, *candidate, Err(e), pack, states));
                    assert(zip_entries_filed(archive@, path@, *vanilla, states));
                    assert(zip_pack_after_metadata(archive@, path@, *vanilla, n as nat, start, *candidate, Err(e), seen));
                    assert(zip_pack_outcome(archive@, name@, path@, *vanilla, *old(candidate), *candidate, Err(e))) by {
                    let t = utf8_text(meta_bytes@).unwrap();
                    let c = zip_entry_count(archive@).unwrap();
                    assert(t == text@);
                    assert(c == n as nat);
                    assert(zip_pack_after_metadata(archive@, path@, *vanilla, c, *old(candidate), *candidate, Err(e), seen));
                    assert(metadata_text_outcome(name@, path@, t, seen));
                }
                }
                return Err(e);
            },
            Ok(()) => {},
        }
        proof {
            let next = states.push(*candidate);
            assert(next.drop_last() =~= states);
            assert(next[next.len() - 2] == before);
            states = next;
        }
        i = i + 1;
    }
    proof {
        assert(zip_pack_entries(archive@, path@, *vanilla, n as nat, start, *candidate, Ok(pack), pack, states));
        assert(zip_entries_filed(archive@, path@, *vanilla, states));
        assert(zip_pack_after_metadata(archive@, path@, *vanilla, n as nat, start, *candidate, Ok(pack), seen));
        assert(zip_entry_count(archive@) == Some(n as nat));
        assert(zip_named_bytes(archive@, "pack.mcmeta"@) == Some(meta_bytes@));
        assert(utf8_text(meta_bytes@) == Some(text@));
        assert(zip_pack_outcome(archive@, name@, path@, *vanilla, *old(candidate), *candidate, Ok(pack))) by {
                    let t = utf8_text(meta_bytes@).unwrap();
                    let c = zip_entry_count(archive@).unwrap();
                    assert(t == text@);
                    assert(c == n as nat);
                    assert(zip_pack_after_metadata(archive@, path@, *vanilla, c, *old(candidate), *candidate, Ok(pack), seen));
                    assert(metadata_text_outcome(name@, path@, t, seen));
                }
    }
    Ok(pack)
}

} // verus!
