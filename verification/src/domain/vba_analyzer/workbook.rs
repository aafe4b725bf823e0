//! Reading a macro workbook from its bytes: the VBA project entry of the zip archive, and
//! the streams of the compound file inside it.
use crate::domain::vba_analyzer::xlsm::{extraction, lossy_utf8, utf8_lossy, XlsmAnalyzer, VBA_PROJECT_ENTRY};
use crate::models::analysis::VbaComponent;
use crate::models::error::{AppError, AppResult};
use crate::paths::{components, components_exec};
use crate::text::{chars_of, push_str, string_of};
use vstd::prelude::*;
use vstd::string::StringExecFns;

verus! {

/// The data of the named entry of a zip archive; none when the archive, the entry or its
/// data cannot be read.
pub uninterp spec fn zip_entry_bytes(archive: Seq<u8>, name: Seq<char>) -> Option<Seq<u8>>;

/// The entry names of a zip archive in its central directory order (names that cannot be
/// read left out); empty when the bytes are not a zip archive.
pub uninterp spec fn zip_names(archive: Seq<u8>) -> Seq<Seq<char>>;

/// The entries of a compound file in the order of its storage-tree walk: each path and,
/// for a stream that can be read, its bytes; none when the bytes are not a compound file.
pub uninterp spec fn cfb_entries(file: Seq<u8>) -> Option<Seq<(Seq<char>, Option<Seq<u8>>)>>;

pub open spec fn opt_bytes(o: Option<Vec<u8>>) -> Option<Seq<u8>> {
    match o {
        Some(b) => Some(b@),
        None => None,
    }
}

/// `zip::ZipArchive::new`, `ZipArchive::by_name` and `read_to_end`: the data of the named
/// entry. The text of the error, when there is one, is the zip error's and is not
/// described.
#[verifier::external_body]
fn zip_entry(archive: &[u8], name: &str) -> (res: Result<Vec<u8>, String>)
    ensures
        match res {
            Ok(b) => zip_entry_bytes(archive@, name@) == Some(b@),
            Err(_) => zip_entry_bytes(archive@, name@) is None,
        },
{
    let mut zip = zip::ZipArchive::new(std::io::Cursor::new(archive)).map_err(|e| e.to_string())?;
    let mut entry = zip.by_name(name).map_err(|e| e.to_string())?;
    let mut buf = Vec::new();
    std::io::Read::read_to_end(&mut entry, &mut buf).map_err(|e| e.to_string())?;
    Ok(buf)
}

/// `zip::ZipArchive::new` and `ZipArchive::file_names`.
#[verifier::external_body]
pub(crate) fn zip_entry_names(archive: &[u8]) -> (res: Vec<String>)
    ensures
        res@.map_values(|s: String| s@) == zip_names(archive@),
{
    match zip::ZipArchive::new(std::io::Cursor::new(archive)) {
        Ok(zip) => zip.file_names().filter_map(|n| n.ok().map(|n| n.into_owned())).collect(),
        Err(_) => Vec::new(),
    }
}

/// `cfb::CompoundFile::open`, `CompoundFile::walk`, and `open_stream` with `read_to_end`
/// for each entry walked.
#[verifier::external_body]
fn cfb_entry_list(file: &[u8]) -> (res: Option<Vec<(String, Option<Vec<u8>>)>>)
    ensures
        match res {
            Some(es) => cfb_entries(file@) == Some(es@.map_values(|e: (String, Option<Vec<u8>>)| (e.0@, opt_bytes(e.1)))),
            None => cfb_entries(file@) is None,
        },
{
    let mut cfb = cfb::CompoundFile::open(std::io::Cursor::new(file)).ok()?;
    let paths: Vec<std::path::PathBuf> = cfb.walk().map(|e| e.path().to_path_buf()).collect();
    let mut out = Vec::new();
    for p in paths {
        let mut raw = Vec::new();
        let read = cfb.open_stream(&p).and_then(|mut s| std::io::Read::read_to_end(&mut s, &mut raw));
        out.push((p.to_string_lossy().into_owned(), if read.is_ok() { Some(raw) } else { None }));
    }
    Some(out)
}

/// An entry inside the VBA storage.
pub open spec fn in_vba_storage(path: Seq<char>) -> bool {
    components(path).len() >= 2 && components(path)[0] == "VBA"@
}

/// The readable streams of the VBA storage, by name, in walk order.
pub open spec fn vba_streams(es: Seq<(Seq<char>, Option<Seq<u8>>)>) -> Seq<(Seq<char>, Seq<u8>)>
    decreases es.len(),
{
    if es.len() == 0 {
        Seq::empty()
    } else {
        let prev = vba_streams(es.drop_last());
        let e = es.last();
        if in_vba_storage(e.0) && e.1 is Some {
            prev.push((components(e.0).last(), e.1.unwrap()))
        } else {
            prev
        }
    }
}

/// The bytes of the first readable stream whose path has the components `at`; empty
/// when there is none.
pub open spec fn stream_at(es: Seq<(Seq<char>, Option<Seq<u8>>)>, at: Seq<Seq<char>>) -> Seq<u8>
    decreases es.len(),
{
    if es.len() == 0 {
        Seq::empty()
    } else if components(es[0].0) == at && es[0].1 is Some {
        es[0].1.unwrap()
    } else {
        stream_at(es.drop_first(), at)
    }
}

fn chars_are(c: &[char], w: &str) -> (res: bool)
    ensures
        res == (c@ == w@),
{
    let wc = chars_of(w);
    if wc.len() != c.len() {
        return false;
    }
    let mut k: usize = 0;
    while k < wc.len()
        invariant
            k <= wc.len() == c@.len(),
            wc@ == w@,
            forall|j: int| 0 <= j < k ==> c@[j] == wc@[j],
        decreases wc.len() - k,
    {
        if c[k] != wc[k] {
            return false;
        }
        k = k + 1;
    }
    assert(c@ =~= w@);
    true
}

fn comps_are(comps: &Vec<Vec<char>>, want: &[&str]) -> (res: bool)
    ensures
        res == (comps@.map_values(|c: Vec<char>| c@) == want@.map_values(|w: &str| w@)),
{
    if comps.len() != want.len() {
        assert(comps@.map_values(|c: Vec<char>| c@).len() != want@.map_values(|w: &str| w@).len());
        return false;
    }
    let mut i: usize = 0;
    while i < comps.len()
        invariant
            i <= comps.len() == want.len(),
            forall|j: int| 0 <= j < i ==> comps@[j]@ == want@[j]@,
        decreases comps.len() - i,
    {
        if !chars_are(comps[i].as_slice(), want[i]) {
            assert(comps@.map_values(|c: Vec<char>| c@)[i as int] != want@.map_values(|w: &str| w@)[i as int]);
            return false;
        }
        i = i + 1;
    }
    assert(comps@.map_values(|c: Vec<char>| c@) =~= want@.map_values(|w: &str| w@));
    true
}

fn copy_bytes(b: &Vec<u8>) -> (res: Vec<u8>)
    ensures
        res@ == b@,
{
    let mut out: Vec<u8> = Vec::new();
    let mut i: usize = 0;
    while i < b.len()
        invariant
            i <= b.len(),
            out@ == b@.take(i as int),
        decreases b.len() - i,
    {
        out.push(b[i]);
        assert(b@.take(i + 1) =~= b@.take(i as int).push(b@[i as int]));
        i = i + 1;
    }
    assert(b@.take(b.len() as int) =~= b@);
    out
}

fn module_streams_of(es: &Vec<(String, Option<Vec<u8>>)>) -> (res: Vec<(String, Vec<u8>)>)
    ensures
        res@.map_values(|e: (String, Vec<u8>)| (e.0@, e.1@)) == vba_streams(es@.map_values(|e: (String, Option<Vec<u8>>)| (e.0@, opt_bytes(e.1)))),
{
    let ghost ev = es@.map_values(|e: (String, Option<Vec<u8>>)| (e.0@, opt_bytes(e.1)));
    let mut res: Vec<(String, Vec<u8>)> = Vec::new();
    let mut i: usize = 0;
    while i < es.len()
        invariant
            i <= es.len(),
            ev == es@.map_values(|e: (String, Option<Vec<u8>>)| (e.0@, opt_bytes(e.1))),
            res@.map_values(|e: (String, Vec<u8>)| (e.0@, e.1@)) == vba_streams(ev.take(i as int)),
        decreases es.len() - i,
    {
        assert(ev.take(i + 1).drop_last() =~= ev.take(i as int));
        let ghost prev = res@.map_values(|e: (String, Vec<u8>)| (e.0@, e.1@));
        let comps = components_exec(chars_of(es[i].0.as_str()).as_slice());
        assert(ev[i as int] == (es@[i as int].0@, opt_bytes(es@[i as int].1)));
        match &es[i].1 {
            Some(bytes) => {
                if comps.len() >= 2 && chars_are(comps[0].as_slice(), "VBA") {
                    let name = string_of(comps[comps.len() - 1].as_slice());
                    res.push((name, copy_bytes(bytes)));
                    assert(res@.map_values(|e: (String, Vec<u8>)| (e.0@, e.1@)) =~= prev.push(
                        (components(ev[i as int].0).last(), ev[i as int].1.unwrap())));
                }
            },
            None => {},
        }
        i = i + 1;
    }
    assert(ev.take(es.len() as int) =~= ev);
    res
}

pub open spec fn entries_view(es: Seq<(String, Option<Vec<u8>>)>) -> Seq<(Seq<char>, Option<Seq<u8>>)> {
    es.map_values(|e: (String, Option<Vec<u8>>)| (e.0@, opt_bytes(e.1)))
}

fn stream_at_exec(es: &Vec<(String, Option<Vec<u8>>)>, at: &[&str]) -> (res: Vec<u8>)
    ensures
        res@ == stream_at(entries_view(es@), at@.map_values(|w: &str| w@)),
{
    let ghost ev = entries_view(es@);
    let ghost av = at@.map_values(|w: &str| w@);
    let mut i: usize = 0;
    assert(ev.skip(0) =~= ev);
    while i < es.len()
        invariant
            i <= es.len(),
            ev == entries_view(es@),
            av == at@.map_values(|w: &str| w@),
            stream_at(ev, av) == stream_at(ev.skip(i as int), av),
        decreases es.len() - i,
    {
        assert(ev.skip(i as int).drop_first() =~= ev.skip(i + 1));
        assert(ev.skip(i as int)[0] == (es@[i as int].0@, opt_bytes(es@[i as int].1)));
        let comps = components_exec(chars_of(es[i].0.as_str()).as_slice());
        match &es[i].1 {
            Some(bytes) => {
                if comps_are(&comps, at) {
                    return copy_bytes(bytes);
                }
            },
            None => {},
        }
        i = i + 1;
    }
    Vec::new()
}

fn static_error(prefix: &str, detail: &str) -> (e: AppError)
    ensures
        e is Static,
{
    let mut m = String::from_str(prefix);
    push_str(&mut m, detail);
    AppError::static_analysis(m)
}

impl XlsmAnalyzer {
    /// The VBA component of a workbook from the workbook's bytes: its `xl/vbaProject.bin`
    /// entry read as a compound file, the readable streams of the VBA storage as modules,
    /// the PROJECT stream and the VBA `dir` stream (each empty when missing). A workbook
    /// without a readable VBA project is a static-analysis error.
    pub fn extract_workbook(&self, relative_path: &str, workbook: &[u8]) -> (res: AppResult<(VbaComponent, String)>)
        ensures
            match zip_entry_bytes(workbook@, VBA_PROJECT_ENTRY@) {
                None => res matches Err(e) && e is Static,
                Some(bin) => match cfb_entries(bin) {
                    None => res matches Err(e) && e is Static,
                    Some(es) => res matches Ok(r) && extraction(
                        relative_path@,
                        vba_streams(es),
                        lossy_utf8(stream_at(es, seq!["PROJECT"@])),
                        stream_at(es, seq!["VBA"@, "dir"@]),
                        r,
                    ),
                },
            },
    {
        let bin = match zip_entry(workbook, VBA_PROJECT_ENTRY) {
            Ok(b) => b,
            Err(m) => return Err(static_error("vbaProject.binを読み込めませんでした: ", m.as_str())),
        };
        let entries = match cfb_entry_list(bin.as_slice()) {
            Some(es) => es,
            None => return Err(static_error("vbaProject.binのOLE解析に失敗しました", "")),
        };
        let ghost ev = entries_view(entries@);
        let streams = module_streams_of(&entries);
        let project_at: [&str; 1] = ["PROJECT"];
        let dir_at: [&str; 2] = ["VBA", "dir"];
        proof {
            assert(project_at@.map_values(|w: &str| w@) =~= seq!["PROJECT"@]);
            assert(dir_at@.map_values(|w: &str| w@) =~= seq!["VBA"@, "dir"@]);
        }
        let project = stream_at_exec(&entries, project_at.as_slice());
        let dir = stream_at_exec(&entries, dir_at.as_slice());
        let project_text = utf8_lossy(project.as_slice());
        let r = self.extract(relative_path, streams.as_slice(), project_text.as_str(), dir.as_slice());
        Ok(r)
    }
}

} // verus!
