//! VBA project extraction from xlsm/xlsb workbooks: the workbook's `xl/vbaProject.bin`
//! holds one stream per module, each an MS-OVBA compressed container. Reading the zip
//! archive and the compound file is in `workbook`; what is decided from the entry names
//! and stream contents is here.
use crate::domain::vba_analyzer::msovba::{decompress, spec_decompress};
use crate::domain::vba_analyzer::VbaContainerAnalyzer;
use crate::models::analysis::{VbaComponent, VbaModule};
use crate::models::constants::macro_tools;
use crate::paths::{file_name, file_name_exec};
use crate::text::{
    before_first, chars_of, contains_seq, contains_str, decimal, first_index_of, find_char,
    line_count, line_count_exec, lines, lines_exec, push_str, slice_chars, string_of, trim,
    trim_exec,
};
use vstd::prelude::*;
use vstd::string::StringExecFns;

verus! {

/// The entry of the workbook archive that holds the VBA project.
pub const VBA_PROJECT_ENTRY: &'static str = "xl/vbaProject.bin";

/// Streams of the VBA storage that are not modules.
pub open spec fn is_non_module_stream(name: Seq<char>) -> bool {
    name == "dir"@ || name == "PROJECT"@ || name == "PROJECTwm"@ || name == "_VBA_PROJECT"@
}

/// Marker that a decoded stream is module source.
pub const MODULE_MARKER: &'static str = "Attribute VB_";

/// How far into a module stream the start of the compressed source is searched for.
pub const MODULE_SEARCH_LIMIT: usize = 8192;

/// The result of std `String::from_utf8_lossy` on the given bytes.
pub uninterp spec fn lossy_utf8(bytes: Seq<u8>) -> Seq<char>;

/// std `String::from_utf8_lossy`: decodes UTF-8, putting U+FFFD in place of invalid
/// sequences; a valid input decodes exactly.
#[verifier::external_body]
pub(crate) fn utf8_lossy(bytes: &[u8]) -> (res: String)
    ensures
        res@ == lossy_utf8(bytes@),
        vstd::utf8::valid_utf8(bytes@) ==> res@ == vstd::utf8::decode_utf8(bytes@),
{
    String::from_utf8_lossy(bytes).to_string()
}

/// Module source found at the first candidate offset at or after `offset`: a 0x01 byte
/// from which the stream decompresses to text holding the marker.
pub open spec fn module_source_from(raw: Seq<u8>, offset: int) -> Option<Seq<char>>
    decreases MODULE_SEARCH_LIMIT - offset,
{
    if offset < 0 || offset >= raw.len() || offset >= MODULE_SEARCH_LIMIT {
        None
    } else if raw[offset] == 1 && spec_decompress(raw.skip(offset)) is Some
        && contains_seq(lossy_utf8(spec_decompress(raw.skip(offset))->0), MODULE_MARKER@) {
        Some(lossy_utf8(spec_decompress(raw.skip(offset))->0))
    } else {
        module_source_from(raw, offset + 1)
    }
}

fn skip_bytes(raw: &[u8], from: usize) -> (res: Vec<u8>)
    requires
        from <= raw.len(),
    ensures
        res@ == raw@.skip(from as int),
{
    let mut res: Vec<u8> = Vec::new();
    let mut k: usize = from;
    while k < raw.len()
        invariant
            from <= k <= raw.len(),
            res@ == raw@.subrange(from as int, k as int),
        decreases raw.len() - k,
    {
        res.push(raw[k]);
        assert(raw@.subrange(from as int, k + 1) =~= raw@.subrange(from as int, k as int).push(raw@[k as int]));
        k = k + 1;
    }
    res
}

/// Locates the module source in a module stream. The stream starts with a performance
/// cache of unknown length, so each 0x01 byte in the first 8192 bytes is tried as the
/// start of the compressed source.
pub fn decompress_module_stream(raw: &[u8]) -> (res: Option<String>)
    ensures
        match res {
            Some(s) => module_source_from(raw@, 0) == Some(s@),
            None => module_source_from(raw@, 0) is None,
        },
{
    let search_limit = if raw.len() < MODULE_SEARCH_LIMIT { raw.len() } else { MODULE_SEARCH_LIMIT };
    let mut offset: usize = 0;
    while offset < search_limit
        invariant
            search_limit <= raw.len(),
            search_limit <= MODULE_SEARCH_LIMIT,
            search_limit == raw.len() || search_limit == MODULE_SEARCH_LIMIT,
            module_source_from(raw@, 0) == module_source_from(raw@, offset as int),
        decreases search_limit - offset,
    {
        if raw[offset] == 1 {
            let tail = skip_bytes(raw, offset);
            match decompress(tail.as_slice()) {
                Ok(decompressed) => {
                    let text = utf8_lossy(decompressed.as_slice());
                    let tc = chars_of(text.as_str());
                    if contains_str(tc.as_slice(), MODULE_MARKER) {
                        return Some(text);
                    }
                },
                Err(_) => {},
            }
        }
        offset = offset + 1;
    }
    None
}

/// Module kind for a key of the PROJECT stream.
pub open spec fn project_key_kind(key: Seq<char>) -> Option<Seq<char>> {
    if key == "Module"@ {
        Some("standard"@)
    } else if key == "Class"@ {
        Some("class"@)
    } else if key == "BaseClass"@ {
        Some("form"@)
    } else if key == "Document"@ {
        Some("document"@)
    } else {
        None
    }
}

/// (module name, kind) declared by one line of the PROJECT stream, such as
/// "Module=Module1" or "Document=ThisWorkbook/&H00000000".
pub open spec fn project_line_entry(line: Seq<char>) -> Option<(Seq<char>, Seq<char>)> {
    match first_index_of(line, '=') {
        Some(i) => {
            let key = line.subrange(0, i);
            let value = line.subrange(i + 1, line.len() as int);
            match project_key_kind(key) {
                Some(kind) => {
                    let name = trim(before_first(value, '/'));
                    if name.len() > 0 { Some((name, kind)) } else { None }
                },
                None => None,
            }
        },
        None => None,
    }
}

/// All (name, kind) declarations of the given lines, in order.
pub open spec fn project_entries(ls: Seq<Seq<char>>) -> Seq<(Seq<char>, Seq<char>)>
    decreases ls.len(),
{
    if ls.len() == 0 {
        Seq::empty()
    } else {
        let prev = project_entries(ls.drop_last());
        match project_line_entry(ls.last()) {
            Some(e) => prev.push(e),
            None => prev,
        }
    }
}

/// Module kinds declared in the PROJECT stream text; a later declaration of a name
/// overrides an earlier one (see `kind_of_module`).
pub fn read_project_stream_kinds(text: &str) -> (res: Vec<(String, String)>)
    ensures
        res@.map_values(|e: (String, String)| (e.0@, e.1@)) == project_entries(lines(text@)),
{
    let tc = chars_of(text);
    let ls = lines_exec(tc.as_slice());
    let ghost lv = ls@.map_values(|l: Vec<char>| l@);
    let mut res: Vec<(String, String)> = Vec::new();
    let mut i: usize = 0;
    while i < ls.len()
        invariant
            i <= ls.len(),
            lv == ls@.map_values(|l: Vec<char>| l@),
            res@.map_values(|e: (String, String)| (e.0@, e.1@)) == project_entries(lv.take(i as int)),
        decreases ls.len() - i,
    {
        let ghost prev = res@.map_values(|e: (String, String)| (e.0@, e.1@));
        assert(lv.take(i + 1).drop_last() =~= lv.take(i as int));
        let line = &ls[i];
        assert(lv.take(i + 1).last() == line@);
        match find_char(line.as_slice(), '=') {
            Some(eq) => {
                let key = slice_chars(line.as_slice(), 0, eq);
                let value = slice_chars(line.as_slice(), eq + 1, line.len());
                let kind: Option<&'static str> = if key_is(key.as_slice(), "Module") {
                    Some("standard")
                } else if key_is(key.as_slice(), "Class") {
                    Some("class")
                } else if key_is(key.as_slice(), "BaseClass") {
                    Some("form")
                } else if key_is(key.as_slice(), "Document") {
                    Some("document")
                } else {
                    None
                };
                match kind {
                    Some(k) => {
                        let before = match find_char(value.as_slice(), '/') {
                            Some(j) => slice_chars(value.as_slice(), 0, j),
                            None => slice_chars(value.as_slice(), 0, value.len()),
                        };
                        let name = trim_exec(before.as_slice());
                        assert(key@ == line@.subrange(0, eq as int));
                        assert(before@ == before_first(value@, '/'));
                        assert(project_key_kind(key@) == Some(k@));
                        assert(project_line_entry(line@) == if name@.len() > 0 { Some((name@, k@)) } else { None });
                        if name.len() > 0 {
                            res.push((string_of(name.as_slice()), String::from_str(k)));
                            assert(res@.map_values(|e: (String, String)| (e.0@, e.1@)) =~= prev.push((name@, k@)));
                        }
                    },
                    None => {
                        assert(project_key_kind(key@) is None);
                        assert(project_line_entry(line@) is None);
                    },
                }
            },
            None => {
                assert(project_line_entry(line@) is None);
            },
        }
        i = i + 1;
    }
    assert(lv.take(ls.len() as int) =~= lv);
    res
}

fn key_is(key: &[char], expected: &str) -> (res: bool)
    ensures
        res == (key@ == expected@),
{
    let e = chars_of(expected);
    if key.len() != e.len() {
        return false;
    }
    let mut i: usize = 0;
    while i < key.len()
        invariant
            key.len() == e.len(),
            e@ == expected@,
            i <= key.len(),
            forall|j: int| 0 <= j < i ==> key@[j] == e@[j],
        decreases key.len() - i,
    {
        if key[i] != e[i] {
            return false;
        }
        i = i + 1;
    }
    assert(key@ =~= e@);
    true
}

/// Kind of the named module: the last declaration of that name, or "standard".
pub open spec fn kind_of_module(entries: Seq<(Seq<char>, Seq<char>)>, name: Seq<char>) -> Seq<char>
    decreases entries.len(),
{
    if entries.len() == 0 {
        "standard"@
    } else if entries.last().0 == name {
        entries.last().1
    } else {
        kind_of_module(entries.drop_last(), name)
    }
}

/// Looks up the declared kind of a module.
pub fn module_kind(kinds: &Vec<(String, String)>, name: &str) -> (res: String)
    ensures
        res@ == kind_of_module(kinds@.map_values(|e: (String, String)| (e.0@, e.1@)), name@),
{
    let ghost kv = kinds@.map_values(|e: (String, String)| (e.0@, e.1@));
    let nc = chars_of(name);
    let mut i: usize = kinds.len();
    assert(kv.take(i as int) =~= kv);
    while i > 0
        invariant
            i <= kinds.len(),
            kv == kinds@.map_values(|e: (String, String)| (e.0@, e.1@)),
            nc@ == name@,
            kind_of_module(kv, name@) == kind_of_module(kv.take(i as int), name@),
        decreases i,
    {
        assert(kv.take(i as int).drop_last() =~= kv.take(i - 1));
        let kc = chars_of(kinds[i - 1].0.as_str());
        if key_is(kc.as_slice(), name) {
            return kinds[i - 1].1.clone();
        }
        i = i - 1;
    }
    String::from_str("standard")
}

/// The bytes of a reference name are printable ASCII or spaces.
pub open spec fn is_name_byte(b: u8) -> bool {
    (0x21 <= b && b <= 0x7E) || b == 0x20
}

pub open spec fn le32(d: Seq<u8>, i: int) -> nat {
    (d[i] as nat) + 256 * (d[i + 1] as nat) + 65536 * (d[i + 2] as nat) + 16777216 * (d[i + 3] as nat)
}

/// A REFERENCENAME-like record (id 0x0016, 1..=260 name bytes, all printable) at `i`.
pub open spec fn reference_record_at(d: Seq<u8>, i: int) -> bool {
    &&& 0 <= i
    &&& i + 6 <= d.len()
    &&& (d[i] as nat) + 256 * (d[i + 1] as nat) == 0x0016
    &&& le32(d, i + 2) > 0
    &&& le32(d, i + 2) <= 260
    &&& i + 6 + le32(d, i + 2) <= d.len()
    &&& forall|k: int| i + 6 <= k < i + 6 + le32(d, i + 2) ==> is_name_byte(#[trigger] d[k])
}

/// The record's name as characters.
pub open spec fn reference_name_at(d: Seq<u8>, i: int) -> Seq<char> {
    d.subrange(i + 6, i + 6 + le32(d, i + 2)).map_values(|b: u8| b as char)
}

/// Names of all records starting before position `i` (every byte offset is tried).
pub open spec fn reference_names_upto(d: Seq<u8>, i: int) -> Seq<Seq<char>>
    decreases i,
{
    if i <= 0 {
        Seq::empty()
    } else {
        let prev = reference_names_upto(d, i - 1);
        if reference_record_at(d, i - 1) { prev.push(reference_name_at(d, i - 1)) } else { prev }
    }
}

/// Reference names of the decompressed `dir` stream, or none when it does not decompress.
pub open spec fn spec_reference_names(raw: Seq<u8>) -> Seq<Seq<char>> {
    match spec_decompress(raw) {
        Some(d) => if d.len() >= 6 { reference_names_upto(d, d.len() - 5) } else { Seq::empty() },
        None => Seq::empty(),
    }
}

/// Best-effort extraction of the referenced library names from the `dir` stream: every
/// offset of the decompressed stream is tried as the start of a REFERENCENAME record.
pub fn read_dir_stream_reference_names(raw: &[u8]) -> (res: Vec<String>)
    ensures
        res@.map_values(|s: String| s@) == spec_reference_names(raw@),
{
    let d = match decompress(raw) {
        Ok(d) => d,
        Err(_) => {
            assert(Seq::<String>::empty().map_values(|s: String| s@) =~= Seq::<Seq<char>>::empty());
            return Vec::new();
        },
    };
    assert(spec_decompress(raw@) == Some(d@));
    let mut names: Vec<String> = Vec::new();
    let mut i: usize = 0;
    assert(names@.map_values(|s: String| s@) =~= Seq::<Seq<char>>::empty());
    while d.len() >= 6 && i <= d.len() - 6
        invariant
            names@.map_values(|s: String| s@) == reference_names_upto(d@, i as int),
            d.len() >= 6 ==> i <= d.len() - 5,
            d.len() < 6 ==> i == 0,
        decreases d.len() - i,
    {
        let ghost prev = names@.map_values(|s: String| s@);
        let id: u32 = (d[i] as u32) + 256 * (d[i + 1] as u32);
        let size: u64 = (d[i + 2] as u64) + 256 * (d[i + 3] as u64) + 65536 * (d[i + 4] as u64)
            + 16777216 * (d[i + 5] as u64);
        assert(size == le32(d@, i + 2));
        if id == 0x0016 && size > 0 && size <= 260 && (size as usize) <= d.len() - 6 - i {
            let sz = size as usize;
            let mut ok = true;
            let mut k: usize = i + 6;
            while k < i + 6 + sz
                invariant
                    i + 6 + sz <= d.len(),
                    i + 6 <= k <= i + 6 + sz,
                    ok == (forall|m: int| i + 6 <= m < k ==> is_name_byte(#[trigger] d@[m])),
                decreases i + 6 + sz - k,
            {
                let b = d[k];
                ok = ok && ((0x21 <= b && b <= 0x7E) || b == 0x20);
                k = k + 1;
            }
            if ok {
                let mut name = String::new();
                let mut m: usize = i + 6;
                while m < i + 6 + sz
                    invariant
                        i + 6 + sz <= d.len(),
                        i + 6 <= m <= i + 6 + sz,
                        name@ == d@.subrange(i + 6, m as int).map_values(|b: u8| b as char),
                    decreases i + 6 + sz - m,
                {
                    crate::text::push_char(&mut name, d[m] as char);
                    assert(d@.subrange(i + 6, m + 1).map_values(|b: u8| b as char) =~=
                        d@.subrange(i + 6, m as int).map_values(|b: u8| b as char).push(d@[m as int] as char));
                    m = m + 1;
                }
                names.push(name);
                assert(reference_record_at(d@, i as int));
                assert(names@.map_values(|s: String| s@) =~= prev.push(reference_name_at(d@, i as int)));
            } else {
                assert(!reference_record_at(d@, i as int));
            }
        } else {
            assert(!reference_record_at(d@, i as int));
        }
        i = i + 1;
    }
    assert(spec_decompress(raw@) == Some(d@));
    assert(d.len() >= 6 ==> i == d.len() - 5);
    assert(d.len() < 6 ==> i == 0);
    names
}

/// The header line put before each module in the combined source.
pub open spec fn module_header(name: Seq<char>, kind: Seq<char>) -> Seq<char> {
    "'--- Module: "@ + name + " ("@ + kind + ") ---\n"@
}

/// One decoded module stream: its name, and its source when the stream decoded.
pub open spec fn module_of(name: Seq<char>, raw: Seq<u8>) -> Option<Seq<char>> {
    if is_non_module_stream(name) { None } else { module_source_from(raw, 0) }
}

/// Modules and combined source for the given (stream name, stream bytes) list.
pub open spec fn spec_modules(
    streams: Seq<(Seq<char>, Seq<u8>)>,
    kinds: Seq<(Seq<char>, Seq<char>)>,
) -> (Seq<(Seq<char>, Seq<char>, u32)>, Seq<char>)
    decreases streams.len(),
{
    if streams.len() == 0 {
        (Seq::empty(), Seq::empty())
    } else {
        let (mods, combined) = spec_modules(streams.drop_last(), kinds);
        let (name, raw) = streams.last();
        match module_of(name, raw) {
            Some(source) => {
                let kind = kind_of_module(kinds, name);
                (
                    mods.push((name, kind, line_count(source) as u32)),
                    combined + module_header(name, kind) + source + "\n\n"@,
                )
            },
            None => (mods, combined),
        }
    }
}

pub open spec fn module_view(m: VbaModule) -> (Seq<char>, Seq<char>, u32) {
    (m.name@, m.kind@, m.loc)
}

/// The VBA analyzer of Excel macro workbooks (xlsm/xlsb).
pub struct XlsmAnalyzer;

impl VbaContainerAnalyzer for XlsmAnalyzer {
    open spec fn tool(&self) -> Seq<char> {
        macro_tools::EXCEL_VBA@
    }

    open spec fn detects(&self, relative_path: Seq<char>, archive_entries: Seq<Seq<char>>) -> bool {
        archive_entries.contains(VBA_PROJECT_ENTRY@)
    }

    fn tool_name(&self) -> (res: &'static str) {
        macro_tools::EXCEL_VBA
    }

    fn detect(&self, relative_path: &str, archive_entries: &[String]) -> (res: bool) {
        let mut i: usize = 0;
        while i < archive_entries.len()
            invariant
                i <= archive_entries.len(),
                forall|j: int| 0 <= j < i ==> archive_entries@[j]@ != VBA_PROJECT_ENTRY@,
            decreases archive_entries.len() - i,
        {
            let ec = chars_of(archive_entries[i].as_str());
            if key_is(ec.as_slice(), VBA_PROJECT_ENTRY) {
                assert(archive_entries@.map_values(|s: String| s@)[i as int] == VBA_PROJECT_ENTRY@);
                return true;
            }
            i = i + 1;
        }
        proof {
            let ev = archive_entries@.map_values(|s: String| s@);
            if ev.contains(VBA_PROJECT_ENTRY@) {
                let j = choose|j: int| 0 <= j < ev.len() && ev[j] == VBA_PROJECT_ENTRY@;
                assert(archive_entries@[j]@ == VBA_PROJECT_ENTRY@);
            }
        }
        false
    }
}

/// What the extraction gives for a workbook at `relative_path` whose VBA storage holds
/// the module streams `streams` (name and bytes, in storage order), whose PROJECT stream
/// reads `project_text` and whose `dir` stream holds `dir`.
pub open spec fn extraction(
    relative_path: Seq<char>,
    streams: Seq<(Seq<char>, Seq<u8>)>,
    project_text: Seq<char>,
    dir: Seq<u8>,
    res: (VbaComponent, String),
) -> bool {
    let kinds = project_entries(lines(project_text));
    let (mods, combined) = spec_modules(streams, kinds);
    &&& res.0.component_path@ == crate::text::replace_char(relative_path, '\\', '/')
    &&& res.0.workbook_name@ == match file_name(relative_path) {
        Some(n) => n,
        None => "unknown"@,
    }
    &&& res.0.modules@.map_values(|m: VbaModule| module_view(m)) == mods
    &&& res.0.external_references@.map_values(|s: String| s@) == spec_reference_names(dir)
    &&& res.1@ == combined
}

impl XlsmAnalyzer {
    /// The intermediate representation of a workbook's VBA project and the combined source
    /// of its modules, from the module streams of the `VBA` storage (name and bytes, in
    /// storage order), the text of the PROJECT stream and the bytes of the `dir` stream.
    /// Lines counts are cut to 32 bits.
    pub fn extract(
        &self,
        relative_path: &str,
        module_streams: &[(String, Vec<u8>)],
        project_text: &str,
        dir_stream: &[u8],
    ) -> (res: (VbaComponent, String))
        ensures
            extraction(relative_path@, module_streams@.map_values(|e: (String, Vec<u8>)| (e.0@, e.1@)), project_text@, dir_stream@, res),
    {
        let kinds = read_project_stream_kinds(project_text);
        let ghost kv = kinds@.map_values(|e: (String, String)| (e.0@, e.1@));
        let external_references = read_dir_stream_reference_names(dir_stream);
        let ghost streams = module_streams@.map_values(|e: (String, Vec<u8>)| (e.0@, e.1@));
        let mut modules: Vec<VbaModule> = Vec::new();
        let mut combined = String::new();
        let mut i: usize = 0;
        while i < module_streams.len()
            invariant
                i <= module_streams.len(),
                streams == module_streams@.map_values(|e: (String, Vec<u8>)| (e.0@, e.1@)),
                kv == kinds@.map_values(|e: (String, String)| (e.0@, e.1@)),
                modules@.map_values(|m: VbaModule| module_view(m)) == spec_modules(streams.take(i as int), kv).0,
                combined@ == spec_modules(streams.take(i as int), kv).1,
            decreases module_streams.len() - i,
        {
            assert(streams.take(i + 1).drop_last() =~= streams.take(i as int));
            let name = &module_streams[i].0;
            let raw = &module_streams[i].1;
            assert(streams.take(i + 1).last() == (name@, raw@));
            let nc = chars_of(name.as_str());
            let non_module = key_is(nc.as_slice(), "dir") || key_is(nc.as_slice(), "PROJECT")
                || key_is(nc.as_slice(), "PROJECTwm") || key_is(nc.as_slice(), "_VBA_PROJECT");
            if !non_module {
                match decompress_module_stream(raw.as_slice()) {
                    Some(source) => {
                        let sc = chars_of(source.as_str());
                        let loc = line_count_exec(sc.as_slice());
                        let kind = module_kind(&kinds, name.as_str());
                        push_str(&mut combined, "'--- Module: ");
                        push_str(&mut combined, name.as_str());
                        push_str(&mut combined, " (");
                        push_str(&mut combined, kind.as_str());
                        push_str(&mut combined, ") ---\n");
                        push_str(&mut combined, source.as_str());
                        push_str(&mut combined, "\n\n");
                        assert(streams.take(i + 1).last() == (name@, raw@));
                        assert(module_of(name@, raw@) == Some(source@));
                        let ghost old_view = modules@.map_values(|m: VbaModule| module_view(m));
                        let m = VbaModule { name: name.clone(), kind, loc: loc as u32 };
                        modules.push(m);
                        assert(modules@.map_values(|m: VbaModule| module_view(m)) =~= old_view.push(module_view(m)));
                    },
                    None => {
                        assert(module_of(name@, raw@) is None);
                        assert(spec_modules(streams.take(i + 1), kv) == spec_modules(streams.take(i as int), kv));
                    },
                }
            } else {
                assert(is_non_module_stream(name@));
                assert(module_of(name@, raw@) is None);
                assert(spec_modules(streams.take(i + 1), kv) == spec_modules(streams.take(i as int), kv));
            }
            i = i + 1;
        }
        assert(streams.take(module_streams.len() as int) =~= streams);
        let pc = chars_of(relative_path);
        let workbook_name = match file_name_exec(pc.as_slice()) {
            Some(n) => string_of(n.as_slice()),
            None => String::from_str("unknown"),
        };
        let component_path = string_of(crate::text::replace_char_exec(pc.as_slice(), '\\', '/').as_slice());
        (VbaComponent { component_path, workbook_name, modules, external_references }, combined)
    }
}

} // verus!
