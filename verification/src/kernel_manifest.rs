//! The manifest of the compiled kernels: which files there are, and what their content is.

use vstd::prelude::*;

use crate::engine::digest::{blake3_of, digest_of, lower_hex};
use crate::ordered::TextMap;
use crate::search::{begins_with, begins_with_part, parted, split_once};
use crate::search::{has_part, parted_text_is_made_up_again};
use crate::text::{chars_of, join3, same_text, text_of};

verus! {

/// What is wrong with a manifest.
#[derive(Debug, Clone, PartialEq, Eq)]
pub enum ManifestError {
    DuplicateKey(String),
    NotARecord { line: usize },
    InvalidDigest { line: usize },
    DuplicatePath(String),
    Mismatch(String),
    NoCompilerVersion,
    WrongCompilerVersion,
}

/// What is wrong with a manifest, as plain values.
pub ghost enum ManifestFault {
    DuplicateKey(Seq<char>),
    NotARecord(int),
    InvalidDigest(int),
    DuplicatePath(Seq<char>),
    Mismatch(Seq<char>),
    NoCompilerVersion,
    WrongCompilerVersion,
}

impl View for ManifestError {
    type V = ManifestFault;

    open spec fn view(&self) -> ManifestFault {
        match *self {
            ManifestError::DuplicateKey(key) => ManifestFault::DuplicateKey(key@),
            ManifestError::NotARecord { line } => ManifestFault::NotARecord(line as int),
            ManifestError::InvalidDigest { line } => ManifestFault::InvalidDigest(line as int),
            ManifestError::DuplicatePath(path) => ManifestFault::DuplicatePath(path@),
            ManifestError::Mismatch(key) => ManifestFault::Mismatch(key@),
            ManifestError::NoCompilerVersion => ManifestFault::NoCompilerVersion,
            ManifestError::WrongCompilerVersion => ManifestFault::WrongCompilerVersion,
        }
    }
}

/// Texts by texts, as plain values.
pub open spec fn texts(m: Map<Seq<char>, String>) -> Map<Seq<char>, Seq<char>> {
    m.map_values(|s: String| s@)
}

/// Where the first line of `s` ends: at its first line break, or at its end.
pub open spec fn line_end(s: Seq<char>) -> int
    decreases s.len(),
{
    if s.len() == 0 || s[0] == '\n' {
        0
    } else {
        1 + line_end(s.drop_first())
    }
}

/// A line without the carriage return that stood before its line break.
pub open spec fn without_return(s: Seq<char>) -> Seq<char> {
    if s.len() > 0 && s.last() == '\r' {
        s.drop_last()
    } else {
        s
    }
}

proof fn line_end_is_within(s: Seq<char>)
    ensures
        0 <= line_end(s) <= s.len(),
    decreases s.len(),
{
    if s.len() > 0 && s[0] != '\n' {
        line_end_is_within(s.drop_first());
    }
}

/// The lines of `s`, without their line breaks. A line break at the end begins no line.
pub open spec fn lines_of(s: Seq<char>) -> Seq<Seq<char>>
    decreases s.len(),
    via lines_get_fewer
{
    if s.len() == 0 {
        Seq::empty()
    } else if line_end(s) >= s.len() {
        seq![s]
    } else {
        seq![without_return(s.take(line_end(s)))] + lines_of(s.skip(line_end(s) + 1))
    }
}

#[via_fn]
proof fn lines_get_fewer(s: Seq<char>) {
    line_end_is_within(s);
}

/// The texts, as plain values.
pub open spec fn each_text(v: Seq<String>) -> Seq<Seq<char>> {
    v.map_values(|s: String| s@)
}

/// The lines of a text.
pub fn lines(s: &str) -> (r: Vec<String>)
    ensures
        each_text(r@) == lines_of(s@),
{
    let chars: Vec<char> = chars_of(s);
    let mut found: Vec<String> = Vec::new();
    let mut start: usize = 0;
    proof {
        assert(s@.skip(0) =~= s@);
        assert(each_text(found@) + lines_of(s@.skip(0)) =~= lines_of(s@));
    }
    while start < chars.len()
        invariant
            chars@ == s@,
            start <= chars.len(),
            each_text(found@) + lines_of(s@.skip(start as int)) == lines_of(s@),
        decreases chars.len() - start,
    {
        let ghost rest = s@.skip(start as int);
        let mut line: Vec<char> = Vec::new();
        let mut i: usize = start;
        proof {
            assert(s@.skip(i as int) =~= rest);
            assert(line@ =~= rest.take(0));
        }
        while i < chars.len() && chars[i] != '\n'
            invariant
                chars@ == s@,
                start <= i <= chars.len(),
                rest == s@.skip(start as int),
                line@ == rest.take(i - start),
                line_end(rest) == (i - start) + line_end(s@.skip(i as int)),
            decreases chars.len() - i,
        {
            line.push(chars[i]);
            proof {
                assert(s@.skip(i as int).drop_first() =~= s@.skip(i + 1));
                assert(line@ =~= rest.take(i + 1 - start));
            }
            i = i + 1;
        }
        if i >= chars.len() {
            proof {
                assert(line@ =~= rest);
            }
            found.push(text_of(&line));
            proof {
                assert(each_text(found@) =~= each_text(found@.drop_last()) + seq![rest]);
                assert(lines_of(s@.skip(chars@.len() as int)) =~= Seq::<Seq<char>>::empty());
                assert(each_text(found@) + lines_of(s@.skip(chars@.len() as int))
                    =~= each_text(found@));
            }
            start = chars.len();
        } else {
            if line.len() > 0 && line[line.len() - 1] == '\r' {
                let _ = line.pop();
            }
            proof {
                assert(line@ =~= without_return(rest.take(i - start)));
                assert(rest.skip(i - start + 1) =~= s@.skip(i + 1));
            }
            found.push(text_of(&line));
            proof {
                assert(each_text(found@) =~= each_text(found@.drop_last()).push(line@));
                assert(each_text(found@) + lines_of(s@.skip(i + 1)) =~= each_text(
                    found@.drop_last(),
                ) + lines_of(rest));
            }
            start = i + 1;
        }
    }
    proof {
        assert(s@.skip(start as int) =~= Seq::<char>::empty());
        assert(each_text(found@) + lines_of(s@.skip(start as int)) =~= each_text(found@));
    }
    found
}

/// What the lines of a manifest that were read say.
#[verifier::ext_equal]
pub ghost struct Parsed {
    /// The digests, by path.
    pub inventory: Map<Seq<char>, Seq<char>>,
    pub metadata: Map<Seq<char>, Seq<char>>,
}

/// A hexadecimal digit, small or capital.
pub open spec fn any_hex_digit(c: char) -> bool {
    48 <= c as u32 <= 57 || 65 <= c as u32 <= 70 || 97 <= c as u32 <= 102
}

/// Sixty-four hexadecimal digits.
pub open spec fn hex_digest(s: Seq<char>) -> bool {
    s.len() == 64 && forall|i: int| 0 <= i < s.len() ==> any_hex_digit(#[trigger] s[i])
}

fn is_hex_digest(s: &str) -> (r: bool)
    ensures
        r == hex_digest(s@),
{
    let chars: Vec<char> = chars_of(s);
    if chars.len() != 64 {
        return false;
    }
    let mut i: usize = 0;
    while i < chars.len()
        invariant
            i <= chars.len(),
            chars@ == s@,
            forall|j: int| 0 <= j < i ==> any_hex_digit(#[trigger] s@[j]),
        decreases chars.len() - i,
    {
        let c: u32 = chars[i] as u32;
        let valid: bool = (c >= 48 && c <= 57) || (c >= 65 && c <= 70) || (c >= 97 && c <= 102);
        if !valid {
            proof {
                assert(!any_hex_digit(s@[i as int]));
            }
            return false;
        }
        i = i + 1;
    }
    true
}

/// One more line is read: a remark, `key=value`, or a digest and a path.
pub open spec fn line_read(p: Parsed, line: Seq<char>, number: int) -> Result<
    Parsed,
    ManifestFault,
> {
    if line.len() == 0 || line[0] == '#' {
        Ok(p)
    } else {
        match parted(line, "="@) {
            Some((key, value)) => if p.metadata.dom().contains(key) {
                Err(ManifestFault::DuplicateKey(key))
            } else {
                Ok(Parsed { metadata: p.metadata.insert(key, value), ..p })
            },
            None => match parted(line, "  "@) {
                None => Err(ManifestFault::NotARecord(number)),
                Some((digest, path)) => if !hex_digest(digest) {
                    Err(ManifestFault::InvalidDigest(number))
                } else if p.inventory.dom().contains(path) {
                    Err(ManifestFault::DuplicatePath(path))
                } else {
                    Ok(Parsed { inventory: p.inventory.insert(path, digest), ..p })
                },
            },
        }
    }
}

/// The first `n` lines are read, up to the first one that is wrong.
pub open spec fn lines_read(lines: Seq<Seq<char>>, n: nat) -> Result<Parsed, ManifestFault>
    decreases n,
{
    if n == 0 {
        Ok(Parsed { inventory: Map::empty(), metadata: Map::empty() })
    } else {
        match lines_read(lines, (n - 1) as nat) {
            Ok(p) => line_read(p, lines[n - 1], n as int),
            Err(fault) => Err(fault),
        }
    }
}

proof fn fault_stays(lines: Seq<Seq<char>>, n: nat, m: nat)
    requires
        n <= m,
        lines_read(lines, n) is Err,
    ensures
        lines_read(lines, m) == lines_read(lines, n),
    decreases m,
{
    if n < m {
        fault_stays(lines, n, (m - 1) as nat);
    }
}

/// `key` is recorded with `value`.
pub open spec fn recorded(metadata: Map<Seq<char>, Seq<char>>, key: Seq<char>, value: Seq<char>) -> bool {
    metadata.dom().contains(key) && metadata[key] == value
}

/// What is wrong with what a manifest says of the kernels.
pub open spec fn metadata_fault(metadata: Map<Seq<char>, Seq<char>>) -> Option<ManifestFault> {
    if !recorded(metadata, "cuda_release"@, "12.8"@) {
        Some(ManifestFault::Mismatch("cuda_release"@))
    } else if !recorded(metadata, "sass"@, "sm75,sm80,sm86,sm89,sm90,sm100,sm120"@) {
        Some(ManifestFault::Mismatch("sass"@))
    } else if !recorded(metadata, "ptx"@, "compute_75"@) {
        Some(ManifestFault::Mismatch("ptx"@))
    } else if !metadata.dom().contains("nvcc_version"@) {
        Some(ManifestFault::NoCompilerVersion)
    } else if !begins_with(metadata["nvcc_version"@], "12.8"@) {
        Some(ManifestFault::WrongCompilerVersion)
    } else {
        None
    }
}

/// The digests that a manifest records, by path, or the first thing that is wrong with it.
pub open spec fn manifest_of(body: Seq<char>) -> Result<Map<Seq<char>, Seq<char>>, ManifestFault> {
    let lines = lines_of(body);
    match lines_read(lines, lines.len()) {
        Err(fault) => Err(fault),
        Ok(p) => match metadata_fault(p.metadata) {
            Some(fault) => Err(fault),
            None => Ok(p.inventory),
        },
    }
}

fn is_recorded(metadata: &TextMap<String>, key: &str, value: &str) -> (r: bool)
    ensures
        r == recorded(texts(metadata@), key@, value@),
{
    match metadata.get(key) {
        Some(found) => same_text(found.as_str(), value),
        None => false,
    }
}

fn check_metadata(metadata: &TextMap<String>) -> (r: Result<(), ManifestError>)
    ensures
        match r {
            Ok(_) => metadata_fault(texts(metadata@)) is None,
            Err(e) => metadata_fault(texts(metadata@)) == Some(e@),
        },
{
    if !is_recorded(metadata, "cuda_release", "12.8") {
        return Err(ManifestError::Mismatch("cuda_release".to_owned()));
    }
    if !is_recorded(metadata, "sass", "sm75,sm80,sm86,sm89,sm90,sm100,sm120") {
        return Err(ManifestError::Mismatch("sass".to_owned()));
    }
    if !is_recorded(metadata, "ptx", "compute_75") {
        return Err(ManifestError::Mismatch("ptx".to_owned()));
    }
    match metadata.get("nvcc_version") {
        None => Err(ManifestError::NoCompilerVersion),
        Some(version) => if begins_with_part(version.as_str(), "12.8") {
            Ok(())
        } else {
            Err(ManifestError::WrongCompilerVersion)
        },
    }
}

/// Reads one more line.
fn read_line(
    inventory: &mut TextMap<String>,
    metadata: &mut TextMap<String>,
    line: &str,
    number: usize,
) -> (r: Result<(), ManifestError>)
    ensures
        match r {
            Ok(_) => line_read(
                (Parsed {
                    inventory: texts(old(inventory)@),
                    metadata: texts(old(metadata)@),
                }),
                line@,
                number as int,
            ) == Ok::<Parsed, ManifestFault>(
                (Parsed {
                    inventory: texts(final(inventory)@),
                    metadata: texts(final(metadata)@),
                }),
            ),
            Err(e) => line_read(
                (Parsed {
                    inventory: texts(old(inventory)@),
                    metadata: texts(old(metadata)@),
                }),
                line@,
                number as int,
            ) == Err::<Parsed, ManifestFault>(e@),
        },
{
    let chars: Vec<char> = chars_of(line);
    if chars.len() == 0 || chars[0] == '#' {
        return Ok(());
    }
    match split_once(line, "=") {
        Some((key, value)) => {
            if metadata.contains_key(key.as_str()) {
                return Err(ManifestError::DuplicateKey(key));
            }
            let ghost before = metadata@;
            let ghost (k, v) = (key@, value@);
            let _ = metadata.insert(key, value);
            proof {
                assert(texts(metadata@) =~= texts(before).insert(k, v));
            }
            Ok(())
        },
        None => match split_once(line, "  ") {
            None => Err(ManifestError::NotARecord { line: number }),
            Some((digest, path)) => {
                if !is_hex_digest(digest.as_str()) {
                    return Err(ManifestError::InvalidDigest { line: number });
                }
                if inventory.contains_key(path.as_str()) {
                    return Err(ManifestError::DuplicatePath(path));
                }
                let ghost before = inventory@;
                let ghost (k, v) = (path@, digest@);
                let _ = inventory.insert(path, digest);
                proof {
                    assert(texts(inventory@) =~= texts(before).insert(k, v));
                }
                Ok(())
            },
        },
    }
}

/// Reads a manifest: the digests that it records, by path.
pub fn read_blake3_manifest(body: &str) -> (r: Result<TextMap<String>, ManifestError>)
    ensures
        match r {
            Ok(inventory) => manifest_of(body@) == Ok::<
                Map<Seq<char>, Seq<char>>,
                ManifestFault,
            >(texts(inventory@)),
            Err(e) => manifest_of(body@) == Err::<Map<Seq<char>, Seq<char>>, ManifestFault>(e@),
        },
{
    let found: Vec<String> = lines(body);
    let mut inventory: TextMap<String> = TextMap::new();
    let mut metadata: TextMap<String> = TextMap::new();
    let mut i: usize = 0;
    proof {
        assert(texts(inventory@) =~= Map::empty());
        assert(texts(metadata@) =~= Map::empty());
    }
    while i < found.len()
        invariant
            i <= found.len(),
            each_text(found@) == lines_of(body@),
            lines_read(lines_of(body@), i as nat) == Ok::<Parsed, ManifestFault>(
                (Parsed { inventory: texts(inventory@), metadata: texts(metadata@) }),
            ),
        decreases found.len() - i,
    {
        proof {
            assert(lines_of(body@)[i as int] == found@[i as int]@);
        }
        match read_line(&mut inventory, &mut metadata, found[i].as_str(), i + 1) {
            Ok(_) => {},
            Err(e) => {
                proof {
                    assert(lines_read(lines_of(body@), (i + 1) as nat) == Err::<
                        Parsed,
                        ManifestFault,
                    >(e@));
                    fault_stays(lines_of(body@), (i + 1) as nat, lines_of(body@).len());
                }
                return Err(e);
            },
        }
        i = i + 1;
    }
    match check_metadata(&metadata) {
        Ok(_) => Ok(inventory),
        Err(e) => Err(e),
    }
}

/// What is wrong with a recorded file.
#[derive(Debug, Clone, PartialEq, Eq)]
pub enum ManifestRecordError {
    Missing,
    Mismatch { expected: String, actual: String },
}

/// Checks the content of a file against its record.
pub fn verify_manifest_file(manifest: &TextMap<String>, relative: &str, bytes: &[u8]) -> (r: Result<
    (),
    ManifestRecordError,
>)
    ensures
        match r {
            Ok(_) => recorded(texts(manifest@), relative@, lower_hex(blake3_of(bytes@))),
            Err(ManifestRecordError::Missing) => !manifest@.dom().contains(relative@),
            Err(ManifestRecordError::Mismatch { expected, actual }) => {
                &&& manifest@.dom().contains(relative@)
                &&& expected@ == manifest@[relative@]@
                &&& actual@ == lower_hex(blake3_of(bytes@))
                &&& expected@ != actual@
            },
        },
{
    match manifest.get(relative) {
        None => Err(ManifestRecordError::Missing),
        Some(expected) => {
            let actual: String = digest_of(bytes);
            if same_text(actual.as_str(), expected.as_str()) {
                Ok(())
            } else {
                Err(ManifestRecordError::Mismatch { expected: expected.clone(), actual })
            }
        },
    }
}

/// Where the source of a kernel lies.
pub open spec fn source_place(stem: Seq<char>) -> Seq<char> {
    "gpu_kernels/nvidia/"@ + stem + ".cu"@
}

/// Where the compiled kernel lies.
pub open spec fn fatbin_place(stem: Seq<char>) -> Seq<char> {
    "gpu_kernels/prebuilt/nvidia/cuda-12.8/"@ + stem + ".fatbin"@
}

/// Where the source of a kernel lies.
pub fn source_path(stem: &str) -> (r: String)
    ensures
        r@ == source_place(stem@),
{
    join3("gpu_kernels/nvidia/", stem, ".cu")
}

/// Where the compiled kernel lies.
pub fn fatbin_path(stem: &str) -> (r: String)
    ensures
        r@ == fatbin_place(stem@),
{
    join3("gpu_kernels/prebuilt/nvidia/cuda-12.8/", stem, ".fatbin")
}

/// Every text of `a` is one of `b`.
pub open spec fn all_among(a: Seq<Seq<char>>, b: Seq<Seq<char>>) -> bool {
    forall|i: int| 0 <= i < a.len() ==> b.contains(#[trigger] a[i])
}

fn is_listed(text: &str, list: &Vec<String>) -> (r: bool)
    ensures
        r == each_text(list@).contains(text@),
{
    let mut i: usize = 0;
    while i < list.len()
        invariant
            i <= list.len(),
            forall|j: int| 0 <= j < i ==> (#[trigger] list@[j])@ != text@,
        decreases list.len() - i,
    {
        if same_text(list[i].as_str(), text) {
            proof {
                assert(each_text(list@)[i as int] == text@);
            }
            return true;
        }
        i = i + 1;
    }
    false
}

fn are_among(a: &Vec<String>, b: &Vec<String>) -> (r: bool)
    ensures
        r == all_among(each_text(a@), each_text(b@)),
{
    let mut i: usize = 0;
    while i < a.len()
        invariant
            i <= a.len(),
            forall|j: int|
                0 <= j < i ==> each_text(b@).contains(#[trigger] each_text(a@)[j]),
        decreases a.len() - i,
    {
        if !is_listed(a[i].as_str(), b) {
            proof {
                assert(each_text(a@)[i as int] == a@[i as int]@);
            }
            return false;
        }
        i = i + 1;
    }
    true
}

/// The places of the compiled kernels.
pub open spec fn fatbin_places(stems: Seq<Seq<char>>) -> Seq<Seq<char>> {
    stems.map_values(|s: Seq<char>| fatbin_place(s))
}

/// The places of the sources and the compiled kernels.
pub open spec fn kernel_places(stems: Seq<Seq<char>>) -> Seq<Seq<char>> {
    stems.map_values(|s: Seq<char>| source_place(s)) + fatbin_places(stems)
}

fn fatbin_paths(stems: &Vec<String>) -> (r: Vec<String>)
    ensures
        each_text(r@) == fatbin_places(each_text(stems@)),
{
    let mut r: Vec<String> = Vec::new();
    let mut i: usize = 0;
    while i < stems.len()
        invariant
            i <= stems.len(),
            each_text(r@) == fatbin_places(each_text(stems@)).take(i as int),
        decreases stems.len() - i,
    {
        let ghost before = r@;
        r.push(fatbin_path(stems[i].as_str()));
        proof {
            assert(each_text(r@) =~= each_text(before).push(fatbin_place(stems@[i as int]@)));
            assert(each_text(r@) =~= fatbin_places(each_text(stems@)).take(i + 1));
        }
        i = i + 1;
    }
    proof {
        assert(each_text(r@) =~= fatbin_places(each_text(stems@)));
    }
    r
}

fn kernel_paths(stems: &Vec<String>) -> (r: Vec<String>)
    ensures
        each_text(r@) == kernel_places(each_text(stems@)),
{
    let mut r: Vec<String> = Vec::new();
    let mut i: usize = 0;
    let ghost sources = each_text(stems@).map_values(|s: Seq<char>| source_place(s));
    while i < stems.len()
        invariant
            i <= stems.len(),
            sources == each_text(stems@).map_values(|s: Seq<char>| source_place(s)),
            each_text(r@) == sources.take(i as int),
        decreases stems.len() - i,
    {
        let ghost before = r@;
        r.push(source_path(stems[i].as_str()));
        proof {
            assert(each_text(r@) =~= each_text(before).push(source_place(stems@[i as int]@)));
            assert(each_text(r@) =~= sources.take(i + 1));
        }
        i = i + 1;
    }
    let mut fatbins: Vec<String> = fatbin_paths(stems);
    let ghost first = r@;
    let ghost second = fatbins@;
    r.append(&mut fatbins);
    proof {
        assert(each_text(r@) =~= each_text(first) + each_text(second));
        assert(sources.take(stems@.len() as int) =~= sources);
    }
    r
}

/// The compiled kernels that were found are exactly those of the sources.
pub fn fatbins_are_tracked(found: &Vec<String>, stems: &Vec<String>) -> (r: bool)
    ensures
        r == (all_among(each_text(found@), fatbin_places(each_text(stems@))) && all_among(
            fatbin_places(each_text(stems@)),
            each_text(found@),
        )),
{
    let expected: Vec<String> = fatbin_paths(stems);
    are_among(found, &expected) && are_among(&expected, found)
}

/// The manifest records exactly the sources and the compiled kernels.
pub fn inventory_is_complete(manifest: &TextMap<String>, stems: &Vec<String>) -> (r: bool)
    ensures
        r == (forall|path: Seq<char>|
            manifest@.dom().contains(path) <==> #[trigger] kernel_places(
                each_text(stems@),
            ).contains(path)),
{
    let expected: Vec<String> = kernel_paths(stems);
    let keys: Vec<String> = manifest.keys();
    let ghost names = each_text(keys@);
    let ghost places = kernel_places(each_text(stems@));
    let r: bool = are_among(&keys, &expected) && are_among(&expected, &keys);
    proof {
        assert forall|path: Seq<char>| manifest@.dom().contains(path) <==> #[trigger]
            names.contains(path) by {
            if manifest@.dom().contains(path) {
                let i = choose|i: int| 0 <= i < keys@.len() && (#[trigger] keys@[i])@ == path;
                assert(names[i] == path);
            }
            if names.contains(path) {
                let i = names.index_of(path);
                assert(keys@[i]@ == path);
            }
        }
        if r {
            assert forall|path: Seq<char>| manifest@.dom().contains(path) <==> #[trigger]
                places.contains(path) by {
                if manifest@.dom().contains(path) {
                    assert(names.contains(path));
                    let i = names.index_of(path);
                    assert(places.contains(names[i]));
                }
                if places.contains(path) {
                    let i = places.index_of(path);
                    assert(names.contains(places[i]));
                }
            }
        } else {
            if !all_among(names, places) {
                let i = choose|i: int| 0 <= i < names.len() && !places.contains(#[trigger] names[i]);
                assert(names.contains(names[i]));
                assert(manifest@.dom().contains(names[i]));
                assert(!places.contains(names[i]));
            } else {
                let i = choose|i: int| 0 <= i < places.len() && !names.contains(#[trigger] places[i]);
                assert(places.contains(places[i]));
                assert(!manifest@.dom().contains(places[i]));
            }
        }
    }
    r
}

/// Some line of a manifest is `line`.
pub open spec fn has_line(body: Seq<char>, line: Seq<char>) -> bool {
    lines_of(body).contains(line)
}

proof fn records_come_from_lines(lines: Seq<Seq<char>>, n: nat)
    requires
        n <= lines.len(),
        lines_read(lines, n) is Ok,
    ensures
        forall|key: Seq<char>| #[trigger]
            (lines_read(lines, n)->Ok_0).metadata.dom().contains(key) ==> lines.contains(
                key + "="@ + (lines_read(lines, n)->Ok_0).metadata[key],
            ),
        forall|path: Seq<char>| #[trigger]
            (lines_read(lines, n)->Ok_0).inventory.dom().contains(path) ==> lines.contains(
                (lines_read(lines, n)->Ok_0).inventory[path] + "  "@ + path,
            ) && hex_digest((lines_read(lines, n)->Ok_0).inventory[path]),
        forall|i: int|
            0 <= i < n && (#[trigger] lines[i]).len() > 0 && lines[i][0] != '#' ==> has_part(
                lines[i],
                "="@,
            ) || exists|path: Seq<char>| #[trigger]
                (lines_read(lines, n)->Ok_0).inventory.dom().contains(path) && lines[i] == (
                lines_read(lines, n)->Ok_0).inventory[path] + "  "@ + path,
    decreases n,
{
    if n > 0 {
        records_come_from_lines(lines, (n - 1) as nat);
        let before = lines_read(lines, (n - 1) as nat)->Ok_0;
        let after = lines_read(lines, n)->Ok_0;
        let line = lines[n - 1];
        assert(lines.contains(line));
        parted_text_is_made_up_again(line, "="@);
        parted_text_is_made_up_again(line, "  "@);
        assert forall|i: int|
            0 <= i < n && (#[trigger] lines[i]).len() > 0 && lines[i][0] != '#' implies has_part(
            lines[i],
            "="@,
        ) || exists|path: Seq<char>| #[trigger]
            after.inventory.dom().contains(path) && lines[i] == after.inventory[path] + "  "@
                + path by {
            if i < n - 1 {
                if !has_part(lines[i], "="@) {
                    let path = choose|path: Seq<char>| #[trigger]
                        before.inventory.dom().contains(path) && lines[i] == before.inventory[path]
                            + "  "@ + path;
                    assert(after.inventory.dom().contains(path));
                }
            } else if !has_part(line, "="@) {
                let path = (parted(line, "  "@)->0).1;
                assert(after.inventory.dom().contains(path));
            }
        }
    }
}

/// A manifest that is accepted says that the kernels were built by CUDA 12.8 for the supported
/// architectures, and records nothing but what its lines say: every path that it records stands on
/// a line behind its digest, and every line but remarks and settings is such a record.
pub proof fn accepted_manifest_says_what_it_records(
    body: Seq<char>,
    inventory: Map<Seq<char>, Seq<char>>,
)
    requires
        manifest_of(body) == Ok::<Map<Seq<char>, Seq<char>>, ManifestFault>(inventory),
    ensures
        has_line(body, "cuda_release"@ + "="@ + "12.8"@),
        has_line(body, "sass"@ + "="@ + "sm75,sm80,sm86,sm89,sm90,sm100,sm120"@),
        has_line(body, "ptx"@ + "="@ + "compute_75"@),
        exists|version: Seq<char>|
            begins_with(version, "12.8"@) && #[trigger] has_line(
                body,
                "nvcc_version"@ + "="@ + version,
            ),
        forall|path: Seq<char>| #[trigger]
            inventory.dom().contains(path) ==> has_line(body, inventory[path] + "  "@ + path)
                && inventory[path].len() == 64,
        forall|i: int|
            0 <= i < lines_of(body).len() && (#[trigger] lines_of(body)[i]).len() > 0 && lines_of(
                body,
            )[i][0] != '#' ==> has_part(lines_of(body)[i], "="@) || exists|path: Seq<char>|
                #[trigger] inventory.dom().contains(path) && lines_of(body)[i] == inventory[path]
                    + "  "@ + path,
{
    let lines = lines_of(body);
    records_come_from_lines(lines, lines.len());
    let p = lines_read(lines, lines.len())->Ok_0;
    assert(p.metadata.dom().contains("cuda_release"@));
    assert(p.metadata.dom().contains("sass"@));
    assert(p.metadata.dom().contains("ptx"@));
    assert(p.metadata.dom().contains("nvcc_version"@));
    assert(has_line(body, "nvcc_version"@ + "="@ + p.metadata["nvcc_version"@]));
}

/// A text that ends in a line break and a line before it has that line first; a carriage return
/// before the line break is no part of it.
pub proof fn first_line_is_taken(line: Seq<char>, rest: Seq<char>)
    requires
        forall|i: int| 0 <= i < line.len() ==> #[trigger] line[i] != '\n',
    ensures
        line.len() > 0 && line.last() == '\r' ==> lines_of(line + seq!['\n'] + rest) == seq![
            line.drop_last(),
        ] + lines_of(rest),
        line.len() == 0 || line.last() != '\r' ==> lines_of(line + seq!['\n'] + rest) == seq![line]
            + lines_of(rest),
        line.len() > 0 ==> lines_of(line) == seq![line],
        lines_of(Seq::empty()) == Seq::<Seq<char>>::empty(),
{
    let text = line + seq!['\n'] + rest;
    line_ends_at_the_break(line, rest);
    assert(text.take(line.len() as int) =~= line);
    assert(text.skip(line.len() as int + 1) =~= rest);
    line_without_break(line);
}

proof fn line_ends_at_the_break(line: Seq<char>, rest: Seq<char>)
    requires
        forall|i: int| 0 <= i < line.len() ==> #[trigger] line[i] != '\n',
    ensures
        line_end(line + seq!['\n'] + rest) == line.len(),
    decreases line.len(),
{
    let text = line + seq!['\n'] + rest;
    if line.len() > 0 {
        let less = line.drop_first();
        assert forall|i: int| 0 <= i < less.len() implies #[trigger] less[i] != '\n' by {
            assert(less[i] == line[i + 1]);
        }
        line_ends_at_the_break(less, rest);
        assert(text.drop_first() =~= less + seq!['\n'] + rest);
        assert(text[0] == line[0]);
    } else {
        assert(text[0] == '\n');
    }
}

proof fn line_without_break(line: Seq<char>)
    requires
        forall|i: int| 0 <= i < line.len() ==> #[trigger] line[i] != '\n',
    ensures
        line_end(line) == line.len(),
    decreases line.len(),
{
    if line.len() > 0 {
        let less = line.drop_first();
        assert forall|i: int| 0 <= i < less.len() implies #[trigger] less[i] != '\n' by {
            assert(less[i] == line[i + 1]);
        }
        line_without_break(less);
    }
}

/// A complete inventory has the source and the binary of every kernel, and no other file.
pub proof fn kernels_have_a_source_and_a_binary(stems: Seq<Seq<char>>, path: Seq<char>)
    ensures
        kernel_places(stems).contains(path) <==> exists|i: int|
            0 <= i < stems.len() && (path == "gpu_kernels/nvidia/"@ + #[trigger] stems[i] + ".cu"@
                || path == "gpu_kernels/prebuilt/nvidia/cuda-12.8/"@ + stems[i] + ".fatbin"@),
        kernel_places(stems).len() == 2 * stems.len(),
{
    let all = kernel_places(stems);
    let n = stems.len() as int;
    if all.contains(path) {
        let k = choose|k: int| 0 <= k < all.len() && all[k] == path;
        if k < n {
            assert(path == "gpu_kernels/nvidia/"@ + stems[k] + ".cu"@);
        } else {
            assert(path == "gpu_kernels/prebuilt/nvidia/cuda-12.8/"@ + stems[k - n] + ".fatbin"@);
        }
    }
    if exists|i: int|
        0 <= i < stems.len() && (path == "gpu_kernels/nvidia/"@ + #[trigger] stems[i] + ".cu"@
            || path == "gpu_kernels/prebuilt/nvidia/cuda-12.8/"@ + stems[i] + ".fatbin"@) {
        let i = choose|i: int|
            0 <= i < stems.len() && (path == "gpu_kernels/nvidia/"@ + #[trigger] stems[i] + ".cu"@
                || path == "gpu_kernels/prebuilt/nvidia/cuda-12.8/"@ + stems[i] + ".fatbin"@);
        assert(all[i] == source_place(stems[i]));
        assert(all[n + i] == fatbin_place(stems[i]));
    }
}

} // verus!
