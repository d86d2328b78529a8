use vstd::prelude::*;
use crate::algorithms::{CompressionType, EncryptionType};
use crate::error::{CompressionError, DecompressionError, PathRewriteError};
use crate::extension::{
    build_common_extension, clear_ext, container_token, decode_name, decode_prefix,
    ends_in_tag, file_name_of, file_name_start, lemma_decode_one, lemma_decode_suffixes,
    lemma_split_extended, lemma_tokens_plain, token_is, common_extension, decoded_path, has_file_name,
    last_index_in, last_index_of, lemma_last_index_of_bounds, parent_of, rewrite_ext,
};

verus! {

/// Marker for the directory-level processor; the work is done by the
/// planning functions of this module and the per-file pipeline.
pub struct Processor {}

/// One file of a directory operation: where it is read and where it is written.
pub struct Job {
    pub input: String,
    pub output: String,
}

pub open spec fn job_view(j: Job) -> (Seq<char>, Seq<char>) {
    (j.input@, j.output@)
}

/// `rel` under `root`, with one `/` between them.
pub open spec fn joined(root: Seq<char>, rel: Seq<char>) -> Seq<char> {
    if root.len() == 0 {
        rel
    } else if root.last() == '/' {
        root + rel
    } else {
        root + seq!['/'] + rel
    }
}

/// The job for a relative file path when archiving.
pub open spec fn compress_job(
    input_root: Seq<char>,
    output_root: Seq<char>,
    rel: Seq<char>,
    e: EncryptionType,
    c: CompressionType,
) -> (Seq<char>, Seq<char>) {
    (joined(input_root, rel), joined(output_root, rel + common_extension(e, c)))
}

/// The job for a relative file path when extracting.
pub open spec fn decompress_job(input_root: Seq<char>, output_root: Seq<char>, rel: Seq<char>) -> (
    Seq<char>,
    Seq<char>,
) {
    (joined(input_root, rel), joined(output_root, decoded_path(rel)))
}

/// Places the relative path `rel` under `root`.
pub fn join_path(root: &str, rel: &str) -> (r: String)
    ensures
        r@ == joined(root@, rel@),
{
    let n = root.unicode_len();
    if n == 0 {
        String::from_str(rel)
    } else if root.get_char(n - 1) == '/' {
        String::from_str(root).concat(rel)
    } else {
        proof {
            reveal_strlit("/");
        }
        let r = String::from_str(root).concat("/").concat(rel);
        assert(r@ =~= joined(root@, rel@));
        r
    }
}

/// The jobs that archive the files at the relative paths `files` from
/// `input_root` into `output_root`, each output carrying the algorithm suffix.
pub fn plan_compress_jobs(
    input_root: &str,
    output_root: &str,
    files: &Vec<String>,
    encryption: &EncryptionType,
    compression: &CompressionType,
) -> (r: Result<Vec<Job>, CompressionError>)
    ensures
        (forall|i: int| 0 <= i < files@.len() ==> has_file_name(#[trigger] files@[i]@)) <==> r is Ok,
        r matches Ok(jobs) ==> jobs@.len() == files@.len() && forall|i: int|
            0 <= i < files@.len() ==> job_view(#[trigger] jobs@[i]) == compress_job(
                input_root@,
                output_root@,
                files@[i]@,
                *encryption,
                *compression,
            ),
        r matches Err(e) ==> exists|i: int|
            0 <= i < files@.len() && !has_file_name(#[trigger] files@[i]@) && (e matches CompressionError::PathRewriteError(
                PathRewriteError::FileNameError(p),
            ) && p@ == files@[i]@),
{
    let ext = build_common_extension(encryption, compression);
    let mut jobs: Vec<Job> = Vec::new();
    let mut i: usize = 0;
    while i < files.len()
        invariant
            i <= files@.len(),
            jobs@.len() == i,
            ext@ == common_extension(*encryption, *compression),
            forall|j: int| 0 <= j < i ==> has_file_name(#[trigger] files@[j]@),
            forall|j: int|
                0 <= j < i ==> job_view(#[trigger] jobs@[j]) == compress_job(
                    input_root@,
                    output_root@,
                    files@[j]@,
                    *encryption,
                    *compression,
                ),
        decreases files@.len() - i,
    {
        let rel = files[i].as_str();
        let out_rel = match rewrite_ext(rel, ext.as_str()) {
            Ok(o) => o,
            Err(e) => {
                return Err(CompressionError::PathRewriteError(e));
            },
        };
        let input = join_path(input_root, rel);
        let output = join_path(output_root, out_rel.as_str());
        jobs.push(Job { input, output });
        i = i + 1;
    }
    Ok(jobs)
}

/// The jobs that restore the archived files at the relative paths `files`
/// from `input_root` into `output_root`, each output with its tags removed.
pub fn plan_decompress_jobs(input_root: &str, output_root: &str, files: &Vec<String>) -> (r:
    Result<Vec<Job>, DecompressionError>)
    ensures
        (forall|i: int| 0 <= i < files@.len() ==> has_file_name(#[trigger] files@[i]@)) <==> r is Ok,
        r matches Ok(jobs) ==> jobs@.len() == files@.len() && forall|i: int|
            0 <= i < files@.len() ==> job_view(#[trigger] jobs@[i]) == decompress_job(
                input_root@,
                output_root@,
                files@[i]@,
            ),
        r matches Err(e) ==> exists|i: int|
            0 <= i < files@.len() && !has_file_name(#[trigger] files@[i]@) && (e matches DecompressionError::PathRewriteError(
                PathRewriteError::FileNameError(p),
            ) && p@ == files@[i]@),
{
    let mut jobs: Vec<Job> = Vec::new();
    let mut i: usize = 0;
    while i < files.len()
        invariant
            i <= files@.len(),
            jobs@.len() == i,
            forall|j: int| 0 <= j < i ==> has_file_name(#[trigger] files@[j]@),
            forall|j: int|
                0 <= j < i ==> job_view(#[trigger] jobs@[j]) == decompress_job(
                    input_root@,
                    output_root@,
                    files@[j]@,
                ),
        decreases files@.len() - i,
    {
        let rel = files[i].as_str();
        let out_rel = match clear_ext(rel) {
            Ok(o) => o,
            Err(e) => {
                return Err(DecompressionError::PathRewriteError(e));
            },
        };
        let input = join_path(input_root, rel);
        let output = join_path(output_root, out_rel.as_str());
        jobs.push(Job { input, output });
        i = i + 1;
    }
    Ok(jobs)
}

/// The directory part of a path, up to and including its last `/`.
pub fn parent_dir(path: &str) -> (r: String)
    ensures
        r@ == parent_of(path@),
{
    let n = path.unicode_len();
    assert(path@.subrange(0, n as int) =~= path@);
    proof {
        lemma_last_index_of_bounds(path@, '/');
    }
    match last_index_in(path, '/', n) {
        Some(k) => String::from_str(path.substring_char(0, k + 1)),
        None => {
            let r = String::new();
            assert(r@ =~= parent_of(path@));
            r
        },
    }
}

fn contains_string(v: &Vec<String>, s: &String) -> (r: bool)
    ensures
        r == listed(v@, s@),
{
    let mut i: usize = 0;
    while i < v.len()
        invariant
            i <= v@.len(),
            forall|j: int| 0 <= j < i ==> (#[trigger] v@[j])@ != s@,
        decreases v@.len() - i,
    {
        if v[i] == *s {
            return true;
        }
        i = i + 1;
    }
    false
}

/// Whether `d` stands in `dirs`.
pub open spec fn listed(dirs: Seq<String>, d: Seq<char>) -> bool {
    exists|i: int| 0 <= i < dirs.len() && (#[trigger] dirs[i])@ == d
}

/// Whether `d` is the parent of the output of one of the first `upto` jobs.
pub open spec fn parent_of_some(jobs: Seq<Job>, upto: int, d: Seq<char>) -> bool {
    exists|k: int| 0 <= k < upto && parent_of((#[trigger] jobs[k]).output@) == d
}

/// The directories that must exist before the jobs write their outputs:
/// the parent of every output, each listed once.
pub fn output_parents(jobs: &Vec<Job>) -> (r: Vec<String>)
    ensures
        forall|i: int| 0 <= i < r@.len() ==> parent_of_some(jobs@, jobs@.len() as int, (#[trigger] r@[i])@),
        forall|j: int| 0 <= j < jobs@.len() ==> listed(r@, parent_of((#[trigger] jobs@[j]).output@)),
        forall|a: int, b: int| 0 <= a < b < r@.len() ==> r@[a]@ != r@[b]@,
{
    let mut dirs: Vec<String> = Vec::new();
    let mut j: usize = 0;
    while j < jobs.len()
        invariant
            j <= jobs@.len(),
            forall|i: int| 0 <= i < dirs@.len() ==> parent_of_some(jobs@, j as int, (#[trigger] dirs@[i])@),
            forall|k: int| 0 <= k < j ==> listed(dirs@, parent_of((#[trigger] jobs@[k]).output@)),
            forall|a: int, b: int| 0 <= a < b < dirs@.len() ==> dirs@[a]@ != dirs@[b]@,
        decreases jobs@.len() - j,
    {
        let dir = parent_dir(jobs[j].output.as_str());
        let ghost old_dirs = dirs@;
        if !contains_string(&dirs, &dir) {
            dirs.push(dir);
            assert(dirs@[dirs@.len() - 1] == dir);
            assert forall|k: int| 0 <= k < j implies listed(dirs@, parent_of((#[trigger] jobs@[k]).output@)) by {
                let i = choose|i: int| 0 <= i < old_dirs.len() && (#[trigger] old_dirs[i])@ == parent_of(jobs@[k].output@);
                assert(dirs@[i] == old_dirs[i]);
            }
            assert(listed(dirs@, parent_of(jobs@[j as int].output@)));
        }
        assert forall|i: int| 0 <= i < dirs@.len() implies parent_of_some(jobs@, j + 1, (#[trigger] dirs@[i])@) by {
            if i < old_dirs.len() {
                assert(dirs@[i] == old_dirs[i]);
                assert(parent_of_some(jobs@, j as int, old_dirs[i]@));
            } else {
                assert(parent_of(jobs@[j as int].output@) == dirs@[i]@);
            }
        }
        j = j + 1;
    }
    dirs
}

/// `s` without the dots at its end.
pub open spec fn trim_trailing_dots(s: Seq<char>) -> Seq<char>
    decreases s.len(),
{
    if s.len() > 0 && s.last() == '.' {
        trim_trailing_dots(s.drop_last())
    } else {
        s
    }
}

/// The archive file named after the input directory: its trailing dots
/// dropped, then the algorithm suffix, then the container tag.
pub open spec fn archive_name_of(input: Seq<char>, e: EncryptionType, c: CompressionType) -> Seq<
    char,
> {
    trim_trailing_dots(input) + common_extension(e, c) + seq!['.'] + container_token()
}

/// Names the archive of the directory `input`.
pub fn archive_name(input: &str, encryption: &EncryptionType, compression: &CompressionType) -> (r:
    String)
    ensures
        r@ == archive_name_of(input@, *encryption, *compression),
{
    let mut end = input.unicode_len();
    assert(input@.subrange(0, end as int) =~= input@);
    while end > 0 && input.get_char(end - 1) == '.'
        invariant
            end <= input@.len(),
            trim_trailing_dots(input@) == trim_trailing_dots(input@.subrange(0, end as int)),
        decreases end,
    {
        assert(input@.subrange(0, end as int).drop_last() =~= input@.subrange(0, end - 1));
        end = end - 1;
    }
    let stem = input.substring_char(0, end);
    let ext = build_common_extension(encryption, compression);
    proof {
        reveal_strlit(".zap");
    }
    let r = String::from_str(stem).concat(ext.as_str()).concat(".zap");
    assert(r@ =~= archive_name_of(input@, *encryption, *compression));
    r
}

/// The final component of an archive path without its container tag, when
/// it carries one after its first token.
pub open spec fn archive_stem(name: Seq<char>) -> Seq<char> {
    let k = last_index_of(name, '.');
    if 0 < k < name.len() && name.subrange(k + 1, name.len() as int) == container_token() {
        name.subrange(0, k)
    } else {
        name
    }
}

/// Where an archive is extracted by default, and what its name tells of the
/// algorithms: the container tag and the algorithm tags are removed.
pub struct ExtractionTarget {
    pub output: String,
    pub encryption: EncryptionType,
    pub compression: CompressionType,
}

/// How much of a file name remains without its container tag.
fn stem_end(name: &str) -> (r: usize)
    ensures
        r <= name@.len(),
        name@.subrange(0, r as int) == archive_stem(name@),
{
    let m = name.unicode_len();
    assert(name@.subrange(0, m as int) =~= name@);
    proof {
        lemma_last_index_of_bounds(name@, '.');
        reveal_strlit("zap");
        assert("zap"@ =~= container_token());
    }
    match last_index_in(name, '.', m) {
        Some(k) => if k > 0 && token_is(name, k + 1, m, "zap") {
            k
        } else {
            m
        },
        None => m,
    }
}

/// Reads the default output path and the algorithms off an archive's path.
pub fn extraction_target(archive: &str) -> (r: Result<ExtractionTarget, PathRewriteError>)
    ensures
        has_file_name(archive@) ==> (r matches Ok(t) && ({
            let d = decode_name(archive_stem(file_name_of(archive@)));
            &&& t.output@ == parent_of(archive@) + d.0
            &&& t.encryption == d.1
            &&& t.compression == d.2
        })),
        !has_file_name(archive@) ==> (r matches Err(PathRewriteError::FileNameError(p)) && p@
            == archive@),
{
    match file_name_start(archive) {
        None => Err(PathRewriteError::FileNameError(String::from_str(archive))),
        Some(start) => {
            let n = archive.unicode_len();
            proof {
                lemma_last_index_of_bounds(archive@, '/');
            }
            let name = archive.substring_char(start, n);
            let end = stem_end(name);
            let (keep, e, c) = decode_prefix(name, end);
            let base = name.substring_char(0, keep);
            let parent = archive.substring_char(0, start);
            Ok(
                ExtractionTarget {
                    output: String::from_str(parent).concat(base),
                    encryption: e,
                    compression: c,
                },
            )
        },
    }
}

/// The algorithms of an extraction: an explicit choice wins over what the
/// archive's name tells.
pub fn resolve_types(
    detected: (EncryptionType, CompressionType),
    encryption_override: Option<EncryptionType>,
    compression_override: Option<CompressionType>,
) -> (r: (EncryptionType, CompressionType))
    ensures
        r.0 == (match encryption_override {
            Some(e) => e,
            None => detected.0,
        }),
        r.1 == (match compression_override {
            Some(c) => c,
            None => detected.1,
        }),
{
    let e = match encryption_override {
        Some(e) => e,
        None => detected.0,
    };
    let c = match compression_override {
        Some(c) => c,
        None => detected.1,
    };
    (e, c)
}

/// Distinct files are archived to distinct outputs, so parallel workers
/// never write to one path: their outputs are disjoint.
pub proof fn lemma_compress_outputs_distinct(
    input_root: Seq<char>,
    output_root: Seq<char>,
    a: Seq<char>,
    b: Seq<char>,
    e: EncryptionType,
    c: CompressionType,
)
    requires
        a != b,
    ensures
        compress_job(input_root, output_root, a, e, c).1 != compress_job(
            input_root,
            output_root,
            b,
            e,
            c,
        ).1,
        compress_job(input_root, output_root, a, e, c).0 != compress_job(
            input_root,
            output_root,
            b,
            e,
            c,
        ).0,
{
    let x = common_extension(e, c);
    let pre = joined(output_root, Seq::empty());
    assert(joined(output_root, Seq::<char>::empty()) =~= pre);
    assert(joined(output_root, a + x) =~= pre + a + x);
    assert(joined(output_root, b + x) =~= pre + b + x);
    let ipre = joined(input_root, Seq::empty());
    assert(joined(input_root, a) =~= ipre + a);
    assert(joined(input_root, b) =~= ipre + b);
    if pre + a + x == pre + b + x {
        assert((pre + a + x).subrange(pre.len() as int, (pre + a + x).len() - x.len()) =~= a);
        assert((pre + b + x).subrange(pre.len() as int, (pre + b + x).len() - x.len()) =~= b);
    }
    if ipre + a == ipre + b {
        assert((ipre + a).subrange(ipre.len() as int, (ipre + a).len() as int) =~= a);
        assert((ipre + b).subrange(ipre.len() as int, (ipre + b).len() as int) =~= b);
    }
}

/// The set of archiving jobs depends on the set of files alone, not on the
/// order in which they were found; with disjoint outputs and each output a
/// function of its own input, any interleaving of the jobs ends in the same tree.
pub proof fn lemma_compress_jobs_order_independent(
    input_root: Seq<char>,
    output_root: Seq<char>,
    a: Seq<Seq<char>>,
    b: Seq<Seq<char>>,
    e: EncryptionType,
    c: CompressionType,
)
    requires
        a.to_set() == b.to_set(),
    ensures
        a.map_values(|r: Seq<char>| compress_job(input_root, output_root, r, e, c)).to_set()
            == b.map_values(|r: Seq<char>| compress_job(input_root, output_root, r, e, c)).to_set(),
{
    let f = |r: Seq<char>| compress_job(input_root, output_root, r, e, c);
    let ma = a.map_values(f);
    let mb = b.map_values(f);
    assert forall|x| ma.to_set().contains(x) implies mb.to_set().contains(x) by {
        let i = choose|i: int| 0 <= i < ma.len() && ma[i] == x;
        assert(a.to_set().contains(a[i]));
        assert(b.to_set().contains(a[i]));
        let j = choose|j: int| 0 <= j < b.len() && b[j] == a[i];
        assert(mb[j] == x);
    }
    assert forall|x| mb.to_set().contains(x) implies ma.to_set().contains(x) by {
        let j = choose|j: int| 0 <= j < mb.len() && mb[j] == x;
        assert(b.to_set().contains(b[j]));
        assert(a.to_set().contains(b[j]));
        let i = choose|i: int| 0 <= i < a.len() && a[i] == b[j];
        assert(ma[i] == x);
    }
    assert(ma.to_set() =~= mb.to_set());
}

/// Extracting an archive named after a directory, with no explicit choice,
/// restores the directory's name (without its trailing dots) and detects
/// the algorithms it was archived with.
pub proof fn lemma_archive_name_round_trip(input: Seq<char>, e: EncryptionType, c: CompressionType)
    requires
        has_file_name(trim_trailing_dots(input)),
        !ends_in_tag(file_name_of(trim_trailing_dots(input))),
    ensures
        ({
            let a = archive_name_of(input, e, c);
            let d = decode_name(archive_stem(file_name_of(a)));
            &&& has_file_name(a)
            &&& parent_of(a) + d.0 == trim_trailing_dots(input)
            &&& d.1 == e
            &&& d.2 == c
        }),
{
    let t = trim_trailing_dots(input);
    let ext = common_extension(e, c);
    let z = container_token();
    let x = ext + seq!['.'] + z;
    lemma_tokens_plain(e, c);
    assert(!z.contains('.') && !z.contains('/')) by {
        if z.contains('.') || z.contains('/') {
            let j = choose|j: int| 0 <= j < z.len() && (z[j] == '.' || z[j] == '/');
        }
    }
    assert(!x.contains('/')) by {
        if x.contains('/') {
            let j = choose|j: int| 0 <= j < x.len() && x[j] == '/';
            if j < ext.len() {
                assert(ext.contains('/'));
            } else if j > ext.len() {
                assert(z[j - ext.len() - 1] == '/');
            }
        }
    }
    let a = archive_name_of(input, e, c);
    assert(a =~= t + x);
    lemma_split_extended(t, x);
    let n = file_name_of(t);
    assert(file_name_of(a) =~= (n + ext) + seq!['.'] + z);
    assert(seq!['.'] + z == crate::extension::dotted(z));
    assert(file_name_of(a) =~= (n + ext) + crate::extension::dotted(z));
    lemma_decode_one(n + ext, z);
    assert(archive_stem(file_name_of(a)) == n + ext);
    lemma_decode_suffixes(n, e, c);
    crate::extension::lemma_last_index_of_bounds(t, '/');
    assert(t =~= parent_of(t) + n);
}

/// Where the secret of an operation comes from.
#[derive(Clone, Debug, PartialEq, Eq)]
pub enum SecretSource {
    /// The identity cipher needs none.
    NotNeeded,
    /// A key file at this path.
    KeyFile(String),
    /// A password asked of the user.
    Prompt,
}

/// Where the secret for a cipher comes from: none for the identity, the key
/// file when one is given, else a password prompt.
pub fn secret_source(encryption: &EncryptionType, keypath: Option<String>) -> (r: SecretSource)
    ensures
        *encryption == EncryptionType::Passthrough ==> r == SecretSource::NotNeeded,
        *encryption != EncryptionType::Passthrough ==> r == (match keypath {
            Some(p) => SecretSource::KeyFile(p),
            None => SecretSource::Prompt,
        }),
{
    match encryption {
        EncryptionType::Passthrough => SecretSource::NotNeeded,
        _ => match keypath {
            Some(p) => SecretSource::KeyFile(p),
            None => SecretSource::Prompt,
        },
    }
}

/// The algorithms of an archiving run: an explicit choice wins; otherwise
/// the plain switches pick the defaults (XChaCha-Poly, LZ4), and without
/// them each layer is the identity.
pub fn archive_algorithms(
    encryption_choice: Option<EncryptionType>,
    encrypt: bool,
    compression_choice: Option<CompressionType>,
    compress: bool,
) -> (r: (EncryptionType, CompressionType))
    ensures
        r.0 == (match encryption_choice {
            Some(e) => e,
            None => if encrypt {
                EncryptionType::XChaCha
            } else {
                EncryptionType::Passthrough
            },
        }),
        r.1 == (match compression_choice {
            Some(c) => c,
            None => if compress {
                CompressionType::Lz4
            } else {
                CompressionType::Passthrough
            },
        }),
{
    let e = match encryption_choice {
        Some(e) => e,
        None => if encrypt {
            EncryptionType::XChaCha
        } else {
            EncryptionType::Passthrough
        },
    };
    let c = match compression_choice {
        Some(c) => c,
        None => if compress {
            CompressionType::Lz4
        } else {
            CompressionType::Passthrough
        },
    };
    (e, c)
}

/// The tree left by processing `jobs` one after another in the given order,
/// each job writing at its output path what `work` makes of its input path.
pub open spec fn tree_after(
    jobs: Seq<(Seq<char>, Seq<char>)>,
    work: spec_fn(Seq<char>) -> Seq<u8>,
) -> Map<Seq<char>, Seq<u8>>
    decreases jobs.len(),
{
    if jobs.len() == 0 {
        Map::empty()
    } else {
        tree_after(jobs.drop_last(), work).insert(jobs.last().1, work(jobs.last().0))
    }
}

/// No two jobs write to one path.
pub open spec fn outputs_disjoint(jobs: Seq<(Seq<char>, Seq<char>)>) -> bool {
    forall|i: int, j: int| 0 <= i < jobs.len() && 0 <= j < jobs.len() && i != j ==> jobs[i].1 != jobs[j].1
}

proof fn lemma_tree_after_contents(
    jobs: Seq<(Seq<char>, Seq<char>)>,
    work: spec_fn(Seq<char>) -> Seq<u8>,
)
    requires
        outputs_disjoint(jobs),
    ensures
        forall|o: Seq<char>|
            tree_after(jobs, work).contains_key(o) <==> exists|i: int|
                0 <= i < jobs.len() && (#[trigger] jobs[i]).1 == o,
        forall|i: int|
            0 <= i < jobs.len() ==> tree_after(jobs, work)[(#[trigger] jobs[i]).1] == work(jobs[i].0),
    decreases jobs.len(),
{
    if jobs.len() > 0 {
        let prev = jobs.drop_last();
        assert(outputs_disjoint(prev)) by {
            assert forall|i: int, j: int|
                0 <= i < prev.len() && 0 <= j < prev.len() && i != j implies prev[i].1 != prev[j].1 by {
                assert(prev[i] == jobs[i] && prev[j] == jobs[j]);
            }
        }
        lemma_tree_after_contents(prev, work);
        let t = tree_after(jobs, work);
        assert(t == tree_after(prev, work).insert(jobs.last().1, work(jobs.last().0)));
        assert forall|o: Seq<char>|
            t.contains_key(o) <==> exists|i: int| 0 <= i < jobs.len() && (#[trigger] jobs[i]).1 == o by {
            if t.contains_key(o) {
                if o == jobs.last().1 {
                    assert(jobs[jobs.len() - 1].1 == o);
                } else {
                    assert(tree_after(prev, work).contains_key(o));
                    let i = choose|i: int| 0 <= i < prev.len() && (#[trigger] prev[i]).1 == o;
                    assert(jobs[i] == prev[i]);
                }
            }
            if exists|i: int| 0 <= i < jobs.len() && (#[trigger] jobs[i]).1 == o {
                let i = choose|i: int| 0 <= i < jobs.len() && (#[trigger] jobs[i]).1 == o;
                if i < jobs.len() - 1 {
                    assert(prev[i] == jobs[i]);
                }
            }
        }
        assert forall|i: int| 0 <= i < jobs.len() implies t[(#[trigger] jobs[i]).1] == work(jobs[i].0) by {
            if i < jobs.len() - 1 {
                assert(prev[i] == jobs[i]);
                assert(jobs[i].1 != jobs[jobs.len() - 1].1);
            }
        }
    }
}

/// Jobs with disjoint outputs leave the same tree in whatever order they
/// run: the same set of jobs processed in two orders gives the same files
/// with the same contents. Workers that interleave their disjoint writes
/// end where some sequential order ends, so parallel processing matches
/// sequential processing.
pub proof fn lemma_any_order_same_tree(
    a: Seq<(Seq<char>, Seq<char>)>,
    b: Seq<(Seq<char>, Seq<char>)>,
    work: spec_fn(Seq<char>) -> Seq<u8>,
)
    requires
        a.to_set() == b.to_set(),
        outputs_disjoint(a),
        outputs_disjoint(b),
    ensures
        tree_after(a, work) == tree_after(b, work),
{
    lemma_tree_after_contents(a, work);
    lemma_tree_after_contents(b, work);
    let ta = tree_after(a, work);
    let tb = tree_after(b, work);
    assert forall|o: Seq<char>| ta.contains_key(o) implies tb.contains_key(o) && ta[o] == tb[o] by {
        let i = choose|i: int| 0 <= i < a.len() && (#[trigger] a[i]).1 == o;
        assert(a.to_set().contains(a[i]));
        let j = choose|j: int| 0 <= j < b.len() && b[j] == a[i];
        assert(b[j].1 == o);
    }
    assert forall|o: Seq<char>| tb.contains_key(o) implies ta.contains_key(o) by {
        let j = choose|j: int| 0 <= j < b.len() && (#[trigger] b[j]).1 == o;
        assert(b.to_set().contains(b[j]));
        let i = choose|i: int| 0 <= i < a.len() && a[i] == b[j];
        assert(a[i].1 == o);
    }
    assert(ta =~= tb);
}

/// Archiving a directory: for two listings of the same files, each without
/// repeats, the planned jobs processed in either order (or by workers in any
/// interleaving) leave the same output tree.
pub proof fn lemma_archiving_order_independent(
    input_root: Seq<char>,
    output_root: Seq<char>,
    a: Seq<Seq<char>>,
    b: Seq<Seq<char>>,
    e: EncryptionType,
    c: CompressionType,
    work: spec_fn(Seq<char>) -> Seq<u8>,
)
    requires
        a.to_set() == b.to_set(),
        a.no_duplicates(),
        b.no_duplicates(),
    ensures
        tree_after(
            a.map_values(|r: Seq<char>| compress_job(input_root, output_root, r, e, c)),
            work,
        ) == tree_after(
            b.map_values(|r: Seq<char>| compress_job(input_root, output_root, r, e, c)),
            work,
        ),
{
    let f = |r: Seq<char>| compress_job(input_root, output_root, r, e, c);
    let ja = a.map_values(f);
    let jb = b.map_values(f);
    lemma_compress_jobs_order_independent(input_root, output_root, a, b, e, c);
    assert forall|i: int, j: int| 0 <= i < ja.len() && 0 <= j < ja.len() && i != j implies ja[i].1 != ja[j].1 by {
        lemma_compress_outputs_distinct(input_root, output_root, a[i], a[j], e, c);
    }
    assert forall|i: int, j: int| 0 <= i < jb.len() && 0 <= j < jb.len() && i != j implies jb[i].1 != jb[j].1 by {
        lemma_compress_outputs_distinct(input_root, output_root, b[i], b[j], e, c);
    }
    lemma_any_order_same_tree(ja, jb, work);
}

} // verus!
