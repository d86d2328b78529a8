use vstd::prelude::*;
use crate::algorithms::{CompressionType, EncryptionType, SigningType};
use crate::error::{CompressionError, PathRewriteError};

verus! {

/// A recognized suffix token: which family it belongs to and which variant it names.
#[derive(Clone, Copy, Debug, PartialEq, Eq, Structural)]
pub enum Tag {
    Encryption(EncryptionType),
    Compression(CompressionType),
}

/// The token recorded for an encryption variant; the identity has none.
pub open spec fn encryption_token(e: EncryptionType) -> Seq<char> {
    match e {
        EncryptionType::Passthrough => Seq::empty(),
        EncryptionType::XChaCha => seq!['x', 'c', 'h', 'a'],
        EncryptionType::AesGcm => seq!['a', 'e', 's'],
        EncryptionType::ChaCha => seq!['c', 'h', 'a'],
    }
}

/// The token recorded for a compression variant; the identity has none.
pub open spec fn compression_token(c: CompressionType) -> Seq<char> {
    match c {
        CompressionType::Passthrough => Seq::empty(),
        CompressionType::Lz4 => seq!['l', 'z', '4'],
        CompressionType::Gzip => seq!['g', 'z'],
        CompressionType::Snappy => seq!['s', 'z'],
    }
}

/// `.token` for a non-identity variant, nothing for the identity.
pub open spec fn dotted(token: Seq<char>) -> Seq<char> {
    if token.len() == 0 {
        Seq::empty()
    } else {
        seq!['.'] + token
    }
}

/// The suffix for an algorithm pair: encryption tag first, then compression tag.
pub open spec fn common_extension(e: EncryptionType, c: CompressionType) -> Seq<char> {
    dotted(encryption_token(e)) + dotted(compression_token(c))
}

/// The token of the archive container format.
pub open spec fn container_token() -> Seq<char> {
    seq!['z', 'a', 'p']
}

/// Which variant a token names, if any.
pub open spec fn classify(t: Seq<char>) -> Option<Tag> {
    if t == encryption_token(EncryptionType::XChaCha) {
        Some(Tag::Encryption(EncryptionType::XChaCha))
    } else if t == encryption_token(EncryptionType::AesGcm) {
        Some(Tag::Encryption(EncryptionType::AesGcm))
    } else if t == encryption_token(EncryptionType::ChaCha) {
        Some(Tag::Encryption(EncryptionType::ChaCha))
    } else if t == compression_token(CompressionType::Lz4) {
        Some(Tag::Compression(CompressionType::Lz4))
    } else if t == compression_token(CompressionType::Gzip) {
        Some(Tag::Compression(CompressionType::Gzip))
    } else if t == compression_token(CompressionType::Snappy) {
        Some(Tag::Compression(CompressionType::Snappy))
    } else {
        None
    }
}

/// Index of the last occurrence of `c` in `s`, or -1.
pub open spec fn last_index_of(s: Seq<char>, c: char) -> int
    decreases s.len(),
{
    if s.len() == 0 {
        -1
    } else if s.last() == c {
        s.len() - 1
    } else {
        last_index_of(s.drop_last(), c)
    }
}

pub proof fn lemma_last_index_of_bounds(s: Seq<char>, c: char)
    ensures
        -1 <= last_index_of(s, c) < s.len(),
        last_index_of(s, c) >= 0 ==> s[last_index_of(s, c)] == c,
        forall|j: int| last_index_of(s, c) < j < s.len() ==> s[j] != c,
    decreases s.len(),
{
    if s.len() > 0 && s.last() != c {
        lemma_last_index_of_bounds(s.drop_last(), c);
        assert forall|j: int| last_index_of(s, c) < j < s.len() implies s[j] != c by {
            if j < s.len() - 1 {
                assert(s[j] == s.drop_last()[j]);
            }
        }
    }
}

/// The final component of a path: what follows its last `/`.
pub open spec fn file_name_of(p: Seq<char>) -> Seq<char> {
    p.subrange(last_index_of(p, '/') + 1, p.len() as int)
}

/// Everything of a path up to and including its last `/`.
pub open spec fn parent_of(p: Seq<char>) -> Seq<char> {
    p.subrange(0, last_index_of(p, '/') + 1)
}

/// A path names a file when its final component is not empty.
pub open spec fn has_file_name(p: Seq<char>) -> bool {
    file_name_of(p).len() > 0
}

/// Decodes a file name: the dot-separated tokens after the first one are read
/// from the end while they are recognized tags; the scan stops at the first
/// token that is not. Of two tags of one family the one nearer the start counts.
/// The first token always stays in the name, also when it is empty (a name
/// that starts with a dot).
pub open spec fn decode_name(name: Seq<char>) -> (Seq<char>, EncryptionType, CompressionType)
    decreases name.len(),
{
    let k = last_index_of(name, '.');
    if !(0 < k < name.len()) {
        (name, EncryptionType::Passthrough, CompressionType::Passthrough)
    } else {
        match classify(name.subrange(k + 1, name.len() as int)) {
            Some(Tag::Encryption(e)) => {
                let inner = decode_name(name.subrange(0, k));
                (inner.0, if inner.1 == EncryptionType::Passthrough {
                    e
                } else {
                    inner.1
                }, inner.2)
            },
            Some(Tag::Compression(c)) => {
                let inner = decode_name(name.subrange(0, k));
                (inner.0, inner.1, if inner.2 == CompressionType::Passthrough {
                    c
                } else {
                    inner.2
                })
            },
            None => (name, EncryptionType::Passthrough, CompressionType::Passthrough),
        }
    }
}

/// The suffix that records the algorithm pair applied to a file.
pub fn build_common_extension(enc: &EncryptionType, comp: &CompressionType) -> (r: String)
    ensures
        r@ == common_extension(*enc, *comp),
{
    let mut ext = String::new();
    proof {
        reveal_strlit(".xcha");
        reveal_strlit(".aes");
        reveal_strlit(".cha");
        reveal_strlit(".lz4");
        reveal_strlit(".gz");
        reveal_strlit(".sz");
    }
    match enc {
        EncryptionType::Passthrough => {},
        EncryptionType::XChaCha => ext.append(".xcha"),
        EncryptionType::AesGcm => ext.append(".aes"),
        EncryptionType::ChaCha => ext.append(".cha"),
    }
    let ghost after_enc = ext@;
    match comp {
        CompressionType::Passthrough => {},
        CompressionType::Lz4 => ext.append(".lz4"),
        CompressionType::Gzip => ext.append(".gz"),
        CompressionType::Snappy => ext.append(".sz"),
    }
    assert(after_enc =~= dotted(encryption_token(*enc)));
    assert(ext@ =~= common_extension(*enc, *comp));
    ext
}

/// Position of the last `c` among the first `end` characters of `s`.
pub(crate) fn last_index_in(s: &str, c: char, end: usize) -> (r: Option<usize>)
    requires
        end <= s@.len(),
    ensures
        match r {
            Some(k) => k as int == last_index_of(s@.subrange(0, end as int), c),
            None => last_index_of(s@.subrange(0, end as int), c) == -1,
        },
{
    let mut i: usize = end;
    while i > 0
        invariant
            i <= end <= s@.len(),
            last_index_of(s@.subrange(0, end as int), c) == last_index_of(
                s@.subrange(0, i as int),
                c,
            ),
        decreases i,
    {
        let ghost pre = s@.subrange(0, i as int);
        assert(pre.drop_last() =~= s@.subrange(0, i - 1));
        if s.get_char(i - 1) == c {
            return Some(i - 1);
        }
        i = i - 1;
    }
    None
}

/// Whether the characters of `s` in `from..to` spell `lit`.
pub(crate) fn token_is(s: &str, from: usize, to: usize, lit: &str) -> (r: bool)
    requires
        from <= to <= s@.len(),
    ensures
        r == (s@.subrange(from as int, to as int) == lit@),
{
    let n = lit.unicode_len();
    if to - from != n {
        proof {
            assert(s@.subrange(from as int, to as int).len() != lit@.len());
        }
        return false;
    }
    let mut i: usize = 0;
    while i < n
        invariant
            from <= to <= s@.len(),
            to - from == n == lit@.len(),
            i <= n,
            forall|j: int| 0 <= j < i ==> s@[from + j] == lit@[j],
        decreases n - i,
    {
        if s.get_char(from + i) != lit.get_char(i) {
            proof {
                assert(s@.subrange(from as int, to as int)[i as int] != lit@[i as int]);
            }
            return false;
        }
        i = i + 1;
    }
    assert(s@.subrange(from as int, to as int) =~= lit@);
    true
}

/// Which variant the characters of `s` in `from..to` name, if any.
fn classify_token(s: &str, from: usize, to: usize) -> (r: Option<Tag>)
    requires
        from <= to <= s@.len(),
    ensures
        r == classify(s@.subrange(from as int, to as int)),
{
    proof {
        reveal_strlit("xcha");
        reveal_strlit("aes");
        reveal_strlit("cha");
        reveal_strlit("lz4");
        reveal_strlit("gz");
        reveal_strlit("sz");
        assert("xcha"@ =~= encryption_token(EncryptionType::XChaCha));
        assert("aes"@ =~= encryption_token(EncryptionType::AesGcm));
        assert("cha"@ =~= encryption_token(EncryptionType::ChaCha));
        assert("lz4"@ =~= compression_token(CompressionType::Lz4));
        assert("gz"@ =~= compression_token(CompressionType::Gzip));
        assert("sz"@ =~= compression_token(CompressionType::Snappy));
    }
    if token_is(s, from, to, "xcha") {
        Some(Tag::Encryption(EncryptionType::XChaCha))
    } else if token_is(s, from, to, "aes") {
        Some(Tag::Encryption(EncryptionType::AesGcm))
    } else if token_is(s, from, to, "cha") {
        Some(Tag::Encryption(EncryptionType::ChaCha))
    } else if token_is(s, from, to, "lz4") {
        Some(Tag::Compression(CompressionType::Lz4))
    } else if token_is(s, from, to, "gz") {
        Some(Tag::Compression(CompressionType::Gzip))
    } else if token_is(s, from, to, "sz") {
        Some(Tag::Compression(CompressionType::Snappy))
    } else {
        None
    }
}

/// Decodes the first `end` characters of a file name: the length of the
/// name that remains, and the algorithms its tags select.
pub(crate) fn decode_prefix(name: &str, end: usize) -> (r: (usize, EncryptionType, CompressionType))
    requires
        end <= name@.len(),
    ensures
        r.0 <= end,
        decode_name(name@.subrange(0, end as int)) == (name@.subrange(0, r.0 as int), r.1, r.2),
    decreases end,
{
    let ghost pre = name@.subrange(0, end as int);
    proof {
        lemma_last_index_of_bounds(pre, '.');
    }
    match last_index_in(name, '.', end) {
        None => (end, EncryptionType::Passthrough, CompressionType::Passthrough),
        Some(0) => (end, EncryptionType::Passthrough, CompressionType::Passthrough),
        Some(k) => {
            assert(pre.subrange(k + 1, end as int) =~= name@.subrange(k + 1, end as int));
            assert(pre.subrange(0, k as int) =~= name@.subrange(0, k as int));
            match classify_token(name, k + 1, end) {
                Some(Tag::Encryption(e)) => {
                    let inner = decode_prefix(name, k);
                    let chosen = match inner.1 {
                        EncryptionType::Passthrough => e,
                        earlier => earlier,
                    };
                    (inner.0, chosen, inner.2)
                },
                Some(Tag::Compression(c)) => {
                    let inner = decode_prefix(name, k);
                    let chosen = match inner.2 {
                        CompressionType::Passthrough => c,
                        earlier => earlier,
                    };
                    (inner.0, inner.1, chosen)
                },
                None => (end, EncryptionType::Passthrough, CompressionType::Passthrough),
            }
        },
    }
}

/// The path with its tags removed from the final component.
pub open spec fn decoded_path(p: Seq<char>) -> Seq<char> {
    parent_of(p) + decode_name(file_name_of(p)).0
}

/// Where the final component of `path` starts; `None` when it is empty.
pub(crate) fn file_name_start(path: &str) -> (r: Option<usize>)
    ensures
        match r {
            Some(i) => has_file_name(path@) && i as int == last_index_of(path@, '/') + 1,
            None => !has_file_name(path@),
        },
{
    let n = path.unicode_len();
    proof {
        lemma_last_index_of_bounds(path@, '/');
        assert(path@.subrange(0, n as int) =~= path@);
    }
    match last_index_in(path, '/', n) {
        Some(k) => if k + 1 == n {
            None
        } else {
            Some(k + 1)
        },
        None => if n == 0 {
            None
        } else {
            Some(0)
        },
    }
}

/// Appends the algorithm suffix to a relative file path, so that it extends
/// the final extension (or becomes the extension when there is none).
pub fn rewrite_ext(path: &str, extension: &str) -> (r: Result<String, PathRewriteError>)
    ensures
        has_file_name(path@) ==> (r matches Ok(out) && out@ == path@ + extension@),
        !has_file_name(path@) ==> (r matches Err(PathRewriteError::FileNameError(p)) && p@
            == path@),
{
    match file_name_start(path) {
        None => Err(PathRewriteError::FileNameError(String::from_str(path))),
        Some(_) => Ok(String::from_str(path).concat(extension)),
    }
}

/// Splits `path` at its final component and decodes that component.
fn decode_path(path: &str) -> (r: Option<(String, EncryptionType, CompressionType)>)
    ensures
        has_file_name(path@) ==> (r matches Some(d) && d.0@ == decoded_path(path@) && d.1
            == decode_name(file_name_of(path@)).1 && d.2 == decode_name(file_name_of(path@)).2),
        !has_file_name(path@) ==> r is None,
{
    match file_name_start(path) {
        None => None,
        Some(start) => {
            let n = path.unicode_len();
            proof {
                lemma_last_index_of_bounds(path@, '/');
            }
            let parent = path.substring_char(0, start);
            let name = path.substring_char(start, n);
            let m = name.unicode_len();
            assert(name@.subrange(0, m as int) =~= name@);
            let (keep, e, c) = decode_prefix(name, m);
            let base = name.substring_char(0, keep);
            Some((String::from_str(parent).concat(base), e, c))
        },
    }
}

/// The path of an archived file with its algorithm tags removed.
pub fn clear_ext(path: &str) -> (r: Result<String, PathRewriteError>)
    ensures
        has_file_name(path@) ==> (r matches Ok(out) && out@ == decoded_path(path@)),
        !has_file_name(path@) ==> (r matches Err(PathRewriteError::FileNameError(p)) && p@
            == path@),
{
    match decode_path(path) {
        Some(d) => Ok(d.0),
        None => Err(PathRewriteError::FileNameError(String::from_str(path))),
    }
}

/// The algorithms that the tags of an archived file's name select.
pub fn get_types_from_extensions(path: &str) -> (r: Result<
    (EncryptionType, CompressionType),
    CompressionError,
>)
    ensures
        has_file_name(path@) ==> r == Ok::<_, CompressionError>(
            (decode_name(file_name_of(path@)).1, decode_name(file_name_of(path@)).2),
        ),
        !has_file_name(path@) ==> (r matches Err(
            CompressionError::PathRewriteError(PathRewriteError::FileNameError(p)),
        ) && p@ == path@),
{
    match decode_path(path) {
        Some(d) => Ok((d.1, d.2)),
        None => Err(
            CompressionError::PathRewriteError(
                PathRewriteError::FileNameError(String::from_str(path)),
            ),
        ),
    }
}

/// Whether the last dot-separated token of a name (other than its first) is a tag.
pub open spec fn ends_in_tag(name: Seq<char>) -> bool {
    let k = last_index_of(name, '.');
    0 < k < name.len() && classify(name.subrange(k + 1, name.len() as int)) is Some
}

pub(crate) proof fn lemma_last_index_of_append(s: Seq<char>, t: Seq<char>, c: char)
    requires
        !t.contains(c),
    ensures
        last_index_of(s + t, c) == last_index_of(s, c),
    decreases t.len(),
{
    if t.len() == 0 {
        assert(s + t =~= s);
    } else {
        assert((s + t).drop_last() =~= s + t.drop_last());
        assert(t.last() == t[t.len() - 1]);
        assert(!t.drop_last().contains(c)) by {
            if t.drop_last().contains(c) {
                let j = choose|j: int| 0 <= j < t.drop_last().len() && t.drop_last()[j] == c;
                assert(t[j] == c);
            }
        }
        lemma_last_index_of_append(s, t.drop_last(), c);
    }
}

pub(crate) proof fn lemma_tokens_plain(e: EncryptionType, c: CompressionType)
    ensures
        !encryption_token(e).contains('.'),
        !compression_token(c).contains('.'),
        !encryption_token(e).contains('/'),
        !compression_token(c).contains('/'),
        !common_extension(e, c).contains('/'),
        e != EncryptionType::Passthrough ==> encryption_token(e).len() > 0,
        c != CompressionType::Passthrough ==> compression_token(c).len() > 0,
        classify(encryption_token(e)) == (if e == EncryptionType::Passthrough {
            None
        } else {
            Some(Tag::Encryption(e))
        }),
        classify(compression_token(c)) == (if c == CompressionType::Passthrough {
            None
        } else {
            Some(Tag::Compression(c))
        }),
{
    let et = encryption_token(e);
    let ct = compression_token(c);
    assert(!et.contains('.') && !et.contains('/')) by {
        if et.contains('.') || et.contains('/') {
            let j = choose|j: int| 0 <= j < et.len() && (et[j] == '.' || et[j] == '/');
        }
    }
    assert(!ct.contains('.') && !ct.contains('/')) by {
        if ct.contains('.') || ct.contains('/') {
            let j = choose|j: int| 0 <= j < ct.len() && (ct[j] == '.' || ct[j] == '/');
        }
    }
    let x = common_extension(e, c);
    assert(!x.contains('/')) by {
        if x.contains('/') {
            let j = choose|j: int| 0 <= j < x.len() && x[j] == '/';
            let de = dotted(et);
            if j < de.len() {
                if et.len() > 0 {
                    assert(et[j - 1] == '/');
                }
            } else {
                if ct.len() > 0 {
                    assert(ct[j - de.len() - 1] == '/');
                }
            }
        }
    }
    assert(seq!['x', 'c', 'h', 'a'] != seq!['c', 'h', 'a']);
    assert(seq!['s', 'z'] != seq!['g', 'z']);
    assert(seq!['l', 'z', '4'][0] != seq!['a', 'e', 's'][0]);
    assert(seq!['l', 'z', '4'][0] != seq!['c', 'h', 'a'][0]);
}

/// Appending `.token` for a token without dots puts a tag at the end that
/// decoding strips again.
pub(crate) proof fn lemma_decode_one(prefix: Seq<char>, token: Seq<char>)
    requires
        prefix.len() > 0,
        token.len() > 0,
        !token.contains('.'),
    ensures
        ({
            let name = prefix + dotted(token);
            let k = last_index_of(name, '.');
            &&& k == prefix.len()
            &&& name.subrange(k + 1, name.len() as int) == token
            &&& name.subrange(0, k) == prefix
        }),
{
    let name = prefix + dotted(token);
    assert(name =~= (prefix + seq!['.']) + token);
    lemma_last_index_of_append(prefix + seq!['.'], token, '.');
    assert((prefix + seq!['.']).last() == '.');
    assert(name.subrange(prefix.len() + 1 as int, name.len() as int) =~= token);
    assert(name.subrange(0, prefix.len() as int) =~= prefix);
}

proof fn lemma_decode_untagged(name: Seq<char>)
    requires
        !ends_in_tag(name),
    ensures
        decode_name(name) == (name, EncryptionType::Passthrough, CompressionType::Passthrough),
{
}

pub(crate) proof fn lemma_decode_suffixes(name: Seq<char>, e: EncryptionType, c: CompressionType)
    requires
        name.len() > 0,
        !ends_in_tag(name),
    ensures
        decode_name(name + common_extension(e, c)) == (name, e, c),
        decode_name(name + dotted(compression_token(c)) + dotted(encryption_token(e))) == (
            name,
            e,
            c,
        ),
{
    lemma_tokens_plain(e, c);
    let et = encryption_token(e);
    let ct = compression_token(c);
    lemma_decode_untagged(name);
    let with_e = name + dotted(et);
    if e != EncryptionType::Passthrough {
        lemma_decode_one(name, et);
    } else {
        assert(with_e =~= name);
    }
    assert(decode_name(with_e) == (name, e, CompressionType::Passthrough));
    let full = with_e + dotted(ct);
    assert(full =~= name + common_extension(e, c));
    if c != CompressionType::Passthrough {
        lemma_decode_one(with_e, ct);
    } else {
        assert(full =~= with_e);
    }
    let with_c = name + dotted(ct);
    if c != CompressionType::Passthrough {
        lemma_decode_one(name, ct);
    } else {
        assert(with_c =~= name);
    }
    assert(decode_name(with_c) == (name, EncryptionType::Passthrough, c));
    let rev = with_c + dotted(et);
    if e != EncryptionType::Passthrough {
        lemma_decode_one(with_c, et);
    } else {
        assert(rev =~= with_c);
    }
}

pub(crate) proof fn lemma_split_extended(p: Seq<char>, x: Seq<char>)
    requires
        has_file_name(p),
        !x.contains('/'),
    ensures
        parent_of(p + x) == parent_of(p),
        file_name_of(p + x) == file_name_of(p) + x,
{
    lemma_last_index_of_append(p, x, '/');
    lemma_last_index_of_bounds(p, '/');
    let k = last_index_of(p, '/');
    assert((p + x).subrange(0, k + 1) =~= p.subrange(0, k + 1));
    assert((p + x).subrange(k + 1, (p + x).len() as int) =~= p.subrange(k + 1, p.len() as int)
        + x);
}

/// Encoding then decoding a path gives back the path and the algorithm pair,
/// for every file whose name does not already end in a tag.
pub proof fn lemma_extension_round_trip(p: Seq<char>, e: EncryptionType, c: CompressionType)
    requires
        has_file_name(p),
        !ends_in_tag(file_name_of(p)),
    ensures
        has_file_name(p + common_extension(e, c)),
        decoded_path(p + common_extension(e, c)) == p,
        decode_name(file_name_of(p + common_extension(e, c))).1 == e,
        decode_name(file_name_of(p + common_extension(e, c))).2 == c,
{
    let x = common_extension(e, c);
    lemma_tokens_plain(e, c);
    lemma_split_extended(p, x);
    lemma_decode_suffixes(file_name_of(p), e, c);
    lemma_last_index_of_bounds(p, '/');
    assert(p =~= parent_of(p) + file_name_of(p));
}

/// The order of the recognized tags at the end of a name does not matter:
/// encryption before compression and compression before encryption decode alike.
pub proof fn lemma_tag_order_irrelevant(name: Seq<char>, e: EncryptionType, c: CompressionType)
    requires
        name.len() > 0,
        !ends_in_tag(name),
    ensures
        decode_name(name + dotted(encryption_token(e)) + dotted(compression_token(c)))
            == decode_name(name + dotted(compression_token(c)) + dotted(encryption_token(e))),
        decode_name(name + dotted(encryption_token(e)) + dotted(compression_token(c))) == (
            name,
            e,
            c,
        ),
{
    lemma_decode_suffixes(name, e, c);
    assert(name + dotted(encryption_token(e)) + dotted(compression_token(c)) =~= name
        + common_extension(e, c));
}

/// Scanning stops at the first token from the end that is not a tag: every
/// token before it stays in the name, recognized or not.
pub proof fn lemma_scan_stops_at_unrecognized(
    head: Seq<char>,
    word: Seq<char>,
    e: EncryptionType,
    c: CompressionType,
)
    requires
        head.len() > 0,
        word.len() > 0,
        !word.contains('.'),
        classify(word) is None,
    ensures
        decode_name(head + dotted(word) + common_extension(e, c)) == (head + dotted(word), e, c),
{
    lemma_decode_one(head, word);
    lemma_decode_suffixes(head + dotted(word), e, c);
}

/// The algorithms assumed for a file before its suffix is read: every layer the identity.
pub fn parse_extensions() -> (r: (EncryptionType, CompressionType, SigningType))
    ensures
        r == (EncryptionType::Passthrough, CompressionType::Passthrough, SigningType::Passthrough),
{
    (EncryptionType::Passthrough, CompressionType::Passthrough, SigningType::Passthrough)
}

} // verus!
