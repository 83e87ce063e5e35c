//! MCP resource URI helpers for Codex projects and threads.
use vstd::prelude::*;
use vstd::utf8::*;

use crate::codec::{
    base64_url_decode, base64_url_encode, base64_url_nopad, is_url_safe_base64_char,
    lemma_base64_url_nopad, lemma_base64_url_nopad_injective, string_from_utf8,
    unpadded_base64_len,
};
use crate::text::{
    chars_of, has_prefix, is_whitespace, owned, string_from_range, trim, trim_end_char,
    trim_end_char_seq, trim_end_seq, trim_seq, trim_start_seq,
};

verus! {

pub const PROJECT_SCHEME: &'static str = "project://";

pub const THREAD_SCHEME: &'static str = "thread://";

/// How many bytes of the cwd hash a project id keeps.
pub const PROJECT_ID_BYTES: usize = 6;

/// `project://{project_id}`.
pub open spec fn spec_project_uri(project_id: Seq<char>) -> Seq<char> {
    PROJECT_SCHEME@ + project_id
}

/// `thread://{project_id}/{thread_id}`.
pub open spec fn spec_thread_uri(project_id: Seq<char>, thread_id: Seq<char>) -> Seq<char> {
    THREAD_SCHEME@ + project_id + seq!['/'] + thread_id
}

/// The resource URI of a project.
pub fn project_uri(project_id: &str) -> (uri: String)
    ensures
        uri@ == spec_project_uri(project_id@),
{
    let mut uri = owned(PROJECT_SCHEME);
    uri.append(project_id);
    uri
}

/// The resource URI of a thread within a project.
pub fn thread_uri(project_id: &str, thread_id: &str) -> (uri: String)
    ensures
        uri@ == spec_thread_uri(project_id@, thread_id@),
{
    let mut uri = owned(THREAD_SCHEME);
    uri.append(project_id);
    uri.append("/");
    uri.append(thread_id);
    proof {
        reveal_strlit("/");
    }
    uri
}

/// The cwd a project id is derived from: trimmed, and, when longer than one character,
/// without its trailing slashes.
pub open spec fn spec_normalize_cwd(cwd: Seq<char>) -> Seq<char> {
    let t = trim_seq(cwd);
    if t.len() > 1 && t.last() == '/' {
        trim_end_char_seq(t, '/')
    } else {
        t
    }
}

/// Normalises a working directory before it is hashed.
pub fn normalize_cwd(cwd: &str) -> (r: String)
    ensures
        r@ == spec_normalize_cwd(cwd@),
{
    let trimmed = trim(cwd);
    let cs = chars_of(trimmed.as_str());
    if cs.len() > 1 && cs[cs.len() - 1] == '/' {
        trim_end_char(&cs, '/')
    } else {
        string_from_range(&cs, 0, cs.len())
    }
}

pub const FNV_OFFSET: u64 = 0xcbf29ce484222325;

pub const FNV_PRIME: u64 = 0x100000001b3;

/// The 64-bit FNV-1a hash of `data`.
pub open spec fn spec_fnv1a64(data: Seq<u8>) -> u64
    decreases data.len(),
{
    if data.len() == 0 {
        FNV_OFFSET
    } else {
        (spec_fnv1a64(data.drop_last()) ^ (data.last() as u64)).wrapping_mul(FNV_PRIME)
    }
}

/// FNV-1a over `data`.
pub fn fnv1a64(data: &[u8]) -> (hash: u64)
    ensures
        hash == spec_fnv1a64(data@),
{
    let mut hash = FNV_OFFSET;
    let mut i: usize = 0;
    while i < data.len()
        invariant
            i <= data@.len(),
            hash == spec_fnv1a64(data@.take(i as int)),
        decreases data@.len() - i,
    {
        assert(data@.take(i + 1).drop_last() =~= data@.take(i as int));
        hash = (hash ^ (data[i] as u64)).wrapping_mul(FNV_PRIME);
        i = i + 1;
    }
    assert(data@.take(data@.len() as int) =~= data@);
    hash
}

/// The first `n` bytes of the little-endian representation of `h` (`u64::to_le_bytes`).
pub open spec fn le_bytes(h: u64, n: nat) -> Seq<u8> {
    Seq::new(n, |i: int| (h >> ((8 * i) as u64)) as u8)
}

fn le_prefix(h: u64, n: usize) -> (v: Vec<u8>)
    requires
        n <= 8,
    ensures
        v@ == le_bytes(h, n as nat),
{
    let mut v: Vec<u8> = Vec::new();
    let mut i: usize = 0;
    while i < n
        invariant
            i <= n <= 8,
            v@ == le_bytes(h, i as nat),
        decreases n - i,
    {
        let shift: u64 = (8 * i) as u64;
        v.push((h >> shift) as u8);
        assert(v@ =~= le_bytes(h, (i + 1) as nat));
        i = i + 1;
    }
    v
}

/// The project id of a working directory: the first six little-endian bytes of the
/// FNV-1a hash of its normalised UTF-8 text, in unpadded URL-safe base64.
pub open spec fn spec_encode_project_id(cwd: Seq<char>) -> Seq<char> {
    base64_url_nopad(
        le_bytes(spec_fnv1a64(encode_utf8(spec_normalize_cwd(cwd))), PROJECT_ID_BYTES as nat),
    )
}

/// Short stable project id for a working directory.
pub fn encode_project_id(cwd: &str) -> (id: String)
    ensures
        id@ == spec_encode_project_id(cwd@),
        id@.len() == 8,
        forall|i: int| 0 <= i < id@.len() ==> is_url_safe_base64_char(#[trigger] id@[i]),
        encode_utf8(id@).len() == 8,
{
    let normalized = normalize_cwd(cwd);
    let hash = fnv1a64(normalized.as_str().as_bytes());
    let bytes = le_prefix(hash, PROJECT_ID_BYTES);
    let id = base64_url_encode(bytes.as_slice());
    proof {
        lemma_base64_url_nopad(bytes@);
        assert(unpadded_base64_len(6) == 8);
        is_ascii_chars_encode_utf8(id@);
    }
    id
}

/// Whether `d` reads as a path: it starts with `/` or `.`.
pub open spec fn looks_like_path(d: Seq<char>) -> bool {
    d.len() > 0 && (d[0] == '/' || d[0] == '.')
}

/// `id` is the legacy long form of the project id of `cwd`: the unpadded URL-safe base64
/// of the cwd's UTF-8 bytes.
pub open spec fn is_legacy_project_id(id: Seq<char>, cwd: Seq<char>) -> bool {
    base64_url_nopad(encode_utf8(cwd)) == id
}

/// The cwd a legacy long project id encodes: `None` for ids of at most 12 bytes and for
/// ids that encode no path.
pub open spec fn spec_decode_project_id(id: Seq<char>) -> Option<Seq<char>> {
    if encode_utf8(id).len() > 12 && exists|d: Seq<char>| is_legacy_project_id(id, d) && looks_like_path(d) {
        Some(choose|d: Seq<char>| is_legacy_project_id(id, d) && looks_like_path(d))
    } else {
        None
    }
}

/// A short project id (eight ASCII characters) is never read as a legacy long id.
pub proof fn law_short_ids_are_not_decoded(id: Seq<char>)
    requires
        encode_utf8(id).len() == 8,
    ensures
        spec_decode_project_id(id) is None,
{
}

/// The legacy long id of a path of at least ten bytes reads back as that path.
pub proof fn law_legacy_id_round_trip(cwd: Seq<char>)
    requires
        encode_utf8(cwd).len() >= 10,
        looks_like_path(cwd),
    ensures
        spec_decode_project_id(base64_url_nopad(encode_utf8(cwd))) == Some(cwd),
{
    let id = base64_url_nopad(encode_utf8(cwd));
    lemma_base64_url_nopad(encode_utf8(cwd));
    is_ascii_chars_encode_utf8(id);
    assert(encode_utf8(id).len() > 12);
    assert(is_legacy_project_id(id, cwd));
    let d = choose|d: Seq<char>| is_legacy_project_id(id, d) && looks_like_path(d);
    lemma_base64_url_nopad_injective(encode_utf8(d), encode_utf8(cwd));
    encode_utf8_decode_utf8(d);
    encode_utf8_decode_utf8(cwd);
}

/// Recovers the cwd from a legacy long project id. Ids of at most 12 bytes are short ids
/// and give `None`; so does any id that is not the encoding of a path.
pub fn decode_project_id(project_id: &str) -> (r: Option<String>)
    ensures
        encode_utf8(project_id@).len() <= 12 ==> r is None,
        r matches Some(d) ==> is_legacy_project_id(project_id@, d@) && looks_like_path(d@),
        forall|d: Seq<char>|
            encode_utf8(project_id@).len() > 12 && #[trigger] is_legacy_project_id(
                project_id@,
                d,
            ) && looks_like_path(d) ==> (r matches Some(s) && s@ == d),
        match r {
            Some(s) => spec_decode_project_id(project_id@) == Some(s@),
            None => spec_decode_project_id(project_id@) is None,
        },
{
    if project_id.as_bytes().len() <= 12 {
        return None;
    }
    let bytes = match base64_url_decode(project_id) {
        Some(b) => b,
        None => return None,
    };
    let ghost raw = bytes@;
    let decoded = match string_from_utf8(bytes) {
        Some(s) => s,
        None => {
            proof {
                assert forall|d: Seq<char>| #[trigger]
                    is_legacy_project_id(project_id@, d) implies false by {
                    encode_utf8_valid_utf8(d);
                }
            }
            return None;
        },
    };
    proof {
        decode_utf8_encode_utf8(raw);
        assert forall|d: Seq<char>| #[trigger]
            is_legacy_project_id(project_id@, d) implies d == decoded@ by {
            encode_utf8_decode_utf8(d);
        }
    }
    let cs = chars_of(decoded.as_str());
    if cs.len() > 0 && (cs[0] == '/' || cs[0] == '.') {
        Some(decoded)
    } else {
        None
    }
}

proof fn lemma_trim_start_push(s: Seq<char>, c: char)
    requires
        !is_whitespace(c),
    ensures
        trim_start_seq(s.push(c)) == trim_start_seq(s).push(c),
    decreases s.len(),
{
    if s.len() > 0 {
        assert(s.push(c)[0] == s[0]);
        assert(s.push(c).drop_first() =~= s.drop_first().push(c));
        lemma_trim_start_push(s.drop_first(), c);
    } else {
        assert(s.push(c) =~= seq![c]);
        assert(seq![c].drop_first() =~= Seq::<char>::empty());
    }
}

proof fn lemma_trim_start_keeps_last(s: Seq<char>)
    requires
        s.len() > 0,
        !is_whitespace(s.last()),
    ensures
        trim_start_seq(s).len() > 0,
        trim_start_seq(s).last() == s.last(),
        trim_end_seq(trim_start_seq(s)) == trim_start_seq(s),
    decreases s.len(),
{
    if is_whitespace(s[0]) {
        assert(s.len() > 1);
        assert(s.drop_first().last() == s.last());
        lemma_trim_start_keeps_last(s.drop_first());
    }
}

/// A working directory written with one more trailing `/` has the same project id, as
/// long as it has no trailing whitespace and is, once trimmed, neither empty nor `/`.
pub proof fn law_project_id_ignores_trailing_slash(cwd: Seq<char>)
    requires
        trim_seq(cwd).len() > 0,
        trim_seq(cwd) != seq!['/'],
        !is_whitespace(cwd.last()),
    ensures
        spec_normalize_cwd(cwd.push('/')) == spec_normalize_cwd(cwd),
        spec_encode_project_id(cwd.push('/')) == spec_encode_project_id(cwd),
{
    assert(cwd.len() > 0);
    assert(!is_whitespace('/'));
    lemma_trim_start_push(cwd, '/');
    lemma_trim_start_keeps_last(cwd);
    let u = trim_start_seq(cwd);
    assert(trim_seq(cwd) == u);
    assert(trim_end_seq(u.push('/')) == u.push('/'));
    assert(trim_seq(cwd.push('/')) == u.push('/'));
    assert(u.push('/').drop_last() =~= u);
    assert(trim_end_char_seq(u.push('/'), '/') == trim_end_char_seq(u, '/'));
    if u.last() != '/' {
        assert(trim_end_char_seq(u, '/') == u);
    } else {
        assert(u.len() > 1) by {
            if u.len() == 1 {
                assert(u =~= seq!['/']);
            }
        }
    }
}

/// `k` slashes.
pub open spec fn slashes(k: nat) -> Seq<char> {
    Seq::new(k, |i: int| '/')
}

proof fn lemma_trim_start_len(s: Seq<char>)
    ensures
        trim_start_seq(s).len() <= s.len(),
        s.len() > 0 && is_whitespace(s[0]) ==> trim_start_seq(s).len() < s.len(),
    decreases s.len(),
{
    if s.len() > 0 && is_whitespace(s[0]) {
        lemma_trim_start_len(s.drop_first());
    }
}

proof fn lemma_trim_end_len(s: Seq<char>)
    ensures
        trim_end_seq(s).len() <= s.len(),
        s.len() > 0 && is_whitespace(s.last()) ==> trim_end_seq(s).len() < s.len(),
    decreases s.len(),
{
    if s.len() > 0 && is_whitespace(s.last()) {
        lemma_trim_end_len(s.drop_last());
    }
}

proof fn lemma_trim_start_whitespace_prefix(lead: Seq<char>, s: Seq<char>)
    requires
        forall|i: int| 0 <= i < lead.len() ==> is_whitespace(#[trigger] lead[i]),
        s.len() > 0,
        !is_whitespace(s[0]),
    ensures
        trim_start_seq(lead + s) == s,
    decreases lead.len(),
{
    if lead.len() == 0 {
        assert(lead + s =~= s);
    } else {
        assert((lead + s)[0] == lead[0]);
        assert((lead + s).drop_first() =~= lead.drop_first() + s);
        lemma_trim_start_whitespace_prefix(lead.drop_first(), s);
    }
}

proof fn lemma_trim_end_whitespace_suffix(s: Seq<char>, trail: Seq<char>)
    requires
        forall|i: int| 0 <= i < trail.len() ==> is_whitespace(#[trigger] trail[i]),
        s.len() > 0,
        !is_whitespace(s.last()),
    ensures
        trim_end_seq(s + trail) == s,
    decreases trail.len(),
{
    if trail.len() == 0 {
        assert(s + trail =~= s);
    } else {
        assert((s + trail).last() == trail.last());
        assert((s + trail).drop_last() =~= s + trail.drop_last());
        lemma_trim_end_whitespace_suffix(s, trail.drop_last());
    }
}

proof fn lemma_trim_end_slashes(s: Seq<char>, k: nat)
    ensures
        trim_end_char_seq(s + slashes(k), '/') == trim_end_char_seq(s, '/'),
    decreases k,
{
    if k == 0 {
        assert(s + slashes(k) =~= s);
    } else {
        assert((s + slashes(k)).last() == '/');
        assert((s + slashes(k)).drop_last() =~= s + slashes((k - 1) as nat));
        lemma_trim_end_slashes(s, (k - 1) as nat);
    }
}

/// A working directory has the same project id whatever whitespace surrounds it and
/// however many trailing slashes it carries, as long as it is trimmed and holds some
/// character other than `/`.
pub proof fn law_project_id_ignores_padding(cwd: Seq<char>, lead: Seq<char>, trail: Seq<char>, k: nat)
    requires
        trim_seq(cwd) == cwd,
        exists|i: int| 0 <= i < cwd.len() && cwd[i] != '/',
        forall|i: int| 0 <= i < lead.len() ==> is_whitespace(#[trigger] lead[i]),
        forall|i: int| 0 <= i < trail.len() ==> is_whitespace(#[trigger] trail[i]),
    ensures
        spec_normalize_cwd(lead + cwd + slashes(k) + trail) == spec_normalize_cwd(cwd),
        spec_encode_project_id(lead + cwd + slashes(k) + trail) == spec_encode_project_id(cwd),
{
    let x = lead + cwd + slashes(k) + trail;
    let u = cwd + slashes(k);
    lemma_trim_start_len(cwd);
    lemma_trim_end_len(trim_start_seq(cwd));
    assert(cwd.len() > 0);
    assert(trim_start_seq(cwd) == cwd);
    assert(!is_whitespace(cwd[0]));
    assert(!is_whitespace(cwd.last()));
    assert(!is_whitespace('/'));
    assert(u.len() > 0 && u[0] == cwd[0]);
    assert(!is_whitespace(u.last())) by {
        if k > 0 {
            assert(u.last() == '/');
        } else {
            assert(u.last() == cwd.last());
        }
    }
    assert(x =~= lead + (u + trail));
    assert((u + trail)[0] == u[0]);
    lemma_trim_start_whitespace_prefix(lead, u + trail);
    lemma_trim_end_whitespace_suffix(u, trail);
    assert(trim_seq(x) == u);
    lemma_trim_end_slashes(cwd, k);
    if cwd.last() == '/' && cwd.len() == 1 {
        let i = choose|i: int| 0 <= i < cwd.len() && cwd[i] != '/';
        assert(false);
    }
    if cwd.last() != '/' {
        assert(trim_end_char_seq(cwd, '/') == cwd);
    }
    if k == 0 {
        assert(u =~= cwd);
    } else {
        assert(u.last() == '/');
    }
}

/// Parsing the URI of a project gives back the project id.
pub proof fn law_parse_project_uri(project_id: Seq<char>)
    ensures
        spec_parse_resource_uri(spec_project_uri(project_id)) == ResourceKindView::Project(
            project_id,
        ),
{
    let uri = spec_project_uri(project_id);
    assert(uri.subrange(0, PROJECT_SCHEME@.len() as int) =~= PROJECT_SCHEME@);
    assert(uri.skip(PROJECT_SCHEME@.len() as int) =~= project_id);
}

/// Parsing the URI of a thread gives back its project and thread ids, when both are
/// non-empty and the project id holds no `/`.
pub proof fn law_parse_thread_uri(project_id: Seq<char>, thread_id: Seq<char>)
    requires
        project_id.len() > 0,
        thread_id.len() > 0,
        !project_id.contains('/'),
    ensures
        spec_parse_resource_uri(spec_thread_uri(project_id, thread_id))
            == (ResourceKindView::Thread { project_id, thread_id }),
{
    reveal_strlit("project://");
    reveal_strlit("thread://");
    let uri = spec_thread_uri(project_id, thread_id);
    assert(uri[0] == 't');
    assert(!PROJECT_SCHEME@.is_prefix_of(uri)) by {
        assert(PROJECT_SCHEME@[0] == 'p');
        if PROJECT_SCHEME@.is_prefix_of(uri) {
            assert(uri.subrange(0, PROJECT_SCHEME@.len() as int)[0] == uri[0]);
        }
    }
    assert(uri.subrange(0, THREAD_SCHEME@.len() as int) =~= THREAD_SCHEME@);
    let rest = uri.skip(THREAD_SCHEME@.len() as int);
    assert(rest =~= project_id + seq!['/'] + thread_id);
    let k = project_id.len() as int;
    assert(rest[k] == '/');
    rest.index_of_first_ensures('/');
    let f = rest.index_of_first('/').unwrap();
    assert(f == k) by {
        if f < k {
            assert(rest[f] == project_id[f]);
        }
    }
    assert(rest.take(k) =~= project_id);
    assert(rest.skip(k + 1) =~= thread_id);
}

/// A resource a URI names.
#[derive(Debug, PartialEq, Eq)]
pub enum ResourceKind {
    Project(String),
    Thread { project_id: String, thread_id: String },
    Unknown,
}

/// `ResourceKind` over character sequences.
pub enum ResourceKindView {
    Project(Seq<char>),
    Thread { project_id: Seq<char>, thread_id: Seq<char> },
    Unknown,
}

impl View for ResourceKind {
    type V = ResourceKindView;

    open spec fn view(&self) -> ResourceKindView {
        match self {
            ResourceKind::Project(id) => ResourceKindView::Project(id@),
            ResourceKind::Thread { project_id, thread_id } => ResourceKindView::Thread {
                project_id: project_id@,
                thread_id: thread_id@,
            },
            ResourceKind::Unknown => ResourceKindView::Unknown,
        }
    }
}

/// What a resource URI names: `project://{id}` (any id, even empty), or
/// `thread://{project}/{thread}` split at the first `/` after the scheme with both parts
/// non-empty; anything else is unknown.
pub open spec fn spec_parse_resource_uri(uri: Seq<char>) -> ResourceKindView {
    if PROJECT_SCHEME@.is_prefix_of(uri) {
        ResourceKindView::Project(uri.skip(PROJECT_SCHEME@.len() as int))
    } else if THREAD_SCHEME@.is_prefix_of(uri) {
        let rest = uri.skip(THREAD_SCHEME@.len() as int);
        match rest.index_of_first('/') {
            Some(i) => if 0 < i && i + 1 < rest.len() {
                ResourceKindView::Thread { project_id: rest.take(i), thread_id: rest.skip(i + 1) }
            } else {
                ResourceKindView::Unknown
            },
            None => ResourceKindView::Unknown,
        }
    } else {
        ResourceKindView::Unknown
    }
}

/// Classifies a resource URI.
pub fn parse_resource_uri(uri: &str) -> (kind: ResourceKind)
    ensures
        kind@ == spec_parse_resource_uri(uri@),
{
    let cs = chars_of(uri);
    let project_scheme = chars_of(PROJECT_SCHEME);
    if has_prefix(&cs, PROJECT_SCHEME) {
        let id = string_from_range(&cs, project_scheme.len(), cs.len());
        assert(id@ =~= uri@.skip(PROJECT_SCHEME@.len() as int));
        return ResourceKind::Project(id);
    }
    let thread_scheme = chars_of(THREAD_SCHEME);
    if has_prefix(&cs, THREAD_SCHEME) {
        let start = thread_scheme.len();
        let ghost rest = uri@.skip(start as int);
        let mut i = start;
        while i < cs.len() && cs[i] != '/'
            invariant
                cs@ == uri@,
                start <= i <= cs@.len(),
                rest == uri@.skip(start as int),
                forall|j: int| start <= j < i ==> cs@[j] != '/',
            decreases cs@.len() - i,
        {
            i = i + 1;
        }
        proof {
            rest.index_of_first_ensures('/');
        }
        if i < cs.len() {
            let k = i - start;
            assert(rest[k as int] == '/');
            assert(rest.contains('/'));
            let ghost found = rest.index_of_first('/');
            assert(found == Some(k as int)) by {
                let f = found.unwrap();
                if f < k {
                    assert(rest[f] == cs@[start + f]);
                } else if f > k {
                    assert(rest[k as int] == '/');
                }
            }
            if i > start && i + 1 < cs.len() {
                let project_id = string_from_range(&cs, start, i);
                let thread_id = string_from_range(&cs, i + 1, cs.len());
                assert(project_id@ =~= rest.take(k as int));
                assert(thread_id@ =~= rest.skip(k + 1));
                return ResourceKind::Thread { project_id, thread_id };
            }
        } else {
            assert(!rest.contains('/')) by {
                if rest.contains('/') {
                    let j = choose|j: int| 0 <= j < rest.len() && rest[j] == '/';
                    assert(cs@[start + j] == '/');
                }
            }
        }
    }
    ResourceKind::Unknown
}

} // verus!
