//! FNV-1a fingerprints of syntax trees: over the source tokens, over
//! normalised tokens (identifiers and literals abstracted), and over the
//! shape of the tree.
use vstd::prelude::*;
use vstd::string::StringSliceAdditionalSpecFns;
use vstd::utf8::encode_utf8;
use crate::syntax::{SyntaxNode, subtree_end, subtree_end_of, utf8_text_of, utf8_text, utf8_valid, kind_is};
use crate::text::{
    ascii_lowercase, ascii_lowercase_str, has_substring, str_contains, str_is, trim, trim_str,
};

verus! {

/// The FNV-1a offset basis.
pub const OFFSET_BASIS: u64 = 0xcbf29ce484222325u64;

/// The FNV-1a prime.
pub const PRIME: u64 = 0x100000001b3u64;

/// One FNV-1a step: xor in the byte, then multiply (wrapping) by the prime.
pub open spec fn fnv_step(h: u64, b: u8) -> u64 {
    vstd::wrapping::u64_specs::wrapping_mul(h ^ (b as u64), PRIME)
}

/// FNV-1a of `bytes`, starting from the state `h`.
pub open spec fn fnv(h: u64, bytes: Seq<u8>) -> u64
    decreases bytes.len(),
{
    if bytes.len() == 0 {
        h
    } else {
        fnv_step(fnv(h, bytes.drop_last()), bytes.last())
    }
}

/// Hashing `a` then `b` is hashing `a + b`.
pub proof fn lemma_fnv_concat(h: u64, a: Seq<u8>, b: Seq<u8>)
    ensures
        fnv(h, a + b) == fnv(fnv(h, a), b),
    decreases b.len(),
{
    if b.len() == 0 {
        assert(a + b =~= a);
    } else {
        assert((a + b).drop_last() =~= a + b.drop_last());
        lemma_fnv_concat(h, a, b.drop_last());
    }
}

/// The four little-endian bytes of `v`.
pub open spec fn le_bytes_u32(v: u32) -> Seq<u8> {
    seq![(v & 0xff) as u8, ((v >> 8u32) & 0xff) as u8, ((v >> 16u32) & 0xff) as u8, ((v >> 24u32) & 0xff) as u8]
}

/// A 64-bit FNV-1a hasher.
pub struct Fnv64(pub u64);

impl Fnv64 {
    /// A hasher in its initial state.
    pub fn new() -> (res: Self)
        ensures
            res.0 == OFFSET_BASIS,
    {
        Fnv64(OFFSET_BASIS)
    }

    /// Feeds `bytes`.
    pub fn write(&mut self, bytes: &[u8])
        ensures
            final(self).0 == fnv(old(self).0, bytes@),
    {
        let mut i: usize = 0;
        while i < bytes.len()
            invariant
                i <= bytes.len(),
                self.0 == fnv(old(self).0, bytes@.take(i as int)),
            decreases bytes.len() - i,
        {
            self.0 = (self.0 ^ (bytes[i] as u64)).wrapping_mul(PRIME);
            i = i + 1;
            assert(bytes@.take(i as int).drop_last() =~= bytes@.take(i - 1));
        }
        assert(bytes@.take(bytes.len() as int) =~= bytes@);
    }

    /// Feeds one byte.
    pub fn write_u8(&mut self, value: u8)
        ensures
            final(self).0 == fnv(old(self).0, seq![value]),
    {
        let bytes = [value];
        assert(bytes@ =~= seq![value]);
        self.write(&bytes);
    }

    /// Feeds the four little-endian bytes of `value`.
    pub fn write_u32(&mut self, value: u32)
        ensures
            final(self).0 == fnv(old(self).0, le_bytes_u32(value)),
    {
        let bytes = [(value & 0xff) as u8, ((value >> 8u32) & 0xff) as u8,
            ((value >> 16u32) & 0xff) as u8, ((value >> 24u32) & 0xff) as u8];
        assert(bytes@ =~= le_bytes_u32(value));
        self.write(&bytes);
    }

    /// The hash of everything fed so far.
    pub fn finish(self) -> (res: u64)
        ensures
            res == self.0,
    {
        self.0
    }
}

/// Comment nodes, which no fingerprint sees.
pub open spec fn is_comment_kind(k: Seq<char>) -> bool {
    has_substring(k, "comment"@)
}

/// Literal nodes, abstracted to `LIT` in token fingerprints.
pub open spec fn is_literal_kind(k: Seq<char>) -> bool {
    ||| k == "string"@
    ||| k == "number"@
    ||| k == "null"@
    ||| k == "true"@
    ||| k == "false"@
    ||| k == "character_literal"@
    ||| k == "integer_literal"@
    ||| k == "real_literal"@
    ||| k == "string_literal"@
    ||| k == "verbatim_string_literal"@
    ||| k == "raw_string_literal"@
    ||| has_substring(k, "literal"@)
}

/// Executable `is_comment_kind`.
pub fn comment_kind(k: &str) -> (res: bool)
    ensures
        res == is_comment_kind(k@),
{
    str_contains(k, "comment")
}

/// Executable `is_literal_kind`.
pub fn literal_kind(k: &str) -> (res: bool)
    ensures
        res == is_literal_kind(k@),
{
    str_is(k, "string") || str_is(k, "number") || str_is(k, "null") || str_is(k, "true")
        || str_is(k, "false") || str_is(k, "character_literal") || str_is(k, "integer_literal")
        || str_is(k, "real_literal") || str_is(k, "string_literal")
        || str_is(k, "verbatim_string_literal") || str_is(k, "raw_string_literal")
        || str_contains(k, "literal")
}

/// The token that a leaf contributes to the token fingerprint: `IDENT` for
/// identifiers, `LIT` for literals, the lower-cased trimmed text of a
/// modifier, else the lower-cased kind.
pub open spec fn normalized_token(t: Seq<SyntaxNode>, src: Seq<u8>, i: int) -> Seq<char> {
    let k = t[i].kind@;
    if k == "identifier"@ {
        "IDENT"@
    } else if is_literal_kind(k) {
        "LIT"@
    } else if k == "modifier"@ {
        match utf8_text_of(src, t[i].start_byte as int, t[i].end_byte as int) {
            Some(text) => ascii_lowercase(trim(text)),
            None => Seq::empty(),
        }
    } else {
        ascii_lowercase(k)
    }
}

/// The bytes that the token fingerprint feeds for the subtree of node `i`.
pub open spec fn token_stream(t: Seq<SyntaxNode>, src: Seq<u8>, i: int, limit: int) -> Seq<u8>
    decreases limit - i, 0int,
{
    if i < 0 || i >= limit || limit > t.len() {
        Seq::empty()
    } else if is_comment_kind(t[i].kind@) {
        Seq::empty()
    } else if t[i].child_count == 0 {
        let token = normalized_token(t, src, i);
        if token.len() == 0 { Seq::empty() } else { encode_utf8(token) + seq![0u8] }
    } else {
        token_stream_children(t, src, i + 1, subtree_end(t, i, limit))
    }
}

/// The bytes that the token fingerprint feeds for the sibling subtrees from `c` up to `e`.
pub open spec fn token_stream_children(t: Seq<SyntaxNode>, src: Seq<u8>, c: int, e: int) -> Seq<u8>
    decreases e - c, 1int,
{
    if c < 0 || c >= e || e > t.len() {
        Seq::empty()
    } else {
        token_stream(t, src, c, e) + token_stream_children(t, src, subtree_end(t, c, e), e)
    }
}

/// The bytes that the lexical fingerprint feeds for the subtree of node `i`:
/// the source text of each leaf that is not a comment, each followed by a zero byte.
pub open spec fn lexical_stream(t: Seq<SyntaxNode>, src: Seq<u8>, i: int, limit: int) -> Seq<u8>
    decreases limit - i, 0int,
{
    if i < 0 || i >= limit || limit > t.len() {
        Seq::empty()
    } else if is_comment_kind(t[i].kind@) {
        Seq::empty()
    } else if t[i].child_count == 0 {
        match utf8_text_of(src, t[i].start_byte as int, t[i].end_byte as int) {
            Some(_) => src.subrange(t[i].start_byte as int, t[i].end_byte as int) + seq![0u8],
            None => Seq::empty(),
        }
    } else {
        lexical_stream_children(t, src, i + 1, subtree_end(t, i, limit))
    }
}

/// The bytes that the lexical fingerprint feeds for the sibling subtrees from `c` up to `e`.
pub open spec fn lexical_stream_children(t: Seq<SyntaxNode>, src: Seq<u8>, c: int, e: int) -> Seq<u8>
    decreases e - c, 1int,
{
    if c < 0 || c >= e || e > t.len() {
        Seq::empty()
    } else {
        lexical_stream(t, src, c, e) + lexical_stream_children(t, src, subtree_end(t, c, e), e)
    }
}

/// The bytes that the structure fingerprint feeds for the subtree of node
/// `i`: for each node that is not a comment, its kind, `0xfe`, its number of
/// children as four little-endian bytes and `0xff`, in pre-order.
pub open spec fn structure_stream(t: Seq<SyntaxNode>, i: int, limit: int) -> Seq<u8>
    decreases limit - i, 0int,
{
    if i < 0 || i >= limit || limit > t.len() {
        Seq::empty()
    } else if is_comment_kind(t[i].kind@) {
        Seq::empty()
    } else {
        encode_utf8(t[i].kind@) + seq![0xfeu8] + le_bytes_u32(t[i].child_count as u32) + seq![0xffu8]
            + structure_stream_children(t, i + 1, subtree_end(t, i, limit))
    }
}

/// The bytes that the structure fingerprint feeds for the sibling subtrees from `c` up to `e`.
pub open spec fn structure_stream_children(t: Seq<SyntaxNode>, c: int, e: int) -> Seq<u8>
    decreases e - c, 1int,
{
    if c < 0 || c >= e || e > t.len() {
        Seq::empty()
    } else {
        structure_stream(t, c, e) + structure_stream_children(t, subtree_end(t, c, e), e)
    }
}

/// FNV-1a of the source text of the tree's leaves (comments left out).
pub fn lexical_hash(nodes: &Vec<SyntaxNode>, source: &str) -> (res: u64)
    ensures
        res == fnv(OFFSET_BASIS, lexical_stream(nodes@, source.spec_bytes(), 0, nodes.len() as int)),
{
    let mut hasher = Fnv64::new();
    if nodes.len() > 0 {
        hash_lexical(nodes, source.as_bytes(), 0, nodes.len(), &mut hasher);
    }
    hasher.finish()
}

/// FNV-1a of the tree's normalised tokens (comments left out).
pub fn token_hash(nodes: &Vec<SyntaxNode>, source: &str) -> (res: u64)
    ensures
        res == fnv(OFFSET_BASIS, token_stream(nodes@, source.spec_bytes(), 0, nodes.len() as int)),
{
    let mut hasher = Fnv64::new();
    if nodes.len() > 0 {
        hash_tokens(nodes, source.as_bytes(), 0, nodes.len(), &mut hasher);
    }
    hasher.finish()
}

/// FNV-1a of the tree's shape: node kinds and numbers of children (comments left out).
pub fn structure_hash(nodes: &Vec<SyntaxNode>) -> (res: u64)
    ensures
        res == fnv(OFFSET_BASIS, structure_stream(nodes@, 0, nodes.len() as int)),
{
    let mut hasher = Fnv64::new();
    if nodes.len() > 0 {
        hash_structure(nodes, 0, nodes.len(), &mut hasher);
    }
    hasher.finish()
}

/// Executable `normalized_token`.
fn normalize_token(t: &Vec<SyntaxNode>, src: &[u8], i: usize) -> (res: String)
    requires
        i < t.len(),
    ensures
        res@ == normalized_token(t@, src@, i as int),
{
    let node = &t[i];
    let kind = node.kind.as_str();
    if str_is(kind, "identifier") {
        return String::from_str("IDENT");
    }
    if literal_kind(kind) {
        return String::from_str("LIT");
    }
    if str_is(kind, "modifier") {
        return match utf8_text(src, node.start_byte, node.end_byte) {
            Some(text) => {
                let trimmed = trim_str(text.as_str());
                ascii_lowercase_str(trimmed.as_str())
            },
            None => String::new(),
        };
    }
    ascii_lowercase_str(kind)
}

fn hash_tokens(t: &Vec<SyntaxNode>, src: &[u8], i: usize, limit: usize, hasher: &mut Fnv64)
    requires
        i < limit <= t.len(),
    ensures
        final(hasher).0 == fnv(old(hasher).0, token_stream(t@, src@, i as int, limit as int)),
    decreases limit - i, 0int,
{
    if comment_kind(t[i].kind.as_str()) {
        assert(token_stream(t@, src@, i as int, limit as int) =~= Seq::<u8>::empty());
        return;
    }
    if t[i].child_count == 0 {
        let token = normalize_token(t, src, i);
        if !token.as_str().is_empty() {
            let bytes = token.as_str().as_bytes();
            proof {
                lemma_fnv_concat(hasher.0, bytes@, seq![0u8]);
            }
            hasher.write(bytes);
            hasher.write_u8(0);
        } else {
            assert(token_stream(t@, src@, i as int, limit as int) =~= Seq::<u8>::empty());
        }
        return;
    }
    let e = subtree_end_of(t, i, limit);
    hash_tokens_children(t, src, i + 1, e, hasher);
}

fn hash_tokens_children(t: &Vec<SyntaxNode>, src: &[u8], c0: usize, e: usize, hasher: &mut Fnv64)
    requires
        c0 <= e <= t.len(),
    ensures
        final(hasher).0 == fnv(old(hasher).0, token_stream_children(t@, src@, c0 as int, e as int)),
    decreases e - c0, 1int,
{
    let mut c = c0;
    while c < e
        invariant
            c0 <= c <= e <= t.len(),
            fnv(hasher.0, token_stream_children(t@, src@, c as int, e as int))
                == fnv(old(hasher).0, token_stream_children(t@, src@, c0 as int, e as int)),
        decreases e - c,
    {
        let next = subtree_end_of(t, c, e);
        proof {
            lemma_fnv_concat(hasher.0, token_stream(t@, src@, c as int, e as int),
                token_stream_children(t@, src@, next as int, e as int));
        }
        hash_tokens(t, src, c, e, hasher);
        c = next;
    }
}

fn hash_lexical(t: &Vec<SyntaxNode>, src: &[u8], i: usize, limit: usize, hasher: &mut Fnv64)
    requires
        i < limit <= t.len(),
    ensures
        final(hasher).0 == fnv(old(hasher).0, lexical_stream(t@, src@, i as int, limit as int)),
    decreases limit - i, 0int,
{
    if comment_kind(t[i].kind.as_str()) {
        return;
    }
    if t[i].child_count == 0 {
        let start = t[i].start_byte;
        let end = t[i].end_byte;
        if start <= end && end <= src.len() {
            let part = vstd::slice::slice_subrange(src, start, end);
            if utf8_valid(part) {
                proof { lemma_fnv_concat(hasher.0, part@, seq![0u8]); }
                hasher.write(part);
                hasher.write_u8(0);
            }
        }
        return;
    }
    let e = subtree_end_of(t, i, limit);
    hash_lexical_children(t, src, i + 1, e, hasher);
}

fn hash_lexical_children(t: &Vec<SyntaxNode>, src: &[u8], c0: usize, e: usize, hasher: &mut Fnv64)
    requires
        c0 <= e <= t.len(),
    ensures
        final(hasher).0 == fnv(old(hasher).0, lexical_stream_children(t@, src@, c0 as int, e as int)),
    decreases e - c0, 1int,
{
    let mut c = c0;
    while c < e
        invariant
            c0 <= c <= e <= t.len(),
            fnv(hasher.0, lexical_stream_children(t@, src@, c as int, e as int))
                == fnv(old(hasher).0, lexical_stream_children(t@, src@, c0 as int, e as int)),
        decreases e - c,
    {
        let next = subtree_end_of(t, c, e);
        proof {
            lemma_fnv_concat(hasher.0, lexical_stream(t@, src@, c as int, e as int),
                lexical_stream_children(t@, src@, next as int, e as int));
        }
        hash_lexical(t, src, c, e, hasher);
        c = next;
    }
}

fn hash_structure(t: &Vec<SyntaxNode>, i: usize, limit: usize, hasher: &mut Fnv64)
    requires
        i < limit <= t.len(),
    ensures
        final(hasher).0 == fnv(old(hasher).0, structure_stream(t@, i as int, limit as int)),
    decreases limit - i, 0int,
{
    if comment_kind(t[i].kind.as_str()) {
        return;
    }
    let ghost h0 = hasher.0;
    let kind_bytes = t[i].kind.as_str().as_bytes();
    let count = t[i].child_count as u32;
    let e = subtree_end_of(t, i, limit);
    let ghost a = kind_bytes@;
    let ghost b = seq![0xfeu8];
    let ghost c = le_bytes_u32(count);
    let ghost d = seq![0xffu8];
    let ghost rest = structure_stream_children(t@, i + 1, e as int);
    proof {
        assert(structure_stream(t@, i as int, limit as int) == a + b + c + d + rest);
        lemma_fnv_concat(h0, a + b + c + d, rest);
        lemma_fnv_concat(h0, a + b + c, d);
        lemma_fnv_concat(h0, a + b, c);
        lemma_fnv_concat(h0, a, b);
    }
    hasher.write(kind_bytes);
    hasher.write_u8(0xfe);
    hasher.write_u32(count);
    hasher.write_u8(0xff);
    hash_structure_children(t, i + 1, e, hasher);
}

fn hash_structure_children(t: &Vec<SyntaxNode>, c0: usize, e: usize, hasher: &mut Fnv64)
    requires
        c0 <= e <= t.len(),
    ensures
        final(hasher).0 == fnv(old(hasher).0, structure_stream_children(t@, c0 as int, e as int)),
    decreases e - c0, 1int,
{
    let mut c = c0;
    while c < e
        invariant
            c0 <= c <= e <= t.len(),
            fnv(hasher.0, structure_stream_children(t@, c as int, e as int))
                == fnv(old(hasher).0, structure_stream_children(t@, c0 as int, e as int)),
        decreases e - c,
    {
        let next = subtree_end_of(t, c, e);
        proof {
            lemma_fnv_concat(hasher.0, structure_stream(t@, c as int, e as int),
                structure_stream_children(t@, next as int, e as int));
        }
        hash_structure(t, c, e, hasher);
        c = next;
    }
}

/// Comments leave no trace in the fingerprints: a node whose kind names a
/// comment feeds no byte to the token, lexical or structure stream, so a
/// comment among siblings leaves their streams as they are without it.
pub proof fn lemma_comments_feed_nothing(t: Seq<SyntaxNode>, src: Seq<u8>, c: int, e: int)
    requires
        0 <= c < e <= t.len(),
        has_substring(t[c].kind@, "comment"@),
    ensures
        token_stream(t, src, c, e) == Seq::<u8>::empty(),
        lexical_stream(t, src, c, e) == Seq::<u8>::empty(),
        structure_stream(t, c, e) == Seq::<u8>::empty(),
        token_stream_children(t, src, c, e) == token_stream_children(t, src, subtree_end(t, c, e), e),
        lexical_stream_children(t, src, c, e) == lexical_stream_children(t, src, subtree_end(t, c, e), e),
        structure_stream_children(t, c, e) == structure_stream_children(t, subtree_end(t, c, e), e),
{
    let next = subtree_end(t, c, e);
    assert(is_comment_kind(t[c].kind@));
    assert(token_stream(t, src, c, e) =~= Seq::<u8>::empty());
    assert(lexical_stream(t, src, c, e) =~= Seq::<u8>::empty());
    assert(structure_stream(t, c, e) =~= Seq::<u8>::empty());
    assert(token_stream_children(t, src, c, e) =~= Seq::<u8>::empty() + token_stream_children(t, src, next, e));
    assert(lexical_stream_children(t, src, c, e) =~= Seq::<u8>::empty() + lexical_stream_children(t, src, next, e));
    assert(structure_stream_children(t, c, e) =~= Seq::<u8>::empty() + structure_stream_children(t, next, e));
}

} // verus!
