//! The narinfo text descriptor: the key-value lines a binary cache serves
//! for a store path, their exact serialization, and a parser that inverts
//! it.

use vstd::prelude::*;

use crate::bytesutil::{ascii_of, lit_bytes, starts_with};
use crate::numeric::{dec_seq, parse_dec_spec, parse_u64_dec, u64_to_dec};

verus! {

/// The descriptor for one store path.
pub struct NarInfo {
    /// The full store path described.
    pub store_path: Vec<u8>,
    /// Where the NAR lives, relative to the cache root.
    pub url: Vec<u8>,
    /// The compression the NAR is stored under.
    pub compression: Vec<u8>,
    /// The content hash of the uncompressed NAR.
    pub nar_hash: Vec<u8>,
    /// The size of the uncompressed NAR.
    pub nar_size: u64,
    /// The base names of the paths referenced.
    pub references: Vec<Vec<u8>>,
    /// The content-address descriptor, if the path has one.
    pub ca: Option<Vec<u8>>,
}

/// The mathematical value of a descriptor.
pub ghost struct NarInfoV {
    pub store_path: Seq<u8>,
    pub url: Seq<u8>,
    pub compression: Seq<u8>,
    pub nar_hash: Seq<u8>,
    pub nar_size: u64,
    pub references: Seq<Seq<u8>>,
    pub ca: Option<Seq<u8>>,
}

impl View for NarInfo {
    type V = NarInfoV;

    open spec fn view(&self) -> NarInfoV {
        NarInfoV {
            store_path: self.store_path@,
            url: self.url@,
            compression: self.compression@,
            nar_hash: self.nar_hash@,
            nar_size: self.nar_size,
            references: self.references@.map_values(|r: Vec<u8>| r@),
            ca: match self.ca {
                Some(c) => Some(c@),
                None => None,
            },
        }
    }
}

/// A value that fits on one line: it holds no newline.
pub open spec fn line_safe(s: Seq<u8>) -> bool {
    forall|i: int| 0 <= i < s.len() ==> s[i] != 0x0au8
}

/// A reference name: nonempty, no newline, no space.
pub open spec fn ref_safe(s: Seq<u8>) -> bool {
    s.len() > 0 && forall|i: int| 0 <= i < s.len() ==> s[i] != 0x0au8 && s[i] != 0x20u8
}

/// A descriptor whose fields survive the line-oriented format.
pub open spec fn narinfo_wf(v: NarInfoV) -> bool {
    &&& line_safe(v.store_path)
    &&& line_safe(v.url)
    &&& line_safe(v.compression)
    &&& line_safe(v.nar_hash)
    &&& forall|i: int| 0 <= i < v.references.len() ==> ref_safe(#[trigger] v.references[i])
    &&& (v.ca matches Some(c) ==> line_safe(c))
}

/// One `Label: value` line.
pub open spec fn field_line(label: &str, value: Seq<u8>) -> Seq<u8> {
    ascii_of(label) + value + seq![0x0au8]
}

/// The references joined by single spaces.
pub open spec fn spec_join_space(refs: Seq<Seq<u8>>) -> Seq<u8>
    decreases refs.len(),
{
    if refs.len() == 0 {
        Seq::empty()
    } else if refs.len() == 1 {
        refs[0]
    } else {
        refs[0] + seq![0x20u8] + spec_join_space(refs.drop_first())
    }
}

/// The serialized descriptor: its fields as key-value lines, in the fixed
/// order, the `CA` line only when the path has a content address.
pub open spec fn spec_serialize(v: NarInfoV) -> Seq<u8> {
    field_line("StorePath: ", v.store_path) + field_line("URL: ", v.url) + field_line(
        "Compression: ",
        v.compression,
    ) + field_line("NarHash: ", v.nar_hash) + field_line("NarSize: ", dec_seq(v.nar_size as nat))
        + field_line("References: ", spec_join_space(v.references)) + (match v.ca {
        Some(c) => field_line("CA: ", c),
        None => Seq::<u8>::empty(),
    })
}

/// The position of the first newline; the length if there is none.
pub open spec fn find_nl(s: Seq<u8>) -> int
    decreases s.len(),
{
    if s.len() == 0 {
        0
    } else if s[0] == 0x0au8 {
        0
    } else {
        1 + find_nl(s.drop_first())
    }
}

/// The position of the first space; the length if there is none.
pub open spec fn find_sp(s: Seq<u8>) -> int
    decreases s.len(),
{
    if s.len() == 0 {
        0
    } else if s[0] == 0x20u8 {
        0
    } else {
        1 + find_sp(s.drop_first())
    }
}

/// Reads one `Label: value` line off the front: the value and what
/// follows the line, or nothing if the label or the newline is missing.
pub open spec fn read_field(s: Seq<u8>, label: Seq<u8>) -> Option<(Seq<u8>, Seq<u8>)> {
    if starts_with(s, label) {
        let t = s.skip(label.len() as int);
        let k = find_nl(t);
        if k == t.len() {
            None
        } else {
            Some((t.take(k), t.skip(k + 1)))
        }
    } else {
        None
    }
}

/// Splits a references line on single spaces; the empty line is no
/// references.
pub open spec fn spec_split_space(s: Seq<u8>) -> Seq<Seq<u8>>
    decreases s.len(),
{
    if s.len() == 0 {
        Seq::empty()
    } else {
        let k = find_sp(s);
        if 0 <= k < s.len() {
            seq![s.take(k)] + spec_split_space(s.skip(k + 1))
        } else {
            seq![s]
        }
    }
}

/// What parsing a descriptor yields: the fields read back off the fixed
/// lines, or nothing wherever a line, the size numeral, or the layout is
/// not as serialization writes it.
pub open spec fn spec_parse(s: Seq<u8>) -> Option<NarInfoV> {
    match read_field(s, ascii_of("StorePath: ")) {
        None => None,
        Some((store_path, s1)) => match read_field(s1, ascii_of("URL: ")) {
            None => None,
            Some((url, s2)) => match read_field(s2, ascii_of("Compression: ")) {
                None => None,
                Some((compression, s3)) => match read_field(s3, ascii_of("NarHash: ")) {
                    None => None,
                    Some((nar_hash, s4)) => match read_field(s4, ascii_of("NarSize: ")) {
                        None => None,
                        Some((size_digits, s5)) => match parse_dec_spec(size_digits) {
                            None => None,
                            Some(nar_size) => match read_field(s5, ascii_of("References: ")) {
                                None => None,
                                Some((refs_line, s6)) => {
                                    let references = spec_split_space(refs_line);
                                    if s6.len() == 0 {
                                        Some(
                                            NarInfoV {
                                                store_path,
                                                url,
                                                compression,
                                                nar_hash,
                                                nar_size,
                                                references,
                                                ca: None,
                                            },
                                        )
                                    } else {
                                        match read_field(s6, ascii_of("CA: ")) {
                                            None => None,
                                            Some((ca, s7)) => if s7.len() == 0 {
                                                Some(
                                                    NarInfoV {
                                                        store_path,
                                                        url,
                                                        compression,
                                                        nar_hash,
                                                        nar_size,
                                                        references,
                                                        ca: Some(ca),
                                                    },
                                                )
                                            } else {
                                                None
                                            },
                                        }
                                    }
                                },
                            },
                        },
                    },
                },
            },
        },
    }
}

impl NarInfo {
    /// Writes the descriptor in the narinfo text format.
    #[verifier::rlimit(50)]
    pub fn serialize(&self) -> (r: Vec<u8>)
        ensures
            r@ == spec_serialize(self@),
    {
        proof {
            reveal_strlit("StorePath: ");
            reveal_strlit("URL: ");
            reveal_strlit("Compression: ");
            reveal_strlit("NarHash: ");
            reveal_strlit("NarSize: ");
            reveal_strlit("References: ");
            reveal_strlit("CA: ");
        }
        let mut r: Vec<u8> = Vec::new();
        append_field(&mut r, lit_bytes("StorePath: "), self.store_path.as_slice());
        append_field(&mut r, lit_bytes("URL: "), self.url.as_slice());
        append_field(&mut r, lit_bytes("Compression: "), self.compression.as_slice());
        append_field(&mut r, lit_bytes("NarHash: "), self.nar_hash.as_slice());
        let digits = u64_to_dec(self.nar_size);
        append_field(&mut r, lit_bytes("NarSize: "), digits.as_slice());
        let joined = join_space(&self.references);
        append_field(&mut r, lit_bytes("References: "), joined.as_slice());
        match &self.ca {
            Some(c) => {
                append_field(&mut r, lit_bytes("CA: "), c.as_slice());
            },
            None => {},
        }
        proof {
            assert(r@ =~= spec_serialize(self@));
        }
        r
    }
}

/// Appends `label`, `value` and a newline.
fn append_field(r: &mut Vec<u8>, label: Vec<u8>, value: &[u8])
    ensures
        final(r)@ == old(r)@ + label@ + value@ + seq![0x0au8],
{
    let mut l = label;
    r.append(&mut l);
    let mut v = vstd::slice::slice_to_vec(value);
    r.append(&mut v);
    r.push(0x0a);
}

/// Joins reference names with single spaces.
pub fn join_space(refs: &Vec<Vec<u8>>) -> (r: Vec<u8>)
    ensures
        r@ == spec_join_space(refs@.map_values(|v: Vec<u8>| v@)),
{
    let mut r: Vec<u8> = Vec::new();
    let n: usize = refs.len();
    let mut i: usize = 0;
    while i < n
        invariant
            n == refs@.len(),
            0 <= i <= n,
            r@ == spec_join_space(refs@.map_values(|v: Vec<u8>| v@).take(i as int)),
        decreases n - i,
    {
        if i > 0 {
            r.push(0x20);
        }
        let mut part = crate::upload::copy_bytes(&refs[i]);
        r.append(&mut part);
        proof {
            let m = refs@.map_values(|v: Vec<u8>| v@);
            lemma_join_space_take(m, i as int);
        }
        i = i + 1;
    }
    proof {
        assert(refs@.map_values(|v: Vec<u8>| v@).take(n as int) =~= refs@.map_values(
            |v: Vec<u8>| v@,
        ));
    }
    r
}

/// Extending a join by one more name appends a space and the name (the
/// first name comes bare).
/// The first newline is where the first newline stands.
proof fn lemma_find_nl_at(t: Seq<u8>, m: int)
    requires
        0 <= m <= t.len(),
        forall|i: int| 0 <= i < m ==> t[i] != 0x0au8,
        m == t.len() || t[m] == 0x0au8,
    ensures
        find_nl(t) == m,
    decreases m,
{
    if m == 0 {
    } else {
        assert(t[0] != 0x0au8);
        lemma_find_nl_at(t.drop_first(), m - 1);
    }
}

/// The first space is where the first space stands.
proof fn lemma_find_sp_at(t: Seq<u8>, m: int)
    requires
        0 <= m <= t.len(),
        forall|i: int| 0 <= i < m ==> t[i] != 0x20u8,
        m == t.len() || t[m] == 0x20u8,
    ensures
        find_sp(t) == m,
    decreases m,
{
    if m == 0 {
    } else {
        assert(t[0] != 0x20u8);
        lemma_find_sp_at(t.drop_first(), m - 1);
    }
}

/// Reads one `label`-prefixed line starting at `pos`: the value and the
/// position just past the line's newline.
fn read_field_at(s: &[u8], pos: usize, label: &Vec<u8>) -> (r: Option<(Vec<u8>, usize)>)
    requires
        pos <= s@.len(),
    ensures
        match r {
            Some(pair) => {
                &&& read_field(s@.skip(pos as int), label@) == Some(
                    (pair.0@, s@.skip(pair.1 as int)),
                )
                &&& pos <= pair.1 <= s@.len()
            },
            None => read_field(s@.skip(pos as int), label@) is None,
        },
{
    let ghost t = s@.skip(pos as int);
    let sub = vstd::slice::slice_subrange(s, pos, s.len());
    proof {
        assert(sub@ =~= t);
    }
    if !crate::bytesutil::slice_starts_with(sub, label.as_slice()) {
        return None;
    }
    let start: usize = pos + label.len();
    let ghost body = t.skip(label@.len() as int);
    proof {
        assert(body =~= s@.skip(start as int));
    }
    let n: usize = s.len();
    let mut j: usize = start;
    while j < n && s[j] != 0x0a
        invariant
            start <= j <= n,
            n == s@.len(),
            start == pos + label@.len(),
            pos <= s@.len(),
            label@.len() <= s@.len() - pos,
            forall|k: int| start <= k < j ==> s@[k] != 0x0au8,
        decreases n - j,
    {
        j = j + 1;
    }
    proof {
        assert forall|i: int| 0 <= i < j - start implies body[i] != 0x0au8 by {
            assert(body[i] == s@[start + i]);
        }
        if j < n {
            assert(body[j - start] == s@[j as int]);
        }
        lemma_find_nl_at(body, j - start);
    }
    if j == n {
        proof {
            assert(find_nl(body) == body.len());
        }
        return None;
    }
    let value = vstd::slice::slice_to_vec(vstd::slice::slice_subrange(s, start, j));
    let next: usize = j + 1;
    proof {
        let k = find_nl(body);
        assert(k == j - start);
        assert(body.take(k) =~= s@.subrange(start as int, j as int));
        assert(body.skip(k + 1) =~= s@.skip(next as int));
    }
    Some((value, next))
}

/// Splits the tail of a references line, from `pos`, on single spaces.
fn split_space_from(s: &[u8], pos: usize) -> (r: Vec<Vec<u8>>)
    requires
        pos <= s@.len(),
    ensures
        r@.map_values(|v: Vec<u8>| v@) == spec_split_space(s@.skip(pos as int)),
    decreases s@.len() - pos,
{
    let ghost t = s@.skip(pos as int);
    let n: usize = s.len();
    if pos == n {
        let r: Vec<Vec<u8>> = Vec::new();
        proof {
            assert(t =~= Seq::<u8>::empty());
            assert(r@.map_values(|v: Vec<u8>| v@) =~= spec_split_space(t));
        }
        return r;
    }
    let mut j: usize = pos;
    while j < n && s[j] != 0x20
        invariant
            pos <= j <= n,
            n == s@.len(),
            forall|k: int| pos <= k < j ==> s@[k] != 0x20u8,
        decreases n - j,
    {
        j = j + 1;
    }
    proof {
        assert forall|i: int| 0 <= i < j - pos implies t[i] != 0x20u8 by {
            assert(t[i] == s@[pos + i]);
        }
        if j < n {
            assert(t[j - pos] == s@[j as int]);
        }
        lemma_find_sp_at(t, j - pos);
    }
    let piece = vstd::slice::slice_to_vec(vstd::slice::slice_subrange(s, pos, j));
    if j == n {
        proof {
            assert(find_sp(t) == t.len());
        }
        let mut r: Vec<Vec<u8>> = Vec::new();
        r.push(piece);
        proof {
            assert(piece@ =~= t);
            assert(r@.map_values(|v: Vec<u8>| v@) =~= seq![t]);
        }
        return r;
    }
    let mut rest = split_space_from(s, j + 1);
    let mut r: Vec<Vec<u8>> = Vec::new();
    r.push(piece);
    r.append(&mut rest);
    proof {
        let k = find_sp(t);
        assert(k == j - pos);
        assert(0 <= k < t.len());
        assert(t.take(k) =~= s@.subrange(pos as int, j as int));
        assert(t.skip(k + 1) =~= s@.skip(j + 1));
        assert(r@.map_values(|v: Vec<u8>| v@) =~= seq![t.take(k)] + spec_split_space(t.skip(k + 1)));
    }
    r
}

/// Parses a descriptor from the narinfo text format: exactly the
/// descriptors that serialization writes are accepted, and parsing gives
/// their fields back.
pub fn parse_narinfo(s: &[u8]) -> (r: Option<NarInfo>)
    ensures
        match r {
            Some(ni) => spec_parse(s@) == Some(ni@),
            None => spec_parse(s@) is None,
        },
{
    proof {
        reveal_strlit("StorePath: ");
        reveal_strlit("URL: ");
        reveal_strlit("Compression: ");
        reveal_strlit("NarHash: ");
        reveal_strlit("NarSize: ");
        reveal_strlit("References: ");
        reveal_strlit("CA: ");
        assert(s@.skip(0) =~= s@);
    }
    let (store_path, p1) = match read_field_at(s, 0, &lit_bytes("StorePath: ")) {
        Some(x) => x,
        None => {
            return None;
        },
    };
    let (url, p2) = match read_field_at(s, p1, &lit_bytes("URL: ")) {
        Some(x) => x,
        None => {
            return None;
        },
    };
    let (compression, p3) = match read_field_at(s, p2, &lit_bytes("Compression: ")) {
        Some(x) => x,
        None => {
            return None;
        },
    };
    let (nar_hash, p4) = match read_field_at(s, p3, &lit_bytes("NarHash: ")) {
        Some(x) => x,
        None => {
            return None;
        },
    };
    let (size_digits, p5) = match read_field_at(s, p4, &lit_bytes("NarSize: ")) {
        Some(x) => x,
        None => {
            return None;
        },
    };
    let nar_size = match parse_u64_dec(size_digits.as_slice()) {
        Some(n) => n,
        None => {
            return None;
        },
    };
    let (refs_line, p6) = match read_field_at(s, p5, &lit_bytes("References: ")) {
        Some(x) => x,
        None => {
            return None;
        },
    };
    let references = split_space_from(refs_line.as_slice(), 0);
    proof {
        assert(refs_line@.skip(0) =~= refs_line@);
    }
    if p6 == s.len() {
        proof {
            assert(s@.skip(p6 as int).len() == 0);
        }
        return Some(
            NarInfo { store_path, url, compression, nar_hash, nar_size, references, ca: None },
        );
    }
    proof {
        assert(s@.skip(p6 as int).len() > 0);
    }
    let (ca, p7) = match read_field_at(s, p6, &lit_bytes("CA: ")) {
        Some(x) => x,
        None => {
            return None;
        },
    };
    if p7 == s.len() {
        proof {
            assert(s@.skip(p7 as int).len() == 0);
        }
        Some(
            NarInfo {
                store_path,
                url,
                compression,
                nar_hash,
                nar_size,
                references,
                ca: Some(ca),
            },
        )
    } else {
        proof {
            assert(s@.skip(p7 as int).len() > 0);
        }
        None
    }
}

/// A line-safe value followed by a newline: the newline found is exactly
/// at the value's end.
proof fn lemma_find_nl_concat(v: Seq<u8>, rest: Seq<u8>)
    requires
        line_safe(v),
    ensures
        find_nl(v + seq![0x0au8] + rest) == v.len(),
    decreases v.len(),
{
    let s = v + seq![0x0au8] + rest;
    if v.len() == 0 {
        assert(s[0] == 0x0au8);
    } else {
        assert(s[0] == v[0]);
        assert(s[0] != 0x0au8);
        lemma_find_nl_concat(v.drop_first(), rest);
        assert(s.drop_first() =~= v.drop_first() + seq![0x0au8] + rest);
    }
}

/// Reading a field off a well-formed line recovers the value and the rest.
proof fn lemma_read_field_of_line(label: &str, v: Seq<u8>, rest: Seq<u8>)
    requires
        line_safe(v),
    ensures
        read_field(ascii_of(label) + v + seq![0x0au8] + rest, ascii_of(label)) == Some((v, rest)),
{
    let lab = ascii_of(label);
    let s = lab + v + seq![0x0au8] + rest;
    assert(s.subrange(0, lab.len() as int) =~= lab);
    assert(starts_with(s, lab));
    let t = s.skip(lab.len() as int);
    assert(t =~= v + seq![0x0au8] + rest);
    lemma_find_nl_concat(v, rest);
    assert(find_nl(t) == v.len());
    assert(t.take(v.len() as int) =~= v);
    assert(t.skip(v.len() as int + 1) =~= rest);
}

/// A space-free value followed by a space: the space found is exactly at
/// the value's end.
proof fn lemma_find_sp_concat(v: Seq<u8>, rest: Seq<u8>)
    requires
        forall|i: int| 0 <= i < v.len() ==> v[i] != 0x20u8,
    ensures
        find_sp(v + seq![0x20u8] + rest) == v.len(),
    decreases v.len(),
{
    let s = v + seq![0x20u8] + rest;
    if v.len() == 0 {
        assert(s[0] == 0x20u8);
    } else {
        assert(s[0] == v[0]);
        lemma_find_sp_concat(v.drop_first(), rest);
        assert(s.drop_first() =~= v.drop_first() + seq![0x20u8] + rest);
    }
}

/// In a space-free value no space is found.
proof fn lemma_find_sp_none(v: Seq<u8>)
    requires
        forall|i: int| 0 <= i < v.len() ==> v[i] != 0x20u8,
    ensures
        find_sp(v) == v.len(),
    decreases v.len(),
{
    if v.len() > 0 {
        lemma_find_sp_none(v.drop_first());
    }
}

/// A join of reference names holds no newline.
proof fn lemma_join_space_line_safe(refs: Seq<Seq<u8>>)
    requires
        forall|i: int| 0 <= i < refs.len() ==> ref_safe(#[trigger] refs[i]),
    ensures
        line_safe(spec_join_space(refs)),
    decreases refs.len(),
{
    if refs.len() == 0 {
    } else if refs.len() == 1 {
        assert(ref_safe(refs[0]));
    } else {
        assert(ref_safe(refs[0]));
        assert(forall|i: int|
            0 <= i < refs.drop_first().len() ==> ref_safe(#[trigger] refs.drop_first()[i]));
        lemma_join_space_line_safe(refs.drop_first());
        let j = refs[0] + seq![0x20u8] + spec_join_space(refs.drop_first());
        assert forall|i: int| 0 <= i < j.len() implies j[i] != 0x0au8 by {
            if i < refs[0].len() {
                assert(j[i] == refs[0][i]);
            } else if i == refs[0].len() {
            } else {
                assert(j[i] == spec_join_space(refs.drop_first())[i - refs[0].len() - 1]);
            }
        }
    }
}

/// Splitting a join of reference names on spaces recovers the names.
proof fn lemma_split_of_join(refs: Seq<Seq<u8>>)
    requires
        forall|i: int| 0 <= i < refs.len() ==> ref_safe(#[trigger] refs[i]),
    ensures
        spec_split_space(spec_join_space(refs)) =~= refs,
    decreases refs.len(),
{
    if refs.len() == 0 {
    } else if refs.len() == 1 {
        let r0 = refs[0];
        assert(ref_safe(r0));
        lemma_find_sp_none(r0);
        assert(spec_split_space(r0) =~= seq![r0]);
        assert(refs =~= seq![r0]);
    } else {
        let r0 = refs[0];
        assert(ref_safe(r0));
        let tail = spec_join_space(refs.drop_first());
        let s = r0 + seq![0x20u8] + tail;
        assert(spec_join_space(refs) == s);
        lemma_find_sp_concat(r0, tail);
        assert(find_sp(s) == r0.len());
        assert(s.len() == r0.len() + 1 + tail.len());
        assert(s.take(r0.len() as int) =~= r0);
        assert(s.skip(r0.len() as int + 1) =~= tail);
        assert(forall|i: int|
            0 <= i < refs.drop_first().len() ==> ref_safe(#[trigger] refs.drop_first()[i]));
        lemma_split_of_join(refs.drop_first());
        assert(spec_split_space(s) =~= seq![r0] + spec_split_space(tail));
        assert(seq![r0] + refs.drop_first() =~= refs);
    }
}

/// The round trip: a well-formed descriptor written in the text format
/// parses back to itself, every field intact.
#[verifier::rlimit(80)]
pub proof fn lemma_narinfo_round_trip(v: NarInfoV)
    requires
        narinfo_wf(v),
    ensures
        spec_parse(spec_serialize(v)) == Some(v),
{
    let nl = seq![0x0au8];
    let rest6 = match v.ca {
        Some(c) => field_line("CA: ", c),
        None => Seq::<u8>::empty(),
    };
    let joined = spec_join_space(v.references);
    let digits = dec_seq(v.nar_size as nat);
    let rest5 = field_line("References: ", joined) + rest6;
    let rest4 = field_line("NarSize: ", digits) + rest5;
    let rest3 = field_line("NarHash: ", v.nar_hash) + rest4;
    let rest2 = field_line("Compression: ", v.compression) + rest3;
    let rest1 = field_line("URL: ", v.url) + rest2;
    let s = spec_serialize(v);

    assert(s =~= ascii_of("StorePath: ") + v.store_path + nl + rest1);
    lemma_read_field_of_line("StorePath: ", v.store_path, rest1);
    assert(read_field(s, ascii_of("StorePath: ")) == Some((v.store_path, rest1)));

    assert(rest1 =~= ascii_of("URL: ") + v.url + nl + rest2);
    lemma_read_field_of_line("URL: ", v.url, rest2);
    assert(read_field(rest1, ascii_of("URL: ")) == Some((v.url, rest2)));

    assert(rest2 =~= ascii_of("Compression: ") + v.compression + nl + rest3);
    lemma_read_field_of_line("Compression: ", v.compression, rest3);
    assert(read_field(rest2, ascii_of("Compression: ")) == Some((v.compression, rest3)));

    assert(rest3 =~= ascii_of("NarHash: ") + v.nar_hash + nl + rest4);
    lemma_read_field_of_line("NarHash: ", v.nar_hash, rest4);
    assert(read_field(rest3, ascii_of("NarHash: ")) == Some((v.nar_hash, rest4)));

    crate::numeric::lemma_dec_seq_digits(v.nar_size as nat);
    assert(line_safe(digits));
    assert(rest4 =~= ascii_of("NarSize: ") + digits + nl + rest5);
    lemma_read_field_of_line("NarSize: ", digits, rest5);
    assert(read_field(rest4, ascii_of("NarSize: ")) == Some((digits, rest5)));
    crate::numeric::lemma_dec_round_trip(v.nar_size);
    assert(parse_dec_spec(digits) == Some(v.nar_size));

    lemma_join_space_line_safe(v.references);
    assert(rest5 =~= ascii_of("References: ") + joined + nl + rest6);
    lemma_read_field_of_line("References: ", joined, rest6);
    assert(read_field(rest5, ascii_of("References: ")) == Some((joined, rest6)));
    lemma_split_of_join(v.references);
    assert(spec_split_space(joined) == v.references);

    match v.ca {
        None => {
            assert(rest6.len() == 0);
        },
        Some(c) => {
            assert(rest6 =~= ascii_of("CA: ") + c + nl + Seq::<u8>::empty());
            assert(rest6.len() > 0);
            lemma_read_field_of_line("CA: ", c, Seq::<u8>::empty());
            assert(read_field(rest6, ascii_of("CA: ")) == Some((c, Seq::<u8>::empty())));
        },
    }
}

proof fn lemma_join_space_take(m: Seq<Seq<u8>>, i: int)
    requires
        0 <= i < m.len(),
    ensures
        i == 0 ==> spec_join_space(m.take(1)) == m[0],
        i > 0 ==> spec_join_space(m.take(i + 1)) == spec_join_space(m.take(i)) + seq![0x20u8]
            + m[i],
    decreases i,
{
    let sp = seq![0x20u8];
    if i == 0 {
        assert(m.take(1) =~= seq![m[0]]);
        assert(spec_join_space(seq![m[0]]) == m[0]);
    } else {
        let m1 = m.drop_first();
        lemma_join_space_take(m1, i - 1);
        let t1 = m.take(i + 1);
        assert(t1.len() == i + 1);
        assert(t1[0] == m[0]);
        assert(t1.drop_first() =~= m1.take(i));
        assert(spec_join_space(t1) == m[0] + sp + spec_join_space(m1.take(i)));
        if i == 1 {
            assert(m.take(1) =~= seq![m[0]]);
            assert(m1.take(1) =~= seq![m1[0]]);
            assert(spec_join_space(m1.take(1)) == m1[0]);
            assert(m1[0] == m[1]);
            assert(spec_join_space(t1) =~= spec_join_space(m.take(1)) + sp + m[1]);
        } else {
            let t0 = m.take(i);
            assert(t0.len() == i);
            assert(t0[0] == m[0]);
            assert(t0.drop_first() =~= m1.take(i - 1));
            assert(spec_join_space(t0) == m[0] + sp + spec_join_space(m1.take(i - 1)));
            assert(m1[i - 1] == m[i]);
            assert(spec_join_space(t1) =~= spec_join_space(t0) + sp + m[i]);
        }
    }
}

} // verus!
