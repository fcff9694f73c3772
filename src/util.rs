//! The decoders shared by every interface file: single values, space- and
//! newline-separated lists, flat-keyed blocks and nested-keyed tables.
use vstd::prelude::*;

use crate::error::{decoded, malformed, malformed_err, outcome, CGroupError, Result};
use crate::num::{parse_signed, parse_unsigned, signed_value, unsigned_value};
use crate::text::{
    first_line, split_char, split_on, split_once, split_once_char, split_words, texts, words,
};
use crate::{FieldKey, FieldRecord, FieldValue, FlatKeyedSetter};

verus! {

impl FieldValue for u8 {
    open spec fn parse_spec(s: Seq<char>) -> Option<u8> {
        match unsigned_value(s, u8::MAX as nat) {
            Some(v) => Some(v as u8),
            None => None,
        }
    }

    fn parse(s: &str) -> (r: Option<u8>) {
        match parse_unsigned(s, u8::MAX as u64) {
            Some(v) => Some(v as u8),
            None => None,
        }
    }
}

impl FieldValue for u16 {
    open spec fn parse_spec(s: Seq<char>) -> Option<u16> {
        match unsigned_value(s, u16::MAX as nat) {
            Some(v) => Some(v as u16),
            None => None,
        }
    }

    fn parse(s: &str) -> (r: Option<u16>) {
        match parse_unsigned(s, u16::MAX as u64) {
            Some(v) => Some(v as u16),
            None => None,
        }
    }
}

impl FieldValue for u32 {
    open spec fn parse_spec(s: Seq<char>) -> Option<u32> {
        match unsigned_value(s, u32::MAX as nat) {
            Some(v) => Some(v as u32),
            None => None,
        }
    }

    fn parse(s: &str) -> (r: Option<u32>) {
        match parse_unsigned(s, u32::MAX as u64) {
            Some(v) => Some(v as u32),
            None => None,
        }
    }
}

impl FieldValue for u64 {
    open spec fn parse_spec(s: Seq<char>) -> Option<u64> {
        match unsigned_value(s, u64::MAX as nat) {
            Some(v) => Some(v as u64),
            None => None,
        }
    }

    fn parse(s: &str) -> (r: Option<u64>) {
        parse_unsigned(s, u64::MAX)
    }
}

impl FieldValue for i8 {
    open spec fn parse_spec(s: Seq<char>) -> Option<i8> {
        match signed_value(s, i8::MAX as nat) {
            Some(v) => Some(v as i8),
            None => None,
        }
    }

    fn parse(s: &str) -> (r: Option<i8>) {
        match parse_signed(s, i8::MAX as u64) {
            Some(v) => Some(v as i8),
            None => None,
        }
    }
}

impl FieldValue for i32 {
    open spec fn parse_spec(s: Seq<char>) -> Option<i32> {
        match signed_value(s, i32::MAX as nat) {
            Some(v) => Some(v as i32),
            None => None,
        }
    }

    fn parse(s: &str) -> (r: Option<i32>) {
        match parse_signed(s, i32::MAX as u64) {
            Some(v) => Some(v as i32),
            None => None,
        }
    }
}

/// A kernel flag: `1` is set, `0` is clear.
impl FieldValue for bool {
    open spec fn parse_spec(s: Seq<char>) -> Option<bool> {
        if s == seq!['1'] {
            Some(true)
        } else if s == seq!['0'] {
            Some(false)
        } else {
            None
        }
    }

    fn parse(s: &str) -> (r: Option<bool>) {
        if s.unicode_len() != 1 {
            return None;
        }
        let c = s.get_char(0);
        assert(s@ =~= seq![c]);
        if c == '1' {
            Some(true)
        } else if c == '0' {
            Some(false)
        } else {
            None
        }
    }
}

impl FieldKey for String {
    fn same_key(&self, other: &String) -> (r: bool) {
        *self == *other
    }
}

/// A write of `content` to the interface file at `path`.
#[derive(Debug)]
pub struct FileWrite {
    pub path: String,
    pub content: String,
}

/// The path of the file `name` in directory `dir`, as `PathBuf::push` forms it.
pub open spec fn join_path(dir: Seq<char>, name: Seq<char>) -> Seq<char> {
    if dir.len() == 0 || dir.last() == '/' {
        dir + name
    } else {
        dir + seq!['/'] + name
    }
}

/// The path of the file `name` in directory `dir`.
pub fn file_path(dir: &str, name: &str) -> (r: String)
    ensures
        r@ == join_path(dir@, name@),
{
    let n = dir.unicode_len();
    let d = String::from_str(dir);
    if n == 0 || dir.get_char(n - 1) == '/' {
        d.concat(name)
    } else {
        proof {
            reveal_strlit("/");
        }
        let with_sep = d.concat("/");
        with_sep.concat(name)
    }
}

/// The write of `content` to the file `name` in directory `dir`.
pub fn file_write(dir: &str, name: &str, content: String) -> (r: FileWrite)
    ensures
        r.path@ == join_path(dir@, name@),
        r.content == content,
{
    FileWrite { path: file_path(dir, name), content }
}

/// The values that the pieces denote, in order; pieces that denote none are left out.
pub open spec fn parsed_values<T: FieldValue>(pieces: Seq<Seq<char>>) -> Seq<T> {
    pieces.filter_map(|p: Seq<char>| T::parse_spec(p))
}

/// The map that a sequence of entries stands for, later entries overriding
/// earlier ones with the same key.
pub open spec fn entries_map<K: View, V>(es: Seq<(K, V)>) -> Map<K::V, V>
    decreases es.len(),
{
    if es.len() == 0 {
        Map::empty()
    } else {
        entries_map(es.drop_last()).insert(es.last().0@, es.last().1)
    }
}

/// No two entries share a key.
pub open spec fn distinct_keys<K: View, V>(es: Seq<(K, V)>) -> bool {
    forall|i: int, j: int|
        0 <= i < es.len() && 0 <= j < es.len() && i != j ==> es[i].0@ != es[j].0@
}

pub proof fn lemma_entries_map_update<K: View, V>(es: Seq<(K, V)>, j: int, k: K, v: V)
    requires
        distinct_keys(es),
        0 <= j < es.len(),
        es[j].0@ == k@,
    ensures
        entries_map(es.update(j, (k, v))) == entries_map(es).insert(k@, v),
    decreases es.len(),
{
    let u = es.update(j, (k, v));
    if j == es.len() - 1 {
        assert(u.drop_last() =~= es.drop_last());
        assert(entries_map(u) =~= entries_map(es).insert(k@, v));
    } else {
        assert(u.drop_last() =~= es.drop_last().update(j, (k, v)));
        lemma_entries_map_update(es.drop_last(), j, k, v);
        assert(es.last().0@ != k@);
        assert(entries_map(u) =~= entries_map(es).insert(k@, v));
    }
}

/// Sets the entry for `k` to `v`, replacing the entry with the same key if there
/// is one and adding one at the end if not.
pub fn upsert<K: FieldKey, V>(es: &mut Vec<(K, V)>, k: K, v: V)
    requires
        distinct_keys(old(es)@),
    ensures
        distinct_keys(final(es)@),
        entries_map(final(es)@) == entries_map(old(es)@).insert(k@, v),
        forall|i: int|
            0 <= i < final(es)@.len() ==> #[trigger] final(es)@[i] == (k, v) || old(
                es,
            )@.contains(final(es)@[i]),
{
    let n = es.len();
    let mut j: usize = 0;
    while j < n
        invariant
            n == es@.len(),
            es@ == old(es)@,
            distinct_keys(es@),
            j <= n,
            forall|i: int| 0 <= i < j ==> es@[i].0@ != k@,
        decreases n - j,
    {
        if es[j].0.same_key(&k) {
            proof {
                lemma_entries_map_update(es@, j as int, k, v);
            }
            let ghost before = es@;
            es[j] = (k, v);
            proof {
                assert forall|i: int| 0 <= i < es@.len() && es@[i] != (k, v) implies #[trigger] before.contains(es@[i]) by {
                    assert(before[i] == es@[i]);
                }
            }
            return;
        }
        j = j + 1;
    }
    let ghost before = es@;
    proof {
        assert(es@.push((k, v)).drop_last() =~= es@);
    }
    es.push((k, v));
    proof {
        assert forall|i: int| 0 <= i < es@.len() && es@[i] != (k, v) implies #[trigger] before.contains(es@[i]) by {
            assert(before[i] == es@[i]);
        }
    }
}

/// Decodes a list of values separated by whitespace. Tokens that do not decode are
/// left out: a value that this library does not model must not hide the others.
pub fn read_space_separated_values<T: FieldValue>(content: String) -> (r: Vec<T>)
    ensures
        r@ == parsed_values::<T>(words(content@)),
{
    let pieces = split_words(content.as_str());
    values_of(&pieces)
}

/// Decodes a list of values, one per line. Lines that do not decode are left out.
pub fn read_newline_separated_values<T: FieldValue>(content: String) -> (r: Vec<T>)
    ensures
        r@ == parsed_values::<T>(split_on(content@, '\n')),
{
    let pieces = split_char(content.as_str(), '\n');
    values_of(&pieces)
}

fn values_of<T: FieldValue>(pieces: &Vec<String>) -> (r: Vec<T>)
    ensures
        r@ == parsed_values::<T>(texts(pieces@)),
{
    let mut out: Vec<T> = Vec::new();
    let mut i: usize = 0;
    while i < pieces.len()
        invariant
            i <= pieces@.len(),
            out@ == parsed_values::<T>(texts(pieces@).subrange(0, i as int)),
        decreases pieces@.len() - i,
    {
        let ghost pre = texts(pieces@).subrange(0, i as int + 1);
        assert(pre.drop_last() =~= texts(pieces@).subrange(0, i as int));
        assert(pre.last() == pieces@[i as int]@);
        match T::parse(pieces[i].as_str()) {
            Some(v) => {
                out.push(v);
            },
            None => {},
        }
        i = i + 1;
    }
    assert(texts(pieces@).subrange(0, i as int) =~= texts(pieces@));
    out
}

/// `r` is what decoding a single-value file with content `content` gives: an empty
/// file has no value, otherwise the first line is the value.
pub open spec fn single_decoded<T: FieldValue>(r: Result<T>, content: Seq<char>) -> bool {
    if content.len() == 0 {
        r == Err::<T, CGroupError>(CGroupError::EmptyFileErr)
    } else {
        decoded(r, T::parse_spec(first_line(content)), content)
    }
}

/// Decodes a file that holds one value: the first line is the value. An empty
/// file is [`CGroupError::EmptyFileErr`]; a first line that does not decode is
/// malformed content.
pub fn read_single_value<T: FieldValue>(content: &str) -> (r: Result<T>)
    ensures
        single_decoded(r, content@),
{
    if content.unicode_len() == 0 {
        return Err(CGroupError::EmptyFileErr);
    }
    let lines = split_char(content, '\n');
    proof {
        crate::text::lemma_split_on_nonempty(content@, '\n');
    }
    match T::parse(lines[0].as_str()) {
        Some(v) => Ok(v),
        None => malformed_err(content),
    }
}

/// Decodes a file whose whole content is one value. An empty file is
/// [`CGroupError::EmptyFileErr`].
pub fn read_value<T: FieldValue>(content: &str) -> (r: Result<T>)
    ensures
        content@.len() == 0 ==> r == Err::<T, CGroupError>(CGroupError::EmptyFileErr),
        content@.len() > 0 ==> decoded(r, T::parse_spec(content@), content@),
{
    if content.unicode_len() == 0 {
        return Err(CGroupError::EmptyFileErr);
    }
    match T::parse(content) {
        Some(v) => Ok(v),
        None => malformed_err(content),
    }
}

/// The `k=v` words `segs` of the line `line` applied in order to record `t`: a
/// word without `=` puts the whole line at fault; a value for a field of the
/// record must decode (else it is at fault), and sets it.
pub open spec fn inline_fields<V: FieldValue, T: FlatKeyedSetter<V>>(
    line: Seq<char>,
    t: T,
    segs: Seq<Seq<char>>,
) -> core::result::Result<T, Seq<char>>
    decreases segs.len(),
{
    if segs.len() == 0 {
        Ok(t)
    } else {
        let ps = split_on(segs[0], '=');
        if ps.len() < 2 {
            Err(line)
        } else if T::knows(ps[0]) {
            match V::parse_spec(ps[1]) {
                Some(v) => inline_fields::<V, T>(line, t.with_field(ps[0], v), segs.drop_first()),
                None => Err(ps[1]),
            }
        } else {
            inline_fields::<V, T>(line, t, segs.drop_first())
        }
    }
}

/// The record that a line of `k=v` words holds, or the text at fault.
pub open spec fn inline_record<V: FieldValue, T: FlatKeyedSetter<V>>(s: Seq<char>) -> core::result::Result<
    T,
    Seq<char>,
> {
    inline_fields::<V, T>(s, T::initial(), words(s))
}

/// Decodes a line of `k=v` words into a record: fields that the line does not
/// name keep their defaults, keys that the record does not know are passed over.
pub fn read_inline_record<V: FieldValue, T: FlatKeyedSetter<V>>(s: &str) -> (r: Result<T>)
    ensures
        outcome(r, inline_record::<V, T>(s@)),
{
    let ws = split_words(s);
    let ghost all = texts(ws@);
    let mut t = T::new();
    let mut i: usize = 0;
    assert(all.subrange(0, all.len() as int) =~= all);
    while i < ws.len()
        invariant
            all == texts(ws@),
            all == words(s@),
            i <= ws@.len(),
            inline_record::<V, T>(s@) == inline_fields::<V, T>(
                s@,
                t,
                all.subrange(i as int, all.len() as int),
            ),
        decreases ws@.len() - i,
    {
        let ghost rest = all.subrange(i as int, all.len() as int);
        assert(rest[0] == ws@[i as int]@);
        assert(rest.drop_first() =~= all.subrange(i as int + 1, all.len() as int));
        let ps = split_char(ws[i].as_str(), '=');
        if ps.len() < 2 {
            return malformed_err(s);
        }
        if T::is_field(ps[0].as_str()) {
            match V::parse(ps[1].as_str()) {
                Some(v) => t.set(ps[0].as_str(), v),
                None => {
                    return malformed_err(ps[1].as_str());
                },
            }
        }
        i = i + 1;
    }
    Ok(t)
}

/// One line of a flat-keyed block applied to record `t`: the line must hold a key
/// and a value; a value for a field of the record must decode, and sets it; a line
/// for any other key leaves the record as it is.
pub open spec fn flat_line<V: FieldValue, T: FlatKeyedSetter<V>>(t: T, line: Seq<char>) -> Option<
    T,
> {
    let ws = words(line);
    if ws.len() < 2 {
        None
    } else if T::knows(ws[0]) {
        match V::parse_spec(ws[1]) {
            Some(v) => Some(t.with_field(ws[0], v)),
            None => None,
        }
    } else {
        Some(t)
    }
}

/// The lines of a flat-keyed block applied in order to `t`, up to the first blank line.
pub open spec fn flat_lines<V: FieldValue, T: FlatKeyedSetter<V>>(
    t: T,
    lines: Seq<Seq<char>>,
) -> Option<T>
    decreases lines.len(),
{
    if lines.len() == 0 || lines[0].len() == 0 {
        Some(t)
    } else {
        match flat_line::<V, T>(t, lines[0]) {
            Some(t2) => flat_lines::<V, T>(t2, lines.drop_first()),
            None => None,
        }
    }
}

/// The record that a flat-keyed file holds, if it is well formed.
pub open spec fn flat_record<V: FieldValue, T: FlatKeyedSetter<V>>(content: Seq<char>) -> Option<T> {
    flat_lines::<V, T>(T::initial(), split_on(content, '\n'))
}

/// Decodes a flat-keyed file into a record: fields that the file does not name
/// keep their defaults, keys that the record does not know are passed over.
pub fn read_flat_keyed_file<V: FieldValue, T: FlatKeyedSetter<V>>(content: &str) -> (r: Result<T>)
    ensures
        decoded(r, flat_record::<V, T>(content@), content@),
{
    let lines = split_char(content, '\n');
    let ghost all = texts(lines@);
    let mut t = T::new();
    let mut i: usize = 0;
    assert(all.subrange(0, all.len() as int) =~= all);
    while i < lines.len()
        invariant
            all == texts(lines@),
            all == split_on(content@, '\n'),
            i <= lines@.len(),
            flat_record::<V, T>(content@) == flat_lines::<V, T>(
                t,
                all.subrange(i as int, all.len() as int),
            ),
        decreases lines@.len() - i,
    {
        let ghost rest = all.subrange(i as int, all.len() as int);
        assert(rest[0] == lines@[i as int]@);
        assert(rest.drop_first() =~= all.subrange(i as int + 1, all.len() as int));
        let line = lines[i].as_str();
        if line.unicode_len() == 0 {
            return Ok(t);
        }
        let ws = split_words(line);
        if ws.len() < 2 {
            return malformed_err(content);
        }
        if T::is_field(ws[0].as_str()) {
            match V::parse(ws[1].as_str()) {
                Some(v) => t.set(ws[0].as_str(), v),
                None => {
                    return malformed_err(content);
                },
            }
        }
        i = i + 1;
    }
    Ok(t)
}

/// One line of a flat-keyed block added to map `m`: the line must hold a key and
/// a value that decodes.
pub open spec fn map_line<V: FieldValue>(m: Map<Seq<char>, V>, line: Seq<char>) -> Option<
    Map<Seq<char>, V>,
> {
    let ws = words(line);
    if ws.len() < 2 {
        None
    } else {
        match V::parse_spec(ws[1]) {
            Some(v) => Some(m.insert(ws[0], v)),
            None => None,
        }
    }
}

pub open spec fn map_lines<V: FieldValue>(m: Map<Seq<char>, V>, lines: Seq<Seq<char>>) -> Option<
    Map<Seq<char>, V>,
>
    decreases lines.len(),
{
    if lines.len() == 0 || lines[0].len() == 0 {
        Some(m)
    } else {
        match map_line::<V>(m, lines[0]) {
            Some(m2) => map_lines::<V>(m2, lines.drop_first()),
            None => None,
        }
    }
}

/// The map from key to value that a flat-keyed file with an open set of keys
/// holds, if it is well formed.
pub open spec fn flat_map<V: FieldValue>(content: Seq<char>) -> Option<Map<Seq<char>, V>> {
    map_lines::<V>(Map::empty(), split_on(content, '\n'))
}

/// Decodes a flat-keyed file with an open set of keys into its entries, one per key.
pub fn read_flat_keyed_file_map<V: FieldValue>(content: &str) -> (r: Result<Vec<(String, V)>>)
    ensures
        match r {
            Ok(es) => distinct_keys(es@) && flat_map::<V>(content@) == Some(entries_map(es@)),
            Err(_) => flat_map::<V>(content@) is None && malformed(r, content@),
        },
{
    let lines = split_char(content, '\n');
    let ghost all = texts(lines@);
    let mut out: Vec<(String, V)> = Vec::new();
    let mut i: usize = 0;
    assert(all.subrange(0, all.len() as int) =~= all);
    assert(entries_map(out@) =~= Map::empty());
    while i < lines.len()
        invariant
            all == texts(lines@),
            all == split_on(content@, '\n'),
            i <= lines@.len(),
            distinct_keys(out@),
            flat_map::<V>(content@) == map_lines::<V>(
                entries_map(out@),
                all.subrange(i as int, all.len() as int),
            ),
        decreases lines@.len() - i,
    {
        let ghost rest = all.subrange(i as int, all.len() as int);
        assert(rest[0] == lines@[i as int]@);
        assert(rest.drop_first() =~= all.subrange(i as int + 1, all.len() as int));
        let line = lines[i].as_str();
        if line.unicode_len() == 0 {
            return Ok(out);
        }
        let ws = split_words(line);
        if ws.len() < 2 {
            return malformed_err(content);
        }
        match V::parse(ws[1].as_str()) {
            Some(v) => upsert(&mut out, ws[0].clone(), v),
            None => {
                return malformed_err(content);
            },
        }
        i = i + 1;
    }
    Ok(out)
}

/// The lines of a nested-keyed file `content` added in order to the map `m`, up
/// to the first blank line. The text up to the first space is the key, the rest
/// of the line the record. The outcome is the map, or the text at fault: the
/// whole content for a line without a space, the key text for a key that does
/// not decode, the record's own fault for a record that does not.
pub open spec fn nested_lines<K: FieldValue + View, V: FieldRecord>(
    content: Seq<char>,
    m: Map<K::V, V>,
    lines: Seq<Seq<char>>,
) -> core::result::Result<Map<K::V, V>, Seq<char>>
    decreases lines.len(),
{
    if lines.len() == 0 || lines[0].len() == 0 {
        Ok(m)
    } else {
        match split_once(lines[0], ' ') {
            None => Err(content),
            Some((k, rest)) => match K::parse_spec(k) {
                None => Err(k),
                Some(kv) => match V::parse_spec(rest) {
                    None => Err(V::fault(rest)),
                    Some(vv) => nested_lines::<K, V>(content, m.insert(kv@, vv), lines.drop_first()),
                },
            },
        }
    }
}

/// The table from key to record that a nested-keyed file holds, or the text at fault.
pub open spec fn nested_table<K: FieldValue + View, V: FieldRecord>(content: Seq<char>) -> core::result::Result<
    Map<K::V, V>,
    Seq<char>,
> {
    nested_lines::<K, V>(content, Map::empty(), split_on(content, '\n'))
}

/// Decodes a nested-keyed file into its entries, one per key, each line's record
/// decoded from the text after its key.
pub fn read_nested_keyed_file<K: FieldValue + FieldKey, V: FieldRecord>(content: &str) -> (r:
    Result<Vec<(K, V)>>)
    ensures
        match nested_table::<K, V>(content@) {
            Ok(m) => r is Ok && distinct_keys(r->Ok_0@) && entries_map(r->Ok_0@) == m,
            Err(t) => malformed(r, t),
        },
{
    let lines = split_char(content, '\n');
    let ghost all = texts(lines@);
    let mut out: Vec<(K, V)> = Vec::new();
    let mut i: usize = 0;
    assert(all.subrange(0, all.len() as int) =~= all);
    assert(entries_map(out@) =~= Map::empty());
    while i < lines.len()
        invariant
            all == texts(lines@),
            all == split_on(content@, '\n'),
            i <= lines@.len(),
            distinct_keys(out@),
            nested_table::<K, V>(content@) == nested_lines::<K, V>(
                content@,
                entries_map(out@),
                all.subrange(i as int, all.len() as int),
            ),
        decreases lines@.len() - i,
    {
        let ghost rest = all.subrange(i as int, all.len() as int);
        assert(rest[0] == lines@[i as int]@);
        assert(rest.drop_first() =~= all.subrange(i as int + 1, all.len() as int));
        let line = lines[i].as_str();
        if line.unicode_len() == 0 {
            return Ok(out);
        }
        match split_once_char(line, ' ') {
            None => {
                return malformed_err(content);
            },
            Some((k, v)) => match K::parse(k.as_str()) {
                None => {
                    return malformed_err(k.as_str());
                },
                Some(kv) => match V::decode(v.as_str()) {
                    Ok(vv) => upsert(&mut out, kv, vv),
                    Err(e) => {
                        return Err(e);
                    },
                },
            },
        }
        i = i + 1;
    }
    Ok(out)
}

/// One `k=v` segment added to map `m`: both sides of the first `=` must decode.
pub open spec fn segment_pair<K: FieldValue + View, V: FieldValue>(
    m: Map<K::V, V>,
    seg: Seq<char>,
) -> Option<Map<K::V, V>> {
    let ps = split_on(seg, '=');
    if ps.len() < 2 {
        None
    } else {
        match (K::parse_spec(ps[0]), V::parse_spec(ps[1])) {
            (Some(k), Some(v)) => Some(m.insert(k@, v)),
            _ => None,
        }
    }
}

pub open spec fn segment_pairs<K: FieldValue + View, V: FieldValue>(
    m: Map<K::V, V>,
    segs: Seq<Seq<char>>,
) -> Option<Map<K::V, V>>
    decreases segs.len(),
{
    if segs.len() == 0 {
        Some(m)
    } else {
        match segment_pair::<K, V>(m, segs[0]) {
            Some(m2) => segment_pairs::<K, V>(m2, segs.drop_first()),
            None => None,
        }
    }
}

/// One line of a two-level nested-keyed table added to `m`: the first word is the
/// outer key, each further word a `k=v` pair of the inner map. A line of
/// whitespace only is passed over.
pub open spec fn nested_map_line<K1: FieldValue + View, K2: FieldValue + View, V2: FieldValue>(
    m: Map<K1::V, Map<K2::V, V2>>,
    line: Seq<char>,
) -> Option<Map<K1::V, Map<K2::V, V2>>> {
    let ws = words(line);
    if ws.len() == 0 {
        Some(m)
    } else {
        match K1::parse_spec(ws[0]) {
            None => None,
            Some(k1) => match segment_pairs::<K2, V2>(Map::empty(), ws.drop_first()) {
                Some(inner) => Some(m.insert(k1@, inner)),
                None => None,
            },
        }
    }
}

pub open spec fn nested_map_lines<K1: FieldValue + View, K2: FieldValue + View, V2: FieldValue>(
    m: Map<K1::V, Map<K2::V, V2>>,
    lines: Seq<Seq<char>>,
) -> Option<Map<K1::V, Map<K2::V, V2>>>
    decreases lines.len(),
{
    if lines.len() == 0 || lines[0].len() == 0 {
        Some(m)
    } else {
        match nested_map_line::<K1, K2, V2>(m, lines[0]) {
            Some(m2) => nested_map_lines::<K1, K2, V2>(m2, lines.drop_first()),
            None => None,
        }
    }
}

/// The two-level table that a nested-keyed file holds, if it is well formed.
pub open spec fn nested_map<K1: FieldValue + View, K2: FieldValue + View, V2: FieldValue>(
    content: Seq<char>,
) -> Option<Map<K1::V, Map<K2::V, V2>>> {
    nested_map_lines::<K1, K2, V2>(Map::empty(), split_on(content, '\n'))
}

/// The two-level map that outer entries holding inner entries stand for.
pub open spec fn nested_view<K1: View, K2: View, V2>(es: Seq<(K1, Vec<(K2, V2)>)>) -> Map<
    K1::V,
    Map<K2::V, V2>,
> {
    entries_map(es).map_values(|inner: Vec<(K2, V2)>| entries_map(inner@))
}

/// Every inner sequence of entries has distinct keys.
pub open spec fn inner_distinct<K1, K2: View, V2>(es: Seq<(K1, Vec<(K2, V2)>)>) -> bool {
    forall|i: int| 0 <= i < es.len() ==> distinct_keys(#[trigger] es[i].1@)
}

/// Decodes the `k=v` words of `ws` from index `from` on into entries.
fn pairs_from<K: FieldValue + FieldKey, V: FieldValue>(ws: &Vec<String>, from: usize) -> (r: Option<
    Vec<(K, V)>,
>)
    requires
        from <= ws@.len(),
    ensures
        match r {
            Some(es) => distinct_keys(es@) && segment_pairs::<K, V>(
                Map::empty(),
                texts(ws@).subrange(from as int, ws@.len() as int),
            ) == Some(entries_map(es@)),
            None => segment_pairs::<K, V>(
                Map::empty(),
                texts(ws@).subrange(from as int, ws@.len() as int),
            ) is None,
        },
{
    let ghost all = texts(ws@);
    let mut out: Vec<(K, V)> = Vec::new();
    let mut i: usize = from;
    assert(entries_map(out@) =~= Map::empty());
    while i < ws.len()
        invariant
            all == texts(ws@),
            from <= i <= ws@.len(),
            distinct_keys(out@),
            segment_pairs::<K, V>(Map::empty(), all.subrange(from as int, all.len() as int))
                == segment_pairs::<K, V>(
                entries_map(out@),
                all.subrange(i as int, all.len() as int),
            ),
        decreases ws@.len() - i,
    {
        let ghost rest = all.subrange(i as int, all.len() as int);
        assert(rest[0] == ws@[i as int]@);
        assert(rest.drop_first() =~= all.subrange(i as int + 1, all.len() as int));
        let ps = split_char(ws[i].as_str(), '=');
        if ps.len() < 2 {
            return None;
        }
        match (K::parse(ps[0].as_str()), V::parse(ps[1].as_str())) {
            (Some(k), Some(v)) => upsert(&mut out, k, v),
            _ => {
                return None;
            },
        }
        i = i + 1;
    }
    Some(out)
}

/// Decodes a nested-keyed file into a two-level table: for each line, the first
/// word is the outer key and each further `k=v` word an entry of its inner table.
pub fn read_nested_keyed_file_to_map<
    K1: FieldValue + FieldKey,
    K2: FieldValue + FieldKey,
    V2: FieldValue,
>(content: &str) -> (r: Result<Vec<(K1, Vec<(K2, V2)>)>>)
    ensures
        match r {
            Ok(es) => distinct_keys(es@) && inner_distinct(es@) && nested_map::<K1, K2, V2>(
                content@,
            ) == Some(nested_view(es@)),
            Err(_) => nested_map::<K1, K2, V2>(content@) is None && malformed(r, content@),
        },
{
    let lines = split_char(content, '\n');
    let ghost all = texts(lines@);
    let mut out: Vec<(K1, Vec<(K2, V2)>)> = Vec::new();
    let mut i: usize = 0;
    assert(all.subrange(0, all.len() as int) =~= all);
    assert(nested_view(out@) =~= Map::empty());
    while i < lines.len()
        invariant
            all == texts(lines@),
            all == split_on(content@, '\n'),
            i <= lines@.len(),
            distinct_keys(out@),
            inner_distinct(out@),
            nested_map::<K1, K2, V2>(content@) == nested_map_lines::<K1, K2, V2>(
                nested_view(out@),
                all.subrange(i as int, all.len() as int),
            ),
        decreases lines@.len() - i,
    {
        let ghost rest = all.subrange(i as int, all.len() as int);
        assert(rest[0] == lines@[i as int]@);
        assert(rest.drop_first() =~= all.subrange(i as int + 1, all.len() as int));
        let line = lines[i].as_str();
        if line.unicode_len() == 0 {
            return Ok(out);
        }
        let ws = split_words(line);
        if ws.len() > 0 {
            proof {
                assert(texts(ws@).subrange(1, ws@.len() as int) =~= texts(ws@).drop_first());
            }
            match K1::parse(ws[0].as_str()) {
                None => {
                    return malformed_err(content);
                },
                Some(k1) => match pairs_from::<K2, V2>(&ws, 1) {
                    None => {
                        return malformed_err(content);
                    },
                    Some(inner) => {
                        let ghost before = out@;
                        let ghost inner_v = inner;
                        upsert(&mut out, k1, inner);
                        proof {
                            assert(nested_view(out@) =~= nested_view(before).insert(
                                k1@,
                                entries_map(inner_v@),
                            ));
                            assert forall|j: int| 0 <= j < out@.len() implies distinct_keys(
                                #[trigger] out@[j].1@,
                            ) by {
                                if out@[j] != (k1, inner_v) {
                                    assert(before.contains(out@[j]));
                                }
                            }
                        }
                    },
                },
            }
        }
        i = i + 1;
    }
    Ok(out)
}

} // verus!
