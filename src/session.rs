use vstd::prelude::*;
use vstd::bytes::*;
use vstd::slice::*;
use vstd::string::StringSliceAdditionalSpecFns;
use vstd::utf8::*;

verus! {

broadcast use {encode_utf8_valid_utf8, encode_utf8_decode_utf8};

/// The first byte of every stored record: the layout below. A later layout takes another
/// value and keeps reading this one.
pub const RECORD_FORMAT_VERSION: u8 = 1;

/// The bytes before the entries: version, id, expiry and entry count.
pub const RECORD_HEADER_LEN: usize = 29;

/// Why the session store could not do what was asked.
#[derive(Debug, Clone, Copy, PartialEq, Eq, Structural)]
pub enum StoreError {
    /// The backing cache could not be reached: no pooled connection, a network failure or a
    /// timeout.
    Backend,
    /// A record has a text or entry count too long for its length prefix, or an expiry before
    /// the epoch.
    Encode,
    /// Stored bytes are not a record of this format, or a record of another id.
    Decode,
}

/// One server-side session: its id, its key/value data and its expiry (seconds since the
/// epoch). The record is live while the time is before its expiry.
pub struct SessionRecord {
    pub id: u128,
    pub data: Vec<(String, String)>,
    pub expiry: i64,
}

/// What a session record holds, as plain values.
pub ghost struct RecordView {
    pub id: u128,
    pub data: Seq<(Seq<char>, Seq<char>)>,
    pub expiry: i64,
}

pub open spec fn entry_view(p: (String, String)) -> (Seq<char>, Seq<char>) {
    (p.0@, p.1@)
}

impl View for SessionRecord {
    type V = RecordView;

    open spec fn view(&self) -> RecordView {
        RecordView {
            id: self.id,
            data: self.data@.map_values(|p: (String, String)| entry_view(p)),
            expiry: self.expiry,
        }
    }
}

/// A length-prefixed text: its UTF-8 byte count (4 bytes, little endian), then the bytes.
pub open spec fn field_bytes(s: Seq<char>) -> Seq<u8> {
    spec_u32_to_le_bytes(encode_utf8(s).len() as u32) + encode_utf8(s)
}

/// The entries of a record, each as its key field followed by its value field.
pub open spec fn entries_bytes(d: Seq<(Seq<char>, Seq<char>)>) -> Seq<u8>
    decreases d.len(),
{
    if d.len() == 0 {
        Seq::empty()
    } else {
        field_bytes(d[0].0) + field_bytes(d[0].1) + entries_bytes(d.subrange(1, d.len() as int))
    }
}

/// The stored form of a record: format version, id (16 bytes), expiry (8 bytes, two's
/// complement), entry count (4 bytes), then the entries; integers are little endian.
pub open spec fn record_bytes(v: RecordView) -> Seq<u8> {
    seq![RECORD_FORMAT_VERSION] + spec_u128_to_le_bytes(v.id) + spec_u64_to_le_bytes(
        #[verifier::truncate]
        (v.expiry as u64),
    ) + spec_u32_to_le_bytes(v.data.len() as u32) + entries_bytes(v.data)
}

/// Whether every count and length of a record fits its 4-byte prefix.
pub open spec fn encodable(v: RecordView) -> bool {
    &&& v.data.len() <= u32::MAX
    &&& forall|i: int|
        0 <= i < v.data.len() ==> encode_utf8(#[trigger] v.data[i].0).len() <= u32::MAX
            && encode_utf8(v.data[i].1).len() <= u32::MAX
}

/// Reads one length-prefixed text from the front of `b`, with what follows it.
pub open spec fn parse_field(b: Seq<u8>) -> Option<(Seq<char>, Seq<u8>)> {
    if b.len() < 4 {
        None
    } else {
        let n = spec_u32_from_le_bytes(b.subrange(0, 4)) as int;
        if b.len() - 4 < n {
            None
        } else {
            let body = b.subrange(4, 4 + n);
            if valid_utf8(body) {
                Some((decode_utf8(body), b.subrange(4 + n, b.len() as int)))
            } else {
                None
            }
        }
    }
}

/// Reads exactly `count` entries that fill `b`.
pub open spec fn parse_entries(b: Seq<u8>, count: nat) -> Option<Seq<(Seq<char>, Seq<char>)>>
    decreases count,
{
    if count == 0 {
        if b.len() == 0 {
            Some(Seq::empty())
        } else {
            None
        }
    } else {
        match parse_field(b) {
            None => None,
            Some((k, r1)) => match parse_field(r1) {
                None => None,
                Some((v, r2)) => match parse_entries(r2, (count - 1) as nat) {
                    None => None,
                    Some(t) => Some(seq![(k, v)] + t),
                },
            },
        }
    }
}

/// The record that stored bytes hold, if they are a well-formed record of this format.
pub open spec fn parse_record(b: Seq<u8>) -> Option<RecordView> {
    if b.len() < RECORD_HEADER_LEN || b[0] != RECORD_FORMAT_VERSION {
        None
    } else {
        match parse_entries(
            b.subrange(29, b.len() as int),
            spec_u32_from_le_bytes(b.subrange(25, 29)) as nat,
        ) {
            None => None,
            Some(d) => Some(
                RecordView {
                    id: spec_u128_from_le_bytes(b.subrange(1, 17)),
                    data: d,
                    expiry: #[verifier::truncate] (spec_u64_from_le_bytes(b.subrange(17, 25)) as i64),
                },
            ),
        }
    }
}

proof fn lemma_parse_field(s: Seq<char>, rest: Seq<u8>)
    requires
        encode_utf8(s).len() <= u32::MAX,
    ensures
        parse_field(field_bytes(s) + rest) == Some((s, rest)),
{
    lemma_auto_spec_u32_to_from_le_bytes();
    let e = encode_utf8(s);
    let b = field_bytes(s) + rest;
    assert(b.subrange(0, 4) =~= spec_u32_to_le_bytes(e.len() as u32));
    assert(b.subrange(4, 4 + e.len() as int) =~= e);
    assert(b.subrange(4 + e.len() as int, b.len() as int) =~= rest);
}

proof fn lemma_parse_entries(d: Seq<(Seq<char>, Seq<char>)>)
    requires
        forall|i: int|
            0 <= i < d.len() ==> encode_utf8(#[trigger] d[i].0).len() <= u32::MAX && encode_utf8(
                d[i].1,
            ).len() <= u32::MAX,
    ensures
        parse_entries(entries_bytes(d), d.len()) == Some(d),
    decreases d.len(),
{
    if d.len() > 0 {
        let tail = d.subrange(1, d.len() as int);
        assert forall|i: int| 0 <= i < tail.len() implies encode_utf8(#[trigger] tail[i].0).len()
            <= u32::MAX && encode_utf8(tail[i].1).len() <= u32::MAX by {
            assert(tail[i] == d[i + 1]);
        }
        lemma_parse_entries(tail);
        let r2 = entries_bytes(tail);
        let r1 = field_bytes(d[0].1) + r2;
        assert(encode_utf8(d[0].0).len() <= u32::MAX);
        lemma_parse_field(d[0].0, r1);
        lemma_parse_field(d[0].1, r2);
        assert(entries_bytes(d) =~= field_bytes(d[0].0) + r1);
        assert(seq![(d[0].0, d[0].1)] + tail =~= d);
    }
}

proof fn lemma_expiry_round_trip(x: i64)
    ensures
        (#[verifier::truncate] ((#[verifier::truncate] (x as u64)) as i64)) == x,
{
    assert((#[verifier::truncate] ((#[verifier::truncate] (x as u64)) as i64)) == x) by (bit_vector);
}

/// Reading the stored form of a record gives back that record.
pub proof fn lemma_record_round_trip(v: RecordView)
    requires
        encodable(v),
    ensures
        parse_record(record_bytes(v)) == Some(v),
{
    lemma_auto_spec_u32_to_from_le_bytes();
    lemma_auto_spec_u64_to_from_le_bytes();
    lemma_auto_spec_u128_to_from_le_bytes();
    lemma_parse_entries(v.data);
    lemma_expiry_round_trip(v.expiry);
    let b = record_bytes(v);
    assert(b.subrange(1, 17) =~= spec_u128_to_le_bytes(v.id));
    assert(b.subrange(17, 25) =~= spec_u64_to_le_bytes(#[verifier::truncate] (v.expiry as u64)));
    assert(b.subrange(25, 29) =~= spec_u32_to_le_bytes(v.data.len() as u32));
    assert(b.subrange(29, b.len() as int) =~= entries_bytes(v.data));
}

proof fn lemma_entries_bytes_push(d: Seq<(Seq<char>, Seq<char>)>, x: (Seq<char>, Seq<char>))
    ensures
        entries_bytes(d.push(x)) == entries_bytes(d) + field_bytes(x.0) + field_bytes(x.1),
    decreases d.len(),
{
    let dx = d.push(x);
    if d.len() == 0 {
        assert(dx.subrange(1, dx.len() as int) =~= Seq::<(Seq<char>, Seq<char>)>::empty());
        assert(entries_bytes(Seq::<(Seq<char>, Seq<char>)>::empty()) == Seq::<u8>::empty());
        assert(dx[0] == x);
        assert(entries_bytes(dx) =~= entries_bytes(d) + field_bytes(x.0) + field_bytes(x.1));
    } else {
        let t = d.subrange(1, d.len() as int);
        lemma_entries_bytes_push(t, x);
        assert(dx.subrange(1, dx.len() as int) =~= t.push(x));
        assert(dx[0] == d[0]);
        assert(entries_bytes(dx) =~= entries_bytes(d) + field_bytes(x.0) + field_bytes(x.1));
    }
}

/// Relies on `std::str::from_utf8`: the text that valid UTF-8 bytes encode, and `None` for
/// any other bytes.
#[verifier::external_body]
fn utf8_text(b: &[u8]) -> (r: Option<String>)
    ensures
        r is Some == valid_utf8(b@),
        r matches Some(s) ==> s@ == decode_utf8(b@),
{
    std::str::from_utf8(b).ok().map(|s| s.to_owned())
}

fn append_field(out: &mut Vec<u8>, s: &str)
    requires
        encode_utf8(s@).len() <= u32::MAX,
    ensures
        final(out)@ == old(out)@ + field_bytes(s@),
{
    let bytes = s.as_bytes();
    let mut prefix = u32_to_le_bytes(bytes.len() as u32);
    let mut body = slice_to_vec(bytes);
    out.append(&mut prefix);
    out.append(&mut body);
    proof {
        assert(final(out)@ =~= old(out)@ + field_bytes(s@));
    }
}

/// Writes the stored form of a record, or `StoreError::Encode` when a count or length does
/// not fit its prefix.
pub fn encode_record(r: &SessionRecord) -> (out: Result<Vec<u8>, StoreError>)
    ensures
        encodable(r@) ==> (out matches Ok(b) && b@ == record_bytes(r@)),
        !encodable(r@) ==> out == Err::<Vec<u8>, StoreError>(StoreError::Encode),
{
    let ghost v = r@;
    if r.data.len() as u64 > 0xffff_ffffu64 {
        return Err(StoreError::Encode);
    }
    let mut out: Vec<u8> = Vec::new();
    out.push(RECORD_FORMAT_VERSION);
    let mut id_bytes = u128_to_le_bytes(r.id);
    out.append(&mut id_bytes);
    let mut expiry_bytes = u64_to_le_bytes(#[verifier::truncate] (r.expiry as u64));
    out.append(&mut expiry_bytes);
    let mut count_bytes = u32_to_le_bytes(r.data.len() as u32);
    out.append(&mut count_bytes);
    let ghost header = out@;
    proof {
        assert(header =~= seq![RECORD_FORMAT_VERSION] + spec_u128_to_le_bytes(v.id)
            + spec_u64_to_le_bytes(#[verifier::truncate] (v.expiry as u64)) + spec_u32_to_le_bytes(v.data.len() as u32));
        assert(v.data.subrange(0, 0) =~= Seq::<(Seq<char>, Seq<char>)>::empty());
    }
    let mut i: usize = 0;
    while i < r.data.len()
        invariant
            v == r@,
            i <= r.data@.len(),
            out@ == header + entries_bytes(v.data.subrange(0, i as int)),
            forall|j: int|
                0 <= j < i ==> encode_utf8(#[trigger] v.data[j].0).len() <= u32::MAX
                    && encode_utf8(v.data[j].1).len() <= u32::MAX,
        decreases r.data@.len() - i,
    {
        let entry = &r.data[i];
        let key = entry.0.as_str();
        let value = entry.1.as_str();
        if key.as_bytes().len() as u64 > 0xffff_ffffu64 || value.as_bytes().len() as u64
            > 0xffff_ffffu64 {
            proof {
                assert(v.data[i as int] == (key@, value@));
                assert(encode_utf8(v.data[i as int].0).len() > u32::MAX || encode_utf8(
                    v.data[i as int].1,
                ).len() > u32::MAX);
            }
            return Err(StoreError::Encode);
        }
        proof {
            assert(key.spec_bytes() == encode_utf8(key@));
            assert(value.spec_bytes() == encode_utf8(value@));
            assert(v.data[i as int] == (key@, value@));
        }
        append_field(&mut out, key);
        append_field(&mut out, value);
        proof {
            let x = v.data[i as int];
            lemma_entries_bytes_push(v.data.subrange(0, i as int), x);
            assert(v.data.subrange(0, i as int).push(x) =~= v.data.subrange(0, i + 1));
            assert(out@ =~= header + entries_bytes(v.data.subrange(0, i + 1)));
        }
        i = i + 1;
    }
    proof {
        assert(v.data.subrange(0, i as int) =~= v.data);
        assert(out@ =~= record_bytes(v));
    }
    Ok(out)
}

fn read_field(b: &[u8], pos: usize) -> (r: Option<(String, usize)>)
    requires
        pos <= b@.len(),
    ensures
        match parse_field(b@.subrange(pos as int, b@.len() as int)) {
            None => r is None,
            Some((s, rest)) => r matches Some((x, p)) && x@ == s && pos <= p <= b@.len() && rest
                == b@.subrange(p as int, b@.len() as int),
        },
{
    let ghost t = b@.subrange(pos as int, b@.len() as int);
    let len = b.len();
    if len - pos < 4 {
        return None;
    }
    let n = u32_from_le_bytes(slice_subrange(b, pos, pos + 4)) as usize;
    proof {
        assert(t.subrange(0, 4) =~= b@.subrange(pos as int, pos + 4));
    }
    if len - pos - 4 < n {
        return None;
    }
    let body = slice_subrange(b, pos + 4, pos + 4 + n);
    proof {
        assert(t.subrange(4, 4 + n) =~= body@);
        assert(t.subrange(4 + n, t.len() as int) =~= b@.subrange(pos + 4 + n, b@.len() as int));
    }
    match utf8_text(body) {
        None => None,
        Some(s) => Some((s, pos + 4 + n)),
    }
}

/// Prefixes the entries already read to what the rest of the bytes parse to.
pub open spec fn after_entries(
    read: Seq<(Seq<char>, Seq<char>)>,
    rest: Option<Seq<(Seq<char>, Seq<char>)>>,
) -> Option<Seq<(Seq<char>, Seq<char>)>> {
    match rest {
        None => None,
        Some(t) => Some(read + t),
    }
}

/// Reads a stored record; bytes that are not the stored form of some record are refused.
pub fn decode_record(b: &[u8]) -> (r: Result<SessionRecord, StoreError>)
    ensures
        match parse_record(b@) {
            None => r == Err::<SessionRecord, StoreError>(StoreError::Decode),
            Some(v) => r matches Ok(x) && x@ == v,
        },
{
    let len = b.len();
    if len < RECORD_HEADER_LEN || b[0] != RECORD_FORMAT_VERSION {
        return Err(StoreError::Decode);
    }
    let id = u128_from_le_bytes(slice_subrange(b, 1, 17));
    let expiry = #[verifier::truncate] (u64_from_le_bytes(slice_subrange(b, 17, 25)) as i64);
    let count = u32_from_le_bytes(slice_subrange(b, 25, 29));
    let ghost all = parse_entries(b@.subrange(29, len as int), count as nat);
    assert(parse_record(b@) == match all {
        None => None,
        Some(d) => Some(RecordView { id, data: d, expiry }),
    });
    let mut data: Vec<(String, String)> = Vec::new();
    let ghost read: Seq<(Seq<char>, Seq<char>)> = Seq::empty();
    let mut pos: usize = 29;
    let mut i: u32 = 0;
    proof {
        assert(Seq::<(Seq<char>, Seq<char>)>::empty() + all.unwrap() =~= all.unwrap());
    }
    while i < count
        invariant
            29 <= pos <= len == b@.len(),
            i <= count,
            parse_record(b@) == match all {
                None => None,
                Some(d) => Some(RecordView { id, data: d, expiry }),
            },
            data@.map_values(|p: (String, String)| entry_view(p)) == read,
            all == after_entries(
                read,
                parse_entries(b@.subrange(pos as int, len as int), (count - i) as nat),
            ),
        decreases count - i,
    {
        let ghost rest = b@.subrange(pos as int, len as int);
        let key = read_field(b, pos);
        let (k, p1) = match key {
            None => {
                proof {
                    assert(parse_entries(rest, (count - i) as nat) is None);
                }
                return Err(StoreError::Decode);
            },
            Some(x) => x,
        };
        let value = read_field(b, p1);
        let (v, p2) = match value {
            None => {
                proof {
                    assert(parse_entries(rest, (count - i) as nat) is None);
                }
                return Err(StoreError::Decode);
            },
            Some(x) => x,
        };
        proof {
            let tail = parse_entries(b@.subrange(p2 as int, len as int), (count - i - 1) as nat);
            assert(parse_entries(rest, (count - i) as nat) == after_entries(seq![(k@, v@)], tail));
            if tail is Some {
                assert(read + (seq![(k@, v@)] + tail.unwrap()) =~= read.push((k@, v@))
                    + tail.unwrap());
            }
        }
        data.push((k, v));
        proof {
            read = read.push((k@, v@));
            assert(data@.map_values(|p: (String, String)| entry_view(p)) =~= read);
        }
        pos = p2;
        i = i + 1;
    }
    if pos != len {
        return Err(StoreError::Decode);
    }
    proof {
        assert(b@.subrange(pos as int, len as int) =~= Seq::<u8>::empty());
        assert(read + Seq::<(Seq<char>, Seq<char>)>::empty() =~= read);
    }
    Ok(SessionRecord { id, data, expiry })
}

proof fn lemma_lookup_absent(d: Seq<(Seq<char>, Seq<char>)>, k: Seq<char>)
    requires
        forall|j: int| 0 <= j < d.len() ==> d[j].0 != k,
    ensures
        lookup(d, k) is None,
    decreases d.len(),
{
    if d.len() > 0 {
        let t = d.subrange(1, d.len() as int);
        assert forall|j: int| 0 <= j < t.len() implies t[j].0 != k by {
            assert(t[j] == d[j + 1]);
        }
        lemma_lookup_absent(t, k);
    }
}

/// The value of the first entry with key `k`.
pub open spec fn lookup(d: Seq<(Seq<char>, Seq<char>)>, k: Seq<char>) -> Option<Seq<char>>
    decreases d.len(),
{
    if d.len() == 0 {
        None
    } else if d[0].0 == k {
        Some(d[0].1)
    } else {
        lookup(d.subrange(1, d.len() as int), k)
    }
}

proof fn lemma_lookup_push(
    d: Seq<(Seq<char>, Seq<char>)>,
    k: Seq<char>,
    v: Seq<char>,
    other: Seq<char>,
)
    requires
        lookup(d, k) is None,
    ensures
        lookup(d.push((k, v)), other) == if other == k {
            Some(v)
        } else {
            lookup(d, other)
        },
    decreases d.len(),
{
    reveal_with_fuel(lookup, 2);
    let dp = d.push((k, v));
    assert(dp[d.len() as int] == (k, v));
    if d.len() == 0 {
        assert(dp[0] == (k, v));
        assert(dp.subrange(1, dp.len() as int) =~= Seq::<(Seq<char>, Seq<char>)>::empty());
    } else {
        let t = d.subrange(1, d.len() as int);
        assert(dp.subrange(1, dp.len() as int) =~= t.push((k, v)));
        assert(dp[0] == d[0]);
        lemma_lookup_push(t, k, v, other);
    }
}

proof fn lemma_lookup_update(
    d: Seq<(Seq<char>, Seq<char>)>,
    i: int,
    k: Seq<char>,
    v: Seq<char>,
    other: Seq<char>,
)
    requires
        0 <= i < d.len(),
        d[i].0 == k,
        forall|j: int| 0 <= j < i ==> d[j].0 != k,
    ensures
        lookup(d.update(i, (k, v)), other) == if other == k {
            Some(v)
        } else {
            lookup(d, other)
        },
    decreases d.len(),
{
    let du = d.update(i, (k, v));
    if i > 0 {
        let t = d.subrange(1, d.len() as int);
        assert(du.subrange(1, du.len() as int) =~= t.update(i - 1, (k, v)));
        assert(du[0] == d[0]);
        assert forall|j: int| 0 <= j < i - 1 implies t[j].0 != k by {
            assert(t[j] == d[j + 1]);
        }
        lemma_lookup_update(t, i - 1, k, v, other);
    } else {
        assert(du.subrange(1, du.len() as int) =~= d.subrange(1, d.len() as int));
    }
}

impl SessionRecord {
    /// Sets `key` to `value`: the entry of that key is replaced, or a new entry is added. Every
    /// other key keeps its value.
    pub fn insert(&mut self, key: String, value: String)
        ensures
            final(self)@.id == old(self)@.id,
            final(self)@.expiry == old(self)@.expiry,
            lookup(final(self)@.data, key@) == Some(value@),
            forall|other: Seq<char>|
                other != key@ ==> lookup(final(self)@.data, other) == lookup(
                    old(self)@.data,
                    other,
                ),
    {
        let ghost d = self@.data;
        let ghost k = key@;
        let ghost v = value@;
        let mut i: usize = 0;
        let n = self.data.len();
        while i < n
            invariant
                n == self.data@.len(),
                d == self@.data,
                self.id == old(self).id,
                self.expiry == old(self).expiry,
                d == old(self)@.data,
                k == key@,
                v == value@,
                i <= n,
                forall|j: int| 0 <= j < i ==> d[j].0 != k,
            decreases n - i,
        {
            proof {
                assert(d[i as int] == entry_view(self.data@[i as int]));
            }
            let found = crate::ids::same_text(self.data[i].0.as_str(), key.as_str());
            if found {
                proof {
                    assert forall|other: Seq<char>| true implies lookup(
                        d.update(i as int, (k, v)),
                        other,
                    ) == if other == k {
                        Some(v)
                    } else {
                        lookup(d, other)
                    } by {
                        lemma_lookup_update(d, i as int, k, v, other);
                    }
                }
                self.data.set(i, (key, value));
                proof {
                    assert(self@.data =~= d.update(i as int, (k, v)));
                }
                return;
            }
            i = i + 1;
        }
        proof {
            lemma_lookup_absent(d, k);
            assert forall|other: Seq<char>| true implies lookup(d.push((k, v)), other) == if other
                == k {
                Some(v)
            } else {
                lookup(d, other)
            } by {
                lemma_lookup_push(d, k, v, other);
            }
        }
        self.data.push((key, value));
        proof {
            assert(self@.data =~= d.push((k, v)));
        }
    }

    /// A fresh record holding one entry.
    pub fn with_entry(id: u128, key: String, value: String, expiry: i64) -> (r: SessionRecord)
        ensures
            r@.id == id,
            r@.data == seq![(key@, value@)],
            r@.expiry == expiry,
    {
        let mut data: Vec<(String, String)> = Vec::new();
        let ghost entry = (key@, value@);
        data.push((key, value));
        let r = SessionRecord { id, data, expiry };
        proof {
            assert(r@.data =~= seq![entry]);
        }
        r
    }

    /// The value stored under `key`, if any.
    pub fn get(&self, key: &str) -> (r: Option<&String>)
        ensures
            lookup(self@.data, key@) == match r {
                Some(v) => Some(v@),
                None => None,
            },
    {
        let ghost d = self@.data;
        let mut i: usize = 0;
        proof {
            assert(d.subrange(0, d.len() as int) =~= d);
        }
        while i < self.data.len()
            invariant
                d == self@.data,
                i <= d.len(),
                lookup(d, key@) == lookup(d.subrange(i as int, d.len() as int), key@),
            decreases d.len() - i,
        {
            let entry = &self.data[i];
            proof {
                let rest = d.subrange(i as int, d.len() as int);
                assert(rest[0] == d[i as int]);
                assert(rest.subrange(1, rest.len() as int) =~= d.subrange(i + 1, d.len() as int));
            }
            if crate::ids::same_text(entry.0.as_str(), key) {
                return Some(&entry.1);
            }
            i = i + 1;
        }
        None
    }
}

} // verus!
