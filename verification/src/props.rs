//! Message properties: an ordered list of key/value byte strings with the
//! domain's text encoding (key, 0x01, value, 0x02 for each pair), a verified
//! parser and encoder that invert each other, lookup with last-entry-wins
//! semantics, decimal parsing, and the tag-string hash.

use vstd::prelude::*;

verus! {

/// Separator between a key and its value inside one pair.
pub const NAME_VALUE_SEPARATOR: u8 = 1;

/// Separator terminating one key/value pair.
pub const PROPERTY_SEPARATOR: u8 = 2;

/// One message property: a key/value pair of byte strings.
pub struct Property {
    pub key: Vec<u8>,
    pub value: Vec<u8>,
}

impl View for Property {
    type V = (Seq<u8>, Seq<u8>);

    open spec fn view(&self) -> (Seq<u8>, Seq<u8>) {
        (self.key@, self.value@)
    }
}

/// The pairs a list of properties denotes.
pub open spec fn props_view(ps: Seq<Property>) -> Seq<(Seq<u8>, Seq<u8>)> {
    ps.map_values(|p: Property| p@)
}

/// No occurrence of byte `x` in `s`.
pub open spec fn no_byte(s: Seq<u8>, x: u8) -> bool {
    forall|i: int| 0 <= i < s.len() ==> s[i] != x
}

/// A pair the encoding can carry: non-empty key, and neither string holds
/// a separator byte.
pub open spec fn pair_wf(p: (Seq<u8>, Seq<u8>)) -> bool {
    &&& p.0.len() > 0
    &&& no_byte(p.0, NAME_VALUE_SEPARATOR)
    &&& no_byte(p.0, PROPERTY_SEPARATOR)
    &&& no_byte(p.1, NAME_VALUE_SEPARATOR)
    &&& no_byte(p.1, PROPERTY_SEPARATOR)
}

/// Every pair of the list is well formed.
pub open spec fn pairs_wf(ps: Seq<(Seq<u8>, Seq<u8>)>) -> bool {
    forall|i: int| 0 <= i < ps.len() ==> pair_wf(#[trigger] ps[i])
}

/// Index of the first occurrence of `x` in `s`, or `s.len()` if none.
pub open spec fn find_byte(s: Seq<u8>, x: u8) -> int
    decreases s.len(),
{
    if s.len() == 0 {
        0
    } else if s[0] == x {
        0
    } else {
        1 + find_byte(s.skip(1), x)
    }
}

/// `find_byte` returns the first occurrence: it is within bounds, points at
/// `x` when `x` occurs, and nothing before it is `x`.
pub proof fn lemma_find_byte_props(s: Seq<u8>, x: u8)
    ensures
        0 <= find_byte(s, x) <= s.len(),
        find_byte(s, x) < s.len() ==> s[find_byte(s, x)] == x,
        forall|i: int| 0 <= i < find_byte(s, x) ==> s[i] != x,
    decreases s.len(),
{
    if s.len() != 0 && s[0] != x {
        lemma_find_byte_props(s.skip(1), x);
        assert forall|i: int| 0 <= i < find_byte(s, x) implies s[i] != x by {
            if i > 0 {
                assert(s.skip(1)[i - 1] == s[i]);
            }
        }
        if find_byte(s, x) < s.len() {
            assert(s.skip(1)[find_byte(s, x) - 1] == s[find_byte(s, x)]);
        }
    }
}

/// `find_byte` is determined by the first occurrence: if `s[n] == x` and no
/// earlier byte is `x`, then `find_byte(s, x) == n`; if no byte is `x`, it
/// is `s.len()`.
pub proof fn lemma_find_byte_at(s: Seq<u8>, x: u8, n: int)
    requires
        0 <= n <= s.len(),
        forall|i: int| 0 <= i < n ==> s[i] != x,
        n < s.len() ==> s[n] == x,
    ensures
        find_byte(s, x) == n,
    decreases s.len(),
{
    if s.len() != 0 && s[0] != x {
        assert forall|i: int| 0 <= i < n - 1 implies s.skip(1)[i] != x by {
            assert(s.skip(1)[i] == s[i + 1]);
        }
        if n - 1 < s.skip(1).len() {
            assert(s.skip(1)[n - 1] == s[n]);
        }
        lemma_find_byte_at(s.skip(1), x, n - 1);
    }
}

/// The pair one record denotes, if any: a record is `key 0x01 value` with a
/// non-empty key; anything else is skipped.
pub open spec fn parse_record(rec: Seq<u8>) -> Option<(Seq<u8>, Seq<u8>)> {
    let j = find_byte(rec, NAME_VALUE_SEPARATOR);
    if 0 < j < rec.len() {
        Some((rec.take(j), rec.skip(j + 1)))
    } else {
        None
    }
}

/// The pairs an encoded properties region denotes: records are delimited by
/// 0x02 (a final unterminated record counts), and malformed records are
/// skipped.
pub open spec fn parse_props(b: Seq<u8>) -> Seq<(Seq<u8>, Seq<u8>)>
    decreases b.len(),
{
    if b.len() == 0 {
        Seq::empty()
    } else {
        let i = find_byte(b, PROPERTY_SEPARATOR);
        let rest = if 0 <= i < b.len() {
            b.skip(i + 1)
        } else {
            Seq::<u8>::empty()
        };
        let tail = parse_props(rest);
        match parse_record(b.take(i)) {
            Some(p) => seq![p] + tail,
            None => tail,
        }
    }
}

/// The encoding of one pair.
pub open spec fn encode_pair(p: (Seq<u8>, Seq<u8>)) -> Seq<u8> {
    p.0 + seq![NAME_VALUE_SEPARATOR] + p.1 + seq![PROPERTY_SEPARATOR]
}

/// The encoding of a list of pairs, in order.
pub open spec fn encode_props(ps: Seq<(Seq<u8>, Seq<u8>)>) -> Seq<u8>
    decreases ps.len(),
{
    if ps.len() == 0 {
        Seq::empty()
    } else {
        encode_pair(ps[0]) + encode_props(ps.skip(1))
    }
}

/// If `a` holds no `x`, the first `x` of `a + seq![x] + b` sits right
/// after `a`.
proof fn lemma_find_byte_after(a: Seq<u8>, b: Seq<u8>, x: u8)
    requires
        no_byte(a, x),
    ensures
        find_byte(a + seq![x] + b, x) == a.len(),
{
    let s = a + seq![x] + b;
    assert(s[a.len() as int] == x);
    lemma_find_byte_at(s, x, a.len() as int);
}

/// Parsing inverts encoding: for well-formed pairs, the parser recovers
/// exactly the encoded list.
pub proof fn lemma_props_round_trip(ps: Seq<(Seq<u8>, Seq<u8>)>)
    requires
        pairs_wf(ps),
    ensures
        parse_props(encode_props(ps)) == ps,
    decreases ps.len(),
{
    if ps.len() == 0 {
        assert(parse_props(encode_props(ps)) =~= ps);
    } else {
        let p = ps[0];
        let rest_enc = encode_props(ps.skip(1));
        let b = encode_props(ps);
        let kv = p.0 + seq![NAME_VALUE_SEPARATOR] + p.1;
        assert(b =~= kv + seq![PROPERTY_SEPARATOR] + rest_enc);
        assert(no_byte(kv, PROPERTY_SEPARATOR)) by {
            assert forall|i: int| 0 <= i < kv.len() implies kv[i] != PROPERTY_SEPARATOR by {
                if i < p.0.len() {
                    assert(kv[i] == p.0[i]);
                } else if i > p.0.len() {
                    assert(kv[i] == p.1[i - p.0.len() - 1]);
                }
            }
        }
        lemma_find_byte_after(kv, rest_enc, PROPERTY_SEPARATOR);
        let i = find_byte(b, PROPERTY_SEPARATOR);
        assert(i == kv.len());
        assert(b.take(i) =~= kv);
        assert(b.skip(i + 1) =~= rest_enc);
        lemma_find_byte_after(p.0, p.1, NAME_VALUE_SEPARATOR);
        assert(p.0 + seq![NAME_VALUE_SEPARATOR] + p.1 =~= kv);
        let j = find_byte(kv, NAME_VALUE_SEPARATOR);
        assert(j == p.0.len());
        assert(kv.take(j) =~= p.0);
        assert(kv.skip(j + 1) =~= p.1);
        assert(parse_record(b.take(i)) == Some(p));
        lemma_props_round_trip(ps.skip(1));
        assert(b.len() != 0);
        assert(i < b.len());
        assert(parse_props(b) =~= seq![p] + parse_props(rest_enc));
        assert(seq![p] + ps.skip(1) =~= ps);
    }
}

/// The value of the last pair whose key is `k`, as a mapping built by
/// inserting the pairs in order would report it.
pub open spec fn lookup(ps: Seq<(Seq<u8>, Seq<u8>)>, k: Seq<u8>) -> Option<Seq<u8>>
    decreases ps.len(),
{
    if ps.len() == 0 {
        None
    } else if ps.last().0 == k {
        Some(ps.last().1)
    } else {
        lookup(ps.drop_last(), k)
    }
}

/// The list with every pair keyed `k` removed, order kept.
pub open spec fn remove_key(ps: Seq<(Seq<u8>, Seq<u8>)>, k: Seq<u8>) -> Seq<(Seq<u8>, Seq<u8>)> {
    ps.filter(|p: (Seq<u8>, Seq<u8>)| p.0 != k)
}

/// Byte-string equality.
pub fn bytes_eq(a: &Vec<u8>, b: &Vec<u8>) -> (r: bool)
    ensures
        r == (a@ == b@),
{
    if a.len() != b.len() {
        return false;
    }
    let n = a.len();
    let mut i: usize = 0;
    while i < n
        invariant
            n == a@.len() == b@.len(),
            0 <= i <= n,
            forall|j: int| 0 <= j < i ==> a@[j] == b@[j],
        decreases n - i,
    {
        if a[i] != b[i] {
            return false;
        }
        i = i + 1;
    }
    proof {
        assert(a@ =~= b@);
    }
    true
}

/// Copy the bytes of `b` in `[from, to)` into a fresh vector.
pub fn copy_range(b: &Vec<u8>, from: usize, to: usize) -> (r: Vec<u8>)
    requires
        from <= to <= b@.len(),
    ensures
        r@ == b@.subrange(from as int, to as int),
{
    let mut out: Vec<u8> = Vec::new();
    let mut i: usize = from;
    while i < to
        invariant
            from <= i <= to <= b@.len(),
            out@ == b@.subrange(from as int, i as int),
        decreases to - i,
    {
        out.push(b[i]);
        proof {
            assert(out@ =~= b@.subrange(from as int, i + 1));
        }
        i = i + 1;
    }
    out
}

/// Index of the first occurrence of `x` at or after `from`, or `b.len()`.
pub fn find_byte_from(b: &Vec<u8>, from: usize, x: u8) -> (r: usize)
    requires
        from <= b@.len(),
    ensures
        from <= r <= b@.len(),
        r - from == find_byte(b@.skip(from as int), x),
{
    let n = b.len();
    let mut i: usize = from;
    while i < n
        invariant
            from <= i <= n == b@.len(),
            forall|j: int| from <= j < i ==> b@[j] != x,
        decreases n - i,
    {
        if b[i] == x {
            proof {
                let s = b@.skip(from as int);
                assert forall|j: int| 0 <= j < i - from implies s[j] != x by {
                    assert(s[j] == b@[j + from]);
                }
                assert(s[i - from] == b@[i as int]);
                lemma_find_byte_at(s, x, i - from);
            }
            return i;
        }
        i = i + 1;
    }
    proof {
        let s = b@.skip(from as int);
        assert forall|j: int| 0 <= j < s.len() implies s[j] != x by {
            assert(s[j] == b@[j + from]);
        }
        lemma_find_byte_at(s, x, s.len() as int);
    }
    n
}

/// Encode a property list into the on-disk text form.
pub fn encode_properties(ps: &Vec<Property>) -> (r: Vec<u8>)
    ensures
        r@ == encode_props(props_view(ps@)),
{
    let mut out: Vec<u8> = Vec::new();
    let mut i: usize = 0;
    proof {
        assert(props_view(ps@).take(0) =~= Seq::<(Seq<u8>, Seq<u8>)>::empty());
    }
    while i < ps.len()
        invariant
            0 <= i <= ps@.len(),
            out@ == encode_props(props_view(ps@).take(i as int)),
        decreases ps@.len() - i,
    {
        let ghost done = props_view(ps@).take(i as int);
        let p = &ps[i];
        let mut j: usize = 0;
        while j < p.key.len()
            invariant
                0 <= j <= p.key@.len(),
                out@ == encode_props(props_view(ps@).take(i as int)) + p.key@.take(j as int),
                i < ps@.len(),
                p == ps@[i as int],
            decreases p.key@.len() - j,
        {
            out.push(p.key[j]);
            proof {
                assert(out@ =~= encode_props(props_view(ps@).take(i as int)) + p.key@.take(j + 1));
            }
            j = j + 1;
        }
        proof {
            assert(p.key@.take(p.key@.len() as int) =~= p.key@);
        }
        out.push(NAME_VALUE_SEPARATOR);
        let mut j: usize = 0;
        while j < p.value.len()
            invariant
                0 <= j <= p.value@.len(),
                out@ == encode_props(props_view(ps@).take(i as int)) + p.key@ + seq![
                    NAME_VALUE_SEPARATOR,
                ] + p.value@.take(j as int),
                i < ps@.len(),
                p == ps@[i as int],
            decreases p.value@.len() - j,
        {
            out.push(p.value[j]);
            proof {
                assert(out@ =~= encode_props(props_view(ps@).take(i as int)) + p.key@ + seq![
                    NAME_VALUE_SEPARATOR,
                ] + p.value@.take(j + 1));
            }
            j = j + 1;
        }
        proof {
            assert(p.value@.take(p.value@.len() as int) =~= p.value@);
        }
        out.push(PROPERTY_SEPARATOR);
        proof {
            let all = props_view(ps@);
            lemma_encode_props_snoc(all.take(i as int), all[i as int]);
            assert(all.take(i as int).push(all[i as int]) =~= all.take(i + 1));
            assert(all[i as int] == ps@[i as int]@);
            assert(out@ =~= encode_props(all.take(i as int)) + encode_pair(all[i as int]));
        }
        i = i + 1;
    }
    proof {
        assert(props_view(ps@).take(ps@.len() as int) =~= props_view(ps@));
    }
    out
}

/// Appending one pair to a list appends its encoding.
proof fn lemma_encode_props_snoc(ps: Seq<(Seq<u8>, Seq<u8>)>, p: (Seq<u8>, Seq<u8>))
    ensures
        encode_props(ps.push(p)) == encode_props(ps) + encode_pair(p),
    decreases ps.len(),
{
    reveal_with_fuel(encode_props, 3);
    if ps.len() == 0 {
        assert(ps.push(p)[0] == p);
        assert(ps.push(p).skip(1) =~= Seq::<(Seq<u8>, Seq<u8>)>::empty());
        assert(encode_props(ps.push(p)) == encode_pair(p) + encode_props(
            ps.push(p).skip(1),
        ));
        assert(encode_props(ps.push(p)) =~= encode_props(ps) + encode_pair(p));
    } else {
        assert(ps.push(p).skip(1) =~= ps.skip(1).push(p));
        lemma_encode_props_snoc(ps.skip(1), p);
        assert(ps.push(p)[0] == ps[0]);
        assert(encode_props(ps.push(p)) == encode_pair(ps[0]) + encode_props(
            ps.skip(1).push(p),
        ));
        assert(encode_props(ps.push(p)) =~= encode_props(ps) + encode_pair(p));
    }
}

/// Parse an encoded properties region into its pairs.
pub fn parse_properties(b: &Vec<u8>) -> (r: Vec<Property>)
    ensures
        props_view(r@) == parse_props(b@),
{
    let n = b.len();
    let mut out: Vec<Property> = Vec::new();
    let mut cursor: usize = 0;
    proof {
        assert(props_view(out@) =~= Seq::<(Seq<u8>, Seq<u8>)>::empty());
        assert(b@.skip(0) =~= b@);
    }
    while cursor < n
        invariant
            0 <= cursor <= n == b@.len(),
            props_view(out@) + parse_props(b@.skip(cursor as int)) == parse_props(b@),
        decreases n - cursor,
    {
        let ghost rem = b@.skip(cursor as int);
        let e = find_byte_from(b, cursor, PROPERTY_SEPARATOR);
        proof {
            lemma_find_byte_props(rem, PROPERTY_SEPARATOR);
        }
        let j = find_byte_from(b, cursor, NAME_VALUE_SEPARATOR);
        let ghost rec = rem.take(e - cursor);
        proof {
            assert(rec =~= b@.subrange(cursor as int, e as int));
        }
        let ghost rest: Seq<u8> = if e < n {
            b@.skip(e + 1)
        } else {
            Seq::<u8>::empty()
        };
        if j > cursor && j < e {
            proof {
                assert forall|t: int| 0 <= t < j - cursor implies rec[t] != NAME_VALUE_SEPARATOR by {
                    lemma_find_byte_props(rem, NAME_VALUE_SEPARATOR);
                    assert(rem[t] != NAME_VALUE_SEPARATOR);
                    assert(rec[t] == rem[t]);
                }
                assert(rec[j - cursor] == b@[j as int]);
                lemma_find_byte_props(rem, NAME_VALUE_SEPARATOR);
                assert(b@[j as int] == rem[j - cursor]);
                lemma_find_byte_at(rec, NAME_VALUE_SEPARATOR, j - cursor);
                assert(parse_record(rec) == Some(
                    (rec.take(j - cursor), rec.skip(j - cursor + 1)),
                ));
            }
            let key = copy_range(b, cursor, j);
            let value = copy_range(b, j + 1, e);
            proof {
                assert(key@ =~= rec.take(j - cursor));
                assert(value@ =~= rec.skip(j - cursor + 1));
            }
            let ghost old_out = out@;
            out.push(Property { key, value });
            proof {
                assert(props_view(out@) =~= props_view(old_out).push(
                    (rec.take(j - cursor), rec.skip(j - cursor + 1)),
                ));
            }
        } else {
            proof {
                let jj = find_byte(rec, NAME_VALUE_SEPARATOR);
                lemma_find_byte_props(rec, NAME_VALUE_SEPARATOR);
                if 0 < jj < rec.len() {
                    assert(rec[jj] == NAME_VALUE_SEPARATOR);
                    assert(rec[jj] == rem[jj]);
                    lemma_find_byte_props(rem, NAME_VALUE_SEPARATOR);
                    assert(forall|t: int|
                        0 <= t < j - cursor ==> #[trigger] rem[t] != NAME_VALUE_SEPARATOR);
                    assert(jj >= j - cursor);
                    if j < e {
                        assert(jj == j - cursor || rem[j - cursor] != NAME_VALUE_SEPARATOR);
                    }
                    assert(j - cursor == find_byte(rem, NAME_VALUE_SEPARATOR));
                    if j - cursor < rem.len() {
                        assert(rem[j - cursor] == NAME_VALUE_SEPARATOR);
                    }
                    assert(jj == j - cursor);
                    assert(j == cursor || j >= e);
                    assert(false);
                }
                assert(parse_record(rec) == None::<(Seq<u8>, Seq<u8>)>);
            }
        }
        proof {
            let i_rel = e - cursor;
            assert(i_rel == find_byte(rem, PROPERTY_SEPARATOR));
            assert(rem.len() != 0);
            if e < n {
                assert(rem.skip(i_rel + 1) =~= rest);
            }
            assert(parse_props(rem) == match parse_record(rec) {
                Some(p) => seq![p] + parse_props(rest),
                None => parse_props(rest),
            });
            assert(props_view(out@) + parse_props(rest) =~= parse_props(b@));
        }
        if e >= n {
            cursor = n;
            proof {
                assert(b@.skip(n as int) =~= Seq::<u8>::empty());
                assert(parse_props(b@.skip(cursor as int)) == parse_props(rest));
            }
        } else {
            cursor = e + 1;
        }
    }
    proof {
        assert(b@.skip(n as int) =~= Seq::<u8>::empty());
        assert(props_view(out@) =~= parse_props(b@));
    }
    out
}

/// Find the value of the last pair keyed `k`.
pub fn get_property<'a>(ps: &'a Vec<Property>, k: &Vec<u8>) -> (r: Option<&'a Vec<u8>>)
    ensures
        match r {
            Some(v) => lookup(props_view(ps@), k@) == Some(v@),
            None => lookup(props_view(ps@), k@) == None::<Seq<u8>>,
        },
{
    let n = ps.len();
    let mut i: usize = n;
    proof {
        assert(props_view(ps@).take(n as int) =~= props_view(ps@));
    }
    while i > 0
        invariant
            0 <= i <= n == ps@.len(),
            lookup(props_view(ps@), k@) == lookup(props_view(ps@).take(i as int), k@),
        decreases i,
    {
        proof {
            lemma_lookup_take(props_view(ps@), k@, i as int);
        }
        i = i - 1;
        if bytes_eq(&ps[i].key, k) {
            proof {
                let pv = props_view(ps@).take(i + 1);
                assert(pv.last() == ps@[i as int]@);
            }
            return Some(&ps[i].value);
        }
        proof {
            let pv = props_view(ps@).take(i + 1);
            assert(pv.last() == ps@[i as int]@);
            assert(pv.drop_last() =~= props_view(ps@).take(i as int));
        }
    }
    proof {
        assert(props_view(ps@).take(0) =~= Seq::<(Seq<u8>, Seq<u8>)>::empty());
    }
    None
}

/// `lookup` over a prefix: step preparation used while walking backwards.
proof fn lemma_lookup_take(ps: Seq<(Seq<u8>, Seq<u8>)>, k: Seq<u8>, i: int)
    requires
        0 < i <= ps.len(),
    ensures
        ps.take(i).last() == ps[i - 1],
        ps.take(i).drop_last() == ps.take(i - 1),
{
    assert(ps.take(i).drop_last() =~= ps.take(i - 1));
}

/// Remove every pair keyed `k`, keeping order.
pub fn delete_property(ps: &mut Vec<Property>, k: &Vec<u8>)
    ensures
        props_view(final(ps)@) == remove_key(props_view(old(ps)@), k@),
{
    let n = ps.len();
    let mut out: Vec<Property> = Vec::new();
    let mut i: usize = 0;
    proof {
        let f = |p: (Seq<u8>, Seq<u8>)| p.0 != k@;
        assert(props_view(ps@).take(0) =~= Seq::<(Seq<u8>, Seq<u8>)>::empty());
        assert(props_view(out@) =~= props_view(ps@).take(0).filter(f));
    }
    while i < n
        invariant
            0 <= i <= n == ps@.len(),
            props_view(out@) == props_view(ps@).take(i as int).filter(
                |p: (Seq<u8>, Seq<u8>)| p.0 != k@,
            ),
        decreases n - i,
    {
        let ghost f = |p: (Seq<u8>, Seq<u8>)| p.0 != k@;
        let ghost pv = props_view(ps@);
        proof {
            assert(pv.take(i + 1).drop_last() =~= pv.take(i as int));
            assert(pv.take(i + 1).last() == pv[i as int]);
            reveal_with_fuel(Seq::filter, 2);
            lemma_filter_push(pv.take(i as int), pv[i as int], f);
        }
        if !bytes_eq(&ps[i].key, k) {
            let key = copy_range(&ps[i].key, 0, ps[i].key.len());
            let value = copy_range(&ps[i].value, 0, ps[i].value.len());
            proof {
                assert(key@ =~= ps@[i as int].key@);
                assert(value@ =~= ps@[i as int].value@);
            }
            let ghost old_out = out@;
            out.push(Property { key, value });
            proof {
                assert(props_view(out@) =~= props_view(old_out).push(pv[i as int]));
            }
        }
        i = i + 1;
    }
    proof {
        assert(props_view(ps@).take(n as int) =~= props_view(ps@));
    }
    *ps = out;
}

/// Removing a key keeps the remaining pairs well formed and never grows
/// the encoding.
pub proof fn lemma_remove_key_wf(ps: Seq<(Seq<u8>, Seq<u8>)>, k: Seq<u8>)
    ensures
        pairs_wf(ps) ==> pairs_wf(remove_key(ps, k)),
        encode_props(remove_key(ps, k)).len() <= encode_props(ps).len(),
    decreases ps.len(),
{
    reveal_with_fuel(Seq::filter, 2);
    if ps.len() == 0 {
        assert(remove_key(ps, k) =~= ps);
    } else {
        let f = |p: (Seq<u8>, Seq<u8>)| p.0 != k;
        let butlast = ps.drop_last();
        lemma_remove_key_wf(butlast, k);
        lemma_filter_push(butlast, ps.last(), f);
        assert(butlast.push(ps.last()) =~= ps);
        if pairs_wf(ps) {
            assert(pairs_wf(butlast));
            if f(ps.last()) {
                let r = remove_key(butlast, k).push(ps.last());
                assert forall|i: int| 0 <= i < r.len() implies pair_wf(#[trigger] r[i]) by {
                    if i < r.len() - 1 {
                        assert(r[i] == remove_key(butlast, k)[i]);
                    } else {
                        assert(r[i] == ps.last());
                    }
                }
            }
        }
        if f(ps.last()) {
            lemma_encode_props_snoc(remove_key(butlast, k), ps.last());
            lemma_encode_props_snoc(butlast, ps.last());
        } else {
            lemma_encode_props_snoc(butlast, ps.last());
        }
    }
}

/// Filtering distributes over push.
proof fn lemma_filter_push<A>(s: Seq<A>, x: A, f: spec_fn(A) -> bool)
    ensures
        s.push(x).filter(f) == if f(x) {
            s.filter(f).push(x)
        } else {
            s.filter(f)
        },
{
    reveal_with_fuel(Seq::filter, 2);
    assert(s.push(x).drop_last() =~= s);
    assert(s.push(x).last() == x);
}

/// The number a non-empty all-digit byte string denotes, reading greedily;
/// meaningful only when `is_dec(s)`.
pub open spec fn dec_value(s: Seq<u8>) -> int
    decreases s.len(),
{
    if s.len() == 0 {
        0
    } else {
        dec_value(s.drop_last()) * 10 + (s.last() - 0x30)
    }
}

/// A non-empty string of ASCII digits.
pub open spec fn is_dec(s: Seq<u8>) -> bool {
    s.len() > 0 && forall|i: int| 0 <= i < s.len() ==> 0x30 <= #[trigger] s[i] <= 0x39
}

/// Parse a decimal byte string. Returns the denoted number exactly when the
/// string is non-empty, all digits, and the value fits in a `u64`.
pub fn parse_dec(s: &Vec<u8>) -> (r: Option<u64>)
    ensures
        match r {
            Some(v) => is_dec(s@) && v == dec_value(s@),
            None => !is_dec(s@) || dec_value(s@) > u64::MAX,
        },
{
    if s.len() == 0 {
        return None;
    }
    let n = s.len();
    let mut acc: u64 = 0;
    let mut i: usize = 0;
    proof {
        assert(s@.take(0) =~= Seq::<u8>::empty());
    }
    while i < n
        invariant
            0 <= i <= n == s@.len(),
            acc == dec_value(s@.take(i as int)),
            forall|j: int| 0 <= j < i ==> 0x30 <= #[trigger] s@[j] <= 0x39,
            dec_value(s@.take(i as int)) >= 0,
        decreases n - i,
    {
        let c = s[i];
        if c < 0x30 || c > 0x39 {
            return None;
        }
        let d = (c - 0x30) as u64;
        if acc > (u64::MAX - d) / 10 {
            proof {
                assert(s@.take(i + 1).drop_last() =~= s@.take(i as int));
                assert(s@.take(i + 1).last() == s@[i as int]);
                assert(dec_value(s@.take(i + 1)) == acc * 10 + d);
                assert(acc * 10 + d > u64::MAX) by {
                    assert(acc >= (u64::MAX - d) / 10 + 1);
                    assert(((u64::MAX - d) / 10 + 1) * 10 == ((u64::MAX - d) / 10) * 10 + 10);
                    assert(((u64::MAX - d) / 10) * 10 + (u64::MAX - d) % 10 == u64::MAX - d);
                    assert(acc * 10 >= ((u64::MAX - d) / 10 + 1) * 10) by (nonlinear_arith)
                        requires
                            acc >= (u64::MAX - d) / 10 + 1,
                    ;
                }
                lemma_dec_value_monotonic(s@, i as int);
            }
            return None;
        }
        acc = acc * 10 + d;
        proof {
            assert(s@.take(i + 1).drop_last() =~= s@.take(i as int));
            assert(s@.take(i + 1).last() == s@[i as int]);
        }
        i = i + 1;
    }
    proof {
        assert(s@.take(n as int) =~= s@);
    }
    Some(acc)
}

/// Once a prefix value exceeds what one more digit keeps under `u64::MAX`,
/// the whole string's value exceeds `u64::MAX`.
proof fn lemma_dec_value_monotonic(s: Seq<u8>, i: int)
    requires
        0 <= i < s.len(),
        dec_value(s.take(i + 1)) > u64::MAX,
    ensures
        dec_value(s) > u64::MAX,
    decreases s.len() - i,
{
    if i + 1 == s.len() {
        assert(s.take(i + 1) =~= s);
    } else {
        assert(s.take(i + 2).drop_last() =~= s.take(i + 1));
        assert(dec_value(s.take(i + 2)) == dec_value(s.take(i + 1)) * 10 + (s.take(i + 2).last()
            - 0x30));
        assert(s.take(i + 2).last() >= 0);
        assert(dec_value(s.take(i + 1)) * 10 > (u64::MAX as int) * 10) by (nonlinear_arith)
            requires
                dec_value(s.take(i + 1)) > u64::MAX,
        ;
        lemma_dec_value_monotonic(s, i + 1);
    }
}

/// The 32-bit string hash the domain assigns to a tag string:
/// `h := 31 * h + byte`, truncated to 32 bits.
pub open spec fn tags_hash(s: Seq<u8>) -> u32
    decreases s.len(),
{
    if s.len() == 0 {
        0u32
    } else {
        (((tags_hash(s.drop_last()) as int) * 31 + s.last()) % 0x1_0000_0000) as u32
    }
}

/// Hash a tag string into its 32-bit tags code.
pub fn tags_string_to_tags_code(s: &Vec<u8>) -> (r: u32)
    ensures
        r == tags_hash(s@),
{
    let n = s.len();
    let mut h: u32 = 0;
    let mut i: usize = 0;
    proof {
        assert(s@.take(0) =~= Seq::<u8>::empty());
    }
    while i < n
        invariant
            0 <= i <= n == s@.len(),
            h == tags_hash(s@.take(i as int)),
        decreases n - i,
    {
        h = (((h as u64) * 31 + (s[i] as u64)) % 0x1_0000_0000) as u32;
        proof {
            assert(s@.take(i + 1).drop_last() =~= s@.take(i as int));
            assert(s@.take(i + 1).last() == s@[i as int]);
        }
        i = i + 1;
    }
    proof {
        assert(s@.take(n as int) =~= s@);
    }
    h
}

} // verus!
