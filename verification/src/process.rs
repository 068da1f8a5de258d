//! The refresh pipeline: one raw process snapshot becomes the displayed
//! list by filtering on the active query, then sorting on the active key.

use vstd::prelude::*;
use vstd::relations::sorted_by;

use crate::text::{
    chars_of, contains_chars, is_substring, lemma_lex_le_total, lemma_lex_le_trans, lex_le,
    lex_le_chars, lower_of, to_lower,
};

verus! {

/// One process at one refresh tick: its identifier, display name, CPU
/// utilization in hundredths of a percent, and resident memory in bytes.
#[derive(Debug)]
pub struct ProcessItem {
    pub pid: u64,
    pub name: String,
    pub cpu_centi: u64,
    pub memory_bytes: u64,
}

/// The field the displayed list is ordered on.
#[derive(Debug, Clone, Copy, PartialEq, Eq, Structural)]
pub enum SortBy {
    Pid,
    Name,
    Cpu,
    Memory,
}

impl SortBy {
    /// The key after this one, cyclically.
    pub open spec fn next_spec(self) -> SortBy {
        match self {
            SortBy::Pid => SortBy::Name,
            SortBy::Name => SortBy::Cpu,
            SortBy::Cpu => SortBy::Memory,
            SortBy::Memory => SortBy::Pid,
        }
    }

    /// The next sort key in the cycle.
    pub fn next(self) -> (r: Self)
        ensures
            r == self.next_spec(),
    {
        match self {
            SortBy::Pid => SortBy::Name,
            SortBy::Name => SortBy::Cpu,
            SortBy::Cpu => SortBy::Memory,
            SortBy::Memory => SortBy::Pid,
        }
    }
}

/// The order the displayed list obeys under `key`: ascending pid,
/// ascending case-insensitive name, descending CPU, descending memory.
pub open spec fn sort_key_le(key: SortBy, a: ProcessItem, b: ProcessItem) -> bool {
    match key {
        SortBy::Pid => a.pid <= b.pid,
        SortBy::Name => lex_le(lower_of(a.name@), lower_of(b.name@)),
        SortBy::Cpu => a.cpu_centi >= b.cpu_centi,
        SortBy::Memory => a.memory_bytes >= b.memory_bytes,
    }
}

/// `sort_key_le` as a binary relation, for `sorted_by`.
pub open spec fn le_for(key: SortBy) -> spec_fn(ProcessItem, ProcessItem) -> bool {
    |a: ProcessItem, b: ProcessItem| sort_key_le(key, a, b)
}

/// Any two entries are comparable under every key.
pub proof fn lemma_sort_key_le_total(key: SortBy, a: ProcessItem, b: ProcessItem)
    ensures
        sort_key_le(key, a, b) || sort_key_le(key, b, a),
{
    match key {
        SortBy::Name => {
            lemma_lex_le_total(lower_of(a.name@), lower_of(b.name@));
        },
        _ => {},
    }
}

/// The order under every key is transitive.
pub proof fn lemma_sort_key_le_trans(key: SortBy, a: ProcessItem, b: ProcessItem, c: ProcessItem)
    requires
        sort_key_le(key, a, b),
        sort_key_le(key, b, c),
    ensures
        sort_key_le(key, a, c),
{
    match key {
        SortBy::Name => {
            lemma_lex_le_trans(lower_of(a.name@), lower_of(b.name@), lower_of(c.name@));
        },
        _ => {},
    }
}

/// Whether an entry survives the filter: an empty query keeps all, a
/// non-empty one keeps the entries whose name contains it
/// case-insensitively.
pub open spec fn keeps(p: ProcessItem, f: Seq<char>) -> bool {
    f.len() == 0 || is_substring(lower_of(p.name@), lower_of(f))
}

/// `keeps` as a unary predicate, for `Seq::filter`.
pub open spec fn keep_for(f: Seq<char>) -> spec_fn(ProcessItem) -> bool {
    |p: ProcessItem| keeps(p, f)
}

/// Whether `name` contains `filter` as a case-insensitive substring.
pub fn name_matches(name: &str, filter: &str) -> (r: bool)
    ensures
        r == is_substring(lower_of(name@), lower_of(filter@)),
{
    let ln = to_lower(name);
    let lf = to_lower(filter);
    let hay = chars_of(ln.as_str());
    let needle = chars_of(lf.as_str());
    contains_chars(&hay, &needle)
}

/// Filtering with a predicate that holds everywhere keeps the sequence.
proof fn lemma_filter_all<A>(s: Seq<A>, pred: spec_fn(A) -> bool)
    requires
        forall|i: int| 0 <= i < s.len() ==> pred(#[trigger] s[i]),
    ensures
        s.filter(pred) == s,
    decreases s.len(),
{
    reveal(Seq::filter);
    if s.len() > 0 {
        lemma_filter_all(s.drop_last(), pred);
        assert(s.drop_last().push(s.last()) =~= s);
    }
}

/// Filtering a sequence extended by one element.
proof fn lemma_filter_push<A>(s: Seq<A>, pred: spec_fn(A) -> bool, x: A)
    ensures
        s.push(x).filter(pred) == if pred(x) {
            s.filter(pred).push(x)
        } else {
            s.filter(pred)
        },
{
    reveal(Seq::filter);
    assert(s.push(x).drop_last() =~= s);
    assert(s.push(x).last() == x);
}

/// Retains the entries that survive `filter`, in snapshot order.
pub fn filter_entries(raw: Vec<ProcessItem>, filter: &str) -> (r: Vec<ProcessItem>)
    ensures
        r@ == raw@.filter(keep_for(filter@)),
{
    broadcast use vstd::std_specs::vec::axiom_spec_into_iter;

    let ghost raw_seq = raw@;
    if filter.is_empty() {
        proof {
            lemma_filter_all(raw@, keep_for(filter@));
        }
        return raw;
    }
    let mut r: Vec<ProcessItem> = Vec::new();
    proof {
        assert(raw_seq.take(0) =~= Seq::<ProcessItem>::empty());
        reveal(Seq::filter);
    }
    for x in it: raw.into_iter()
        invariant
            it.seq() == raw_seq,
            filter@.len() > 0,
            r@ == raw_seq.take(it.index() as int).filter(keep_for(filter@)),
    {
        let ghost i = it.index() as int;
        proof {
            assert(x == raw_seq[i]);
            assert(raw_seq.take(i + 1) =~= raw_seq.take(i).push(raw_seq[i]));
            lemma_filter_push(raw_seq.take(i), keep_for(filter@), raw_seq[i]);
        }
        let m = name_matches(x.name.as_str(), filter);
        proof {
            assert(m == keeps(x, filter@));
            assert(m == keep_for(filter@)(x));
        }
        if m {
            r.push(x);
        }
    }
    proof {
        assert(raw_seq.take(raw_seq.len() as int) =~= raw_seq);
    }
    r
}

/// `sort_key_le` comparison of two entries.
fn le_items(key: SortBy, a: &ProcessItem, b: &ProcessItem) -> (r: bool)
    ensures
        r == sort_key_le(key, *a, *b),
{
    match key {
        SortBy::Pid => a.pid <= b.pid,
        SortBy::Name => {
            let la = to_lower(a.name.as_str());
            let lb = to_lower(b.name.as_str());
            let ca = chars_of(la.as_str());
            let cb = chars_of(lb.as_str());
            lex_le_chars(&ca, &cb)
        },
        SortBy::Cpu => a.cpu_centi >= b.cpu_centi,
        SortBy::Memory => a.memory_bytes >= b.memory_bytes,
    }
}

/// Where `x` lands in the sorted list `r`: before the first entry it
/// strictly precedes, after every entry that sorts at or before it —
/// the stable tie-break.
pub open spec fn insert_pos(r: Seq<ProcessItem>, x: ProcessItem, key: SortBy) -> int {
    insert_pos_from(r, x, key, 0)
}

/// First position at or after `i` whose entry does not sort at or
/// before `x`; the length when every entry does.
pub open spec fn insert_pos_from(r: Seq<ProcessItem>, x: ProcessItem, key: SortBy, i: int) -> int
    decreases r.len() - i,
{
    if !(0 <= i < r.len()) {
        r.len() as int
    } else if !sort_key_le(key, r[i], x) {
        i
    } else {
        insert_pos_from(r, x, key, i + 1)
    }
}

/// The list `r` with `x` inserted at its stable position.
pub open spec fn insert_spec(r: Seq<ProcessItem>, x: ProcessItem, key: SortBy) -> Seq<ProcessItem> {
    r.insert(insert_pos(r, x, key), x)
}

/// The entries of `s` sorted on `key` by stable repeated insertion, in
/// input order.
pub open spec fn sort_spec(s: Seq<ProcessItem>, key: SortBy) -> Seq<ProcessItem>
    decreases s.len(),
{
    if s.len() == 0 {
        s
    } else {
        insert_spec(sort_spec(s.drop_last(), key), s.last(), key)
    }
}

/// A scan that passed every entry before `p` and stopped at `p` found
/// the stable insertion position.
proof fn lemma_insert_pos_characterization(r: Seq<ProcessItem>, x: ProcessItem, key: SortBy, i: int, p: int)
    requires
        0 <= i <= p <= r.len(),
        forall|k: int| i <= k < p ==> sort_key_le(key, #[trigger] r[k], x),
        p == r.len() || !sort_key_le(key, r[p], x),
    ensures
        insert_pos_from(r, x, key, i) == p,
    decreases p - i,
{
    if i < p {
        lemma_insert_pos_characterization(r, x, key, i + 1, p);
    }
}

/// Inserting an element anywhere adds exactly it to the multiset.
proof fn lemma_insert_to_multiset<A>(s: Seq<A>, x: A, p: int)
    requires
        0 <= p <= s.len(),
    ensures
        s.insert(p, x).to_multiset() == s.to_multiset().insert(x),
{
    broadcast use vstd::seq_lib::lemma_multiset_commutative;
    broadcast use vstd::seq_lib::group_to_multiset_ensures;
    broadcast use vstd::multiset::group_multiset_axioms;

    let left = s.subrange(0, p);
    let right = s.subrange(p, s.len() as int);
    s.lemma_split_at(p);
    assert(s.insert(p, x) == left.push(x) + right);
    assert(left.push(x).to_multiset() =~= left.to_multiset().insert(x));
    assert((left + right).to_multiset() == left.to_multiset().add(right.to_multiset()));
    assert(s.insert(p, x).to_multiset() =~= s.to_multiset().insert(x));
}

/// Inserts `x` into a sorted vector, after every entry it does not
/// strictly precede, keeping the vector sorted.
fn insert_sorted(r: &mut Vec<ProcessItem>, x: ProcessItem, key: SortBy)
    requires
        sorted_by(old(r)@, le_for(key)),
    ensures
        final(r)@ == insert_spec(old(r)@, x, key),
        sorted_by(final(r)@, le_for(key)),
        final(r)@.to_multiset() == old(r)@.to_multiset().insert(x),
        final(r)@.len() == old(r)@.len() + 1,
{
    let mut p: usize = 0;
    while p < r.len() && le_items(key, &r[p], &x)
        invariant
            r@ == old(r)@,
            sorted_by(r@, le_for(key)),
            0 <= p <= r@.len(),
            forall|k: int| 0 <= k < p ==> sort_key_le(key, #[trigger] r@[k], x),
        decreases r@.len() - p,
    {
        p += 1;
    }
    proof {
        if (p as int) < r@.len() {
            lemma_sort_key_le_total(key, r@[p as int], x);
            assert forall|k: int| p <= k < r@.len() implies sort_key_le(key, x, #[trigger] r@[k]) by {
                if k > p {
                    assert(le_for(key)(r@[p as int], r@[k]));
                    lemma_sort_key_le_trans(key, x, r@[p as int], r@[k]);
                }
            }
        }
    }
    let ghost oldr = r@;
    let ghost pp = p as int;
    proof {
        lemma_insert_pos_characterization(oldr, x, key, 0, pp);
    }
    r.insert(p, x);
    proof {
        oldr.insert_ensures(pp, x);
        assert forall|k1: int, k2: int|
            0 <= k1 < k2 < oldr.len() implies sort_key_le(key, #[trigger] oldr[k1], #[trigger] oldr[k2]) by {
            assert(le_for(key)(oldr[k1], oldr[k2]));
        }
        assert forall|i: int, j: int| 0 <= i < j < r@.len() implies #[trigger] le_for(key)(
            r@[i],
            r@[j],
        ) by {
            let a = if i < pp {
                oldr[i]
            } else if i == pp {
                x
            } else {
                oldr[i - 1]
            };
            let b = if j < pp {
                oldr[j]
            } else if j == pp {
                x
            } else {
                oldr[j - 1]
            };
            assert(r@[i] == a);
            assert(r@[j] == b);
            assert(sort_key_le(key, a, b));
        }
        lemma_insert_to_multiset(oldr, x, pp);
    }
}

/// Sorts the entries on `key` by repeated sorted insertion.
pub fn sort_entries(mut v: Vec<ProcessItem>, key: SortBy) -> (r: Vec<ProcessItem>)
    ensures
        r@ == sort_spec(v@, key),
        sorted_by(r@, le_for(key)),
        r@.to_multiset() == v@.to_multiset(),
        r@.len() == v@.len(),
{
    broadcast use vstd::std_specs::vec::axiom_spec_into_iter;
    broadcast use vstd::seq_lib::group_to_multiset_ensures;

    let ghost v_seq = v@;
    let mut r: Vec<ProcessItem> = Vec::new();
    proof {
        assert(v_seq.take(0) =~= Seq::<ProcessItem>::empty());
        assert(r@.to_multiset() =~= v_seq.take(0).to_multiset());
    }
    for x in it: v.into_iter()
        invariant
            it.seq() == v_seq,
            r@ == sort_spec(v_seq.take(it.index() as int), key),
            sorted_by(r@, le_for(key)),
            r@.to_multiset() == v_seq.take(it.index() as int).to_multiset(),
            r@.len() == it.index(),
    {
        let ghost i = it.index() as int;
        proof {
            assert(x == v_seq[i]);
            assert(v_seq.take(i + 1) =~= v_seq.take(i).push(v_seq[i]));
            assert(v_seq.take(i + 1).drop_last() =~= v_seq.take(i));
            assert(v_seq.take(i + 1).last() == v_seq[i]);
            v_seq.take(i).to_multiset_ensures();
            assert(v_seq.take(i).push(v_seq[i]).to_multiset() =~= v_seq.take(
                i,
            ).to_multiset().insert(v_seq[i]));
        }
        insert_sorted(&mut r, x, key);
    }
    proof {
        assert(v_seq.take(v_seq.len() as int) =~= v_seq);
    }
    r
}

/// Filter correctness: in any list holding exactly the entries of `raw`
/// that survive the query `f` — as the refresh pipeline produces — every
/// entry's name contains `f` case-insensitively, and an empty query
/// keeps as many entries as the raw snapshot has.
pub proof fn lemma_filter_correct(r: Seq<ProcessItem>, raw: Seq<ProcessItem>, f: Seq<char>)
    requires
        r.to_multiset() == raw.filter(keep_for(f)).to_multiset(),
    ensures
        forall|i: int| 0 <= i < r.len() ==> keeps(#[trigger] r[i], f),
        f.len() == 0 ==> r.len() == raw.len(),
{
    let kept = raw.filter(keep_for(f));
    r.to_multiset_ensures();
    kept.to_multiset_ensures();
    raw.filter_lemma(keep_for(f));
    assert forall|i: int| 0 <= i < r.len() implies keeps(#[trigger] r[i], f) by {
        assert(r.contains(r[i]));
        assert(r.to_multiset().count(r[i]) > 0);
        assert(kept.to_multiset().count(r[i]) > 0);
        assert(kept.contains(r[i]));
        let j = choose|j: int| 0 <= j < kept.len() && kept[j] == r[i];
        assert(keep_for(f)(kept[j]));
    }
    if f.len() == 0 {
        assert forall|i: int| 0 <= i < raw.len() implies keep_for(f)(#[trigger] raw[i]) by {
            assert(keeps(raw[i], f));
        }
        lemma_filter_all(raw, keep_for(f));
        assert(r.len() == r.to_multiset().len());
        assert(kept.len() == kept.to_multiset().len());
    }
}

/// Sort correctness: in a list sorted on `key` — as the refresh
/// pipeline produces — CPU values are non-increasing under the CPU key,
/// pids non-decreasing under the pid key, memory non-increasing under
/// the memory key, and lowercase names in lexicographic order under the
/// name key.
pub proof fn lemma_sort_correct(r: Seq<ProcessItem>, key: SortBy)
    requires
        sorted_by(r, le_for(key)),
    ensures
        key == SortBy::Cpu ==> forall|i: int, j: int|
            #![trigger r[i], r[j]]
            0 <= i < j < r.len() ==> r[i].cpu_centi >= r[j].cpu_centi,
        key == SortBy::Pid ==> forall|i: int, j: int|
            #![trigger r[i], r[j]]
            0 <= i < j < r.len() ==> r[i].pid <= r[j].pid,
        key == SortBy::Memory ==> forall|i: int, j: int|
            #![trigger r[i], r[j]]
            0 <= i < j < r.len() ==> r[i].memory_bytes >= r[j].memory_bytes,
        key == SortBy::Name ==> forall|i: int, j: int|
            #![trigger r[i], r[j]]
            0 <= i < j < r.len() ==> lex_le(lower_of(r[i].name@), lower_of(r[j].name@)),
{
    assert forall|i: int, j: int|
        0 <= i < j < r.len() implies sort_key_le(key, #[trigger] r[i], #[trigger] r[j]) by {
        assert(le_for(key)(r[i], r[j]));
    }
}

/// Maps a raw snapshot to the displayed list: the entries that survive
/// the filter, ordered on `key`.
pub fn refresh_list(raw: Vec<ProcessItem>, filter: &str, key: SortBy) -> (r: Vec<ProcessItem>)
    ensures
        r@ == sort_spec(raw@.filter(keep_for(filter@)), key),
        sorted_by(r@, le_for(key)),
        r@.to_multiset() == raw@.filter(keep_for(filter@)).to_multiset(),
        r@.len() == raw@.filter(keep_for(filter@)).len(),
{
    let kept = filter_entries(raw, filter);
    sort_entries(kept, key)
}

} // verus!
