//! Which crash logs are kept on disk. A crash log is recognised by its file
//! name (`error-*.log`); empty logs are dropped, and of the others only the
//! newest `MAX_LOG_COUNT` are kept. Names carry the date and time of the
//! crash, so the byte-wise order of names is the order in time.
use vstd::prelude::*;

verus! {

broadcast use vstd::seq_lib::group_to_multiset_ensures;

/// How many crash logs are kept.
pub const MAX_LOG_COUNT: usize = 20;

/// The bytes every crash log name starts with: `error-`.
pub open spec fn log_prefix() -> Seq<u8> {
    seq![101u8, 114u8, 114u8, 111u8, 114u8, 45u8]
}

/// The bytes every crash log name ends with: `.log`.
pub open spec fn log_suffix() -> Seq<u8> {
    seq![46u8, 108u8, 111u8, 103u8]
}

/// Whether a file name is that of a crash log.
pub open spec fn is_log_name(name: Seq<u8>) -> bool {
    log_prefix().is_prefix_of(name) && log_suffix().is_suffix_of(name)
}

/// The byte-wise order of names, as Rust orders strings: a proper prefix
/// comes first.
pub open spec fn bytes_le(a: Seq<u8>, b: Seq<u8>) -> bool
    decreases a.len(),
{
    if a.len() == 0 {
        true
    } else if b.len() == 0 {
        false
    } else if a[0] != b[0] {
        a[0] < b[0]
    } else {
        bytes_le(a.drop_first(), b.drop_first())
    }
}

/// Whether a sequence of names is in byte-wise order.
pub open spec fn sorted_names(s: Seq<Seq<u8>>) -> bool {
    forall|i: int, j: int| 0 <= i < j < s.len() ==> bytes_le(#[trigger] s[i], #[trigger] s[j])
}

/// The names held in a vector of byte strings.
pub open spec fn names_view(names: Seq<Vec<u8>>) -> Seq<Seq<u8>> {
    names.map_values(|v: Vec<u8>| v@)
}

/// The crash logs among some names, in the order given.
pub open spec fn crash_logs_of(names: Seq<Seq<u8>>) -> Seq<Seq<u8>> {
    names.filter(|n: Seq<u8>| is_log_name(n))
}

/// How many of `count` crash logs are too many.
pub open spec fn excess_logs(count: nat) -> nat {
    if count > MAX_LOG_COUNT {
        (count - MAX_LOG_COUNT) as nat
    } else {
        0
    }
}

/// Any two names are ordered one way or the other.
pub proof fn lemma_bytes_le_total(a: Seq<u8>, b: Seq<u8>)
    ensures
        bytes_le(a, b) || bytes_le(b, a),
    decreases a.len(),
{
    if a.len() > 0 && b.len() > 0 && a[0] == b[0] {
        lemma_bytes_le_total(a.drop_first(), b.drop_first());
    }
}

/// The byte-wise order is transitive.
pub proof fn lemma_bytes_le_transitive(a: Seq<u8>, b: Seq<u8>, c: Seq<u8>)
    requires
        bytes_le(a, b),
        bytes_le(b, c),
    ensures
        bytes_le(a, c),
    decreases a.len(),
{
    if a.len() > 0 && b.len() > 0 && c.len() > 0 && a[0] == b[0] && b[0] == c[0] {
        lemma_bytes_le_transitive(a.drop_first(), b.drop_first(), c.drop_first());
    }
}

/// Whether `pattern` stands in `name` at `start`.
fn matches_at(name: &[u8], start: usize, pattern: &[u8]) -> (b: bool)
    requires
        start + pattern@.len() <= name@.len(),
    ensures
        b == (name@.subrange(start as int, start + pattern@.len()) == pattern@),
{
    let mut i: usize = 0;
    while i < pattern.len()
        invariant
            i <= pattern@.len(),
            start + pattern@.len() <= name.len(),
            forall|j: int| 0 <= j < i ==> name@[start + j] == pattern@[j],
        decreases pattern@.len() - i,
    {
        if name[start + i] != pattern[i] {
            assert(name@.subrange(start as int, start + pattern@.len())[i as int] != pattern@[i as int]);
            return false;
        }
        i = i + 1;
    }
    assert(name@.subrange(start as int, start + pattern@.len()) =~= pattern@);
    true
}

/// Whether a file name is that of a crash log.
pub fn is_crash_log(name: &[u8]) -> (b: bool)
    ensures
        b == is_log_name(name@),
{
    let prefix: Vec<u8> = vec![101u8, 114u8, 114u8, 111u8, 114u8, 45u8];
    let suffix: Vec<u8> = vec![46u8, 108u8, 111u8, 103u8];
    assert(prefix@ == log_prefix());
    assert(suffix@ == log_suffix());
    if name.len() < prefix.len() || name.len() < suffix.len() {
        return false;
    }
    let starts = matches_at(name, 0, prefix.as_slice());
    let ends = matches_at(name, name.len() - suffix.len(), suffix.as_slice());
    starts && ends
}

/// Whether a file is an empty crash log, to be removed.
pub fn is_empty_crash_log(name: &[u8], size: u64) -> (b: bool)
    ensures
        b == (is_log_name(name@) && size == 0),
{
    is_crash_log(name) && size == 0
}

/// Whether one name comes before another in byte-wise order, or equals it.
fn names_le(a: &[u8], b: &[u8]) -> (r: bool)
    ensures
        r == bytes_le(a@, b@),
{
    let mut i: usize = 0;
    assert(a@.skip(0) =~= a@);
    assert(b@.skip(0) =~= b@);
    while i < a.len() && i < b.len() && a[i] == b[i]
        invariant
            i <= a@.len(),
            i <= b@.len(),
            bytes_le(a@, b@) == bytes_le(a@.skip(i as int), b@.skip(i as int)),
        decreases a@.len() - i,
    {
        assert(a@.skip(i as int).drop_first() =~= a@.skip(i + 1));
        assert(b@.skip(i as int).drop_first() =~= b@.skip(i + 1));
        i = i + 1;
    }
    if i == a.len() {
        true
    } else if i == b.len() {
        false
    } else {
        a[i] < b[i]
    }
}

/// Puts `name` into the sorted `sorted`, after every name that is not greater.
fn insert_sorted(sorted: &mut Vec<Vec<u8>>, name: Vec<u8>)
    requires
        sorted_names(names_view(old(sorted)@)),
    ensures
        sorted_names(names_view(final(sorted)@)),
        names_view(final(sorted)@).to_multiset() == names_view(old(sorted)@).to_multiset().insert(name@),
{
    let ghost s = names_view(sorted@);
    let mut p: usize = 0;
    while p < sorted.len() && names_le(sorted[p].as_slice(), name.as_slice())
        invariant
            p <= sorted@.len(),
            s == names_view(sorted@),
            forall|j: int| 0 <= j < p ==> bytes_le(#[trigger] s[j], name@),
        decreases sorted@.len() - p,
    {
        p = p + 1;
    }
    let ghost x = name@;
    sorted.insert(p, name);
    proof {
        let t = names_view(sorted@);
        assert(t =~= s.insert(p as int, x));
        if p < s.len() {
            lemma_bytes_le_total(s[p as int], x);
        }
        assert forall|i: int, j: int| 0 <= i < j < t.len() implies bytes_le(#[trigger] t[i], #[trigger] t[j]) by {
            if j < p {
            } else if j == p {
                assert(bytes_le(s[i], x));
            } else if i < p {
                if j - 1 > p {
                    lemma_bytes_le_transitive(x, s[p as int], s[j - 1]);
                }
                lemma_bytes_le_transitive(s[i], x, s[j - 1]);
            } else if i == p {
                if j - 1 > p {
                    lemma_bytes_le_transitive(x, s[p as int], s[j - 1]);
                }
            } else {
                assert(bytes_le(s[i - 1], s[j - 1]));
            }
        }
    }
}

/// The crash logs to remove so that only the newest `MAX_LOG_COUNT` stay:
/// of the crash logs among `names`, the oldest ones, in byte-wise order.
/// Every crash log that stays is at least as new as every one removed.
pub fn old_crash_logs(names: Vec<Vec<u8>>) -> (old: Vec<Vec<u8>>)
    ensures
        ({
            let logs = crash_logs_of(names_view(names@));
            let removed = names_view(old@);
            &&& removed.len() == excess_logs(logs.len())
            &&& sorted_names(removed)
            &&& removed.to_multiset().subset_of(logs.to_multiset())
            &&& forall|x: Seq<u8>, y: Seq<u8>|
                removed.contains(x) && logs.to_multiset().sub(removed.to_multiset()).contains(y)
                    ==> bytes_le(x, y)
        }),
{
    let ghost all = names_view(names@);
    let mut rest = names;
    let mut sorted: Vec<Vec<u8>> = Vec::new();
    while rest.len() > 0
        invariant
            sorted_names(names_view(sorted@)),
            crash_logs_of(all).to_multiset() == crash_logs_of(names_view(rest@)).to_multiset().add(
                names_view(sorted@).to_multiset(),
            ),
        decreases rest@.len(),
    {
        let ghost before = rest@;
        let name = rest.pop().unwrap();
        proof {
            assert(names_view(before) =~= names_view(rest@).push(name@));
            names_view(rest@).lemma_filter_push(name@, |n: Seq<u8>| is_log_name(n));
        }
        if is_crash_log(name.as_slice()) {
            insert_sorted(&mut sorted, name);
            proof {
                broadcast use vstd::multiset::group_multiset_axioms;
                let f = crash_logs_of(names_view(rest@));
                assert(crash_logs_of(names_view(before)) == f.push(name@));
                assert(f.push(name@).to_multiset() == f.to_multiset().insert(name@));
                assert(crash_logs_of(all).to_multiset() =~= f.to_multiset().add(names_view(sorted@).to_multiset()));
            }
        }
    }
    proof {
        broadcast use vstd::multiset::group_multiset_axioms;
        assert(names_view(rest@) =~= Seq::<Seq<u8>>::empty());
        assert(crash_logs_of(names_view(rest@)) =~= Seq::<Seq<u8>>::empty());
        assert(crash_logs_of(all).to_multiset() =~= names_view(sorted@).to_multiset());
        assert(crash_logs_of(all).to_multiset().len() == crash_logs_of(all).len());
        assert(names_view(sorted@).to_multiset().len() == names_view(sorted@).len());
    }
    let count = sorted.len();
    let k: usize = if count > MAX_LOG_COUNT { count - MAX_LOG_COUNT } else { 0 };
    let ghost s = names_view(sorted@);
    sorted.truncate(k);
    proof {
        broadcast use vstd::multiset::group_multiset_axioms;
        broadcast use vstd::seq_lib::lemma_multiset_commutative;
        let logs = crash_logs_of(all);
        let removed = names_view(sorted@);
        let kept = s.skip(k as int);
        assert(removed =~= s.take(k as int));
        assert(s =~= removed + kept);
        assert(logs.to_multiset() =~= removed.to_multiset().add(kept.to_multiset()));
        assert(logs.to_multiset().sub(removed.to_multiset()) =~= kept.to_multiset());
        assert forall|x: Seq<u8>, y: Seq<u8>|
            removed.contains(x) && logs.to_multiset().sub(removed.to_multiset()).contains(y)
                implies bytes_le(x, y) by {
            let i = choose|i: int| 0 <= i < removed.len() && removed[i] == x;
            assert(kept.contains(y));
            let j = choose|j: int| 0 <= j < kept.len() && kept[j] == y;
            assert(s[i] == x);
            assert(s[k + j] == y);
        }
    }
    sorted
}

/// After the old crash logs are removed, at most `MAX_LOG_COUNT` remain, and
/// none is removed while there are no more than that.
pub proof fn law_at_most_max_logs_remain(count: nat)
    ensures
        excess_logs(count) <= count,
        count - excess_logs(count) <= MAX_LOG_COUNT,
        count <= MAX_LOG_COUNT ==> excess_logs(count) == 0,
        count > MAX_LOG_COUNT ==> count - excess_logs(count) == MAX_LOG_COUNT,
{
}

} // verus!
