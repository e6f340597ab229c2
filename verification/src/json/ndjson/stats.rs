//! The statistics accumulator and its associative combine operation.
//!
//! A [`Stats`] holds, for one run, how often each rendered path occurred,
//! how often each `path::type` pairing occurred, how many records were
//! counted, and which line identifiers failed or matched nothing. The two
//! occurrence tables are insertion-ordered maps from the indexmap crate,
//! held behind trusted wrappers. All counters saturate at `usize::MAX`
//! instead of overflowing.
//!
//! [`FileStats`] pairs a `Stats` with the file it came from; merging
//! namespaces every line identifier by its file path first, so identifiers
//! from different files cannot collide.

use vstd::prelude::*;
use vstd::string::StringExecFns;

use indexmap::IndexMap;

verus! {

#[verifier::external_type_specification]
#[verifier::external_body]
#[verifier::reject_recursive_types(K)]
#[verifier::reject_recursive_types(V)]
#[verifier::reject_recursive_types(S)]
pub struct ExIndexMap<K, V, S>(IndexMap<K, V, S>);

/// Relies on indexmap::IndexMap::clone, which the derived `Clone` of
/// [`Stats`] calls; nothing is claimed of the copy.
pub assume_specification<K, V, S>[ <IndexMap<K, V, S> as Clone>::clone ](
    m: &IndexMap<K, V, S>,
) -> IndexMap<K, V, S>
    where
        K: Clone,
        V: Clone,
        S: Clone,
;

/// What a counts table holds: each key's count.
pub uninterp spec fn count_map_of(m: IndexMap<String, usize>) -> Map<Seq<char>, usize>;

/// The insertion order of a counts table's keys.
pub uninterp spec fn count_keys_of(m: IndexMap<String, usize>) -> Seq<Seq<char>>;

/// A well-formed counts table: its key order lists each key of its map
/// exactly once.
pub open spec fn counts_wf(m: IndexMap<String, usize>) -> bool {
    &&& count_keys_of(m).no_duplicates()
    &&& forall|k: Seq<char>|
        count_map_of(m).dom().contains(k) <==> count_keys_of(m).contains(k)
}

/// A count map with nothing in it.
pub open spec fn empty_counts() -> Map<Seq<char>, usize> {
    Map::empty()
}

/// Relies on indexmap::IndexMap::new: the new map is empty.
#[verifier::external_body]
fn counts_new() -> (r: IndexMap<String, usize>)
    ensures
        count_map_of(r) == empty_counts(),
        count_keys_of(r) == Seq::<Seq<char>>::empty(),
{
    IndexMap::new()
}

/// Relies on indexmap::IndexMap::get: the value stored for the key, if any.
#[verifier::external_body]
fn counts_get(m: &IndexMap<String, usize>, key: &String) -> (r: Option<usize>)
    ensures
        r == (if count_map_of(*m).dom().contains(key@) {
            Some(count_map_of(*m)[key@])
        } else {
            None::<usize>
        }),
{
    m.get(key).copied()
}

/// Relies on indexmap::IndexMap::insert: an existing key keeps its place in
/// the order and gets the new value; a new key is appended last.
#[verifier::external_body]
fn counts_insert(m: &mut IndexMap<String, usize>, key: String, value: usize)
    ensures
        count_map_of(*final(m)) == count_map_of(*old(m)).insert(key@, value),
        count_keys_of(*final(m)) == (if count_map_of(*old(m)).dom().contains(key@) {
            count_keys_of(*old(m))
        } else {
            count_keys_of(*old(m)).push(key@)
        }),
{
    m.insert(key, value);
}

/// Relies on indexmap::IndexMap::iter: the entries, in insertion order.
#[verifier::external_body]
fn counts_pairs(m: &IndexMap<String, usize>) -> (r: Vec<(String, usize)>)
    ensures
        r@.len() == count_keys_of(*m).len(),
        forall|i: int|
            0 <= i < r@.len() ==> {
                &&& #[trigger] r@[i].0@ == count_keys_of(*m)[i]
                &&& count_map_of(*m).dom().contains(count_keys_of(*m)[i])
                &&& r@[i].1 == count_map_of(*m)[count_keys_of(*m)[i]]
            },
{
    m.iter().map(|(k, v)| (k.clone(), *v)).collect()
}

/// Addition that stops at `usize::MAX` instead of overflowing.
pub open spec fn sat_add(a: usize, b: usize) -> usize {
    if a + b > usize::MAX {
        usize::MAX
    } else {
        (a + b) as usize
    }
}

/// The count stored for `k`, taking an absent key as zero.
pub open spec fn count_at(m: Map<Seq<char>, usize>, k: Seq<char>) -> usize {
    if m.dom().contains(k) {
        m[k]
    } else {
        0
    }
}

/// The keywise saturating sum of two count maps, over the union of their
/// keys.
pub open spec fn sum_counts(a: Map<Seq<char>, usize>, b: Map<Seq<char>, usize>) -> Map<
    Seq<char>,
    usize,
> {
    Map::new(
        |k: Seq<char>| a.dom().contains(k) || b.dom().contains(k),
        |k: Seq<char>| sat_add(count_at(a, k), count_at(b, k)),
    )
}

/// The mathematical content of a [`Stats`]: the two count maps, the record
/// count, and the two ordered lists of line identifiers.
#[verifier::ext_equal]
pub ghost struct StatsModel {
    pub keys_count: Map<Seq<char>, usize>,
    pub line_count: usize,
    pub bad_lines: Seq<Seq<char>>,
    pub keys_types_count: Map<Seq<char>, usize>,
    pub empty_lines: Seq<Seq<char>>,
}

/// The identity of the combine operation: nothing counted, nothing listed.
pub open spec fn empty_stats() -> StatsModel {
    StatsModel {
        keys_count: Map::empty(),
        line_count: 0,
        bad_lines: Seq::empty(),
        keys_types_count: Map::empty(),
        empty_lines: Seq::empty(),
    }
}

/// The combine operation of the statistics monoid: count maps are summed
/// keywise, record counts are summed, line lists are concatenated. The
/// line lists must already be namespaced by their source when statistics of
/// different files are combined.
pub open spec fn combined(a: StatsModel, b: StatsModel) -> StatsModel {
    StatsModel {
        keys_count: sum_counts(a.keys_count, b.keys_count),
        line_count: sat_add(a.line_count, b.line_count),
        bad_lines: a.bad_lines + b.bad_lines,
        keys_types_count: sum_counts(a.keys_types_count, b.keys_types_count),
        empty_lines: a.empty_lines + b.empty_lines,
    }
}

/// The combine operation is associative: merging statistics in any
/// grouping yields the same counts and the same identifier lists.
pub proof fn lemma_combine_associative(a: StatsModel, b: StatsModel, c: StatsModel)
    ensures
        combined(combined(a, b), c) == combined(a, combined(b, c)),
{
    assert(sum_counts(sum_counts(a.keys_count, b.keys_count), c.keys_count) =~= sum_counts(
        a.keys_count,
        sum_counts(b.keys_count, c.keys_count),
    ));
    assert(sum_counts(sum_counts(a.keys_types_count, b.keys_types_count), c.keys_types_count)
        =~= sum_counts(a.keys_types_count, sum_counts(b.keys_types_count, c.keys_types_count)));
    assert(combined(combined(a, b), c).bad_lines =~= combined(a, combined(b, c)).bad_lines);
    assert(combined(combined(a, b), c).empty_lines =~= combined(a, combined(b, c)).empty_lines);
    assert(combined(combined(a, b), c) =~= combined(a, combined(b, c)));
}

/// The empty statistics are the identity of the combine operation.
pub proof fn lemma_combine_identity(a: StatsModel)
    ensures
        combined(empty_stats(), a) == a,
        combined(a, empty_stats()) == a,
{
    assert(sum_counts(Map::empty(), a.keys_count) =~= a.keys_count);
    assert(sum_counts(a.keys_count, Map::empty()) =~= a.keys_count);
    assert(sum_counts(Map::empty(), a.keys_types_count) =~= a.keys_types_count);
    assert(sum_counts(a.keys_types_count, Map::empty()) =~= a.keys_types_count);
    assert(combined(empty_stats(), a) =~= a);
    assert(combined(a, empty_stats()) =~= a);
}

/// Everything collected about one stream of records.
#[derive(Debug, Clone, PartialEq, Eq)]
pub struct Stats {
    pub keys_count: IndexMap<String, usize>,
    pub line_count: usize,
    pub bad_lines: Vec<String>,
    pub keys_types_count: IndexMap<String, usize>,
    pub empty_lines: Vec<String>,
}

impl View for Stats {
    type V = StatsModel;

    open spec fn view(&self) -> StatsModel {
        StatsModel {
            keys_count: count_map_of(self.keys_count),
            line_count: self.line_count,
            bad_lines: self.bad_lines.deep_view(),
            keys_types_count: count_map_of(self.keys_types_count),
            empty_lines: self.empty_lines.deep_view(),
        }
    }
}

impl Stats {
    /// Both count tables are well formed.
    pub open spec fn wf(&self) -> bool {
        counts_wf(self.keys_count) && counts_wf(self.keys_types_count)
    }

    /// An empty accumulator.
    pub fn new() -> (r: Stats)
        ensures
            r@ == empty_stats(),
            r.wf(),
            count_keys_of(r.keys_count) == Seq::<Seq<char>>::empty(),
            count_keys_of(r.keys_types_count) == Seq::<Seq<char>>::empty(),
    {
        let r = Stats {
            keys_count: counts_new(),
            line_count: 0,
            bad_lines: Vec::new(),
            keys_types_count: counts_new(),
            empty_lines: Vec::new(),
        };
        assert(r.bad_lines.deep_view() =~= Seq::<Seq<char>>::empty());
        assert(r.empty_lines.deep_view() =~= Seq::<Seq<char>>::empty());
        assert(r@ =~= empty_stats());
        r
    }
}

/// Raises the count stored for `key` by `v`, saturating at `usize::MAX`;
/// a key seen for the first time is appended to the table's order.
pub(crate) fn add_count(m: &mut IndexMap<String, usize>, key: String, v: usize)
    requires
        counts_wf(*old(m)),
    ensures
        counts_wf(*final(m)),
        count_map_of(*final(m)) == count_map_of(*old(m)).insert(
            key@,
            sat_add(count_at(count_map_of(*old(m)), key@), v),
        ),
        count_keys_of(*final(m)) == (if count_map_of(*old(m)).dom().contains(key@) {
            count_keys_of(*old(m))
        } else {
            count_keys_of(*old(m)).push(key@)
        }),
{
    let next = match counts_get(m, &key) {
        Some(c) => c.saturating_add(v),
        None => v,
    };
    assert(next == sat_add(count_at(count_map_of(*m), key@), v));
    let ghost was_there = count_map_of(*m).dom().contains(key@);
    let ghost okeys = count_keys_of(*m);
    let ghost omap = count_map_of(*m);
    counts_insert(m, key, next);
    proof {
        let nkeys = count_keys_of(*m);
        let nmap = count_map_of(*m);
        if !was_there {
            assert(!okeys.contains(key@));
            assert forall|i: int, j: int|
                0 <= i < nkeys.len() && 0 <= j < nkeys.len() && i != j implies nkeys[i]
                != nkeys[j] by {
                if i < okeys.len() && j < okeys.len() {
                    assert(nkeys[i] == okeys[i] && nkeys[j] == okeys[j]);
                } else if j == okeys.len() && i < okeys.len() {
                    assert(nkeys[j] == key@ && nkeys[i] == okeys[i]);
                    if okeys[i] == key@ {
                        assert(okeys.contains(key@));
                    }
                } else if i == okeys.len() && j < okeys.len() {
                    assert(nkeys[i] == key@ && nkeys[j] == okeys[j]);
                    if okeys[j] == key@ {
                        assert(okeys.contains(key@));
                    }
                }
            }
            assert(nkeys.no_duplicates());
        }
        assert forall|k: Seq<char>| nmap.dom().contains(k) <==> nkeys.contains(k) by {
            if k == key@ {
                assert(nmap.dom().contains(k));
                if was_there {
                    assert(okeys.contains(k));
                    assert(nkeys == okeys);
                } else {
                    assert(nkeys[okeys.len() as int] == key@);
                }
                assert(nkeys.contains(k));
            } else {
                assert(nmap.dom().contains(k) == omap.dom().contains(k));
                if was_there {
                    assert(nkeys == okeys);
                } else {
                    if okeys.contains(k) {
                        let i = choose|i: int| 0 <= i < okeys.len() && okeys[i] == k;
                        assert(nkeys[i] == k);
                        assert(nkeys.contains(k));
                    }
                    if nkeys.contains(k) {
                        let i = choose|i: int| 0 <= i < nkeys.len() && nkeys[i] == k;
                        assert(i != okeys.len());
                        assert(okeys[i] == k);
                        assert(okeys.contains(k));
                    }
                }
            }
        }
    }
}

/// Adds every count of `src` into `dst`, summing shared keys; new keys
/// keep `src`'s relative order at the end of `dst`'s.
fn merge_counts(dst: &mut IndexMap<String, usize>, src: &IndexMap<String, usize>)
    requires
        counts_wf(*old(dst)),
        counts_wf(*src),
    ensures
        counts_wf(*final(dst)),
        count_map_of(*final(dst)) == sum_counts(count_map_of(*old(dst)), count_map_of(*src)),
{
    let ghost omap = count_map_of(*dst);
    let ghost smap = count_map_of(*src);
    let ghost skeys = count_keys_of(*src);
    let pairs = counts_pairs(src);
    let n = pairs.len();
    for idx in 0..n
        invariant
            n == pairs.len(),
            n as int == skeys.len(),
            counts_wf(*dst),
            counts_wf(*src),
            omap == count_map_of(*old(dst)),
            smap == count_map_of(*src),
            skeys == count_keys_of(*src),
            forall|i: int|
                0 <= i < n ==> {
                    &&& #[trigger] pairs@[i].0@ == skeys[i]
                    &&& smap.dom().contains(skeys[i])
                    &&& pairs@[i].1 == smap[skeys[i]]
                },
            forall|k: Seq<char>|
                #[trigger] count_map_of(*dst).dom().contains(k) <==> (omap.dom().contains(k)
                    || skeys.take(idx as int).contains(k)),
            forall|k: Seq<char>|
                count_at(#[trigger] count_map_of(*dst), k) == (if skeys.take(
                    idx as int,
                ).contains(k) {
                    sat_add(count_at(omap, k), count_at(smap, k))
                } else {
                    count_at(omap, k)
                }),
    {
        let key = pairs[idx].0.clone();
        let v = pairs[idx].1;
        let ghost before = count_map_of(*dst);
        proof {
            assert(skeys.take(idx as int + 1) =~= skeys.take(idx as int).push(skeys[idx as int]));
            if skeys.take(idx as int).contains(key@) {
                let i = choose|i: int|
                    0 <= i < skeys.take(idx as int).len() && skeys.take(idx as int)[i] == key@;
                assert(skeys[i] == key@ && skeys[idx as int] == key@);
                assert(false);
            }
        }
        add_count(dst, key, v);
        proof {
            assert forall|k: Seq<char>|
                count_at(#[trigger] count_map_of(*dst), k) == (if skeys.take(
                    idx as int + 1,
                ).contains(k) {
                    sat_add(count_at(omap, k), count_at(smap, k))
                } else {
                    count_at(omap, k)
                }) by {
                if k == skeys[idx as int] {
                    assert(skeys.take(idx as int + 1).contains(k)) by {
                        assert(skeys.take(idx as int + 1)[idx as int] == k);
                    }
                    assert(count_at(count_map_of(*dst), k) == sat_add(count_at(before, k), v));
                } else {
                    assert(skeys.take(idx as int + 1).contains(k) == skeys.take(
                        idx as int,
                    ).contains(k)) by {
                        if skeys.take(idx as int + 1).contains(k) {
                            let i = choose|i: int|
                                0 <= i < skeys.take(idx as int + 1).len() && #[trigger] skeys.take(
                                    idx as int + 1,
                                )[i] == k;
                            assert(skeys.take(idx as int)[i] == k);
                        }
                        if skeys.take(idx as int).contains(k) {
                            let i = choose|i: int|
                                0 <= i < skeys.take(idx as int).len() && #[trigger] skeys.take(
                                    idx as int,
                                )[i] == k;
                            assert(skeys.take(idx as int + 1)[i] == k);
                        }
                    }
                    assert(count_at(count_map_of(*dst), k) == count_at(before, k));
                }
            }
            assert forall|k: Seq<char>|
                #[trigger] count_map_of(*dst).dom().contains(k) <==> (omap.dom().contains(k)
                    || skeys.take(idx as int + 1).contains(k)) by {
                if k == skeys[idx as int] {
                    assert(skeys.take(idx as int + 1)[idx as int] == k);
                } else {
                    if skeys.take(idx as int + 1).contains(k) {
                        let i = choose|i: int|
                            0 <= i < skeys.take(idx as int + 1).len() && #[trigger] skeys.take(
                                idx as int + 1,
                            )[i] == k;
                        assert(skeys.take(idx as int)[i] == k);
                    }
                    if skeys.take(idx as int).contains(k) {
                        let i = choose|i: int|
                            0 <= i < skeys.take(idx as int).len() && #[trigger] skeys.take(
                                idx as int,
                            )[i] == k;
                        assert(skeys.take(idx as int + 1)[i] == k);
                    }
                }
            }
        }
    }
    proof {
        assert(skeys.take(n as int) =~= skeys);
        let f = count_map_of(*dst);
        let su = sum_counts(omap, smap);
        assert forall|k: Seq<char>| f.dom().contains(k) <==> su.dom().contains(k) by {
            assert(f.dom().contains(k) <==> (omap.dom().contains(k) || skeys.take(
                n as int,
            ).contains(k)));
            assert(skeys.contains(k) <==> smap.dom().contains(k));
        }
        assert forall|k: Seq<char>| #[trigger] f.dom().contains(k) implies f[k] == su[k] by {
            assert(count_at(f, k) == (if skeys.take(n as int).contains(k) {
                sat_add(count_at(omap, k), count_at(smap, k))
            } else {
                count_at(omap, k)
            }));
            assert(skeys.contains(k) <==> smap.dom().contains(k));
            if !skeys.contains(k) {
                assert(count_at(smap, k) == 0);
            }
            assert(f[k] == count_at(f, k));
            assert(su[k] == sat_add(count_at(omap, k), count_at(smap, k)));
        }
        assert(f =~= su);
    }
}

/// Appends a copy of every line identifier in `src` to `dst`.
fn extend_lines(dst: &mut Vec<String>, src: &Vec<String>)
    ensures
        final(dst).deep_view() == old(dst).deep_view() + src.deep_view(),
{
    let n = src.len();
    for i in 0..n
        invariant
            n == src.len(),
            dst.deep_view() == old(dst).deep_view() + src.deep_view().take(i as int),
    {
        let ghost before = dst.deep_view();
        dst.push(src[i].clone());
        proof {
            assert(dst.deep_view() =~= before.push(src.deep_view()[i as int]));
            assert(dst.deep_view() =~= old(dst).deep_view() + src.deep_view().take(i as int + 1));
        }
    }
    proof {
        assert(src.deep_view().take(n as int) =~= src.deep_view());
    }
}

/// One line identifier, namespaced by the file it came from.
pub open spec fn namespaced_line(fp: Seq<char>, line: Seq<char>) -> Seq<char> {
    fp + seq![':'] + line
}

/// A list of line identifiers, each namespaced by the file it came from.
pub open spec fn namespaced_lines(fp: Seq<char>, lines: Seq<Seq<char>>) -> Seq<Seq<char>> {
    lines.map_values(|line: Seq<char>| namespaced_line(fp, line))
}

/// Prefixes every line identifier in `lines` with `fp` and a colon.
fn namespace_lines(fp: &String, lines: &Vec<String>) -> (r: Vec<String>)
    ensures
        r.deep_view() == namespaced_lines(fp@, lines.deep_view()),
{
    proof {
        reveal_strlit(":");
    }
    let mut out: Vec<String> = Vec::new();
    let n = lines.len();
    assert(out.deep_view() =~= namespaced_lines(fp@, lines.deep_view()).take(0));
    for i in 0..n
        invariant
            n == lines.len(),
            out.deep_view() == namespaced_lines(fp@, lines.deep_view()).take(i as int),
    {
        proof {
            reveal_strlit(":");
        }
        let mut s = fp.clone();
        s.append(":");
        s.append(lines[i].as_str());
        assert(s@ =~= namespaced_line(fp@, lines.deep_view()[i as int]));
        let ghost before = out.deep_view();
        out.push(s);
        proof {
            assert(out.deep_view() =~= before.push(s@));
            assert(out.deep_view() =~= namespaced_lines(fp@, lines.deep_view()).take(i as int + 1));
        }
    }
    proof {
        let full = namespaced_lines(fp@, lines.deep_view());
        assert(full.take(n as int) =~= full);
    }
    out
}

impl Stats {
    /// Merges `rhs` into `self`: counts are summed keywise, record counts
    /// are summed, the identifier lists of `rhs` are appended after
    /// `self`'s. Both inputs must already be namespaced if they come from
    /// different files.
    pub fn combine(self, rhs: &Stats) -> (r: Stats)
        requires
            self.wf(),
            rhs.wf(),
        ensures
            r@ == combined(self@, rhs@),
            r.wf(),
    {
        let ghost a = self@;
        let mut out = self;
        merge_counts(&mut out.keys_count, &rhs.keys_count);
        merge_counts(&mut out.keys_types_count, &rhs.keys_types_count);
        out.line_count = out.line_count.saturating_add(rhs.line_count);
        extend_lines(&mut out.bad_lines, &rhs.bad_lines);
        extend_lines(&mut out.empty_lines, &rhs.empty_lines);
        assert(out@ =~= combined(a, rhs@));
        out
    }
}

impl Default for Stats {
    /// The empty accumulator, as the tests' struct updates expect.
    fn default() -> (r: Stats)
        ensures
            r@ == empty_stats(),
            r.wf(),
    {
        Stats::new()
    }
}

/// The statistics of one input file, kept with the file's path so that its
/// line identifiers can be namespaced before a merge.
#[derive(Debug, Clone, PartialEq, Eq)]
pub struct FileStats {
    pub file_path: String,
    pub stats: Stats,
}

impl FileStats {
    /// Pairs a file path with the statistics collected from that file.
    pub fn new(file_path: String, stats: Stats) -> (r: FileStats)
        ensures
            r.file_path == file_path,
            r.stats == stats,
    {
        FileStats { file_path, stats }
    }

    /// This file's statistics with every line identifier namespaced by the
    /// file path.
    pub open spec fn namespaced_model(&self) -> StatsModel {
        StatsModel {
            keys_count: self.stats@.keys_count,
            line_count: self.stats@.line_count,
            bad_lines: namespaced_lines(self.file_path@, self.stats@.bad_lines),
            keys_types_count: self.stats@.keys_types_count,
            empty_lines: namespaced_lines(self.file_path@, self.stats@.empty_lines),
        }
    }

    /// Merges the statistics of two files: every line identifier is
    /// namespaced by its own file's path, then the statistics are combined.
    pub fn add(self, rhs: &FileStats) -> (r: Stats)
        requires
            self.stats.wf(),
            rhs.stats.wf(),
        ensures
            r@ == combined(self.namespaced_model(), rhs.namespaced_model()),
            r.wf(),
    {
        let ghost lhs0 = self;
        let FileStats { file_path, stats } = self;
        let mut out = stats;
        out.bad_lines = namespace_lines(&file_path, &out.bad_lines);
        out.empty_lines = namespace_lines(&file_path, &out.empty_lines);
        assert(out@ =~= lhs0.namespaced_model());
        out.add(rhs)
    }
}

impl Stats {
    /// Merges one file's statistics into these: the file's line
    /// identifiers are namespaced by its path, these are kept as they are.
    pub fn add(self, rhs: &FileStats) -> (r: Stats)
        requires
            self.wf(),
            rhs.stats.wf(),
        ensures
            r@ == combined(self@, rhs.namespaced_model()),
            r.wf(),
    {
        let ghost a = self@;
        let mut out = self;
        merge_counts(&mut out.keys_count, &rhs.stats.keys_count);
        merge_counts(&mut out.keys_types_count, &rhs.stats.keys_types_count);
        out.line_count = out.line_count.saturating_add(rhs.stats.line_count);
        let mut rhs_bad = namespace_lines(&rhs.file_path, &rhs.stats.bad_lines);
        out.bad_lines.append(&mut rhs_bad);
        let mut rhs_empty = namespace_lines(&rhs.file_path, &rhs.stats.empty_lines);
        out.empty_lines.append(&mut rhs_empty);
        proof {
            assert(out.bad_lines.deep_view() =~= a.bad_lines + namespaced_lines(
                rhs.file_path@,
                rhs.stats@.bad_lines,
            ));
            assert(out.empty_lines.deep_view() =~= a.empty_lines + namespaced_lines(
                rhs.file_path@,
                rhs.stats@.empty_lines,
            ));
            assert(out@ =~= combined(a, rhs.namespaced_model()));
        }
        out
    }
}

/// The fold of a list of per-file statistics, left to right, starting from
/// the empty statistics, namespacing each file's line identifiers.
pub open spec fn sum_of_files(l: Seq<FileStats>) -> StatsModel
    decreases l.len(),
{
    if l.len() == 0 {
        empty_stats()
    } else {
        combined(sum_of_files(l.drop_last()), l.last().namespaced_model())
    }
}

impl Stats {
    /// Folds a list of per-file statistics into one, namespacing each
    /// file's line identifiers by its path.
    pub fn sum(list: &Vec<FileStats>) -> (r: Stats)
        requires
            forall|i: int| 0 <= i < list@.len() ==> (#[trigger] list@[i]).stats.wf(),
        ensures
            r@ == sum_of_files(list@),
            r.wf(),
    {
        let mut acc = Stats::new();
        let n = list.len();
        for i in 0..n
            invariant
                n == list.len(),
                forall|j: int| 0 <= j < list@.len() ==> (#[trigger] list@[j]).stats.wf(),
                acc@ == sum_of_files(list@.take(i as int)),
                acc.wf(),
        {
            acc = acc.add(&list[i]);
            proof {
                assert(list@.take(i as int + 1).drop_last() =~= list@.take(i as int));
                assert(list@.take(i as int + 1).last() == list@[i as int]);
            }
        }
        proof {
            assert(list@.take(n as int) =~= list@);
        }
        acc
    }
}

} // verus!
