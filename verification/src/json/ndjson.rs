//! The NDJSON processing pipeline.
//!
//! A record enters as one line of text, is parsed into a JSON document,
//! optionally re-selected through a compiled path-query, walked into
//! (path, leaf) pairs, and folded into a [`Stats`]. Failures are recorded
//! per record and never halt the stream. The sequential and the sharded
//! strategy produce the same statistics: the sharded one folds per-shard
//! results with the associative combine operation.

pub mod errors;
pub mod stats;

use vstd::prelude::*;
use vstd::string::StringExecFns;
use vstd::pervasive::unreached;

use crate::decimal::{dec_str, to_decimal};
use crate::json::paths::{render_path, walk_rep, ValuePaths};
use crate::json::{from_serde, json_line_parse, json_type_name, parse_json_line, rep_of,
    serde_doc_rep, JsonRep, JsonValue};
use crate::{qtext_of, selector_text, Cli, Settings};

use self::errors::{bad_locations, empty_locations, classify_errors, Errors, IndexedNDJSONError,
    LineReadError, NDJSONError};
use self::stats::{add_count, combined, empty_stats, lemma_combine_associative,
    lemma_combine_identity, sum_counts, Stats, StatsModel};

verus! {

/// A run's statistics together with the errors recorded along the way.
#[derive(Debug)]
pub struct StatsResult {
    pub stats: Stats,
    pub errors: Errors<IndexedNDJSONError>,
}

/// What querying a document yields: the selected nodes, in the selector's
/// stable document order.
pub uninterp spec fn query_results(q: Seq<char>, doc: JsonRep) -> Seq<JsonRep>;

/// Relies on serde_json_path::JsonPath::query and NodeList::all: the
/// matched nodes in the query's stable order, mirrored into the library's
/// model. Evaluation of a compiled query cannot fail.
#[verifier::external_body]
fn select_nodes(p: &serde_json_path::JsonPath, doc: &serde_json::Value) -> (r: Vec<JsonValue>)
    ensures
        r.deep_view() == query_results(selector_text(*p), serde_doc_rep(*doc)),
{
    p.query(doc).all().into_iter().map(|v| from_serde(v)).collect()
}

/// The model of a list of parsed records: each identifier with its
/// document's model.
pub open spec fn records_rep(rs: Seq<(String, serde_json::Value)>) -> Seq<(Seq<char>, JsonRep)> {
    rs.map_values(|r: (String, serde_json::Value)| (r.0@, serde_doc_rep(r.1)))
}

/// The model of a list of mirrored records.
pub open spec fn out_rep(rs: Seq<(String, JsonValue)>) -> Seq<(Seq<char>, JsonRep)> {
    rs.map_values(|r: (String, JsonValue)| (r.0@, rep_of(r.1)))
}

/// The identifier of the `k`-th match of query `q` on the record `id`:
/// `{id}:{q}[{k}]`.
pub open spec fn expanded_id(id: Seq<char>, q: Seq<char>, k: int) -> Seq<char> {
    id + seq![':'] + q + seq!['['] + dec_str(k as nat) + seq![']']
}

/// Expanding one record through query `q`: zero matches record the line as
/// an empty query and produce nothing; `k` matches produce `k` records
/// with rewritten identifiers, in match order.
pub open spec fn expanded_of(q: Seq<char>, id: Seq<char>, doc: JsonRep) -> (Seq<
    (Seq<char>, JsonRep),
>, Seq<(Seq<char>, NDJSONError)>) {
    let rs = query_results(q, doc);
    if rs.len() == 0 {
        (Seq::empty(), seq![(id, NDJSONError::EmptyQuery)])
    } else {
        (
            Seq::new(
                rs.len(),
                |k: int| (expanded_id(id, q, k), rs[k]),
            ),
            Seq::empty(),
        )
    }
}

/// The query stage over a stream of records: with no query configured the
/// records pass through unchanged; with one, each record is expanded in
/// turn and the recorded errors keep record order.
pub open spec fn expand_stage(q: Option<Seq<char>>, recs: Seq<(Seq<char>, JsonRep)>) -> (Seq<
    (Seq<char>, JsonRep),
>, Seq<(Seq<char>, NDJSONError)>)
    decreases recs.len(),
{
    match q {
        None => (recs, Seq::empty()),
        Some(qt) => {
            if recs.len() == 0 {
                (Seq::empty(), Seq::empty())
            } else {
                let prev = expand_stage(q, recs.drop_last());
                let last = expanded_of(qt, recs.last().0, recs.last().1);
                (prev.0 + last.0, prev.1 + last.1)
            }
        },
    }
}

/// The first `n` elements of the stream when a limit `n` is set, the whole
/// stream otherwise.
pub open spec fn limit_model<T>(lines: Option<usize>, s: Seq<T>) -> Seq<T> {
    match lines {
        Some(n) => {
            if s.len() > n {
                s.take(n as int)
            } else {
                s
            }
        },
        None => s,
    }
}

/// Truncates the stream to the configured line limit, if one is set.
pub fn limit<T>(args: &Cli, iter: Vec<T>) -> (r: Vec<T>)
    ensures
        r@ == limit_model(args.lines, iter@),
{
    let mut iter = iter;
    let ghost orig = iter@;
    proof {
        assert(orig.take(orig.len() as int) =~= orig);
    }
    match args.lines {
        Some(n) => {
            while iter.len() > n
                invariant
                    iter@.len() <= orig.len(),
                    iter@ == orig.take(iter@.len() as int),
                    iter@.len() >= n as int || iter@ == orig,
                decreases iter@.len(),
            {
                iter.pop();
                proof {
                    assert(orig.take(iter@.len() as int + 1).drop_last() =~= orig.take(
                        iter@.len() as int,
                    ));
                }
            }
            proof {
                if orig.len() > n {
                    assert(iter@.len() == n as int);
                } else {
                    assert(iter@ =~= orig);
                }
            }
        },
        None => {
            proof {
                assert(iter@ =~= orig.take(iter@.len() as int));
            }
        },
    }
    iter
}

/// Re-selects each record through the configured query, rewriting match
/// identifiers to `{id}:{query}[{k}]`; a record whose query matches
/// nothing is recorded as an empty line and dropped. With no query
/// configured, records pass through with their documents mirrored into
/// the library's model.
pub fn expand_jsonpath_query(
    settings: &Settings,
    json_iter: Vec<(String, serde_json::Value)>,
    errors: &mut Errors<IndexedNDJSONError>,
) -> (r: Vec<(String, JsonValue)>)
    requires
        settings.wf(),
    ensures
        out_rep(r@) == expand_stage(qtext_of(*settings), records_rep(json_iter@)).0,
        final(errors).container.deep_view() == old(errors).container.deep_view() + expand_stage(
            qtext_of(*settings),
            records_rep(json_iter@),
        ).1,
{
    let ghost q = qtext_of(*settings);
    let ghost inrep = records_rep(json_iter@);
    let mut out: Vec<(String, JsonValue)> = Vec::new();
    let n = json_iter.len();
    match &settings.jsonpath_selector {
        None => {
            for i in 0..n
                invariant
                    n == json_iter.len(),
                    inrep == records_rep(json_iter@),
                    q is None,
                    errors.container == old(errors).container,
                    out_rep(out@) == inrep.take(i as int),
            {
                let id = json_iter[i].0.clone();
                let jv = from_serde(&json_iter[i].1);
                let ghost before = out@;
                out.push((id, jv));
                proof {
                    assert(out_rep(out@) =~= out_rep(before).push(
                        (json_iter@[i as int].0@, serde_doc_rep(json_iter@[i as int].1)),
                    ));
                    assert(out_rep(out@) =~= inrep.take(i + 1));
                }
            }
            proof {
                assert(inrep.take(n as int) =~= inrep);
                assert(final(errors).container.deep_view() =~= old(
                    errors,
                ).container.deep_view() + expand_stage(q, inrep).1);
            }
            out
        },
        Some(selector) => {
            let path: &String = match &settings.args.jsonpath {
                Some(p) => p,
                None => unreached(),
            };
            assert(selector_text(*selector) == path@);
            for i in 0..n
                invariant
                    n == json_iter.len(),
                    inrep == records_rep(json_iter@),
                    q == Some(path@),
                    settings.jsonpath_selector matches Some(sel) && selector_text(sel) == path@,
                    out_rep(out@) == expand_stage(q, inrep.take(i as int)).0,
                    errors.container.deep_view() == old(errors).container.deep_view()
                        + expand_stage(q, inrep.take(i as int)).1,
            {
                let sel = match &settings.jsonpath_selector {
                    Some(sel) => sel,
                    None => unreached(),
                };
                let id: &String = &json_iter[i].0;
                let ghost idv = id@;
                let ghost docrep = serde_doc_rep(json_iter@[i as int].1);
                let mut nodes = select_nodes(sel, &json_iter[i].1);
                let ghost rs = query_results(path@, docrep);
                assert(nodes.deep_view() == rs);
                let ghost st_i = expand_stage(q, inrep.take(i as int));
                proof {
                    assert(inrep.take(i + 1).drop_last() =~= inrep.take(i as int));
                    assert(inrep.take(i + 1).last() == inrep[i as int]);
                    assert(inrep[i as int] == (idv, docrep));
                }
                if nodes.len() == 0 {
                    let ghost ed = errors.container.deep_view();
                    errors.push(IndexedNDJSONError::new(id.clone(), NDJSONError::EmptyQuery));
                    proof {
                        assert(rs.len() == 0);
                        assert(errors.container.deep_view() =~= ed.push(
                            (idv, NDJSONError::EmptyQuery),
                        ));
                        assert(expanded_of(path@, idv, docrep).1 =~= seq![
                            (idv, NDJSONError::EmptyQuery),
                        ]);
                        assert(out_rep(out@) =~= expand_stage(q, inrep.take(i + 1)).0);
                        assert(errors.container.deep_view() =~= old(errors).container.deep_view()
                            + expand_stage(q, inrep.take(i + 1)).1);
                    }
                } else {
                    let m = nodes.len();
                    let ghost exp = Seq::new(rs.len(), |k: int| (expanded_id(idv, path@, k), rs[k]));
                    for k in 0..m
                        invariant
                            m as int == rs.len(),
                            idv == id@,
                            nodes.deep_view() == rs.skip(k as int),
                            q == Some(path@),
                            exp == Seq::new(
                                rs.len(),
                                |k: int| (expanded_id(idv, path@, k), rs[k]),
                            ),
                            rs.len() > 0,
                            out_rep(out@) == st_i.0 + exp.take(k as int),
                            errors.container.deep_view() == old(errors).container.deep_view()
                                + st_i.1,
                    {
                        proof {
                            reveal_strlit(":");
                            reveal_strlit("[");
                            reveal_strlit("]");
                        }
                        let ghost old_nodes = nodes@;
                        let ghost old_deep = nodes.deep_view();
                        proof {
                            assert(old_deep.len() == old_nodes.len());
                            assert(old_deep.len() == rs.len() - k);
                        }
                        let node = nodes.remove(0);
                        proof {
                            assert(nodes@ =~= old_nodes.skip(1));
                            assert(nodes.deep_view() =~= old_deep.skip(1));
                            assert(old_deep.skip(1) =~= rs.skip(k as int + 1));
                            assert(rep_of(node) == old_deep[0]);
                            assert(rep_of(node) == rs[k as int]);
                        }
                        let mut id2 = id.clone();
                        id2.append(":");
                        id2.append(path.as_str());
                        id2.append("[");
                        let digits = to_decimal(k);
                        id2.append(digits.as_str());
                        id2.append("]");
                        proof {
                            assert(":"@ =~= seq![':']);
                            assert("["@ =~= seq!['[']);
                            assert("]"@ =~= seq![']']);
                            assert(id2@ =~= idv + ":"@ + path@ + "["@ + dec_str(k as nat) + "]"@);
                            assert(id2@ =~= expanded_id(idv, path@, k as int));
                        }
                        let ghost before = out@;
                        out.push((id2, node));
                        proof {
                            assert(out_rep(out@) =~= out_rep(before).push(
                                (expanded_id(idv, path@, k as int), rs[k as int]),
                            ));
                            assert(exp.take(k + 1) =~= exp.take(k as int).push(exp[k as int]));
                            assert(out_rep(out@) =~= st_i.0 + exp.take(k + 1));
                        }
                    }
                    proof {
                        assert(exp.take(m as int) =~= exp);
                        assert(expanded_of(path@, idv, docrep).0 == exp);
                        assert(out_rep(out@) =~= expand_stage(q, inrep.take(i + 1)).0);
                        assert(expanded_of(path@, idv, docrep).1 =~= Seq::<
                            (Seq<char>, NDJSONError),
                        >::empty());
                        assert(errors.container.deep_view() =~= old(errors).container.deep_view()
                            + expand_stage(q, inrep.take(i + 1)).1);
                    }
                }
            }
            proof {
                assert(inrep.take(n as int) =~= inrep);
            }
            out
        },
    }
}

/// A count map holding one key, counted once.
pub open spec fn singleton_count(k: Seq<char>) -> Map<Seq<char>, usize> {
    Map::empty().insert(k, 1usize)
}

/// The statistics of one walked leaf: its rendered path counted once, and
/// the pairing of that path with the leaf's type counted once.
pub open spec fn leaf_stat(vp: (Seq<Seq<char>>, JsonRep)) -> StatsModel {
    StatsModel {
        keys_count: singleton_count(render_path(vp.0)),
        line_count: 0,
        bad_lines: Seq::empty(),
        keys_types_count: singleton_count(
            render_path(vp.0) + seq![':', ':'] + json_type_name(vp.1),
        ),
        empty_lines: Seq::empty(),
    }
}

/// The statistics of one record's walk, leaf by leaf.
pub open spec fn walk_stat(w: Seq<(Seq<Seq<char>>, JsonRep)>) -> StatsModel
    decreases w.len(),
{
    if w.len() == 0 {
        empty_stats()
    } else {
        combined(walk_stat(w.drop_last()), leaf_stat(w.last()))
    }
}

/// The statistics that count one record and nothing else.
pub open spec fn one_record() -> StatsModel {
    StatsModel {
        keys_count: Map::empty(),
        line_count: 1,
        bad_lines: Seq::empty(),
        keys_types_count: Map::empty(),
        empty_lines: Seq::empty(),
    }
}

/// The statistics of one record: the record is counted once, and every
/// leaf of its walk contributes its path and its path-type pairing.
pub open spec fn record_stat(doc: JsonRep, explode: bool, inspect: bool) -> StatsModel {
    combined(one_record(), walk_stat(walk_rep(doc, Seq::empty(), explode, inspect)))
}

/// The statistics of a stream of records: the fold of each record's
/// statistics under the combine operation, left to right.
pub open spec fn agg_model(outs: Seq<(Seq<char>, JsonRep)>, explode: bool, inspect: bool) -> StatsModel
    decreases outs.len(),
{
    if outs.len() == 0 {
        empty_stats()
    } else {
        combined(
            agg_model(outs.drop_last(), explode, inspect),
            record_stat(outs.last().1, explode, inspect),
        )
    }
}

/// Aggregation is a homomorphism from concatenation to the combine
/// operation: a stream may be split anywhere, each part aggregated on its
/// own, and the parts combined, without changing the result. This is what
/// makes the sharded strategy agree with the sequential one.
pub proof fn lemma_agg_concat(
    a: Seq<(Seq<char>, JsonRep)>,
    b: Seq<(Seq<char>, JsonRep)>,
    explode: bool,
    inspect: bool,
)
    ensures
        agg_model(a + b, explode, inspect) == combined(
            agg_model(a, explode, inspect),
            agg_model(b, explode, inspect),
        ),
    decreases b.len(),
{
    if b.len() == 0 {
        assert(a + b =~= a);
        lemma_combine_identity(agg_model(a, explode, inspect));
    } else {
        assert((a + b).drop_last() =~= a + b.drop_last());
        assert((a + b).last() == b.last());
        lemma_agg_concat(a, b.drop_last(), explode, inspect);
        lemma_combine_associative(
            agg_model(a, explode, inspect),
            agg_model(b.drop_last(), explode, inspect),
            record_stat(b.last().1, explode, inspect),
        );
    }
}

/// The query stage distributes over concatenation: each part's records and
/// errors follow the first part's.
pub proof fn lemma_expand_concat(
    q: Option<Seq<char>>,
    a: Seq<(Seq<char>, JsonRep)>,
    b: Seq<(Seq<char>, JsonRep)>,
)
    ensures
        expand_stage(q, a + b).0 == expand_stage(q, a).0 + expand_stage(q, b).0,
        expand_stage(q, a + b).1 == expand_stage(q, a).1 + expand_stage(q, b).1,
    decreases b.len(),
{
    match q {
        None => {
            assert(expand_stage(q, a + b).0 =~= expand_stage(q, a).0 + expand_stage(q, b).0);
            assert(expand_stage(q, a + b).1 =~= expand_stage(q, a).1 + expand_stage(q, b).1);
        },
        Some(qt) => {
            if b.len() == 0 {
                assert(a + b =~= a);
                assert(expand_stage(q, a).0 + expand_stage(q, b).0 =~= expand_stage(q, a).0);
                assert(expand_stage(q, a).1 + expand_stage(q, b).1 =~= expand_stage(q, a).1);
            } else {
                assert((a + b).drop_last() =~= a + b.drop_last());
                assert((a + b).last() == b.last());
                lemma_expand_concat(q, a, b.drop_last());
                assert(expand_stage(q, a + b).0 =~= expand_stage(q, a).0 + expand_stage(
                    q,
                    b,
                ).0);
                assert(expand_stage(q, a + b).1 =~= expand_stage(q, a).1 + expand_stage(
                    q,
                    b,
                ).1);
            }
        },
    }
}

/// The aggregated statistics of a stream list no lines: line identifiers
/// enter the statistics only through error classification.
pub proof fn lemma_agg_no_lines(outs: Seq<(Seq<char>, JsonRep)>, explode: bool, inspect: bool)
    ensures
        agg_model(outs, explode, inspect).bad_lines == Seq::<Seq<char>>::empty(),
        agg_model(outs, explode, inspect).empty_lines == Seq::<Seq<char>>::empty(),
    decreases outs.len(),
{
    if outs.len() > 0 {
        lemma_agg_no_lines(outs.drop_last(), explode, inspect);
        lemma_walk_no_lines(
            walk_rep(outs.last().1, Seq::empty(), explode, inspect),
        );
        assert(agg_model(outs, explode, inspect).bad_lines =~= Seq::<Seq<char>>::empty());
        assert(agg_model(outs, explode, inspect).empty_lines =~= Seq::<Seq<char>>::empty());
    }
}

/// One walk's statistics list no lines and count no records.
pub proof fn lemma_walk_no_lines(w: Seq<(Seq<Seq<char>>, JsonRep)>)
    ensures
        walk_stat(w).bad_lines == Seq::<Seq<char>>::empty(),
        walk_stat(w).empty_lines == Seq::<Seq<char>>::empty(),
        walk_stat(w).line_count == 0,
    decreases w.len(),
{
    if w.len() > 0 {
        lemma_walk_no_lines(w.drop_last());
        assert(walk_stat(w).bad_lines =~= Seq::<Seq<char>>::empty());
        assert(walk_stat(w).empty_lines =~= Seq::<Seq<char>>::empty());
    }
}

/// Aggregating a stream counts exactly one record per stream element,
/// saturating at `usize::MAX`.
pub proof fn lemma_agg_line_count(outs: Seq<(Seq<char>, JsonRep)>, explode: bool, inspect: bool)
    ensures
        agg_model(outs, explode, inspect).line_count == (if outs.len() > usize::MAX {
            usize::MAX as usize
        } else {
            outs.len() as usize
        }),
    decreases outs.len(),
{
    if outs.len() > 0 {
        lemma_agg_line_count(outs.drop_last(), explode, inspect);
        lemma_walk_no_lines(
            walk_rep(outs.last().1, Seq::empty(), explode, inspect),
        );
    }
}

/// Folds a stream of mirrored records into statistics: each record counts
/// once, and every leaf of its walk counts its rendered path and its
/// `path::type` pairing.
fn aggregate_records(
    explode_arrays: bool,
    inspect_arrays: bool,
    json_iter: &Vec<(String, JsonValue)>,
) -> (r: Stats)
    ensures
        r@ == agg_model(out_rep(json_iter@), explode_arrays, inspect_arrays),
        r.wf(),
{
    let ghost outs = out_rep(json_iter@);
    let mut fs = Stats::new();
    let n = json_iter.len();
    proof {
        assert(outs.take(0) =~= Seq::<(Seq<char>, JsonRep)>::empty());
    }
    for i in 0..n
        invariant
            n == json_iter.len(),
            outs == out_rep(json_iter@),
            fs@ == agg_model(outs.take(i as int), explode_arrays, inspect_arrays),
            fs.wf(),
    {
        let ghost prev = fs@;
        let ghost docrep = rep_of(json_iter@[i as int].1);
        fs.line_count = fs.line_count.saturating_add(1);
        let ghost acc0 = fs@;
        proof {
            assert(sum_counts(prev.keys_count, Map::empty()) =~= prev.keys_count);
            assert(sum_counts(prev.keys_types_count, Map::empty()) =~= prev.keys_types_count);
            assert(acc0 =~= combined(prev, one_record()));
        }
        let vps = json_iter[i].1.value_paths(explode_arrays, inspect_arrays);
        let ghost w = walk_rep(docrep, Seq::empty(), explode_arrays, inspect_arrays);
        assert(vps.deep_view() == w);
        let m = vps.len();
        proof {
            assert(w.take(0) =~= Seq::<(Seq<Seq<char>>, JsonRep)>::empty());
        }
        for j in 0..m
            invariant
                m == vps.len(),
                vps.deep_view() == w,
                fs@ == combined(acc0, walk_stat(w.take(j as int))),
                fs.wf(),
        {
            proof {
                reveal_strlit("::");
            }
            let ghost before = fs@;
            let path = vps[j].jsonpath();
            let type_ = vps[j].value.value_type();
            let mut path_type = path.clone();
            path_type.append("::");
            path_type.append(type_.as_str());
            proof {
                assert(w[j as int] == vps@[j as int].deep_view());
                assert(path@ == render_path(w[j as int].0));
                assert(path_type@ =~= render_path(w[j as int].0) + seq![':', ':']
                    + json_type_name(w[j as int].1));
            }
            add_count(&mut fs.keys_count, path, 1);
            add_count(&mut fs.keys_types_count, path_type, 1);
            proof {
                let lf = leaf_stat(w[j as int]);
                assert(fs@.keys_count =~= sum_counts(before.keys_count, lf.keys_count));
                assert(fs@.keys_types_count =~= sum_counts(
                    before.keys_types_count,
                    lf.keys_types_count,
                ));
                assert(fs@.bad_lines =~= before.bad_lines + lf.bad_lines);
                assert(fs@.empty_lines =~= before.empty_lines + lf.empty_lines);
                assert(fs@ =~= combined(before, lf));
                lemma_combine_associative(acc0, walk_stat(w.take(j as int)), lf);
                assert(w.take(j + 1).drop_last() =~= w.take(j as int));
                assert(w.take(j + 1).last() == w[j as int]);
                assert(fs@ == combined(acc0, walk_stat(w.take(j + 1))));
            }
        }
        proof {
            assert(w.take(m as int) =~= w);
            lemma_combine_associative(prev, one_record(), walk_stat(w));
            assert(fs@ == combined(prev, record_stat(docrep, explode_arrays, inspect_arrays)));
            assert(outs.take(i + 1).drop_last() =~= outs.take(i as int));
            assert(outs.take(i + 1).last() == outs[i as int]);
            assert(outs[i as int].1 == docrep);
            assert(fs@ == agg_model(outs.take(i + 1), explode_arrays, inspect_arrays));
        }
    }
    proof {
        assert(outs.take(n as int) =~= outs);
    }
    fs
}

/// The pre-processing of the record stream: the configured line limit
/// truncates it, then the configured query re-selects each record.
pub fn apply_settings(
    settings: &Settings,
    json_iter: Vec<(String, serde_json::Value)>,
    errors: &mut Errors<IndexedNDJSONError>,
) -> (r: Vec<(String, JsonValue)>)
    requires
        settings.wf(),
    ensures
        out_rep(r@) == expand_stage(
            qtext_of(*settings),
            limit_model(settings.args.lines, records_rep(json_iter@)),
        ).0,
        final(errors).container.deep_view() == old(errors).container.deep_view() + expand_stage(
            qtext_of(*settings),
            limit_model(settings.args.lines, records_rep(json_iter@)),
        ).1,
{
    let ghost inrep = records_rep(json_iter@);
    let ghost lines = settings.args.lines;
    let limited = limit(&settings.args, json_iter);
    proof {
        assert(records_rep(limited@) =~= limit_model(lines, inrep));
    }
    expand_jsonpath_query(settings, limited, errors)
}

/// The statistics a run produces: the stream is truncated to the limit,
/// re-selected through the query, aggregated record by record, and every
/// recorded error (the ones handed in and the ones the query stage adds)
/// is classified into `bad_lines` or `empty_lines`, in recording order.
pub open spec fn process_model(
    s: Settings,
    recs: Seq<(Seq<char>, JsonRep)>,
    prior: Seq<(Seq<char>, NDJSONError)>,
) -> StatsModel {
    let limited = limit_model(s.args.lines, recs);
    let st = expand_stage(qtext_of(s), limited);
    let m = agg_model(st.0, s.args.explode_arrays, s.args.inspect_arrays);
    StatsModel {
        keys_count: m.keys_count,
        line_count: m.line_count,
        bad_lines: bad_locations(prior + st.1),
        keys_types_count: m.keys_types_count,
        empty_lines: empty_locations(prior + st.1),
    }
}

/// Processes a stream of parsed records into statistics, sequentially and
/// in input order. The errors handed in (from the parse stage) and the
/// ones the query stage records here are all classified into the result.
pub fn process_json_iterable(
    settings: &Settings,
    json_iter: Vec<(String, serde_json::Value)>,
    errors: &mut Errors<IndexedNDJSONError>,
) -> (r: Stats)
    requires
        settings.wf(),
    ensures
        r@ == process_model(*settings, records_rep(json_iter@), old(errors).container.deep_view()),
        final(errors).container.deep_view() == old(errors).container.deep_view() + expand_stage(
            qtext_of(*settings),
            limit_model(settings.args.lines, records_rep(json_iter@)),
        ).1,
        r.wf(),
{
    let ghost inrep = records_rep(json_iter@);
    let ghost limited = limit_model(settings.args.lines, inrep);
    let ghost st = expand_stage(qtext_of(*settings), limited);
    let outs = apply_settings(settings, json_iter, errors);
    let mut fs = aggregate_records(
        settings.args.explode_arrays,
        settings.args.inspect_arrays,
        &outs,
    );
    proof {
        lemma_agg_no_lines(st.0, settings.args.explode_arrays, settings.args.inspect_arrays);
        assert(fs.bad_lines.deep_view() =~= Seq::<Seq<char>>::empty());
        assert(fs.empty_lines.deep_view() =~= Seq::<Seq<char>>::empty());
    }
    classify_errors(&errors.container, &mut fs.bad_lines, &mut fs.empty_lines);
    proof {
        assert(fs.bad_lines.deep_view() =~= bad_locations(errors.container.deep_view()));
        assert(fs.empty_lines.deep_view() =~= empty_locations(errors.container.deep_view()));
        assert(fs@ =~= process_model(*settings, inrep, old(errors).container.deep_view()));
    }
    fs
}

/// How many records one shard of the sharded strategy takes.
pub const SHARD_SIZE: usize = 128;

/// Processes a stream of parsed records into the same statistics as
/// [`process_json_iterable`], by the sharded strategy: the limited stream
/// is cut into shards, each shard is expanded and aggregated on its own
/// with its own error collection, and the partial results are folded with
/// the associative combine operation. Per-shard errors are appended in
/// shard order, so even the classified identifier lists agree with the
/// sequential run.
pub fn process_json_iterable_par(
    settings: &Settings,
    json_iter: Vec<(String, serde_json::Value)>,
    errors: &mut Errors<IndexedNDJSONError>,
) -> (r: Stats)
    requires
        settings.wf(),
    ensures
        r@ == process_model(*settings, records_rep(json_iter@), old(errors).container.deep_view()),
        final(errors).container.deep_view() == old(errors).container.deep_view() + expand_stage(
            qtext_of(*settings),
            limit_model(settings.args.lines, records_rep(json_iter@)),
        ).1,
        r.wf(),
{
    let ghost inrep = records_rep(json_iter@);
    let ghost limited_rep = limit_model(settings.args.lines, inrep);
    let ghost q = qtext_of(*settings);
    let explode = settings.args.explode_arrays;
    let inspect = settings.args.inspect_arrays;
    let mut rest = limit(&settings.args, json_iter);
    proof {
        assert(records_rep(rest@) =~= limited_rep);
    }
    let mut acc = Stats::new();
    let ghost mut done: Seq<(Seq<char>, JsonRep)> = Seq::empty();
    proof {
        assert(done + records_rep(rest@) =~= limited_rep);
        assert(expand_stage(q, done).0 =~= Seq::<(Seq<char>, JsonRep)>::empty());
        assert(expand_stage(q, done).1 =~= Seq::<(Seq<char>, NDJSONError)>::empty());
        assert(errors.container.deep_view() =~= old(errors).container.deep_view() + expand_stage(
            q,
            done,
        ).1);
    }
    while rest.len() > 0
        invariant
            settings.wf(),
            q == qtext_of(*settings),
            explode == settings.args.explode_arrays,
            inspect == settings.args.inspect_arrays,
            done + records_rep(rest@) == limited_rep,
            acc@ == agg_model(expand_stage(q, done).0, explode, inspect),
            acc.wf(),
            errors.container.deep_view() == old(errors).container.deep_view() + expand_stage(
                q,
                done,
            ).1,
        decreases rest@.len(),
    {
        let ghost rest0 = rest@;
        let mut shard = rest;
        let mut tail: Vec<(String, serde_json::Value)> = Vec::new();
        if shard.len() > SHARD_SIZE {
            tail = shard.split_off(SHARD_SIZE);
        }
        rest = tail;
        let ghost sh = records_rep(shard@);
        proof {
            assert(shard@ + rest@ =~= rest0);
            assert(records_rep(rest0) =~= sh + records_rep(rest@));
            assert(shard@.len() > 0);
        }
        let mut local_errors: Errors<IndexedNDJSONError> = Errors::default();
        let outs = expand_jsonpath_query(settings, shard, &mut local_errors);
        let local = aggregate_records(explode, inspect, &outs);
        proof {
            assert(local_errors.container.deep_view() =~= expand_stage(q, sh).1);
        }
        let ghost acc_before = acc@;
        acc = acc.combine(&local);
        let ghost errs_before = errors.container.deep_view();
        errors.container.append(&mut local_errors.container);
        proof {
            lemma_expand_concat(q, done, sh);
            lemma_agg_concat(expand_stage(q, done).0, expand_stage(q, sh).0, explode, inspect);
            assert(errors.container.deep_view() =~= errs_before + expand_stage(q, sh).1);
            done = done + sh;
            assert(acc@ == agg_model(expand_stage(q, done).0, explode, inspect));
            assert(errors.container.deep_view() =~= old(errors).container.deep_view()
                + expand_stage(q, done).1);
            assert(done + records_rep(rest@) =~= limited_rep);
        }
    }
    proof {
        assert(records_rep(rest@) =~= Seq::<(Seq<char>, JsonRep)>::empty());
        assert(done =~= limited_rep);
        lemma_agg_no_lines(
            expand_stage(q, limited_rep).0,
            explode,
            inspect,
        );
        assert(acc.bad_lines.deep_view() =~= Seq::<Seq<char>>::empty());
        assert(acc.empty_lines.deep_view() =~= Seq::<Seq<char>>::empty());
    }
    let mut fs = acc;
    classify_errors(&errors.container, &mut fs.bad_lines, &mut fs.empty_lines);
    proof {
        assert(fs.bad_lines.deep_view() =~= bad_locations(errors.container.deep_view()));
        assert(fs.empty_lines.deep_view() =~= empty_locations(errors.container.deep_view()));
        assert(fs@ =~= process_model(*settings, inrep, old(errors).container.deep_view()));
    }
    fs
}

/// The model of a list of read lines: the text of each line that could be
/// read, and a marker for each that could not.
pub open spec fn lines_rep(ls: Seq<Result<String, LineReadError>>) -> Seq<Option<Seq<char>>> {
    ls.map_values(
        |l: Result<String, LineReadError>|
            match l {
                Ok(s) => Some(s@),
                Err(_) => None,
            },
    )
}

/// The parse stage over a stream of read lines: each line gets the 1-based
/// position as its identifier; an unreadable line records a read error, an
/// unparsable one a parse error, and a valid one becomes a record.
pub open spec fn parse_stage(ls: Seq<Option<Seq<char>>>) -> (Seq<(Seq<char>, JsonRep)>, Seq<
    (Seq<char>, NDJSONError),
>)
    decreases ls.len(),
{
    if ls.len() == 0 {
        (Seq::empty(), Seq::empty())
    } else {
        let prev = parse_stage(ls.drop_last());
        let id = dec_str(ls.len() as nat);
        match ls.last() {
            None => (prev.0, prev.1.push((id, NDJSONError::IOError))),
            Some(text) => {
                match json_line_parse(text) {
                    None => (prev.0, prev.1.push((id, NDJSONError::JSONParsingError))),
                    Some(rep) => (prev.0.push((id, rep)), prev.1),
                }
            },
        }
    }
}

/// Parses a stream of read lines into records, identifying each line by
/// its 1-based position. Lines that could not be read or parsed are
/// recorded as errors, in line order, and skipped.
pub fn parse_ndjson_lines(
    lines: Vec<Result<String, LineReadError>>,
    errors: &mut Errors<IndexedNDJSONError>,
) -> (r: Vec<(String, serde_json::Value)>)
    ensures
        records_rep(r@) == parse_stage(lines_rep(lines@)).0,
        final(errors).container.deep_view() == old(errors).container.deep_view() + parse_stage(
            lines_rep(lines@),
        ).1,
{
    let ghost ls = lines_rep(lines@);
    let mut out: Vec<(String, serde_json::Value)> = Vec::new();
    let n = lines.len();
    proof {
        assert(records_rep(out@) =~= parse_stage(ls.take(0)).0);
        assert(errors.container.deep_view() =~= old(errors).container.deep_view() + parse_stage(
            ls.take(0),
        ).1);
    }
    for i in 0..n
        invariant
            n == lines.len(),
            ls == lines_rep(lines@),
            records_rep(out@) == parse_stage(ls.take(i as int)).0,
            errors.container.deep_view() == old(errors).container.deep_view() + parse_stage(
                ls.take(i as int),
            ).1,
    {
        proof {
            assert(ls.take(i + 1).drop_last() =~= ls.take(i as int));
            assert(ls.take(i + 1).last() == ls[i as int]);
        }
        let id = to_decimal(i + 1);
        let ghost st_i = parse_stage(ls.take(i as int));
        match &lines[i] {
            Err(_) => {
                let ghost ed = errors.container.deep_view();
                errors.push(IndexedNDJSONError::new(id, NDJSONError::IOError));
                proof {
                    assert(errors.container.deep_view() =~= ed.push(
                        (dec_str((i + 1) as nat), NDJSONError::IOError),
                    ));
                    assert(errors.container.deep_view() =~= old(errors).container.deep_view()
                        + parse_stage(ls.take(i + 1)).1);
                    assert(records_rep(out@) =~= parse_stage(ls.take(i + 1)).0);
                }
            },
            Ok(text) => {
                match parse_json_line(text.as_str()) {
                    None => {
                        let ghost ed = errors.container.deep_view();
                        errors.push(IndexedNDJSONError::new(id, NDJSONError::JSONParsingError));
                        proof {
                            assert(errors.container.deep_view() =~= ed.push(
                                (dec_str((i + 1) as nat), NDJSONError::JSONParsingError),
                            ));
                            assert(errors.container.deep_view() =~= old(
                                errors,
                            ).container.deep_view() + parse_stage(ls.take(i + 1)).1);
                            assert(records_rep(out@) =~= parse_stage(ls.take(i + 1)).0);
                        }
                    },
                    Some(doc) => {
                        let ghost before = out@;
                        out.push((id, doc));
                        proof {
                            assert(records_rep(out@) =~= records_rep(before).push(
                                (dec_str((i + 1) as nat), serde_doc_rep(doc)),
                            ));
                            assert(records_rep(out@) =~= parse_stage(ls.take(i + 1)).0);
                            assert(errors.container.deep_view() =~= old(
                                errors,
                            ).container.deep_view() + parse_stage(ls.take(i + 1)).1);
                        }
                    },
                }
            },
        }
    }
    proof {
        assert(ls.take(n as int) =~= ls);
    }
    out
}

/// `m` with `failures` more attempted records counted, saturating.
pub open spec fn with_attempted(m: StatsModel, failures: nat) -> StatsModel {
    StatsModel {
        keys_count: m.keys_count,
        line_count: if m.line_count + failures > usize::MAX {
            usize::MAX
        } else {
            (m.line_count + failures) as usize
        },
        bad_lines: m.bad_lines,
        keys_types_count: m.keys_types_count,
        empty_lines: m.empty_lines,
    }
}

/// The statistics of a whole run over a stream of read lines: the lines
/// are parsed, the surviving records processed, and every attempted
/// record counts toward `line_count` - the ones that failed to read or
/// parse as well as the ones that were walked.
pub open spec fn process_lines_model(s: Settings, ls: Seq<Option<Seq<char>>>) -> StatsModel {
    let pst = parse_stage(ls);
    with_attempted(process_model(s, pst.0, pst.1), pst.1.len())
}

/// Runs the whole pipeline over a stream of read lines: parse each line,
/// truncate to the limit, re-select through the query, aggregate, and
/// classify every recorded error. Each line that was read but failed to
/// parse still counts as an attempted record in `line_count`.
pub fn process_ndjson_lines(
    settings: &Settings,
    lines: Vec<Result<String, LineReadError>>,
) -> (r: StatsResult)
    requires
        settings.wf(),
    ensures
        r.stats@ == process_lines_model(*settings, lines_rep(lines@)),
        r.stats.wf(),
        r.errors.container.deep_view() == parse_stage(lines_rep(lines@)).1 + expand_stage(
            qtext_of(*settings),
            limit_model(settings.args.lines, parse_stage(lines_rep(lines@)).0),
        ).1,
{
    let ghost ls = lines_rep(lines@);
    let mut errors: Errors<IndexedNDJSONError> = Errors::default();
    let recs = parse_ndjson_lines(lines, &mut errors);
    let parse_failures = errors.container.len();
    proof {
        assert(errors.container.deep_view() =~= parse_stage(ls).1);
        assert(errors.container.deep_view().len() == errors.container@.len());
    }
    let mut stats = process_json_iterable(settings, recs, &mut errors);
    stats.line_count = stats.line_count.saturating_add(parse_failures);
    proof {
        assert(stats@ =~= process_lines_model(*settings, ls));
    }
    StatsResult { stats, errors }
}


/// A sequential run and a run split anywhere into two parts agree: the
/// query stage and the aggregation of the whole stream equal the combine
/// of the two parts' results. Folding this over any sharding shows that
/// the sequential and the sharded strategy yield the same path counts,
/// type counts and record count.
pub proof fn lemma_split_run_agrees(
    q: Option<Seq<char>>,
    a: Seq<(Seq<char>, JsonRep)>,
    b: Seq<(Seq<char>, JsonRep)>,
    explode: bool,
    inspect: bool,
)
    ensures
        agg_model(expand_stage(q, a + b).0, explode, inspect) == combined(
            agg_model(expand_stage(q, a).0, explode, inspect),
            agg_model(expand_stage(q, b).0, explode, inspect),
        ),
{
    lemma_expand_concat(q, a, b);
    lemma_agg_concat(expand_stage(q, a).0, expand_stage(q, b).0, explode, inspect);
}

/// In a stream where every line is structurally valid, nothing fails: the
/// parse stage yields one record per line and records no errors.
pub proof fn lemma_parse_all_valid(ls: Seq<Option<Seq<char>>>)
    requires
        forall|i: int|
            0 <= i < ls.len() ==> ((#[trigger] ls[i]) matches Some(t) && json_line_parse(t)
                is Some),
    ensures
        parse_stage(ls).0.len() == ls.len(),
        parse_stage(ls).1 == Seq::<(Seq<char>, NDJSONError)>::empty(),
    decreases ls.len(),
{
    if ls.len() > 0 {
        assert forall|i: int| 0 <= i < ls.drop_last().len() implies ((
        #[trigger] ls.drop_last()[i]) matches Some(t) && json_line_parse(t) is Some) by {
            assert(ls.drop_last()[i] == ls[i]);
        }
        lemma_parse_all_valid(ls.drop_last());
        assert(ls.last() matches Some(t) && json_line_parse(t) is Some);
        assert(parse_stage(ls).1 =~= Seq::<(Seq<char>, NDJSONError)>::empty());
    }
}

/// For a stream of structurally valid lines with no invalid ones, run
/// with no query and no line limit, the counted records equal the number
/// of lines: `line_count == N`.
pub proof fn lemma_line_count_all_valid(s: Settings, ls: Seq<Option<Seq<char>>>)
    requires
        s.args.jsonpath is None,
        s.args.lines is None,
        ls.len() <= usize::MAX,
        forall|i: int|
            0 <= i < ls.len() ==> ((#[trigger] ls[i]) matches Some(t) && json_line_parse(t)
                is Some),
    ensures
        process_lines_model(s, ls).line_count == ls.len(),
{
    lemma_parse_all_valid(ls);
    let pst = parse_stage(ls);
    assert(limit_model(s.args.lines, pst.0) == pst.0);
    assert(expand_stage(qtext_of(s), pst.0).0 == pst.0);
    lemma_agg_line_count(pst.0, s.args.explode_arrays, s.args.inspect_arrays);
}

} // verus!
