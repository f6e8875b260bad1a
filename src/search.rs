//! Fuzzy search over the commands of all projects.
use vstd::prelude::*;
use fuzzy_matcher::FuzzyMatcher;
use fuzzy_matcher::skim::SkimMatcherV2;
use crate::model::{PacsCommand, Project, copy_command};
use crate::store::Pacs;
use crate::text::ascii_lower;

verus! {

/// The score that the skim fuzzy matcher, with its default settings, gives to
/// `choice` for the query `pattern`; `None` when it does not match.
pub uninterp spec fn skim_score(choice: Seq<char>, pattern: Seq<char>) -> Option<i64>;

/// The characters of `p` occur in `c` in order, compared up to ASCII case.
pub open spec fn subseq_nocase(p: Seq<char>, c: Seq<char>) -> bool
    decreases c.len(),
{
    if p.len() == 0 {
        true
    } else if c.len() == 0 {
        false
    } else if ascii_lower(p[0]) == ascii_lower(c[0]) {
        subseq_nocase(p.drop_first(), c.drop_first())
    } else {
        subseq_nocase(p, c.drop_first())
    }
}

/// Relies on `fuzzy_matcher::skim::SkimMatcherV2::default().fuzzy_match`: the
/// score depends on the two strings alone, an empty pattern scores 0, and a
/// pattern whose characters do not occur in order in the choice (compared
/// exactly or up to ASCII case) does not match.
#[verifier::external_body]
fn fuzzy_score(choice: &str, pattern: &str) -> (r: Option<i64>)
    ensures
        r == skim_score(choice@, pattern@),
        pattern@.len() == 0 ==> r == Some(0i64),
        r is Some ==> subseq_nocase(pattern@, choice@),
{
    SkimMatcherV2::default().fuzzy_match(choice, pattern)
}

/// A missing match counts as 0.
pub open spec fn score_or_zero(s: Option<i64>) -> i64 {
    match s {
        Some(x) => x,
        None => 0,
    }
}

/// The relevance of a command: the better of its name's and its body's scores.
pub open spec fn relevance(name_score: Option<i64>, body_score: Option<i64>) -> i64 {
    let (a, b) = (score_or_zero(name_score), score_or_zero(body_score));
    if a >= b { a } else { b }
}

/// The relevance of a command for a query.
pub open spec fn command_relevance(c: PacsCommand, query: Seq<char>) -> i64 {
    relevance(skim_score(c.name@, query), skim_score(c.command@, query))
}

/// The relevance of each command for a query.
pub open spec fn relevances(cmds: Seq<PacsCommand>, query: Seq<char>) -> Seq<i64> {
    cmds.map_values(|c: PacsCommand| command_relevance(c, query))
}

/// Position `a` ranks before position `b`: a higher score, or an equal score and
/// an earlier position.
pub open spec fn ranks_before(scores: Seq<i64>, a: int, b: int) -> bool {
    scores[a] > scores[b] || (scores[a] == scores[b] && a < b)
}

/// `idx` lists the positions of the positive scores, from the highest score to
/// the lowest, equal scores in their input order.
pub open spec fn is_ranking(scores: Seq<i64>, idx: Seq<usize>) -> bool {
    &&& forall|k: int| 0 <= k < idx.len() ==> (#[trigger] idx[k]) < scores.len() && scores[idx[k] as int] > 0
    &&& forall|p: int, q: int| 0 <= p < q < idx.len() ==> #[trigger] ranks_before(scores, idx[p] as int, idx[q] as int)
    &&& forall|i: int| 0 <= i < scores.len() && #[trigger] scores[i] > 0 ==> exists|k: int| 0 <= k < idx.len() && idx[k] == i
}

/// The relevance of a command given the scores of its name and body.
pub fn relevance_of(name_score: Option<i64>, body_score: Option<i64>) -> (r: i64)
    ensures
        r == relevance(name_score, body_score),
{
    let a = match name_score {
        Some(x) => x,
        None => 0,
    };
    let b = match body_score {
        Some(x) => x,
        None => 0,
    };
    if a >= b { a } else { b }
}

/// Positions of the positive scores, best first, ties in input order.
pub fn rank_positions(scores: &Vec<i64>) -> (r: Vec<usize>)
    ensures
        is_ranking(scores@, r@),
{
    let mut out: Vec<usize> = Vec::new();
    let mut i: usize = 0;
    while i < scores.len()
        invariant
            i <= scores@.len(),
            forall|k: int| 0 <= k < out@.len() ==> (#[trigger] out@[k]) < i && scores@[out@[k] as int] > 0,
            forall|p: int, q: int| 0 <= p < q < out@.len() ==> #[trigger] ranks_before(scores@, out@[p] as int, out@[q] as int),
            forall|j: int| 0 <= j < i && #[trigger] scores@[j] > 0 ==> exists|k: int| 0 <= k < out@.len() && out@[k] == j,
        decreases scores@.len() - i,
    {
        if scores[i] > 0 {
            let s = scores[i];
            let mut k: usize = 0;
            while k < out.len() && scores[out[k]] >= s
                invariant
                    i < scores@.len(),
                    k <= out@.len(),
                    s == scores@[i as int],
                    forall|m: int| 0 <= m < out@.len() ==> (#[trigger] out@[m]) < i,
                    forall|m: int| 0 <= m < k ==> scores@[(#[trigger] out@[m]) as int] >= s,
                decreases out@.len() - k,
            {
                k = k + 1;
            }
            let ghost before = out@;
            proof {
                if k < before.len() {
                    assert forall|m: int| k <= m < before.len() implies scores@[(#[trigger] before[m]) as int] < s by {
                        if m > k {
                            assert(ranks_before(scores@, before[k as int] as int, before[m] as int));
                        }
                    }
                }
            }
            out.insert(k, i);
            proof {
                assert forall|p: int, q: int| 0 <= p < q < out@.len() implies #[trigger] ranks_before(scores@, out@[p] as int, out@[q] as int) by {
                    if q < k {
                        assert(out@[p] == before[p] && out@[q] == before[q]);
                        assert(ranks_before(scores@, before[p] as int, before[q] as int));
                    } else if q == k {
                        assert(out@[p] == before[p]);
                    } else if p == k {
                        assert(out@[q] == before[q - 1]);
                    } else if p > k {
                        assert(out@[p] == before[p - 1] && out@[q] == before[q - 1]);
                        assert(ranks_before(scores@, before[p - 1] as int, before[q - 1] as int));
                    } else {
                        assert(out@[p] == before[p] && out@[q] == before[q - 1]);
                    }
                }
                assert forall|j: int| 0 <= j < i + 1 && #[trigger] scores@[j] > 0 implies exists|m: int| 0 <= m < out@.len() && out@[m] == j by {
                    if j == i {
                        assert(out@[k as int] == j);
                    } else {
                        let m = choose|m: int| 0 <= m < before.len() && before[m] == j;
                        if m < k {
                            assert(out@[m] == j);
                        } else {
                            assert(out@[m + 1] == j);
                        }
                    }
                }
            }
        }
        i = i + 1;
    }
    out
}

/// The commands of all projects, project after project, each in stored order.
pub open spec fn all_commands(ps: Seq<Project>) -> Seq<PacsCommand>
    decreases ps.len(),
{
    if ps.len() == 0 {
        Seq::empty()
    } else {
        all_commands(ps.drop_last()) + ps.last().commands@
    }
}

impl Pacs {
    /// Commands of all projects whose name or body matches `query`, the most
    /// relevant first; commands of equal relevance keep their order.
    pub fn search(&self, query: &str) -> (r: Vec<PacsCommand>)
        ensures
            ({
                let all = all_commands(self.projects@);
                exists|idx: Seq<usize>|
                    #[trigger] is_ranking(relevances(all, query@), idx)
                        && r@.len() == idx.len()
                        && forall|k: int| 0 <= k < idx.len() ==> r@[k] == all[#[trigger] idx[k] as int]
            }),
            forall|k: int|
                0 <= k < r@.len() ==> subseq_nocase(query@, (#[trigger] r@[k]).name@) || subseq_nocase(
                    query@,
                    r@[k].command@,
                ),
    {
        let ps = &self.projects;
        let mut all: Vec<PacsCommand> = Vec::new();
        let mut p: usize = 0;
        while p < ps.len()
            invariant
                p <= ps@.len(),
                all@ == all_commands(ps@.take(p as int)),
            decreases ps@.len() - p,
        {
            let cmds = &ps[p].commands;
            let ghost start = all@;
            let mut c: usize = 0;
            while c < cmds.len()
                invariant
                    p < ps@.len(),
                    cmds == ps@[p as int].commands,
                    c <= cmds@.len(),
                    all@ == start + cmds@.take(c as int),
                decreases cmds@.len() - c,
            {
                all.push(copy_command(&cmds[c]));
                assert(cmds@.take(c + 1) == cmds@.take(c as int).push(cmds@[c as int]));
                c = c + 1;
            }
            assert(cmds@.take(c as int) == cmds@);
            assert(ps@.take(p + 1).drop_last() == ps@.take(p as int));
            p = p + 1;
        }
        assert(ps@.take(p as int) == ps@);
        let mut scores: Vec<i64> = Vec::new();
        let mut j: usize = 0;
        while j < all.len()
            invariant
                j <= all@.len(),
                scores@ == relevances(all@.take(j as int), query@),
                forall|m: int|
                    0 <= m < j && #[trigger] scores@[m] > 0 ==> subseq_nocase(query@, all@[m].name@)
                        || subseq_nocase(query@, all@[m].command@),
            decreases all@.len() - j,
        {
            let c = &all[j];
            let ns = fuzzy_score(c.name.as_str(), query);
            let bs = fuzzy_score(c.command.as_str(), query);
            let s = relevance_of(ns, bs);
            scores.push(s);
            assert(relevances(all@.take(j + 1), query@) =~= relevances(all@.take(j as int), query@).push(s));
            j = j + 1;
        }
        assert(all@.take(j as int) == all@);
        let idx = rank_positions(&scores);
        let mut out: Vec<PacsCommand> = Vec::new();
        let mut k: usize = 0;
        while k < idx.len()
            invariant
                is_ranking(scores@, idx@),
                scores@.len() == all@.len(),
                k <= idx@.len(),
                out@.len() == k,
                forall|m: int| 0 <= m < k ==> out@[m] == all@[#[trigger] idx@[m] as int],
                forall|m: int|
                    0 <= m < all@.len() && #[trigger] scores@[m] > 0 ==> subseq_nocase(query@, all@[m].name@)
                        || subseq_nocase(query@, all@[m].command@),
            decreases idx@.len() - k,
        {
            out.push(copy_command(&all[idx[k]]));
            k = k + 1;
        }
        assert forall|m: int| 0 <= m < out@.len() implies subseq_nocase(query@, (#[trigger] out@[m]).name@)
            || subseq_nocase(query@, out@[m].command@) by {
            let i = idx@[m] as int;
            assert(scores@[i] > 0);
            assert(out@[m] == all@[i]);
        }
        out
    }
}

} // verus!
