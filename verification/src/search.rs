//! Fuzzy search over every archived link.
use fuzzy_matcher::FuzzyMatcher;
use vstd::prelude::*;
use crate::domain::{domain_name, domain_of_file};
use crate::links::count_links;
use crate::manager::{App, SearchHit};
use crate::text::{chars_of, lines, lines_of, string_of, trim, trim_chars, views};

verus! {

/// The score `fuzzy_matcher`'s default skim matcher gives `choice` for
/// `pattern`, or `None` when `choice` does not match.
pub uninterp spec fn fuzzy_score(choice: Seq<char>, pattern: Seq<char>) -> Option<i64>;

/// `SkimMatcherV2::default().fuzzy_match(choice, pattern)`: the result is the
/// default skim matcher's score of `choice` for `pattern`; an empty pattern
/// matches with score 0.
#[verifier::external_body]
fn skim_fuzzy_match(choice: &str, pattern: &str) -> (res: Option<i64>)
    ensures
        res == fuzzy_score(choice@, pattern@),
        pattern@.len() == 0 ==> res == Some(0i64),
{
    fuzzy_matcher::skim::SkimMatcherV2::default().fuzzy_match(choice, pattern)
}

/// A scored match: score, domain, link.
pub type Entry = (i64, Seq<char>, Seq<char>);

/// The matches among the lines `ls` of the archive of `domain`: each line
/// trimmed, empty lines skipped, lines the matcher rejects skipped.
pub open spec fn line_entries(domain: Seq<char>, ls: Seq<Seq<char>>, query: Seq<char>) -> Seq<
    Entry,
>
    decreases ls.len(),
{
    if ls.len() == 0 {
        seq![]
    } else {
        let rest = line_entries(domain, ls.drop_last(), query);
        let t = trim(ls.last());
        if t.len() == 0 {
            rest
        } else {
            match fuzzy_score(t, query) {
                Some(sc) => rest.push((sc, domain, t)),
                None => rest,
            }
        }
    }
}

/// The matches among some lines followed by more lines are the matches
/// among the first ones followed by the matches among the others: a line
/// the matcher rejects does not stop the lines after it from being scored.
pub proof fn lemma_line_entries_append(
    domain: Seq<char>,
    a: Seq<Seq<char>>,
    b: Seq<Seq<char>>,
    query: Seq<char>,
)
    ensures
        line_entries(domain, a + b, query) == line_entries(domain, a, query) + line_entries(
            domain,
            b,
            query,
        ),
    decreases b.len(),
{
    if b.len() == 0 {
        assert(a + b =~= a);
        assert(line_entries(domain, a, query) + line_entries(domain, b, query) =~= line_entries(
            domain,
            a,
            query,
        ));
    } else {
        lemma_line_entries_append(domain, a, b.drop_last(), query);
        assert((a + b).drop_last() =~= a + b.drop_last());
        assert((a + b).last() == b.last());
        let t = trim(b.last());
        let ra = line_entries(domain, a, query);
        let rb = line_entries(domain, b.drop_last(), query);
        if t.len() > 0 {
            match fuzzy_score(t, query) {
                Some(sc) => {
                    assert(ra + rb.push((sc, domain, t)) =~= (ra + rb).push((sc, domain, t)));
                },
                None => {},
            }
        }
    }
}

/// The matches of a single line: its trimmed text with its score when it
/// is not empty and the matcher accepts it, nothing otherwise.
pub proof fn lemma_line_entries_single(domain: Seq<char>, line: Seq<char>, query: Seq<char>)
    ensures
        line_entries(domain, seq![line], query) == if trim(line).len() > 0 && fuzzy_score(
            trim(line),
            query,
        ) is Some {
            seq![(fuzzy_score(trim(line), query)->0, domain, trim(line))]
        } else {
            Seq::<Entry>::empty()
        },
{
    assert(seq![line].drop_last() =~= Seq::<Seq<char>>::empty());
    assert(line_entries(domain, Seq::<Seq<char>>::empty(), query) == Seq::<Entry>::empty());
    assert(seq![line].last() == line);
    assert(Seq::<Entry>::empty().push((fuzzy_score(trim(line), query)->0, domain, trim(line)))
        =~= seq![(fuzzy_score(trim(line), query)->0, domain, trim(line))]);
}

/// Every non-empty line that the matcher accepts yields its match, whatever
/// lines come before or after it.
pub proof fn lemma_every_matching_line_found(
    domain: Seq<char>,
    ls: Seq<Seq<char>>,
    k: int,
    query: Seq<char>,
)
    requires
        0 <= k < ls.len(),
        trim(ls[k]).len() > 0,
        fuzzy_score(trim(ls[k]), query) is Some,
    ensures
        line_entries(domain, ls, query).contains(
            (fuzzy_score(trim(ls[k]), query)->0, domain, trim(ls[k])),
        ),
{
    let a = ls.take(k);
    let m = seq![ls[k]];
    let b = ls.skip(k + 1);
    assert(ls =~= a + m + b);
    lemma_line_entries_append(domain, a + m, b, query);
    lemma_line_entries_append(domain, a, m, query);
    lemma_line_entries_single(domain, ls[k], query);
    let e = (fuzzy_score(trim(ls[k]), query)->0, domain, trim(ls[k]));
    let ra = line_entries(domain, a, query);
    let all = line_entries(domain, ls, query);
    assert(all == ra + seq![e] + line_entries(domain, b, query));
    assert(all[ra.len() as int] == e);
}

/// The matches in every archive file whose content could be read, file by
/// file in order; `domains[i]` is the domain shown for file `i`.
pub open spec fn all_entries(
    domains: Seq<Seq<char>>,
    contents: Seq<Option<Seq<char>>>,
    query: Seq<char>,
) -> Seq<Entry>
    decreases contents.len(),
{
    if contents.len() == 0 {
        seq![]
    } else {
        let i = contents.len() - 1;
        all_entries(domains, contents.drop_last(), query) + match contents.last() {
            Some(c) => line_entries(domains[i], lines(c), query),
            None => seq![],
        }
    }
}

/// `sorted` with `x` placed after every entry scoring at least as high.
pub open spec fn insert_desc(sorted: Seq<Entry>, x: Entry) -> Seq<Entry>
    decreases sorted.len(),
{
    if sorted.len() == 0 {
        seq![x]
    } else if sorted.last().0 >= x.0 {
        sorted.push(x)
    } else {
        insert_desc(sorted.drop_last(), x).push(sorted.last())
    }
}

/// `s` ordered by descending score; entries of equal score keep their order.
pub open spec fn sort_desc(s: Seq<Entry>) -> Seq<Entry>
    decreases s.len(),
{
    if s.len() == 0 {
        seq![]
    } else {
        insert_desc(sort_desc(s.drop_last()), s.last())
    }
}

/// No entry scores higher than one before it.
pub open spec fn is_sorted_desc(s: Seq<Entry>) -> bool {
    forall|i: int, j: int| 0 <= i < j < s.len() ==> s[i].0 >= s[j].0
}

/// Domain and link of each entry.
pub open spec fn hit_pairs(s: Seq<Entry>) -> Seq<(Seq<char>, Seq<char>)> {
    s.map_values(|e: Entry| (e.1, e.2))
}

/// Domain and link of each search result.
pub open spec fn hits_view(v: Seq<SearchHit>) -> Seq<(Seq<char>, Seq<char>)> {
    v.map_values(|h: SearchHit| (h.domain@, h.url@))
}

/// Content of each file that could be read.
pub open spec fn contents_view(v: Seq<Option<String>>) -> Seq<Option<Seq<char>>> {
    v.map_values(
        |c: Option<String>|
            match c {
                Some(s) => Some(s@),
                None => None,
            },
    )
}

/// The search results for `query` over the archive files `files` with
/// contents `contents`: every match, best score first.
pub open spec fn search_hits(
    files: Seq<Seq<char>>,
    contents: Seq<Option<Seq<char>>>,
    query: Seq<char>,
) -> Seq<(Seq<char>, Seq<char>)> {
    hit_pairs(
        sort_desc(
            all_entries(files.map_values(|n: Seq<char>| domain_of_file(n)), contents, query),
        ),
    )
}

proof fn lemma_insert_desc_at(s: Seq<Entry>, x: Entry, k: int)
    requires
        0 <= k <= s.len(),
        forall|j: int| k <= j < s.len() ==> (#[trigger] s[j]).0 < x.0,
        k == 0 || s[k - 1].0 >= x.0,
    ensures
        insert_desc(s, x) == s.insert(k, x),
    decreases s.len() - k,
{
    if s.len() == k {
        if k == 0 {
            assert(s.insert(0, x) =~= seq![x]);
        } else {
            assert(s.last() == s[k - 1]);
            assert(s.insert(k, x) =~= s.push(x));
        }
    } else {
        let init = s.drop_last();
        assert(s[s.len() - 1].0 < x.0);
        assert forall|j: int| k <= j < init.len() implies (#[trigger] init[j]).0 < x.0 by {
            assert(init[j] == s[j]);
        }
        if k > 0 {
            assert(init[k - 1] == s[k - 1]);
        }
        lemma_insert_desc_at(init, x, k);
        assert(init.insert(k, x).push(s.last()) =~= s.insert(k, x));
    }
}

/// Placing an entry into a list sorted by descending score keeps it sorted
/// and adds exactly that entry.
pub proof fn lemma_insert_desc_sorted(s: Seq<Entry>, x: Entry)
    requires
        is_sorted_desc(s),
    ensures
        is_sorted_desc(insert_desc(s, x)),
        insert_desc(s, x).to_multiset() == s.to_multiset().insert(x),
    decreases s.len(),
{
    broadcast use vstd::seq_lib::group_to_multiset_ensures;

    if s.len() == 0 {
        assert(seq![x] =~= Seq::<Entry>::empty().push(x));
    } else if s.last().0 >= x.0 {
        let r = s.push(x);
        assert forall|i: int, j: int| 0 <= i < j < r.len() implies r[i].0 >= r[j].0 by {
            if j == s.len() {
                assert(s[i].0 >= s[s.len() - 1].0);
            }
        }
    } else {
        let init = s.drop_last();
        assert forall|i: int, j: int| 0 <= i < j < init.len() implies init[i].0 >= init[j].0 by {
            assert(init[i] == s[i] && init[j] == s[j]);
        }
        lemma_insert_desc_sorted(init, x);
        let mid = insert_desc(init, x);
        let r = mid.push(s.last());
        assert(init.push(s.last()) =~= s);
        assert forall|i: int, j: int| 0 <= i < j < r.len() implies r[i].0 >= r[j].0 by {
            if j == mid.len() {
                // every entry of `mid` is `x` or an entry of `init`
                assert(mid.to_multiset().contains(mid[i]));
                assert(init.to_multiset().insert(x).contains(mid[i]));
                if mid[i] != x {
                    assert(init.to_multiset().contains(mid[i]));
                    assert(init.contains(mid[i]));
                    let k = choose|k: int| 0 <= k < init.len() && init[k] == mid[i];
                    assert(s[k].0 >= s[s.len() - 1].0);
                }
            }
        }
    }
}

/// Ordering by descending score yields a sorted list holding the same
/// entries.
pub proof fn lemma_sort_desc(s: Seq<Entry>)
    ensures
        is_sorted_desc(sort_desc(s)),
        sort_desc(s).to_multiset() == s.to_multiset(),
    decreases s.len(),
{
    broadcast use vstd::seq_lib::group_to_multiset_ensures;

    if s.len() > 0 {
        lemma_sort_desc(s.drop_last());
        lemma_insert_desc_sorted(sort_desc(s.drop_last()), s.last());
        assert(s.drop_last().push(s.last()) =~= s);
    }
}

/// The search results are the domain and link of every match of the query,
/// ranked: they come from a list that holds each match as often as the
/// archive does and in which no match scores higher than one before it.
pub proof fn lemma_search_results_ranked(
    files: Seq<Seq<char>>,
    contents: Seq<Option<Seq<char>>>,
    query: Seq<char>,
)
    ensures
        ({
            let all = all_entries(files.map_values(|n: Seq<char>| domain_of_file(n)), contents, query);
            &&& is_sorted_desc(sort_desc(all))
            &&& sort_desc(all).to_multiset() == all.to_multiset()
            &&& search_hits(files, contents, query) == hit_pairs(sort_desc(all))
        }),
{
    let all = all_entries(files.map_values(|n: Seq<char>| domain_of_file(n)), contents, query);
    lemma_sort_desc(all);
}

proof fn lemma_all_entries_contains(
    domains: Seq<Seq<char>>,
    contents: Seq<Option<Seq<char>>>,
    query: Seq<char>,
    i: int,
    e: Entry,
)
    requires
        0 <= i < contents.len(),
        contents[i] is Some,
        line_entries(domains[i], lines(contents[i]->0), query).contains(e),
    ensures
        all_entries(domains, contents, query).contains(e),
    decreases contents.len(),
{
    let n = contents.len() - 1;
    let pre = all_entries(domains, contents.drop_last(), query);
    if i == n {
        let x = line_entries(domains[i], lines(contents[i]->0), query);
        assert(contents.last() == contents[i]);
        let j = choose|j: int| 0 <= j < x.len() && x[j] == e;
        assert((pre + x)[pre.len() + j] == e);
    } else {
        assert(contents.drop_last()[i] == contents[i]);
        lemma_all_entries_contains(domains, contents.drop_last(), query, i, e);
        let j = choose|j: int| 0 <= j < pre.len() && pre[j] == e;
        let all = all_entries(domains, contents, query);
        assert(all[j] == e);
    }
}

/// A search finds every match: each non-empty line of a readable archive
/// file that the matcher accepts is among the results, with the domain
/// shown for its file and the line trimmed.
pub proof fn lemma_search_finds_every_match(
    files: Seq<Seq<char>>,
    contents: Seq<Option<Seq<char>>>,
    query: Seq<char>,
    i: int,
    k: int,
)
    requires
        0 <= i < files.len(),
        i < contents.len(),
        contents[i] is Some,
        0 <= k < lines(contents[i]->0).len(),
        trim(lines(contents[i]->0)[k]).len() > 0,
        fuzzy_score(trim(lines(contents[i]->0)[k]), query) is Some,
    ensures
        search_hits(files, contents, query).contains(
            (domain_of_file(files[i]), trim(lines(contents[i]->0)[k])),
        ),
{
    broadcast use vstd::seq_lib::group_to_multiset_ensures;

    let domains = files.map_values(|n: Seq<char>| domain_of_file(n));
    let ls = lines(contents[i]->0);
    let t = trim(ls[k]);
    let e = (fuzzy_score(t, query)->0, domains[i], t);
    lemma_every_matching_line_found(domains[i], ls, k, query);
    lemma_all_entries_contains(domains, contents, query, i, e);
    let all = all_entries(domains, contents, query);
    lemma_sort_desc(all);
    let sorted = sort_desc(all);
    assert(all.to_multiset().count(e) > 0);
    assert(sorted.contains(e));
    let j = choose|j: int| 0 <= j < sorted.len() && sorted[j] == e;
    assert(hit_pairs(sorted)[j] == (domain_of_file(files[i]), t));
}

struct Scored {
    score: i64,
    domain: String,
    url: String,
}

spec fn scored_view(v: Seq<Scored>) -> Seq<Entry> {
    v.map_values(|e: Scored| (e.score, e.domain@, e.url@))
}

fn insert_scored(v: &mut Vec<Scored>, x: Scored)
    ensures
        scored_view(final(v)@) == insert_desc(scored_view(old(v)@), (x.score, x.domain@, x.url@)),
{
    let ghost s = scored_view(v@);
    let ghost xe = (x.score, x.domain@, x.url@);
    let mut k = v.len();
    while k > 0 && v[k - 1].score < x.score
        invariant
            k <= v.len(),
            s == scored_view(v@),
            xe == (x.score, x.domain@, x.url@),
            forall|j: int| k <= j < s.len() ==> (#[trigger] s[j]).0 < xe.0,
        decreases k,
    {
        k = k - 1;
    }
    proof {
        lemma_insert_desc_at(s, xe, k as int);
    }
    v.insert(k, x);
    assert(scored_view(v@) =~= s.insert(k as int, xe));
}

fn line_matches(domain: &String, content: &str, query: &str, out: &mut Vec<Scored>)
    ensures
        scored_view(final(out)@) == scored_view(old(out)@) + line_entries(
            domain@,
            lines(content@),
            query@,
        ),
{
    let ls = lines_of(content);
    let ghost all = views(ls@);
    let ghost start = scored_view(out@);
    let mut i: usize = 0;
    while i < ls.len()
        invariant
            i <= ls.len(),
            all == views(ls@),
            all == lines(content@),
            scored_view(out@) == start + line_entries(domain@, all.take(i as int), query@),
        decreases ls.len() - i,
    {
        assert(all.take(i + 1).drop_last() == all.take(i as int));
        let t = trim_chars(chars_of(ls[i].as_str()).as_slice());
        assert(all.take(i + 1).last() == all[i as int]);
        assert(all[i as int] == ls@[i as int]@);
        if t.len() > 0 {
            let line = string_of(t.as_slice());
            match skim_fuzzy_match(line.as_str(), query) {
                Some(score) => {
                    let e = Scored { score, domain: domain.clone(), url: line };
                    let ghost before = out@;
                    out.push(e);
                    assert(scored_view(out@) =~= scored_view(before).push((score, domain@, t@)));
                    assert(scored_view(out@) =~= start + line_entries(
                        domain@,
                        all.take(i + 1),
                        query@,
                    ));
                },
                None => {},
            }
        }
        i = i + 1;
    }
    assert(all.take(ls.len() as int) == all);
}

impl App {
    /// Searches every archive file for `query`, given `contents[i]`, the
    /// content of domain file `i` (`None` where it could not be read). The
    /// results are every match, best score first, and the first one is
    /// highlighted. An empty query clears the results and the highlight; a
    /// query without matches leaves the highlight as it was.
    pub fn search_global(&mut self, query: &str, contents: &Vec<Option<String>>)
        requires
            old(self).wf(),
            contents.len() == old(self).files.len(),
        ensures
            final(self).wf(),
            App::same_files(old(self), final(self)),
            App::same_links(old(self), final(self)),
            App::same_modes(old(self), final(self)),
            final(self).search_query == old(self).search_query,
            query@.len() == 0 ==> final(self).search_results@.len() == 0
                && final(self).search_selected is None,
            query@.len() > 0 ==> {
                &&& hits_view(final(self).search_results@) == search_hits(
                    views(old(self).files@),
                    contents_view(contents@),
                    query@,
                )
                &&& final(self).search_selected == if final(self).search_results.len() > 0 {
                    Some(0usize)
                } else {
                    old(self).search_selected
                }
            },
    {
        self.search_results = Vec::new();
        if query.is_empty() {
            self.search_selected = None;
            return;
        }
        let ghost names = views(self.files@);
        let ghost domains = names.map_values(|n: Seq<char>| domain_of_file(n));
        let ghost cv = contents_view(contents@);
        let mut found: Vec<Scored> = Vec::new();
        let mut fi: usize = 0;
        while fi < self.files.len()
            invariant
                fi <= self.files.len() == contents.len(),
                names == views(self.files@),
                domains == names.map_values(|n: Seq<char>| domain_of_file(n)),
                cv == contents_view(contents@),
                scored_view(found@) == all_entries(domains, cv.take(fi as int), query@),
            decreases self.files.len() - fi,
        {
            let domain = domain_name(self.files[fi].as_str());
            assert(domain@ == domains[fi as int]);
            assert(cv.take(fi + 1).drop_last() == cv.take(fi as int));
            match &contents[fi] {
                Some(c) => {
                    line_matches(&domain, c.as_str(), query, &mut found);
                },
                None => {},
            }
            fi = fi + 1;
        }
        assert(cv.take(self.files.len() as int) == cv);
        let mut sorted: Vec<Scored> = Vec::new();
        let ghost all = scored_view(found@);
        let mut k: usize = 0;
        while k < found.len()
            invariant
                k <= found.len(),
                all == scored_view(found@),
                scored_view(sorted@) == sort_desc(all.take(k as int)),
            decreases found.len() - k,
        {
            assert(all.take(k + 1).drop_last() == all.take(k as int));
            let e = Scored {
                score: found[k].score,
                domain: found[k].domain.clone(),
                url: found[k].url.clone(),
            };
            insert_scored(&mut sorted, e);
            k = k + 1;
        }
        assert(all.take(found.len() as int) == all);
        let mut hits: Vec<SearchHit> = Vec::new();
        let mut j: usize = 0;
        while j < sorted.len()
            invariant
                j <= sorted.len(),
                hits@.len() == j,
                hits_view(hits@) == hit_pairs(scored_view(sorted@)).take(j as int),
            decreases sorted.len() - j,
        {
            let h = SearchHit { domain: sorted[j].domain.clone(), url: sorted[j].url.clone() };
            hits.push(h);
            assert(hits_view(hits@) =~= hit_pairs(scored_view(sorted@)).take(j + 1));
            j = j + 1;
        }
        assert(hit_pairs(scored_view(sorted@)).take(sorted.len() as int) =~= hit_pairs(
            scored_view(sorted@),
        ));
        self.search_results = hits;
        if self.search_results.len() > 0 {
            self.search_selected = Some(0);
        }
    }
}

/// How many links each archive file holds, from the file contents
/// (`None` where a file could not be read, which counts as none).
pub fn link_counts(contents: &Vec<Option<String>>) -> (res: Vec<usize>)
    ensures
        res@.len() == contents@.len(),
        forall|i: int|
            0 <= i < res@.len() ==> res@[i] == match contents_view(contents@)[i] {
                Some(c) => crate::links::links_in(c).len(),
                None => 0,
            },
{
    let mut res: Vec<usize> = Vec::new();
    let mut i: usize = 0;
    while i < contents.len()
        invariant
            i <= contents.len(),
            res@.len() == i,
            forall|k: int|
                0 <= k < i ==> res@[k] == match contents_view(contents@)[k] {
                    Some(c) => crate::links::links_in(c).len(),
                    None => 0,
                },
        decreases contents.len() - i,
    {
        let n = match &contents[i] {
            Some(c) => count_links(c.as_str()),
            None => 0,
        };
        res.push(n);
        i = i + 1;
    }
    res
}

} // verus!
