//! Finding a page's title in the first part of its HTML.
use vstd::prelude::*;
use crate::text::{chars_of, string_of, trim, trim_chars};

verus! {

/// `c` with ASCII upper-case letters made lower-case.
pub open spec fn ascii_lower(c: char) -> char {
    if 'A' <= c && c <= 'Z' {
        ((c as u32) + 32) as char
    } else {
        c
    }
}

/// `s` with ASCII upper-case letters made lower-case
/// (`str::to_ascii_lowercase`).
pub open spec fn lowered(s: Seq<char>) -> Seq<char> {
    s.map_values(|c: char| ascii_lower(c))
}

/// `p` occurs in `s` starting at `k`.
pub open spec fn occurs_at(s: Seq<char>, p: Seq<char>, k: int) -> bool {
    0 <= k && k + p.len() <= s.len() && s.subrange(k, k + p.len()) == p
}

/// The first position below `n` where `p` occurs in `s`.
pub open spec fn first_below(s: Seq<char>, p: Seq<char>, n: nat) -> Option<int>
    decreases n,
{
    if n == 0 {
        None
    } else {
        match first_below(s, p, (n - 1) as nat) {
            Some(k) => Some(k),
            None => if occurs_at(s, p, n - 1) {
                Some(n - 1)
            } else {
                None
            },
        }
    }
}

/// The last position below `n` where `p` occurs in `s`.
pub open spec fn last_below(s: Seq<char>, p: Seq<char>, n: nat) -> Option<int>
    decreases n,
{
    if n == 0 {
        None
    } else if occurs_at(s, p, n - 1) {
        Some(n - 1)
    } else {
        last_below(s, p, (n - 1) as nat)
    }
}

/// Where `p` first occurs in `s` (`str::find`).
pub open spec fn first_occurrence(s: Seq<char>, p: Seq<char>) -> Option<int> {
    first_below(s, p, s.len() + 1)
}

/// Where `p` last occurs in `s` (`str::rfind`).
pub open spec fn last_occurrence(s: Seq<char>, p: Seq<char>) -> Option<int> {
    last_below(s, p, s.len() + 1)
}

/// The opening title tag.
pub open spec fn open_tag() -> Seq<char> {
    seq!['<', 't', 'i', 't', 'l', 'e', '>']
}

/// The closing title tag.
pub open spec fn close_tag() -> Seq<char> {
    seq!['<', '/', 't', 'i', 't', 'l', 'e', '>']
}

/// How many bytes of a page are read at most while looking for its title.
pub const TITLE_READ_LIMIT: usize = 32768;

/// `text` with its HTML character references decoded.
pub uninterp spec fn html_decoded(text: Seq<char>) -> Seq<char>;

/// `html_escape::decode_html_entities`: the result is `text` with its HTML
/// character references decoded.
#[verifier::external_body]
fn decode_entities(text: &str) -> (res: String)
    ensures
        res@ == html_decoded(text@),
{
    html_escape::decode_html_entities(text).into_owned()
}

/// What reading a page has shown so far about its title.
pub enum TitleScan {
    /// The closing title tag has been read; the title, when there is a
    /// non-empty one. Reading stops.
    Finished(Option<String>),
    /// No closing title tag yet, and more than `TITLE_READ_LIMIT` bytes were
    /// read. Reading stops.
    TooLong,
    /// No closing title tag yet: read on.
    KeepReading,
}

/// The title found in `page` once its closing tag `end` is known: the text
/// between the last opening tag before it and `end`, trimmed and decoded;
/// none when there is no opening tag or the title is empty.
pub open spec fn title_before(page: Seq<char>, end: int) -> Option<Seq<char>> {
    match last_occurrence(lowered(page).take(end), open_tag()) {
        Some(start) => {
            let t = html_decoded(trim(page.subrange(start + 7, end)));
            if t.len() > 0 {
                Some(t)
            } else {
                None
            }
        },
        None => None,
    }
}

/// What the page read so far, `page`, shows about its title.
pub open spec fn scan_outcome(page: Seq<char>) -> Option<Option<Seq<char>>> {
    match first_occurrence(lowered(page), close_tag()) {
        Some(end) => Some(title_before(page, end)),
        None => None,
    }
}

fn lower_chars(s: &Vec<char>) -> (res: Vec<char>)
    ensures
        res@ == lowered(s@),
{
    let mut res: Vec<char> = Vec::new();
    let mut i: usize = 0;
    while i < s.len()
        invariant
            i <= s.len(),
            res@ == lowered(s@.take(i as int)),
        decreases s.len() - i,
    {
        let c = s[i];
        let l = if 'A' <= c && c <= 'Z' {
            ((c as u32) + 32) as u8 as char
        } else {
            c
        };
        proof {
            if 'A' <= c && c <= 'Z' {
                assert((c as u32) + 32 < 128);
            }
        }
        res.push(l);
        assert(lowered(s@.take(i + 1)) =~= lowered(s@.take(i as int)).push(ascii_lower(c)));
        i = i + 1;
    }
    assert(s@.take(s.len() as int) == s@);
    res
}

fn matches_at(s: &Vec<char>, p: &Vec<char>, k: usize) -> (res: bool)
    ensures
        res == occurs_at(s@, p@, k as int),
{
    if k > s.len() || p.len() > s.len() - k {
        return false;
    }
    let mut j: usize = 0;
    while j < p.len()
        invariant
            j <= p.len(),
            k + p.len() <= s.len(),
            forall|t: int| 0 <= t < j ==> s@[k + t] == p@[t],
        decreases p.len() - j,
    {
        if s[k + j] != p[j] {
            assert(s@.subrange(k as int, k + p.len())[j as int] != p@[j as int]);
            return false;
        }
        j = j + 1;
    }
    assert(s@.subrange(k as int, k + p.len()) =~= p@);
    true
}

fn find_first(s: &Vec<char>, p: &Vec<char>) -> (res: Option<usize>)
    requires
        p@.len() > 0,
    ensures
        match res {
            Some(k) => first_occurrence(s@, p@) == Some(k as int) && k + p@.len() <= s@.len(),
            None => first_occurrence(s@, p@) is None,
        },
{
    let mut k: usize = 0;
    while k < s.len()
        invariant
            k <= s.len(),
            p@.len() > 0,
            first_below(s@, p@, k as nat) is None,
        decreases s.len() - k,
    {
        if matches_at(s, p, k) {
            proof {
                lemma_first_below_stays(s@, p@, (k + 1) as nat, s@.len() + 1, k as int);
            }
            return Some(k);
        }
        k = k + 1;
    }
    assert(!occurs_at(s@, p@, s@.len() as int));
    None
}

proof fn lemma_first_below_stays(s: Seq<char>, p: Seq<char>, n: nat, m: nat, k: int)
    requires
        n <= m,
        first_below(s, p, n) == Some(k),
    ensures
        first_below(s, p, m) == Some(k),
    decreases m - n,
{
    if n < m {
        lemma_first_below_stays(s, p, n, (m - 1) as nat, k);
    }
}

fn find_last_before(s: &Vec<char>, p: &Vec<char>, end: usize) -> (res: Option<usize>)
    requires
        end <= s.len(),
        p@.len() > 0,
    ensures
        match res {
            Some(k) => last_occurrence(s@.take(end as int), p@) == Some(k as int) && k + p@.len()
                <= end,
            None => last_occurrence(s@.take(end as int), p@) is None,
        },
{
    let ghost t = s@.take(end as int);
    let head = copy_prefix(s, end);
    let mut k: usize = end;
    assert(!occurs_at(t, p@, end as int));
    while k > 0
        invariant
            k <= end,
            end <= s.len(),
            t == s@.take(end as int),
            p@.len() > 0,
            head@ == t,
            t.len() == end,
            last_below(t, p@, (end + 1) as nat) == last_below(t, p@, k as nat),
        decreases k,
    {
        if matches_at(&head, p, k - 1) {
            assert(occurs_at(t, p@, k - 1));
            assert(last_below(t, p@, k as nat) == Some(k - 1));
            assert(s@.take(end as int) == t);
            assert(last_occurrence(t, p@) == last_below(t, p@, (end + 1) as nat));
            return Some(k - 1);
        }
        k = k - 1;
    }
    None
}

fn copy_prefix(s: &Vec<char>, n: usize) -> (res: Vec<char>)
    requires
        n <= s.len(),
    ensures
        res@ == s@.take(n as int),
{
    let mut res: Vec<char> = Vec::new();
    let mut i: usize = 0;
    while i < n
        invariant
            i <= n <= s.len(),
            res@ == s@.take(i as int),
        decreases n - i,
    {
        res.push(s[i]);
        assert(s@.take(i + 1) == s@.take(i as int).push(s@[i as int]));
        i = i + 1;
    }
    res
}

fn tag_chars(close: bool) -> (res: Vec<char>)
    ensures
        res@ == if close {
            close_tag()
        } else {
            open_tag()
        },
{
    let mut v: Vec<char> = Vec::new();
    v.push('<');
    if close {
        v.push('/');
    }
    v.push('t');
    v.push('i');
    v.push('t');
    v.push('l');
    v.push('e');
    v.push('>');
    assert(v@ =~= if close {
        close_tag()
    } else {
        open_tag()
    });
    v
}

/// What `page`, the start of a page read so far, shows about its title: the
/// title once the closing title tag (in any letter case) has been read;
/// giving up past `TITLE_READ_LIMIT` bytes; reading on otherwise.
pub fn scan_title(page: &str) -> (res: TitleScan)
    ensures
        match scan_outcome(page@) {
            Some(title) => match res {
                TitleScan::Finished(t) => match t {
                    Some(s) => title == Some(s@),
                    None => title is None,
                },
                _ => false,
            },
            None => if page.len() > TITLE_READ_LIMIT {
                res is TooLong
            } else {
                res is KeepReading
            },
        },
{
    let cs = chars_of(page);
    let lower = lower_chars(&cs);
    let close = tag_chars(true);
    match find_first(&lower, &close) {
        Some(end) => {
            TitleScan::Finished(title_between(&cs, &lower, end))
        },
        None => {
            if page.len() > TITLE_READ_LIMIT {
                TitleScan::TooLong
            } else {
                TitleScan::KeepReading
            }
        },
    }
}

fn title_between(cs: &Vec<char>, lower: &Vec<char>, end: usize) -> (res: Option<String>)
    requires
        lower@ == lowered(cs@),
        end <= cs.len(),
    ensures
        match res {
            Some(s) => title_before(cs@, end as int) == Some(s@),
            None => title_before(cs@, end as int) is None,
        },
{
    let open = tag_chars(false);
    match find_last_before(lower, &open, end) {
        Some(start) => {
            let mid = copy_range_chars(cs, start + 7, end);
            let trimmed = trim_chars(mid.as_slice());
            let raw = string_of(trimmed.as_slice());
            let decoded = decode_entities(raw.as_str());
            if decoded.as_str().is_empty() {
                None
            } else {
                Some(decoded)
            }
        },
        None => None,
    }
}

fn copy_range_chars(s: &Vec<char>, from: usize, to: usize) -> (res: Vec<char>)
    requires
        from <= to <= s.len(),
    ensures
        res@ == s@.subrange(from as int, to as int),
{
    let mut res: Vec<char> = Vec::new();
    let mut k: usize = from;
    while k < to
        invariant
            from <= k <= to <= s.len(),
            res@ == s@.subrange(from as int, k as int),
        decreases to - k,
    {
        res.push(s[k]);
        assert(s@.subrange(from as int, k + 1) == s@.subrange(from as int, k as int).push(
            s@[k as int],
        ));
        k = k + 1;
    }
    res
}

} // verus!
