//! Deciding what the harvester archives: which clipboard texts are links,
//! the domain a link is stored under, and the size of its screenshot.
use vstd::prelude::*;
use crate::domain::{domain_key, domain_key_of};
use crate::paths::{archive_dir_of, archive_file_name, get_archive_path, join_path};
use crate::links::{links_in, parse_links};
use crate::text::{chars_of, string_of, trim, trim_chars, views};

verus! {

/// The text of capture group `group` in the leftmost match of the regular
/// expression `pattern` in `text`; `Some(None)` when there is no match or
/// the group took no part in it; `None` when `pattern` is not a valid
/// regular expression.
pub uninterp spec fn regex_group(pattern: Seq<char>, text: Seq<char>, group: usize) -> Option<
    Option<Seq<char>>,
>;

/// `regex::Regex::new(pattern)`, then `Regex::captures(text)` and
/// `Captures::get(group)`: the result is the text of that group in the
/// leftmost match (none without a match or when the group took no part in
/// it), or `None` when `pattern` does not compile. Group 0 is the whole
/// match, so it is there exactly when the pattern matches.
#[verifier::external_body]
fn regex_capture(pattern: &str, text: &str, group: usize) -> (res: Option<Option<String>>)
    ensures
        match res {
            None => regex_group(pattern@, text@, group) is None,
            Some(None) => regex_group(pattern@, text@, group) == Some(None::<Seq<char>>),
            Some(Some(s)) => regex_group(pattern@, text@, group) == Some(Some(s@)),
        },
{
    match regex::Regex::new(pattern) {
        Ok(re) => match re.captures(text) {
            Some(caps) => match caps.get(group) {
                Some(m) => Some(Some(m.as_str().to_string())),
                None => Some(None),
            },
            None => Some(None),
        },
        Err(_) => None,
    }
}

/// The pattern of a web link: text starting with `http://` or `https://`.
pub open spec fn web_link_pattern() -> Seq<char> {
    "^https?://"@
}

/// The pattern that captures a link's host, without a leading `www.`.
pub open spec fn host_pattern() -> Seq<char> {
    "https?://(?:www\\.)?([^/:]+)"@
}

/// Whether `text` is a web link: the pattern matches in it.
pub open spec fn is_web_link(text: Seq<char>) -> bool {
    regex_group(web_link_pattern(), text, 0) matches Some(Some(_))
}

/// The key the link `url` is archived under: its host without a leading
/// `www.`, dots turned into underscores; none when no host is found.
pub open spec fn clean_domain(url: Seq<char>) -> Option<Seq<char>> {
    match regex_group(host_pattern(), url, 1) {
        Some(Some(host)) => Some(domain_key(host)),
        _ => None,
    }
}

/// Whether `text` is a web link.
pub fn is_web_url(text: &str) -> (res: bool)
    ensures
        res == is_web_link(text@),
{
    match regex_capture("^https?://", text, 0) {
        Some(Some(_)) => true,
        _ => false,
    }
}

/// The key a captured host is archived under: dots turned into underscores.
pub fn host_to_domain(captured: Option<Option<String>>) -> (res: Option<String>)
    ensures
        match captured {
            Some(Some(host)) => res matches Some(d) && d@ == domain_key(host@),
            _ => res is None,
        },
{
    match captured {
        Some(Some(host)) => Some(domain_key_of(host.as_str())),
        _ => None,
    }
}

/// The key the link `url` is archived under.
pub fn get_clean_domain(url: &str) -> (res: Option<String>)
    ensures
        match clean_domain(url@) {
            Some(d) => res matches Some(r) && r@ == d,
            None => res is None,
        },
{
    let captured = regex_capture("https?://(?:www\\.)?([^/:]+)", url, 1);
    host_to_domain(captured)
}

/// The clipboard text `clip` with surrounding whitespace removed, when it is
/// a web link.
pub fn candidate_link(clip: &str) -> (res: Option<String>)
    ensures
        match res {
            Some(url) => url@ == trim(clip@) && is_web_link(trim(clip@)),
            None => !is_web_link(trim(clip@)),
        },
{
    let t = string_of(trim_chars(chars_of(clip).as_slice()).as_slice());
    if is_web_url(t.as_str()) {
        Some(t)
    } else {
        None
    }
}

/// Where a harvested link goes.
pub struct ArchiveTarget {
    /// The key the link is archived under.
    pub domain: String,
    /// The archive file it is appended to.
    pub path: String,
}

/// Where the link `url` is archived, under the user data directory
/// `data_dir`; none when no host is found in it.
pub fn archive_target(url: &str, data_dir: &str) -> (res: Option<ArchiveTarget>)
    ensures
        match clean_domain(url@) {
            Some(d) => res matches Some(t) && t.domain@ == d && t.path@ == join_path(
                archive_dir_of(data_dir@),
                archive_file_name(d),
            ),
            None => res is None,
        },
{
    match get_clean_domain(url) {
        Some(domain) => {
            let path = get_archive_path(data_dir, domain.as_str());
            Some(ArchiveTarget { domain, path })
        },
        None => None,
    }
}

/// What the harvester does with the clipboard text `clip`, having seen the
/// links `seen`: a web link (the text trimmed) not seen yet and whose host
/// is found is archived; the link, the key it goes under and the archive
/// file under the user data directory `data_dir`. Nothing otherwise.
pub open spec fn harvest_decision(seen: Set<Seq<char>>, clip: Seq<char>, data_dir: Seq<char>) -> Option<
    (Seq<char>, Seq<char>, Seq<char>),
> {
    let url = trim(clip);
    if is_web_link(url) && !seen.contains(url) {
        match clean_domain(url) {
            Some(d) => Some((url, d, join_path(archive_dir_of(data_dir), archive_file_name(d)))),
            None => None,
        }
    } else {
        None
    }
}

/// A link to archive.
pub struct Harvest {
    /// The link.
    pub url: String,
    /// The key it is archived under.
    pub domain: String,
    /// The archive file it is appended to.
    pub path: String,
}

/// What the harvester remembers: the links it has seen, in the archive or
/// on the clipboard, each once.
pub struct Harvester {
    pub seen: Vec<String>,
}

impl Harvester {
    /// The links seen.
    pub open spec fn seen_set(&self) -> Set<Seq<char>> {
        views(self.seen@).to_set()
    }

    /// No link is remembered twice.
    pub open spec fn wf(&self) -> bool {
        views(self.seen@).no_duplicates()
    }

    /// A harvester that has seen nothing.
    pub fn new() -> (h: Harvester)
        ensures
            h.wf(),
            h.seen_set() == Set::<Seq<char>>::empty(),
    {
        let h = Harvester { seen: Vec::new() };
        assert(h.seen_set() =~= Set::<Seq<char>>::empty());
        h
    }

    /// Whether the link `url` was seen.
    pub fn has_seen(&self, url: &String) -> (res: bool)
        ensures
            res == self.seen_set().contains(url@),
    {
        let ghost all = views(self.seen@);
        let mut i: usize = 0;
        while i < self.seen.len()
            invariant
                i <= self.seen.len(),
                all == views(self.seen@),
                forall|k: int| 0 <= k < i ==> all[k] != url@,
            decreases self.seen.len() - i,
        {
            if self.seen[i] == *url {
                assert(all[i as int] == url@);
                assert(all.contains(url@));
                return true;
            }
            i = i + 1;
        }
        assert(!all.contains(url@));
        false
    }

    /// Remembers the link `url` as seen.
    pub fn record(&mut self, url: String)
        requires
            old(self).wf(),
        ensures
            final(self).wf(),
            final(self).seen_set() == old(self).seen_set().insert(url@),
            final(self).seen@.len() == old(self).seen@.len() + if old(self).seen_set().contains(
                url@,
            ) {
                0int
            } else {
                1int
            },
    {
        if !self.has_seen(&url) {
            let ghost before = views(self.seen@);
            self.seen.push(url);
            proof {
                assert(views(self.seen@) =~= before.push(url@));
                assert forall|i: int, j: int|
                    0 <= i < views(self.seen@).len() && 0 <= j < views(self.seen@).len() && i
                        != j implies views(self.seen@)[i] != views(self.seen@)[j] by {
                    if i < before.len() && j < before.len() {
                        assert(before[i] != before[j]);
                    } else if i < before.len() {
                        assert(before[i] != url@) by {
                            if before[i] == url@ {
                                assert(before.contains(url@));
                            }
                        }
                    } else if j < before.len() {
                        assert(before[j] != url@) by {
                            if before[j] == url@ {
                                assert(before.contains(url@));
                            }
                        }
                    }
                }
                assert(views(self.seen@).to_set() =~= before.to_set().insert(url@)) by {
                    assert forall|x: Seq<char>| #[trigger] views(self.seen@).contains(x) <==> (
                    before.contains(x) || x == url@) by {
                        if views(self.seen@).contains(x) {
                            let k = choose|k: int| 0 <= k < views(self.seen@).len() && views(self.seen@)[k] == x;
                            if k < before.len() {
                                assert(before[k] == x);
                            }
                        }
                        if before.contains(x) {
                            let k = choose|k: int| 0 <= k < before.len() && before[k] == x;
                            assert(views(self.seen@)[k] == x);
                        }
                        if x == url@ {
                            assert(views(self.seen@)[before.len() as int] == x);
                        }
                    }
                }
            }
        } else {
            assert(old(self).seen_set().insert(url@) =~= old(self).seen_set());
        }
    }

    /// Remembers every link of the archive content `content` as seen.
    pub fn remember_archive(&mut self, content: &str)
        requires
            old(self).wf(),
        ensures
            final(self).wf(),
            final(self).seen_set() == old(self).seen_set().union(links_in(content@).to_set()),
    {
        let links = parse_links(content);
        let ghost ls = views(links@);
        let mut i: usize = 0;
        while i < links.len()
            invariant
                i <= links.len(),
                ls == views(links@),
                ls == links_in(content@),
                self.wf(),
                self.seen_set() == old(self).seen_set().union(ls.take(i as int).to_set()),
            decreases links.len() - i,
        {
            let url = links[i].clone();
            assert(url@ == ls[i as int]);
            self.record(url);
            proof {
                let t0 = ls.take(i as int);
                let t1 = ls.take(i + 1);
                assert(t1 =~= t0.push(ls[i as int]));
                assert forall|x: Seq<char>| #[trigger] t1.contains(x) <==> (t0.contains(x) || x
                    == ls[i as int]) by {
                    if t1.contains(x) {
                        let k = choose|k: int| 0 <= k < t1.len() && #[trigger] t1[k] == x;
                        if k < i {
                            assert(t0[k] == x);
                        }
                    }
                    if t0.contains(x) {
                        let k = choose|k: int| 0 <= k < t0.len() && #[trigger] t0[k] == x;
                        assert(t1[k] == x);
                    }
                    if x == ls[i as int] {
                        assert(t1[i as int] == x);
                    }
                }
                assert(t1.to_set() =~= t0.to_set().insert(ls[i as int]));
            }
            assert(self.seen_set() =~= old(self).seen_set().union(ls.take(i + 1).to_set()));
            i = i + 1;
        }
        assert(ls.take(links.len() as int) =~= ls);
    }

    /// What to do with the clipboard text `clip`: the link to archive, its
    /// key and its archive file under the user data directory `data_dir`;
    /// nothing when the text is no web link, was seen, or has no host.
    pub fn on_clipboard(&self, clip: &str, data_dir: &str) -> (res: Option<Harvest>)
        ensures
            match harvest_decision(self.seen_set(), clip@, data_dir@) {
                Some((u, d, p)) => res matches Some(h) && h.url@ == u && h.domain@ == d && h.path@
                    == p,
                None => res is None,
            },
    {
        match candidate_link(clip) {
            Some(url) => {
                if self.has_seen(&url) {
                    None
                } else {
                    match archive_target(url.as_str(), data_dir) {
                        Some(t) => Some(Harvest { url, domain: t.domain, path: t.path }),
                        None => None,
                    }
                }
            },
            None => None,
        }
    }
}

/// What the harvester archives is the clipboard text trimmed, under the
/// domain of that link and in the archive file of that domain; and it does
/// archive every trimmed text that is an unseen web link with a host.
pub proof fn lemma_harvest_of_trimmed_link(
    seen: Set<Seq<char>>,
    clip: Seq<char>,
    data_dir: Seq<char>,
)
    ensures
        harvest_decision(seen, clip, data_dir) matches Some((u, d, p)) ==> {
            &&& u == trim(clip)
            &&& is_web_link(u)
            &&& !seen.contains(u)
            &&& clean_domain(u) == Some(d)
            &&& p == join_path(archive_dir_of(data_dir), archive_file_name(d))
        },
        is_web_link(trim(clip)) && !seen.contains(trim(clip)) && clean_domain(trim(clip)) is Some
            ==> harvest_decision(seen, clip, data_dir) is Some,
{
}

/// Surrounding whitespace on the clipboard changes nothing: the decision on
/// a text is the decision on the text trimmed.
pub proof fn lemma_harvest_ignores_surrounding_space(
    seen: Set<Seq<char>>,
    clip: Seq<char>,
    data_dir: Seq<char>,
)
    ensures
        harvest_decision(seen, trim(clip), data_dir) == harvest_decision(seen, clip, data_dir),
{
    crate::text::lemma_trim_idempotent(clip);
}

/// A link the harvester recorded is not archived again, however it shows
/// up on the clipboard.
pub proof fn lemma_recorded_link_not_harvested(
    seen: Set<Seq<char>>,
    clip: Seq<char>,
    data_dir: Seq<char>,
)
    ensures
        harvest_decision(seen.insert(trim(clip)), clip, data_dir) is None,
{
}

/// A link already in the archive is not archived again once the archive
/// was read in.
pub proof fn lemma_archived_link_not_harvested(
    seen: Set<Seq<char>>,
    content: Seq<char>,
    clip: Seq<char>,
    data_dir: Seq<char>,
)
    requires
        links_in(content).contains(trim(clip)),
    ensures
        harvest_decision(seen.union(links_in(content).to_set()), clip, data_dir) is None,
{
}

/// The text of the notice shown when a link was archived under `domain`.
pub fn harvest_notice(domain: &str) -> (res: String)
    ensures
        res@ == "Stored under "@ + domain@,
{
    let mut s = String::new();
    s.append("Stored under ");
    s.append(domain);
    s
}

/// Longest side of a screenshot thumbnail, in pixels.
pub const THUMBNAIL_MAX: u32 = 720;

/// The size a `w` by `h` screenshot is scaled to: its longer side made
/// `THUMBNAIL_MAX` pixels, the other scaled in proportion (rounded down,
/// at least one pixel).
pub open spec fn thumbnail_dims(w: u32, h: u32) -> (u32, u32) {
    if w > h {
        let s = h * 720 / (w as int);
        (720, if s < 1 {
            1
        } else {
            s as u32
        })
    } else {
        let s = w * 720 / (h as int);
        (if s < 1 {
            1
        } else {
            s as u32
        }, 720)
    }
}

/// The sizes for which the scaling is computed without overflow or
/// division by zero in 32-bit arithmetic.
pub open spec fn thumbnail_computable(w: u32, h: u32) -> bool {
    if w > h {
        h * 720 <= u32::MAX
    } else {
        h > 0 && w * 720 <= u32::MAX
    }
}

/// The size a `w` by `h` screenshot is scaled to.
pub fn thumbnail_size(w: u32, h: u32) -> (res: (u32, u32))
    requires
        thumbnail_computable(w, h),
    ensures
        res == thumbnail_dims(w, h),
        res.0 <= THUMBNAIL_MAX && res.1 <= THUMBNAIL_MAX,
        res.0 >= 1 && res.1 >= 1,
{
    let max_dim: u32 = THUMBNAIL_MAX;
    if w > h {
        let s = h * max_dim / w;
        assert(h * 720 / (w as int) <= 720) by (nonlinear_arith)
            requires
                h < w,
        ;
        (max_dim, if s < 1 { 1 } else { s })
    } else {
        let s = w * max_dim / h;
        assert(w * 720 / (h as int) <= 720) by (nonlinear_arith)
            requires
                w <= h,
                h > 0,
        ;
        (if s < 1 { 1 } else { s }, max_dim)
    }
}

} // verus!
