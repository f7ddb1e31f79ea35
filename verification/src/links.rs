//! Archive files: one link per line.
use vstd::prelude::*;
use crate::text::{
    chars_of, drop_empty, join_lines, join_with_newlines, lines, lines_of, non_empty, trim,
    trim_chars, views,
};

verus! {

/// The links held by the archive content `content`: its non-empty lines.
pub open spec fn links_in(content: Seq<char>) -> Seq<Seq<char>> {
    drop_empty(lines(content))
}

/// The links of the archive content `content`, in order.
pub fn parse_links(content: &str) -> (res: Vec<String>)
    ensures
        views(res@) == links_in(content@),
{
    non_empty(lines_of(content))
}

/// How many links the archive content `content` holds.
pub fn count_links(content: &str) -> (res: usize)
    ensures
        res == links_in(content@).len(),
{
    let links = parse_links(content);
    proof {
        assert(views(links@).len() == links@.len());
    }
    links.len()
}

/// The archive content for `links`: each link on a line of its own.
pub fn links_content(links: &Vec<String>) -> (res: String)
    ensures
        res@ == join_lines(views(links@)),
{
    join_with_newlines(links)
}

/// Index of the first line of `ls` that is `url` once trimmed.
pub open spec fn first_line_matching(ls: Seq<Seq<char>>, url: Seq<char>) -> Option<int>
    decreases ls.len(),
{
    if ls.len() == 0 {
        None
    } else {
        match first_line_matching(ls.drop_last(), url) {
            Some(k) => Some(k),
            None => if trim(ls.last()) == url {
                Some(ls.len() - 1)
            } else {
                None
            },
        }
    }
}

/// The archive content `content` without its first line that is `url` once
/// trimmed; `None` when no line is.
pub open spec fn without_url_line(content: Seq<char>, url: Seq<char>) -> Option<Seq<char>> {
    match first_line_matching(lines(content), url) {
        Some(k) => Some(join_lines(lines(content).remove(k))),
        None => None,
    }
}

fn chars_eq(a: &Vec<char>, b: &Vec<char>) -> (res: bool)
    ensures
        res == (a@ == b@),
{
    if a.len() != b.len() {
        return false;
    }
    let mut i: usize = 0;
    while i < a.len()
        invariant
            i <= a.len() == b.len(),
            forall|k: int| 0 <= k < i ==> a@[k] == b@[k],
        decreases a.len() - i,
    {
        if a[i] != b[i] {
            return false;
        }
        i = i + 1;
    }
    assert(a@ =~= b@);
    true
}

/// Removes from the archive content `content` its first line that is `url`
/// once trimmed, and gives the content to write back; `None` when no line
/// is `url`.
pub fn remove_url_line(content: &str, url: &str) -> (res: Option<String>)
    ensures
        match res {
            Some(s) => without_url_line(content@, url@) == Some(s@),
            None => without_url_line(content@, url@) is None,
        },
{
    let mut all = lines_of(content);
    let target = chars_of(url);
    let ghost ls = views(all@);
    let mut i: usize = 0;
    while i < all.len()
        invariant
            i <= all.len(),
            ls == views(all@),
            ls == lines(content@),
            target@ == url@,
            first_line_matching(ls.take(i as int), url@) is None,
        decreases all.len() - i,
    {
        let t = trim_chars(chars_of(all[i].as_str()).as_slice());
        assert(ls.take(i + 1).drop_last() == ls.take(i as int));
        if chars_eq(&t, &target) {
            assert(first_line_matching(ls.take(i + 1), url@) == Some(i as int));
            proof {
                lemma_first_match_prefix(ls, url@, i as int + 1, i as int);
            }
            all.remove(i);
            assert(views(all@) =~= ls.remove(i as int));
            return Some(join_with_newlines(&all));
        }
        i = i + 1;
    }
    assert(ls.take(all.len() as int) == ls);
    None
}

proof fn lemma_first_match_prefix(ls: Seq<Seq<char>>, url: Seq<char>, j: int, k: int)
    requires
        0 <= j <= ls.len(),
        first_line_matching(ls.take(j), url) == Some(k),
    ensures
        first_line_matching(ls, url) == Some(k),
    decreases ls.len() - j,
{
    if j == ls.len() {
        assert(ls.take(j) == ls);
    } else {
        assert(ls.drop_last().take(j) == ls.take(j));
        lemma_first_match_prefix(ls.drop_last(), url, j, k);
    }
}


/// A line that can stand as a link in an archive file and be read back as
/// it was written: non-empty, without a line feed, not ending with a
/// carriage return.
pub open spec fn is_storable_link(l: Seq<char>) -> bool {
    l.len() > 0 && crate::text::is_plain_line(l)
}

/// Links written to an archive file are read back unchanged.
pub proof fn lemma_saved_links_read_back(ls: Seq<Seq<char>>)
    requires
        forall|i: int| 0 <= i < ls.len() ==> is_storable_link(#[trigger] ls[i]),
    ensures
        links_in(join_lines(ls)) == ls,
{
    assert forall|i: int| 0 <= i < ls.len() implies crate::text::is_plain_line(#[trigger] ls[i]) by {
        assert(is_storable_link(ls[i]));
    }
    crate::text::lemma_lines_of_joined(ls);
    assert forall|i: int| 0 <= i < ls.len() implies (#[trigger] ls[i]).len() > 0 by {
        assert(is_storable_link(ls[i]));
    }
    crate::text::lemma_drop_empty_keeps(ls);
}

/// Every link read from archive content is a non-empty line of it, and
/// there are no more links than lines.
pub proof fn lemma_links_are_lines(content: Seq<char>)
    ensures
        forall|i: int|
            0 <= i < links_in(content).len() ==> (#[trigger] links_in(content)[i]).len() > 0
                && lines(content).contains(links_in(content)[i]),
        links_in(content).len() <= lines(content).len(),
{
    crate::text::lemma_drop_empty_members(lines(content));
}

proof fn lemma_scan_no_newline(s: Seq<char>)
    ensures
        !crate::text::line_scan(s).1.contains('\n'),
        forall|i: int|
            0 <= i < crate::text::line_scan(s).0.len() ==> !(#[trigger] crate::text::line_scan(
                s,
            ).0[i]).contains('\n'),
    decreases s.len(),
{
    if s.len() > 0 {
        lemma_scan_no_newline(s.drop_last());
        let (done, cur) = crate::text::line_scan(s.drop_last());
        if s.last() == '\n' {
            let l = crate::text::strip_cr(cur);
            assert(!l.contains('\n')) by {
                if l.contains('\n') {
                    let j = choose|j: int| 0 <= j < l.len() && l[j] == '\n';
                    assert(cur[j] == '\n');
                }
            }
            assert forall|i: int| 0 <= i < done.push(l).len() implies !(#[trigger] done.push(
                l,
            )[i]).contains('\n') by {
                if i < done.len() {
                    assert(done.push(l)[i] == done[i]);
                }
            }
        } else {
            assert(!cur.push(s.last()).contains('\n')) by {
                if cur.push(s.last()).contains('\n') {
                    let j = choose|j: int| 0 <= j < cur.push(s.last()).len() && cur.push(s.last())[j]
                        == '\n';
                    if j < cur.len() {
                        assert(cur[j] == '\n');
                    }
                }
            }
        }
    }
}

/// No line of `s` holds a line feed.
proof fn lemma_lines_no_newline(s: Seq<char>)
    ensures
        forall|i: int| 0 <= i < lines(s).len() ==> !(#[trigger] lines(s)[i]).contains('\n'),
{
    lemma_scan_no_newline(s);
}

proof fn lemma_first_match_is_match(ls: Seq<Seq<char>>, url: Seq<char>)
    ensures
        first_line_matching(ls, url) matches Some(k) ==> 0 <= k < ls.len() && trim(ls[k]) == url,
    decreases ls.len(),
{
    if ls.len() > 0 {
        lemma_first_match_is_match(ls.drop_last(), url);
    }
}

proof fn lemma_drop_empty_remove(ls: Seq<Seq<char>>, k: int)
    requires
        0 <= k < ls.len(),
        ls[k].len() > 0,
    ensures
        drop_empty(ls.remove(k)).len() + 1 == drop_empty(ls).len(),
    decreases ls.len(),
{
    if k == ls.len() - 1 {
        assert(ls.remove(k) =~= ls.drop_last());
    } else {
        lemma_drop_empty_remove(ls.drop_last(), k);
        assert(ls.remove(k).drop_last() =~= ls.drop_last().remove(k));
        assert(ls.remove(k).last() == ls.last());
    }
}

/// Removing the line of a non-empty link from archive content leaves one
/// link fewer, when no line of the content ends with a carriage return.
pub proof fn lemma_removed_line_one_link_fewer(content: Seq<char>, url: Seq<char>)
    requires
        url.len() > 0,
        without_url_line(content, url) is Some,
        forall|i: int|
            0 <= i < lines(content).len() ==> !((#[trigger] lines(content)[i]).len() > 0
                && lines(content)[i].last() == '\r'),
    ensures
        links_in(without_url_line(content, url)->0).len() + 1 == links_in(content).len(),
{
    let ls = lines(content);
    lemma_first_match_is_match(ls, url);
    let k = first_line_matching(ls, url)->0;
    assert(ls[k].len() > 0) by {
        if ls[k].len() == 0 {
            assert(crate::text::trim_front(ls[k]) == ls[k]);
            assert(crate::text::trim_back(ls[k]) == ls[k]);
        }
    }
    lemma_lines_no_newline(content);
    let rest = ls.remove(k);
    assert forall|i: int| 0 <= i < rest.len() implies crate::text::is_plain_line(
        #[trigger] rest[i],
    ) by {
        let j = if i < k {
            i
        } else {
            i + 1
        };
        assert(rest[i] == ls[j]);
    }
    crate::text::lemma_lines_of_joined(rest);
    lemma_drop_empty_remove(ls, k);
}

/// The line that archives `url`: the link and a line feed.
pub fn archive_line(url: &str) -> (res: String)
    ensures
        res@ == url@.push('\n'),
{
    let mut s = String::new();
    s.append(url);
    crate::text::push_char(&mut s, '\n');
    s
}

/// Appending the line of a link to archive content that is empty or ends
/// with a line feed adds exactly that link, after the links already there.
pub proof fn lemma_appended_link_read_back(content: Seq<char>, url: Seq<char>)
    requires
        content.len() == 0 || content.last() == '\n',
        is_storable_link(url),
    ensures
        links_in(content + url.push('\n')) == links_in(content).push(url),
{
    let (done, cur) = crate::text::line_scan(content);
    assert(cur.len() == 0);
    crate::text::lemma_scan_extend(content, url);
    let s = content + url.push('\n');
    assert(s.drop_last() =~= content + url);
    assert(s.last() == '\n');
    assert(crate::text::strip_cr(url) == url);
    assert(crate::text::line_scan(s) == (done.push(url), Seq::<char>::empty()));
    assert(lines(s) == done.push(url));
    assert(lines(content) == done);
    assert(done.push(url).drop_last() =~= done);
}

} // verus!
