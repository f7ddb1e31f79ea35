//! Domains and the names of their archive files: the file stem, the domain
//! shown for a file, and the key a domain is stored under.
use vstd::prelude::*;
use crate::text::{chars_of, string_of};

verus! {

/// `s` without the prefix `p`, or `s` itself when it does not start with `p`
/// (`str::strip_prefix(..).unwrap_or(s)`).
pub open spec fn strip_prefix_or_keep(s: Seq<char>, p: Seq<char>) -> Seq<char> {
    if p.len() <= s.len() && s.subrange(0, p.len() as int) == p {
        s.skip(p.len() as int)
    } else {
        s
    }
}

/// `s` with every `from` replaced by `to`.
pub open spec fn replace_char(s: Seq<char>, from: char, to: char) -> Seq<char> {
    s.map_values(|c: char| if c == from { to } else { c })
}

/// Index of the last `.` in `s`, if any.
pub open spec fn last_dot(s: Seq<char>) -> Option<int>
    decreases s.len(),
{
    if s.len() == 0 {
        None
    } else if s.last() == '.' {
        Some(s.len() - 1)
    } else {
        last_dot(s.drop_last())
    }
}

/// The stem of the file named `name` (`Path::file_stem` on a single path
/// component): none for an empty name, `.` or `..`; the whole name when it
/// holds no dot or its only dot comes first; otherwise the part before the
/// last dot.
pub open spec fn file_stem(name: Seq<char>) -> Option<Seq<char>> {
    if name.len() == 0 || name == seq!['.'] || name == seq!['.', '.'] {
        None
    } else {
        match last_dot(name) {
            None => Some(name),
            Some(k) => if k == 0 {
                Some(name)
            } else {
                Some(name.subrange(0, k))
            },
        }
    }
}

/// The extension of the file named `name` (`Path::extension` on a single
/// path component): the part after its last dot, unless the name has no
/// dot, its only dot comes first, or it is empty, `.` or `..`.
pub open spec fn file_extension(name: Seq<char>) -> Option<Seq<char>> {
    if name.len() == 0 || name == seq!['.'] || name == seq!['.', '.'] {
        None
    } else {
        match last_dot(name) {
            None => None,
            Some(k) => if k == 0 {
                None
            } else {
                Some(name.skip(k + 1))
            },
        }
    }
}

/// Prefix of every archive file name.
pub open spec fn archive_prefix() -> Seq<char> {
    seq!['a', 'r', 'c', 'h', 'i', 'v', 'e', '_']
}

/// Prefix that the domain shown for a file does not keep.
pub open spec fn www_prefix() -> Seq<char> {
    seq!['w', 'w', 'w', '.']
}

/// The key the archive file `name` is stored under: its stem without the
/// `archive_` prefix; empty when the name has no stem.
pub open spec fn archive_key(name: Seq<char>) -> Seq<char> {
    match file_stem(name) {
        Some(stem) => strip_prefix_or_keep(stem, archive_prefix()),
        None => seq![],
    }
}

/// The domain shown for the archive file `name`: its key with `_` turned
/// back into `.` and without a leading `www.`.
pub open spec fn domain_of_file(name: Seq<char>) -> Seq<char> {
    match file_stem(name) {
        Some(stem) => strip_prefix_or_keep(
            replace_char(strip_prefix_or_keep(stem, archive_prefix()), '_', '.'),
            www_prefix(),
        ),
        None => seq![],
    }
}

/// The key a domain is stored under: `.` turned into `_`.
pub open spec fn domain_key(domain: Seq<char>) -> Seq<char> {
    replace_char(domain, '.', '_')
}

fn has_prefix(s: &Vec<char>, p: &Vec<char>) -> (res: bool)
    ensures
        res == (p@.len() <= s@.len() && s@.subrange(0, p@.len() as int) == p@),
{
    if p.len() > s.len() {
        return false;
    }
    let mut i: usize = 0;
    while i < p.len()
        invariant
            i <= p.len() <= s.len(),
            forall|k: int| 0 <= k < i ==> s@[k] == p@[k],
        decreases p.len() - i,
    {
        if s[i] != p[i] {
            assert(s@.subrange(0, p@.len() as int)[i as int] != p@[i as int]);
            return false;
        }
        i = i + 1;
    }
    assert(s@.subrange(0, p@.len() as int) =~= p@);
    true
}

fn copy_range(s: &Vec<char>, from: usize, to: usize) -> (res: Vec<char>)
    requires
        from <= to <= s.len(),
    ensures
        res@ == s@.subrange(from as int, to as int),
{
    let mut res: Vec<char> = Vec::new();
    let mut k: usize = from;
    while k < to
        invariant
            from <= k <= to <= s.len(),
            res@ == s@.subrange(from as int, k as int),
        decreases to - k,
    {
        res.push(s[k]);
        assert(s@.subrange(from as int, k + 1) == s@.subrange(from as int, k as int).push(
            s@[k as int],
        ));
        k = k + 1;
    }
    res
}

fn strip_prefix_chars(s: Vec<char>, p: &Vec<char>) -> (res: Vec<char>)
    ensures
        res@ == strip_prefix_or_keep(s@, p@),
{
    if has_prefix(&s, p) {
        copy_range(&s, p.len(), s.len())
    } else {
        s
    }
}

fn replace_chars(s: &Vec<char>, from: char, to: char) -> (res: Vec<char>)
    ensures
        res@ == replace_char(s@, from, to),
{
    let mut res: Vec<char> = Vec::new();
    let mut i: usize = 0;
    while i < s.len()
        invariant
            i <= s.len(),
            res@ == replace_char(s@.take(i as int), from, to),
        decreases s.len() - i,
    {
        let c = s[i];
        res.push(if c == from { to } else { c });
        assert(replace_char(s@.take(i + 1), from, to) =~= replace_char(s@.take(i as int), from, to).push(
            if c == from { to } else { c },
        ));
        i = i + 1;
    }
    assert(s@.take(s.len() as int) == s@);
    res
}

fn find_last_dot(s: &Vec<char>) -> (res: Option<usize>)
    ensures
        match res {
            Some(k) => last_dot(s@) == Some(k as int),
            None => last_dot(s@) is None,
        },
        res matches Some(k) ==> k < s.len(),
{
    let mut j: usize = s.len();
    assert(s@.take(j as int) == s@);
    while j > 0
        invariant
            j <= s.len(),
            last_dot(s@) == last_dot(s@.take(j as int)),
        decreases j,
    {
        assert(s@.take(j as int).drop_last() == s@.take(j - 1));
        if s[j - 1] == '.' {
            return Some(j - 1);
        }
        j = j - 1;
    }
    None
}

fn stem_chars(name: &Vec<char>) -> (res: Option<Vec<char>>)
    ensures
        match res {
            Some(v) => file_stem(name@) == Some(v@),
            None => file_stem(name@) is None,
        },
{
    let n = name.len();
    if n == 0 || (n == 1 && name[0] == '.') || (n == 2 && name[0] == '.' && name[1] == '.') {
        proof {
            if n == 1 {
                assert(name@ =~= seq!['.']);
            }
            if n == 2 {
                assert(name@ =~= seq!['.', '.']);
            }
        }
        return None;
    }
    assert(name@ != seq!['.']);
    assert(name@ != seq!['.', '.']) by {
        if name@ == seq!['.', '.'] {
            assert(name@.len() == 2);
        }
    }
    match find_last_dot(name) {
        None => Some(copy_range(name, 0, n)),
        Some(k) => if k == 0 {
            Some(copy_range(name, 0, n))
        } else {
            Some(copy_range(name, 0, k))
        },
    }
}

fn archive_prefix_chars() -> (res: Vec<char>)
    ensures
        res@ == archive_prefix(),
{
    let mut v: Vec<char> = Vec::new();
    v.push('a');
    v.push('r');
    v.push('c');
    v.push('h');
    v.push('i');
    v.push('v');
    v.push('e');
    v.push('_');
    assert(v@ =~= archive_prefix());
    v
}

fn www_prefix_chars() -> (res: Vec<char>)
    ensures
        res@ == www_prefix(),
{
    let mut v: Vec<char> = Vec::new();
    v.push('w');
    v.push('w');
    v.push('w');
    v.push('.');
    assert(v@ =~= www_prefix());
    v
}

/// Whether the directory entry `name` is an archive file: its extension
/// is `txt`.
pub fn is_archive_file(name: &str) -> (res: bool)
    ensures
        res == (file_extension(name@) == Some(seq!['t', 'x', 't'])),
{
    let cs = chars_of(name);
    let n = cs.len();
    if n == 0 || (n == 1 && cs[0] == '.') || (n == 2 && cs[0] == '.' && cs[1] == '.') {
        proof {
            if n == 1 {
                assert(name@ =~= seq!['.']);
            }
            if n == 2 {
                assert(name@ =~= seq!['.', '.']);
            }
        }
        return false;
    }
    assert(cs@ != seq!['.']);
    assert(cs@ != seq!['.', '.']) by {
        if cs@ == seq!['.', '.'] {
            assert(cs@.len() == 2);
        }
    }
    match find_last_dot(&cs) {
        None => false,
        Some(k) => {
            if k == 0 {
                false
            } else {
                let ext = copy_range(&cs, k + 1, n);
                assert(cs@.skip(k + 1) =~= ext@);
                let res = ext.len() == 3 && ext[0] == 't' && ext[1] == 'x' && ext[2] == 't';
                proof {
                    if res {
                        assert(ext@ =~= seq!['t', 'x', 't']);
                    } else if ext@ == seq!['t', 'x', 't'] {
                        assert(ext@.len() == 3 && ext@[0] == 't' && ext@[1] == 'x' && ext@[2] == 't');
                    }
                }
                res
            }
        },
    }
}

/// The key the archive file `name` is stored under.
pub fn archive_key_of(name: &str) -> (res: String)
    ensures
        res@ == archive_key(name@),
{
    let cs = chars_of(name);
    match stem_chars(&cs) {
        Some(stem) => {
            let key = strip_prefix_chars(stem, &archive_prefix_chars());
            string_of(key.as_slice())
        },
        None => String::new(),
    }
}

/// The domain shown for the archive file `name`.
pub fn domain_name(name: &str) -> (res: String)
    ensures
        res@ == domain_of_file(name@),
{
    let cs = chars_of(name);
    match stem_chars(&cs) {
        Some(stem) => {
            let key = strip_prefix_chars(stem, &archive_prefix_chars());
            let dotted = replace_chars(&key, '_', '.');
            let shown = strip_prefix_chars(dotted, &www_prefix_chars());
            string_of(shown.as_slice())
        },
        None => String::new(),
    }
}

/// The key `domain` is stored under: its dots turned into underscores.
pub fn domain_key_of(domain: &str) -> (res: String)
    ensures
        res@ == domain_key(domain@),
{
    let cs = chars_of(domain);
    let key = replace_chars(&cs, '.', '_');
    string_of(key.as_slice())
}


/// A domain stored by the harvester is shown by the manager as the same
/// domain, when it holds no underscore and does not start with `www.`.
pub proof fn lemma_stored_domain_shown(domain: Seq<char>)
    requires
        !domain.contains('_'),
        strip_prefix_or_keep(domain, www_prefix()) == domain,
    ensures
        domain_of_file(crate::paths::archive_file_name(domain_key(domain))) == domain,
{
    let key = domain_key(domain);
    let name = crate::paths::archive_file_name(key);
    let stem = archive_prefix() + key;
    assert(crate::paths::archive_file_name(key) =~= stem + seq!['.', 't', 'x', 't']);
    assert(!key.contains('.')) by {
        if key.contains('.') {
            let k = choose|k: int| 0 <= k < key.len() && key[k] == '.';
            assert(key[k] == (if domain[k] == '.' { '_' } else { domain[k] }));
        }
    }
    let n = name.len();
    assert(name.drop_last() =~= stem + seq!['.', 't', 'x']);
    assert(name.drop_last().drop_last() =~= stem + seq!['.', 't']);
    assert(name.drop_last().drop_last().drop_last() =~= stem + seq!['.']);
    let s1 = stem + seq!['.'];
    let s2 = stem + seq!['.', 't'];
    let s3 = stem + seq!['.', 't', 'x'];
    assert(last_dot(s1) == Some(stem.len() as int));
    assert(s2.drop_last() =~= s1);
    assert(s2.last() == 't');
    assert(last_dot(s2) == last_dot(s1));
    assert(s3.drop_last() =~= s2);
    assert(s3.last() == 'x');
    assert(last_dot(s3) == last_dot(s2));
    assert(name.drop_last() =~= s3);
    assert(name.last() == 't');
    assert(last_dot(name) == last_dot(s3));
    assert(last_dot(name) == Some(stem.len() as int));
    assert(name.len() > 2);
    assert(name != seq!['.']);
    assert(name != seq!['.', '.']);
    assert(name.subrange(0, stem.len() as int) =~= stem);
    assert(file_stem(name) == Some(stem));
    assert(stem.subrange(0, 8) =~= archive_prefix());
    assert(stem.skip(8) =~= key);
    assert(replace_char(key, '_', '.') =~= domain) by {
        assert forall|k: int| 0 <= k < domain.len() implies replace_char(key, '_', '.')[k]
            == domain[k] by {
            assert(domain[k] != '_');
        }
    }
}

} // verus!
