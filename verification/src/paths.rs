//! Where the archive lives: the archive directory, the per-domain archive
//! files, the screenshot files and the short hash that names them.
//!
//! Paths are strings with `/` as separator, joined as `PathBuf::push` joins
//! them on Unix.
use sha2::Digest;
use vstd::prelude::*;
use crate::text::{chars_of, string_of};

verus! {

/// `dir` with `name` pushed onto it (`PathBuf::push` on Unix): an absolute
/// `name` replaces `dir`; otherwise a separator goes between the two unless
/// `dir` is empty or already ends with one.
pub open spec fn join_path(dir: Seq<char>, name: Seq<char>) -> Seq<char> {
    if name.len() > 0 && name[0] == '/' {
        name
    } else if dir.len() == 0 || dir.last() == '/' {
        dir + name
    } else {
        dir + seq!['/'] + name
    }
}

/// Pushes `name` onto the path `dir`.
pub fn join(dir: &str, name: &str) -> (res: String)
    ensures
        res@ == join_path(dir@, name@),
{
    let d = chars_of(dir);
    let n = chars_of(name);
    if n.len() > 0 && n[0] == '/' {
        return string_of(n.as_slice());
    }
    let mut res = string_of(d.as_slice());
    if d.len() > 0 && d[d.len() - 1] != '/' {
        res.append("/");
        proof {
            reveal_strlit("/");
        }
    }
    res.append(name);
    res
}

/// Name of the application's directory under the user data directory.
pub open spec fn app_dir_name() -> Seq<char> {
    seq!['c', 'l', 'i', 'p', 'p', 'a']
}

/// Name of the screenshot directory under the archive directory.
pub open spec fn screenshot_dir_name() -> Seq<char> {
    seq!['s', 'c', 'r', 'e', 'e', 'n', 's', 'h', 'o', 't', 's']
}

/// The archive directory under the user data directory `data_dir`.
pub open spec fn archive_dir_of(data_dir: Seq<char>) -> Seq<char> {
    join_path(data_dir, app_dir_name())
}

/// The screenshot directory under the user data directory `data_dir`.
pub open spec fn screenshot_dir_of(data_dir: Seq<char>) -> Seq<char> {
    join_path(archive_dir_of(data_dir), screenshot_dir_name())
}

/// The archive directory, `clippa` under the user data directory
/// `data_dir`. The caller creates it.
pub fn get_archive_dir(data_dir: &str) -> (res: String)
    ensures
        res@ == archive_dir_of(data_dir@),
{
    proof {
        reveal_strlit("clippa");
    }
    join(data_dir, "clippa")
}

/// The screenshot directory, `screenshots` under the archive directory of
/// the user data directory `data_dir`. The caller creates it.
pub fn get_screenshot_dir(data_dir: &str) -> (res: String)
    ensures
        res@ == screenshot_dir_of(data_dir@),
{
    let dir = get_archive_dir(data_dir);
    proof {
        reveal_strlit("screenshots");
    }
    join(dir.as_str(), "screenshots")
}

/// Name of the archive file of `domain`: `archive_{domain}.txt`.
pub open spec fn archive_file_name(domain: Seq<char>) -> Seq<char> {
    seq!['a', 'r', 'c', 'h', 'i', 'v', 'e', '_'] + domain + seq!['.', 't', 'x', 't']
}

/// The archive file of `domain` in the archive directory of the user data
/// directory `data_dir`.
pub fn get_archive_path(data_dir: &str, domain: &str) -> (res: String)
    ensures
        res@ == join_path(archive_dir_of(data_dir@), archive_file_name(domain@)),
{
    let dir = get_archive_dir(data_dir);
    let mut name = String::new();
    name.append("archive_");
    name.append(domain);
    name.append(".txt");
    proof {
        reveal_strlit("archive_");
        reveal_strlit(".txt");
        assert(name@ =~= archive_file_name(domain@));
    }
    join(dir.as_str(), name.as_str())
}

/// The SHA-256 digest of `data`.
pub uninterp spec fn sha256(data: Seq<u8>) -> Seq<u8>;

/// `sha2::Sha256::digest`: the result is the SHA-256 digest of `data`, 32
/// bytes long.
#[verifier::external_body]
fn sha256_digest(data: &[u8]) -> (res: Vec<u8>)
    ensures
        res@ == sha256(data@),
        res@.len() == 32,
{
    sha2::Sha256::digest(data).to_vec()
}

/// Lower-case hexadecimal digit of `n`.
pub open spec fn hex_digit(n: int) -> char {
    if n < 10 {
        (('0' as int) + n) as char
    } else {
        (('a' as int) + n - 10) as char
    }
}

/// `bytes` in lower-case hexadecimal, two digits per byte.
pub open spec fn hex_lower(bytes: Seq<u8>) -> Seq<char>
    decreases bytes.len(),
{
    if bytes.len() == 0 {
        seq![]
    } else {
        let b = bytes.last();
        hex_lower(bytes.drop_last()) + seq![hex_digit((b / 16) as int), hex_digit((b % 16) as int)]
    }
}

fn hex_char(n: u8) -> (c: char)
    requires
        n < 16,
    ensures
        c == hex_digit(n as int),
{
    if n < 10 {
        (('0' as u8) + n) as char
    } else {
        (('a' as u8) + n - 10) as char
    }
}

/// The first eight bytes of `digest` in lower-case hexadecimal.
pub fn digest_prefix_hex(digest: &[u8]) -> (res: String)
    requires
        digest@.len() >= 8,
    ensures
        res@ == hex_lower(digest@.take(8)),
        res@.len() == 16,
{
    let mut out: Vec<char> = Vec::new();
    let mut i: usize = 0;
    while i < 8
        invariant
            i <= 8 <= digest@.len(),
            out@ == hex_lower(digest@.take(i as int)),
            out@.len() == 2 * i,
        decreases 8 - i,
    {
        let b = digest[i];
        out.push(hex_char(b / 16));
        out.push(hex_char(b % 16));
        assert(digest@.take(i + 1).drop_last() == digest@.take(i as int));
        i = i + 1;
    }
    string_of(out.as_slice())
}

/// The hash that names the screenshot of `url`: the first eight bytes of
/// the SHA-256 digest of its UTF-8 bytes, in lower-case hexadecimal.
pub open spec fn url_hash_of(url: Seq<char>) -> Seq<char> {
    hex_lower(sha256(vstd::utf8::encode_utf8(url)).take(8))
}

/// The hash that names the screenshot of `url`.
pub fn url_hash(url: &str) -> (res: String)
    ensures
        res@ == url_hash_of(url@),
        res@.len() == 16,
{
    let digest = sha256_digest(url.as_bytes());
    digest_prefix_hex(digest.as_slice())
}

/// The screenshot file of `url`: `{hash}.png` in the screenshot directory
/// of the user data directory `data_dir`.
pub fn screenshot_path(data_dir: &str, url: &str) -> (res: String)
    ensures
        res@ == join_path(screenshot_dir_of(data_dir@), url_hash_of(url@) + seq!['.', 'p', 'n', 'g']),
{
    let dir = get_screenshot_dir(data_dir);
    let mut name = url_hash(url);
    name.append(".png");
    proof {
        reveal_strlit(".png");
    }
    join(dir.as_str(), name.as_str())
}

/// The file a screenshot of `url` is taken into before it is scaled:
/// `{hash}.tmp.png` in the screenshot directory of `data_dir`.
pub fn screenshot_tmp_path(data_dir: &str, url: &str) -> (res: String)
    ensures
        res@ == join_path(
            screenshot_dir_of(data_dir@),
            url_hash_of(url@) + seq!['.', 't', 'm', 'p', '.', 'p', 'n', 'g'],
        ),
{
    let dir = get_screenshot_dir(data_dir);
    let mut name = url_hash(url);
    name.append(".tmp.png");
    proof {
        reveal_strlit(".tmp.png");
    }
    join(dir.as_str(), name.as_str())
}

} // verus!
