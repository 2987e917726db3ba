//! Where the addresses of a run come from: the lines of a list file, then the
//! addresses given literally.

use vstd::prelude::*;
use vstd::slice::*;
use vstd::string::*;
use vstd::utf8::*;
use crate::dedup::{lemma_unique_prefix, unique};
use crate::text::{lemma_trimmed_twice, opt_view, trim, trimmed, views};

verus! {

/// `core::str::Utf8Error` of std, which tells why bytes are no UTF-8. The
/// library looks at none of it.
#[verifier::external_type_specification]
#[verifier::external_body]
pub struct ExUtf8Error(core::str::Utf8Error);

/// `core::str::from_utf8` accepts exactly the byte strings that are well-formed
/// UTF-8, and the string slice it hands back has the very bytes it was given.
pub assume_specification[ core::str::from_utf8 ](v: &[u8]) -> (r: Result<
    &str,
    core::str::Utf8Error,
>)
    ensures
        r is Ok <==> valid_utf8(v@),
        r matches Ok(s) ==> s.spec_bytes() == v@,
;

/// The length of the first line of `bytes`: the number of bytes before the
/// first line feed, or before the end where there is none.
pub open spec fn line_len(bytes: Seq<u8>) -> nat
    decreases bytes.len(),
{
    if bytes.len() == 0 || bytes[0] == 0x0A {
        0
    } else {
        1 + line_len(bytes.drop_first())
    }
}

/// Whether a character sequence opens a comment.
pub open spec fn is_comment(t: Seq<char>) -> bool {
    t.len() > 0 && t[0] == '#'
}

/// The address that one line of a list file stands for, if any: the line's
/// text without the white space around it, unless that is empty or a comment.
/// A line that is not well-formed UTF-8 stands for nothing.
pub open spec fn entry(line: Seq<u8>) -> Option<Seq<char>> {
    if valid_utf8(line) {
        let t = trimmed(decode_utf8(line));
        if t.len() == 0 || is_comment(t) {
            None
        } else {
            Some(t)
        }
    } else {
        None
    }
}

/// The addresses that a list file with the content `bytes` names, in the
/// order of its lines. Lines end at a line feed or at the end of the file.
pub open spec fn listed(bytes: Seq<u8>) -> Seq<Seq<char>>
    decreases bytes.len(),
{
    let k = line_len(bytes);
    let head = match entry(bytes.take(k as int)) {
        Some(u) => seq![u],
        None => seq![],
    };
    if k < bytes.len() {
        head + listed(bytes.skip(k as int + 1))
    } else {
        head
    }
}

/// The content of a list file that may be absent.
pub open spec fn content_view(file: Option<&[u8]>) -> Option<Seq<u8>> {
    match file {
        Some(content) => Some(content@),
        None => None,
    }
}

/// The addresses of a run before any is struck out: those that the list file
/// names, where its content could be read, then the literal ones.
pub open spec fn candidates(file: Option<Seq<u8>>, literal: Seq<Seq<char>>) -> Seq<Seq<char>> {
    match file {
        Some(content) => listed(content) + literal,
        None => literal,
    }
}

/// A run of bytes without a line feed, followed by a line feed or by the end,
/// is the first line.
pub proof fn lemma_line_len(bytes: Seq<u8>, k: int)
    requires
        0 <= k <= bytes.len(),
        forall|j: int| 0 <= j < k ==> #[trigger] bytes[j] != 0x0A,
        k < bytes.len() ==> bytes[k] == 0x0A,
    ensures
        line_len(bytes) == k,
    decreases k,
{
    if k > 0 {
        let t = bytes.drop_first();
        assert forall|j: int| 0 <= j < k - 1 implies #[trigger] t[j] != 0x0A by {
            assert(t[j] == bytes[j + 1]);
        }
        lemma_line_len(t, k - 1);
    }
}

/// Every address that a list file names is a line of it as trimming leaves
/// it: not empty, no comment, and without white space at either end.
pub proof fn lemma_listed_entries(bytes: Seq<u8>)
    ensures
        forall|i: int|
            0 <= i < listed(bytes).len() ==> ({
                let u = #[trigger] listed(bytes)[i];
                u.len() > 0 && !is_comment(u) && trimmed(u) == u
            }),
    decreases bytes.len(),
{
    let k = line_len(bytes);
    let line = bytes.take(k as int);
    let head: Seq<Seq<char>> = match entry(line) {
        Some(u) => seq![u],
        None => seq![],
    };
    if valid_utf8(line) {
        lemma_trimmed_twice(decode_utf8(line));
    }
    if k < bytes.len() {
        let rest = listed(bytes.skip(k as int + 1));
        lemma_listed_entries(bytes.skip(k as int + 1));
        assert forall|i: int| 0 <= i < listed(bytes).len() implies {
            let u = #[trigger] listed(bytes)[i];
            u.len() > 0 && !is_comment(u) && trimmed(u) == u
        } by {
            if i >= head.len() {
                assert(listed(bytes)[i] == rest[i - head.len()]);
            }
        }
    }
}

/// The addresses that the list file names are visited before those that
/// only the command line names, in the order that the file gives.
pub proof fn lemma_file_first(content: Seq<u8>, literal: Seq<Seq<char>>)
    ensures
        unique(listed(content)).is_prefix_of(unique(candidates(Some(content), literal))),
{
    lemma_unique_prefix(listed(content), literal);
}

/// The first character of `s`, if it has one.
pub fn first_char(s: &str) -> (r: Option<char>)
    ensures
        r == (if s@.len() > 0 {
            Some(s@[0])
        } else {
            None
        }),
{
    broadcast use group_string_axioms;

    let mut it = s.chars();
    it.next()
}

/// Reads one line of a list file.
pub fn parse_line(line: &[u8]) -> (r: Option<String>)
    ensures
        opt_view(r) == entry(line@),
{
    match core::str::from_utf8(line) {
        Ok(s) => {
            proof {
                encode_utf8_decode_utf8(s@);
            }
            let t = trim(s);
            match first_char(t.as_str()) {
                None => None,
                Some(c) => if c == '#' {
                    None
                } else {
                    Some(t)
                },
            }
        },
        Err(_) => None,
    }
}

/// Reads the content of a list file: one address per line, with blank lines
/// and lines that begin with `#` left out.
pub fn parse_url_list(content: &[u8]) -> (r: Vec<String>)
    ensures
        views(r@) == listed(content@),
{
    let n = content.len();
    let mut out: Vec<String> = Vec::new();
    let mut start: usize = 0;
    let mut done = false;
    assert(content@.skip(0) =~= content@);
    while !done
        invariant
            n == content.len(),
            start <= n,
            done ==> start == n,
            listed(content@) =~= views(out@) + (if done {
                seq![]
            } else {
                listed(content@.skip(start as int))
            }),
        decreases n - start + (if done { 0int } else { 1int }),
    {
        let ghost rest = content@.skip(start as int);
        let ghost before = views(out@);
        let mut end: usize = start;
        while end < n && content[end] != 0x0A
            invariant
                n == content.len(),
                start <= end <= n,
                forall|j: int| start <= j < end ==> #[trigger] content@[j] != 0x0A,
            decreases n - end,
        {
            end = end + 1;
        }
        proof {
            assert forall|j: int| 0 <= j < end - start implies #[trigger] rest[j] != 0x0A by {
                assert(rest[j] == content@[j + start]);
            }
            lemma_line_len(rest, end - start);
            assert(rest.take(end - start) =~= content@.subrange(start as int, end as int));
        }
        let line = slice_subrange(content, start, end);
        match parse_line(line) {
            Some(u) => {
                out.push(u);
                assert(views(out@) =~= before + seq![u@]);
            },
            None => {
                assert(views(out@) =~= before + seq![]);
            },
        }
        if end < n {
            assert(rest.skip(end - start + 1) =~= content@.skip(end + 1));
            start = end + 1;
        } else {
            start = n;
            done = true;
        }
    }
    assert(views(out@) + Seq::<Seq<char>>::empty() =~= views(out@));
    out
}

/// The warning for a list file that could not be opened. The run goes on
/// without the file.
pub fn open_warning(path: &str) -> (text: String)
    ensures
        text@ == "Warning: Could not open file '"@ + path@ + "'"@,
{
    let mut text = "Warning: Could not open file '".to_owned();
    text.append(path);
    text.append("'");
    text
}

/// Gathers the addresses of a run: those of the list file, where one was
/// read, followed by those given literally.
pub fn read_urls(file: Option<&[u8]>, cli_urls: Vec<String>) -> (r: Vec<String>)
    ensures
        views(r@) == candidates(content_view(file), views(cli_urls@)),
{
    let mut urls = match file {
        Some(content) => parse_url_list(content),
        None => Vec::new(),
    };
    let mut literal = cli_urls;
    let ghost a = urls@;
    let ghost b = literal@;
    urls.append(&mut literal);
    assert(views(urls@) =~= views(a) + views(b));
    urls
}

} // verus!
