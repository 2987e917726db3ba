//! The command line: an optional list file and the addresses given literally.

use vstd::prelude::*;
use vstd::string::*;
use crate::text::{opt_view, str_eq, views};

verus! {

/// Whether an argument has the shape of an option: it begins with two dashes.
pub open spec fn is_flag(a: Seq<char>) -> bool {
    a.len() >= 2 && a[0] == '-' && a[1] == '-'
}

/// Tells whether `s` begins with two dashes.
pub fn has_flag_shape(s: &str) -> (r: bool)
    ensures
        r == is_flag(s@),
{
    broadcast use group_string_axioms;

    let mut it = s.chars();
    let first = it.next();
    let second = it.next();
    first == Some('-') && second == Some('-')
}

/// The option that names the list file.
pub open spec fn file_flag() -> Seq<char> {
    "--file"@
}

/// What a command line asks for.
#[derive(Debug, PartialEq, Eq)]
pub struct Arguments {
    /// The list file to read addresses from, if one was named.
    pub file_path: Option<String>,
    /// The addresses given literally, in the order in which they were given.
    pub urls: Vec<String>,
}

/// The mathematical content of [`Arguments`].
pub struct ArgumentsView {
    /// The list file, if one was named.
    pub file_path: Option<Seq<char>>,
    /// The literal addresses, in order.
    pub urls: Seq<Seq<char>>,
}

impl ArgumentsView {
    /// Whether the command line names anything to work on.
    pub open spec fn has_input(self) -> bool {
        self.file_path is Some || self.urls.len() > 0
    }

    /// The reading of a command line `self` followed by one read as `rest`:
    /// a list file named later replaces one named earlier, and the literal
    /// addresses follow one another.
    pub open spec fn followed_by(self, rest: ArgumentsView) -> ArgumentsView {
        ArgumentsView {
            file_path: if rest.file_path is Some {
                rest.file_path
            } else {
                self.file_path
            },
            urls: self.urls + rest.urls,
        }
    }
}

impl View for Arguments {
    type V = ArgumentsView;

    open spec fn view(&self) -> ArgumentsView {
        ArgumentsView { file_path: opt_view(self.file_path), urls: views(self.urls@) }
    }
}

/// The reading of the arguments `args`, from left to right:
/// `--file` followed by another argument names the list file and uses up
/// both; any other argument that begins with two dashes is passed over;
/// every other argument is a literal address.
pub open spec fn scan(args: Seq<Seq<char>>) -> ArgumentsView
    decreases args.len(),
{
    if args.len() == 0 {
        ArgumentsView { file_path: None, urls: seq![] }
    } else if args[0] == file_flag() && args.len() >= 2 {
        ArgumentsView { file_path: Some(args[1]), urls: seq![] }.followed_by(scan(args.skip(2)))
    } else if is_flag(args[0]) {
        scan(args.skip(1))
    } else {
        ArgumentsView { file_path: None, urls: seq![args[0]] }.followed_by(scan(args.skip(1)))
    }
}

/// Reading three command lines one after another gives the same whichever
/// two are joined first.
pub proof fn lemma_followed_by_associative(a: ArgumentsView, b: ArgumentsView, c: ArgumentsView)
    ensures
        a.followed_by(b.followed_by(c)) == a.followed_by(b).followed_by(c),
{
    assert(a.urls + (b.urls + c.urls) =~= (a.urls + b.urls) + c.urls);
}

/// Reads the arguments of the process, the program name left out.
pub fn scan_args(args: &Vec<String>) -> (r: Arguments)
    ensures
        r@ == scan(views(args@)),
{
    let ghost all = views(args@);
    let mut file_path: Option<String> = None;
    let mut urls: Vec<String> = Vec::new();
    let mut i: usize = 0;
    assert(all.skip(0) =~= all);
    while i < args.len()
        invariant
            i <= args.len(),
            all == views(args@),
            scan(all) =~~= (Arguments { file_path, urls })@.followed_by(scan(all.skip(i as int))),
        decreases args.len() - i,
    {
        let ghost before = (Arguments { file_path, urls })@;
        let ghost rest = all.skip(i as int);
        let ghost one: ArgumentsView;
        assert(rest[0] == args@[i as int]@);
        if str_eq(args[i].as_str(), "--file") && i + 1 < args.len() {
            proof {
                one = ArgumentsView { file_path: Some(rest[1]), urls: seq![] };
                assert(rest[1] == args@[i + 1]@);
                assert(rest.skip(2) =~= all.skip(i + 2));
            }
            file_path = Some(args[i + 1].clone());
            i = i + 2;
        } else if has_flag_shape(args[i].as_str()) {
            proof {
                one = ArgumentsView { file_path: None, urls: seq![] };
                assert(rest.skip(1) =~= all.skip(i + 1));
            }
            i = i + 1;
        } else {
            proof {
                one = ArgumentsView { file_path: None, urls: seq![rest[0]] };
                assert(rest.skip(1) =~= all.skip(i + 1));
            }
            urls.push(args[i].clone());
            i = i + 1;
            assert(views(urls@) =~= before.urls + seq![rest[0]]);
        }
        proof {
            let after = scan(all.skip(i as int));
            assert(scan(rest) =~~= one.followed_by(after));
            assert((Arguments { file_path, urls })@ =~~= before.followed_by(one));
            lemma_followed_by_associative(before, one, after);
        }
    }
    assert(scan(all) =~~= (Arguments { file_path, urls })@);
    Arguments { file_path, urls }
}

/// The failure of a command line that names nothing to work on.
#[derive(Clone, Copy, Debug, PartialEq, Eq)]
pub struct UsageError {}

impl UsageError {
    /// The status with which a process that was started this way ends.
    pub fn exit_code(&self) -> (code: i32)
        ensures
            code == 2,
    {
        2
    }

    /// The help text that a process that was started this way prints.
    pub fn usage(&self) -> (text: String)
        ensures
            text@ == "Usage: website_checker [--file sites.txt] [URL ...]"@,
    {
        "Usage: website_checker [--file sites.txt] [URL ...]".to_owned()
    }
}

/// Reads the arguments of the process and refuses a command line that names
/// neither a list file nor a literal address.
pub fn parse_args(args: &Vec<String>) -> (r: Result<Arguments, UsageError>)
    ensures
        r is Ok <==> scan(views(args@)).has_input(),
        r matches Ok(a) ==> a@ == scan(views(args@)),
{
    let a = scan_args(args);
    if a.file_path.is_none() && a.urls.len() == 0 {
        Err(UsageError {  })
    } else {
        Ok(a)
    }
}

} // verus!
