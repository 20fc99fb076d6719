//! What a command line asks for: whether to keep the operation lists, and
//! which input to dump, of which kind.

use vstd::prelude::*;
use vstd::utf8::encode_utf8;

verus! {

/// The exit code of a run that dumped its input.
pub const EXIT_SUCCESS: u8 = 0;

/// The exit code of a run with the wrong number of arguments.
pub const EXIT_USAGE: u8 = 1;

/// The exit code of a run whose input is a local path that does not exist.
pub const EXIT_NO_SUCH_FILE: u8 = 2;

/// What an input is, by its name.
#[derive(Clone, Copy, Debug, PartialEq, Eq, Structural)]
pub enum InputKind {
    /// A URL: a ZIP container that is read over HTTP by range requests.
    Remote,
    /// A local path that ends in `.zip`: a ZIP container.
    LocalZip,
    /// Any other local path: a payload.
    LocalPayload,
}

/// Whether `s` begins with `prefix`.
pub open spec fn has_prefix(s: Seq<u8>, prefix: Seq<u8>) -> bool {
    prefix.len() <= s.len() && s.subrange(0, prefix.len() as int) == prefix
}

/// Whether `s` ends with `suffix`.
pub open spec fn has_suffix(s: Seq<u8>, suffix: Seq<u8>) -> bool {
    suffix.len() <= s.len() && s.subrange(s.len() - suffix.len(), s.len() as int) == suffix
}

/// The bytes of `http://`.
pub open spec fn http_scheme() -> Seq<u8> {
    seq![0x68u8, 0x74u8, 0x74u8, 0x70u8, 0x3au8, 0x2fu8, 0x2fu8]
}

/// The bytes of `https://`.
pub open spec fn https_scheme() -> Seq<u8> {
    seq![0x68u8, 0x74u8, 0x74u8, 0x70u8, 0x73u8, 0x3au8, 0x2fu8, 0x2fu8]
}

/// The bytes of `.zip`.
pub open spec fn zip_suffix() -> Seq<u8> {
    seq![0x2eu8, 0x7au8, 0x69u8, 0x70u8]
}

/// The bytes of `-l`.
pub open spec fn list_flag() -> Seq<u8> {
    seq![0x2du8, 0x6cu8]
}

/// What the input named by the bytes `name` is: remote where the name
/// begins with `http://` or `https://`, else a container where it ends in
/// `.zip`, else a payload.
pub open spec fn input_kind(name: Seq<u8>) -> InputKind {
    if has_prefix(name, http_scheme()) || has_prefix(name, https_scheme()) {
        InputKind::Remote
    } else if has_suffix(name, zip_suffix()) {
        InputKind::LocalZip
    } else {
        InputKind::LocalPayload
    }
}

/// Whether the `wanted.len()` bytes of `bytes` from `at` on are `wanted`.
fn matches_at(bytes: &[u8], at: usize, wanted: &[u8]) -> (yes: bool)
    requires
        at + wanted.len() <= bytes.len(),
    ensures
        yes == (bytes@.subrange(at as int, at + wanted@.len()) == wanted@),
{
    let n: usize = wanted.len();
    let total: usize = bytes.len();
    let mut i: usize = 0;
    while i < n
        invariant
            i <= n,
            n == wanted@.len(),
            total == bytes@.len(),
            at + n <= total,
            forall|j: int| 0 <= j < i ==> bytes@[at + j] == wanted@[j],
        decreases n - i,
    {
        if bytes[at + i] != wanted[i] {
            return false;
        }
        i = i + 1;
    }
    assert(bytes@.subrange(at as int, at + n) =~= wanted@);
    true
}

/// Whether `bytes` begins with `prefix`.
fn starts_with(bytes: &[u8], prefix: &[u8]) -> (yes: bool)
    ensures
        yes == has_prefix(bytes@, prefix@),
{
    prefix.len() <= bytes.len() && matches_at(bytes, 0, prefix)
}

/// Whether `bytes` ends with `suffix`.
fn ends_with(bytes: &[u8], suffix: &[u8]) -> (yes: bool)
    ensures
        yes == has_suffix(bytes@, suffix@),
{
    suffix.len() <= bytes.len() && matches_at(bytes, bytes.len() - suffix.len(), suffix)
}

/// What the input named `name` is.
pub fn classify(name: &str) -> (kind: InputKind)
    ensures
        kind == input_kind(encode_utf8(name@)),
{
    let bytes = name.as_bytes();
    let http: [u8; 7] = [0x68, 0x74, 0x74, 0x70, 0x3a, 0x2f, 0x2f];
    let https: [u8; 8] = [0x68, 0x74, 0x74, 0x70, 0x73, 0x3a, 0x2f, 0x2f];
    let zip: [u8; 4] = [0x2e, 0x7a, 0x69, 0x70];
    if starts_with(bytes, http.as_slice()) || starts_with(bytes, https.as_slice()) {
        InputKind::Remote
    } else if ends_with(bytes, zip.as_slice()) {
        InputKind::LocalZip
    } else {
        InputKind::LocalPayload
    }
}

/// What a command line asks for.
#[derive(Debug)]
pub struct Invocation {
    /// Whether the operation lists of the partitions are kept in the output.
    pub show_ops: bool,
    /// The path or URL of the input.
    pub input: String,
    /// What the input is.
    pub kind: InputKind,
}

/// The words of a command line, each as the bytes that encode it.
pub open spec fn words(args: Seq<String>) -> Seq<Seq<u8>> {
    Seq::new(args.len(), |i: int| encode_utf8(args[i]@))
}

/// What the command line `args` asks for, the name of the program being
/// its first word. One or two words must follow. The operation lists are
/// kept where the word after the name is `-l`; the input is the last word,
/// also where that is the only one and reads `-l`.
pub open spec fn invocation_of(args: Seq<Seq<u8>>) -> Option<(bool, InputKind)> {
    if args.len() != 2 && args.len() != 3 {
        None
    } else {
        Some((args[1] == list_flag(), input_kind(args.last())))
    }
}

impl Invocation {
    /// Reads the command line. A line with the wrong number of words gives
    /// the exit code for that.
    pub fn parse(args: &Vec<String>) -> (result: Result<Invocation, u8>)
        ensures
            match result {
                Ok(invocation) => {
                    &&& invocation_of(words(args@)) == Some((invocation.show_ops, invocation.kind))
                    &&& invocation.input@ == args@.last()@
                },
                Err(code) => code == EXIT_USAGE && invocation_of(words(args@)).is_none(),
            },
    {
        if args.len() != 2 && args.len() != 3 {
            return Err(EXIT_USAGE);
        }
        let flag: [u8; 2] = [0x2d, 0x6c];
        let first = args[1].as_str().as_bytes();
        let show_ops = first.len() == 2 && matches_at(first, 0, flag.as_slice());
        assert(first@.len() == 2 ==> first@.subrange(0, 2) =~= first@);
        let input = args[args.len() - 1].clone();
        let kind = classify(args[args.len() - 1].as_str());
        Ok(Invocation { show_ops, input, kind })
    }
}

} // verus!
