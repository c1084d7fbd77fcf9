//! Resolution of raw command-line tokens into a [`Config`].
//!
//! The grammar, applied to the tokens after the program name, left to
//! right:
//! - `-n VALUE` or `--lines VALUE` supplies the line bound (default 10);
//! - `-c VALUE` or `--bytes VALUE` supplies the byte bound;
//! - every other token is a source name, except that a token of two or
//!   more characters starting with `-` is rejected as unexpected
//!   (a lone `-` names standard input and is an ordinary source).
//!
//! An option may be supplied at most once, and each needs a value token.
//! After scanning, an explicit line option together with a byte option is
//! rejected as a conflict before either value is validated; then the
//! values must be positive integers, a rejection echoing the offending
//! literal.  When no source is named, the single source `-` is assumed.

use crate::config::Config;
use crate::parse::parse_positive_int;
use crate::parse::literal_value;
use crate::parse::valid_count_literal;
use vstd::prelude::*;

verus! {

/// `t` is the line-bound option.
pub open spec fn is_lines_opt(t: Seq<char>) -> bool {
    t == "-n"@ || t == "--lines"@
}

/// `t` is the byte-bound option.
pub open spec fn is_bytes_opt(t: Seq<char>) -> bool {
    t == "-c"@ || t == "--bytes"@
}

/// `t` looks like an option: two or more characters starting with `-`.
pub open spec fn is_option_like(t: Seq<char>) -> bool {
    t.len() >= 2 && t[0] == '-'
}

pub open spec fn dup_lines_msg() -> Seq<char> {
    "the option -n cannot be used more than once"@
}

pub open spec fn dup_bytes_msg() -> Seq<char> {
    "the option -c cannot be used more than once"@
}

pub open spec fn missing_lines_msg() -> Seq<char> {
    "the option -n needs a value"@
}

pub open spec fn missing_bytes_msg() -> Seq<char> {
    "the option -c needs a value"@
}

pub open spec fn unexpected_arg_msg(t: Seq<char>) -> Seq<char> {
    "unexpected argument "@ + t
}

pub open spec fn conflict_msg() -> Seq<char> {
    "the option -n cannot be used with -c"@
}

pub open spec fn illegal_lines_msg(t: Seq<char>) -> Seq<char> {
    "illegal line count -- "@ + t
}

pub open spec fn illegal_bytes_msg(t: Seq<char>) -> Seq<char> {
    "illegal byte count -- "@ + t
}

/// What scanning has gathered: the explicit option values and the source
/// names seen so far.
pub struct ScanState {
    pub lines_tok: Option<Seq<char>>,
    pub bytes_tok: Option<Seq<char>>,
    pub files: Seq<Seq<char>>,
}

/// Outcome of scanning the token list.
pub enum Scan {
    Done(ScanState),
    Fail(Seq<char>),
}

/// The scan state before any token is read.
pub open spec fn initial_scan() -> ScanState {
    ScanState { lines_tok: None, bytes_tok: None, files: Seq::empty() }
}

/// Scans `args` left to right, starting from `st`.
pub open spec fn scan_tokens(args: Seq<Seq<char>>, st: ScanState) -> Scan
    decreases args.len(),
{
    if args.len() == 0 {
        Scan::Done(st)
    } else {
        let t = args[0];
        if is_lines_opt(t) {
            if st.lines_tok is Some {
                Scan::Fail(dup_lines_msg())
            } else if args.len() == 1 {
                Scan::Fail(missing_lines_msg())
            } else {
                scan_tokens(
                    args.skip(2),
                    ScanState {
                        lines_tok: Some(args[1]),
                        bytes_tok: st.bytes_tok,
                        files: st.files,
                    },
                )
            }
        } else if is_bytes_opt(t) {
            if st.bytes_tok is Some {
                Scan::Fail(dup_bytes_msg())
            } else if args.len() == 1 {
                Scan::Fail(missing_bytes_msg())
            } else {
                scan_tokens(
                    args.skip(2),
                    ScanState {
                        lines_tok: st.lines_tok,
                        bytes_tok: Some(args[1]),
                        files: st.files,
                    },
                )
            }
        } else if is_option_like(t) {
            Scan::Fail(unexpected_arg_msg(t))
        } else {
            scan_tokens(
                args.skip(1),
                ScanState {
                    lines_tok: st.lines_tok,
                    bytes_tok: st.bytes_tok,
                    files: st.files.push(t),
                },
            )
        }
    }
}

/// The source list after defaulting: `-` alone when none was named.
pub open spec fn file_list(files: Seq<Seq<char>>) -> Seq<Seq<char>> {
    if files.len() == 0 {
        seq!["-"@]
    } else {
        files
    }
}

/// A resolved command line: either a validated configuration or the
/// message of the usage error.
pub enum Resolution {
    Accept { files: Seq<Seq<char>>, lines: nat, bytes: Option<nat> },
    Reject(Seq<char>),
}

/// The meaning of a raw token list: scan, then reject a conflict, then
/// validate the numeric values, then default the source list.
pub open spec fn resolve(args: Seq<Seq<char>>) -> Resolution {
    match scan_tokens(args, initial_scan()) {
        Scan::Fail(m) => Resolution::Reject(m),
        Scan::Done(st) => {
            if st.lines_tok is Some && st.bytes_tok is Some {
                Resolution::Reject(conflict_msg())
            } else {
                let lt = if st.lines_tok is Some {
                    st.lines_tok->0
                } else {
                    "10"@
                };
                if !valid_count_literal(lt) {
                    Resolution::Reject(illegal_lines_msg(lt))
                } else {
                    match st.bytes_tok {
                        Some(bt) => if !valid_count_literal(bt) {
                            Resolution::Reject(illegal_bytes_msg(bt))
                        } else {
                            Resolution::Accept {
                                files: file_list(st.files),
                                lines: literal_value(lt),
                                bytes: Some(literal_value(bt)),
                            }
                        },
                        None => Resolution::Accept {
                            files: file_list(st.files),
                            lines: literal_value(lt),
                            bytes: None,
                        },
                    }
                }
            }
        },
    }
}

/// The byte bound as a mathematical option.
pub open spec fn opt_nat(o: Option<usize>) -> Option<nat> {
    match o {
        Some(x) => Some(x as nat),
        None => None,
    }
}

/// Law: supplying both an explicit line option and a byte option is
/// rejected as a usage conflict, whatever their values, before either
/// value is validated.
pub proof fn lemma_conflict_rejected(args: Seq<Seq<char>>)
    requires
        scan_tokens(args, initial_scan()) matches Scan::Done(st) && st.lines_tok is Some
            && st.bytes_tok is Some,
    ensures
        resolve(args) == Resolution::Reject(conflict_msg()),
{
}

/// `s` and the literal `lit` hold the same characters.
fn tok_is(s: &String, lit: &str) -> (b: bool)
    ensures
        b == (s@ == lit@),
{
    let l = String::from_str(lit);
    s.eq(&l)
}

/// `s` looks like an option token.
fn is_option_token(s: &String) -> (b: bool)
    ensures
        b == is_option_like(s@),
{
    let st = s.as_str();
    if st.unicode_len() >= 2 {
        let c = st.get_char(0);
        c == '-'
    } else {
        false
    }
}

/// Resolves the command-line tokens after the program name into a
/// configuration, or the message of the usage error that rejects them.
pub fn get_args(args: &Vec<String>) -> (r: Result<Config, String>)
    ensures
        r matches Ok(c) ==> (resolve(args.deep_view()) matches Resolution::Accept {
            files,
            lines,
            bytes,
        } && c.wf() && c.files_view() == files && c.lines_limit() as nat == lines && opt_nat(
            c.bytes_limit(),
        ) == bytes),
        r matches Err(e) ==> (resolve(args.deep_view()) matches Resolution::Reject(m) && e@ == m),
{
    let ghost all: Seq<Seq<char>> = args.deep_view();
    let mut i: usize = 0;
    let mut lines_tok: Option<String> = None;
    let mut bytes_tok: Option<String> = None;
    let mut files: Vec<String> = Vec::new();
    proof {
        assert(all.skip(0) =~= all);
        assert(files.deep_view() =~= Seq::<Seq<char>>::empty());
        assert(ScanState {
            lines_tok: lines_tok.deep_view(),
            bytes_tok: bytes_tok.deep_view(),
            files: files.deep_view(),
        } == initial_scan());
    }
    while i < args.len()
        invariant
            all == args.deep_view(),
            0 <= i <= args@.len(),
            all.len() == args@.len(),
            scan_tokens(all, initial_scan()) == scan_tokens(
                all.skip(i as int),
                ScanState {
                    lines_tok: lines_tok.deep_view(),
                    bytes_tok: bytes_tok.deep_view(),
                    files: files.deep_view(),
                },
            ),
        decreases args@.len() - i,
    {
        let ghost rem = all.skip(i as int);
        let ghost st = ScanState {
            lines_tok: lines_tok.deep_view(),
            bytes_tok: bytes_tok.deep_view(),
            files: files.deep_view(),
        };
        proof {
            assert(rem.len() == all.len() - i);
            assert(rem[0] == all[i as int]);
            assert(all[i as int] == args@[i as int]@);
        }
        let t = &args[i];
        assert(t@ == rem[0]);
        if tok_is(t, "-n") || tok_is(t, "--lines") {
            if lines_tok.is_some() {
                return Err(String::from_str("the option -n cannot be used more than once"));
            }
            if i + 1 >= args.len() {
                return Err(String::from_str("the option -n needs a value"));
            }
            proof {
                assert(rem[1] == all[i + 1]);
                assert(all[i + 1] == args@[i + 1]@);
                assert(rem.skip(2) =~= all.skip(i + 2));
            }
            let v = args[i + 1].clone();
            assert(v@ == rem[1]);
            lines_tok = Some(v);
            i = i + 2;
        } else if tok_is(t, "-c") || tok_is(t, "--bytes") {
            if bytes_tok.is_some() {
                return Err(String::from_str("the option -c cannot be used more than once"));
            }
            if i + 1 >= args.len() {
                return Err(String::from_str("the option -c needs a value"));
            }
            proof {
                assert(rem[1] == all[i + 1]);
                assert(all[i + 1] == args@[i + 1]@);
                assert(rem.skip(2) =~= all.skip(i + 2));
            }
            let v = args[i + 1].clone();
            assert(v@ == rem[1]);
            bytes_tok = Some(v);
            i = i + 2;
        } else if is_option_token(t) {
            let msg = String::from_str("unexpected argument ").concat(t.as_str());
            assert(msg@ == unexpected_arg_msg(rem[0]));
            return Err(msg);
        } else {
            proof {
                assert(rem.skip(1) =~= all.skip(i + 1));
            }
            let v = args[i].clone();
            assert(v@ == rem[0]);
            files.push(v);
            proof {
                assert(files.deep_view() =~= st.files.push(rem[0]));
            }
            i = i + 1;
        }
    }
    proof {
        assert(all.skip(i as int) =~= Seq::<Seq<char>>::empty());
    }
    let ghost st = ScanState {
        lines_tok: lines_tok.deep_view(),
        bytes_tok: bytes_tok.deep_view(),
        files: files.deep_view(),
    };
    assert(scan_tokens(all, initial_scan()) == Scan::Done(st));
    if lines_tok.is_some() && bytes_tok.is_some() {
        return Err(String::from_str("the option -n cannot be used with -c"));
    }
    let lines_val: usize = match &lines_tok {
        Some(tok) => match parse_positive_int(tok.as_str()) {
            Ok(n) => n,
            Err(e) => {
                let msg = String::from_str("illegal line count -- ").concat(e.as_str());
                return Err(msg);
            },
        },
        None => match parse_positive_int("10") {
            Ok(n) => n,
            Err(e) => {
                let msg = String::from_str("illegal line count -- ").concat(e.as_str());
                return Err(msg);
            },
        },
    };
    let bytes_val: Option<usize> = match &bytes_tok {
        Some(tok) => match parse_positive_int(tok.as_str()) {
            Ok(n) => Some(n),
            Err(e) => {
                let msg = String::from_str("illegal byte count -- ").concat(e.as_str());
                return Err(msg);
            },
        },
        None => None,
    };
    if files.is_empty() {
        files.push(String::from_str("-"));
    }
    proof {
        assert(files.deep_view() =~= file_list(st.files));
    }
    Ok(Config::new(files, lines_val, bytes_val))
}

} // verus!
