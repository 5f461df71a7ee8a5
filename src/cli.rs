use vstd::prelude::*;

use crate::model::same_text;
use crate::text::{chars_of, push_char};

verus! {

#[verifier::external_type_specification]
#[verifier::external_body]
pub struct ExRegexError(regex::Error);

/// Whether the regular expression `pattern`, as the `regex` crate reads it, matches `text`.
pub uninterp spec fn regex_matches(pattern: Seq<char>, text: Seq<char>) -> bool;

/// Whether the `regex` crate accepts `pattern`: it refuses only a pattern that is no valid
/// expression or whose compiled form exceeds its size limit.
pub uninterp spec fn regex_compiles(pattern: Seq<char>) -> bool;

/// Relies on `regex::Regex::new`, which compiles `pattern` or refuses it (its outcome depends
/// on the pattern alone), and on `Regex::is_match` of the compiled expression, which tells
/// whether it matches `text`.
#[verifier::external_body]
fn regex_is_match(pattern: &str, text: &str) -> (r: Result<bool, regex::Error>)
    ensures
        r is Ok <==> regex_compiles(pattern@),
        r is Ok ==> r->Ok_0 == regex_matches(pattern@, text@),
{
    match regex::Regex::new(pattern) {
        Ok(re) => Ok(re.is_match(text)),
        Err(e) => Err(e),
    }
}

/// A flag that carries a value: one or two dashes, a name, `=` or `:`, then the value.
pub const FLAG_WITH_VALUE: &'static str = r"^[\-\-]{1,2}.+[\=\:].*$";

/// A flag alone: one or two dashes, then a name.
pub const FLAG_WITHOUT_VALUE: &'static str = r"^[\-\-]{1,2}.+$";

/// One command-line argument, by form.
#[derive(Debug, Clone, PartialEq, Eq)]
pub enum CliArg {
    WithValue { key: String, value: String },
    Flag { key: String },
    Plain(String),
}

/// `s` without its leading dashes.
pub open spec fn trim_dashes(s: Seq<char>) -> Seq<char>
    decreases s.len(),
{
    if s.len() > 0 && s[0] == '-' {
        trim_dashes(s.drop_first())
    } else {
        s
    }
}

/// Whether `c` separates a flag's name from its value.
pub open spec fn is_sep(c: char) -> bool {
    c == '=' || c == ':'
}

/// `i` is the position of the first separator in `s`.
pub open spec fn first_sep_at(s: Seq<char>, i: int) -> bool {
    &&& 0 <= i < s.len()
    &&& is_sep(s[i])
    &&& forall|j: int| 0 <= j < i ==> !is_sep(s[j])
}

/// The form of `arg`, given whether it has the form of a flag with a value and of a flag.
/// A flag with a value is cut at its first separator; the name loses its leading dashes.
pub open spec fn arg_form(arg: Seq<char>, with_value: bool, flag: bool, r: CliArg) -> bool {
    if with_value && exists|i: int| first_sep_at(arg, i) {
        r is WithValue && forall|i: int|
            first_sep_at(arg, i) ==> r->WithValue_key@ == trim_dashes(arg.take(i))
                && r->WithValue_value@ == arg.skip(i + 1)
    } else if with_value || flag {
        r is Flag && r->Flag_key@ == trim_dashes(arg)
    } else {
        r is Plain && r->Plain_0@ == arg
    }
}

/// The characters `cs[from..to]` as a string.
fn text_of_range(cs: &Vec<char>, from: usize, to: usize) -> (r: String)
    requires
        from <= to <= cs.len(),
    ensures
        r@ == cs@.subrange(from as int, to as int),
{
    let mut s = String::new();
    let mut i: usize = from;
    while i < to
        invariant
            from <= i <= to <= cs.len(),
            s@ == cs@.subrange(from as int, i as int),
        decreases to - i,
    {
        push_char(&mut s, cs[i]);
        i = i + 1;
        assert(cs@.subrange(from as int, i as int) == cs@.subrange(from as int, i - 1).push(
            cs@[i - 1],
        ));
    }
    s
}

/// `trim_dashes` of `s` starts where the first non-dash is.
proof fn lemma_trim_dashes(s: Seq<char>, k: int)
    requires
        0 <= k <= s.len(),
        forall|j: int| 0 <= j < k ==> s[j] == '-',
        k == s.len() || s[k] != '-',
    ensures
        trim_dashes(s) == s.skip(k),
    decreases k,
{
    if k > 0 {
        assert(s.drop_first().skip(k - 1) == s.skip(k));
        lemma_trim_dashes(s.drop_first(), k - 1);
    } else {
        assert(s.skip(0) == s);
    }
}

/// `cs[..to]` without its leading dashes.
fn trimmed_prefix(cs: &Vec<char>, to: usize) -> (r: String)
    requires
        to <= cs.len(),
    ensures
        r@ == trim_dashes(cs@.take(to as int)),
{
    let mut k: usize = 0;
    while k < to && cs[k] == '-'
        invariant
            k <= to <= cs.len(),
            forall|j: int| 0 <= j < k ==> cs@[j] == '-',
        decreases to - k,
    {
        k = k + 1;
    }
    proof {
        lemma_trim_dashes(cs@.take(to as int), k as int);
        assert(cs@.take(to as int).skip(k as int) == cs@.subrange(k as int, to as int));
    }
    text_of_range(cs, k, to)
}

/// Sorts one argument by form, given whether it has the form of a flag with a value and
/// of a flag alone.
pub fn classify_arg(arg: &str, with_value: bool, flag: bool) -> (r: CliArg)
    ensures
        arg_form(arg@, with_value, flag, r),
{
    let cs = chars_of(arg);
    if with_value {
        let mut i: usize = 0;
        while i < cs.len()
            invariant
                with_value,
                i <= cs.len(),
                cs@ == arg@,
                forall|j: int| 0 <= j < i ==> !is_sep(cs@[j]),
            decreases cs.len() - i,
        {
            if cs[i] == '=' || cs[i] == ':' {
                let key = trimmed_prefix(&cs, i);
                let value = text_of_range(&cs, i + 1, cs.len());
                assert(arg@.skip(i + 1) == cs@.subrange(i + 1, cs.len() as int));
                assert(arg@.take(i as int) == cs@.take(i as int));
                let r = CliArg::WithValue { key, value };
                proof {
                    assert forall|k: int| first_sep_at(arg@, k) implies k == i as int by {
                        if k < i {
                            assert(!is_sep(cs@[k]));
                        } else if k > i {
                            assert(!is_sep(arg@[i as int]));
                        }
                    }
                    assert(first_sep_at(arg@, i as int));
                }
                return r;
            }
            i = i + 1;
        }
    }
    if with_value || flag {
        let key = trimmed_prefix(&cs, cs.len());
        assert(cs@.take(cs.len() as int) == arg@);
        CliArg::Flag { key }
    } else {
        CliArg::Plain(arg.to_owned())
    }
}

/// Reads one argument: checks it against the two flag forms, then sorts it. `None` exactly
/// when the `regex` crate refuses one of the two patterns.
pub fn parse_arg(arg: &str) -> (r: Option<CliArg>)
    ensures
        r is Some <==> (regex_compiles(FLAG_WITH_VALUE@) && regex_compiles(FLAG_WITHOUT_VALUE@)),
        r is Some ==> arg_form(
            arg@,
            regex_matches(FLAG_WITH_VALUE@, arg@),
            regex_matches(FLAG_WITHOUT_VALUE@, arg@),
            r->Some_0,
        ),
{
    let with_value = match regex_is_match(FLAG_WITH_VALUE, arg) {
        Ok(b) => b,
        Err(_) => {
            return None;
        },
    };
    let flag = match regex_is_match(FLAG_WITHOUT_VALUE, arg) {
        Ok(b) => b,
        Err(_) => {
            return None;
        },
    };
    Some(classify_arg(arg, with_value, flag))
}

/// What the command line asks for.
#[derive(Debug, Clone, PartialEq, Eq)]
pub struct CliOptions {
    pub help: bool,
    pub version: bool,
    pub curdir: bool,
    pub url: Option<String>,
}

/// The name of a flag argument, if it is one.
pub open spec fn key_of(a: CliArg) -> Option<Seq<char>> {
    match a {
        CliArg::WithValue { key, .. } => Some(key@),
        CliArg::Flag { key } => Some(key@),
        CliArg::Plain(_) => None,
    }
}

/// Whether some argument is a flag named `long` or `short`.
pub open spec fn has_flag(args: Seq<CliArg>, long: Seq<char>, short: Seq<char>) -> bool {
    exists|i: int| 0 <= i < args.len() && (key_of(args[i]) == Some(long) || key_of(args[i]) == Some(short))
}

/// The plain arguments, in order.
pub open spec fn plain_args(args: Seq<CliArg>) -> Seq<Seq<char>>
    decreases args.len(),
{
    if args.len() == 0 {
        Seq::empty()
    } else {
        match args.last() {
            CliArg::Plain(s) => plain_args(args.drop_last()).push(s@),
            _ => plain_args(args.drop_last()),
        }
    }
}

/// Whether some argument is a flag named `long` or `short`.
pub fn find_flag(args: &Vec<CliArg>, long: &str, short: &str) -> (r: bool)
    ensures
        r == has_flag(args@, long@, short@),
{
    let mut i: usize = 0;
    while i < args.len()
        invariant
            i <= args.len(),
            forall|j: int|
                0 <= j < i ==> key_of(args@[j]) != Some(long@) && key_of(args@[j]) != Some(short@),
        decreases args.len() - i,
    {
        let hit = match &args[i] {
            CliArg::WithValue { key, .. } => same_text(key.as_str(), long) || same_text(key.as_str(), short),
            CliArg::Flag { key } => same_text(key.as_str(), long) || same_text(key.as_str(), short),
            CliArg::Plain(_) => false,
        };
        if hit {
            return true;
        }
        i = i + 1;
    }
    false
}

/// The plain arguments, in order.
pub fn plain_arguments(args: &Vec<CliArg>) -> (r: Vec<String>)
    ensures
        crate::path::views(r@) == plain_args(args@),
{
    let mut out: Vec<String> = Vec::new();
    let mut i: usize = 0;
    while i < args.len()
        invariant
            i <= args.len(),
            crate::path::views(out@) == plain_args(args@.take(i as int)),
        decreases args.len() - i,
    {
        assert(args@.take(i + 1).drop_last() == args@.take(i as int));
        match &args[i] {
            CliArg::Plain(s) => {
                let ghost before = out@;
                out.push(s.clone());
                assert(crate::path::views(out@) == crate::path::views(before).push(s@));
            },
            _ => {},
        }
        i = i + 1;
    }
    assert(args@.take(i as int) == args@);
    out
}

/// The options that the arguments ask for: help with `help` or `h`, the version with
/// `version` or `v`, current-directory mode with `curdir` or `c`; the URL is the second
/// plain argument, the first being the program's own name.
pub fn cli_options(args: &Vec<CliArg>) -> (r: CliOptions)
    ensures
        r.help == has_flag(args@, "help"@, "h"@),
        r.version == has_flag(args@, "version"@, "v"@),
        r.curdir == has_flag(args@, "curdir"@, "c"@),
        plain_args(args@).len() > 1 ==> r.url is Some && r.url->Some_0@ == plain_args(args@)[1],
        plain_args(args@).len() <= 1 ==> r.url is None,
{
    let plain = plain_arguments(args);
    let url = if plain.len() > 1 {
        Some(plain[1].clone())
    } else {
        None
    };
    CliOptions {
        help: find_flag(args, "help", "h"),
        version: find_flag(args, "version", "v"),
        curdir: find_flag(args, "curdir", "c"),
        url,
    }
}

} // verus!
