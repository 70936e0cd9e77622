use vstd::prelude::*;
use vstd::string::StrSliceExecFns;
use crate::bridge::{ParamValue, ParamView, params_view};

verus! {

/// A fatal error of the driver's argument grammar. Any of these makes the
/// invocation exit nonzero before the socket is contacted.
#[derive(Clone, Copy, PartialEq, Eq, Structural, Debug)]
pub enum CliError {
    MissingMethod,
    MissingDataDir,
    MissingOptionValue,
    UnknownOption,
    ExpectedKeyValue,
}

impl CliError {
    pub open spec fn message_spec(self) -> Seq<char> {
        match self {
            CliError::MissingMethod => "method is not specified"@,
            CliError::MissingDataDir => "data directory is not specified"@,
            CliError::MissingOptionValue => "option requires a value"@,
            CliError::UnknownOption => "unknown option"@,
            CliError::ExpectedKeyValue => "expected key=value argument"@,
        }
    }

    pub fn message(&self) -> (r: String)
        ensures
            r@ == self.message_spec(),
    {
        match self {
            CliError::MissingMethod => "method is not specified".to_owned(),
            CliError::MissingDataDir => "data directory is not specified".to_owned(),
            CliError::MissingOptionValue => "option requires a value".to_owned(),
            CliError::UnknownOption => "unknown option".to_owned(),
            CliError::ExpectedKeyValue => "expected key=value argument".to_owned(),
        }
    }
}

/// A parsed driver invocation: `<option>* <method> [key=value]*`, with each
/// trailing pair coerced into an RPC parameter.
#[derive(Debug, PartialEq, Eq)]
pub struct CliArgs {
    pub datadir: String,
    pub network: Option<String>,
    pub method: String,
    pub params: Vec<(String, ParamValue)>,
}

/// Mathematical image of `CliArgs`.
pub ghost struct ArgsView {
    pub datadir: Seq<char>,
    pub network: Option<Seq<char>>,
    pub method: Seq<char>,
    pub params: Seq<(Seq<char>, ParamView)>,
}

pub open spec fn opt_view(o: Option<String>) -> Option<Seq<char>> {
    match o {
        Some(s) => Some(s@),
        None => None,
    }
}

impl View for CliArgs {
    type V = ArgsView;

    open spec fn view(&self) -> ArgsView {
        ArgsView {
            datadir: self.datadir@,
            network: opt_view(self.network),
            method: self.method@,
            params: params_view(self.params@),
        }
    }
}

/// What an invocation asks for: print usage, or run one request.
#[derive(Debug, PartialEq, Eq)]
pub enum CliCommand {
    Help,
    Run(CliArgs),
}

/// Outcome of the argument grammar, at the specification level.
pub ghost enum ParseView {
    Help,
    Run(ArgsView),
    Fail(CliError),
}

pub open spec fn tok_views(args: Seq<String>) -> Seq<Seq<char>> {
    args.map(|i: int, s: String| s@)
}

pub open spec fn is_digit(c: char) -> bool {
    '0' as int <= c as int && c as int <= '9' as int
}

pub open spec fn digit_val(c: char) -> nat {
    if is_digit(c) {
        (c as int - '0' as int) as nat
    } else {
        0
    }
}

pub open spec fn all_digits(s: Seq<char>) -> bool {
    forall|i: int| 0 <= i < s.len() ==> is_digit(#[trigger] s[i])
}

/// The number a string of decimal digits denotes.
pub open spec fn dec_val(s: Seq<char>) -> nat
    decreases s.len(),
{
    if s.len() == 0 {
        0
    } else {
        dec_val(s.drop_last()) * 10 + digit_val(s.last())
    }
}

/// A nonempty all-digit string whose value fits in a `u64`: exactly the
/// strings the driver coerces to a number.
pub open spec fn is_dec_u64(s: Seq<char>) -> bool {
    s.len() > 0 && all_digits(s) && dec_val(s) <= u64::MAX
}

/// The driver's value coercion: integer-parseable becomes a number,
/// boolean-parseable a boolean, anything else stays a string.
pub open spec fn coerce_view(v: Seq<char>) -> ParamView {
    if is_dec_u64(v) {
        ParamView::Num(dec_val(v) as u64)
    } else if v == "true"@ {
        ParamView::Bool(true)
    } else if v == "false"@ {
        ParamView::Bool(false)
    } else {
        ParamView::Str(v)
    }
}

/// Index of the first `=` at or after `i`.
pub open spec fn find_eq(t: Seq<char>, i: int) -> Option<int>
    decreases t.len() - i when 0 <= i <= t.len()
{
    if i >= t.len() {
        None
    } else if t[i] == '=' {
        Some(i)
    } else {
        find_eq(t, i + 1)
    }
}

/// Split one `key=value` token at its first `=` and coerce the value.
pub open spec fn pair_of(t: Seq<char>) -> Option<(Seq<char>, ParamView)> {
    match find_eq(t, 0) {
        Some(k) => Some((t.take(k), coerce_view(t.skip(k + 1)))),
        None => None,
    }
}

/// The trailing `key=value` pairs from position `i` on; every remaining
/// token must be such a pair.
pub open spec fn parse_pairs(toks: Seq<Seq<char>>, i: int) -> Result<
    Seq<(Seq<char>, ParamView)>,
    CliError,
>
    decreases toks.len() - i when 0 <= i <= toks.len()
{
    if i >= toks.len() {
        Ok(Seq::empty())
    } else {
        match pair_of(toks[i]) {
            Some(kv) => match parse_pairs(toks, i + 1) {
                Ok(rest) => Ok(seq![kv] + rest),
                Err(e) => Err(e),
            },
            None => Err(CliError::ExpectedKeyValue),
        }
    }
}

pub open spec fn starts_dash(t: Seq<char>) -> bool {
    t.len() > 0 && t[0] == '-'
}

/// The driver's argument grammar from position `i`, with the options seen
/// so far: options first, then the method, then `key=value` pairs. A help
/// flag wins immediately; a missing method or missing data directory is a
/// fatal parse error.
pub open spec fn parse_opts(
    toks: Seq<Seq<char>>,
    i: int,
    datadir: Option<Seq<char>>,
    network: Option<Seq<char>>,
) -> ParseView
    decreases toks.len() - i when 0 <= i <= toks.len()
{
    if i >= toks.len() {
        ParseView::Fail(CliError::MissingMethod)
    } else {
        let t = toks[i];
        if t == "-h"@ || t == "--help"@ {
            ParseView::Help
        } else if t == "-d"@ || t == "--data-dir"@ {
            if i + 1 < toks.len() {
                parse_opts(toks, i + 2, Some(toks[i + 1]), network)
            } else {
                ParseView::Fail(CliError::MissingOptionValue)
            }
        } else if t == "-n"@ || t == "--network"@ {
            if i + 1 < toks.len() {
                parse_opts(toks, i + 2, datadir, Some(toks[i + 1]))
            } else {
                ParseView::Fail(CliError::MissingOptionValue)
            }
        } else if starts_dash(t) {
            ParseView::Fail(CliError::UnknownOption)
        } else {
            match parse_pairs(toks, i + 1) {
                Ok(ps) => match datadir {
                    Some(d) => ParseView::Run(
                        ArgsView { datadir: d, network, method: t, params: ps },
                    ),
                    None => ParseView::Fail(CliError::MissingDataDir),
                },
                Err(e) => ParseView::Fail(e),
            }
        }
    }
}

/// The whole grammar: what `parse_cli` must produce.
pub open spec fn parse_spec(toks: Seq<Seq<char>>) -> ParseView {
    parse_opts(toks, 0, None, None)
}

proof fn lemma_dec_prefix(s: Seq<char>, i: int)
    requires
        0 <= i <= s.len(),
    ensures
        dec_val(s) >= dec_val(s.take(i)),
    decreases s.len(),
{
    if i < s.len() {
        lemma_dec_prefix(s.drop_last(), i);
        assert(s.drop_last().take(i) =~= s.take(i));
        assert(dec_val(s.drop_last()) * 10 >= dec_val(s.drop_last()));
    } else {
        assert(s.take(i) =~= s);
    }
}

/// Parse a decimal `u64`; `None` exactly when the string is not a nonempty
/// all-digit string whose value fits.
pub fn parse_u64(s: &str) -> (r: Option<u64>)
    ensures
        match r {
            Some(n) => is_dec_u64(s@) && n == dec_val(s@),
            None => !is_dec_u64(s@),
        },
{
    let n = s.unicode_len();
    if n == 0 {
        return None;
    }
    let mut acc: u64 = 0;
    let mut i: usize = 0;
    while i < n
        invariant
            i <= n,
            n == s@.len(),
            forall|j: int| 0 <= j < i ==> is_digit(#[trigger] s@[j]),
            acc == dec_val(s@.take(i as int)),
        decreases n - i,
    {
        let c = s.get_char(i);
        let u = c as u32;
        if u < 48 || u > 57 {
            proof {
                assert(!is_digit(s@[i as int]));
            }
            return None;
        }
        let d = (u - 48) as u64;
        proof {
            assert(s@.take(i as int + 1).drop_last() =~= s@.take(i as int));
            assert(s@.take(i as int + 1).last() == s@[i as int]);
        }
        let m = match acc.checked_mul(10) {
            Some(m) => m,
            None => {
                proof {
                    assert(dec_val(s@.take(i as int + 1)) > u64::MAX);
                    lemma_dec_prefix(s@, i as int + 1);
                }
                return None;
            },
        };
        acc = match m.checked_add(d) {
            Some(v) => v,
            None => {
                proof {
                    assert(dec_val(s@.take(i as int + 1)) > u64::MAX);
                    lemma_dec_prefix(s@, i as int + 1);
                }
                return None;
            },
        };
        i += 1;
    }
    proof {
        assert(s@.take(n as int) =~= s@);
    }
    Some(acc)
}

/// Coerce one trailing value the way the driver does.
pub fn coerce(value: &str) -> (r: ParamValue)
    ensures
        r@ == coerce_view(value@),
{
    match parse_u64(value) {
        Some(n) => ParamValue::Num(n),
        None => {
            let v = value.to_owned();
            if v == "true".to_owned() {
                ParamValue::Bool(true)
            } else if v == "false".to_owned() {
                ParamValue::Bool(false)
            } else {
                ParamValue::Str(v)
            }
        },
    }
}

proof fn lemma_find_eq_skip(t: Seq<char>, i: int)
    requires
        0 <= i <= t.len(),
        forall|j: int| 0 <= j < i ==> t[j] != '=',
    ensures
        find_eq(t, 0) == find_eq(t, i),
    decreases i,
{
    if i > 0 {
        lemma_find_eq_skip(t, i - 1);
        assert(t[i - 1] != '=');
    }
}

/// Split one `key=value` token; `None` exactly when it has no `=`.
fn split_pair(t: &str) -> (r: Option<(String, ParamValue)>)
    ensures
        match r {
            Some(kv) => pair_of(t@) == Some((kv.0@, kv.1@)),
            None => pair_of(t@) is None,
        },
{
    let n = t.unicode_len();
    let mut i: usize = 0;
    while i < n
        invariant
            i <= n,
            n == t@.len(),
            forall|j: int| 0 <= j < i ==> t@[j] != '=',
        decreases n - i,
    {
        if t.get_char(i) == '=' {
            proof {
                lemma_find_eq_skip(t@, i as int);
            }
            let key = t.substring_char(0, i);
            let val = t.substring_char(i + 1, n);
            let coerced = coerce(val);
            proof {
                assert(t@.subrange(0, i as int) =~= t@.take(i as int));
                assert(t@.subrange(i as int + 1, n as int) =~= t@.skip(i as int + 1));
            }
            return Some((key.to_owned(), coerced));
        }
        i += 1;
    }
    proof {
        lemma_find_eq_skip(t@, i as int);
    }
    None
}

fn str_is(s: &String, lit: &str) -> (r: bool)
    ensures
        r == (s@ == lit@),
{
    *s == lit.to_owned()
}

/// Parse a driver invocation. The result is exactly what the grammar
/// `parse_spec` assigns to the argument list: usage on a help flag, a
/// parsed run, or the fatal error the grammar names.
pub fn parse_cli(args: &Vec<String>) -> (r: Result<CliCommand, CliError>)
    ensures
        match r {
            Ok(CliCommand::Help) => parse_spec(tok_views(args@)) == ParseView::Help,
            Ok(CliCommand::Run(a)) => parse_spec(tok_views(args@)) == ParseView::Run(a@),
            Err(e) => parse_spec(tok_views(args@)) == ParseView::Fail(e),
        },
{
    let ghost toks = tok_views(args@);
    let mut i: usize = 0;
    let mut datadir: Option<String> = None;
    let mut network: Option<String> = None;
    while i < args.len()
        invariant
            i <= args@.len(),
            toks == tok_views(args@),
            parse_opts(toks, 0, None, None) == parse_opts(
                toks,
                i as int,
                opt_view(datadir),
                opt_view(network),
            ),
        decreases args@.len() - i,
    {
        let t = &args[i];
        proof {
            assert(toks[i as int] == t@);
        }
        if str_is(t, "-h") || str_is(t, "--help") {
            return Ok(CliCommand::Help);
        } else if str_is(t, "-d") || str_is(t, "--data-dir") {
            if i + 1 < args.len() {
                datadir = Some(args[i + 1].clone());
                i += 2;
            } else {
                return Err(CliError::MissingOptionValue);
            }
        } else if str_is(t, "-n") || str_is(t, "--network") {
            if i + 1 < args.len() {
                network = Some(args[i + 1].clone());
                i += 2;
            } else {
                return Err(CliError::MissingOptionValue);
            }
        } else {
            let dash = t.as_str().unicode_len() > 0 && t.as_str().get_char(0) == '-';
            if dash {
                return Err(CliError::UnknownOption);
            }
            // `t` is the method; everything after it must be a key=value pair.
            let method = t.clone();
            let mut params: Vec<(String, ParamValue)> = Vec::new();
            let mut j: usize = i + 1;
            while j < args.len()
                invariant
                    i < args@.len(),
                    i + 1 <= j <= args@.len(),
                    toks == tok_views(args@),
                    method@ == toks[i as int],
                    !(toks[i as int] == "-h"@ || toks[i as int] == "--help"@),
                    !(toks[i as int] == "-d"@ || toks[i as int] == "--data-dir"@),
                    !(toks[i as int] == "-n"@ || toks[i as int] == "--network"@),
                    !starts_dash(toks[i as int]),
                    parse_opts(toks, 0, None, None) == parse_opts(
                        toks,
                        i as int,
                        opt_view(datadir),
                        opt_view(network),
                    ),
                    match parse_pairs(toks, j as int) {
                        Ok(rest) => parse_pairs(toks, i as int + 1) == Ok::<_, CliError>(
                            params_view(params@) + rest,
                        ),
                        Err(e) => parse_pairs(toks, i as int + 1) == Err::<
                            Seq<(Seq<char>, ParamView)>,
                            _,
                        >(e),
                    },
                decreases args@.len() - j,
            {
                proof {
                    assert(toks[j as int] == args@[j as int]@);
                }
                match split_pair(args[j].as_str()) {
                    Some(kv) => {
                        let ghost acc0 = params_view(params@);
                        let ghost kvv = (kv.0@, kv.1@);
                        params.push(kv);
                        proof {
                            assert(params_view(params@) =~= acc0.push(kvv));
                            let rest = parse_pairs(toks, j as int + 1);
                            if rest is Ok {
                                assert(acc0 + (seq![kvv] + rest->Ok_0) =~= acc0.push(kvv)
                                    + rest->Ok_0);
                            }
                        }
                        j += 1;
                    },
                    None => {
                        return Err(CliError::ExpectedKeyValue);
                    },
                }
            }
            proof {
                assert(params_view(params@) + Seq::<(Seq<char>, ParamView)>::empty()
                    =~= params_view(params@));
            }
            match datadir {
                Some(d) => {
                    return Ok(CliCommand::Run(CliArgs { datadir: d, network, method, params }));
                },
                None => {
                    return Err(CliError::MissingDataDir);
                },
            }
        }
    }
    Err(CliError::MissingMethod)
}

} // verus!
