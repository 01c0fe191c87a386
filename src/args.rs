use vstd::prelude::*;
use vstd::utf8::encode_utf8;

verus! {

pub open spec fn is_hex_digit(b: u8) -> bool {
    (48 <= b <= 57) || (65 <= b <= 70) || (97 <= b <= 102)
}

pub open spec fn hex_digit_value(b: u8) -> int {
    if 48 <= b <= 57 {
        b - 48
    } else if 65 <= b <= 70 {
        b - 55
    } else {
        b - 87
    }
}

/// Text that decodes as hex: an even number of hex digits, either case.
pub open spec fn hex_valid(s: Seq<u8>) -> bool {
    s.len() % 2 == 0 && forall|i: int| 0 <= i < s.len() ==> is_hex_digit(#[trigger] s[i])
}

/// One byte for each pair of digits, high half first.
pub open spec fn hex_decoded(s: Seq<u8>) -> Seq<u8> {
    Seq::new(
        s.len() / 2,
        |i: int| (hex_digit_value(s[2 * i]) * 16 + hex_digit_value(s[2 * i + 1])) as u8,
    )
}

/// Relies on `hex::decode`: it succeeds exactly on an even number of hex
/// digits (either case) and gives one byte per pair, high half first.
#[verifier::external_body]
fn decode_hex(s: &str) -> (r: Option<Vec<u8>>)
    ensures
        r is Some <==> hex_valid(encode_utf8(s@)),
        r matches Some(v) ==> v@ == hex_decoded(encode_utf8(s@)),
{
    hex::decode(s).ok()
}

/// One piece of script to run.
pub enum ScriptCode {
    /// Script source given on the command line.
    Source(String),
    /// Compiled bytecode given in hex on the command line.
    Bytecode(Vec<u8>),
    /// A script file still to be read.
    File(String),
}

/// A `ScriptCode` as plain values.
pub enum CodeView {
    Source(Seq<char>),
    Bytecode(Seq<u8>),
    File(Seq<char>),
}

impl View for ScriptCode {
    type V = CodeView;

    open spec fn view(&self) -> CodeView {
        match self {
            ScriptCode::Source(s) => CodeView::Source(s@),
            ScriptCode::Bytecode(b) => CodeView::Bytecode(b@),
            ScriptCode::File(f) => CodeView::File(f@),
        }
    }
}

/// Why a command line was refused.
pub enum ArgsError {
    /// `-c` came last.
    MissingSource,
    /// `-b` came last.
    MissingBytecode,
    /// The text after `-b` is not hex.
    BadBytecode,
    /// An option that is not known; holds it.
    UnknownOption(String),
    /// No script was given.
    NoScript,
}

/// An `ArgsError` as plain values.
pub enum ArgsFault {
    MissingSource,
    MissingBytecode,
    BadBytecode,
    UnknownOption(Seq<char>),
    NoScript,
}

impl View for ArgsError {
    type V = ArgsFault;

    open spec fn view(&self) -> ArgsFault {
        match self {
            ArgsError::MissingSource => ArgsFault::MissingSource,
            ArgsError::MissingBytecode => ArgsFault::MissingBytecode,
            ArgsError::BadBytecode => ArgsFault::BadBytecode,
            ArgsError::UnknownOption(o) => ArgsFault::UnknownOption(o@),
            ArgsError::NoScript => ArgsFault::NoScript,
        }
    }
}

impl ArgsError {
    /// Whether the usage text is shown along with this error.
    pub fn shows_usage(&self) -> (r: bool)
        ensures
            r == (self is UnknownOption || self is NoScript),
    {
        match self {
            ArgsError::UnknownOption(_) | ArgsError::NoScript => true,
            _ => false,
        }
    }

    /// Human-readable description of the error.
    pub fn message(&self) -> (r: String)
        ensures
            r@ == fault_message(self@),
    {
        match self {
            ArgsError::MissingSource => String::from_str("Missing code after -c"),
            ArgsError::MissingBytecode => String::from_str("Missing code after -b"),
            ArgsError::BadBytecode => String::from_str("Failed to decode bytecode"),
            ArgsError::UnknownOption(o) => {
                let mut s = String::from_str("Unknown option: ");
                s.append(o.as_str());
                s
            },
            ArgsError::NoScript => String::from_str("No script file provided"),
        }
    }
}

pub open spec fn fault_message(f: ArgsFault) -> Seq<char> {
    match f {
        ArgsFault::MissingSource => "Missing code after -c"@,
        ArgsFault::MissingBytecode => "Missing code after -b"@,
        ArgsFault::BadBytecode => "Failed to decode bytecode"@,
        ArgsFault::UnknownOption(o) => "Unknown option: "@ + o,
        ArgsFault::NoScript => "No script file provided"@,
    }
}

/// The scripts to run and the arguments handed to them.
pub struct Args {
    pub codes: Vec<ScriptCode>,
    pub js_args: Vec<String>,
}

pub open spec fn finish(codes: Seq<CodeView>, rest: Seq<Seq<char>>) -> Result<
    (Seq<CodeView>, Seq<Seq<char>>),
    ArgsFault,
> {
    if codes.len() == 0 {
        Err(ArgsFault::NoScript)
    } else {
        Ok((codes, rest))
    }
}

/// Reads the command line from position `i` on, with `codes` gathered so far.
/// An argument starting with `-` is an option (`--` ends the options and the
/// rest goes to the script); any other argument names a script file.
pub open spec fn scan(args: Seq<Seq<char>>, i: int, codes: Seq<CodeView>) -> Result<
    (Seq<CodeView>, Seq<Seq<char>>),
    ArgsFault,
>
    decreases args.len() - i,
{
    if i < 0 || i >= args.len() {
        finish(codes, Seq::empty())
    } else {
        let a = args[i];
        if a.len() > 0 && a[0] == '-' {
            if a == "--"@ {
                finish(codes, args.subrange(i + 1, args.len() as int))
            } else if a == "-c"@ {
                if i + 1 >= args.len() {
                    Err(ArgsFault::MissingSource)
                } else {
                    scan(args, i + 2, codes.push(CodeView::Source(args[i + 1])))
                }
            } else if a == "-b"@ {
                if i + 1 >= args.len() {
                    Err(ArgsFault::MissingBytecode)
                } else if !hex_valid(encode_utf8(args[i + 1])) {
                    Err(ArgsFault::BadBytecode)
                } else {
                    scan(
                        args,
                        i + 2,
                        codes.push(CodeView::Bytecode(hex_decoded(encode_utf8(args[i + 1])))),
                    )
                }
            } else {
                Err(ArgsFault::UnknownOption(a))
            }
        } else {
            scan(args, i + 1, codes.push(CodeView::File(a)))
        }
    }
}

/// The meaning of a command line whose first item is the program name.
pub open spec fn parse_spec(args: Seq<Seq<char>>) -> Result<(Seq<CodeView>, Seq<Seq<char>>), ArgsFault> {
    scan(args, 1, Seq::empty())
}

pub open spec fn strings_view(v: Seq<String>) -> Seq<Seq<char>> {
    v.map_values(|s: String| s@)
}

pub open spec fn codes_view(v: Seq<ScriptCode>) -> Seq<CodeView> {
    v.map_values(|c: ScriptCode| c@)
}

fn tail_from(args: &Vec<String>, start: usize) -> (r: Vec<String>)
    requires
        start <= args@.len(),
    ensures
        strings_view(r@) == strings_view(args@).subrange(start as int, args@.len() as int),
{
    let mut r: Vec<String> = Vec::new();
    let mut j: usize = start;
    while j < args.len()
        invariant
            start <= j <= args@.len(),
            strings_view(r@) == strings_view(args@).subrange(start as int, j as int),
        decreases args@.len() - j,
    {
        let s = args[j].clone();
        let ghost prev = r@;
        r.push(s);
        assert(strings_view(r@) =~= strings_view(prev).push(args@[j as int]@));
        assert(strings_view(args@).subrange(start as int, j + 1) =~= strings_view(args@).subrange(
            start as int,
            j as int,
        ).push(args@[j as int]@));
        j = j + 1;
    }
    r
}

/// Reads the command line (program name first): `-c <code>` gives source,
/// `-b <hex>` gives bytecode, `--` hands what follows to the script, and any
/// other argument names a script file.
pub fn parse_args(args: Vec<String>) -> (r: Result<Args, ArgsError>)
    ensures
        match (r, parse_spec(strings_view(args@))) {
            (Ok(a), Ok((codes, rest))) => codes_view(a.codes@) == codes && strings_view(a.js_args@)
                == rest,
            (Err(e), Err(f)) => e@ == f,
            _ => false,
        },
{
    let ghost av = strings_view(args@);
    let dash_dash = String::from_str("--");
    let dash_c = String::from_str("-c");
    let dash_b = String::from_str("-b");
    let mut codes: Vec<ScriptCode> = Vec::new();
    let mut i: usize = 1;
    let n = args.len();
    assert(codes_view(codes@) =~= Seq::<CodeView>::empty());
    while i < n
        invariant
            n == args@.len(),
            1 <= i,
            av == strings_view(args@),
            dash_dash@ == "--"@,
            dash_c@ == "-c"@,
            dash_b@ == "-b"@,
            scan(av, i as int, codes_view(codes@)) == parse_spec(av),
            av.len() == n,
        decreases n - i,
    {
        let a = &args[i];
        assert(av[i as int] == a@);
        let ghost before = codes_view(codes@);
        let is_option = a.as_str().unicode_len() > 0 && a.as_str().get_char(0) == '-';
        if is_option {
            if *a == dash_dash {
                if codes.len() == 0 {
                    return Err(ArgsError::NoScript);
                }
                let js_args = tail_from(&args, i + 1);
                return Ok(Args { codes, js_args });
            } else if *a == dash_c {
                if i + 1 >= n {
                    return Err(ArgsError::MissingSource);
                }
                let code = args[i + 1].clone();
                assert(av[i + 1] == code@);
                codes.push(ScriptCode::Source(code));
                assert(codes_view(codes@) =~= before.push(CodeView::Source(av[i + 1])));
                i = i + 2;
            } else if *a == dash_b {
                if i + 1 >= n {
                    return Err(ArgsError::MissingBytecode);
                }
                assert(av[i + 1] == args@[i + 1]@);
                match decode_hex(args[i + 1].as_str()) {
                    Some(bytes) => {
                        codes.push(ScriptCode::Bytecode(bytes));
                        assert(codes_view(codes@) =~= before.push(
                            CodeView::Bytecode(hex_decoded(encode_utf8(av[i + 1]))),
                        ));
                        i = i + 2;
                    },
                    None => {
                        return Err(ArgsError::BadBytecode);
                    },
                }
            } else {
                return Err(ArgsError::UnknownOption(a.clone()));
            }
        } else {
            let file = a.clone();
            codes.push(ScriptCode::File(file));
            assert(codes_view(codes@) =~= before.push(CodeView::File(av[i as int])));
            i = i + 1;
        }
    }
    if codes.len() == 0 {
        return Err(ArgsError::NoScript);
    }
    let js_args: Vec<String> = Vec::new();
    assert(strings_view(js_args@) =~= Seq::<Seq<char>>::empty());
    Ok(Args { codes, js_args })
}

} // verus!
