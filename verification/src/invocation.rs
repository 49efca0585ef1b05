use vstd::prelude::*;
use vstd::string::StringExecFns;
use vstd::utf8::encode_utf8;

use crate::count::{
    decimal_value, is_whole_number, parse_header_count, spec_header_count, spec_is_whole_number,
    MAX_HEADER_COUNT,
};
use crate::words::{
    chars_of, law_blank_text_has_no_words, spec_is_white_space, spec_words, split_words, texts,
};

verus! {

/// Header lines kept in place when no count is given.
pub const DEFAULT_HEADER_LINES: u64 = 1;

/// Whether an argument asks for the usage text: `-h` or `--help`.
pub open spec fn spec_is_help_flag(arg: Seq<char>) -> bool {
    arg == seq!['-', 'h'] || arg == seq!['-', '-', 'h', 'e', 'l', 'p']
}

/// Tells whether `arg` is `-h` or `--help`.
pub fn is_help_flag(arg: &str) -> (r: bool)
    ensures
        r == spec_is_help_flag(arg@),
{
    let cs = chars_of(arg);
    let ghost short = seq!['-', 'h'];
    let ghost long = seq!['-', '-', 'h', 'e', 'l', 'p'];
    if cs.len() == 2 {
        let r = cs[0] == '-' && cs[1] == 'h';
        assert(r ==> cs@ =~= short);
        assert(cs@.len() != long.len());
        r
    } else if cs.len() == 6 {
        let r = cs[0] == '-' && cs[1] == '-' && cs[2] == 'h' && cs[3] == 'e' && cs[4] == 'l' && cs[5]
            == 'p';
        assert(r ==> cs@ =~= long);
        assert(cs@.len() != short.len());
        r
    } else {
        assert(cs@.len() != short.len() && cs@.len() != long.len());
        false
    }
}

/// The command that the body goes to when none is given: the value of the
/// setting meant for it, unless that is unset or empty, and `sort` then.
pub open spec fn spec_default_command(setting: Option<String>) -> Seq<char> {
    match setting {
        Some(v) => if v@.len() > 0 {
            v@
        } else {
            "sort"@
        },
        None => "sort"@,
    }
}

/// Picks the default command from the value of its setting, if it is set.
pub fn default_command(setting: Option<String>) -> (r: String)
    ensures
        r@ == spec_default_command(setting),
{
    match setting {
        Some(v) => {
            if v.as_str().is_empty() {
                String::from_str("sort")
            } else {
                v
            }
        },
        None => String::from_str("sort"),
    }
}


/// What to do, as decided from the arguments.
pub enum Invocation {
    /// Print the usage text; when `refused`, the input is not piped, so an
    /// error comes first and the exit status is a failure.
    ShowHelp { refused: bool },
    /// Print the first `header_lines` lines of the input, then run `command`
    /// (its program first) on the rest; `uses_default` tells that no command
    /// was given and the default one is used.
    Run { header_lines: u64, command: Vec<String>, uses_default: bool },
}

/// The abstract value of an [`Invocation`].
pub ghost enum InvocationView {
    ShowHelp { refused: bool },
    Run { header_lines: u64, command: Seq<Seq<char>>, uses_default: bool },
}

impl View for Invocation {
    type V = InvocationView;

    open spec fn view(&self) -> InvocationView {
        match self {
            Invocation::ShowHelp { refused } => InvocationView::ShowHelp { refused: *refused },
            Invocation::Run { header_lines, command, uses_default } => InvocationView::Run {
                header_lines: *header_lines,
                command: texts(command@),
                uses_default: *uses_default,
            },
        }
    }
}

/// Why the arguments were refused.
#[derive(Debug, Clone, Copy, PartialEq, Eq)]
pub enum InvocationError {
    /// The header count is larger than `MAX_HEADER_COUNT`.
    HeaderCountTooLarge,
    /// No command was given, and the default command holds no word.
    BlankDefaultCommand,
}

/// The abstract value of what [`plan_invocation`] returns.
pub open spec fn invocation_result_view(r: Result<Invocation, InvocationError>) -> Result<
    InvocationView,
    InvocationError,
> {
    match r {
        Ok(i) => Ok(i@),
        Err(e) => Err(e),
    }
}

/// Whether the arguments start with a header count.
pub open spec fn spec_count_given(args: Seq<Seq<char>>) -> bool {
    args.len() > 0 && spec_is_whole_number(encode_utf8(args[0]))
}

/// What the arguments `args` (without the program's name) ask for, given
/// whether standard input is a terminal and the default command.
pub open spec fn spec_invocation(
    args: Seq<Seq<char>>,
    stdin_is_terminal: bool,
    default_command: Seq<char>,
) -> Result<InvocationView, InvocationError> {
    let help = args.len() > 0 && spec_is_help_flag(args[0]);
    if stdin_is_terminal || help {
        Ok(InvocationView::ShowHelp { refused: stdin_is_terminal && !help })
    } else {
        let given = spec_count_given(args);
        let count = if given {
            spec_header_count(encode_utf8(args[0]))
        } else {
            Ok(DEFAULT_HEADER_LINES)
        };
        let rest = if given {
            args.drop_first()
        } else {
            args
        };
        match count {
            Err(_) => Err(InvocationError::HeaderCountTooLarge),
            Ok(n) => if rest.len() > 0 {
                Ok(InvocationView::Run { header_lines: n, command: rest, uses_default: false })
            } else if spec_words(default_command).len() == 0 {
                Err(InvocationError::BlankDefaultCommand)
            } else {
                Ok(
                    InvocationView::Run {
                        header_lines: n,
                        command: spec_words(default_command),
                        uses_default: true,
                    },
                )
            },
        }
    }
}

/// Decides what to do from the arguments (without the program's name):
/// show the usage text when asked to or when standard input is a terminal;
/// else read an optional header count (a whole number, one header line when
/// none is given), and run the command that the remaining arguments name,
/// or the default command split into words when none remain.
pub fn plan_invocation(args: &Vec<String>, stdin_is_terminal: bool, default_command: &str) -> (r:
    Result<Invocation, InvocationError>)
    ensures
        invocation_result_view(r) == spec_invocation(
            texts(args@),
            stdin_is_terminal,
            default_command@,
        ),
{
    let ghost a = texts(args@);
    let help = args.len() > 0 && is_help_flag(args[0].as_str());
    if stdin_is_terminal || help {
        return Ok(Invocation::ShowHelp { refused: stdin_is_terminal && !help });
    }
    let mut header_lines = DEFAULT_HEADER_LINES;
    let mut start: usize = 0;
    if args.len() > 0 && is_whole_number(args[0].as_str()) {
        match parse_header_count(args[0].as_str()) {
            Ok(n) => {
                header_lines = n;
                start = 1;
            },
            Err(_) => {
                return Err(InvocationError::HeaderCountTooLarge);
            },
        }
    }
    let ghost rest = if start == 1 { a.drop_first() } else { a };
    let n = args.len();
    if start == n {
        let words = split_words(default_command);
        if words.len() == 0 {
            return Err(InvocationError::BlankDefaultCommand);
        }
        return Ok(Invocation::Run { header_lines, command: words, uses_default: true });
    }
    let mut command: Vec<String> = Vec::new();
    let mut j: usize = start;
    while j < n
        invariant
            n == args@.len(),
            a == texts(args@),
            start <= j <= n,
            start <= 1,
            rest == a.subrange(start as int, n as int),
            texts(command@) == a.subrange(start as int, j as int),
        decreases n - j,
    {
        let ghost before = command@;
        let item = args[j].clone();
        assert(item@ == a[j as int]);
        command.push(item);
        assert(command@ == before.push(item));
        assert(texts(command@) =~= texts(before).push(item@));
        j = j + 1;
        assert(texts(command@) =~= a.subrange(start as int, j as int));
    }
    assert(texts(command@) =~= rest);
    Ok(Invocation::Run { header_lines, command, uses_default: false })
}


/// When a command is given, the default command plays no part: the same
/// arguments give the same decision whatever the default command is.
pub proof fn law_given_command_ignores_default(
    args: Seq<Seq<char>>,
    stdin_is_terminal: bool,
    default_a: Seq<char>,
    default_b: Seq<char>,
)
    requires
        args.len() > (if spec_count_given(args) { 1int } else { 0int }),
    ensures
        spec_invocation(args, stdin_is_terminal, default_a) == spec_invocation(
            args,
            stdin_is_terminal,
            default_b,
        ),
{
}

/// A default command that is only white space is refused when it would be
/// used, rather than replaced or run as nothing.
pub proof fn law_blank_default_command_is_refused(args: Seq<Seq<char>>, default_command: Seq<char>)
    requires
        forall|i: int|
            0 <= i < default_command.len() ==> spec_is_white_space(#[trigger] default_command[i]),
        args.len() == 0 || (args.len() == 1 && spec_count_given(args) && spec_header_count(
            encode_utf8(args[0]),
        ) is Ok),
    ensures
        spec_invocation(args, false, default_command) == Err::<InvocationView, InvocationError>(
            InvocationError::BlankDefaultCommand,
        ),
{
    law_blank_text_has_no_words(default_command);
    if args.len() == 1 {
        assert(!spec_is_help_flag(args[0])) by {
            if args[0] == seq!['-', 'h'] || args[0] == seq!['-', '-', 'h', 'e', 'l', 'p'] {
                lemma_dash_first_byte(args[0]);
                assert(!crate::count::is_digit(encode_utf8(args[0])[0]));
            }
        }
    }
}


proof fn lemma_dash_first_byte(text: Seq<char>)
    requires
        text.len() > 0,
        text[0] == '-',
    ensures
        encode_utf8(text).len() > 0,
        encode_utf8(text)[0] == 45,
{
    let u = text[0] as u32;
    assert(u == 45);
    assert(u & 0x7f == 45) by (bit_vector)
        requires
            u == 45,
    ;
    let first = vstd::utf8::encode_scalar(u);
    assert(first == seq![(u & 0x7f) as u8]);
    assert(encode_utf8(text) == first + encode_utf8(text.drop_first()));
}


/// With piped input and no request for help, the command run is exactly the
/// arguments after the header count (all of them when no count leads), in
/// their order, none dropped; the header count is the leading number, or
/// one when there is none.
pub proof fn law_command_is_every_argument_after_the_count(
    args: Seq<Seq<char>>,
    default_command: Seq<char>,
    skip: int,
)
    requires
        args.len() > 0,
        !spec_is_help_flag(args[0]),
        skip == (if spec_is_whole_number(encode_utf8(args[0])) { 1int } else { 0int }),
        skip < args.len(),
        skip == 1 ==> decimal_value(encode_utf8(args[0])) <= MAX_HEADER_COUNT,
    ensures
        spec_invocation(args, false, default_command) == Ok::<InvocationView, InvocationError>(
            InvocationView::Run {
                header_lines: if skip == 1 {
                    decimal_value(encode_utf8(args[0])) as u64
                } else {
                    1
                },
                command: args.subrange(skip, args.len() as int),
                uses_default: false,
            },
        ),
{
    if skip == 1 {
        assert(args.drop_first() =~= args.subrange(1, args.len() as int));
    } else {
        assert(args =~= args.subrange(0, args.len() as int));
    }
}

/// With piped input and nothing but an optional header count, the default
/// command is run, split into its words.
pub proof fn law_default_command_runs_when_no_command_is_given(
    args: Seq<Seq<char>>,
    default_command: Seq<char>,
)
    requires
        args.len() == 0 || (args.len() == 1 && spec_is_whole_number(encode_utf8(args[0]))
            && decimal_value(encode_utf8(args[0])) <= MAX_HEADER_COUNT),
        spec_words(default_command).len() > 0,
    ensures
        spec_invocation(args, false, default_command) matches Ok(
            InvocationView::Run { command, uses_default, .. },
        ) && command == spec_words(default_command) && uses_default,
{
    if args.len() == 1 {
        if spec_is_help_flag(args[0]) {
            lemma_dash_first_byte(args[0]);
            assert(!crate::count::is_digit(encode_utf8(args[0])[0]));
        }
    }
}

/// Usage is shown when standard input is a terminal (refused unless it was
/// asked for), or when the first argument is `-h` or `--help`.
pub proof fn law_help_is_shown_when_asked_or_not_piped(
    args: Seq<Seq<char>>,
    stdin_is_terminal: bool,
    default_command: Seq<char>,
)
    ensures
        (args.len() > 0 && (args[0] == seq!['-', 'h'] || args[0] == seq![
            '-',
            '-',
            'h',
            'e',
            'l',
            'p',
        ])) ==> spec_invocation(args, stdin_is_terminal, default_command) == Ok::<
            InvocationView,
            InvocationError,
        >(InvocationView::ShowHelp { refused: false }),
        (stdin_is_terminal && !(args.len() > 0 && (args[0] == seq!['-', 'h'] || args[0] == seq![
            '-',
            '-',
            'h',
            'e',
            'l',
            'p',
        ]))) ==> spec_invocation(args, stdin_is_terminal, default_command) == Ok::<
            InvocationView,
            InvocationError,
        >(InvocationView::ShowHelp { refused: true }),
{
}

/// A header count larger than the largest signed 64-bit value is refused.
pub proof fn law_too_large_count_is_refused(args: Seq<Seq<char>>, default_command: Seq<char>)
    requires
        args.len() > 0,
        spec_is_whole_number(encode_utf8(args[0])),
        decimal_value(encode_utf8(args[0])) > MAX_HEADER_COUNT,
    ensures
        spec_invocation(args, false, default_command) == Err::<InvocationView, InvocationError>(
            InvocationError::HeaderCountTooLarge,
        ),
{
    if spec_is_help_flag(args[0]) {
        lemma_dash_first_byte(args[0]);
        assert(!crate::count::is_digit(encode_utf8(args[0])[0]));
    }
}

/// A setting that is present and not empty is the default command as it
/// is, whatever its length or content; an absent or empty one gives `sort`.
pub proof fn law_default_command_keeps_any_non_empty_setting(value: String)
    ensures
        value@.len() > 0 ==> spec_default_command(Some(value)) == value@,
        value@.len() == 0 ==> spec_default_command(Some(value)) == "sort"@,
        spec_default_command(None) == "sort"@,
{
}

} // verus!
