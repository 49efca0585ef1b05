use vstd::prelude::*;
use vstd::string::StringExecFns;

verus! {

/// The usage text up to the name of the default command.
pub const HELP_BEFORE_DEFAULT: &'static str = "body: prints the header from a STDIN and sends the 'body' to another command for
    additional processing.  Useful for sort/grep when you want to keep headers.

USAGE:  COMMAND | body [ N ] [ COMMAND_TO_PROCESS_OUTPUT ]
    if the first parameter N is a whole number (0 or more), it prints that many
        lines before proceeding  [ default: skip 1 ]
    if the [ COMMAND_TO_PROCESS_OUTPUT ] is omitted, '";

/// The usage text after the name of the default command.
pub const HELP_AFTER_DEFAULT: &'static str = "' is used
        (override via the BODY_DEFAULT_COMMAND environment variable)

EXAMPLES:
    Sort a file, but maintain a one-line header:
        cat file_with_one_line_header.txt | body
    Sort a file in reverse, but keep the top two lines of header in place:
        cat file_with_two_line_header.txt | body 2 sort -r
    Pass through with no header at all:
        cat file_with_no_header.txt | body 0 sort
";

/// The usage text, which names the default command.
pub open spec fn spec_help_text(default_command: Seq<char>) -> Seq<char> {
    HELP_BEFORE_DEFAULT@ + default_command + HELP_AFTER_DEFAULT@
}

/// Writes the usage text, naming `default_command` as the command used
/// when none is given.
pub fn help_text(default_command: &str) -> (r: String)
    ensures
        r@ == spec_help_text(default_command@),
{
    let mut text = String::from_str(HELP_BEFORE_DEFAULT);
    text.append(default_command);
    text.append(HELP_AFTER_DEFAULT);
    text
}


/// The usage text names the default command once, at a fixed place, and is
/// otherwise the same whatever the command: the texts for two commands agree
/// on everything before and after the name.
pub proof fn law_help_names_the_default_command(a: Seq<char>, b: Seq<char>)
    ensures
        spec_help_text(a).subrange(
            HELP_BEFORE_DEFAULT@.len() as int,
            (HELP_BEFORE_DEFAULT@.len() + a.len()) as int,
        ) == a,
        spec_help_text(a).take(HELP_BEFORE_DEFAULT@.len() as int) == spec_help_text(b).take(
            HELP_BEFORE_DEFAULT@.len() as int,
        ),
        spec_help_text(a).skip((HELP_BEFORE_DEFAULT@.len() + a.len()) as int) == spec_help_text(b).skip(
            (HELP_BEFORE_DEFAULT@.len() + b.len()) as int,
        ),
        spec_help_text(a).len() - a.len() == spec_help_text(b).len() - b.len(),
{
    let k = HELP_BEFORE_DEFAULT@.len() as int;
    assert(spec_help_text(a).subrange(k, k + a.len()) =~= a);
    assert(spec_help_text(a).take(k) =~= HELP_BEFORE_DEFAULT@);
    assert(spec_help_text(b).take(k) =~= HELP_BEFORE_DEFAULT@);
    assert(spec_help_text(a).skip(k + a.len()) =~= HELP_AFTER_DEFAULT@);
    assert(spec_help_text(b).skip(k + b.len()) =~= HELP_AFTER_DEFAULT@);
}

} // verus!
